//! The document model: clusters, contexts and users, each under a name, with
//! the current context and the preferences of one kubeconfig document.

use crate::fields::{FieldMap, FieldsView};
use vstd::prelude::*;

verus! {

/// A record that is identified by its name within its category.
pub trait Named {
    /// The name, as a sequence of characters.
    spec fn name_view(&self) -> Seq<char>;

    /// The name.
    fn name(&self) -> (n: &String)
        ensures
            n@ == self.name_view(),
    ;
}

/// How to reach one cluster.
#[derive(Debug, Clone)]
pub struct Cluster {
    pub certificate_authority_data: Option<String>,
    pub certificate_authority: Option<String>,
    pub server: String,
    pub insecure_skip_tls_verify: Option<bool>,
    /// Fields this library does not know, kept as they were read.
    pub other: FieldMap,
}

/// A cluster under its name.
#[derive(Debug, Clone)]
pub struct NamedCluster {
    pub name: String,
    pub cluster: Cluster,
}

/// A pairing of a cluster and a user, both referred to by name.
#[derive(Debug, Clone)]
pub struct Context {
    pub cluster: String,
    pub user: String,
    pub namespace: Option<String>,
    /// Fields this library does not know, kept as they were read.
    pub other: FieldMap,
}

/// A context under its name.
#[derive(Debug, Clone)]
pub struct NamedContext {
    pub name: String,
    pub context: Context,
}

/// The credentials of one user. None of them is required.
#[derive(Debug, Clone)]
pub struct User {
    pub client_certificate_data: Option<String>,
    pub client_key_data: Option<String>,
    pub client_certificate: Option<String>,
    pub client_key: Option<String>,
    pub token: Option<String>,
    pub username: Option<String>,
    pub password: Option<String>,
    /// Fields this library does not know, kept as they were read.
    pub other: FieldMap,
}

/// A user under its name.
#[derive(Debug, Clone)]
pub struct NamedUser {
    pub name: String,
    pub user: User,
}

/// One kubeconfig document. A category that is absent and one that is
/// present but empty hold the same records: none.
#[derive(Debug, Clone)]
pub struct KubeConfig {
    pub api_version: String,
    pub kind: String,
    pub clusters: Option<Vec<NamedCluster>>,
    pub contexts: Option<Vec<NamedContext>>,
    pub users: Option<Vec<NamedUser>>,
    /// The name of the selected context; empty when none is selected.
    pub current_context: String,
    pub preferences: FieldMap,
}

impl Named for NamedCluster {
    open spec fn name_view(&self) -> Seq<char> {
        self.name@
    }

    fn name(&self) -> (n: &String) {
        &self.name
    }
}

impl Named for NamedContext {
    open spec fn name_view(&self) -> Seq<char> {
        self.name@
    }

    fn name(&self) -> (n: &String) {
        &self.name
    }
}

impl Named for NamedUser {
    open spec fn name_view(&self) -> Seq<char> {
        self.name@
    }

    fn name(&self) -> (n: &String) {
        &self.name
    }
}

/// The records of a category that may be absent.
pub open spec fn records<T>(category: Option<Vec<T>>) -> Seq<T> {
    match category {
        Some(v) => v@,
        None => Seq::empty(),
    }
}

/// What a document holds, as mathematical values.
pub struct KubeConfigView {
    pub api_version: Seq<char>,
    pub kind: Seq<char>,
    pub clusters: Seq<NamedCluster>,
    pub contexts: Seq<NamedContext>,
    pub users: Seq<NamedUser>,
    pub current_context: Seq<char>,
    pub preferences: FieldsView,
}

impl View for KubeConfig {
    type V = KubeConfigView;

    open spec fn view(&self) -> KubeConfigView {
        KubeConfigView {
            api_version: self.api_version@,
            kind: self.kind@,
            clusters: records(self.clusters),
            contexts: records(self.contexts),
            users: records(self.users),
            current_context: self.current_context@,
            preferences: self.preferences@,
        }
    }
}

} // verus!
