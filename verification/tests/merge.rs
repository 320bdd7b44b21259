#![allow(deprecated)]

use kubemerge::config::{
    Cluster, Context, KubeConfig, NamedCluster, NamedContext, NamedUser, User,
};
use kubemerge::fields::FieldMap;
use kubemerge::merge::{
    contains_name, merge_config_items, merge_items, merge_kubeconfigs, merge_preferences,
    MergeError,
};
use serde_yml::Value;

fn text(s: &str) -> Value {
    Value::String(s.to_string())
}

fn cluster(name: &str, server: &str) -> NamedCluster {
    NamedCluster {
        name: name.to_string(),
        cluster: Cluster {
            certificate_authority_data: None,
            certificate_authority: None,
            server: server.to_string(),
            insecure_skip_tls_verify: None,
            other: FieldMap::new(),
        },
    }
}

fn context(name: &str, cluster: &str, user: &str) -> NamedContext {
    NamedContext {
        name: name.to_string(),
        context: Context {
            cluster: cluster.to_string(),
            user: user.to_string(),
            namespace: None,
            other: FieldMap::new(),
        },
    }
}

fn user(name: &str, token: Option<&str>) -> NamedUser {
    NamedUser {
        name: name.to_string(),
        user: User {
            client_certificate_data: None,
            client_key_data: None,
            client_certificate: None,
            client_key: None,
            token: token.map(|t| t.to_string()),
            username: None,
            password: None,
            other: FieldMap::new(),
        },
    }
}

fn empty_document() -> KubeConfig {
    KubeConfig {
        api_version: "v1".to_string(),
        kind: "Config".to_string(),
        clusters: None,
        contexts: None,
        users: None,
        current_context: String::new(),
        preferences: FieldMap::new(),
    }
}

fn names_of_clusters(config: &KubeConfig) -> Vec<String> {
    match &config.clusters {
        Some(items) => items.iter().map(|c| c.name.clone()).collect(),
        None => Vec::new(),
    }
}

fn full_document() -> KubeConfig {
    let mut preferences = FieldMap::new();
    preferences.insert("colors".to_string(), Value::Bool(true));
    let mut first = cluster("prod", "https://prod.example:6443");
    first.cluster.certificate_authority = Some("/etc/ca.crt".to_string());
    first.cluster.insecure_skip_tls_verify = Some(false);
    first.cluster.other.insert("proxy-url".to_string(), text("http://proxy:3128"));
    let mut document = empty_document();
    document.clusters = Some(vec![first, cluster("dev", "https://dev.example:6443")]);
    document.contexts = Some(vec![context("prod-admin", "prod", "admin")]);
    document.users = Some(vec![user("admin", Some("secret-token"))]);
    document.current_context = "prod-admin".to_string();
    document.preferences = preferences;
    document
}

#[test]
fn merge_of_one_document_among_empty_ones_is_that_document() {
    let expected = full_document();
    let merged = merge_kubeconfigs(vec![
        empty_document(),
        full_document(),
        empty_document(),
        empty_document(),
    ])
    .unwrap();

    assert_eq!(format!("{:?}", merged), format!("{:?}", expected));
    assert_eq!(merged.api_version, "v1");
    assert_eq!(merged.kind, "Config");
    assert_eq!(merged.current_context, expected.current_context);

    let clusters = merged.clusters.unwrap();
    let wanted = expected.clusters.unwrap();
    assert_eq!(clusters.len(), 2);
    for (got, want) in clusters.iter().zip(wanted.iter()) {
        assert_eq!(got.name, want.name);
        assert_eq!(got.cluster.server, want.cluster.server);
        assert_eq!(got.cluster.certificate_authority, want.cluster.certificate_authority);
        assert_eq!(
            got.cluster.certificate_authority_data,
            want.cluster.certificate_authority_data
        );
        assert_eq!(got.cluster.insecure_skip_tls_verify, want.cluster.insecure_skip_tls_verify);
        assert_eq!(got.cluster.other.len(), want.cluster.other.len());
    }
    assert_eq!(
        clusters[0].cluster.other.get(&"proxy-url".to_string()),
        Some(&text("http://proxy:3128"))
    );

    let contexts = merged.contexts.unwrap();
    assert_eq!(contexts.len(), 1);
    assert_eq!(contexts[0].name, "prod-admin");
    assert_eq!(contexts[0].context.cluster, "prod");
    assert_eq!(contexts[0].context.user, "admin");
    assert_eq!(contexts[0].context.namespace, None);

    let users = merged.users.unwrap();
    assert_eq!(users.len(), 1);
    assert_eq!(users[0].name, "admin");
    assert_eq!(users[0].user.token, Some("secret-token".to_string()));

    assert_eq!(merged.preferences.len(), 1);
    assert_eq!(merged.preferences.get(&"colors".to_string()), Some(&Value::Bool(true)));
}

#[test]
fn merge_of_a_single_document_keeps_it() {
    let merged = merge_kubeconfigs(vec![full_document()]).unwrap();
    assert_eq!(names_of_clusters(&merged), vec!["prod".to_string(), "dev".to_string()]);
    assert_eq!(merged.current_context, "prod-admin");
}

#[test]
fn first_definition_of_a_cluster_wins() {
    let mut a = empty_document();
    let mut x1 = cluster("x", "https://one");
    x1.cluster.other.insert("F".to_string(), Value::from(1));
    a.clusters = Some(vec![x1]);

    let mut b = empty_document();
    let mut x2 = cluster("x", "https://two");
    x2.cluster.other.insert("F".to_string(), Value::from(2));
    b.clusters = Some(vec![x2]);

    let merged = merge_kubeconfigs(vec![a, b]).unwrap();
    let clusters = merged.clusters.unwrap();
    assert_eq!(clusters.len(), 1);
    assert_eq!(clusters[0].name, "x");
    assert_eq!(clusters[0].cluster.server, "https://one");
    assert_eq!(clusters[0].cluster.other.get(&"F".to_string()), Some(&Value::from(1)));
}

#[test]
fn first_definition_wins_within_one_document() {
    let mut a = empty_document();
    a.users = Some(vec![user("u", Some("first")), user("v", None), user("u", Some("second"))]);
    let merged = merge_kubeconfigs(vec![a]).unwrap();
    let users = merged.users.unwrap();
    assert_eq!(users.len(), 2);
    assert_eq!(users[0].name, "u");
    assert_eq!(users[0].user.token, Some("first".to_string()));
    assert_eq!(users[1].name, "v");
}

#[test]
fn later_documents_only_add_new_names_in_order() {
    let mut a = empty_document();
    a.clusters = Some(vec![cluster("b", "https://a-b"), cluster("a", "https://a-a")]);
    let mut b = empty_document();
    b.clusters = Some(vec![
        cluster("c", "https://b-c"),
        cluster("a", "https://b-a"),
        cluster("d", "https://b-d"),
    ]);
    let merged = merge_kubeconfigs(vec![a, b]).unwrap();
    let clusters = merged.clusters.unwrap();
    let seen: Vec<(String, String)> =
        clusters.iter().map(|c| (c.name.clone(), c.cluster.server.clone())).collect();
    assert_eq!(
        seen,
        vec![
            ("b".to_string(), "https://a-b".to_string()),
            ("a".to_string(), "https://a-a".to_string()),
            ("c".to_string(), "https://b-c".to_string()),
            ("d".to_string(), "https://b-d".to_string()),
        ]
    );
}

#[test]
fn names_are_unique_per_category_and_not_across_categories() {
    let mut a = empty_document();
    a.clusters = Some(vec![cluster("same", "https://s")]);
    a.contexts = Some(vec![context("same", "same", "same")]);
    a.users = Some(vec![user("same", None)]);
    let mut b = empty_document();
    b.clusters = Some(vec![cluster("same", "https://other")]);
    b.contexts = Some(vec![context("same", "x", "y")]);
    b.users = Some(vec![user("same", Some("t"))]);
    let merged = merge_kubeconfigs(vec![a, b]).unwrap();
    assert_eq!(merged.clusters.unwrap().len(), 1);
    let contexts = merged.contexts.unwrap();
    assert_eq!(contexts.len(), 1);
    assert_eq!(contexts[0].context.cluster, "same");
    let users = merged.users.unwrap();
    assert_eq!(users.len(), 1);
    assert_eq!(users[0].user.token, None);
}

#[test]
fn last_value_of_a_preference_wins() {
    let mut a = empty_document();
    a.preferences.insert("k".to_string(), Value::from(1));
    a.preferences.insert("only-a".to_string(), text("a"));
    let mut b = empty_document();
    b.preferences.insert("k".to_string(), Value::from(2));
    b.preferences.insert("only-b".to_string(), text("b"));

    let merged = merge_kubeconfigs(vec![a, b]).unwrap();
    assert_eq!(merged.preferences.len(), 3);
    assert_eq!(merged.preferences.get(&"k".to_string()), Some(&Value::from(2)));
    assert_eq!(merged.preferences.get(&"only-a".to_string()), Some(&text("a")));
    assert_eq!(merged.preferences.get(&"only-b".to_string()), Some(&text("b")));
}

#[test]
fn first_selected_current_context_wins() {
    let a = empty_document();
    let mut b = empty_document();
    b.current_context = "ctx1".to_string();
    b.contexts = Some(vec![context("ctx1", "c", "u")]);
    let mut c = empty_document();
    c.current_context = "ctx2".to_string();

    let merged = merge_kubeconfigs(vec![a, b, c]).unwrap();
    assert_eq!(merged.current_context, "ctx1");
}

#[test]
fn metadata_of_the_inputs_is_not_merged() {
    let mut a = full_document();
    a.api_version = "v2".to_string();
    a.kind = "Other".to_string();
    let merged = merge_kubeconfigs(vec![a]).unwrap();
    assert_eq!(merged.api_version, "v1");
    assert_eq!(merged.kind, "Config");
}

#[test]
fn merge_of_nothing_fails() {
    let result = merge_kubeconfigs(Vec::new());
    assert_eq!(result.err(), Some(MergeError::NothingToMerge));
}

#[test]
fn merge_of_empty_documents_fails() {
    let mut present_but_empty = empty_document();
    present_but_empty.clusters = Some(Vec::new());
    present_but_empty.contexts = Some(Vec::new());
    present_but_empty.users = Some(Vec::new());
    let result = merge_kubeconfigs(vec![empty_document(), present_but_empty]);
    assert_eq!(result.err(), Some(MergeError::NothingToMerge));
}

#[test]
fn a_current_context_alone_is_a_contribution() {
    let mut a = empty_document();
    a.current_context = "ctx".to_string();
    let merged = merge_kubeconfigs(vec![a]).unwrap();
    assert_eq!(merged.current_context, "ctx");
    assert!(merged.clusters.is_none());
    assert!(merged.contexts.is_none());
    assert!(merged.users.is_none());
    assert!(merged.preferences.is_empty());
}

#[test]
fn a_preference_alone_is_a_contribution() {
    let mut a = empty_document();
    a.preferences.insert("k".to_string(), Value::Null);
    let merged = merge_kubeconfigs(vec![a]).unwrap();
    assert_eq!(merged.preferences.get(&"k".to_string()), Some(&Value::Null));
    assert_eq!(merged.current_context, "");
}

#[test]
fn categories_without_records_are_absent() {
    let mut a = empty_document();
    a.users = Some(vec![user("u", None)]);
    a.clusters = Some(Vec::new());
    let merged = merge_kubeconfigs(vec![a]).unwrap();
    assert!(merged.clusters.is_none());
    assert!(merged.contexts.is_none());
    assert_eq!(merged.users.unwrap().len(), 1);
}

#[test]
fn unknown_fields_pass_through_the_merge_unchanged() {
    let mut nested = serde_yml::Mapping::new();
    nested.insert("command".to_string(), text("aws"));
    nested.insert(
        "args".to_string(),
        Value::Sequence(vec![text("eks"), text("get-token")]),
    );
    let exec = Value::Mapping(nested);

    let mut u = user("eks", None);
    u.user.other.insert("exec".to_string(), exec.clone());
    let mut c = context("ctx", "c", "eks");
    c.context.other.insert("extensions".to_string(), Value::Sequence(vec![Value::from(7)]));
    let mut k = cluster("c", "https://c");
    k.cluster.other.insert("tls-server-name".to_string(), text("c.internal"));

    let mut a = empty_document();
    a.clusters = Some(vec![k]);
    a.contexts = Some(vec![c]);
    a.users = Some(vec![u]);

    let merged = merge_kubeconfigs(vec![empty_document(), a]).unwrap();
    let users = merged.users.unwrap();
    assert_eq!(users[0].user.other.len(), 1);
    assert_eq!(users[0].user.other.get(&"exec".to_string()), Some(&exec));
    let contexts = merged.contexts.unwrap();
    assert_eq!(
        contexts[0].context.other.get(&"extensions".to_string()),
        Some(&Value::Sequence(vec![Value::from(7)]))
    );
    let clusters = merged.clusters.unwrap();
    assert_eq!(
        clusters[0].cluster.other.get(&"tls-server-name".to_string()),
        Some(&text("c.internal"))
    );
}

#[test]
fn merge_is_deterministic() {
    let build = || {
        let mut b = empty_document();
        b.clusters = Some(vec![cluster("dev", "https://elsewhere"), cluster("qa", "https://qa")]);
        b.preferences.insert("colors".to_string(), Value::Bool(false));
        vec![full_document(), b]
    };
    let one = merge_kubeconfigs(build()).unwrap();
    let two = merge_kubeconfigs(build()).unwrap();
    assert_eq!(names_of_clusters(&one), names_of_clusters(&two));
    assert_eq!(
        names_of_clusters(&one),
        vec!["prod".to_string(), "dev".to_string(), "qa".to_string()]
    );
    assert_eq!(one.current_context, two.current_context);
    assert_eq!(
        one.preferences.get(&"colors".to_string()),
        two.preferences.get(&"colors".to_string())
    );
    assert_eq!(one.preferences.get(&"colors".to_string()), Some(&Value::Bool(false)));
}

#[test]
fn merge_items_counts_what_it_appends() {
    let mut merged = vec![cluster("a", "https://a")];
    let added = merge_items(
        &mut merged,
        vec![cluster("a", "https://dup"), cluster("b", "https://b"), cluster("b", "https://dup")],
    );
    assert_eq!(added, 1);
    assert_eq!(merged.len(), 2);
    assert_eq!(merged[0].cluster.server, "https://a");
    assert_eq!(merged[1].cluster.server, "https://b");
}

#[test]
fn merge_config_items_counts_all_categories() {
    let mut all_clusters = vec![cluster("a", "https://a")];
    let mut all_contexts = Vec::new();
    let mut all_users = Vec::new();
    let added = merge_config_items(
        Some(vec![cluster("a", "https://dup"), cluster("b", "https://b")]),
        Some(vec![context("c1", "a", "u"), context("c2", "b", "u")]),
        None,
        &mut all_clusters,
        &mut all_contexts,
        &mut all_users,
    );
    assert_eq!(added, 3);
    assert_eq!(all_clusters.len(), 2);
    assert_eq!(all_contexts.len(), 2);
    assert_eq!(all_users.len(), 0);

    let again = merge_config_items(
        Some(vec![cluster("b", "https://dup")]),
        None,
        Some(Vec::new()),
        &mut all_clusters,
        &mut all_contexts,
        &mut all_users,
    );
    assert_eq!(again, 0);
    assert_eq!(all_clusters.len(), 2);
}

#[test]
fn contains_name_compares_whole_names() {
    let merged = vec![cluster("prod", "https://p"), cluster("dev", "https://d")];
    assert!(contains_name(&merged, &"dev".to_string()));
    assert!(!contains_name(&merged, &"de".to_string()));
    assert!(!contains_name(&merged, &"Dev".to_string()));
    assert!(!contains_name(&Vec::<NamedCluster>::new(), &"dev".to_string()));
}

#[test]
fn merge_preferences_overrides_from_the_right() {
    let mut merged = FieldMap::new();
    merged.insert("a".to_string(), Value::from(1));
    merged.insert("b".to_string(), Value::from(2));
    let mut later = FieldMap::new();
    later.insert("b".to_string(), Value::from(20));
    later.insert("c".to_string(), Value::from(30));
    merge_preferences(&mut merged, later);
    assert_eq!(merged.len(), 3);
    assert_eq!(merged.get(&"a".to_string()), Some(&Value::from(1)));
    assert_eq!(merged.get(&"b".to_string()), Some(&Value::from(20)));
    assert_eq!(merged.get(&"c".to_string()), Some(&Value::from(30)));
}

#[test]
fn merge_error_message() {
    assert_eq!(MergeError::NothingToMerge.message(), "No valid kubeconfig files were processed");
}
