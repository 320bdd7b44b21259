//! The validator: checks the references between the records of a merged
//! document.

use crate::config::{records, KubeConfig, KubeConfigView, NamedCluster, NamedContext, NamedUser};
use crate::merge::{contains_name, has_name};
use vstd::prelude::*;

verus! {

/// A reference from a context to a record that the document does not hold.
/// Such a reference is reported and never fatal.
#[derive(Debug, Clone, PartialEq, Eq)]
pub enum Warning {
    /// The context `context` refers to the cluster `cluster`, and no cluster
    /// has that name.
    MissingCluster { context: String, cluster: String },
    /// The context `context` refers to the user `user`, and no user has that
    /// name.
    MissingUser { context: String, user: String },
}

/// A [`Warning`] as mathematical values.
pub enum WarningView {
    MissingCluster { context: Seq<char>, cluster: Seq<char> },
    MissingUser { context: Seq<char>, user: Seq<char> },
}

impl View for Warning {
    type V = WarningView;

    open spec fn view(&self) -> WarningView {
        match *self {
            Warning::MissingCluster { context, cluster } => WarningView::MissingCluster {
                context: context@,
                cluster: cluster@,
            },
            Warning::MissingUser { context, user } => WarningView::MissingUser {
                context: context@,
                user: user@,
            },
        }
    }
}

/// Why a merged document is not usable.
#[derive(Debug, Clone, PartialEq, Eq)]
pub enum ValidationError {
    /// The document selects the context `name`, and no context has that
    /// name.
    UnknownCurrentContext { name: String },
}

/// The text of a warning about a missing record of the given kind.
pub open spec fn warning_text(context: Seq<char>, kind: Seq<char>, name: Seq<char>) -> Seq<char> {
    "Context '"@ + context + "' references missing "@ + kind + " '"@ + name + "'"@
}

impl Warning {
    /// The warning in words.
    pub fn message(&self) -> (text: String)
        ensures
            text@ == match self@ {
                WarningView::MissingCluster { context, cluster } => warning_text(
                    context,
                    "cluster"@,
                    cluster,
                ),
                WarningView::MissingUser { context, user } => warning_text(context, "user"@, user),
            },
    {
        let mut text = String::from_str("Context '");
        match self {
            Warning::MissingCluster { context, cluster } => {
                text.append(context.as_str());
                text.append("' references missing ");
                text.append("cluster");
                text.append(" '");
                text.append(cluster.as_str());
            },
            Warning::MissingUser { context, user } => {
                text.append(context.as_str());
                text.append("' references missing ");
                text.append("user");
                text.append(" '");
                text.append(user.as_str());
            },
        }
        text.append("'");
        text
    }
}

impl ValidationError {
    /// The name of the context that was selected and not found.
    pub open spec fn name_view(&self) -> Seq<char> {
        match *self {
            ValidationError::UnknownCurrentContext { name } => name@,
        }
    }

    /// The error in words.
    pub fn message(&self) -> (text: String)
        ensures
            text@ == "Current context '"@ + self.name_view() + "' not found in merged contexts"@,
    {
        let mut text = String::from_str("Current context '");
        match self {
            ValidationError::UnknownCurrentContext { name } => {
                text.append(name.as_str());
            },
        }
        text.append("' not found in merged contexts");
        text
    }
}

/// The document selects a context, and no context of that name is in it.
pub open spec fn selects_unknown_context(doc: KubeConfigView) -> bool {
    doc.current_context.len() > 0 && !has_name(doc.contexts, doc.current_context)
}

/// What there is to report of one context: first its cluster, then its
/// user, each where no record of that name exists.
pub open spec fn context_warnings(
    context: NamedContext,
    clusters: Seq<NamedCluster>,
    users: Seq<NamedUser>,
) -> Seq<WarningView> {
    let about_cluster = if has_name(clusters, context.context.cluster@) {
        Seq::empty()
    } else {
        seq![
            WarningView::MissingCluster {
                context: context.name@,
                cluster: context.context.cluster@,
            },
        ]
    };
    let about_user = if has_name(users, context.context.user@) {
        Seq::empty()
    } else {
        seq![WarningView::MissingUser { context: context.name@, user: context.context.user@ }]
    };
    about_cluster + about_user
}

/// What there is to report of `contexts`, context by context.
pub open spec fn dangling_references(
    contexts: Seq<NamedContext>,
    clusters: Seq<NamedCluster>,
    users: Seq<NamedUser>,
) -> Seq<WarningView>
    decreases contexts.len(),
{
    if contexts.len() == 0 {
        Seq::empty()
    } else {
        dangling_references(contexts.drop_last(), clusters, users) + context_warnings(
            contexts.last(),
            clusters,
            users,
        )
    }
}

/// `warning` is what there is to report of `context`: it names the context
/// and a cluster or a user that the context refers to and that no record is
/// named after.
pub open spec fn reports(
    warning: WarningView,
    context: NamedContext,
    clusters: Seq<NamedCluster>,
    users: Seq<NamedUser>,
) -> bool {
    ||| warning == (WarningView::MissingCluster {
        context: context.name@,
        cluster: context.context.cluster@,
    }) && !has_name(clusters, context.context.cluster@)
    ||| warning == (WarningView::MissingUser {
        context: context.name@,
        user: context.context.user@,
    }) && !has_name(users, context.context.user@)
}

/// The warnings are sound and complete: a warning is given exactly when it
/// reports a dangling reference of one of the contexts.
pub proof fn lemma_warnings_report_dangling_references(
    contexts: Seq<NamedContext>,
    clusters: Seq<NamedCluster>,
    users: Seq<NamedUser>,
    warning: WarningView,
)
    ensures
        dangling_references(contexts, clusters, users).contains(warning) <==> exists|i: int|
            0 <= i < contexts.len() && reports(warning, #[trigger] contexts[i], clusters, users),
    decreases contexts.len(),
{
    if contexts.len() > 0 {
        let front = contexts.drop_last();
        let last = contexts.last();
        let before = dangling_references(front, clusters, users);
        let added = context_warnings(last, clusters, users);
        let all = dangling_references(contexts, clusters, users);
        lemma_warnings_report_dangling_references(front, clusters, users, warning);
        assert(added.contains(warning) <==> reports(warning, last, clusters, users)) by {
            if reports(warning, last, clusters, users) {
                if warning is MissingCluster {
                    assert(added[0] == warning);
                } else {
                    assert(added[added.len() - 1] == warning);
                }
            }
        }
        if exists|i: int|
            0 <= i < contexts.len() && reports(warning, #[trigger] contexts[i], clusters, users) {
            let i = choose|i: int|
                0 <= i < contexts.len() && reports(
                    warning,
                    #[trigger] contexts[i],
                    clusters,
                    users,
                );
            if i < contexts.len() - 1 {
                assert(reports(warning, front[i], clusters, users));
                let k = choose|k: int| 0 <= k < before.len() && before[k] == warning;
                assert(all[k] == warning);
            } else {
                let k = choose|k: int| 0 <= k < added.len() && added[k] == warning;
                assert(all[before.len() + k] == warning);
            }
        }
    }
}

/// Where every context refers to a cluster and a user that exist, and only
/// there, nothing is reported.
pub proof fn lemma_no_warning_without_dangling_reference(
    contexts: Seq<NamedContext>,
    clusters: Seq<NamedCluster>,
    users: Seq<NamedUser>,
)
    ensures
        dangling_references(contexts, clusters, users).len() == 0 <==> forall|i: int|
            0 <= i < contexts.len() ==> has_name(
                clusters,
                (#[trigger] contexts[i]).context.cluster@,
            ) && has_name(users, contexts[i].context.user@),
    decreases contexts.len(),
{
    if contexts.len() > 0 {
        let front = contexts.drop_last();
        lemma_no_warning_without_dangling_reference(front, clusters, users);
        if dangling_references(contexts, clusters, users).len() == 0 {
            assert forall|i: int| 0 <= i < contexts.len() implies has_name(
                clusters,
                (#[trigger] contexts[i]).context.cluster@,
            ) && has_name(users, contexts[i].context.user@) by {
                if i < contexts.len() - 1 {
                    assert(has_name(clusters, front[i].context.cluster@));
                }
            }
        }
    }
}

/// The views of a list of warnings.
pub open spec fn warning_views(warnings: Seq<Warning>) -> Seq<WarningView> {
    warnings.map_values(|w: Warning| w@)
}

/// Whether a category that may be absent holds a record named `name`.
fn category_contains<T: crate::config::Named>(category: &Option<Vec<T>>, name: &String) -> (found:
    bool)
    ensures
        found == has_name(records(*category), name@),
{
    match category {
        Some(items) => contains_name(items, name),
        None => false,
    }
}

/// Checks the references of a merged document.
///
/// Fails exactly when the document selects a current context that it does
/// not hold. Otherwise returns, context by context, a warning for each
/// cluster and each user that a context refers to and the document does not
/// hold.
pub fn validate_config(config: &KubeConfig) -> (result: Result<Vec<Warning>, ValidationError>)
    ensures
        result is Err <==> selects_unknown_context(config@),
        result matches Err(error) ==> error.name_view() == config@.current_context,
        result matches Ok(warnings) ==> warning_views(warnings@) == dangling_references(
            config@.contexts,
            config@.clusters,
            config@.users,
        ),
{
    if !config.current_context.as_str().is_empty() && !category_contains(
        &config.contexts,
        &config.current_context,
    ) {
        return Err(ValidationError::UnknownCurrentContext { name: config.current_context.clone() });
    }
    let mut warnings: Vec<Warning> = Vec::new();
    if let Some(contexts) = &config.contexts {
        let mut i: usize = 0;
        while i < contexts.len()
            invariant
                i <= contexts@.len(),
                warning_views(warnings@) == dangling_references(
                    contexts@.take(i as int),
                    records(config.clusters),
                    records(config.users),
                ),
            decreases contexts@.len() - i,
        {
            let context = &contexts[i];
            proof {
                assert(contexts@.take(i + 1).drop_last() =~= contexts@.take(i as int));
            }
            if !category_contains(&config.clusters, &context.context.cluster) {
                warnings.push(
                    Warning::MissingCluster {
                        context: context.name.clone(),
                        cluster: context.context.cluster.clone(),
                    },
                );
            }
            if !category_contains(&config.users, &context.context.user) {
                warnings.push(
                    Warning::MissingUser {
                        context: context.name.clone(),
                        user: context.context.user.clone(),
                    },
                );
            }
            i += 1;
        }
        proof {
            assert(contexts@.take(contexts@.len() as int) =~= contexts@);
        }
    }
    Ok(warnings)
}

} // verus!
