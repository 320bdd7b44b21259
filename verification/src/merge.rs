//! The merge engine: folds an ordered list of documents into one.

use crate::config::{
    records, KubeConfig, KubeConfigView, Named, NamedCluster, NamedContext, NamedUser,
};
use crate::fields::{entries_map, FieldMap, FieldsView};
use crate::merge_laws::{lemma_merged_names_distinct, lemma_nothing_to_merge};
use vstd::prelude::*;

verus! {

/// Some record of `s` has the name `name`.
pub open spec fn has_name<T: Named>(s: Seq<T>, name: Seq<char>) -> bool {
    exists|i: int| 0 <= i < s.len() && (#[trigger] s[i]).name_view() == name
}

/// No two records of `s` share a name.
pub open spec fn names_distinct<T: Named>(s: Seq<T>) -> bool {
    forall|i: int, j: int|
        0 <= i < j < s.len() ==> (#[trigger] s[i]).name_view() != (#[trigger] s[j]).name_view()
}

/// `merged` with `item` at its end, unless a record of that name is there
/// already.
pub open spec fn add_new<T: Named>(merged: Seq<T>, item: T) -> Seq<T> {
    if has_name(merged, item.name_view()) {
        merged
    } else {
        merged.push(item)
    }
}

/// `merged` after the records of `items` were offered to it in order: each
/// is appended unless its name is taken.
pub open spec fn merge_named<T: Named>(merged: Seq<T>, items: Seq<T>) -> Seq<T>
    decreases items.len(),
{
    if items.len() == 0 {
        merged
    } else {
        add_new(merge_named(merged, items.drop_last()), items.last())
    }
}

/// Whether `merged` holds a record named `name`.
pub fn contains_name<T: Named>(merged: &Vec<T>, name: &String) -> (found: bool)
    ensures
        found == has_name(merged@, name@),
{
    let mut i: usize = 0;
    while i < merged.len()
        invariant
            i <= merged@.len(),
            forall|j: int| 0 <= j < i ==> (#[trigger] merged@[j]).name_view() != name@,
        decreases merged@.len() - i,
    {
        if *merged[i].name() == *name {
            return true;
        }
        i += 1;
    }
    false
}

/// Offers the records of `items` to `merged`, in order. A record whose name
/// `merged` already holds is dropped; the others are appended. Returns how
/// many were appended.
pub fn merge_items<T: Named>(merged: &mut Vec<T>, items: Vec<T>) -> (added: usize)
    ensures
        final(merged)@ == merge_named(old(merged)@, items@),
        added == final(merged)@.len() - old(merged)@.len(),
{
    let mut added: usize = 0;
    assert(items@.len() == items.len());
    for item in it: items
        invariant
            it.seq() == items@,
            items@.len() <= usize::MAX,
            merged@ == merge_named(old(merged)@, items@.take(it.index() as int)),
            added == merged@.len() - old(merged)@.len(),
            added <= it.index(),
    {
        proof {
            let n = it.index() as int;
            assert(items@.take(n + 1).drop_last() =~= items@.take(n));
        }
        if !contains_name(merged, item.name()) {
            merged.push(item);
            added += 1;
        }
    }
    proof {
        assert(items@.take(items@.len() as int) =~= items@);
    }
    added
}

/// The sum of three counts, or `usize::MAX` where the sum is larger.
pub open spec fn capped_sum(a: int, b: int, c: int) -> int {
    if a + b + c > usize::MAX {
        usize::MAX as int
    } else {
        a + b + c
    }
}

/// Offers the clusters, contexts and users of one document to the merged
/// records of their category. Returns how many records were appended, all
/// three categories together (never more than `usize::MAX`).
pub fn merge_config_items(
    clusters: Option<Vec<NamedCluster>>,
    contexts: Option<Vec<NamedContext>>,
    users: Option<Vec<NamedUser>>,
    all_clusters: &mut Vec<NamedCluster>,
    all_contexts: &mut Vec<NamedContext>,
    all_users: &mut Vec<NamedUser>,
) -> (added_items: usize)
    ensures
        final(all_clusters)@ == merge_named(old(all_clusters)@, records(clusters)),
        final(all_contexts)@ == merge_named(old(all_contexts)@, records(contexts)),
        final(all_users)@ == merge_named(old(all_users)@, records(users)),
        added_items == capped_sum(
            final(all_clusters)@.len() - old(all_clusters)@.len(),
            final(all_contexts)@.len() - old(all_contexts)@.len(),
            final(all_users)@.len() - old(all_users)@.len(),
        ),
{
    let added_clusters = match clusters {
        Some(items) => merge_items(all_clusters, items),
        None => 0,
    };
    let added_contexts = match contexts {
        Some(items) => merge_items(all_contexts, items),
        None => 0,
    };
    let added_users = match users {
        Some(items) => merge_items(all_users, items),
        None => 0,
    };
    added_clusters.saturating_add(added_contexts).saturating_add(added_users)
}

/// Stores every field of `preferences` in `merged`, replacing what `merged`
/// held under the same key.
pub fn merge_preferences(merged: &mut FieldMap, preferences: FieldMap)
    ensures
        final(merged)@ == old(merged)@.union_prefer_right(preferences@),
{
    let entries = preferences.into_entries();
    for entry in it: entries
        invariant
            it.seq() == entries@,
            merged@ == old(merged)@.union_prefer_right(
                entries_map(entries@.take(it.index() as int)),
            ),
    {
        proof {
            let n = it.index() as int;
            assert(entries@.take(n + 1).drop_last() =~= entries@.take(n));
        }
        merged.insert(entry.key, entry.value);
    }
    proof {
        assert(entries@.take(entries@.len() as int) =~= entries@);
    }
}

/// A document that defines no record, selects no context and sets no
/// preference.
pub open spec fn contributes_nothing(doc: KubeConfigView) -> bool {
    &&& doc.clusters.len() == 0
    &&& doc.contexts.len() == 0
    &&& doc.users.len() == 0
    &&& doc.current_context.len() == 0
    &&& doc.preferences == FieldsView::empty()
}

/// The selected context after a later document was read: the earlier
/// selection stands, and only where there is none the later one is taken.
pub open spec fn first_selected(merged: Seq<char>, later: Seq<char>) -> Seq<char> {
    if merged.len() == 0 {
        later
    } else {
        merged
    }
}

/// The records of one category after the lists of all documents were
/// offered in order.
pub open spec fn merge_all<T: Named>(lists: Seq<Seq<T>>) -> Seq<T>
    decreases lists.len(),
{
    if lists.len() == 0 {
        Seq::empty()
    } else {
        merge_named(merge_all(lists.drop_last()), lists.last())
    }
}

/// The first selection in `selections` that is not empty, or the empty name
/// where there is none.
pub open spec fn select_first(selections: Seq<Seq<char>>) -> Seq<char>
    decreases selections.len(),
{
    if selections.len() == 0 {
        Seq::empty()
    } else {
        first_selected(select_first(selections.drop_last()), selections.last())
    }
}

/// The union of `maps` in which a later map overrides the earlier ones.
pub open spec fn union_all(maps: Seq<FieldsView>) -> FieldsView
    decreases maps.len(),
{
    if maps.len() == 0 {
        Map::empty()
    } else {
        union_all(maps.drop_last()).union_prefer_right(maps.last())
    }
}

/// The cluster lists of `docs`, document by document.
pub open spec fn cluster_lists(docs: Seq<KubeConfigView>) -> Seq<Seq<NamedCluster>> {
    docs.map_values(|doc: KubeConfigView| doc.clusters)
}

/// The context lists of `docs`, document by document.
pub open spec fn context_lists(docs: Seq<KubeConfigView>) -> Seq<Seq<NamedContext>> {
    docs.map_values(|doc: KubeConfigView| doc.contexts)
}

/// The user lists of `docs`, document by document.
pub open spec fn user_lists(docs: Seq<KubeConfigView>) -> Seq<Seq<NamedUser>> {
    docs.map_values(|doc: KubeConfigView| doc.users)
}

/// The current contexts of `docs`, document by document.
pub open spec fn selections(docs: Seq<KubeConfigView>) -> Seq<Seq<char>> {
    docs.map_values(|doc: KubeConfigView| doc.current_context)
}

/// The preferences of `docs`, document by document.
pub open spec fn preference_maps(docs: Seq<KubeConfigView>) -> Seq<FieldsView> {
    docs.map_values(|doc: KubeConfigView| doc.preferences)
}

/// The document that `docs` merge into, the first document taking
/// precedence. Records go by first occurrence, the current context by first
/// selection, preferences by last assignment; the metadata is fixed.
pub open spec fn merge_documents(docs: Seq<KubeConfigView>) -> KubeConfigView {
    KubeConfigView {
        api_version: "v1"@,
        kind: "Config"@,
        clusters: merge_all(cluster_lists(docs)),
        contexts: merge_all(context_lists(docs)),
        users: merge_all(user_lists(docs)),
        current_context: select_first(selections(docs)),
        preferences: union_all(preference_maps(docs)),
    }
}

/// The views of a list of documents.
pub open spec fn document_views(documents: Seq<KubeConfig>) -> Seq<KubeConfigView> {
    documents.map_values(|doc: KubeConfig| doc@)
}

/// Why a merge produced no document.
#[derive(Debug, Clone, Copy, PartialEq, Eq, Structural)]
pub enum MergeError {
    /// No document defined a record, selected a context or set a preference.
    NothingToMerge,
}

impl MergeError {
    /// The error in words.
    pub fn message(&self) -> (text: String)
        ensures
            text@ == "No valid kubeconfig files were processed"@,
    {
        String::from_str("No valid kubeconfig files were processed")
    }
}

/// A category as it stands in a merged document: absent when it holds no
/// record.
fn into_category<T>(items: Vec<T>) -> (category: Option<Vec<T>>)
    ensures
        records(category) == items@,
        category is Some <==> items@.len() > 0,
{
    if items.is_empty() {
        None
    } else {
        Some(items)
    }
}

/// Merges `documents` into one, the first document taking precedence.
///
/// Of the records that share a name within a category only the first is
/// kept, in the order of first occurrence. The current context is the first
/// one that a document selects. A preference is taken from the last document
/// that sets it. The result carries `apiVersion: v1` and `kind: Config`, and
/// a category without records is absent from it.
///
/// Fails exactly when no document contributes anything: when there is no
/// document, or each of them defines no record, selects no context and sets
/// no preference.
pub fn merge_kubeconfigs(documents: Vec<KubeConfig>) -> (result: Result<KubeConfig, MergeError>)
    ensures
        result is Err <==> forall|i: int|
            0 <= i < documents@.len() ==> contributes_nothing((#[trigger] documents@[i])@),
        result is Err <==> contributes_nothing(merge_documents(document_views(documents@))),
        result matches Ok(merged) ==> {
            &&& merged@ == merge_documents(document_views(documents@))
            &&& merged.clusters is Some <==> merged@.clusters.len() > 0
            &&& merged.contexts is Some <==> merged@.contexts.len() > 0
            &&& merged.users is Some <==> merged@.users.len() > 0
            &&& names_distinct(merged@.clusters)
            &&& names_distinct(merged@.contexts)
            &&& names_distinct(merged@.users)
        },
{
    let mut all_clusters: Vec<NamedCluster> = Vec::new();
    let mut all_contexts: Vec<NamedContext> = Vec::new();
    let mut all_users: Vec<NamedUser> = Vec::new();
    let mut current_context = String::new();
    let mut preferences = FieldMap::new();
    let ghost views = document_views(documents@);

    for config in it: documents
        invariant
            it.seq() == documents@,
            views == document_views(documents@),
            ({
                let merged = merge_documents(views.take(it.index() as int));
                &&& all_clusters@ == merged.clusters
                &&& all_contexts@ == merged.contexts
                &&& all_users@ == merged.users
                &&& current_context@ == merged.current_context
                &&& preferences@ == merged.preferences
            }),
    {
        proof {
            let n = it.index() as int;
            let before = views.take(n);
            let now = views.take(n + 1);
            assert(cluster_lists(now).drop_last() =~= cluster_lists(before));
            assert(context_lists(now).drop_last() =~= context_lists(before));
            assert(user_lists(now).drop_last() =~= user_lists(before));
            assert(selections(now).drop_last() =~= selections(before));
            assert(preference_maps(now).drop_last() =~= preference_maps(before));
        }
        let KubeConfig {
            api_version: _,
            kind: _,
            clusters,
            contexts,
            users,
            current_context: selected,
            preferences: assigned,
        } = config;
        merge_config_items(
            clusters,
            contexts,
            users,
            &mut all_clusters,
            &mut all_contexts,
            &mut all_users,
        );
        if current_context.as_str().is_empty() && !selected.as_str().is_empty() {
            current_context = selected;
        }
        merge_preferences(&mut preferences, assigned);
    }
    proof {
        assert(views.take(views.len() as int) =~= views);
        lemma_nothing_to_merge(views);
        assert forall|i: int| 0 <= i < documents@.len() implies (#[trigger] documents@[i])@
            == views[i] by {}
    }

    if all_clusters.is_empty() && all_contexts.is_empty() && all_users.is_empty()
        && current_context.as_str().is_empty() && preferences.is_empty() {
        return Err(MergeError::NothingToMerge);
    }
    let merged = KubeConfig {
        api_version: String::from_str("v1"),
        kind: String::from_str("Config"),
        clusters: into_category(all_clusters),
        contexts: into_category(all_contexts),
        users: into_category(all_users),
        current_context,
        preferences,
    };
    proof {
        lemma_merged_names_distinct(views);
    }
    Ok(merged)
}

} // verus!
