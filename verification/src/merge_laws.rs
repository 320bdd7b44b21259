//! What holds of every merge: the laws of precedence, stated over the
//! specification of the merge engine and proved from it.

use crate::config::{KubeConfigView, Named};
use crate::merge::{
    cluster_lists, context_lists, contributes_nothing, has_name, merge_all, merge_documents,
    merge_named, names_distinct, preference_maps, select_first, selections, union_all, user_lists,
};
use crate::fields::FieldsView;
use vstd::prelude::*;

verus! {

/// `s` holds `item`, and no other record of that name.
pub open spec fn holds_only<T: Named>(s: Seq<T>, item: T) -> bool {
    exists|k: int|
        0 <= k < s.len() && (#[trigger] s[k]) == item && forall|m: int|
            0 <= m < s.len() && m != k ==> (#[trigger] s[m]).name_view() != item.name_view()
}

/// `first` stands in `s` at an earlier place than `second`.
pub open spec fn comes_before<T>(s: Seq<T>, first: T, second: T) -> bool {
    exists|k: int, m: int|
        0 <= k < m < s.len() && (#[trigger] s[k]) == first && (#[trigger] s[m]) == second
}

/// `lists[a][i]` is the first record of its name: no earlier list holds the
/// name, and no earlier record of its own list.
pub open spec fn is_first_of_its_name<T: Named>(lists: Seq<Seq<T>>, a: int, i: int) -> bool {
    &&& 0 <= a < lists.len()
    &&& 0 <= i < lists[a].len()
    &&& forall|b: int| 0 <= b < a ==> !has_name(#[trigger] lists[b], lists[a][i].name_view())
    &&& forall|j: int|
        0 <= j < i ==> (#[trigger] lists[a][j]).name_view() != lists[a][i].name_view()
}

/// `item` is a record of one of `lists`.
pub open spec fn is_record_of<T>(lists: Seq<Seq<T>>, item: T) -> bool {
    exists|a: int, i: int|
        0 <= a < lists.len() && 0 <= i < lists[a].len() && (#[trigger] lists[a][i]) == item
}

/// Offering records neither removes nor moves what was merged before, and
/// appends at most as many records as were offered.
pub proof fn lemma_merge_named_extends<T: Named>(merged: Seq<T>, items: Seq<T>)
    ensures
        merged.len() <= merge_named(merged, items).len() <= merged.len() + items.len(),
        merge_named(merged, items).take(merged.len() as int) == merged,
    decreases items.len(),
{
    if items.len() > 0 {
        lemma_merge_named_extends(merged, items.drop_last());
    }
}

/// After a merge, the names taken are those that were taken before and
/// those of the records offered.
pub proof fn lemma_merge_named_names<T: Named>(merged: Seq<T>, items: Seq<T>, name: Seq<char>)
    ensures
        has_name(merge_named(merged, items), name) <==> has_name(merged, name) || has_name(
            items,
            name,
        ),
    decreases items.len(),
{
    if items.len() > 0 {
        let front = items.drop_last();
        let last = items.last();
        lemma_merge_named_names(merged, front, name);
        let before = merge_named(merged, front);
        let after = merge_named(merged, items);
        if has_name(items, name) {
            let i = choose|i: int|
                0 <= i < items.len() && (#[trigger] items[i]).name_view() == name;
            if i < items.len() - 1 {
                assert(front[i].name_view() == name);
            }
        }
        if !has_name(before, last.name_view()) {
            if has_name(before, name) {
                let k = choose|k: int|
                    0 <= k < before.len() && (#[trigger] before[k]).name_view() == name;
                assert(after[k].name_view() == name);
            }
            if last.name_view() == name {
                assert(after[before.len() as int].name_view() == name);
            }
        }
    }
}

/// A merge into records with distinct names leaves the names distinct.
pub proof fn lemma_merge_named_distinct<T: Named>(merged: Seq<T>, items: Seq<T>)
    requires
        names_distinct(merged),
    ensures
        names_distinct(merge_named(merged, items)),
    decreases items.len(),
{
    if items.len() > 0 {
        lemma_merge_named_distinct(merged, items.drop_last());
    }
}

/// A record whose name is new, and which is the first of its name among the
/// records offered, is in the result, behind what was merged before.
pub proof fn lemma_merge_named_keeps_first<T: Named>(merged: Seq<T>, items: Seq<T>, i: int)
    requires
        0 <= i < items.len(),
        !has_name(merged, items[i].name_view()),
        forall|j: int| 0 <= j < i ==> (#[trigger] items[j]).name_view() != items[i].name_view(),
    ensures
        exists|k: int|
            merged.len() <= k < merge_named(merged, items).len() && (#[trigger] merge_named(
                merged,
                items,
            )[k]) == items[i],
    decreases items.len(),
{
    let front = items.drop_last();
    let before = merge_named(merged, front);
    let after = merge_named(merged, items);
    let name = items[i].name_view();
    lemma_merge_named_extends(merged, front);
    if i == items.len() - 1 {
        lemma_merge_named_names(merged, front, name);
        assert(after[before.len() as int] == items[i]);
    } else {
        lemma_merge_named_keeps_first(merged, front, i);
        let k = choose|k: int|
            merged.len() <= k < before.len() && (#[trigger] before[k]) == items[i];
        assert(after[k] == items[i]);
    }
}

/// Of two records that are both the first of a new name, the one offered
/// earlier stands earlier in the result.
pub proof fn lemma_merge_named_keeps_order<T: Named>(
    merged: Seq<T>,
    items: Seq<T>,
    i: int,
    j: int,
)
    requires
        0 <= i < j < items.len(),
        !has_name(merged, items[i].name_view()),
        !has_name(merged, items[j].name_view()),
        forall|m: int| 0 <= m < i ==> (#[trigger] items[m]).name_view() != items[i].name_view(),
        forall|m: int| 0 <= m < j ==> (#[trigger] items[m]).name_view() != items[j].name_view(),
    ensures
        comes_before(merge_named(merged, items), items[i], items[j]),
    decreases items.len(),
{
    let front = items.drop_last();
    let before = merge_named(merged, front);
    let after = merge_named(merged, items);
    if j == items.len() - 1 {
        let name = items[j].name_view();
        lemma_merge_named_names(merged, front, name);
        lemma_merge_named_keeps_first(merged, front, i);
        let k = choose|k: int|
            merged.len() <= k < before.len() && (#[trigger] before[k]) == items[i];
        assert(after[k] == items[i]);
        assert(after[before.len() as int] == items[j]);
    } else {
        lemma_merge_named_keeps_order(merged, front, i, j);
        let (k, m) = choose|k: int, m: int|
            0 <= k < m < before.len() && (#[trigger] before[k]) == items[i] && (
            #[trigger] before[m]) == items[j];
        assert(after[k] == items[i]);
        assert(after[m] == items[j]);
    }
}

/// Nothing is made up or altered: a record of the result is one that was
/// merged before, at the same place, or one of the records offered.
pub proof fn lemma_merge_named_origin<T: Named>(merged: Seq<T>, items: Seq<T>, k: int)
    requires
        0 <= k < merge_named(merged, items).len(),
    ensures
        k < merged.len() ==> merge_named(merged, items)[k] == merged[k],
        k >= merged.len() ==> exists|i: int|
            0 <= i < items.len() && (#[trigger] items[i]) == merge_named(merged, items)[k],
    decreases items.len(),
{
    if items.len() > 0 {
        let front = items.drop_last();
        let before = merge_named(merged, front);
        lemma_merge_named_extends(merged, front);
        if k < before.len() {
            lemma_merge_named_origin(merged, front, k);
        }
    }
}

/// Records with distinct names, offered to the empty list, come out as
/// they went in.
pub proof fn lemma_merge_named_identity<T: Named>(items: Seq<T>)
    requires
        names_distinct(items),
    ensures
        merge_named(Seq::<T>::empty(), items) == items,
    decreases items.len(),
{
    if items.len() > 0 {
        let front = items.drop_last();
        lemma_merge_named_identity(front);
    }
}

/// Uniqueness invariant: whatever the documents hold, no two merged records
/// of a category share a name.
pub proof fn lemma_merge_all_distinct<T: Named>(lists: Seq<Seq<T>>)
    ensures
        names_distinct(merge_all(lists)),
    decreases lists.len(),
{
    if lists.len() > 0 {
        lemma_merge_all_distinct(lists.drop_last());
        lemma_merge_named_distinct(merge_all(lists.drop_last()), lists.last());
    }
}

/// A name is taken in the merged records exactly when some document has a
/// record of that name.
pub proof fn lemma_merge_all_names<T: Named>(lists: Seq<Seq<T>>, name: Seq<char>)
    ensures
        has_name(merge_all(lists), name) <==> exists|a: int|
            0 <= a < lists.len() && has_name(#[trigger] lists[a], name),
    decreases lists.len(),
{
    if lists.len() > 0 {
        let front = lists.drop_last();
        lemma_merge_all_names(front, name);
        lemma_merge_named_names(merge_all(front), lists.last(), name);
        if exists|a: int| 0 <= a < lists.len() && has_name(#[trigger] lists[a], name) {
            let a = choose|a: int| 0 <= a < lists.len() && has_name(#[trigger] lists[a], name);
            if a < lists.len() - 1 {
                assert(has_name(front[a], name));
            }
        }
    }
}

/// First occurrence wins: the first record of a name, in the order of the
/// documents and within its document, is in the merged records, and no
/// other record of that name is.
pub proof fn lemma_merge_all_first_wins<T: Named>(lists: Seq<Seq<T>>, a: int, i: int)
    requires
        is_first_of_its_name(lists, a, i),
    ensures
        holds_only(merge_all(lists), lists[a][i]),
    decreases lists.len(),
{
    let front = lists.drop_last();
    let before = merge_all(front);
    lemma_merge_all_distinct(lists);
    if a == lists.len() - 1 {
        lemma_first_name_is_new(lists, a, i);
        lemma_merge_named_keeps_first(before, lists.last(), i);
    } else {
        lemma_merge_all_first_wins(front, a, i);
        lemma_merge_named_extends(before, lists.last());
    }
}

/// The first record of a name in the last list has a name that the lists
/// before it did not bring.
proof fn lemma_first_name_is_new<T: Named>(lists: Seq<Seq<T>>, a: int, i: int)
    requires
        is_first_of_its_name(lists, a, i),
        a == lists.len() - 1,
    ensures
        !has_name(merge_all(lists.drop_last()), lists[a][i].name_view()),
{
    let front = lists.drop_last();
    let name = lists[a][i].name_view();
    lemma_merge_all_names(front, name);
}

/// Order of first occurrence: of two records that are each the first of
/// their name, the one that comes first, in the order of the documents and
/// within a document, stands first in the merged records.
pub proof fn lemma_merge_all_keeps_order<T: Named>(
    lists: Seq<Seq<T>>,
    a: int,
    i: int,
    b: int,
    j: int,
)
    requires
        is_first_of_its_name(lists, a, i),
        is_first_of_its_name(lists, b, j),
        a < b || (a == b && i < j),
    ensures
        comes_before(merge_all(lists), lists[a][i], lists[b][j]),
    decreases lists.len(),
{
    let front = lists.drop_last();
    let before = merge_all(front);
    lemma_merge_named_extends(before, lists.last());
    if b == lists.len() - 1 {
        lemma_first_name_is_new(lists, b, j);
        if a == b {
            lemma_first_name_is_new(lists, a, i);
            lemma_merge_named_keeps_order(before, lists.last(), i, j);
        } else {
            lemma_merge_all_first_wins(front, a, i);
            lemma_merge_named_keeps_first(before, lists.last(), j);
        }
    } else {
        lemma_merge_all_keeps_order(front, a, i, b, j);
    }
}

/// Every merged record is a record of some document, as it stood there.
pub proof fn lemma_merge_all_origin<T: Named>(lists: Seq<Seq<T>>, k: int)
    requires
        0 <= k < merge_all(lists).len(),
    ensures
        is_record_of(lists, merge_all(lists)[k]),
    decreases lists.len(),
{
    if lists.len() > 0 {
        let front = lists.drop_last();
        let before = merge_all(front);
        lemma_merge_named_origin(before, lists.last(), k);
        if k < before.len() {
            lemma_merge_all_origin(front, k);
        }
    }
}

/// Where no document holds a record, none is merged.
pub proof fn lemma_merge_all_nothing<T: Named>(lists: Seq<Seq<T>>)
    ensures
        merge_all(lists).len() == 0 <==> forall|a: int|
            0 <= a < lists.len() ==> (#[trigger] lists[a]).len() == 0,
    decreases lists.len(),
{
    if lists.len() > 0 {
        let front = lists.drop_last();
        lemma_merge_all_nothing(front);
        if merge_all(lists).len() == 0 {
            assert forall|a: int| 0 <= a < lists.len() implies (#[trigger] lists[a]).len() == 0 by {
                if a < lists.len() - 1 {
                    assert(front[a].len() == 0);
                }
            }
        }
    }
}

/// Where one document alone holds records of a category, and holds no name
/// twice, the merged records are its records.
pub proof fn lemma_merge_all_identity<T: Named>(lists: Seq<Seq<T>>, j: int)
    requires
        0 <= j < lists.len(),
        forall|a: int| 0 <= a < lists.len() && a != j ==> (#[trigger] lists[a]).len() == 0,
        names_distinct(lists[j]),
    ensures
        merge_all(lists) == lists[j],
    decreases lists.len(),
{
    let front = lists.drop_last();
    if j == lists.len() - 1 {
        lemma_merge_all_nothing(front);
        assert(merge_all(front) =~= Seq::<T>::empty());
        lemma_merge_named_identity(lists[j]);
    } else {
        lemma_merge_all_identity(front, j);
    }
}

/// First selection wins: the current context is that of the first document
/// that selects one.
pub proof fn lemma_select_first_wins(chosen: Seq<Seq<char>>, i: int)
    requires
        0 <= i < chosen.len(),
        chosen[i].len() > 0,
        forall|j: int| 0 <= j < i ==> (#[trigger] chosen[j]).len() == 0,
    ensures
        select_first(chosen) == chosen[i],
    decreases chosen.len(),
{
    let front = chosen.drop_last();
    if i == chosen.len() - 1 {
        lemma_select_first_none(front);
    } else {
        lemma_select_first_wins(front, i);
    }
}

/// No context is selected exactly when no document selects one.
pub proof fn lemma_select_first_none(chosen: Seq<Seq<char>>)
    ensures
        select_first(chosen).len() == 0 <==> forall|j: int|
            0 <= j < chosen.len() ==> (#[trigger] chosen[j]).len() == 0,
    decreases chosen.len(),
{
    if chosen.len() > 0 {
        let front = chosen.drop_last();
        lemma_select_first_none(front);
        if select_first(chosen).len() == 0 {
            assert forall|j: int| 0 <= j < chosen.len() implies (#[trigger] chosen[j]).len()
                == 0 by {
                if j < chosen.len() - 1 {
                    assert(front[j].len() == 0);
                }
            }
        }
    }
}

/// A key is set in the merged preferences exactly when some document sets
/// it.
pub proof fn lemma_union_all_keys(maps: Seq<FieldsView>, key: Seq<char>)
    ensures
        union_all(maps).contains_key(key) <==> exists|i: int|
            0 <= i < maps.len() && (#[trigger] maps[i]).contains_key(key),
    decreases maps.len(),
{
    if maps.len() > 0 {
        let front = maps.drop_last();
        lemma_union_all_keys(front, key);
        if exists|i: int| 0 <= i < maps.len() && (#[trigger] maps[i]).contains_key(key) {
            let i = choose|i: int| 0 <= i < maps.len() && (#[trigger] maps[i]).contains_key(key);
            if i < maps.len() - 1 {
                assert(front[i].contains_key(key));
            }
        }
    }
}

/// Last assignment wins: a preference has the value given by the last
/// document that sets it.
pub proof fn lemma_union_all_last_wins(maps: Seq<FieldsView>, i: int, key: Seq<char>)
    requires
        0 <= i < maps.len(),
        maps[i].contains_key(key),
        forall|j: int| i < j < maps.len() ==> !(#[trigger] maps[j]).contains_key(key),
    ensures
        union_all(maps).contains_key(key),
        union_all(maps)[key] == maps[i][key],
    decreases maps.len(),
{
    if i < maps.len() - 1 {
        let front = maps.drop_last();
        lemma_union_all_last_wins(front, i, key);
    }
}

/// No preference is set exactly when no document sets one.
pub proof fn lemma_union_all_nothing(maps: Seq<FieldsView>)
    ensures
        union_all(maps) == FieldsView::empty() <==> forall|i: int|
            0 <= i < maps.len() ==> (#[trigger] maps[i]) == FieldsView::empty(),
{
    let nothing = FieldsView::empty();
    if forall|i: int| 0 <= i < maps.len() ==> (#[trigger] maps[i]) == nothing {
        assert forall|key: Seq<char>| !union_all(maps).contains_key(key) by {
            lemma_union_all_keys(maps, key);
        }
        assert(union_all(maps) =~= nothing);
    }
    if union_all(maps) == nothing {
        assert forall|i: int| 0 <= i < maps.len() implies (#[trigger] maps[i]) == nothing by {
            assert forall|key: Seq<char>| !maps[i].contains_key(key) by {
                lemma_union_all_keys(maps, key);
            }
        }
    }
}

/// Where one document alone sets preferences, the merged preferences are
/// its preferences.
pub proof fn lemma_union_all_identity(maps: Seq<FieldsView>, j: int)
    requires
        0 <= j < maps.len(),
        forall|i: int|
            0 <= i < maps.len() && i != j ==> (#[trigger] maps[i]) == FieldsView::empty(),
    ensures
        union_all(maps) == maps[j],
    decreases maps.len(),
{
    let front = maps.drop_last();
    if j == maps.len() - 1 {
        lemma_union_all_nothing(front);
    } else {
        lemma_union_all_identity(front, j);
    }
}

/// Identity law: where every document but one contributes nothing, and that
/// one holds no name twice within a category, the merge yields its records,
/// its current context and its preferences unchanged, under the fixed
/// metadata. A document that carries that metadata itself is the result.
pub proof fn lemma_merge_identity(docs: Seq<KubeConfigView>, j: int)
    requires
        0 <= j < docs.len(),
        forall|i: int| 0 <= i < docs.len() && i != j ==> contributes_nothing(#[trigger] docs[i]),
        names_distinct(docs[j].clusters),
        names_distinct(docs[j].contexts),
        names_distinct(docs[j].users),
    ensures
        merge_documents(docs) == (KubeConfigView {
            api_version: "v1"@,
            kind: "Config"@,
            ..docs[j]
        }),
        docs[j].api_version == "v1"@ && docs[j].kind == "Config"@ ==> merge_documents(docs)
            == docs[j],
        contributes_nothing(merge_documents(docs)) <==> contributes_nothing(docs[j]),
{
    let clusters = cluster_lists(docs);
    let contexts = context_lists(docs);
    let users = user_lists(docs);
    let chosen = selections(docs);
    let maps = preference_maps(docs);
    lemma_merge_all_identity(clusters, j);
    lemma_merge_all_identity(contexts, j);
    lemma_merge_all_identity(users, j);
    lemma_union_all_identity(maps, j);
    if chosen[j].len() > 0 {
        lemma_select_first_wins(chosen, j);
    } else {
        lemma_select_first_none(chosen);
    }
    assert(select_first(chosen) =~= chosen[j]);
}

/// Uniqueness invariant of the merged document: within each category no
/// two records share a name.
pub proof fn lemma_merged_names_distinct(docs: Seq<KubeConfigView>)
    ensures
        names_distinct(merge_documents(docs).clusters),
        names_distinct(merge_documents(docs).contexts),
        names_distinct(merge_documents(docs).users),
{
    lemma_merge_all_distinct(cluster_lists(docs));
    lemma_merge_all_distinct(context_lists(docs));
    lemma_merge_all_distinct(user_lists(docs));
}

/// Pass-through: every merged record is a record of one of the documents,
/// equal to it in every field, the fields that the library does not know
/// included.
pub proof fn lemma_merged_records_unchanged(docs: Seq<KubeConfigView>)
    ensures
        forall|k: int|
            0 <= k < merge_documents(docs).clusters.len() ==> is_record_of(
                cluster_lists(docs),
                #[trigger] merge_documents(docs).clusters[k],
            ),
        forall|k: int|
            0 <= k < merge_documents(docs).contexts.len() ==> is_record_of(
                context_lists(docs),
                #[trigger] merge_documents(docs).contexts[k],
            ),
        forall|k: int|
            0 <= k < merge_documents(docs).users.len() ==> is_record_of(
                user_lists(docs),
                #[trigger] merge_documents(docs).users[k],
            ),
{
    let merged = merge_documents(docs);
    assert forall|k: int| 0 <= k < merged.clusters.len() implies is_record_of(
        cluster_lists(docs),
        #[trigger] merged.clusters[k],
    ) by {
        lemma_merge_all_origin(cluster_lists(docs), k);
    }
    assert forall|k: int| 0 <= k < merged.contexts.len() implies is_record_of(
        context_lists(docs),
        #[trigger] merged.contexts[k],
    ) by {
        lemma_merge_all_origin(context_lists(docs), k);
    }
    assert forall|k: int| 0 <= k < merged.users.len() implies is_record_of(
        user_lists(docs),
        #[trigger] merged.users[k],
    ) by {
        lemma_merge_all_origin(user_lists(docs), k);
    }
}

/// First-wins for clusters: the first cluster of a name, in the order of
/// the documents, is the one merged cluster of that name, with every field
/// it had in its document.
pub proof fn lemma_first_cluster_wins(docs: Seq<KubeConfigView>, a: int, i: int)
    requires
        is_first_of_its_name(cluster_lists(docs), a, i),
    ensures
        holds_only(merge_documents(docs).clusters, docs[a].clusters[i]),
{
    lemma_merge_all_first_wins(cluster_lists(docs), a, i);
}

/// First-wins for contexts: the first context of a name, in the order of
/// the documents, is the one merged context of that name.
pub proof fn lemma_first_context_wins(docs: Seq<KubeConfigView>, a: int, i: int)
    requires
        is_first_of_its_name(context_lists(docs), a, i),
    ensures
        holds_only(merge_documents(docs).contexts, docs[a].contexts[i]),
{
    lemma_merge_all_first_wins(context_lists(docs), a, i);
}

/// First-wins for users: the first user of a name, in the order of the
/// documents, is the one merged user of that name.
pub proof fn lemma_first_user_wins(docs: Seq<KubeConfigView>, a: int, i: int)
    requires
        is_first_of_its_name(user_lists(docs), a, i),
    ensures
        holds_only(merge_documents(docs).users, docs[a].users[i]),
{
    lemma_merge_all_first_wins(user_lists(docs), a, i);
}

/// Last-wins for preferences: a key has the value of the last document
/// that sets it.
pub proof fn lemma_last_preference_wins(docs: Seq<KubeConfigView>, i: int, key: Seq<char>)
    requires
        0 <= i < docs.len(),
        docs[i].preferences.contains_key(key),
        forall|j: int| i < j < docs.len() ==> !(#[trigger] docs[j]).preferences.contains_key(key),
    ensures
        merge_documents(docs).preferences.contains_key(key),
        merge_documents(docs).preferences[key] == docs[i].preferences[key],
{
    let maps = preference_maps(docs);
    lemma_union_all_last_wins(maps, i, key);
}

/// First-wins for the current context: it is that of the first document
/// which selects one.
pub proof fn lemma_first_current_context_wins(docs: Seq<KubeConfigView>, i: int)
    requires
        0 <= i < docs.len(),
        docs[i].current_context.len() > 0,
        forall|j: int| 0 <= j < i ==> (#[trigger] docs[j]).current_context.len() == 0,
    ensures
        merge_documents(docs).current_context == docs[i].current_context,
{
    let chosen = selections(docs);
    lemma_select_first_wins(chosen, i);
}

/// The merge has nothing to show exactly when no document contributes
/// anything.
pub proof fn lemma_nothing_to_merge(docs: Seq<KubeConfigView>)
    ensures
        contributes_nothing(merge_documents(docs)) <==> forall|i: int|
            0 <= i < docs.len() ==> contributes_nothing(#[trigger] docs[i]),
{
    let clusters = cluster_lists(docs);
    let contexts = context_lists(docs);
    let users = user_lists(docs);
    let chosen = selections(docs);
    let maps = preference_maps(docs);
    lemma_merge_all_nothing(clusters);
    lemma_merge_all_nothing(contexts);
    lemma_merge_all_nothing(users);
    lemma_select_first_none(chosen);
    lemma_union_all_nothing(maps);
    if contributes_nothing(merge_documents(docs)) {
        assert forall|i: int| 0 <= i < docs.len() implies contributes_nothing(
            #[trigger] docs[i],
        ) by {
            assert(clusters[i].len() == 0);
            assert(contexts[i].len() == 0);
            assert(users[i].len() == 0);
            assert(chosen[i].len() == 0);
            assert(maps[i] == FieldsView::empty());
        }
    }
}

} // verus!
