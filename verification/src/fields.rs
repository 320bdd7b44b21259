//! String-keyed bags of opaque YAML values.
//!
//! A [`FieldMap`] keeps its fields in insertion order and never holds a key
//! twice. Its view is the mathematical map from keys to values.

use vstd::prelude::*;

verus! {

/// A YAML value of `serde_yml`. The library never looks inside one: it only
/// carries values from the documents it reads into the document it produces.
#[verifier::external_type_specification]
#[verifier::external_body]
pub struct ExValue(serde_yml::Value);

/// `Clone::clone` of `serde_yml::Value`, which that crate derives for its
/// enum of YAML values: the copy equals the value it was made from. This is
/// taken on trust from the crate's source; nothing here proves it.
pub assume_specification[ <serde_yml::Value as Clone>::clone ](v: &serde_yml::Value) -> (res:
    serde_yml::Value)
    ensures
        res == *v,
;

/// What a [`FieldMap`] holds, as a mathematical map from keys to values.
pub type FieldsView = Map<Seq<char>, serde_yml::Value>;

/// One field of a [`FieldMap`]: a key and the value stored under it.
#[derive(Debug)]
pub struct FieldEntry {
    pub key: String,
    pub value: serde_yml::Value,
}

impl Clone for FieldEntry {
    fn clone(&self) -> (res: Self)
        ensures
            res == *self,
    {
        FieldEntry { key: self.key.clone(), value: self.value.clone() }
    }
}

/// Some entry of `s` is stored under `key`.
pub open spec fn has_key(s: Seq<FieldEntry>, key: Seq<char>) -> bool {
    exists|i: int| 0 <= i < s.len() && (#[trigger] s[i]).key@ == key
}

/// No two entries of `s` share a key.
pub open spec fn keys_distinct(s: Seq<FieldEntry>) -> bool {
    forall|i: int, j: int| 0 <= i < j < s.len() ==> (#[trigger] s[i]).key@ != (#[trigger] s[j]).key@
}

/// The map that results from inserting the entries of `s` one after the
/// other: where a key occurs more than once, its last entry decides.
pub open spec fn entries_map(s: Seq<FieldEntry>) -> FieldsView
    decreases s.len(),
{
    if s.len() == 0 {
        Map::empty()
    } else {
        entries_map(s.drop_last()).insert(s.last().key@, s.last().value)
    }
}

/// The place of the first entry of `s` stored under `key`.
pub open spec fn key_index(s: Seq<FieldEntry>, key: Seq<char>) -> int {
    choose|i: int| 0 <= i < s.len() && (#[trigger] s[i]).key@ == key
}

/// The entries after `e` is stored: it takes the place of the entry with its
/// key, or goes to the end where there is none.
pub open spec fn upsert(s: Seq<FieldEntry>, e: FieldEntry) -> Seq<FieldEntry> {
    if has_key(s, e.key@) {
        s.update(key_index(s, e.key@), e)
    } else {
        s.push(e)
    }
}

/// The keys of `entries_map(s)` are the keys of the entries of `s`, and the
/// map is finite.
pub proof fn lemma_entries_map_dom(s: Seq<FieldEntry>)
    ensures
        entries_map(s).dom().finite(),
        forall|key: Seq<char>| #[trigger] entries_map(s).contains_key(key) <==> has_key(s, key),
    decreases s.len(),
{
    if s.len() > 0 {
        let front = s.drop_last();
        lemma_entries_map_dom(front);
        assert forall|key: Seq<char>| #[trigger]
            entries_map(s).contains_key(key) <==> has_key(s, key) by {
            if has_key(s, key) {
                let i = choose|i: int| 0 <= i < s.len() && (#[trigger] s[i]).key@ == key;
                if i < s.len() - 1 {
                    assert(front[i].key@ == key);
                }
            }
        }
    }
}

/// With distinct keys, each entry's value is the one the map holds under
/// that entry's key, and the map has as many keys as there are entries.
pub proof fn lemma_entries_map_values(s: Seq<FieldEntry>)
    requires
        keys_distinct(s),
    ensures
        entries_map(s).len() == s.len(),
        forall|i: int|
            0 <= i < s.len() ==> entries_map(s).contains_key((#[trigger] s[i]).key@)
                && entries_map(s)[s[i].key@] == s[i].value,
    decreases s.len(),
{
    if s.len() > 0 {
        let front = s.drop_last();
        lemma_entries_map_values(front);
        lemma_entries_map_dom(front);
        assert forall|i: int| 0 <= i < s.len() implies entries_map(s).contains_key(
            (#[trigger] s[i]).key@,
        ) && entries_map(s)[s[i].key@] == s[i].value by {
            if i < s.len() - 1 {
                assert(front[i].key@ == s[i].key@);
            }
        }
    }
}

/// Replacing the value of the entry at `i`, under the same key, is an insert
/// into the map, and keeps the keys distinct.
pub proof fn lemma_entries_map_update(s: Seq<FieldEntry>, i: int, e: FieldEntry)
    requires
        keys_distinct(s),
        0 <= i < s.len(),
        e.key@ == s[i].key@,
    ensures
        keys_distinct(s.update(i, e)),
        entries_map(s.update(i, e)) == entries_map(s).insert(e.key@, e.value),
    decreases s.len(),
{
    let t = s.update(i, e);
    let front = s.drop_last();
    if i == s.len() - 1 {
        assert(t.drop_last() =~= front);
    } else {
        lemma_entries_map_update(front, i, e);
        assert(t.drop_last() =~= front.update(i, e));
    }
}

/// Appending an entry is an insert into the map.
pub proof fn lemma_entries_map_push(s: Seq<FieldEntry>, e: FieldEntry)
    ensures
        entries_map(s.push(e)) == entries_map(s).insert(e.key@, e.value),
        keys_distinct(s) && !has_key(s, e.key@) ==> keys_distinct(s.push(e)),
{
    let t = s.push(e);
    assert(t.drop_last() =~= s);
}

/// A map from field names to opaque YAML values, kept in insertion order.
#[derive(Debug)]
pub struct FieldMap {
    entries: Vec<FieldEntry>,
}

impl Clone for FieldMap {
    fn clone(&self) -> (res: Self)
        ensures
            res.entries() == self.entries(),
            res@ == self@,
    {
        proof {
            use_type_invariant(self);
        }
        let mut entries: Vec<FieldEntry> = Vec::new();
        let mut i: usize = 0;
        while i < self.entries.len()
            invariant
                i <= self.entries@.len(),
                entries@ == self.entries@.take(i as int),
            decreases self.entries@.len() - i,
        {
            entries.push(self.entries[i].clone());
            i += 1;
        }
        proof {
            assert(self.entries@.take(i as int) =~= self.entries@);
        }
        FieldMap { entries }
    }
}

impl View for FieldMap {
    type V = FieldsView;

    open spec fn view(&self) -> FieldsView {
        entries_map(self.entries())
    }
}

impl FieldMap {
    #[verifier::type_invariant]
    spec fn holds_each_key_once(self) -> bool {
        keys_distinct(self.entries@)
    }

    /// The entries in insertion order.
    pub closed spec fn entries(self) -> Seq<FieldEntry> {
        self.entries@
    }

    /// The empty map.
    pub fn new() -> (m: Self)
        ensures
            m@ == FieldsView::empty(),
            m.entries() == Seq::<FieldEntry>::empty(),
    {
        FieldMap { entries: Vec::new() }
    }

    /// The number of fields.
    pub fn len(&self) -> (n: usize)
        ensures
            n == self@.len(),
            n == self.entries().len(),
    {
        proof {
            use_type_invariant(self);
            lemma_entries_map_values(self.entries@);
        }
        self.entries.len()
    }

    /// Whether the map holds no field.
    pub fn is_empty(&self) -> (b: bool)
        ensures
            b == (self@ == FieldsView::empty()),
            b == (self.entries().len() == 0),
    {
        proof {
            use_type_invariant(self);
            lemma_entries_map_values(self.entries@);
        }
        self.entries.len() == 0
    }

    /// The position of the entry stored under `key`, if there is one.
    fn position(&self, key: &String) -> (r: Option<usize>)
        ensures
            match r {
                Some(i) => i < self.entries().len() && self.entries()[i as int].key@ == key@,
                None => !has_key(self.entries(), key@),
            },
    {
        let mut i: usize = 0;
        while i < self.entries.len()
            invariant
                i <= self.entries@.len(),
                forall|j: int| 0 <= j < i ==> (#[trigger] self.entries@[j]).key@ != key@,
            decreases self.entries@.len() - i,
        {
            if self.entries[i].key == *key {
                return Some(i);
            }
            i += 1;
        }
        None
    }

    /// Whether a field is stored under `key`.
    pub fn contains_key(&self, key: &String) -> (b: bool)
        ensures
            b == self@.contains_key(key@),
    {
        proof {
            lemma_entries_map_dom(self.entries@);
        }
        self.position(key).is_some()
    }

    /// The value stored under `key`, if there is one.
    pub fn get(&self, key: &String) -> (r: Option<&serde_yml::Value>)
        ensures
            match r {
                Some(v) => self@.contains_key(key@) && *v == self@[key@],
                None => !self@.contains_key(key@),
            },
    {
        proof {
            use_type_invariant(self);
            lemma_entries_map_dom(self.entries@);
            lemma_entries_map_values(self.entries@);
        }
        match self.position(key) {
            Some(i) => Some(&self.entries[i].value),
            None => None,
        }
    }

    /// Stores `value` under `key`. A value already stored under `key` is
    /// replaced and keeps its place; a new key goes to the end.
    pub fn insert(&mut self, key: String, value: serde_yml::Value)
        ensures
            final(self)@ == old(self)@.insert(key@, value),
            final(self).entries() == upsert(old(self).entries(), (FieldEntry { key, value })),
    {
        proof {
            use_type_invariant(&*self);
        }
        let entry = FieldEntry { key, value };
        let found = self.position(&entry.key);
        let mut entries: Vec<FieldEntry> = Vec::new();
        core::mem::swap(&mut self.entries, &mut entries);
        match found {
            Some(i) => {
                proof {
                    lemma_entries_map_update(entries@, i as int, entry);
                }
                entries.set(i, entry);
            },
            None => {
                proof {
                    lemma_entries_map_push(entries@, entry);
                }
                entries.push(entry);
            },
        }
        core::mem::swap(&mut self.entries, &mut entries);
    }

    /// The entries in insertion order.
    pub fn as_entries(&self) -> (v: &Vec<FieldEntry>)
        ensures
            v@ == self.entries(),
            keys_distinct(v@),
    {
        proof {
            use_type_invariant(self);
        }
        &self.entries
    }

    /// Gives up the map for its entries, in insertion order.
    pub fn into_entries(self) -> (v: Vec<FieldEntry>)
        ensures
            v@ == self.entries(),
            keys_distinct(v@),
    {
        proof {
            use_type_invariant(&self);
        }
        self.entries
    }
}

} // verus!
