//! The insertion-ordered maps of the lock model, as `indexmap::IndexMap`.
//!
//! The contents of each map are modelled as the sequence of its entries, in
//! order, with each key given by its view.
use vstd::prelude::*;

use indexmap::IndexMap;

use crate::flake_lock::{Input, InputChange, Node};

verus! {

#[verifier::external_type_specification]
#[verifier::external_body]
#[verifier::reject_recursive_types(K)]
#[verifier::reject_recursive_types(V)]
#[verifier::reject_recursive_types(S)]
pub struct ExIndexMap<K, V, S>(IndexMap<K, V, S>);

/// The value of the first entry whose key is `k`.
pub open spec fn lookup<V>(s: Seq<(Seq<char>, V)>, k: Seq<char>) -> Option<V>
    decreases s.len(),
{
    if s.len() == 0 {
        None
    } else if s[0].0 == k {
        Some(s[0].1)
    } else {
        lookup(s.drop_first(), k)
    }
}

/// The keys of the entries, in order.
pub open spec fn keys_of<V>(s: Seq<(Seq<char>, V)>) -> Seq<Seq<char>> {
    s.map_values(|e: (Seq<char>, V)| e.0)
}

/// No key occurs twice.
pub open spec fn distinct_keys<V>(s: Seq<(Seq<char>, V)>) -> bool {
    forall|i: int, j: int| 0 <= i < j < s.len() ==> s[i].0 != s[j].0
}

/// Whether some entry has key `k`.
pub open spec fn has_key<V>(s: Seq<(Seq<char>, V)>, k: Seq<char>) -> bool {
    exists|i: int| 0 <= i < s.len() && s[i].0 == k
}

/// What inserting `(k, v)` does to the entries: an existing key keeps its
/// place and takes the new value, a new key goes last.
pub open spec fn insert_entry<V>(s: Seq<(Seq<char>, V)>, k: Seq<char>, v: V) -> Seq<(Seq<char>, V)>
    decreases s.len(),
{
    if s.len() == 0 {
        seq![(k, v)]
    } else if s[0].0 == k {
        s.update(0, (k, v))
    } else {
        seq![s[0]] + insert_entry(s.drop_first(), k, v)
    }
}

pub proof fn lemma_lookup_at<V>(s: Seq<(Seq<char>, V)>, i: int)
    requires
        distinct_keys(s),
        0 <= i < s.len(),
    ensures
        lookup(s, s[i].0) == Some(s[i].1),
    decreases s.len(),
{
    if i > 0 {
        let t = s.drop_first();
        assert(t[i - 1] == s[i]);
        assert(distinct_keys(t)) by {
            assert forall|a: int, b: int| 0 <= a < b < t.len() implies t[a].0 != t[b].0 by {
                assert(t[a] == s[a + 1] && t[b] == s[b + 1]);
            }
        }
        lemma_lookup_at(t, i - 1);
    }
}

pub proof fn lemma_insert_new<V>(s: Seq<(Seq<char>, V)>, k: Seq<char>, v: V)
    requires
        !has_key(s, k),
    ensures
        insert_entry(s, k, v) == s.push((k, v)),
    decreases s.len(),
{
    if s.len() > 0 {
        let t = s.drop_first();
        assert(!has_key(t, k)) by {
            if has_key(t, k) {
                let i = choose|i: int| 0 <= i < t.len() && t[i].0 == k;
                assert(s[i + 1] == t[i]);
            }
        }
        lemma_insert_new(t, k, v);
        assert(seq![s[0]] + t.push((k, v)) =~= s.push((k, v)));
    }
}

/// The entries of a map from input names to inputs.
pub uninterp spec fn input_entries(m: IndexMap<String, Input>) -> Seq<(Seq<char>, Input)>;

/// The entries of a map from node identifiers to nodes.
pub uninterp spec fn node_entries(m: IndexMap<String, Node>) -> Seq<(Seq<char>, Node)>;

/// The entries of a map from input names to changes.
pub uninterp spec fn change_entries(m: IndexMap<String, InputChange>) -> Seq<(Seq<char>, InputChange)>;

/// Relies on `IndexMap::new`: the new map has no entries.
#[verifier::external_body]
pub(crate) fn input_map_new() -> (r: IndexMap<String, Input>)
    ensures
        input_entries(r) == Seq::<(Seq<char>, Input)>::empty(),
{
    IndexMap::new()
}

/// Relies on `IndexMap::len`: the number of entries; an `IndexMap` never
/// holds two equal keys.
#[verifier::external_body]
pub(crate) fn input_map_len(m: &IndexMap<String, Input>) -> (r: usize)
    ensures
        r == input_entries(*m).len(),
        forall|i: int, j: int|
            0 <= i < j < r ==> input_entries(*m)[i].0 != input_entries(*m)[j].0,
{
    m.len()
}

/// Relies on `IndexMap::get_index`: the entry at position `i`, if there is one.
#[verifier::external_body]
pub(crate) fn input_map_at(m: &IndexMap<String, Input>, i: usize) -> (r: Option<(&String, &Input)>)
    ensures
        match r {
            Some(e) => i < input_entries(*m).len() && e.0@ == input_entries(*m)[i as int].0
                && *e.1 == input_entries(*m)[i as int].1,
            None => i >= input_entries(*m).len(),
        },
{
    m.get_index(i)
}

/// Relies on `IndexMap::get`: the value stored under key `k`.
#[verifier::external_body]
pub(crate) fn input_map_get<'a>(m: &'a IndexMap<String, Input>, k: &String) -> (r: Option<&'a Input>)
    ensures
        match r {
            Some(v) => lookup(input_entries(*m), k@) == Some(*v),
            None => lookup(input_entries(*m), k@) is None,
        },
{
    m.get(k)
}

/// Relies on `IndexMap::contains_key`: whether some entry has key `k`.
#[verifier::external_body]
pub(crate) fn input_map_contains(m: &IndexMap<String, Input>, k: &String) -> (r: bool)
    ensures
        r == has_key(input_entries(*m), k@),
{
    m.contains_key(k)
}

/// Relies on `IndexMap::get`: the node stored under identifier `k`.
#[verifier::external_body]
pub(crate) fn node_map_get<'a>(m: &'a IndexMap<String, Node>, k: &String) -> (r: Option<&'a Node>)
    ensures
        match r {
            Some(v) => lookup(node_entries(*m), k@) == Some(*v),
            None => lookup(node_entries(*m), k@) is None,
        },
{
    m.get(k)
}

/// Relies on `IndexMap::new`: the new map has no entries.
#[verifier::external_body]
pub(crate) fn change_map_new() -> (r: IndexMap<String, InputChange>)
    ensures
        change_entries(r) == Seq::<(Seq<char>, InputChange)>::empty(),
{
    IndexMap::new()
}

/// Relies on `IndexMap::len`: the number of entries.
#[verifier::external_body]
pub(crate) fn change_map_len(m: &IndexMap<String, InputChange>) -> (r: usize)
    ensures
        r == change_entries(*m).len(),
{
    m.len()
}

/// Relies on `IndexMap::get_index`: the entry at position `i`, if there is one.
#[verifier::external_body]
pub(crate) fn change_map_at(m: &IndexMap<String, InputChange>, i: usize) -> (r: Option<(&String, &InputChange)>)
    ensures
        match r {
            Some(e) => i < change_entries(*m).len() && e.0@ == change_entries(*m)[i as int].0
                && *e.1 == change_entries(*m)[i as int].1,
            None => i >= change_entries(*m).len(),
        },
{
    m.get_index(i)
}

/// Relies on `IndexMap::insert`: an existing key keeps its place and takes
/// the new value, a new key is appended.
#[verifier::external_body]
pub(crate) fn change_map_insert(m: &mut IndexMap<String, InputChange>, k: String, v: InputChange) -> (r: Option<InputChange>)
    ensures
        r == lookup(change_entries(*old(m)), k@),
        change_entries(*final(m)) == insert_entry(change_entries(*old(m)), k@, v),
{
    m.insert(k, v)
}

} // verus!
