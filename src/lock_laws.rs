//! Laws of `follows` resolution and of the diff between two snapshots.
use vstd::prelude::*;

use crate::flake_lock::{
    change_fn, change_of, deletion_fn, deletion_of, lemma_filter_map_keys, Input, InputChange,
    Lock, FOLLOWS_DEPTH,
};
use crate::index_map::{distinct_keys, has_key, keys_of, lemma_lookup_at};

verus! {

/// A `filter_map` that drops every element is empty.
pub proof fn lemma_filter_map_all_none<A, B>(s: Seq<A>, f: spec_fn(A) -> Option<B>)
    requires
        forall|i: int| 0 <= i < s.len() ==> #[trigger] f(s[i]) is None,
    ensures
        s.filter_map(f) == Seq::<B>::empty(),
    decreases s.len(),
{
    if s.len() > 0 {
        let t = s.drop_last();
        assert forall|i: int| 0 <= i < t.len() implies #[trigger] f(t[i]) is None by {
            assert(t[i] == s[i]);
        }
        lemma_filter_map_all_none(t, f);
        assert(f(s[s.len() - 1]) is None);
    }
}

/// The keys a key-keeping `filter_map` yields are those of the elements it keeps.
pub proof fn lemma_filter_map_keys_in_order<V, W>(
    s: Seq<(Seq<char>, V)>,
    f: spec_fn((Seq<char>, V)) -> Option<(Seq<char>, W)>,
)
    requires
        forall|e: (Seq<char>, V)| #[trigger] f(e) is Some ==> (f(e)->0).0 == e.0,
    ensures
        keys_of(s.filter_map(f)) == keys_of(s.filter(|e: (Seq<char>, V)| f(e) is Some)),
    decreases s.len(),
{
    let p = |e: (Seq<char>, V)| f(e) is Some;
    reveal(Seq::filter);
    if s.len() > 0 {
        let t = s.drop_last();
        lemma_filter_map_keys_in_order(t, f);
        let x = s.last();
        if f(x) is Some {
            assert(keys_of(t.filter_map(f) + seq![f(x)->0]) =~= keys_of(t.filter_map(f)).push(x.0));
            assert(keys_of(t.filter(p).push(x)) =~= keys_of(t.filter(p)).push(x.0));
        }
    }
}

/// Walking a path made of two parts is walking the first part, then the
/// second from where the first ended.
pub proof fn follows_path_composes(l: Lock, cur: Seq<char>, p: Seq<String>, q: Seq<String>, depth: nat)
    ensures
        l.walk_spec(cur, p + q, depth) == match l.walk_spec(cur, p, depth) {
            Some(mid) => l.walk_spec(mid, q, depth),
            None => None,
        },
    decreases p.len(),
{
    if p.len() == 0 {
        assert(p + q =~= q);
    } else {
        assert((p + q)[0] == p[0]);
        assert((p + q).drop_first() =~= p.drop_first() + q);
        match l.step_spec(cur, p[0]@) {
            Some(inp) => match l.resolve_spec(inp, depth) {
                Some(next) => {
                    follows_path_composes(l, next, p.drop_first(), q, depth);
                },
                None => {},
            },
            None => {},
        }
    }
}

/// A `follows` input leads to the same pinned value as a direct reference to
/// the node it resolves to.
pub proof fn follows_resolves_like_direct(l: Lock, path: Vec<String>, target: String)
    requires
        l.resolve_spec(Input::Follows(path), FOLLOWS_DEPTH as nat) == Some(target@),
    ensures
        l.dep_spec(Input::Follows(path)) == l.dep_spec(Input::Simple(target)),
{
}

/// A multi-level `follows`: when the path's first part leads to a node whose
/// input `name` is itself a `follows` input resolving to `mid`, and the rest
/// of the path leads from `mid` to `target`, the whole input resolves to
/// `target` and leads to the same pinned value as a direct reference to it.
pub proof fn multi_level_follows_resolves_like_direct(
    l: Lock,
    path: Vec<String>,
    k: int,
    first: Seq<char>,
    mid: Seq<char>,
    target: String,
)
    requires
        0 <= k < path@.len(),
        l.walk_spec(l.root@, path@.take(k), (FOLLOWS_DEPTH - 1) as nat) == Some(first),
        l.step_spec(first, path@[k]@) matches Some(Input::Follows(_)),
        l.resolve_spec(l.step_spec(first, path@[k]@)->Some_0, (FOLLOWS_DEPTH - 1) as nat) == Some(mid),
        l.walk_spec(mid, path@.skip(k + 1), (FOLLOWS_DEPTH - 1) as nat) == Some(target@),
    ensures
        l.resolve_spec(Input::Follows(path), FOLLOWS_DEPTH as nat) == Some(target@),
        l.dep_spec(Input::Follows(path)) == l.dep_spec(Input::Simple(target)),
{
    let d = (FOLLOWS_DEPTH - 1) as nat;
    let rest = path@.skip(k);
    assert(path@ =~= path@.take(k) + rest);
    follows_path_composes(l, l.root@, path@.take(k), rest, d);
    assert(rest[0] == path@[k]);
    assert(rest.drop_first() =~= path@.skip(k + 1));
}

/// A `follows` path that reaches a node absent from the snapshot, with names
/// still to walk, resolves to nothing; as a root input of the newer snapshot
/// it makes `diff` fail with `MissingNodeError`.
pub proof fn follows_through_missing_node(l: Lock, i: int, path: Vec<String>, k: int, gone: Seq<char>)
    requires
        0 <= i < l.root_deps_spec().len(),
        l.root_deps_spec()[i].1 == Input::Follows(path),
        0 <= k < path@.len(),
        l.walk_spec(l.root@, path@.take(k), (FOLLOWS_DEPTH - 1) as nat) == Some(gone),
        l.node_spec(gone) is None,
    ensures
        l.resolve_spec(Input::Follows(path), FOLLOWS_DEPTH as nat) is None,
        l.unresolved_at(i),
        !l.all_resolve(),
{
    let d = (FOLLOWS_DEPTH - 1) as nat;
    let rest = path@.skip(k);
    assert(path@ =~= path@.take(k) + rest);
    follows_path_composes(l, l.root@, path@.take(k), rest, d);
    assert(rest[0] == path@[k]);
    assert(l.step_spec(gone, rest[0]@) is None);
    assert(l.unresolved_at(i));
}

/// Comparing a snapshot with itself yields no entries.
pub proof fn diff_with_itself_is_empty(s: Lock)
    requires
        distinct_keys(s.root_deps_spec()),
    ensures
        s.diff_spec(s) == Seq::<(Seq<char>, InputChange)>::empty(),
{
    let d = s.root_deps_spec();
    let f = change_fn(s, s);
    let g = deletion_fn(d);
    assert forall|i: int| 0 <= i < d.len() implies #[trigger] f(d[i]) is None by {
        lemma_lookup_at(d, i);
    }
    assert forall|i: int| 0 <= i < d.len() implies #[trigger] g(d[i]) is None by {
        assert(has_key(d, d[i].0));
    }
    lemma_filter_map_all_none(d, f);
    lemma_filter_map_all_none(d, g);
    assert(Seq::<(Seq<char>, InputChange)>::empty() + Seq::<(Seq<char>, InputChange)>::empty()
        =~= Seq::<(Seq<char>, InputChange)>::empty());
}

/// Every entry of a diff names a root dependency: an added or updated one of
/// the newer snapshot, or a deleted one that only the older snapshot has. An
/// added name has no pinned value in the older snapshot, and an update
/// always changes the content hash.
pub proof fn diff_entries_are_changes(old: Lock, new: Lock)
    ensures
        forall|j: int|
            0 <= j < old.diff_spec(new).len() ==> match #[trigger] old.diff_spec(new)[j] {
                (name, InputChange::Add(_)) => has_key(new.root_deps_spec(), name)
                    && old.root_dep_spec(name) is None,
                (name, InputChange::Update { old: o, new: n }) => has_key(new.root_deps_spec(), name)
                    && o.hash_spec() != n.hash_spec(),
                (name, InputChange::Delete) => has_key(old.root_deps_spec(), name)
                    && !has_key(new.root_deps_spec(), name),
            },
{
    let nd = new.root_deps_spec();
    let od = old.root_deps_spec();
    let f = change_fn(old, new);
    let g = deletion_fn(nd);
    let a = nd.filter_map(f);
    let b = od.filter_map(g);
    assert forall|j: int| 0 <= j < old.diff_spec(new).len() implies match #[trigger] old.diff_spec(
        new,
    )[j] {
        (name, InputChange::Add(_)) => has_key(nd, name) && old.root_dep_spec(name) is None,
        (name, InputChange::Update { old: o, new: n }) => has_key(nd, name) && o.hash_spec()
            != n.hash_spec(),
        (name, InputChange::Delete) => has_key(od, name) && !has_key(nd, name),
    } by {
        let x = old.diff_spec(new)[j];
        if j < a.len() {
            assert(a[j] == x);
            assert(a.contains(x));
            nd.lemma_filter_map_contains(f, x);
            let t = choose|t: (Seq<char>, Input)| #[trigger] nd.contains(t) && f(t) == Some(x);
            let idx = choose|idx: int| 0 <= idx < nd.len() && nd[idx] == t;
            assert(nd[idx].0 == x.0);
        } else {
            assert(b[j - a.len()] == x);
            assert(b.contains(x));
            od.lemma_filter_map_contains(g, x);
            let t = choose|t: (Seq<char>, Input)| #[trigger] od.contains(t) && g(t) == Some(x);
            let idx = choose|idx: int| 0 <= idx < od.len() && od[idx] == t;
            assert(od[idx].0 == x.0);
        }
    }
}

/// The names of a diff are, in order: the changed root dependencies of the
/// newer snapshot in its declaration order, then the root dependencies only
/// the older snapshot has, in its declaration order.
pub proof fn diff_order_follows_declarations(old: Lock, new: Lock)
    ensures
        keys_of(old.diff_spec(new)) == keys_of(
            new.root_deps_spec().filter(|e: (Seq<char>, Input)| change_of(old, new, e) is Some),
        ) + keys_of(
            old.root_deps_spec().filter(
                |e: (Seq<char>, Input)| !has_key(new.root_deps_spec(), e.0),
            ),
        ),
{
    let nd = new.root_deps_spec();
    let od = old.root_deps_spec();
    let f = change_fn(old, new);
    let g = deletion_fn(nd);
    assert forall|e: (Seq<char>, Input)| #[trigger] f(e) is Some implies (f(e)->0).0 == e.0 by {}
    assert forall|e: (Seq<char>, Input)| #[trigger] g(e) is Some implies (g(e)->0).0 == e.0 by {}
    lemma_filter_map_keys_in_order(nd, f);
    lemma_filter_map_keys_in_order(od, g);
    let pf = |e: (Seq<char>, Input)| f(e) is Some;
    let pf2 = |e: (Seq<char>, Input)| change_of(old, new, e) is Some;
    let pg = |e: (Seq<char>, Input)| g(e) is Some;
    let pg2 = |e: (Seq<char>, Input)| !has_key(nd, e.0);
    assert(pf =~= pf2);
    assert(pg =~= pg2);
    assert(keys_of(nd.filter_map(f) + od.filter_map(g)) =~= keys_of(nd.filter_map(f)) + keys_of(
        od.filter_map(g),
    ));
}

} // verus!
