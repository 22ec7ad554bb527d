//! The lockfile model: nodes, inputs (direct or `follows`), pinned values,
//! and the diff between two snapshots.
use vstd::prelude::*;

use indexmap::IndexMap;

use crate::index_map::{
    change_entries, change_map_insert, change_map_len, change_map_new,
    input_entries, input_map_at, input_map_contains, input_map_get, input_map_len, input_map_new,
    distinct_keys, has_key, lemma_insert_new, lookup, node_entries, node_map_get,
};

verus! {

/// One snapshot of a lockfile.
#[derive(Debug, PartialEq, Eq)]
pub struct Lock {
    pub nodes: IndexMap<String, Node>,
    pub version: u32,
    pub root: String,
}

/// A node of the lock graph.
#[derive(Debug, Clone, PartialEq, Eq)]
pub struct Node {
    pub flake: Option<bool>,
    pub locked: Option<Locked>,
    pub inputs: Option<IndexMap<String, Input>>,
}

/// How a node refers to one of its inputs: by node identifier, or by a path
/// of input names walked from the root node.
#[derive(Debug, Clone, PartialEq, Eq)]
pub enum Input {
    Simple(String),
    Follows(Vec<String>),
}

/// A pinned dependency.
#[derive(Debug, Clone, PartialEq, Eq)]
pub enum Locked {
    Git {
        source_type: String,
        owner: Option<String>,
        repo: Option<String>,
        rev: String,
        nar_hash: String,
        last_modified: Option<i64>,
    },
    Other { nar_hash: String, last_modified: Option<i64> },
}

/// What happened to one root dependency between two snapshots.
#[derive(Debug, Clone, PartialEq, Eq)]
pub enum InputChange {
    Add(Locked),
    Update { old: Locked, new: Locked },
    Delete,
}

fn copy_opt_string(s: &Option<String>) -> (r: Option<String>)
    ensures
        r == *s,
{
    match s {
        Some(v) => Some(v.clone()),
        None => None,
    }
}

impl Locked {
    /// The content hash, the sole basis of change detection.
    pub open spec fn hash_spec(self) -> Seq<char> {
        match self {
            Locked::Git { nar_hash, .. } => nar_hash@,
            Locked::Other { nar_hash, .. } => nar_hash@,
        }
    }

    pub fn get_hash(&self) -> (r: &String)
        ensures
            r@ == self.hash_spec(),
    {
        match self {
            Locked::Git { nar_hash, .. } => nar_hash,
            Locked::Other { nar_hash, .. } => nar_hash,
        }
    }

    /// A pinned value from the fields of a lockfile entry: git-like when the
    /// entry has a source type, a revision and a content hash (tried first,
    /// as such an entry also fits the other shape); else any entry with a
    /// content hash; else none.
    pub fn from_fields(
        source_type: Option<String>,
        owner: Option<String>,
        repo: Option<String>,
        rev: Option<String>,
        nar_hash: Option<String>,
        last_modified: Option<i64>,
    ) -> (r: Option<Locked>)
        ensures
            r == match (source_type, rev, nar_hash) {
                (Some(t), Some(v), Some(h)) => Some(
                    Locked::Git {
                        source_type: t,
                        owner,
                        repo,
                        rev: v,
                        nar_hash: h,
                        last_modified,
                    },
                ),
                (_, _, Some(h)) => Some(Locked::Other { nar_hash: h, last_modified }),
                (_, _, None) => None,
            },
    {
        match (source_type, rev, nar_hash) {
            (Some(t), Some(v), Some(h)) => Some(
                Locked::Git { source_type: t, owner, repo, rev: v, nar_hash: h, last_modified },
            ),
            (_, _, Some(h)) => Some(Locked::Other { nar_hash: h, last_modified }),
            (_, _, None) => None,
        }
    }

    /// An equal copy.
    pub fn duplicate(&self) -> (r: Locked)
        ensures
            r == *self,
    {
        match self {
            Locked::Git { source_type, owner, repo, rev, nar_hash, last_modified } => Locked::Git {
                source_type: source_type.clone(),
                owner: copy_opt_string(owner),
                repo: copy_opt_string(repo),
                rev: rev.clone(),
                nar_hash: nar_hash.clone(),
                last_modified: *last_modified,
            },
            Locked::Other { nar_hash, last_modified } => Locked::Other {
                nar_hash: nar_hash.clone(),
                last_modified: *last_modified,
            },
        }
    }
}

/// The changes between two snapshots, by root dependency name, in the order
/// of the newer snapshot's root inputs followed by the deletions.
#[derive(Debug, PartialEq, Eq)]
pub struct LockDiff(pub IndexMap<String, InputChange>);

/// Why two snapshots could not be compared.
#[derive(Debug, Clone, PartialEq, Eq)]
pub enum LockDiffError {
    /// A root input (first field) of the node named by the second field does
    /// not lead to a pinned node.
    MissingNodeError(String, String),
    /// The root node is not among the nodes.
    MissingRootNode,
}

impl LockDiffError {
    pub fn message(&self) -> (r: String)
        ensures
            r@ == match *self {
                LockDiffError::MissingNodeError(input, node) => "Node "@ + input@
                    + " is in the list of inputs of node "@ + node@ + " but not in the lockfile"@,
                LockDiffError::MissingRootNode => "There is no root node in the lockfile"@,
            },
    {
        match self {
            LockDiffError::MissingNodeError(input, node) => {
                let mut s = String::from_str("Node ");
                s.append(input.as_str());
                s.append(" is in the list of inputs of node ");
                s.append(node.as_str());
                s.append(" but not in the lockfile");
                s
            },
            LockDiffError::MissingRootNode => String::from_str("There is no root node in the lockfile"),
        }
    }
}

/// How many levels of nested `follows` resolution are attempted before the
/// input is taken as unresolvable; this bounds the work on a cyclic lockfile.
pub const FOLLOWS_DEPTH: u32 = 256;

pub open spec fn view_opt(r: Option<String>) -> Option<Seq<char>> {
    match r {
        Some(s) => Some(s@),
        None => None,
    }
}

impl Node {
    /// The declared inputs; absent means none.
    pub open spec fn deps_spec(self) -> Seq<(Seq<char>, Input)> {
        match self.inputs {
            Some(m) => input_entries(m),
            None => Seq::empty(),
        }
    }
}

/// The entry of a diff for one root input of `new`, if it changed.
pub open spec fn change_of(old: Lock, new: Lock, e: (Seq<char>, Input)) -> Option<(Seq<char>, InputChange)> {
    match new.dep_spec(e.1) {
        Some(nl) => match old.root_dep_spec(e.0) {
            Some(ol) => if ol.hash_spec() != nl.hash_spec() {
                Some((e.0, InputChange::Update { old: ol, new: nl }))
            } else {
                None
            },
            None => Some((e.0, InputChange::Add(nl))),
        },
        None => None,
    }
}

pub open spec fn change_fn(old: Lock, new: Lock) -> spec_fn((Seq<char>, Input)) -> Option<(Seq<char>, InputChange)> {
    |e: (Seq<char>, Input)| change_of(old, new, e)
}

/// The entry of a diff for one root input of the older snapshot, if the newer
/// one (with root inputs `new_deps`) dropped it.
pub open spec fn deletion_of(new_deps: Seq<(Seq<char>, Input)>, e: (Seq<char>, Input)) -> Option<(Seq<char>, InputChange)> {
    if has_key(new_deps, e.0) {
        None
    } else {
        Some((e.0, InputChange::Delete))
    }
}

pub open spec fn deletion_fn(new_deps: Seq<(Seq<char>, Input)>) -> spec_fn((Seq<char>, Input)) -> Option<(Seq<char>, InputChange)> {
    |e: (Seq<char>, Input)| deletion_of(new_deps, e)
}

impl Lock {
    pub open spec fn node_spec(self, id: Seq<char>) -> Option<Node> {
        lookup(node_entries(self.nodes), id)
    }

    pub open spec fn root_node_spec(self) -> Option<Node> {
        self.node_spec(self.root@)
    }

    /// The input named `name` of node `cur`.
    pub open spec fn step_spec(self, cur: Seq<char>, name: Seq<char>) -> Option<Input> {
        match self.node_spec(cur) {
            Some(n) => match n.inputs {
                Some(m) => lookup(input_entries(m), name),
                None => None,
            },
            None => None,
        }
    }

    /// The node identifier an input stands for, with at most `depth` nested
    /// `follows` resolutions.
    pub open spec fn resolve_spec(self, input: Input, depth: nat) -> Option<Seq<char>>
        decreases depth, 0nat, 0nat,
    {
        match input {
            Input::Simple(id) => Some(id@),
            Input::Follows(path) => if depth == 0 {
                None
            } else {
                self.walk_spec(self.root@, path@, (depth - 1) as nat)
            },
        }
    }

    /// Walking `path` from node `cur`: each name selects an input of the
    /// current node, whose resolution becomes the current node.
    pub open spec fn walk_spec(self, cur: Seq<char>, path: Seq<String>, depth: nat) -> Option<Seq<char>>
        decreases depth, 1nat, path.len(),
    {
        if path.len() == 0 {
            Some(cur)
        } else {
            match self.step_spec(cur, path[0]@) {
                Some(inp) => match self.resolve_spec(inp, depth) {
                    Some(next) => self.walk_spec(next, path.drop_first(), depth),
                    None => None,
                },
                None => None,
            }
        }
    }

    /// The pinned value an input leads to.
    pub open spec fn dep_spec(self, input: Input) -> Option<Locked> {
        match self.resolve_spec(input, FOLLOWS_DEPTH as nat) {
            Some(id) => match self.node_spec(id) {
                Some(n) => n.locked,
                None => None,
            },
            None => None,
        }
    }

    /// The root dependencies, in declaration order.
    pub open spec fn root_deps_spec(self) -> Seq<(Seq<char>, Input)> {
        match self.root_node_spec() {
            Some(n) => n.deps_spec(),
            None => Seq::empty(),
        }
    }

    /// The pinned value of the root dependency `name`.
    pub open spec fn root_dep_spec(self, name: Seq<char>) -> Option<Locked> {
        match lookup(self.root_deps_spec(), name) {
            Some(i) => self.dep_spec(i),
            None => None,
        }
    }

    /// The `i`th root dependency does not lead to a pinned value.
    pub open spec fn unresolved_at(self, i: int) -> bool {
        self.dep_spec(self.root_deps_spec()[i].1) is None
    }

    pub open spec fn all_resolve(self) -> bool {
        forall|i: int| 0 <= i < self.root_deps_spec().len() ==> !#[trigger] self.unresolved_at(i)
    }

    /// The entries of the diff from `self` to `new`.
    pub open spec fn diff_spec(self, new: Lock) -> Seq<(Seq<char>, InputChange)> {
        new.root_deps_spec().filter_map(change_fn(self, new)) + self.root_deps_spec().filter_map(
            deletion_fn(new.root_deps_spec()),
        )
    }

    fn resolve_input(&self, node: &Input, depth: u32) -> (r: Option<String>)
        ensures
            view_opt(r) == self.resolve_spec(*node, depth as nat),
        decreases depth, 0nat,
    {
        match node {
            Input::Simple(id) => Some(id.clone()),
            Input::Follows(path) => {
                if depth == 0 {
                    None
                } else {
                    self.get_input_by_path(self.root.clone(), path, depth - 1)
                }
            },
        }
    }

    fn get_input_by_path(&self, name: String, path: &Vec<String>, depth: u32) -> (r: Option<String>)
        ensures
            view_opt(r) == self.walk_spec(name@, path@, depth as nat),
        decreases depth, 1nat,
    {
        let ghost start = name@;
        let mut cur = name;
        let mut i: usize = 0;
        assert(path@.subrange(0, path@.len() as int) =~= path@);
        while i < path.len()
            invariant
                i <= path@.len(),
                start == name@,
                self.walk_spec(cur@, path@.subrange(i as int, path@.len() as int), depth as nat)
                    == self.walk_spec(start, path@, depth as nat),
            decreases path@.len() - i,
        {
            let ghost rest = path@.subrange(i as int, path@.len() as int);
            assert(rest[0] == path@[i as int]);
            assert(rest.drop_first() =~= path@.subrange(i + 1, path@.len() as int));
            let next = match node_map_get(&self.nodes, &cur) {
                Some(node) => match &node.inputs {
                    Some(inputs) => match input_map_get(inputs, &path[i]) {
                        Some(input) => self.resolve_input(input, depth),
                        None => None,
                    },
                    None => None,
                },
                None => None,
            };
            cur = match next {
                Some(n) => n,
                None => {
                    assert(self.walk_spec(cur@, rest, depth as nat) is None);
                    return None;
                },
            };
            i += 1;
        }
        assert(path@.subrange(i as int, path@.len() as int).len() == 0);
        Some(cur)
    }

    fn get_dep(&self, dep: &Input) -> (r: Option<Locked>)
        ensures
            r == self.dep_spec(*dep),
    {
        let id = match self.resolve_input(dep, FOLLOWS_DEPTH) {
            Some(id) => id,
            None => return None,
        };
        match node_map_get(&self.nodes, &id) {
            Some(n) => match &n.locked {
                Some(l) => Some(l.duplicate()),
                None => None,
            },
            None => None,
        }
    }

    /// The pinned value of the root dependency `name`, if the snapshot has
    /// one by that name and it resolves.
    pub fn get_root_dep(&self, name: &String) -> (r: Option<Locked>)
        ensures
            r == self.root_dep_spec(name@),
    {
        let root = match node_map_get(&self.nodes, &self.root) {
            Some(n) => n,
            None => return None,
        };
        let deps = match &root.inputs {
            Some(m) => m,
            None => return None,
        };
        match input_map_get(deps, name) {
            Some(input) => self.get_dep(input),
            None => None,
        }
    }
}

/// A key of a `filter_map` that keeps keys is a key of its source.
pub proof fn lemma_filter_map_keys<V, W>(
    s: Seq<(Seq<char>, V)>,
    f: spec_fn((Seq<char>, V)) -> Option<(Seq<char>, W)>,
    k: Seq<char>,
)
    requires
        forall|e: (Seq<char>, V)| #[trigger] f(e) is Some ==> (f(e)->0).0 == e.0,
        has_key(s.filter_map(f), k),
    ensures
        has_key(s, k),
{
    let fm = s.filter_map(f);
    let j = choose|j: int| 0 <= j < fm.len() && fm[j].0 == k;
    let x = fm[j];
    assert(fm.contains(x));
    s.lemma_filter_map_contains(f, x);
    let t = choose|t: (Seq<char>, V)| #[trigger] s.contains(t) && f(t) == Some(x);
    let idx = choose|idx: int| 0 <= idx < s.len() && s[idx] == t;
    assert(s[idx].0 == k);
}

impl LockDiff {
    pub open spec fn entries(self) -> Seq<(Seq<char>, InputChange)> {
        change_entries(self.0)
    }

    /// The number of changed root dependencies.
    pub fn len(&self) -> (r: usize)
        ensures
            r == self.entries().len(),
    {
        change_map_len(&self.0)
    }
}

impl Lock {
    /// The changes from `self` (the older snapshot) to `new`.
    ///
    /// Fails with `MissingRootNode` when either root node is absent; else with
    /// `MissingNodeError(name, "root")` for the first root input of `new`
    /// that does not lead to a pinned value.
    pub fn diff(&self, new: &Lock) -> (r: Result<LockDiff, LockDiffError>)
        ensures
            (self.root_node_spec() is None || new.root_node_spec() is None) ==> r == Err::<
                LockDiff,
                LockDiffError,
            >(LockDiffError::MissingRootNode),
            (self.root_node_spec() is Some && new.root_node_spec() is Some && !new.all_resolve())
                ==> r is Err && r->Err_0 is MissingNodeError,
            r matches Err(LockDiffError::MissingNodeError(k, p)) ==> p@ == "root"@ && exists|i: int|
                0 <= i < new.root_deps_spec().len() && new.unresolved_at(i) && k@
                    == new.root_deps_spec()[i].0 && forall|j: int|
                    0 <= j < i ==> !#[trigger] new.unresolved_at(j),
            r is Ok <==> (self.root_node_spec() is Some && new.root_node_spec() is Some
                && new.all_resolve()),
            r matches Ok(d) ==> d.entries() == self.diff_spec(*new),
    {
        let old_root = match node_map_get(&self.nodes, &self.root) {
            Some(n) => n,
            None => return Err(LockDiffError::MissingRootNode),
        };
        let new_root = match node_map_get(&new.nodes, &new.root) {
            Some(n) => n,
            None => return Err(LockDiffError::MissingRootNode),
        };
        let no_inputs_old = input_map_new();
        let no_inputs_new = input_map_new();
        let old_deps = match &old_root.inputs {
            Some(m) => m,
            None => &no_inputs_old,
        };
        let new_deps = match &new_root.inputs {
            Some(m) => m,
            None => &no_inputs_new,
        };
        let ghost nd = new.root_deps_spec();
        let ghost od = self.root_deps_spec();
        let ghost f = change_fn(*self, *new);
        let ghost g = deletion_fn(nd);
        assert(input_entries(*new_deps) == nd);
        assert(input_entries(*old_deps) == od);
        let mut diff = change_map_new();
        let n = input_map_len(new_deps);
        assert(nd.take(0).filter_map(f) =~= Seq::<(Seq<char>, InputChange)>::empty());
        let mut i: usize = 0;
        while i < n
            invariant
                i <= n,
                n == nd.len(),
                nd == new.root_deps_spec(),
                od == self.root_deps_spec(),
                self.root_node_spec() is Some,
                new.root_node_spec() is Some,
                f == change_fn(*self, *new),
                input_entries(*new_deps) == nd,
                distinct_keys(nd),
                change_entries(diff) == nd.take(i as int).filter_map(f),
                forall|j: int| 0 <= j < i ==> !#[trigger] new.unresolved_at(j),
            decreases n - i,
        {
            let (key, input_a) = match input_map_at(new_deps, i) {
                Some(e) => e,
                None => {
                    assert(false);
                    return Err(LockDiffError::MissingRootNode);
                },
            };
            proof {
                nd.lemma_filter_map_take_succ(f, i as int);
                assert(nd.take(i as int + 1) =~= nd.take(i as int).push(nd[i as int]));
            }
            let value_a = match new.get_dep(input_a) {
                Some(v) => v,
                None => {
                    assert(new.unresolved_at(i as int));
                    proof {
                        reveal_strlit("root");
                    }
                    return Err(LockDiffError::MissingNodeError(key.clone(), String::from_str("root")));
                },
            };
            proof {
                assert forall|e: (Seq<char>, Input)| #[trigger] f(e) is Some implies (f(e)->0).0
                    == e.0 by {}
                if has_key(nd.take(i as int).filter_map(f), key@) {
                    lemma_filter_map_keys(nd.take(i as int), f, key@);
                    let t = choose|t: int| 0 <= t < i && nd.take(i as int)[t].0 == key@;
                    assert(nd[t].0 == nd[i as int].0);
                }
                lemma_insert_new(change_entries(diff), key@, InputChange::Delete);
            }
            match self.get_root_dep(key) {
                Some(value_b) => {
                    if !(*value_a.get_hash() == *value_b.get_hash()) {
                        proof {
                            lemma_insert_new(
                                change_entries(diff),
                                key@,
                                InputChange::Update { old: value_b, new: value_a },
                            );
                        }
                        change_map_insert(
                            &mut diff,
                            key.clone(),
                            InputChange::Update { old: value_b, new: value_a },
                        );
                    }
                },
                None => {
                    proof {
                        lemma_insert_new(change_entries(diff), key@, InputChange::Add(value_a));
                    }
                    change_map_insert(&mut diff, key.clone(), InputChange::Add(value_a));
                },
            }
            i += 1;
        }
        assert(nd.take(n as int) =~= nd);
        let ghost added = nd.filter_map(f);
        let m = input_map_len(old_deps);
        assert(od.take(0).filter_map(g) =~= Seq::<(Seq<char>, InputChange)>::empty());
        assert(added + od.take(0).filter_map(g) =~= added);
        let mut i: usize = 0;
        while i < m
            invariant
                i <= m,
                m == od.len(),
                nd == new.root_deps_spec(),
                od == self.root_deps_spec(),
                self.root_node_spec() is Some,
                new.root_node_spec() is Some,
                g == deletion_fn(nd),
                f == change_fn(*self, *new),
                added == nd.filter_map(f),
                input_entries(*new_deps) == nd,
                input_entries(*old_deps) == od,
                distinct_keys(od),
                change_entries(diff) == added + od.take(i as int).filter_map(g),
                new.all_resolve(),
            decreases m - i,
        {
            let (key, _) = match input_map_at(old_deps, i) {
                Some(e) => e,
                None => {
                    assert(false);
                    return Err(LockDiffError::MissingRootNode);
                },
            };
            proof {
                od.lemma_filter_map_take_succ(g, i as int);
                assert(od.take(i as int + 1) =~= od.take(i as int).push(od[i as int]));
            }
            if !input_map_contains(new_deps, key) {
                proof {
                    let done = od.take(i as int).filter_map(g);
                    assert forall|e: (Seq<char>, Input)| #[trigger] g(e) is Some implies (g(e)->0).0
                        == e.0 by {}
                    assert forall|e: (Seq<char>, Input)| #[trigger] f(e) is Some implies (f(e)->0).0
                        == e.0 by {}
                    if has_key(added + done, key@) {
                        let j = choose|j: int| 0 <= j < (added + done).len() && (added + done)[j].0 == key@;
                        if j < added.len() {
                            assert(added[j] == (added + done)[j]);
                            lemma_filter_map_keys(nd, f, key@);
                        } else {
                            assert(done[j - added.len()] == (added + done)[j]);
                            lemma_filter_map_keys(od.take(i as int), g, key@);
                            let t = choose|t: int| 0 <= t < i && od.take(i as int)[t].0 == key@;
                            assert(od[t].0 == od[i as int].0);
                        }
                    }
                    lemma_insert_new(added + done, key@, InputChange::Delete);
                    assert((added + done).push((key@, InputChange::Delete)) =~= added + (done + seq![(key@, InputChange::Delete)]));
                }
                change_map_insert(&mut diff, key.clone(), InputChange::Delete);
            } else {
                assert(od.take(i as int + 1).filter_map(g) =~= od.take(i as int).filter_map(g));
            }
            i += 1;
        }
        assert(od.take(m as int) =~= od);
        Ok(LockDiff(diff))
    }
}

} // verus!
