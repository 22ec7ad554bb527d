use indexmap::IndexMap;
use update_daemon::flake_lock::{Input, InputChange, Lock, LockDiffError, Locked, Node};

fn git(owner: &str, repo: &str, rev: &str, hash: &str) -> Locked {
    Locked::Git {
        source_type: "github".to_string(),
        owner: Some(owner.to_string()),
        repo: Some(repo.to_string()),
        rev: rev.to_string(),
        nar_hash: hash.to_string(),
        last_modified: None,
    }
}

fn other(hash: &str) -> Locked {
    Locked::Other { nar_hash: hash.to_string(), last_modified: None }
}

fn simple(id: &str) -> Input {
    Input::Simple(id.to_string())
}

fn follows(path: &[&str]) -> Input {
    Input::Follows(path.iter().map(|s| s.to_string()).collect())
}

fn node(locked: Option<Locked>, inputs: &[(&str, Input)]) -> Node {
    let inputs = if inputs.is_empty() {
        None
    } else {
        let mut m = IndexMap::new();
        for (k, v) in inputs {
            m.insert(k.to_string(), v.clone());
        }
        Some(m)
    };
    Node { flake: Some(true), locked, inputs }
}

/// A snapshot whose root node `root` has `root_inputs`, beside `nodes`.
fn lock(root_inputs: &[(&str, Input)], nodes: &[(&str, Node)]) -> Lock {
    let mut m = IndexMap::new();
    m.insert("root".to_string(), node(None, root_inputs));
    for (k, n) in nodes {
        m.insert(k.to_string(), n.clone());
    }
    Lock { nodes: m, version: 7, root: "root".to_string() }
}

fn nixpkgs_lock(rev: &str, hash: &str) -> Lock {
    lock(&[("nixpkgs", simple("nixpkgs"))], &[("nixpkgs", node(Some(git("NixOS", "nixpkgs", rev, hash)), &[]))])
}

fn names(d: &update_daemon::flake_lock::LockDiff) -> Vec<String> {
    d.0.keys().cloned().collect()
}

#[test]
fn link_github() {
    let lock1 = nixpkgs_lock("84d74ae9c9cbed73274b8e4e00be14688ffc93fe", "sha256-AAAA");
    let lock2 = nixpkgs_lock("c601d56e19dd2ed71b23d8aa76be8437d043d4c5", "sha256-BBBB");
    let link = lock1.diff(&lock2).unwrap().0.get("nixpkgs").unwrap().link().unwrap();
    let expected = "https://github.com/NixOS/nixpkgs/compare/84d74ae9c9cbed73274b8e4e00be14688ffc93fe...c601d56e19dd2ed71b23d8aa76be8437d043d4c5?expand=1".to_string();
    assert_eq!(link, expected);
}

#[test]
fn diff_of_snapshot_with_itself_is_empty() {
    let l = lock(
        &[("a", simple("a")), ("b", follows(&["a"]))],
        &[("a", node(Some(other("h-a")), &[]))],
    );
    let d = l.diff(&l).unwrap();
    assert_eq!(d.len(), 0);
    assert_eq!(d.spaced(), "");
}

#[test]
fn added_and_deleted_inputs() {
    let old = lock(
        &[("a", simple("a")), ("b", simple("b"))],
        &[("a", node(Some(other("h-a")), &[])), ("b", node(Some(other("h-b")), &[]))],
    );
    let new = lock(
        &[("b", simple("b")), ("c", simple("c"))],
        &[("b", node(Some(other("h-b")), &[])), ("c", node(Some(other("h-c")), &[]))],
    );
    let d = old.diff(&new).unwrap();
    assert_eq!(d.len(), 2);
    assert_eq!(names(&d), vec!["c".to_string(), "a".to_string()]);
    assert_eq!(d.0.get("c"), Some(&InputChange::Add(other("h-c"))));
    assert_eq!(d.0.get("a"), Some(&InputChange::Delete));
    assert_eq!(d.0.get("b"), None);
}

#[test]
fn updated_input_keeps_both_values() {
    let old = nixpkgs_lock("84d74ae9c9", "h1");
    let new = nixpkgs_lock("c601d56e19", "h2");
    let d = old.diff(&new).unwrap();
    assert_eq!(d.len(), 1);
    assert_eq!(
        d.0.get("nixpkgs"),
        Some(&InputChange::Update {
            old: git("NixOS", "nixpkgs", "84d74ae9c9", "h1"),
            new: git("NixOS", "nixpkgs", "c601d56e19", "h2"),
        })
    );
}

#[test]
fn only_the_content_hash_counts_as_change() {
    let old = lock(&[("x", simple("x"))], &[("x", node(Some(git("a", "b", "rev1", "same")), &[]))]);
    let new = lock(&[("x", simple("x2"))], &[("x2", node(Some(git("c", "d", "rev2", "same")), &[]))]);
    assert_eq!(old.diff(&new).unwrap().len(), 0);
}

#[test]
fn diff_order_is_new_declarations_then_deletions() {
    let old = lock(
        &[("z", simple("z")), ("gone2", simple("g2")), ("y", simple("y")), ("gone1", simple("g1"))],
        &[
            ("z", node(Some(other("z1")), &[])),
            ("g2", node(Some(other("g2")), &[])),
            ("y", node(Some(other("y1")), &[])),
            ("g1", node(Some(other("g1")), &[])),
        ],
    );
    let new = lock(
        &[("y", simple("y")), ("new", simple("n")), ("z", simple("z"))],
        &[
            ("y", node(Some(other("y2")), &[])),
            ("n", node(Some(other("n")), &[])),
            ("z", node(Some(other("z2")), &[])),
        ],
    );
    let d = old.diff(&new).unwrap();
    assert_eq!(
        names(&d),
        vec!["y".to_string(), "new".to_string(), "z".to_string(), "gone2".to_string(), "gone1".to_string()]
    );
}

#[test]
fn multi_level_follows_matches_direct_reference() {
    // root.b follows a's input "nixpkgs", which itself follows root.pkgs.
    let with_follows = lock(
        &[("a", simple("a")), ("pkgs", simple("pkgs_node")), ("b", follows(&["a", "nixpkgs"]))],
        &[
            ("a", node(Some(other("h-a")), &[("nixpkgs", follows(&["pkgs"]))])),
            ("pkgs_node", node(Some(other("h-pkgs")), &[])),
        ],
    );
    let direct = lock(
        &[("a", simple("a")), ("pkgs", simple("pkgs_node")), ("b", simple("pkgs_node"))],
        &[
            ("a", node(Some(other("h-a")), &[("nixpkgs", simple("pkgs_node"))])),
            ("pkgs_node", node(Some(other("h-pkgs")), &[])),
        ],
    );
    assert_eq!(with_follows.get_root_dep(&"b".to_string()), Some(other("h-pkgs")));
    assert_eq!(
        with_follows.get_root_dep(&"b".to_string()),
        direct.get_root_dep(&"b".to_string())
    );
    assert_eq!(with_follows.diff(&direct).unwrap().len(), 0);
    let empty = lock(&[], &[]);
    let d = empty.diff(&with_follows).unwrap();
    assert_eq!(d.0.get("b"), Some(&InputChange::Add(other("h-pkgs"))));
}

#[test]
fn follows_through_missing_node_is_an_error() {
    let new = lock(
        &[("a", simple("a")), ("b", follows(&["a", "x", "y"]))],
        &[("a", node(Some(other("h-a")), &[("x", simple("absent"))]))],
    );
    let old = lock(&[], &[]);
    assert_eq!(
        old.diff(&new).err(),
        Some(LockDiffError::MissingNodeError("b".to_string(), "root".to_string()))
    );
    assert_eq!(new.get_root_dep(&"b".to_string()), None);
}

#[test]
fn cyclic_follows_is_an_error() {
    let new = lock(&[("a", follows(&["b"])), ("b", follows(&["a"]))], &[]);
    let old = lock(&[], &[]);
    assert_eq!(
        old.diff(&new).err(),
        Some(LockDiffError::MissingNodeError("a".to_string(), "root".to_string()))
    );
}

#[test]
fn node_without_pinned_value_is_an_error() {
    let new = lock(&[("a", simple("a"))], &[("a", node(None, &[]))]);
    let old = lock(&[], &[]);
    let e = old.diff(&new).err().unwrap();
    assert_eq!(e, LockDiffError::MissingNodeError("a".to_string(), "root".to_string()));
    assert_eq!(e.message(), "Node a is in the list of inputs of node root but not in the lockfile");
}

#[test]
fn missing_root_is_an_error() {
    let good = lock(&[("a", simple("a"))], &[("a", node(Some(other("h")), &[]))]);
    let mut bad = lock(&[], &[]);
    bad.root = "nowhere".to_string();
    assert_eq!(good.diff(&bad).err(), Some(LockDiffError::MissingRootNode));
    assert_eq!(bad.diff(&good).err(), Some(LockDiffError::MissingRootNode));
    assert_eq!(LockDiffError::MissingRootNode.message(), "There is no root node in the lockfile");
}

#[test]
fn root_without_inputs_has_no_dependencies() {
    let empty = lock(&[], &[]);
    let one = lock(&[("a", simple("a"))], &[("a", node(Some(other("h")), &[]))]);
    let d = one.diff(&empty).unwrap();
    assert_eq!(names(&d), vec!["a".to_string()]);
    assert_eq!(d.0.get("a"), Some(&InputChange::Delete));
    assert_eq!(empty.get_root_dep(&"a".to_string()), None);
}

#[test]
fn hash_accessor_returns_content_hash() {
    assert_eq!(git("o", "r", "rev", "sha256-x").get_hash(), "sha256-x");
    assert_eq!(other("sha256-y").get_hash(), "sha256-y");
}

#[test]
fn pinned_value_shapes() {
    let s = |x: &str| Some(x.to_string());
    assert_eq!(
        Locked::from_fields(s("github"), s("NixOS"), s("nixpkgs"), s("abc"), s("sha256-h"), Some(5)),
        Some(Locked::Git {
            source_type: "github".to_string(),
            owner: s("NixOS"),
            repo: s("nixpkgs"),
            rev: "abc".to_string(),
            nar_hash: "sha256-h".to_string(),
            last_modified: Some(5),
        })
    );
    assert_eq!(
        Locked::from_fields(s("tarball"), None, None, None, s("sha256-h"), None),
        Some(Locked::Other { nar_hash: "sha256-h".to_string(), last_modified: None })
    );
    assert_eq!(Locked::from_fields(s("github"), None, None, s("abc"), None, None), None);
}
