use indexmap::IndexMap;
use update_daemon::flake_lock::{InputChange, LockDiff, Locked};
use update_daemon::render::show_hash_and_date;

fn git(kind: &str, owner: &str, repo: &str, rev: &str, hash: &str) -> Locked {
    Locked::Git {
        source_type: kind.to_string(),
        owner: Some(owner.to_string()),
        repo: Some(repo.to_string()),
        rev: rev.to_string(),
        nar_hash: hash.to_string(),
        last_modified: None,
    }
}

fn update(old: Locked, new: Locked) -> InputChange {
    InputChange::Update { old, new }
}

#[test]
fn github_compare_link_ignores_case() {
    let c = update(git("github", "NixOS", "Nixpkgs", "abc123", "h1"), git("github", "nixos", "nixpkgs", "def456", "h2"));
    assert_eq!(c.link(), Some("https://github.com/nixos/nixpkgs/compare/abc123...def456?expand=1".to_string()));
}

#[test]
fn changed_owner_suppresses_link() {
    let c = update(git("github", "alice", "proj", "abc123", "h1"), git("github", "bob", "proj", "def456", "h2"));
    assert_eq!(c.link(), None);
    assert_eq!(c.link_with(false), None);
}

#[test]
fn link_given_same_project() {
    let c = update(git("github", "alice", "proj", "abc123", "h1"), git("github", "bob", "proj", "def456", "h2"));
    assert_eq!(c.link_with(true), Some("https://github.com/bob/proj/compare/abc123...def456?expand=1".to_string()));
}

#[test]
fn gitlab_links() {
    let c = update(git("gitlab", "g", "p", "r1", "h1"), git("gitlab", "g", "p", "r2", "h2"));
    assert_eq!(c.link(), Some("https://gitlab.com/g/p/compare/r1...r2".to_string()));
    let a = InputChange::Add(git("gitlab", "g", "p", "r3", "h3"));
    assert_eq!(a.link(), Some("https://gitlab.com/g/p/-/tree/r3".to_string()));
    let a = InputChange::Add(git("github", "g", "p", "r3", "h3"));
    assert_eq!(a.link(), Some("https://github.com/g/p/tree/r3".to_string()));
}

#[test]
fn unknown_host_or_mismatch_has_no_link() {
    let c = update(git("sourcehut", "g", "p", "r1", "h1"), git("sourcehut", "g", "p", "r2", "h2"));
    assert_eq!(c.link(), None);
    let c = update(git("github", "g", "p", "r1", "h1"), git("gitlab", "g", "p", "r2", "h2"));
    assert_eq!(c.link(), None);
    assert_eq!(InputChange::Delete.link(), None);
    let other = Locked::Other { nar_hash: "sha256-0123456789abc".to_string(), last_modified: None };
    assert_eq!(InputChange::Add(other).link(), None);
}

#[test]
fn markdown_row_of_nixpkgs_update() {
    let c = update(
        git("github", "NixOS", "nixpkgs", "84d74ae9c9", "sha256-a"),
        git("github", "NixOS", "nixpkgs", "c601d56e19", "sha256-b"),
    );
    let row = c.markdown();
    assert!(row.contains("84d74ae9c9"));
    assert!(row.contains("c601d56e19"));
    assert!(row.contains("/compare/84d74ae9c9...c601d56e19?expand=1"));
    assert_eq!(
        row,
        "`84d74ae9c9` | `c601d56e19` | [link](https://github.com/NixOS/nixpkgs/compare/84d74ae9c9...c601d56e19?expand=1)"
    );
}

#[test]
fn markdown_rows_for_add_and_delete() {
    let other = Locked::Other { nar_hash: "sha256-0123456789abc".to_string(), last_modified: None };
    assert_eq!(InputChange::Add(other).markdown(), "(new) | `sha256-012` | _none_");
    assert_eq!(InputChange::Delete.markdown(), "(deleted) | (deleted) | _none_");
}

#[test]
fn hash_is_truncated_and_dated() {
    assert_eq!(show_hash_and_date(&"0123456789abcdef".to_string(), &None), "0123456789");
    assert_eq!(show_hash_and_date(&"abc".to_string(), &None), "abc");
    assert_eq!(
        show_hash_and_date(&"0123456789abcdef".to_string(), &Some(1431648000)),
        "0123456789 (2015-05-15)"
    );
    let l = Locked::Git {
        source_type: "github".to_string(),
        owner: None,
        repo: None,
        rev: "fedcba9876543210".to_string(),
        nar_hash: "sha256-zzzzzzzzzzzz".to_string(),
        last_modified: Some(0),
    };
    assert_eq!(l.show(), "fedcba9876 (1970-01-01)");
}

#[test]
fn spaced_forms() {
    let other = |h: &str| Locked::Other { nar_hash: h.to_string(), last_modified: None };
    assert_eq!(
        InputChange::Add(other("aaaaaaaaaaaa")).spaced(),
        format!("{:<23}    {}", "(new)", "aaaaaaaaaa")
    );
    assert_eq!(
        InputChange::Update { old: other("bbbbbbbbbbbb"), new: other("cccccccccccc") }.spaced(),
        "bbbbbbbbbb -> cccccccccc"
    );
    assert_eq!(InputChange::Delete.spaced(), format!("{0:<23}    {0}", "(deleted)"));
}

#[test]
fn whole_diff_renderings() {
    let other = |h: &str| Locked::Other { nar_hash: h.to_string(), last_modified: None };
    let mut m = IndexMap::new();
    m.insert("nixpkgs".to_string(), InputChange::Update { old: other("1111111111xx"), new: other("2222222222yy") });
    m.insert("a".to_string(), InputChange::Delete);
    let d = LockDiff(m);
    assert_eq!(
        d.markdown(),
        "| input | old | new | diff |\n|-------|-----|-----|------|\n| nixpkgs | `1111111111` | `2222222222` | _none_ |\n| a | (deleted) | (deleted) | _none_ |\n"
    );
    assert_eq!(
        d.spaced(),
        format!("nixpkgs 1111111111 -> 2222222222\na       {0:<23}    {0}\n", "(deleted)")
    );
    assert_eq!(LockDiff(IndexMap::new()).markdown(), "| input | old | new | diff |\n|-------|-----|-----|------|\n");
}
