use update_daemon::git::{
    calculate_hash, commit_message, decimal_text, has_human_commits, local_branch_ref, push_refspec, remote_branch_name,
    update_branch_base, BranchBase, RemoteUpdateBranch,
};

fn remote(tip: &str, email: Option<&str>) -> RemoteUpdateBranch {
    RemoteUpdateBranch { tip: tip.to_string(), author_email: email.map(|e| e.to_string()) }
}

#[test]
fn update_branch_at_default_tip_is_never_human() {
    let r = remote("c0ffee", Some("someone@else.org"));
    assert!(!has_human_commits(&r, &"c0ffee".to_string(), &"bot@example.com".to_string()));
    assert_eq!(update_branch_base(true, 0), BranchBase::UpdateBranch);
}

#[test]
fn diverged_update_branch_by_someone_else_is_refused() {
    let r = remote("beef", Some("someone@else.org"));
    assert!(has_human_commits(&r, &"c0ffee".to_string(), &"bot@example.com".to_string()));
    let r = remote("beef", None);
    assert!(has_human_commits(&r, &"c0ffee".to_string(), &"bot@example.com".to_string()));
}

#[test]
fn stale_bot_branch_restarts_from_default() {
    let r = remote("beef", Some("bot@example.com"));
    assert!(!has_human_commits(&r, &"c0ffee".to_string(), &"bot@example.com".to_string()));
    assert_eq!(update_branch_base(true, 3), BranchBase::DefaultBranch);
}

#[test]
fn missing_update_branch_starts_from_default() {
    assert_eq!(update_branch_base(false, 0), BranchBase::DefaultBranch);
}

#[test]
fn working_copy_name_is_stable() {
    let a = calculate_hash(&"ssh://git@github.com/a/b".to_string());
    let b = calculate_hash(&"ssh://git@github.com/a/b".to_string());
    let c = calculate_hash(&"ssh://git@github.com/a/c".to_string());
    assert_eq!(a, b);
    assert_ne!(a, c);
    assert!(!a.is_empty() && a.chars().all(|ch| ch.is_ascii_digit()));
}

#[test]
fn git_names_and_messages() {
    let b = "automatic-update".to_string();
    assert_eq!(remote_branch_name(&b), "origin/automatic-update");
    assert_eq!(local_branch_ref(&b), "refs/heads/automatic-update");
    assert_eq!(push_refspec(&b), "+refs/heads/automatic-update:refs/heads/automatic-update");
    assert_eq!(commit_message(&"Update".to_string(), &"a -> b".to_string()), "Update\n\na -> b");
}

#[test]
fn decimal_rendering() {
    assert_eq!(decimal_text(0), "0");
    assert_eq!(decimal_text(7), "7");
    assert_eq!(decimal_text(1234567890), "1234567890");
    assert_eq!(decimal_text(u64::MAX), u64::MAX.to_string());
}
