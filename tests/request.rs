use update_daemon::request::{
    error_report_title, own_issue_query, pull_request_query, report_target, request_action, ReportTarget,
    RequestAction,
};

#[test]
fn existing_request_is_edited_in_place() {
    assert_eq!(request_action(Some(42), true), RequestAction::Update(42));
    assert_eq!(request_action(Some(42), false), RequestAction::Update(42));
}

#[test]
fn new_request_only_when_allowed() {
    assert_eq!(request_action(None, true), RequestAction::Create);
    assert_eq!(request_action(None, false), RequestAction::Nothing);
}

#[test]
fn error_report_targets() {
    assert_eq!(report_target(Some(3), Some(9)), ReportTarget::RequestComment(3));
    assert_eq!(report_target(None, Some(9)), ReportTarget::IssueComment(9));
    assert_eq!(report_target(None, None), ReportTarget::NewIssue);
}

#[test]
fn search_queries() {
    let s = |x: &str| x.to_string();
    assert_eq!(
        pull_request_query(&s("automatic-update"), &s("master"), &s("serokell"), &s("repo")),
        "head:automatic-update base:master is:pr state:open repo:serokell/repo"
    );
    assert_eq!(
        own_issue_query(&s("bot"), &s("serokell"), &s("repo")),
        "state:open is:issue author:bot repo:serokell/repo"
    );
    assert_eq!(error_report_title(), "Failed to automatically update flake.lock");
}
