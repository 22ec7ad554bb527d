//! The decisions of request submission to a forge: finding an existing
//! request, and whether to edit it, open one, or comment.
use vstd::prelude::*;

verus! {

/// What to do with a pull or merge request.
#[derive(Debug, Clone, Copy, PartialEq, Eq)]
pub enum RequestAction {
    /// Edit the open request with this number in place.
    Update(u64),
    /// Open a new request.
    Create,
    /// Leave things as they are.
    Nothing,
}

/// An open request from the update branch is edited in place; without one,
/// a request is opened only when creating is allowed.
pub fn request_action(open_request: Option<u64>, allow_create: bool) -> (r: RequestAction)
    ensures
        r == match open_request {
            Some(n) => RequestAction::Update(n),
            None => if allow_create {
                RequestAction::Create
            } else {
                RequestAction::Nothing
            },
        },
{
    match open_request {
        Some(n) => RequestAction::Update(n),
        None => {
            if allow_create {
                RequestAction::Create
            } else {
                RequestAction::Nothing
            }
        },
    }
}

/// Where an error report goes.
#[derive(Debug, Clone, Copy, PartialEq, Eq)]
pub enum ReportTarget {
    /// A comment on the open request with this number.
    RequestComment(u64),
    /// A comment on the bot's open issue with this number.
    IssueComment(u64),
    /// A new issue.
    NewIssue,
}

/// An error report is a comment on the open update request if there is
/// one, else on the bot's open issue if there is one, else a new issue.
pub fn report_target(open_request: Option<u64>, own_issue: Option<u64>) -> (r: ReportTarget)
    ensures
        r == match (open_request, own_issue) {
            (Some(n), _) => ReportTarget::RequestComment(n),
            (None, Some(n)) => ReportTarget::IssueComment(n),
            (None, None) => ReportTarget::NewIssue,
        },
{
    match open_request {
        Some(n) => ReportTarget::RequestComment(n),
        None => match own_issue {
            Some(n) => ReportTarget::IssueComment(n),
            None => ReportTarget::NewIssue,
        },
    }
}

/// The search for open pull requests from `head` into `base` of
/// `owner/repo`.
pub fn pull_request_query(head: &String, base: &String, owner: &String, repo: &String) -> (r: String)
    ensures
        r@ == "head:"@ + head@ + " base:"@ + base@ + " is:pr state:open repo:"@ + owner@ + "/"@
            + repo@,
{
    let mut s = String::from_str("head:");
    s.append(head.as_str());
    s.append(" base:");
    s.append(base.as_str());
    s.append(" is:pr state:open repo:");
    s.append(owner.as_str());
    s.append("/");
    s.append(repo.as_str());
    s
}

/// The search for open issues of `owner/repo` opened by `author`.
pub fn own_issue_query(author: &String, owner: &String, repo: &String) -> (r: String)
    ensures
        r@ == "state:open is:issue author:"@ + author@ + " repo:"@ + owner@ + "/"@ + repo@,
{
    let mut s = String::from_str("state:open is:issue author:");
    s.append(author.as_str());
    s.append(" repo:");
    s.append(owner.as_str());
    s.append("/");
    s.append(repo.as_str());
    s
}

/// The title of error reports.
pub fn error_report_title() -> (r: String)
    ensures
        r@ == "Failed to automatically update flake.lock"@,
{
    String::from_str("Failed to automatically update flake.lock")
}

} // verus!
