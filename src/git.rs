//! The decisions of repository synchronisation: where the working copy of a
//! remote lives, how the update branch is rebuilt, and the names, refspecs
//! and messages handed to git.
use vstd::prelude::*;

use std::hash::{Hash, Hasher};

verus! {

/// The hash of a remote URL that names its working copy.
pub uninterp spec fn url_hash_of(url: Seq<char>) -> u64;

/// The character of decimal digit `d`.
pub open spec fn digit_char(d: nat) -> char {
    if d == 0 {
        '0'
    } else if d == 1 {
        '1'
    } else if d == 2 {
        '2'
    } else if d == 3 {
        '3'
    } else if d == 4 {
        '4'
    } else if d == 5 {
        '5'
    } else if d == 6 {
        '6'
    } else if d == 7 {
        '7'
    } else if d == 8 {
        '8'
    } else {
        '9'
    }
}

/// The decimal digits of `n`, without sign or leading zeros.
pub open spec fn decimal(n: nat) -> Seq<char>
    decreases n,
{
    if n < 10 {
        seq![digit_char(n)]
    } else {
        decimal(n / 10) + seq![digit_char(n % 10)]
    }
}

/// Relies on `std::collections::hash_map::DefaultHasher`: instances made by
/// `new` all hash alike, so the result depends on the URL alone.
#[verifier::external_body]
fn url_hash(url: &String) -> (r: u64)
    ensures
        r == url_hash_of(url@),
{
    let mut hasher = std::collections::hash_map::DefaultHasher::new();
    url.hash(&mut hasher);
    hasher.finish()
}

fn digit_text(d: u64) -> (r: &'static str)
    requires
        d < 10,
    ensures
        r@ == seq![digit_char(d as nat)],
{
    proof {
        reveal_strlit("0");
        reveal_strlit("1");
        reveal_strlit("2");
        reveal_strlit("3");
        reveal_strlit("4");
        reveal_strlit("5");
        reveal_strlit("6");
        reveal_strlit("7");
        reveal_strlit("8");
        reveal_strlit("9");
    }
    if d == 0 {
        "0"
    } else if d == 1 {
        "1"
    } else if d == 2 {
        "2"
    } else if d == 3 {
        "3"
    } else if d == 4 {
        "4"
    } else if d == 5 {
        "5"
    } else if d == 6 {
        "6"
    } else if d == 7 {
        "7"
    } else if d == 8 {
        "8"
    } else {
        "9"
    }
}

/// The decimal digits of `n`.
pub fn decimal_text(n: u64) -> (r: String)
    ensures
        r@ == decimal(n as nat),
    decreases n,
{
    if n < 10 {
        String::from_str(digit_text(n))
    } else {
        let mut s = decimal_text(n / 10);
        s.append(digit_text(n % 10));
        s
    }
}

/// The directory name of the working copy of `url`: the same URL always
/// gives the same name.
pub fn calculate_hash(url: &String) -> (r: String)
    ensures
        r@ == decimal(url_hash_of(url@) as nat),
{
    decimal_text(url_hash(url))
}

/// The branch the local update branch is rebuilt from.
#[derive(Debug, Clone, Copy, PartialEq, Eq)]
pub enum BranchBase {
    /// Start afresh from the default branch's tip.
    DefaultBranch,
    /// Keep the remote update branch as it is.
    UpdateBranch,
}

/// The remote update branch, as read from the working copy.
#[derive(Debug, Clone)]
pub struct RemoteUpdateBranch {
    /// Identifier of its tip commit.
    pub tip: String,
    /// Author e-mail of its tip commit, when it is valid text.
    pub author_email: Option<String>,
}

/// Whether the remote update branch holds work that is not the bot's: its
/// tip differs from the default branch's tip and was authored by someone
/// else.
pub open spec fn human_commits(remote: RemoteUpdateBranch, default_tip: Seq<char>, bot_email: Seq<char>) -> bool {
    remote.tip@ != default_tip && match remote.author_email {
        Some(e) => e@ != bot_email,
        None => true,
    }
}

/// Refuses a remote update branch with commits that are not the bot's.
pub fn has_human_commits(remote: &RemoteUpdateBranch, default_tip: &String, bot_email: &String) -> (r: bool)
    ensures
        r == human_commits(*remote, default_tip@, bot_email@),
{
    if remote.tip == *default_tip {
        return false;
    }
    match &remote.author_email {
        Some(e) => !(*e == *bot_email),
        None => true,
    }
}

/// Where the update branch is rebuilt from: the default branch when there is
/// no remote update branch or it is behind the default branch (it is
/// force-pushed anyway), else the remote update branch itself.
pub fn update_branch_base(remote_exists: bool, behind: usize) -> (r: BranchBase)
    ensures
        r == (if !remote_exists || behind > 0 {
            BranchBase::DefaultBranch
        } else {
            BranchBase::UpdateBranch
        }),
{
    if !remote_exists || behind > 0 {
        BranchBase::DefaultBranch
    } else {
        BranchBase::UpdateBranch
    }
}

/// The name git gives `branch` of the `origin` remote.
pub fn remote_branch_name(branch: &String) -> (r: String)
    ensures
        r@ == "origin/"@ + branch@,
{
    let mut s = String::from_str("origin/");
    s.append(branch.as_str());
    s
}

/// The full reference name of the local `branch`.
pub fn local_branch_ref(branch: &String) -> (r: String)
    ensures
        r@ == "refs/heads/"@ + branch@,
{
    let mut s = String::from_str("refs/heads/");
    s.append(branch.as_str());
    s
}

/// The refspec that force-pushes the local `branch` to the remote one of the
/// same name.
pub fn push_refspec(branch: &String) -> (r: String)
    ensures
        r@ == "+refs/heads/"@ + branch@ + ":refs/heads/"@ + branch@,
{
    let mut s = String::from_str("+refs/heads/");
    s.append(branch.as_str());
    s.append(":refs/heads/");
    s.append(branch.as_str());
    s
}

/// The commit message: the title, a blank line, then the body.
pub fn commit_message(title: &String, body: &String) -> (r: String)
    ensures
        r@ == title@ + "\n\n"@ + body@,
{
    let mut s = title.clone();
    s.append("\n\n");
    s.append(body.as_str());
    s
}

} // verus!
