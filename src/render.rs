//! Text renderings of pinned values, of changes and of whole diffs: a
//! markdown table with compare links, and a plain aligned listing.
use vstd::prelude::*;

use crate::flake_lock::{view_opt, InputChange, LockDiff, Locked};
use crate::index_map::change_map_at;

verus! {

/// The calendar date (`YYYY-MM-DD`, UTC) of a unix timestamp, if the
/// timestamp is within the representable range.
pub uninterp spec fn iso_date_of(ts: int) -> Option<Seq<char>>;

/// The lower-case form of a string.
pub uninterp spec fn lower_of(s: Seq<char>) -> Seq<char>;

/// Relies on `chrono::DateTime::<Utc>::from_timestamp` and its `format`: the
/// UTC calendar date of `ts` as `%Y-%m-%d`, or nothing when `ts` is out of
/// range; a function of `ts` alone.
#[verifier::external_body]
fn format_date(ts: i64) -> (r: Option<String>)
    ensures
        view_opt(r) == iso_date_of(ts as int),
{
    match chrono::DateTime::from_timestamp(ts, 0) {
        Some(d) => Some(d.format("%Y-%m-%d").to_string()),
        None => None,
    }
}

/// Relies on `str::to_lowercase`: the result depends on the characters alone.
#[verifier::external_body]
fn lowercase(s: &String) -> (r: String)
    ensures
        r@ == lower_of(s@),
{
    s.to_lowercase()
}

/// Number of characters of a hash that are shown.
pub const HASH_PREFIX: usize = 10;

/// Width the `(new)` and `(deleted)` markers are padded to.
pub const MARKER_WIDTH: usize = 23;

pub open spec fn short_hash(h: Seq<char>) -> Seq<char> {
    if h.len() >= HASH_PREFIX {
        h.take(HASH_PREFIX as int)
    } else {
        h
    }
}

pub open spec fn spaces(n: nat) -> Seq<char> {
    Seq::new(n, |i: int| ' ')
}

/// `s` followed by spaces up to `width` characters.
pub open spec fn padded(s: Seq<char>, width: nat) -> Seq<char> {
    if s.len() >= width {
        s
    } else {
        s + spaces((width - s.len()) as nat)
    }
}

/// A hash prefix, followed by the date in parentheses when there is one.
pub open spec fn hash_and_date(hash: Seq<char>, last_modified: Option<i64>) -> Seq<char> {
    short_hash(hash) + match last_modified {
        Some(t) => match iso_date_of(t as int) {
            Some(d) => " ("@ + d + ")"@,
            None => Seq::empty(),
        },
        None => Seq::empty(),
    }
}

/// How a pinned value is shown: the revision of a git-like source, else the
/// content hash.
pub open spec fn locked_text(l: Locked) -> Seq<char> {
    match l {
        Locked::Git { rev, last_modified, .. } => hash_and_date(rev@, last_modified),
        Locked::Other { nar_hash, last_modified } => hash_and_date(nar_hash@, last_modified),
    }
}

/// Link to the changes between two revisions of a known host's project.
pub open spec fn compare_link(host: Seq<char>, owner: Seq<char>, repo: Seq<char>, from: Seq<char>, to: Seq<char>) -> Option<Seq<char>> {
    if host == "github"@ {
        Some("https://github.com/"@ + owner + "/"@ + repo + "/compare/"@ + from + "..."@ + to + "?expand=1"@)
    } else if host == "gitlab"@ {
        Some("https://gitlab.com/"@ + owner + "/"@ + repo + "/compare/"@ + from + "..."@ + to)
    } else {
        None
    }
}

/// Link to the tree at one revision of a known host's project.
pub open spec fn tree_link(host: Seq<char>, owner: Seq<char>, repo: Seq<char>, rev: Seq<char>) -> Option<Seq<char>> {
    if host == "github"@ {
        Some("https://github.com/"@ + owner + "/"@ + repo + "/tree/"@ + rev)
    } else if host == "gitlab"@ {
        Some("https://gitlab.com/"@ + owner + "/"@ + repo + "/-/tree/"@ + rev)
    } else {
        None
    }
}

/// Whether an update goes between two git revisions of one project, by
/// owner and repository compared case-insensitively.
pub open spec fn same_project(c: InputChange) -> bool {
    match c {
        InputChange::Update {
            old: Locked::Git { owner: Some(owner_old), repo: Some(repo_old), .. },
            new: Locked::Git { owner: Some(owner_new), repo: Some(repo_new), .. },
        } => lower_of(owner_new@) == lower_of(owner_old@) && lower_of(repo_new@) == lower_of(
            repo_old@,
        ),
        _ => false,
    }
}

/// The link of a change, given whether an update stays within one project.
pub open spec fn link_given(c: InputChange, same: bool) -> Option<Seq<char>> {
    match c {
        InputChange::Update {
            old: Locked::Git { source_type: type_old, owner: Some(_), repo: Some(_), rev: rev_old, .. },
            new: Locked::Git { source_type: type_new, owner: Some(owner_new), repo: Some(repo_new), rev: rev_new, .. },
        } => if type_new@ == type_old@ && same {
            compare_link(type_new@, owner_new@, repo_new@, rev_old@, rev_new@)
        } else {
            None
        },
        InputChange::Add(Locked::Git { source_type, owner: Some(owner), repo: Some(repo), rev, .. }) =>
            tree_link(source_type@, owner@, repo@, rev@),
        _ => None,
    }
}

pub open spec fn change_markdown(c: InputChange, same: bool) -> Seq<char> {
    let change = match c {
        InputChange::Add(l) => "(new) | `"@ + locked_text(l) + "`"@,
        InputChange::Update { old, new } => "`"@ + locked_text(old) + "` | `"@ + locked_text(new) + "`"@,
        InputChange::Delete => "(deleted) | (deleted)"@,
    };
    change + " | "@ + match link_given(c, same) {
        Some(l) => "[link]("@ + l + ")"@,
        None => "_none_"@,
    }
}

pub open spec fn change_spaced(c: InputChange) -> Seq<char> {
    match c {
        InputChange::Add(l) => padded("(new)"@, MARKER_WIDTH as nat) + "    "@ + locked_text(l),
        InputChange::Update { old, new } => locked_text(old) + " -> "@ + locked_text(new),
        InputChange::Delete => padded("(deleted)"@, MARKER_WIDTH as nat) + "    "@ + "(deleted)"@,
    }
}

pub open spec fn markdown_rows(e: Seq<(Seq<char>, InputChange)>) -> Seq<char>
    decreases e.len(),
{
    if e.len() == 0 {
        Seq::empty()
    } else {
        markdown_rows(e.drop_last()) + "| "@ + e.last().0 + " | "@ + change_markdown(
            e.last().1,
            same_project(e.last().1),
        ) + " |\n"@
    }
}

pub open spec fn markdown_table(e: Seq<(Seq<char>, InputChange)>) -> Seq<char> {
    "| input | old | new | diff |\n"@ + "|-------|-----|-----|------|\n"@ + markdown_rows(e)
}

pub open spec fn longest_name(e: Seq<(Seq<char>, InputChange)>) -> nat
    decreases e.len(),
{
    if e.len() == 0 {
        0
    } else {
        let m = longest_name(e.drop_last());
        if e.last().0.len() > m {
            e.last().0.len()
        } else {
            m
        }
    }
}

pub open spec fn spaced_rows(e: Seq<(Seq<char>, InputChange)>, width: nat) -> Seq<char>
    decreases e.len(),
{
    if e.len() == 0 {
        Seq::empty()
    } else {
        spaced_rows(e.drop_last(), width) + padded(e.last().0, width) + " "@ + change_spaced(
            e.last().1,
        ) + "\n"@
    }
}

/// `s` followed by spaces up to `width` characters.
fn pad_to(s: &str, width: usize) -> (r: String)
    ensures
        r@ == padded(s@, width as nat),
{
    let mut r = String::from_str(s);
    let n = s.unicode_len();
    proof {
        reveal_strlit(" ");
    }
    if n >= width {
        return r;
    }
    let mut k: usize = n;
    while k < width
        invariant
            n <= k <= width,
            n == s@.len(),
            r@ == s@ + spaces((k - n) as nat),
        decreases width - k,
    {
        r.append(" ");
        proof {
            reveal_strlit(" ");
            assert(s@ + spaces((k - n) as nat) + " "@ =~= s@ + spaces((k + 1 - n) as nat));
        }
        k += 1;
    }
    r
}

/// The first ten characters of a hash (all of a shorter one), followed by
/// the date of `last_modified` in parentheses when it is given and within
/// the calendar's range.
pub fn show_hash_and_date(hash: &String, last_modified: &Option<i64>) -> (r: String)
    ensures
        r@ == hash_and_date(hash@, *last_modified),
{
    let n = hash.as_str().unicode_len();
    let mut r = if n >= HASH_PREFIX {
        String::from_str(hash.as_str().substring_char(0, HASH_PREFIX))
    } else {
        hash.clone()
    };
    match last_modified {
        Some(t) => match format_date(*t) {
            Some(d) => {
                r.append(" (");
                r.append(d.as_str());
                r.append(")");
            },
            None => {
                assert(r@ + Seq::<char>::empty() =~= r@);
            },
        },
        None => {
            assert(r@ + Seq::<char>::empty() =~= r@);
        },
    }
    r
}

impl Locked {
    /// How the value is shown: the revision of a git-like source, else the
    /// content hash; ten characters, then the date of last modification.
    pub fn show(&self) -> (r: String)
        ensures
            r@ == locked_text(*self),
    {
        match self {
            Locked::Git { rev, last_modified, .. } => show_hash_and_date(rev, last_modified),
            Locked::Other { nar_hash, last_modified } => show_hash_and_date(nar_hash, last_modified),
        }
    }
}

fn literal(s: &str) -> (r: String)
    ensures
        r@ == s@,
{
    String::from_str(s)
}

fn compare_url(host: &String, owner: &String, repo: &String, from: &String, to: &String) -> (r: Option<String>)
    ensures
        view_opt(r) == compare_link(host@, owner@, repo@, from@, to@),
{
    let github = literal("github");
    let gitlab = literal("gitlab");
    let mut s = if *host == github {
        literal("https://github.com/")
    } else if *host == gitlab {
        literal("https://gitlab.com/")
    } else {
        return None;
    };
    s.append(owner.as_str());
    s.append("/");
    s.append(repo.as_str());
    s.append("/compare/");
    s.append(from.as_str());
    s.append("...");
    s.append(to.as_str());
    if *host == github {
        s.append("?expand=1");
    }
    Some(s)
}

fn tree_url(host: &String, owner: &String, repo: &String, rev: &String) -> (r: Option<String>)
    ensures
        view_opt(r) == tree_link(host@, owner@, repo@, rev@),
{
    let github = literal("github");
    let gitlab = literal("gitlab");
    let mut s = if *host == github {
        literal("https://github.com/")
    } else if *host == gitlab {
        literal("https://gitlab.com/")
    } else {
        return None;
    };
    s.append(owner.as_str());
    s.append("/");
    s.append(repo.as_str());
    if *host == github {
        s.append("/tree/");
    } else {
        s.append("/-/tree/");
    }
    s.append(rev.as_str());
    Some(s)
}

impl InputChange {
    /// The link of this change, given whether an update stays within one
    /// project (owner and repository equal up to case): a compare link for an
    /// update between two revisions of one project on a known host, a tree
    /// link for an addition on a known host, and none otherwise.
    pub fn link_with(&self, same_project: bool) -> (r: Option<String>)
        ensures
            view_opt(r) == link_given(*self, same_project),
    {
        match self {
            InputChange::Update {
                old: Locked::Git { source_type: type_old, owner: Some(_), repo: Some(_), rev: rev_old, .. },
                new: Locked::Git { source_type: type_new, owner: Some(owner_new), repo: Some(repo_new), rev: rev_new, .. },
            } => {
                if *type_new == *type_old && same_project {
                    compare_url(type_new, owner_new, repo_new, rev_old, rev_new)
                } else {
                    None
                }
            },
            InputChange::Add(Locked::Git { source_type, owner: Some(owner), repo: Some(repo), rev, .. }) =>
                tree_url(source_type, owner, repo, rev),
            _ => None,
        }
    }

    /// The link of this change; owners and repositories are compared
    /// case-insensitively.
    pub fn link(&self) -> (r: Option<String>)
        ensures
            view_opt(r) == link_given(*self, same_project(*self)),
    {
        let same = match self {
            InputChange::Update {
                old: Locked::Git { owner: Some(owner_old), repo: Some(repo_old), .. },
                new: Locked::Git { owner: Some(owner_new), repo: Some(repo_new), .. },
            } => lowercase(owner_new) == lowercase(owner_old) && lowercase(repo_new) == lowercase(
                repo_old,
            ),
            _ => false,
        };
        self.link_with(same)
    }

    /// One markdown table row body: old, new, and the link.
    pub fn markdown(&self) -> (r: String)
        ensures
            r@ == change_markdown(*self, same_project(*self)),
    {
        let mut s = match self {
            InputChange::Add(l) => {
                let mut s = literal("(new) | `");
                s.append(l.show().as_str());
                s.append("`");
                s
            },
            InputChange::Update { old, new } => {
                let mut s = literal("`");
                s.append(old.show().as_str());
                s.append("` | `");
                s.append(new.show().as_str());
                s.append("`");
                s
            },
            InputChange::Delete => literal("(deleted) | (deleted)"),
        };
        s.append(" | ");
        match self.link() {
            Some(l) => {
                s.append("[link](");
                s.append(l.as_str());
                s.append(")");
            },
            None => {
                s.append("_none_");
            },
        }
        s
    }

    /// The plain form: `old -> new`, or a padded `(new)` / `(deleted)` marker.
    pub fn spaced(&self) -> (r: String)
        ensures
            r@ == change_spaced(*self),
    {
        match self {
            InputChange::Add(l) => {
                let mut s = pad_to("(new)", MARKER_WIDTH);
                s.append("    ");
                s.append(l.show().as_str());
                s
            },
            InputChange::Update { old, new } => {
                let mut s = old.show();
                s.append(" -> ");
                s.append(new.show().as_str());
                s
            },
            InputChange::Delete => {
                let mut s = pad_to("(deleted)", MARKER_WIDTH);
                s.append("    ");
                s.append("(deleted)");
                s
            },
        }
    }
}

impl LockDiff {
    /// A markdown table with one row per change.
    pub fn markdown(&self) -> (r: String)
        ensures
            r@ == markdown_table(self.entries()),
    {
        let mut s = literal("| input | old | new | diff |\n");
        s.append("|-------|-----|-----|------|\n");
        let ghost head = s@;
        let n = self.len();
        let mut i: usize = 0;
        assert(self.entries().take(0) =~= Seq::<(Seq<char>, InputChange)>::empty());
        while i < n
            invariant
                i <= n,
                n == self.entries().len(),
                s@ == head + markdown_rows(self.entries().take(i as int)),
                head == "| input | old | new | diff |\n"@ + "|-------|-----|-----|------|\n"@,
            decreases n - i,
        {
            let (name, change) = match change_map_at(&self.0, i) {
                Some(e) => e,
                None => {
                    assert(false);
                    return s;
                },
            };
            let ghost e = self.entries().take(i as int + 1);
            assert(e.drop_last() =~= self.entries().take(i as int));
            assert(e.last() == self.entries()[i as int]);
            s.append("| ");
            s.append(name.as_str());
            s.append(" | ");
            s.append(change.markdown().as_str());
            s.append(" |\n");
            i += 1;
        }
        assert(self.entries().take(n as int) =~= self.entries());
        s
    }

    /// One line per change: the name padded to the longest name, then the
    /// plain form of the change.
    pub fn spaced(&self) -> (r: String)
        ensures
            r@ == spaced_rows(self.entries(), longest_name(self.entries())),
    {
        let n = self.len();
        let mut max: usize = 0;
        let mut i: usize = 0;
        assert(self.entries().take(0) =~= Seq::<(Seq<char>, InputChange)>::empty());
        while i < n
            invariant
                i <= n,
                n == self.entries().len(),
                max == longest_name(self.entries().take(i as int)),
            decreases n - i,
        {
            let (name, _) = match change_map_at(&self.0, i) {
                Some(e) => e,
                None => {
                    assert(false);
                    return String::new();
                },
            };
            let ghost e = self.entries().take(i as int + 1);
            assert(e.drop_last() =~= self.entries().take(i as int));
            let len = name.as_str().unicode_len();
            if len > max {
                max = len;
            }
            i += 1;
        }
        assert(self.entries().take(n as int) =~= self.entries());
        let mut s = String::new();
        let mut i: usize = 0;
        while i < n
            invariant
                i <= n,
                n == self.entries().len(),
                max == longest_name(self.entries()),
                s@ == spaced_rows(self.entries().take(i as int), max as nat),
            decreases n - i,
        {
            let (name, change) = match change_map_at(&self.0, i) {
                Some(e) => e,
                None => {
                    assert(false);
                    return s;
                },
            };
            let ghost e = self.entries().take(i as int + 1);
            assert(e.drop_last() =~= self.entries().take(i as int));
            assert(e.last() == self.entries()[i as int]);
            s.append(pad_to(name.as_str(), max).as_str());
            s.append(" ");
            s.append(change.spaced().as_str());
            s.append("\n");
            i += 1;
        }
        assert(self.entries().take(n as int) =~= self.entries());
        s
    }
}

} // verus!
