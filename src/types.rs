//! Per-repository settings: a layer of optional overrides merged field by
//! field, and its conversion into complete settings; the repositories a run
//! works on.
use vstd::prelude::*;

use crate::flake_lock::view_opt;

verus! {

/// Complete settings for updating one repository.
#[derive(Debug, Clone)]
pub struct UpdateSettings {
    pub author: Author,
    pub update_branch: String,
    pub default_branch: String,
    pub title: String,
    pub extra_body: String,
    /// Minimum time between two submissions to a forge, in milliseconds.
    pub cooldown: u64,
    pub inputs: Vec<String>,
    pub allow_missing_inputs: bool,
    pub sign_commits: bool,
    pub signing_key: Option<String>,
}

/// The identity commits are made under.
#[derive(Debug, Clone)]
pub struct Author {
    pub name: String,
    pub email: String,
}

/// Settings where every field may be absent.
#[derive(Debug, Clone)]
pub struct UpdateSettingsOptional {
    pub author: Option<Author>,
    pub update_branch: Option<String>,
    pub default_branch: Option<String>,
    pub title: Option<String>,
    pub extra_body: Option<String>,
    pub cooldown: Option<u64>,
    pub inputs: Option<Vec<String>>,
    pub allow_missing_inputs: Option<bool>,
    pub sign_commits: Option<bool>,
    pub signing_key: Option<String>,
}

/// A field with neither a value nor a default; holds the field's name.
#[derive(Debug, Clone, PartialEq, Eq)]
pub struct UpdateSettingsMissingField(pub String);

impl UpdateSettingsMissingField {
    pub fn message(&self) -> (r: String)
        ensures
            r@ == "Settings missing field "@ + self.0@,
    {
        let mut s = String::from_str("Settings missing field ");
        s.append(self.0.as_str());
        s
    }
}

/// `v` when there is one, else `w`.
pub open spec fn first_of<T>(v: Option<T>, w: Option<T>) -> Option<T> {
    if v is Some {
        v
    } else {
        w
    }
}

pub open spec fn or_default<T>(v: Option<T>, d: T) -> T {
    match v {
        Some(x) => x,
        None => d,
    }
}

/// The value of a required field, or the error naming it.
pub fn unoption<T>(opt: Option<T>, name: &str) -> (r: Result<T, UpdateSettingsMissingField>)
    ensures
        match opt {
            Some(v) => r == Ok::<T, UpdateSettingsMissingField>(v),
            None => r matches Err(e) && e.0@ == name@,
        },
{
    match opt {
        Some(v) => Ok(v),
        None => Err(UpdateSettingsMissingField(String::from_str(name))),
    }
}

fn pick<T>(v: Option<T>, w: Option<T>) -> (r: Option<T>)
    ensures
        r == first_of(v, w),
{
    match v {
        Some(x) => Some(x),
        None => w,
    }
}

fn string_or(v: Option<String>, d: &str) -> (r: String)
    ensures
        r@ == match v {
            Some(x) => x@,
            None => d@,
        },
{
    match v {
        Some(x) => x,
        None => String::from_str(d),
    }
}

impl UpdateSettingsOptional {
    /// Fills each absent field from `other`; a present field stays.
    pub fn merge(&mut self, other: UpdateSettingsOptional)
        ensures
            final(self).author == first_of(old(self).author, other.author),
            final(self).update_branch == first_of(old(self).update_branch, other.update_branch),
            final(self).default_branch == first_of(old(self).default_branch, other.default_branch),
            final(self).title == first_of(old(self).title, other.title),
            final(self).extra_body == first_of(old(self).extra_body, other.extra_body),
            final(self).cooldown == first_of(old(self).cooldown, other.cooldown),
            final(self).inputs == first_of(old(self).inputs, other.inputs),
            final(self).allow_missing_inputs == first_of(
                old(self).allow_missing_inputs,
                other.allow_missing_inputs,
            ),
            final(self).sign_commits == first_of(old(self).sign_commits, other.sign_commits),
            final(self).signing_key == first_of(old(self).signing_key, other.signing_key),
    {
        let UpdateSettingsOptional {
            author,
            update_branch,
            default_branch,
            title,
            extra_body,
            cooldown,
            inputs,
            allow_missing_inputs,
            sign_commits,
            signing_key,
        } = other;
        let a = self.author.take();
        self.author = pick(a, author);
        let a = self.update_branch.take();
        self.update_branch = pick(a, update_branch);
        let a = self.default_branch.take();
        self.default_branch = pick(a, default_branch);
        let a = self.title.take();
        self.title = pick(a, title);
        let a = self.extra_body.take();
        self.extra_body = pick(a, extra_body);
        self.cooldown = pick(self.cooldown, cooldown);
        let a = self.inputs.take();
        self.inputs = pick(a, inputs);
        self.allow_missing_inputs = pick(self.allow_missing_inputs, allow_missing_inputs);
        self.sign_commits = pick(self.sign_commits, sign_commits);
        let a = self.signing_key.take();
        self.signing_key = pick(a, signing_key);
    }

    /// Complete settings: `author` and `cooldown` are required; the branch
    /// names default to `automatic-update` and `master`, the title to
    /// `Automatically update flake.lock`, the extra body to empty, the
    /// inputs to all of them, and both switches to off.
    pub fn resolve(self) -> (r: Result<UpdateSettings, UpdateSettingsMissingField>)
        ensures
            self.author is None ==> (r matches Err(e) && e.0@ == "author"@),
            self.author is Some && self.cooldown is None ==> (r matches Err(e) && e.0@
                == "cooldown"@),
            r is Ok <==> self.author is Some && self.cooldown is Some,
            r matches Ok(s) ==> {
                &&& s.author == self.author->Some_0
                &&& s.update_branch@ == or_default(view_opt(self.update_branch), "automatic-update"@)
                &&& s.default_branch@ == or_default(view_opt(self.default_branch), "master"@)
                &&& s.title@ == or_default(view_opt(self.title), "Automatically update flake.lock"@)
                &&& s.extra_body@ == or_default(view_opt(self.extra_body), Seq::empty())
                &&& s.cooldown == self.cooldown->Some_0
                &&& s.inputs@ == match self.inputs {
                    Some(v) => v@,
                    None => Seq::empty(),
                }
                &&& s.allow_missing_inputs == or_default(self.allow_missing_inputs, false)
                &&& s.sign_commits == or_default(self.sign_commits, false)
                &&& s.signing_key == self.signing_key
            },
    {
        let UpdateSettingsOptional {
            author,
            update_branch,
            default_branch,
            title,
            extra_body,
            cooldown,
            inputs,
            allow_missing_inputs,
            sign_commits,
            signing_key,
        } = self;
        let author = match unoption(author, "author") {
            Ok(a) => a,
            Err(e) => return Err(e),
        };
        let cooldown = match unoption(cooldown, "cooldown") {
            Ok(c) => c,
            Err(e) => return Err(e),
        };
        let inputs = match inputs {
            Some(v) => v,
            None => Vec::new(),
        };
        let extra_body = match extra_body {
            Some(b) => b,
            None => String::new(),
        };
        Ok(UpdateSettings {
            author,
            update_branch: string_or(update_branch, "automatic-update"),
            default_branch: string_or(default_branch, "master"),
            title: string_or(title, "Automatically update flake.lock"),
            extra_body,
            cooldown,
            inputs,
            allow_missing_inputs: match allow_missing_inputs {
                Some(b) => b,
                None => false,
            },
            sign_commits: match sign_commits {
                Some(b) => b,
                None => false,
            },
            signing_key,
        })
    }
}

impl std::convert::TryFrom<UpdateSettingsOptional> for UpdateSettings {
    type Error = UpdateSettingsMissingField;

    /// See [`UpdateSettingsOptional::resolve`].
    fn try_from(o: UpdateSettingsOptional) -> Result<UpdateSettings, UpdateSettingsMissingField> {
        o.resolve()
    }
}

impl vstd::std_specs::convert::TryFromSpecImpl<UpdateSettingsOptional> for UpdateSettings {
    /// The conversion's contract is that of `resolve`.
    open spec fn obeys_try_from_spec() -> bool {
        false
    }

    open spec fn try_from_spec(o: UpdateSettingsOptional) -> Result<UpdateSettings, UpdateSettingsMissingField> {
        arbitrary()
    }
}

/// Supported repository kinds. All are fetched and pushed with git; requests
/// are submitted differently.
#[derive(Debug, Clone)]
pub enum RepoHandle {
    /// GitHub: pull requests through the GitHub API.
    GitHub {
        base_url: Option<String>,
        ssh_url: Option<String>,
        token_env_var: Option<String>,
        owner: String,
        repo: String,
    },
    /// GitLab: merge requests through the GitLab API.
    GitLab {
        base_url: Option<String>,
        ssh_url: Option<String>,
        token_env_var: Option<String>,
        project: String,
    },
    /// Plain git with no request support.
    GitNone { url: String },
}

/// One configured repository.
#[derive(Debug, Clone)]
pub struct Repo {
    pub settings: Option<UpdateSettingsOptional>,
    pub handle: RepoHandle,
}

pub open spec fn handle_url(h: RepoHandle) -> Seq<char> {
    match h {
        RepoHandle::GitHub { ssh_url, owner, repo, .. } => "ssh://"@ + or_default(
            view_opt(ssh_url),
            "git@github.com"@,
        ) + "/"@ + owner@ + "/"@ + repo@,
        RepoHandle::GitLab { ssh_url, project, .. } => "ssh://"@ + or_default(
            view_opt(ssh_url),
            "git@gitlab.com"@,
        ) + "/"@ + project@,
        RepoHandle::GitNone { url } => url@,
    }
}

impl RepoHandle {
    /// The URL the repository is fetched from and pushed to; it also names
    /// the repository in messages.
    pub fn url(&self) -> (r: String)
        ensures
            r@ == handle_url(*self),
    {
        match self {
            RepoHandle::GitHub { ssh_url, owner, repo, .. } => {
                let mut s = String::from_str("ssh://");
                match ssh_url {
                    Some(u) => s.append(u.as_str()),
                    None => s.append("git@github.com"),
                }
                s.append("/");
                s.append(owner.as_str());
                s.append("/");
                s.append(repo.as_str());
                s
            },
            RepoHandle::GitLab { ssh_url, project, .. } => {
                let mut s = String::from_str("ssh://");
                match ssh_url {
                    Some(u) => s.append(u.as_str()),
                    None => s.append("git@gitlab.com"),
                }
                s.append("/");
                s.append(project.as_str());
                s
            },
            RepoHandle::GitNone { url } => url.clone(),
        }
    }
}

} // verus!
