//! The decisions of one repository's update run: the lock-update command's
//! arguments, what to do once the diffs are known, the submission cooldown,
//! the texts submitted, and the run's exit status.
use vstd::prelude::*;

use crate::flake_lock::Lock;
use crate::types::UpdateSettings;

verus! {

/// A requested input that the lockfile's root does not have.
#[derive(Debug, Clone, PartialEq, Eq)]
pub struct MissingInput(pub String);

impl MissingInput {
    pub fn message(&self) -> (r: String)
        ensures
            r@ == "Input "@ + self.0@
                + " is missing from the flake.lock root nodes. Check spelling or consider using the allow_missing_inputs configuration option."@,
    {
        let mut s = String::from_str("Input ");
        s.append(self.0.as_str());
        s.append(
            " is missing from the flake.lock root nodes. Check spelling or consider using the allow_missing_inputs configuration option.",
        );
        s
    }
}

pub open spec fn views(v: Seq<String>) -> Seq<Seq<char>> {
    v.map_values(|s: String| s@)
}

pub open spec fn input_args(inputs: Seq<String>) -> Seq<Seq<char>>
    decreases inputs.len(),
{
    if inputs.len() == 0 {
        Seq::empty()
    } else {
        input_args(inputs.drop_last()) + seq!["--update-input"@, inputs.last()@]
    }
}

/// The arguments of the lock-update command: update everything when no
/// inputs are named, else lock with each named input updated.
pub open spec fn update_args(inputs: Seq<String>) -> Seq<Seq<char>> {
    if inputs.len() == 0 {
        seq!["flake"@, "update"@, "--no-warn-dirty"@]
    } else {
        seq!["flake"@, "lock"@] + input_args(inputs) + seq!["--no-warn-dirty"@]
    }
}

/// The `i`th named input is not a root dependency of `lock`, and that is not
/// allowed.
pub open spec fn refused_input(settings: UpdateSettings, lock: Lock, i: int) -> bool {
    !settings.allow_missing_inputs && lock.root_dep_spec(settings.inputs@[i]@) is None
}

/// The arguments of the lock-update command for `settings`, checked against
/// the current lockfile: each named input must be a root dependency unless
/// missing inputs are allowed; the first that is not is the error.
pub fn flake_update_args(settings: &UpdateSettings, lock: &Lock) -> (r: Result<Vec<String>, MissingInput>)
    ensures
        r is Ok <==> forall|i: int|
            0 <= i < settings.inputs@.len() ==> !#[trigger] refused_input(*settings, *lock, i),
        r matches Ok(args) ==> views(args@) == update_args(settings.inputs@),
        r matches Err(e) ==> exists|i: int|
            0 <= i < settings.inputs@.len() && refused_input(*settings, *lock, i) && e.0
                == settings.inputs@[i] && forall|j: int|
                0 <= j < i ==> !#[trigger] refused_input(*settings, *lock, j),
{
    let mut args: Vec<String> = Vec::new();
    args.push(String::from_str("flake"));
    let n = settings.inputs.len();
    if n == 0 {
        args.push(String::from_str("update"));
        args.push(String::from_str("--no-warn-dirty"));
        assert(views(args@) =~= update_args(settings.inputs@));
        return Ok(args);
    }
    args.push(String::from_str("lock"));
    let ghost inputs = settings.inputs@;
    assert(inputs.take(0) =~= Seq::<String>::empty());
    assert(views(args@) =~= seq!["flake"@, "lock"@] + input_args(inputs.take(0)));
    let mut i: usize = 0;
    while i < n
        invariant
            i <= n,
            n == inputs.len(),
            inputs == settings.inputs@,
            views(args@) == seq!["flake"@, "lock"@] + input_args(inputs.take(i as int)),
            forall|j: int| 0 <= j < i ==> !#[trigger] refused_input(*settings, *lock, j),
        decreases n - i,
    {
        let input = &settings.inputs[i];
        if !settings.allow_missing_inputs && lock.get_root_dep(input).is_none() {
            assert(refused_input(*settings, *lock, i as int));
            return Err(MissingInput(input.clone()));
        }
        let ghost before = args@;
        args.push(String::from_str("--update-input"));
        args.push(input.clone());
        proof {
            let t = inputs.take(i as int + 1);
            assert(t.drop_last() =~= inputs.take(i as int));
            assert(views(args@) =~= views(before) + seq!["--update-input"@, input@]);
            assert(views(args@) =~= seq!["flake"@, "lock"@] + input_args(t));
        }
        i += 1;
    }
    let ghost before = args@;
    args.push(String::from_str("--no-warn-dirty"));
    assert(inputs.take(n as int) =~= inputs);
    assert(views(args@) =~= views(before) + seq!["--no-warn-dirty"@]);
    Ok(args)
}

/// What a run does once the lockfile diffs are known.
#[derive(Debug, Clone, Copy, PartialEq, Eq)]
pub enum UpdateAction {
    /// The update changed the lockfile: commit, push, and submit.
    CommitPushSubmit,
    /// Nothing changed now, but the update branch differs from the default
    /// branch: push it and submit.
    PushSubmit,
    /// Nothing to do.
    Nothing,
}

/// `changes` counts the entries of the diff made by this run's update,
/// `changes_from_default` those of the diff from the default branch.
pub fn next_action(changes: usize, changes_from_default: usize) -> (r: UpdateAction)
    ensures
        r == (if changes > 0 {
            UpdateAction::CommitPushSubmit
        } else if changes_from_default > 0 {
            UpdateAction::PushSubmit
        } else {
            UpdateAction::Nothing
        }),
{
    if changes > 0 {
        UpdateAction::CommitPushSubmit
    } else if changes_from_default > 0 {
        UpdateAction::PushSubmit
    } else {
        UpdateAction::Nothing
    }
}

pub open spec fn remaining_spec(elapsed: int, delay: int) -> int {
    if elapsed < delay {
        delay - elapsed
    } else {
        0
    }
}

/// How long to wait before a submission, `elapsed` after the last one, so
/// that submissions are at least `delay` apart.
pub fn remaining_delay(elapsed: u64, delay: u64) -> (r: u64)
    ensures
        r == remaining_spec(elapsed as int, delay as int),
{
    if elapsed < delay {
        delay - elapsed
    } else {
        0
    }
}

/// When a submission starts: a task ready at `now`, with the last
/// submission stamped at `last`, waits out what remains of `delay`.
pub open spec fn submission_start(last: int, now: int, delay: int) -> int {
    now + remaining_spec(now - last, delay)
}

/// The shared time of the last submission, in milliseconds on a monotonic
/// clock.
pub struct Cooldown {
    pub last: u64,
}

impl Cooldown {
    pub fn new(now: u64) -> (r: Cooldown)
        ensures
            r.last == now,
    {
        Cooldown { last: now }
    }

    /// How long a task ready at `now` waits before it submits.
    pub fn wait_before_submit(&self, now: u64, delay: u64) -> (r: u64)
        requires
            self.last <= now,
        ensures
            r == remaining_spec(now - self.last, delay as int),
            now + r == submission_start(self.last as int, now as int, delay as int),
    {
        remaining_delay(now - self.last, delay)
    }

    /// Records a submission that ended at `now`.
    pub fn stamp(&mut self, now: u64)
        ensures
            final(self).last == now,
    {
        self.last = now;
    }
}

/// Submissions through the cooldown are at least `delay` apart: the first
/// starts once `delay` has passed since the previous stamp, stamps when it
/// ends, and the second, ready no earlier than that stamp, again waits out
/// `delay`.
pub proof fn cooldown_separates_submissions(last: int, first_ready: int, first_end: int, second_ready: int, delay: int)
    requires
        last <= first_ready,
        delay >= 0,
        submission_start(last, first_ready, delay) <= first_end,
        first_end <= second_ready,
    ensures
        submission_start(first_end, second_ready, delay) >= submission_start(last, first_ready, delay)
            + delay,
        submission_start(last, first_ready, delay) >= last + delay,
{
}

/// The body of a pull or merge request: the diff table, when it was made,
/// and the configured extra text.
pub fn request_body(table: &String, updated_at: &String, extra_body: &String) -> (r: String)
    ensures
        r@ == table@ + "\nLast updated: "@ + updated_at@ + "\n\n"@ + extra_body@,
{
    let mut s = table.clone();
    s.append("\nLast updated: ");
    s.append(updated_at.as_str());
    s.append("\n\n");
    s.append(extra_body.as_str());
    s
}

/// The body of an error report for a failed run.
pub fn error_report_body(error: &String) -> (r: String)
    ensures
        r@ == "I tried updating flake.lock, but failed:\n\n```\n"@ + error@ + "\n```"@,
{
    let mut s = String::from_str("I tried updating flake.lock, but failed:\n\n```\n");
    s.append(error.as_str());
    s.append("\n```");
    s
}

/// The process's exit status: zero when every repository's run succeeded.
pub fn exit_code(results: &Vec<bool>) -> (r: i32)
    ensures
        r == 0 <==> forall|i: int| 0 <= i < results@.len() ==> results@[i],
        r == 0 || r == 1,
{
    let mut i: usize = 0;
    while i < results.len()
        invariant
            i <= results@.len(),
            forall|j: int| 0 <= j < i ==> results@[j],
        decreases results@.len() - i,
    {
        if !results[i] {
            return 1;
        }
        i += 1;
    }
    0
}

} // verus!
