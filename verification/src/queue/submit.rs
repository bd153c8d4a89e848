//! Handing a script to a queue: what the submit command's output means,
//! and how often a failed submission is tried again.
//!
//! The caller runs the command and sleeps; [`Submitter::observe`] decides
//! after each attempt what happens next.

use crate::text::{chars_of, fields, split_fields, string_of, views};
use vstd::prelude::*;

verus! {

/// The identifier of a job whose submit command printed nothing.
pub const NO_JOB_ID: &'static str = "no jobid";

/// How many times a failed submission is tried again by default.
pub const SUBMIT_RETRIES: usize = 5;

/// The job identifier in what a submit command printed: the last of its
/// white-space-separated fields, or [`NO_JOB_ID`] when it has none.
pub open spec fn job_id_of(stdout: Seq<char>) -> Seq<char> {
    let fs = fields(stdout);
    if fs.len() == 0 {
        NO_JOB_ID@
    } else {
        fs.last()
    }
}

/// Extracts the job identifier from the output of a submit command.
pub fn extract_job_id(stdout: &str) -> (id: String)
    ensures
        id@ == job_id_of(stdout@),
{
    let text = chars_of(stdout);
    let fs = split_fields(text.as_slice());
    if fs.len() == 0 {
        NO_JOB_ID.to_owned()
    } else {
        assert(views(fs@).last() == fs@[fs.len() - 1]@);
        string_of(fs[fs.len() - 1].as_slice())
    }
}

/// How one run of the submit command ended.
#[derive(Debug)]
pub enum Attempt {
    /// The command ran. `success` tells whether it exited with status 0.
    Exited { success: bool, stdout: String, stderr: String },
    /// The command could not be started.
    NotStarted { reason: String },
}

/// The output of the submit command that was rejected for good.
#[derive(Debug)]
pub struct SubmissionError {
    pub stdout: String,
    pub stderr: String,
}

/// What to do after an attempt.
#[derive(Debug)]
pub enum SubmitStep {
    /// The queue took the script and gave the job this identifier.
    Accepted { job_id: String },
    /// Sleep for `wait_secs` seconds, then run the command again.
    Retry { wait_secs: usize },
    /// Give up: the submission has failed.
    Rejected { error: SubmissionError },
}

/// A [`SubmitStep`] with its texts as sequences of characters.
pub enum Step {
    Accepted { job_id: Seq<char> },
    Retry { wait_secs: nat },
    Rejected { stdout: Seq<char>, stderr: Seq<char> },
}

impl View for SubmitStep {
    type V = Step;

    open spec fn view(&self) -> Step {
        match self {
            SubmitStep::Accepted { job_id } => Step::Accepted { job_id: job_id@ },
            SubmitStep::Retry { wait_secs } => Step::Retry { wait_secs: *wait_secs as nat },
            SubmitStep::Rejected { error } => Step::Rejected {
                stdout: error.stdout@,
                stderr: error.stderr@,
            },
        }
    }
}

/// The step that follows `attempt` when `retries_left` retries remain and
/// a retry waits for `wait_secs` seconds. A command that could not be
/// started is never run again: what kept it from starting stands in the
/// place of its error output.
pub open spec fn step_after(retries_left: nat, wait_secs: nat, attempt: Attempt) -> Step {
    match attempt {
        Attempt::Exited { success, stdout, stderr } => {
            if success {
                Step::Accepted { job_id: job_id_of(stdout@) }
            } else if retries_left > 0 {
                Step::Retry { wait_secs }
            } else {
                Step::Rejected { stdout: stdout@, stderr: stderr@ }
            }
        },
        Attempt::NotStarted { reason } => Step::Rejected {
            stdout: Seq::empty(),
            stderr: reason@,
        },
    }
}

/// The retries that remain after `attempt` when `retries_left` remained
/// before it: a retry uses one up.
pub open spec fn retries_after(retries_left: nat, attempt: Attempt) -> nat {
    match attempt {
        Attempt::Exited { success, .. } => {
            if !success && retries_left > 0 {
                (retries_left - 1) as nat
            } else {
                retries_left
            }
        },
        Attempt::NotStarted { .. } => retries_left,
    }
}

/// Submits one script, with a bounded number of retries.
#[derive(Clone, Copy, Debug)]
pub struct Submitter {
    retries_left: usize,
    wait_secs: usize,
}

impl Submitter {
    /// The retries that remain.
    pub closed spec fn retries_left(&self) -> nat {
        self.retries_left as nat
    }

    /// The seconds to sleep before a retry.
    pub closed spec fn wait_secs(&self) -> nat {
        self.wait_secs as nat
    }

    /// A submitter that retries [`SUBMIT_RETRIES`] times and sleeps
    /// `sleep_int` seconds before each retry.
    pub fn new(sleep_int: usize) -> (s: Submitter)
        ensures
            s.retries_left() == SUBMIT_RETRIES,
            s.wait_secs() == sleep_int,
    {
        Submitter { retries_left: SUBMIT_RETRIES, wait_secs: sleep_int }
    }

    /// A submitter that retries `retries` times.
    pub fn with_retries(retries: usize, sleep_int: usize) -> (s: Submitter)
        ensures
            s.retries_left() == retries,
            s.wait_secs() == sleep_int,
    {
        Submitter { retries_left: retries, wait_secs: sleep_int }
    }

    /// The retries that remain.
    pub fn remaining(&self) -> (n: usize)
        ensures
            n == self.retries_left(),
    {
        self.retries_left
    }

    /// Takes note of how an attempt ended and says what to do next.
    pub fn observe(&mut self, attempt: Attempt) -> (step: SubmitStep)
        ensures
            step@ == step_after(old(self).retries_left(), old(self).wait_secs(), attempt),
            final(self).retries_left() == retries_after(old(self).retries_left(), attempt),
            final(self).wait_secs() == old(self).wait_secs(),
    {
        match attempt {
            Attempt::Exited { success, stdout, stderr } => {
                if success {
                    SubmitStep::Accepted { job_id: extract_job_id(stdout.as_str()) }
                } else if self.retries_left > 0 {
                    self.retries_left = self.retries_left - 1;
                    SubmitStep::Retry { wait_secs: self.wait_secs }
                } else {
                    SubmitStep::Rejected { error: SubmissionError { stdout, stderr } }
                }
            },
            Attempt::NotStarted { reason } => SubmitStep::Rejected {
                error: SubmissionError { stdout: String::new(), stderr: reason },
            },
        }
    }
}

/// An attempt that exited with a failure and printed `stdout` and `stderr`.
pub open spec fn is_failure(attempt: Attempt) -> bool {
    attempt matches Attempt::Exited { success, .. } && !success
}

/// The retries that remain after the attempts `attempts`, made one after
/// the other, when `retries` remained before the first.
pub open spec fn retries_after_all(retries: nat, attempts: Seq<Attempt>) -> nat
    decreases attempts.len(),
{
    if attempts.len() == 0 {
        retries
    } else {
        retries_after(retries_after_all(retries, attempts.drop_last()), attempts.last())
    }
}

/// A submission is retried on each of its first `retries` failures and is
/// rejected on the next one: after `n` failures in a row, `retries - n`
/// retries remain while `n <= retries`, and one more failure is answered
/// by a retry if `n < retries` and by a rejection if `n == retries`.
pub proof fn lemma_retries_exactly_to_bound(
    retries: nat,
    wait_secs: nat,
    failures: Seq<Attempt>,
    next: Attempt,
)
    requires
        forall|i: int| 0 <= i < failures.len() ==> is_failure(#[trigger] failures[i]),
        is_failure(next),
        failures.len() <= retries,
    ensures
        retries_after_all(retries, failures) == retries - failures.len(),
        failures.len() < retries ==> step_after(
            retries_after_all(retries, failures),
            wait_secs,
            next,
        ) == (Step::Retry { wait_secs }),
        failures.len() == retries ==> step_after(
            retries_after_all(retries, failures),
            wait_secs,
            next,
        ) is Rejected,
    decreases failures.len(),
{
    if failures.len() > 0 {
        let front = failures.drop_last();
        assert forall|i: int| 0 <= i < front.len() implies is_failure(#[trigger] front[i]) by {
            assert(front[i] == failures[i]);
        }
        lemma_retries_exactly_to_bound(retries, wait_secs, front, failures.last());
    }
}

/// A successful attempt gives the same job identifier whether it is the
/// first attempt or a retry: the step after it depends on what the
/// command printed, not on the retries that remain.
pub proof fn lemma_success_is_the_same_on_retry(
    retries_left: nat,
    other_retries_left: nat,
    wait_secs: nat,
    attempt: Attempt,
)
    requires
        attempt matches Attempt::Exited { success, .. } && success,
    ensures
        step_after(retries_left, wait_secs, attempt) == step_after(
            other_retries_left,
            wait_secs,
            attempt,
        ),
        step_after(retries_left, wait_secs, attempt) == (Step::Accepted {
            job_id: job_id_of(attempt->stdout@),
        }),
{
}

} // verus!
