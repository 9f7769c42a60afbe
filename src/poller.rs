//! Remote task polling as a state machine. The caller measures the time
//! since submission, performs each status check and each sleep; the poller
//! decides whether to check, what a status means, and when to give up.
use vstd::prelude::*;
use vstd::arithmetic::div_mod::{lemma_fundamental_div_mod, lemma_div_pos_is_pos};
use crate::text::str_eq;

verus! {

pub const DEFAULT_POLL_INTERVAL_MS: u64 = 5_000;

pub const DEFAULT_TIMEOUT_MS: u64 = 300_000;

/// The remote error object of a failed task.
#[derive(Clone, Debug)]
pub struct TaskErrorInfo {
    pub code: Option<String>,
    pub message: Option<String>,
}

/// What one status check of a task reported.
#[derive(Clone, Debug)]
pub struct TaskStatusReport {
    pub task_status: Option<String>,
    pub output_images: Option<Vec<String>>,
    pub error: Option<TaskErrorInfo>,
}

/// Why polling ended without an image.
#[derive(Clone, Debug, PartialEq, Eq)]
pub enum PollError {
    /// The report carried no status.
    MissingStatus,
    /// The task succeeded but listed no image.
    MissingImage,
    /// The task failed remotely.
    TaskFailed { code: String, message: String },
    /// The deadline passed while the task was still pending.
    TimedOut { task_id: String, poll_count: u64 },
}

/// What to do after a status check.
#[derive(Clone, Debug, PartialEq, Eq)]
pub enum PollStep {
    /// Terminal: the first image URL of the task.
    Succeeded(String),
    /// Terminal: the task cannot give an image.
    Failed(PollError),
    /// Still pending: sleep this many milliseconds, then check again.
    Wait(u64),
}

/// A task being polled: its id, the deadline and the interval (milliseconds
/// since submission), and how many checks were made.
#[derive(Clone, Debug)]
pub struct TaskPoller {
    pub task_id: String,
    pub deadline_ms: u64,
    pub interval_ms: u64,
    pub poll_count: u64,
}

pub open spec fn is_success_status(s: Seq<char>) -> bool {
    s == "SUCCEED"@ || s == "SUCCEEDED"@
}

pub open spec fn is_failure_status(s: Seq<char>) -> bool {
    s == "FAILED"@
}

/// The fallback message of a failed task that reported no error object.
pub open spec fn unknown_error_text() -> Seq<char> {
    "unknown error"@
}

impl TaskPoller {
    /// A poller for a task submitted at time 0, giving up after `timeout_ms`
    /// and checking every `interval_ms`.
    pub fn new(task_id: String, timeout_ms: u64, interval_ms: u64) -> (r: TaskPoller)
        ensures
            r.task_id@ == task_id@,
            r.deadline_ms == timeout_ms,
            r.interval_ms == interval_ms,
            r.poll_count == 0,
    {
        TaskPoller { task_id, deadline_ms: timeout_ms, interval_ms, poll_count: 0 }
    }

    /// A poller with the default five-minute timeout and five-second interval.
    pub fn with_defaults(task_id: String) -> (r: TaskPoller)
        ensures
            r.task_id@ == task_id@,
            r.deadline_ms == DEFAULT_TIMEOUT_MS,
            r.interval_ms == DEFAULT_POLL_INTERVAL_MS,
            r.poll_count == 0,
    {
        TaskPoller::new(task_id, DEFAULT_TIMEOUT_MS, DEFAULT_POLL_INTERVAL_MS)
    }

    /// Called before each status check with the time elapsed since
    /// submission: true (and one more check counted) while the deadline has
    /// not passed, false once it has.
    pub fn start_poll(&mut self, elapsed_ms: u64) -> (r: bool)
        requires
            old(self).poll_count < u64::MAX,
        ensures
            r == (elapsed_ms <= old(self).deadline_ms),
            final(self).poll_count == if r { old(self).poll_count + 1 } else { old(self).poll_count as int },
            final(self).task_id == old(self).task_id,
            final(self).deadline_ms == old(self).deadline_ms,
            final(self).interval_ms == old(self).interval_ms,
    {
        if elapsed_ms <= self.deadline_ms {
            self.poll_count = self.poll_count + 1;
            true
        } else {
            false
        }
    }

    /// The error once the deadline has passed: the task id and the number of
    /// checks made.
    pub fn timeout_error(&self) -> (r: PollError)
        ensures
            r matches PollError::TimedOut { task_id, poll_count } && task_id@ == self.task_id@
                && poll_count == self.poll_count,
    {
        PollError::TimedOut { task_id: self.task_id.clone(), poll_count: self.poll_count }
    }

    /// What a status report means: the first image of a succeeded task, the
    /// remote error of a failed one, an error for a missing status or a
    /// missing image, and otherwise a wait of one interval.
    pub fn on_status(&self, report: TaskStatusReport) -> (r: PollStep)
        ensures
            report.task_status is None ==> r == PollStep::Failed(PollError::MissingStatus),
            report.task_status matches Some(s) && is_success_status(s@) ==> {
                match report.output_images {
                    Some(images) if images@.len() > 0 => r matches PollStep::Succeeded(u) && u@ == images@[0]@,
                    _ => r == PollStep::Failed(PollError::MissingImage),
                }
            },
            report.task_status matches Some(s) && is_failure_status(s@) ==> {
                match report.error {
                    Some(e) => r matches PollStep::Failed(PollError::TaskFailed { code, message }) && code@ == (
                    match e.code {
                        Some(c) => c@,
                        None => Seq::<char>::empty(),
                    }) && message@ == (
                    match e.message {
                        Some(m) => m@,
                        None => Seq::<char>::empty(),
                    }),
                    None => r matches PollStep::Failed(PollError::TaskFailed { code, message }) && code@.len() == 0
                        && message@ == unknown_error_text(),
                }
            },
            report.task_status matches Some(s) && !is_success_status(s@) && !is_failure_status(s@) ==> r
                == PollStep::Wait(self.interval_ms),
    {
        proof {
            reveal_strlit("SUCCEED");
            reveal_strlit("SUCCEEDED");
            reveal_strlit("FAILED");
            assert("FAILED"@.len() != "SUCCEED"@.len());
            assert("FAILED"@.len() != "SUCCEEDED"@.len());
        }
        let status = match report.task_status {
            Some(s) => s,
            None => return PollStep::Failed(PollError::MissingStatus),
        };
        if str_eq(status.as_str(), "SUCCEED") || str_eq(status.as_str(), "SUCCEEDED") {
            match report.output_images {
                Some(images) => {
                    if images.len() > 0 {
                        PollStep::Succeeded(images[0].clone())
                    } else {
                        PollStep::Failed(PollError::MissingImage)
                    }
                },
                None => PollStep::Failed(PollError::MissingImage),
            }
        } else if str_eq(status.as_str(), "FAILED") {
            match report.error {
                Some(e) => {
                    let code = match e.code {
                        Some(c) => c,
                        None => String::new(),
                    };
                    let message = match e.message {
                        Some(m) => m,
                        None => String::new(),
                    };
                    PollStep::Failed(PollError::TaskFailed { code, message })
                },
                None => {
                    proof {
                        reveal_strlit("unknown error");
                    }
                    PollStep::Failed(
                        PollError::TaskFailed { code: String::new(), message: String::from_str("unknown error") },
                    )
                },
            }
        } else {
            PollStep::Wait(self.interval_ms)
        }
    }
}

/// A task that stays pending, checked at 0, `interval`, `2 * interval`, ...
/// (each check counted while the time has not passed the deadline, then one
/// interval of sleep): the number of checks made and the time at which the
/// poller gives up.
pub open spec fn pending_run(deadline: nat, interval: nat, elapsed: nat, count: nat) -> (nat, nat)
    decreases deadline + interval - elapsed,
    when interval > 0
{
    if elapsed <= deadline {
        pending_run(deadline, interval, elapsed + interval, count + 1)
    } else {
        (count, elapsed)
    }
}

proof fn lemma_pending_run_from(deadline: nat, interval: nat, k: nat)
    requires
        interval > 0,
        k <= deadline / interval + 1,
    ensures
        pending_run(deadline, interval, k * interval, k) == (
            (deadline / interval + 1) as nat,
            ((deadline / interval + 1) * interval) as nat,
        ),
    decreases deadline / interval + 1 - k,
{
    let q = deadline / interval;
    lemma_fundamental_div_mod(deadline as int, interval as int);
    lemma_div_pos_is_pos(deadline as int, interval as int);
    let r = deadline as int % interval as int;
    assert(0 <= r < interval);
    if k <= q {
        assert(k * interval <= q * interval) by (nonlinear_arith)
            requires
                k <= q,
                interval > 0,
        ;
        assert(q * interval <= deadline) by (nonlinear_arith)
            requires
                deadline == interval * q + r,
                r >= 0,
        ;
        assert(k * interval + interval == (k + 1) * interval) by (nonlinear_arith);
        lemma_pending_run_from(deadline, interval, k + 1);
    } else {
        assert(k == q + 1);
        assert(k * interval > deadline) by (nonlinear_arith)
            requires
                k == q + 1,
                deadline == interval * q + r,
                r < interval,
        ;
    }
}

/// A task that never leaves its pending state times out after
/// `timeout / interval + 1` checks, which is `ceil(timeout / interval)` or
/// one more, and the poller gives up no later than `timeout + interval`.
pub proof fn lemma_pending_task_times_out(timeout: nat, interval: nat)
    requires
        interval > 0,
    ensures
        pending_run(timeout, interval, 0, 0).0 == timeout / interval + 1,
        (timeout + interval - 1) / (interval as int) <= pending_run(timeout, interval, 0, 0).0 <= (timeout
            + interval - 1) / (interval as int) + 1,
        pending_run(timeout, interval, 0, 0).1 <= timeout + interval,
{
    lemma_pending_run_from(timeout, interval, 0);
    assert(0 * interval == 0) by (nonlinear_arith);
    let q = timeout / interval;
    lemma_fundamental_div_mod(timeout as int, interval as int);
    lemma_div_pos_is_pos(timeout as int, interval as int);
    let r = timeout as int % interval as int;
    assert((q + 1) * interval <= timeout + interval) by (nonlinear_arith)
        requires
            timeout == interval * q + r,
            r >= 0,
    ;
    let c = (timeout + interval - 1) / (interval as int);
    lemma_fundamental_div_mod((timeout + interval - 1) as int, interval as int);
    let r2 = (timeout + interval - 1) as int % interval as int;
    assert(q <= c <= q + 1) by (nonlinear_arith)
        requires
            timeout == interval * q + r,
            0 <= r < interval,
            timeout + interval - 1 == interval * c + r2,
            0 <= r2 < interval,
    ;
}

} // verus!
