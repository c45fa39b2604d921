//! The scheduler's decision core.
//!
//! One process-wide clock fires one recurring job per enabled monitor. The
//! shell owns the clock and the job registrations; which monitors get a
//! job, under which cron expression, and which lifecycle transitions are
//! legal is decided here.

use vstd::prelude::*;
use vstd::string::StringExecFns;

use crate::error::Error;
use crate::executor::Monitor;
use crate::text::chars_to_string;
use crate::text::dec_digits;

verus! {

/// The cron expression firing every `interval` seconds, in the six-field
/// seconds-granularity grammar.
pub open spec fn cron_expr_text(interval: nat) -> Seq<char> {
    "0/"@ + dec_digits(interval) + " * * * * *"@
}

/// The cron expression for a monitor's interval. Only sub-minute periods
/// can be said in the sub-minute grammar: anything outside one through
/// fifty-nine seconds is refused rather than silently accepted.
pub fn cron_expression(interval: i32) -> (r: Result<String, Error>)
    ensures
        (1 <= interval <= 59) <==> r is Ok,
        r matches Ok(s) ==> s@ == cron_expr_text(interval as nat),
        r matches Err(e) ==> e is Scheduler,
{
    if 1 <= interval && interval <= 59 {
        let mut out: Vec<char> = Vec::new();
        crate::bridge::push_str_chars(&mut out, "0/");
        crate::bridge::push_u64_chars(&mut out, interval as u64);
        crate::bridge::push_str_chars(&mut out, " * * * * *");
        proof {
            assert(out@ =~= cron_expr_text(interval as nat));
        }
        Ok(chars_to_string(&out))
    } else {
        Err(Error::Scheduler(String::from_str("interval outside the sub-minute cron grammar")))
    }
}

/// One planned job: the monitor it fires, by index, and its cron
/// expression.
#[derive(Debug)]
pub struct ScheduledJob {
    pub monitor_index: usize,
    pub cron_expression: String,
}

/// Plans the recurring jobs for a set of monitors: exactly one job per
/// enabled monitor with a sayable interval, in order; disabled monitors
/// and monitors whose interval the cron grammar cannot express are
/// skipped.
pub fn plan_schedule(monitors: &Vec<Monitor>) -> (r: Vec<ScheduledJob>)
    ensures
        forall|k: int|
            0 <= k < r@.len() ==> {
                let idx = #[trigger] r@[k].monitor_index;
                &&& idx < monitors@.len()
                &&& monitors@[idx as int].enabled
                &&& 1 <= monitors@[idx as int].interval <= 59
                &&& r@[k].cron_expression@ == cron_expr_text(monitors@[idx as int].interval as nat)
            },
        forall|k1: int, k2: int|
            0 <= k1 < k2 < r@.len() ==> #[trigger] r@[k1].monitor_index
                < #[trigger] r@[k2].monitor_index,
        forall|t: int|
            0 <= t < monitors@.len() && (#[trigger] monitors@[t].enabled) && 1 <= monitors@[t].interval
                <= 59 ==> exists|k: int| 0 <= k < r@.len() && #[trigger] r@[k].monitor_index == t,
{
    let mut out: Vec<ScheduledJob> = Vec::new();
    let mut i: usize = 0;
    while i < monitors.len()
        invariant
            i <= monitors@.len(),
            forall|k: int|
                0 <= k < out@.len() ==> {
                    let idx = #[trigger] out@[k].monitor_index;
                    &&& idx < i
                    &&& monitors@[idx as int].enabled
                    &&& 1 <= monitors@[idx as int].interval <= 59
                    &&& out@[k].cron_expression@ == cron_expr_text(
                        monitors@[idx as int].interval as nat,
                    )
                },
            forall|k1: int, k2: int|
                0 <= k1 < k2 < out@.len() ==> #[trigger] out@[k1].monitor_index
                    < #[trigger] out@[k2].monitor_index,
            forall|t: int|
                0 <= t < i && (#[trigger] monitors@[t].enabled) && 1 <= monitors@[t].interval <= 59
                    ==> exists|k: int|
                    0 <= k < out@.len() && #[trigger] out@[k].monitor_index == t,
        decreases monitors@.len() - i,
    {
        if monitors[i].enabled {
            match cron_expression(monitors[i].interval) {
                Ok(expr) => {
                    let ghost old_out = out@;
                    out.push(ScheduledJob { monitor_index: i, cron_expression: expr });
                    proof {
                        assert forall|t: int|
                            0 <= t < i + 1 && (#[trigger] monitors@[t].enabled)
                                && 1 <= monitors@[t].interval <= 59 implies exists|k: int|
                            0 <= k < out@.len() && #[trigger] out@[k].monitor_index == t by {
                            if t == i as int {
                                assert(out@[out@.len() - 1].monitor_index == t);
                            } else {
                                let k = choose|k: int|
                                    0 <= k < old_out.len() && #[trigger] old_out[k].monitor_index
                                        == t;
                                assert(out@[k].monitor_index == t);
                            }
                        }
                    }
                },
                Err(_) => {
                    // a single unsayable interval is skipped; the other
                    // monitors are still scheduled
                },
            }
        }
        i = i + 1;
    }
    out
}

/// The lifecycle of the scheduler process.
#[derive(Debug, Clone, Copy, PartialEq, Eq, Structural)]
pub enum SchedulerPhase {
    Created,
    Started,
    Stopped,
}

/// The scheduler's lifecycle state: the clock may be started once, jobs
/// may be loaded only while it runs, and after a stop no further firings
/// occur.
#[derive(Debug)]
pub struct SchedulerLifecycle {
    pub phase: SchedulerPhase,
}

impl SchedulerLifecycle {
    /// A scheduler that has not started its clock yet.
    pub fn new() -> (r: SchedulerLifecycle)
        ensures
            r.phase is Created,
    {
        SchedulerLifecycle { phase: SchedulerPhase::Created }
    }

    /// Starts the clock. A second start, or a start after a stop, is an
    /// error and changes nothing.
    pub fn start(&mut self) -> (r: Result<(), Error>)
        ensures
            old(self).phase is Created ==> r is Ok && final(self).phase is Started,
            !(old(self).phase is Created) ==> (r matches Err(e) && e is Scheduler) && *final(self)
                == *old(self),
    {
        match self.phase {
            SchedulerPhase::Created => {
                self.phase = SchedulerPhase::Started;
                Ok(())
            },
            _ => Err(Error::Scheduler(String::from_str("scheduler already started"))),
        }
    }

    /// Whether jobs may be loaded and scheduled now.
    pub fn can_schedule(&self) -> (r: bool)
        ensures
            r == (self.phase is Started),
    {
        match self.phase {
            SchedulerPhase::Started => true,
            _ => false,
        }
    }

    /// Stops the clock: no further firings occur afterwards.
    pub fn stop(&mut self)
        ensures
            final(self).phase is Stopped,
    {
        self.phase = SchedulerPhase::Stopped;
    }
}

} // verus!
