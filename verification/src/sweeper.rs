//! The retention sweeper: which rows have aged out, and when a run may
//! start.

use crate::config::Config;
use vstd::prelude::*;

verus! {

/// Seconds in a day.
pub const SECONDS_PER_DAY: i64 = 86400;

/// The cutoff of a sweep at `now` with a retention of `period_in_day` days:
/// that many days before `now`, and no earlier than time can be told.
pub open spec fn cutoff_at(now: i64, period_in_day: u32) -> int {
    let exact = now - period_in_day * SECONDS_PER_DAY;
    if exact < i64::MIN {
        i64::MIN as int
    } else {
        exact
    }
}

/// The cutoff of a sweep: rows created before it are deleted.
pub fn retention_cutoff(now: i64, period_in_day: u32) -> (r: i64)
    ensures
        r == cutoff_at(now, period_in_day),
{
    let span: i128 = period_in_day as i128 * 86400;
    assert(span == period_in_day * SECONDS_PER_DAY);
    let exact: i128 = now as i128 - span;
    if exact < i64::MIN as i128 {
        i64::MIN
    } else {
        exact as i64
    }
}

/// Whether a row created at `time_created` has aged out at `cutoff`.
pub fn expired(time_created: i64, cutoff: i64) -> (r: bool)
    ensures
        r == (time_created < cutoff),
{
    time_created < cutoff
}

/// One scheduled sweep: when it fires and how long rows are kept.
#[derive(Debug)]
pub struct SweepTask {
    pub cron: String,
    pub period_in_day: u32,
}

/// The sweep that the settings ask for: the retention rule `main`, where it
/// is there and enabled.
pub fn sqlite_clean_up_task(config: &Config) -> (r: Option<SweepTask>)
    ensures
        match r {
            Some(task) => {
                let at = crate::config::retention_position(config.data_retention@, "main"@);
                &&& 0 <= at < config.data_retention@.len()
                &&& config.data_retention@[at].config.enabled
                &&& task.cron == config.data_retention@[at].config.cron
                &&& task.period_in_day == config.data_retention@[at].config.period_in_day
            },
            None => {
                let at = crate::config::retention_position(config.data_retention@, "main"@);
                at == config.data_retention@.len() || (0 <= at < config.data_retention@.len()
                    && !config.data_retention@[at].config.enabled)
            },
        },
{
    match config.retention("main") {
        Some(rule) => {
            if rule.enabled {
                Some(SweepTask { cron: rule.cron.clone(), period_in_day: rule.period_in_day })
            } else {
                None
            }
        },
        None => None,
    }
}

/// The tasks to schedule for these settings: the sweep, where one is asked
/// for.
pub fn create_tasks(config: &Config) -> (r: Vec<SweepTask>)
    ensures
        r@.len() <= 1,
        r@.len() == 1 <==> {
            let at = crate::config::retention_position(config.data_retention@, "main"@);
            0 <= at < config.data_retention@.len() && config.data_retention@[at].config.enabled
        },
        r@.len() == 1 ==> {
            let at = crate::config::retention_position(config.data_retention@, "main"@);
            r@[0].cron == config.data_retention@[at].config.cron && r@[0].period_in_day
                == config.data_retention@[at].config.period_in_day
        },
{
    let mut tasks: Vec<SweepTask> = Vec::new();
    match sqlite_clean_up_task(config) {
        Some(task) => {
            tasks.push(task);
        },
        None => {},
    }
    tasks
}

/// Keeps runs of the sweeper apart: a trigger that fires while a run is
/// under way is skipped.
#[derive(Debug)]
pub struct SweepGuard {
    running: bool,
}

impl SweepGuard {
    /// Whether a run is under way.
    pub closed spec fn running(&self) -> bool {
        self.running
    }

    /// A guard with no run under way.
    pub fn new() -> (r: Self)
        ensures
            !r.running(),
    {
        SweepGuard { running: false }
    }

    /// A trigger has fired: says whether the run may start. It may where none
    /// is under way, and is under way from then on.
    pub fn try_start(&mut self) -> (started: bool)
        ensures
            started == !old(self).running(),
            final(self).running(),
    {
        if self.running {
            false
        } else {
            self.running = true;
            true
        }
    }

    /// The run has ended.
    pub fn finish(&mut self)
        ensures
            !final(self).running(),
    {
        self.running = false;
    }
}

} // verus!
