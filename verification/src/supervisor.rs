//! Restart decisions for supervised background tasks.
use vstd::prelude::*;

use std::time::Instant;

use crate::text::append_str;

verus! {

/// Restarts of a critical task before the supervisor gives up.
pub const MAX_RESTARTS: u32 = 5;

/// The state of a supervised task.
#[derive(Debug, Clone)]
pub enum TaskStatus {
    Running,
    Failed { error: String, at: Instant },
    Restarting { attempt: u32 },
    Stopped,
}

/// How a run of a critical task ended.
#[derive(Debug, Clone)]
pub enum TaskExit {
    /// The task returned.
    Completed,
    /// The task panicked or was cancelled; the text describes the join error.
    Crashed(String),
}

/// What the monitor of a critical task does after a run ended.
#[derive(Debug, Clone)]
pub enum MonitorAction {
    /// Mark the task stopped and end monitoring.
    Stop,
    /// Mark the task restarting with this attempt number, wait, then run it again.
    Restart { attempt: u32, backoff_secs: u64 },
    /// Mark the task failed with this message and end monitoring.
    GiveUp { error: String },
}

/// The pause before restart number `n` (from 1): 1 s, then 5 s, then 30 s for every later one.
pub open spec fn backoff_for(n: u32) -> u64 {
    if n <= 1 {
        1
    } else if n == 2 {
        5
    } else {
        30
    }
}

/// Counts the restarts of one critical task.
#[derive(Debug, Clone, Copy)]
pub struct CriticalMonitor {
    pub restart_count: u32,
}

impl CriticalMonitor {
    /// A monitor before the first run.
    pub fn new() -> (r: Self)
        ensures
            r.restart_count == 0,
    {
        CriticalMonitor { restart_count: 0 }
    }

    /// The decision after a run: a completed task stops; a crash counts a restart, and past
    /// the limit the task fails with `Exceeded max restarts: ` and the crash text; else it is
    /// restarted after the back-off for that restart.
    pub fn on_exit(&mut self, exit: &TaskExit) -> (r: MonitorAction)
        requires
            old(self).restart_count <= MAX_RESTARTS,
        ensures
            match *exit {
                TaskExit::Completed => final(self).restart_count == old(self).restart_count && r matches MonitorAction::Stop,
                TaskExit::Crashed(e) => {
                    &&& final(self).restart_count == old(self).restart_count + 1
                    &&& if final(self).restart_count > MAX_RESTARTS {
                        r matches MonitorAction::GiveUp { error } && error@ == "Exceeded max restarts: "@ + e@
                    } else {
                        r matches MonitorAction::Restart { attempt, backoff_secs } && attempt == old(self).restart_count + 1
                            && backoff_secs == backoff_for(attempt)
                    }
                },
            },
    {
        match exit {
            TaskExit::Completed => MonitorAction::Stop,
            TaskExit::Crashed(e) => {
                self.restart_count = self.restart_count + 1;
                if self.restart_count > MAX_RESTARTS {
                    let mut msg = "Exceeded max restarts: ".to_owned();
                    append_str(&mut msg, e.as_str());
                    MonitorAction::GiveUp { error: msg }
                } else {
                    let n = self.restart_count;
                    let backoff_secs: u64 = if n <= 1 {
                        1
                    } else if n == 2 {
                        5
                    } else {
                        30
                    };
                    MonitorAction::Restart { attempt: n, backoff_secs }
                }
            },
        }
    }
}

/// The status to report for a task: one whose handle has finished is failed with
/// `Task exited` at `now`; otherwise the recorded status.
pub fn reported_status(recorded: &TaskStatus, finished: bool, now: Instant) -> (r: TaskStatus)
    ensures
        finished ==> (r matches TaskStatus::Failed { error, at } && error@ == "Task exited"@ && at == now),
        !finished ==> match (*recorded, r) {
            (TaskStatus::Running, TaskStatus::Running) => true,
            (TaskStatus::Stopped, TaskStatus::Stopped) => true,
            (TaskStatus::Restarting { attempt: a }, TaskStatus::Restarting { attempt: b }) => a == b,
            (TaskStatus::Failed { error: e1, at: t1 }, TaskStatus::Failed { error: e2, at: t2 }) => e1@ == e2@ && t1 == t2,
            _ => false,
        },
{
    if finished {
        let error = "Task exited".to_owned();
        proof {
            reveal_strlit("Task exited");
        }
        return TaskStatus::Failed { error, at: now };
    }
    match recorded {
        TaskStatus::Running => TaskStatus::Running,
        TaskStatus::Stopped => TaskStatus::Stopped,
        TaskStatus::Restarting { attempt } => TaskStatus::Restarting { attempt: *attempt },
        TaskStatus::Failed { error, at } => TaskStatus::Failed { error: error.clone(), at: at.clone() },
    }
}

} // verus!
