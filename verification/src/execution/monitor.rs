use vstd::prelude::*;
use vstd::string::*;

use crate::execution::id::TaskKey;
use crate::text::joined;

verus! {

#[derive(Debug, Clone, Copy, PartialEq, Eq, Structural)]
pub enum TaskStatus {
    Running,
    Succeeded,
    Failed,
    Canceled,
}

/// What is reported of a task.
#[derive(Debug)]
pub struct TaskReport<C> {
    pub key: TaskKey,
    pub status: TaskStatus,
    pub message: Option<String>,
    /// What a failed task failed of.
    pub cause: Option<C>,
}

/// What a monitored task does next.
#[derive(Debug)]
pub enum TaskEvent<C> {
    /// The output stream yielded a batch with so many rows.
    Batch { rows: u64 },
    /// The output stream failed.
    Error { message: String, cause: C },
    /// The output stream ended.
    End,
    /// The task was told to stop.
    Cancel,
}

/// What the monitor does about it.
#[derive(Debug)]
pub enum MonitorStep<C> {
    /// Keep draining the output stream.
    Continue { row_count: u64 },
    /// Report the end of the task and stop.
    Finish { report: TaskReport<C>, row_count: u64 },
}

/// The report that a task has started.
pub fn running_report<C>(key: TaskKey) -> (report: TaskReport<C>)
    ensures
        report == (TaskReport::<C> {
            key,
            status: TaskStatus::Running,
            message: None,
            cause: None,
        }),
{
    TaskReport { key, status: TaskStatus::Running, message: None, cause: None }
}

/// What the monitor of a task does about an event, given the rows that were drained so far
/// and the name of the task.
pub fn monitor_step<C>(key: TaskKey, name: &str, row_count: u64, event: TaskEvent<C>) -> (step:
    MonitorStep<C>)
    requires
        event matches TaskEvent::Batch { rows } ==> row_count + rows <= u64::MAX,
    ensures
        match event {
            TaskEvent::Batch { rows } => step == (MonitorStep::<C>::Continue {
                row_count: (row_count + rows) as u64,
            }),
            TaskEvent::Error { message, cause } => step matches MonitorStep::Finish {
                report,
                row_count: rows,
            } && rows == row_count && report.key == key && report.status == TaskStatus::Failed && (
            report.message matches Some(text) && text@ == "task error: "@ + message@)
                && report.cause == Some(cause),
            TaskEvent::End => step == (MonitorStep::<C>::Finish {
                report: TaskReport {
                    key,
                    status: TaskStatus::Succeeded,
                    message: None,
                    cause: None,
                },
                row_count,
            }),
            TaskEvent::Cancel => step matches MonitorStep::Finish { report, row_count: rows }
                && rows == 0 && report.key == key && report.status == TaskStatus::Canceled && (
            report.message matches Some(text) && text@ == name@ + " canceled"@)
                && report.cause is None,
        },
{
    match event {
        TaskEvent::Batch { rows } => MonitorStep::Continue { row_count: row_count + rows },
        TaskEvent::Error { message, cause } => MonitorStep::Finish {
            report: TaskReport {
                key,
                status: TaskStatus::Failed,
                message: Some(joined("task error: ", message.as_str())),
                cause: Some(cause),
            },
            row_count,
        },
        TaskEvent::End => MonitorStep::Finish {
            report: TaskReport {
                key,
                status: TaskStatus::Succeeded,
                message: None,
                cause: None,
            },
            row_count,
        },
        TaskEvent::Cancel => MonitorStep::Finish {
            report: TaskReport {
                key,
                status: TaskStatus::Canceled,
                message: Some(joined(name, " canceled")),
                cause: None,
            },
            row_count: 0,
        },
    }
}

/// A task is watched until its stream ends, fails or is told to stop; rows add up until then, and
/// each end is reported under a status of its own, for the task that is watched.
pub proof fn law_tasks_end_once<C>(
    key: TaskKey,
    name: &str,
    row_count: u64,
    event: TaskEvent<C>,
    step: MonitorStep<C>,
)
    requires
        event matches TaskEvent::Batch { rows } ==> row_count + rows <= u64::MAX,
        call_ensures(monitor_step::<C>, (key, name, row_count, event), step),
    ensures
        step is Continue <==> event is Batch,
        match step {
            MonitorStep::Continue { row_count: rows } => event matches TaskEvent::Batch { rows: more }
                && rows == row_count + more,
            MonitorStep::Finish { report, row_count: rows } => {
                &&& report.key == key
                &&& report.status is Succeeded <==> event is End
                &&& report.status is Failed <==> event is Error
                &&& report.status is Canceled <==> event is Cancel
                &&& !(event is Cancel) ==> rows == row_count
                &&& event is End <==> report.message is None
                &&& report.cause is Some <==> event is Error
            },
        },
{
}

} // verus!
