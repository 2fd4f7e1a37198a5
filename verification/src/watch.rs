//! The watcher: how what the runtime reports about a task moves the
//! workload's actual state.

use crate::manager::{clamp_i64, i64_text_for_secs, sat_sub, Timing};
use crate::policy::missing_task_error_of;
use crate::runtime::{RuntimeTaskState, RuntimeTaskStatus};
use crate::store::{
    cas_rows, not_found_message, row_index, stopped_outcome_rows, unknown_rows, watchable_state,
    WorkloadStore,
};
use crate::text::signed_decimal;
use crate::workload::{
    opt_chars, ActualState, DesiredState, ErrorCode, Workload, WorkloadError, WorkloadKind,
    WorkloadV,
};
use vstd::prelude::*;

verus! {

/// Whether a workload in `actual_state` has a task worth watching.
pub fn is_watchable(actual_state: ActualState) -> (b: bool)
    ensures
        b == watchable_state(actual_state),
{
    actual_state == ActualState::Starting || actual_state == ActualState::Running || actual_state
        == ActualState::Stopping
}

/// The error of a workload whose task state stayed unknown for `grace` seconds.
pub open spec fn unknown_too_long_message(grace: i64) -> Seq<char> {
    "runtime task state remained unknown for "@ + signed_decimal(grace as int) + " seconds"@
}

/// The rows after learning that the task of `w` is gone: a stop is done;
/// a task that was starting or running failed.
pub open spec fn task_gone_rows(rows: Seq<WorkloadV>, w: WorkloadV, now: i64) -> Seq<WorkloadV> {
    if w.actual_state == ActualState::Stopping {
        cas_rows(rows, w.id, ActualState::Stopping, ActualState::Stopped, None, None, now)
    } else if w.actual_state == ActualState::Starting || w.actual_state == ActualState::Running {
        cas_rows(
            rows,
            w.id,
            w.actual_state,
            ActualState::Failed,
            None,
            Some(missing_task_error_of(w.kind)),
            now,
        )
    } else {
        rows
    }
}

/// The rows after the runtime could not tell the state of the task of `w`:
/// the first time is noted; past `grace` seconds the workload failed.
pub open spec fn task_unknown_rows(rows: Seq<WorkloadV>, w: WorkloadV, grace: i64, now: i64) -> Seq<
    WorkloadV,
> {
    if !(w.actual_state == ActualState::Starting || w.actual_state == ActualState::Running) {
        rows
    } else if w.runtime_unknown_since_unix_secs is None {
        unknown_rows(rows, w.id, w.actual_state, now)
    } else if clamp_i64(now - w.runtime_unknown_since_unix_secs.unwrap()) < grace {
        rows
    } else {
        cas_rows(
            rows,
            w.id,
            w.actual_state,
            ActualState::Failed,
            None,
            Some(unknown_too_long_message(grace)),
            now,
        )
    }
}

/// The rows after the runtime reported `status` for the task of `w`.
pub open spec fn task_status_rows(
    rows: Seq<WorkloadV>,
    w: WorkloadV,
    status: RuntimeTaskStatus,
    grace: i64,
    now: i64,
) -> Seq<WorkloadV> {
    match status.state {
        RuntimeTaskState::Created => if w.actual_state != ActualState::Stopping {
            cas_rows(rows, w.id, w.actual_state, ActualState::Starting, None, None, now)
        } else {
            rows
        },
        RuntimeTaskState::Running => if w.actual_state != ActualState::Stopping {
            cas_rows(rows, w.id, w.actual_state, ActualState::Running, None, None, now)
        } else {
            rows
        },
        RuntimeTaskState::Stopped => stopped_outcome_rows(
            rows,
            w.id,
            w.actual_state,
            status.exit_code,
            now,
        ),
        RuntimeTaskState::Unknown => task_unknown_rows(rows, w, grace, now),
    }
}

/// A workload whose task the runtime no longer knows: a starting or running
/// workload has failed, with an error saying its task is gone (for a job:
/// that it vanished before its exit was seen), and its exit code unknown; a
/// stopping one has stopped; no other workload's record changes.
pub proof fn lemma_task_gone(rows: Seq<WorkloadV>, w: WorkloadV, now: i64)
    requires
        row_index(rows, w.id) >= 0,
        rows[row_index(rows, w.id)].actual_state == w.actual_state,
    ensures
        ({
            let i = row_index(rows, w.id);
            let after = task_gone_rows(rows, w, now);
            &&& after.len() == rows.len()
            &&& forall|j: int| 0 <= j < rows.len() && j != i ==> after[j] == rows[j]
            &&& (w.actual_state == ActualState::Starting || w.actual_state
                == ActualState::Running) ==> after[i].actual_state == ActualState::Failed
                && after[i].exit_code is None && after[i].error == Some(
                if w.kind == WorkloadKind::Service {
                    "runtime task not found"@
                } else {
                    "runtime task disappeared before its exit was observed"@
                },
            )
            &&& w.actual_state == ActualState::Stopping ==> after[i].actual_state
                == ActualState::Stopped && after[i].error is None
            &&& !(w.actual_state == ActualState::Starting || w.actual_state == ActualState::Running
                || w.actual_state == ActualState::Stopping) ==> after == rows
        }),
{
    crate::store::lemma_last_where(rows, crate::store::id_is(w.id));
}

/// What a runtime report does to a watched workload (stored, with the state
/// it was read in):
/// - a task that runs (or is created) makes it running (or starting), unless
///   it is stopping, which only an exit ends;
/// - an exit after a stop that the user asked for makes it stopped, the exit
///   code forgotten;
/// - otherwise an exit with code 0 makes it stopped and any other code
///   failed, the code kept;
/// - a state the runtime cannot tell first notes when that began, keeping
///   the workload's state.
pub proof fn lemma_task_status(
    rows: Seq<WorkloadV>,
    w: WorkloadV,
    status: RuntimeTaskStatus,
    grace: i64,
    now: i64,
)
    requires
        row_index(rows, w.id) >= 0,
        rows[row_index(rows, w.id)] == w,
    ensures
        ({
            let i = row_index(rows, w.id);
            let after = task_status_rows(rows, w, status, grace, now);
            let asked = w.desired_state == DesiredState::Stopped || w.desired_state
                == DesiredState::Deleted;
            &&& after.len() == rows.len()
            &&& forall|j: int| 0 <= j < rows.len() && j != i ==> after[j] == rows[j]
            &&& w.actual_state == ActualState::Stopping && (status.state
                == RuntimeTaskState::Running || status.state == RuntimeTaskState::Created)
                ==> after == rows
            &&& w.actual_state != ActualState::Stopping && status.state
                == RuntimeTaskState::Running ==> after[i].actual_state == ActualState::Running
            &&& w.actual_state != ActualState::Stopping && status.state
                == RuntimeTaskState::Created ==> after[i].actual_state == ActualState::Starting
            &&& status.state == RuntimeTaskState::Stopped && asked ==> after[i].actual_state
                == ActualState::Stopped && after[i].exit_code is None && after[i].error is None
            &&& status.state == RuntimeTaskState::Stopped && !asked && status.exit_code == Some(
                0u32,
            ) ==> after[i].actual_state == ActualState::Stopped && after[i].exit_code == Some(0u32)
                && after[i].error is None
            &&& status.state == RuntimeTaskState::Stopped && !asked && (status.exit_code matches Some(
                c,
            ) && c != 0) ==> after[i].actual_state == ActualState::Failed && after[i].exit_code
                == status.exit_code && after[i].error is Some
            &&& status.state == RuntimeTaskState::Unknown && (w.actual_state
                == ActualState::Starting || w.actual_state == ActualState::Running)
                && w.runtime_unknown_since_unix_secs is None ==> after[i].actual_state
                == w.actual_state && after[i].runtime_unknown_since_unix_secs == Some(now)
        }),
{
    crate::store::lemma_last_where(rows, crate::store::id_is(w.id));
}

/// Handles a task that the runtime no longer knows.
pub fn apply_not_found(store: &mut WorkloadStore, workload: &Workload, now: i64)
    requires
        old(store).wf(),
    ensures
        final(store).wf(),
        final(store).runs() == old(store).runs(),
        final(store).rows() == task_gone_rows(old(store).rows(), workload@, now),
{
    if workload.actual_state == ActualState::Stopping {
        store.compare_and_set_actual(
            workload.id.as_str(),
            ActualState::Stopping,
            ActualState::Stopped,
            None,
            None,
            now,
        );
    } else if workload.actual_state == ActualState::Starting || workload.actual_state
        == ActualState::Running {
        let error = workload.kind.policy().missing_runtime_task_error();
        store.compare_and_set_actual(
            workload.id.as_str(),
            workload.actual_state,
            ActualState::Failed,
            None,
            Some(error),
            now,
        );
    }
}

/// Handles a task whose state the runtime cannot tell.
pub fn apply_unknown(store: &mut WorkloadStore, workload: &Workload, timing: &Timing, now: i64)
    requires
        old(store).wf(),
    ensures
        final(store).wf(),
        final(store).runs() == old(store).runs(),
        final(store).rows() == task_unknown_rows(
            old(store).rows(),
            workload@,
            timing.runtime_unknown_grace_secs,
            now,
        ),
{
    if !(workload.actual_state == ActualState::Starting || workload.actual_state
        == ActualState::Running) {
        return ;
    }
    match workload.runtime_unknown_since_unix_secs {
        None => {
            store.mark_runtime_unknown(workload.id.as_str(), workload.actual_state, now);
        },
        Some(since) => {
            if sat_sub(now, since) < timing.runtime_unknown_grace_secs {
                return ;
            }
            let mut error = String::from_str("runtime task state remained unknown for ");
            let secs = i64_text_for_secs(timing.runtime_unknown_grace_secs);
            error.append(secs.as_str());
            error.append(" seconds");
            store.compare_and_set_actual(
                workload.id.as_str(),
                workload.actual_state,
                ActualState::Failed,
                None,
                Some(error.as_str()),
                now,
            );
        },
    }
}

/// Handles what the runtime reports of the task of `workload`.
pub fn apply_status(
    store: &mut WorkloadStore,
    workload: &Workload,
    status: RuntimeTaskStatus,
    timing: &Timing,
    now: i64,
)
    requires
        old(store).wf(),
    ensures
        final(store).wf(),
        final(store).runs() == old(store).runs(),
        final(store).rows() == task_status_rows(
            old(store).rows(),
            workload@,
            status,
            timing.runtime_unknown_grace_secs,
            now,
        ),
{
    match status.state {
        RuntimeTaskState::Created => {
            if workload.actual_state != ActualState::Stopping {
                store.compare_and_set_actual(
                    workload.id.as_str(),
                    workload.actual_state,
                    ActualState::Starting,
                    None,
                    None,
                    now,
                );
            }
        },
        RuntimeTaskState::Running => {
            if workload.actual_state != ActualState::Stopping {
                store.compare_and_set_actual(
                    workload.id.as_str(),
                    workload.actual_state,
                    ActualState::Running,
                    None,
                    None,
                    now,
                );
            }
        },
        RuntimeTaskState::Stopped => {
            store.set_stopped_outcome(
                workload.id.as_str(),
                workload.actual_state,
                status.exit_code,
                now,
            );
        },
        RuntimeTaskState::Unknown => apply_unknown(store, workload, timing, now),
    }
}

/// First half of watching `workload`: the task to ask the runtime about. A
/// workload without a task is treated as one whose task is gone, on its
/// current record.
pub fn watch_begin(store: &mut WorkloadStore, workload: &Workload, now: i64) -> (r: Result<
    Option<String>,
    WorkloadError,
>)
    requires
        old(store).wf(),
    ensures
        final(store).wf(),
        final(store).runs() == old(store).runs(),
        match workload@.runtime_task_id {
            Some(task) => final(store).rows() == old(store).rows() && (r matches Ok(Some(t))
                && t@ == task),
            None => match old(store).read(workload@.id) {
                Some(current) => final(store).rows() == task_gone_rows(
                    old(store).rows(),
                    current,
                    now,
                ) && r matches Ok(None),
                None => final(store).rows() == old(store).rows() && (r matches Err(e) && e.code
                    == ErrorCode::NotFound && e.message@ == not_found_message(workload@.id)),
            },
        },
{
    match &workload.runtime_task_id {
        Some(task) => Ok(Some(task.clone())),
        None => {
            let current = match store.get(workload.id.as_str()) {
                Ok(w) => w,
                Err(e) => return Err(e),
            };
            apply_not_found(store, &current, now);
            Ok(None)
        },
    }
}

/// Second half of watching workload `workload_id`: what the runtime said of
/// task `task` (`None`: it does not know the task). Nothing changes where the
/// workload has moved on to another task or out of the watched states.
pub fn watch_after_inspect(
    store: &mut WorkloadStore,
    workload_id: &str,
    task: &str,
    status: Option<RuntimeTaskStatus>,
    timing: &Timing,
    now: i64,
) -> (r: Result<(), WorkloadError>)
    requires
        old(store).wf(),
    ensures
        final(store).wf(),
        final(store).runs() == old(store).runs(),
        match old(store).read(workload_id@) {
            None => final(store).rows() == old(store).rows() && (r matches Err(e) && e.code
                == ErrorCode::NotFound && e.message@ == not_found_message(workload_id@)),
            Some(current) => r is Ok && final(store).rows() == if current.runtime_task_id != Some(
                task@,
            ) || !watchable_state(current.actual_state) {
                old(store).rows()
            } else {
                match status {
                    Some(s) => task_status_rows(
                        old(store).rows(),
                        current,
                        s,
                        timing.runtime_unknown_grace_secs,
                        now,
                    ),
                    None => task_gone_rows(old(store).rows(), current, now),
                }
            },
        },
{
    let current = match store.get(workload_id) {
        Ok(w) => w,
        Err(e) => return Err(e),
    };
    let same_task = match &current.runtime_task_id {
        Some(t) => crate::workload::str_eq(t.as_str(), task),
        None => false,
    };
    if !same_task || !is_watchable(current.actual_state) {
        return Ok(());
    }
    match status {
        Some(s) => apply_status(store, &current, s, timing, now),
        None => apply_not_found(store, &current, now),
    }
    Ok(())
}

} // verus!
