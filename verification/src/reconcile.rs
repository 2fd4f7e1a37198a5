//! The reconciler: what it takes to move a workload towards what the user
//! asked for. Each step reads the store, decides, records its decision, and
//! names the runtime call to make next; the result of that call is handed to
//! the next step.

use crate::manager::{clamp_i64, sat_add, sat_sub, Timing, I64_MAX};
use crate::policy::restarts_after;
use crate::runtime::{
    RuntimeCleanupMode, RuntimeStartRequest, RuntimeStopMode, RuntimeTaskState, RuntimeTaskStatus,
};
use crate::store::{
    backoff_rows, cas_rows, cleanup_done_runs, cleanup_failure_runs, clear_backoff_rows,
    delete_run_runs, latest_run_index, not_found_message, run_index, WorkloadStore,
};
use crate::workload::{
    opt_chars, ActualState, CleanupState, DesiredState, ErrorCode, RunV, Workload, WorkloadError,
    WorkloadKind,
    WorkloadRun, WorkloadV,
};
use vstd::prelude::*;

verus! {

/// Cleanups of a run are given up (until their retry delay) after this many
/// failed attempts.
pub const MAX_CLEANUP_ATTEMPTS: i64 = 3;

/// How the cleanup of a run ended.
#[derive(Clone, Copy, Debug, PartialEq, Eq, Structural)]
pub enum CleanupOutcome {
    Done,
    Pending,
    Failed,
}

/// What a workload needs next, from its desired and actual states.
#[derive(Clone, Copy, Debug, PartialEq, Eq, Structural)]
pub enum ReconcilePlan {
    /// A stop is under way: see it through (never cancelled).
    EscalateStop,
    /// Start a new run.
    Start,
    /// A start was interrupted: adopt or clean up its run.
    RecoverCreating,
    /// Clean up the last run, then restart once the backoff allows.
    CleanupThenRestart,
    /// Clean up the last run.
    Cleanup,
    /// Running: forget the restart backoff after a stable run.
    ResetBackoff,
    /// Never started and asked to stop: mark it stopped.
    MarkStopped,
    /// Ask the task to stop.
    EnterStopping,
    /// Clean up the last run, then mark the workload deleted.
    CleanupThenDelete,
    /// Nothing to do.
    Nothing,
}

/// The plan for a workload.
pub open spec fn reconcile_plan_of(w: WorkloadV) -> ReconcilePlan {
    let a = w.actual_state;
    if a == ActualState::Stopping {
        ReconcilePlan::EscalateStop
    } else {
        match w.desired_state {
            DesiredState::Running => match a {
                ActualState::Accepted => ReconcilePlan::Start,
                ActualState::Creating => ReconcilePlan::RecoverCreating,
                ActualState::Stopped | ActualState::Failed => if restarts_after(w.kind, a) {
                    ReconcilePlan::CleanupThenRestart
                } else {
                    ReconcilePlan::Cleanup
                },
                ActualState::Running => ReconcilePlan::ResetBackoff,
                _ => ReconcilePlan::Nothing,
            },
            DesiredState::Stopped => match a {
                ActualState::Accepted => ReconcilePlan::MarkStopped,
                ActualState::Creating | ActualState::Starting | ActualState::Running => {
                    ReconcilePlan::EnterStopping
                },
                ActualState::Stopped | ActualState::Failed => ReconcilePlan::Cleanup,
                _ => ReconcilePlan::Nothing,
            },
            DesiredState::Deleted => match a {
                ActualState::Accepted | ActualState::Stopped | ActualState::Failed => {
                    ReconcilePlan::CleanupThenDelete
                },
                ActualState::Creating | ActualState::Starting | ActualState::Running => {
                    ReconcilePlan::EnterStopping
                },
                _ => ReconcilePlan::Nothing,
            },
        }
    }
}

/// What reconciling asks for, by what the user wants and where the workload
/// stands:
/// - a stop under way is always seen through;
/// - a workload to delete that holds no live task has its run cleaned up and
///   is then marked deleted; one with a task is first stopped;
/// - a workload to stop is stopped where it may hold a task, its run cleaned
///   up where it has ended, and marked stopped where it never started;
/// - a workload to run is started where it was only accepted, recovered
///   where a start was cut off, kept as it is while starting, and, once it
///   has ended, cleaned up and restarted only where it is a service;
/// - a deleted workload needs nothing more.
pub proof fn lemma_reconcile_plans(w: WorkloadV)
    ensures
        w.actual_state == ActualState::Stopping ==> reconcile_plan_of(w) == ReconcilePlan::EscalateStop,
        w.actual_state == ActualState::Deleted ==> reconcile_plan_of(w) == ReconcilePlan::Nothing,
        w.desired_state == DesiredState::Deleted && (w.actual_state == ActualState::Accepted
            || w.actual_state == ActualState::Stopped || w.actual_state == ActualState::Failed)
            ==> reconcile_plan_of(w) == ReconcilePlan::CleanupThenDelete,
        w.desired_state != DesiredState::Running && (w.actual_state == ActualState::Creating
            || w.actual_state == ActualState::Starting || w.actual_state == ActualState::Running)
            ==> reconcile_plan_of(w) == ReconcilePlan::EnterStopping,
        w.desired_state == DesiredState::Stopped && (w.actual_state == ActualState::Stopped
            || w.actual_state == ActualState::Failed) ==> reconcile_plan_of(w)
            == ReconcilePlan::Cleanup,
        w.desired_state == DesiredState::Stopped && w.actual_state == ActualState::Accepted
            ==> reconcile_plan_of(w) == ReconcilePlan::MarkStopped,
        w.desired_state == DesiredState::Running && w.actual_state == ActualState::Accepted
            ==> reconcile_plan_of(w) == ReconcilePlan::Start,
        w.desired_state == DesiredState::Running && w.actual_state == ActualState::Creating
            ==> reconcile_plan_of(w) == ReconcilePlan::RecoverCreating,
        w.desired_state == DesiredState::Running && w.actual_state == ActualState::Starting
            ==> reconcile_plan_of(w) == ReconcilePlan::Nothing,
        w.desired_state == DesiredState::Running && w.actual_state == ActualState::Running
            ==> reconcile_plan_of(w) == ReconcilePlan::ResetBackoff,
        w.desired_state == DesiredState::Running && (w.actual_state == ActualState::Stopped
            || w.actual_state == ActualState::Failed) ==> reconcile_plan_of(w) == if w.kind
            == WorkloadKind::Service {
            ReconcilePlan::CleanupThenRestart
        } else {
            ReconcilePlan::Cleanup
        },
{
}

/// A workload to delete that holds no live task is deleted once its run is
/// released: the plan cleans up and tombstones it, and the tombstoning step
/// (see `delete_after_cleanup`) leaves the stored workload `Deleted`.
pub proof fn lemma_delete_reaches_tombstone(w: WorkloadV, rows: Seq<WorkloadV>, now: i64)
    requires
        w.desired_state == DesiredState::Deleted,
        w.actual_state == ActualState::Accepted || w.actual_state == ActualState::Stopped
            || w.actual_state == ActualState::Failed,
        crate::store::row_index(rows, w.id) >= 0,
        rows[crate::store::row_index(rows, w.id)].actual_state == w.actual_state,
    ensures
        reconcile_plan_of(w) == ReconcilePlan::CleanupThenDelete,
        cas_rows(rows, w.id, w.actual_state, ActualState::Deleted, w.exit_code, w.error, now)[
            crate::store::row_index(rows, w.id)].actual_state == ActualState::Deleted,
{
    lemma_reconcile_plans(w);
    crate::store::lemma_last_where(rows, crate::store::id_is(w.id));
}

/// Decides what `workload` needs next.
pub fn plan_reconcile(workload: &Workload) -> (p: ReconcilePlan)
    ensures
        p == reconcile_plan_of(workload@),
{
    let a = workload.actual_state;
    if a == ActualState::Stopping {
        return ReconcilePlan::EscalateStop;
    }
    match workload.desired_state {
        DesiredState::Running => match a {
            ActualState::Accepted => ReconcilePlan::Start,
            ActualState::Creating => ReconcilePlan::RecoverCreating,
            ActualState::Stopped | ActualState::Failed => {
                if workload.kind.policy().should_restart_after_terminal(a) {
                    ReconcilePlan::CleanupThenRestart
                } else {
                    ReconcilePlan::Cleanup
                }
            },
            ActualState::Running => ReconcilePlan::ResetBackoff,
            _ => ReconcilePlan::Nothing,
        },
        DesiredState::Stopped => match a {
            ActualState::Accepted => ReconcilePlan::MarkStopped,
            ActualState::Creating | ActualState::Starting | ActualState::Running => {
                ReconcilePlan::EnterStopping
            },
            ActualState::Stopped | ActualState::Failed => ReconcilePlan::Cleanup,
            _ => ReconcilePlan::Nothing,
        },
        DesiredState::Deleted => match a {
            ActualState::Accepted | ActualState::Stopped | ActualState::Failed => {
                ReconcilePlan::CleanupThenDelete
            },
            ActualState::Creating | ActualState::Starting | ActualState::Running => {
                ReconcilePlan::EnterStopping
            },
            _ => ReconcilePlan::Nothing,
        },
    }
}

/// How long to wait before retrying a cleanup that failed `attempts` times:
/// 30 seconds per attempt, at most 300 (`saturating_mul`, then `min`).
pub open spec fn cleanup_retry_delay(attempts: i64) -> i64 {
    let d = clamp_i64(30 * attempts);
    if d <= 300 {
        d
    } else {
        300
    }
}

/// Whether a failed cleanup of `r` may be retried at `now`.
pub open spec fn retry_due(r: RunV, now: i64) -> bool {
    clamp_i64(now - r.updated_at_unix_secs) >= cleanup_retry_delay(r.cleanup_attempts)
}

/// Whether a failed cleanup of `run` may be retried at `now`.
pub fn cleanup_retry_due(run: &WorkloadRun, now: i64) -> (b: bool)
    ensures
        b == retry_due(run@, now),
{
    let product: i128 = 30 * (run.cleanup_attempts as i128);
    let scaled: i64 = if product > 9223372036854775807i128 {
        I64_MAX
    } else if product < -9223372036854775808i128 {
        -9223372036854775808i64
    } else {
        product as i64
    };
    let backoff = if scaled <= 300 {
        scaled
    } else {
        300
    };
    sat_sub(now, run.updated_at_unix_secs) >= backoff
}

/// How many failed cleanups a run has after one more.
pub open spec fn next_cleanup_attempts(r: RunV) -> i64 {
    clamp_i64(r.cleanup_attempts + 1)
}

/// The outcome of a failed cleanup: given up after three attempts.
pub open spec fn failed_cleanup_state(attempts: i64) -> CleanupState {
    if attempts >= MAX_CLEANUP_ATTEMPTS {
        CleanupState::Failed
    } else {
        CleanupState::Pending
    }
}

/// Records what came of asking the runtime to clean up `run`.
pub fn record_cleanup_result(
    store: &mut WorkloadStore,
    run: &WorkloadRun,
    result: Result<(), String>,
    now: i64,
) -> (outcome: CleanupOutcome)
    requires
        old(store).wf(),
    ensures
        final(store).wf(),
        final(store).rows() == old(store).rows(),
        match result {
            Ok(()) => outcome == CleanupOutcome::Done && final(store).runs() == cleanup_done_runs(
                old(store).runs(),
                run@.runtime_task_id,
                now,
            ),
            Err(e) => {
                let attempts = next_cleanup_attempts(run@);
                let state = failed_cleanup_state(attempts);
                &&& final(store).runs() == cleanup_failure_runs(
                    old(store).runs(),
                    run@.runtime_task_id,
                    state,
                    attempts,
                    e@,
                    now,
                )
                &&& outcome == if state == CleanupState::Failed {
                    CleanupOutcome::Failed
                } else {
                    CleanupOutcome::Pending
                }
            },
        },
{
    match result {
        Ok(()) => {
            store.mark_run_cleanup_done(run.runtime_task_id.as_str(), now);
            CleanupOutcome::Done
        },
        Err(error) => {
            let attempts = sat_add(run.cleanup_attempts, 1);
            let next_state = if attempts >= MAX_CLEANUP_ATTEMPTS {
                CleanupState::Failed
            } else {
                CleanupState::Pending
            };
            store.record_run_cleanup_failure(
                run.runtime_task_id.as_str(),
                next_state,
                attempts,
                error.as_str(),
                now,
            );
            if next_state == CleanupState::Failed {
                CleanupOutcome::Failed
            } else {
                CleanupOutcome::Pending
            }
        },
    }
}

/// Whether the latest run of a workload needs the runtime to clean it up.
pub enum CleanupStart {
    /// No runtime call is needed.
    Finished(CleanupOutcome),
    /// Ask the runtime to clean up this run in this mode (which keeps its
    /// logs).
    Needed(WorkloadRun, RuntimeCleanupMode),
}

/// First half of cleaning up the latest run of workload `id`: none, a
/// finished one and a given-up one not yet due for retry need no runtime call.
pub fn begin_cleanup_latest_run(store: &WorkloadStore, workload_id: &str, now: i64) -> (r:
    CleanupStart)
    requires
        store.wf(),
    ensures
        ({
            let k = latest_run_index(store.runs(), workload_id@);
            if k < 0 {
                r == CleanupStart::Finished(CleanupOutcome::Done)
            } else if store.runs()[k].cleanup_state == CleanupState::Done {
                r == CleanupStart::Finished(CleanupOutcome::Done)
            } else if store.runs()[k].cleanup_state == CleanupState::Failed && !retry_due(
                store.runs()[k],
                now,
            ) {
                r == CleanupStart::Finished(CleanupOutcome::Failed)
            } else {
                r matches CleanupStart::Needed(run, mode) && run@ == store.runs()[k] && mode
                    == RuntimeCleanupMode::PreserveLogs
            }
        }),
{
    let run = match store.latest_run(workload_id) {
        None => return CleanupStart::Finished(CleanupOutcome::Done),
        Some(run) => run,
    };
    if run.cleanup_state == CleanupState::Done {
        return CleanupStart::Finished(CleanupOutcome::Done);
    }
    if run.cleanup_state == CleanupState::Failed && !cleanup_retry_due(&run, now) {
        return CleanupStart::Finished(CleanupOutcome::Failed);
    }
    CleanupStart::Needed(run, RuntimeCleanupMode::PreserveLogs)
}

/// One step of the restart backoff: double (saturating), at most `cap`.
pub open spec fn backoff_step(d: i64, cap: i64) -> i64 {
    let x = clamp_i64(2 * d);
    if x <= cap {
        x
    } else {
        cap
    }
}

/// The restart delay after `n` steps from `d`, stopping once it reaches `cap`.
pub open spec fn backoff_from(d: i64, cap: i64, n: nat) -> i64
    decreases n,
{
    if n == 0 {
        d
    } else {
        let e = backoff_step(d, cap);
        if e == cap {
            e
        } else {
            backoff_from(e, cap, (n - 1) as nat)
        }
    }
}

/// The delay before restart attempt number `attempts + 1`.
pub open spec fn restart_delay(timing: Timing, attempts: i64) -> i64 {
    backoff_from(
        timing.restart_backoff_initial_secs,
        timing.restart_backoff_cap_secs,
        if attempts > 0 {
            attempts as nat
        } else {
            0
        },
    )
}

/// The delay before the next restart of a workload that was restarted
/// `restart_attempts` times: the initial delay, doubled per attempt, capped.
pub fn restart_backoff_delay_secs(restart_attempts: i64, timing: &Timing) -> (d: i64)
    ensures
        d == restart_delay(*timing, restart_attempts),
{
    let cap = timing.restart_backoff_cap_secs;
    let n: i64 = if restart_attempts > 0 {
        restart_attempts
    } else {
        0
    };
    let mut delay = timing.restart_backoff_initial_secs;
    let mut i: i64 = 0;
    while i < n
        invariant
            0 <= i <= n,
            n == (if restart_attempts > 0 {
                restart_attempts
            } else {
                0
            }),
            cap == timing.restart_backoff_cap_secs,
            backoff_from(delay, cap, (n - i) as nat) == restart_delay(*timing, restart_attempts),
        decreases n - i,
    {
        let doubled = sat_add(delay, delay);
        assert(clamp_i64(2 * delay) == clamp_i64(delay + delay));
        let next = if doubled <= cap {
            doubled
        } else {
            cap
        };
        if next == cap {
            return next;
        }
        delay = next;
        i = i + 1;
    }
    delay
}

/// `d` doubled `n` times.
pub open spec fn doubled(d: int, n: nat) -> int
    decreases n,
{
    if n == 0 {
        d
    } else {
        2 * doubled(d, (n - 1) as nat)
    }
}

proof fn lemma_doubled(d: int, n: nat)
    ensures
        doubled(2 * d, n) == 2 * doubled(d, n),
        d > 0 ==> doubled(d, n) >= d,
        d > 0 && n > 0 ==> doubled(d, n) >= 2 * d,
    decreases n,
{
    if n > 0 {
        lemma_doubled(d, (n - 1) as nat);
    }
}

/// The restart delay grows exponentially from its initial value and stops at
/// its cap: after `n` attempts it is `min(initial * 2^n, cap)`.
pub proof fn lemma_backoff_doubles_then_caps(initial: i64, cap: i64, n: nat)
    requires
        0 < initial <= cap,
    ensures
        backoff_from(initial, cap, n) == if doubled(initial as int, n) <= cap {
            doubled(initial as int, n)
        } else {
            cap as int
        },
    decreases n,
{
    if n > 0 {
        let e = backoff_step(initial, cap);
        lemma_doubled(initial as int, n);
        lemma_doubled(initial as int, (n - 1) as nat);
        if e != cap {
            assert(e == 2 * initial);
            lemma_backoff_doubles_then_caps(e, cap, (n - 1) as nat);
            assert(doubled(e as int, (n - 1) as nat) == doubled(initial as int, n));
        }
    }
}

/// Whether a workload may restart now. Where no restart is scheduled yet,
/// the next one is scheduled (one attempt more, after the backoff delay) and
/// the answer is no.
pub fn restart_backoff_ready(
    store: &mut WorkloadStore,
    workload: &Workload,
    timing: &Timing,
    now: i64,
) -> (ready: bool)
    requires
        old(store).wf(),
    ensures
        final(store).wf(),
        final(store).runs() == old(store).runs(),
        match workload@.restart_not_before_unix_secs {
            Some(not_before) => ready == (now >= not_before) && final(store).rows() == old(store).rows(),
            None => !ready && final(store).rows() == backoff_rows(
                old(store).rows(),
                workload@.id,
                workload@.actual_state,
                clamp_i64(workload@.restart_attempts + 1),
                clamp_i64(now + restart_delay(*timing, workload@.restart_attempts)),
                now,
            ),
        },
{
    if let Some(not_before) = workload.restart_not_before_unix_secs {
        return now >= not_before;
    }
    let delay = restart_backoff_delay_secs(workload.restart_attempts, timing);
    let not_before = sat_add(now, delay);
    let attempts = sat_add(workload.restart_attempts, 1);
    store.set_restart_backoff(
        workload.id.as_str(),
        workload.actual_state,
        attempts,
        not_before,
        now,
    );
    false
}

/// Forgets the restart backoff of a workload that has run for the reset
/// period.
pub fn reset_restart_backoff_after_stable_run(
    store: &mut WorkloadStore,
    workload: &Workload,
    timing: &Timing,
    now: i64,
)
    requires
        old(store).wf(),
    ensures
        final(store).wf(),
        final(store).runs() == old(store).runs(),
        final(store).rows() == if workload@.restart_attempts == 0
            && workload@.restart_not_before_unix_secs is None {
            old(store).rows()
        } else {
            match workload@.running_since_unix_secs {
                None => old(store).rows(),
                Some(since) => if clamp_i64(now - since) >= timing.restart_backoff_reset_secs {
                    clear_backoff_rows(old(store).rows(), workload@.id, now)
                } else {
                    old(store).rows()
                },
            }
        },
{
    if workload.restart_attempts == 0 && workload.restart_not_before_unix_secs.is_none() {
        return ;
    }
    let running_since = match workload.running_since_unix_secs {
        None => return ,
        Some(t) => t,
    };
    if sat_sub(now, running_since) >= timing.restart_backoff_reset_secs {
        store.clear_restart_backoff(workload.id.as_str(), now);
    }
}


/// A workload that never started and is asked to stop is stopped.
pub fn mark_stopped(store: &mut WorkloadStore, workload: &Workload, now: i64)
    requires
        old(store).wf(),
    ensures
        final(store).wf(),
        final(store).runs() == old(store).runs(),
        final(store).rows() == cas_rows(
            old(store).rows(),
            workload@.id,
            ActualState::Accepted,
            ActualState::Stopped,
            None,
            None,
            now,
        ),
{
    store.compare_and_set_actual(
        workload.id.as_str(),
        ActualState::Accepted,
        ActualState::Stopped,
        None,
        None,
        now,
    );
}

/// First half of starting `workload` as runtime task `runtime_task_id`: the
/// workload becomes `Creating` with a new run, and the runtime is asked to
/// start it. Nothing happens where the workload moved on meanwhile.
pub fn start_begin(store: &mut WorkloadStore, workload: &Workload, runtime_task_id: &str, now: i64) -> (r:
    Result<Option<RuntimeStartRequest>, WorkloadError>)
    requires
        old(store).wf(),
    ensures
        final(store).wf(),
        match r {
            Ok(Some(request)) => request.workload_id@ == workload@.id && request.runtime_task_id@
                == runtime_task_id@ && request.image@ == workload@.image,
            _ => true,
        },
        ({
            let i = crate::store::row_index(old(store).rows(), workload@.id);
            let allowed = i >= 0 && old(store).rows()[i].actual_state == workload@.actual_state
                && old(store).rows()[i].desired_state == DesiredState::Running;
            match r {
                Ok(Some(_)) => allowed && run_index(old(store).runs(), runtime_task_id@) == -1
                    && final(store).rows() == old(store).rows().update(
                    i,
                    crate::store::begin_start_row(old(store).rows()[i], now),
                ) && final(store).runs() == old(store).runs().push(
                    RunV {
                        workload_id: workload@.id,
                        runtime_task_id: runtime_task_id@,
                        cleanup_state: CleanupState::Pending,
                        cleanup_attempts: 0,
                        last_cleanup_error: None,
                        updated_at_unix_secs: now,
                    },
                ),
                Ok(None) => !allowed && final(store).rows() == old(store).rows() && final(store).runs() == old(store).runs(),
                Err(e) => allowed && run_index(old(store).runs(), runtime_task_id@) >= 0 && final(store).rows() == old(store).rows() && final(store).runs() == old(store).runs()
                    && e.code == ErrorCode::Internal,
            }
        }),
{
    match store.begin_start(workload.id.as_str(), workload.actual_state, runtime_task_id, now) {
        Err(e) => Err(e),
        Ok(false) => Ok(None),
        Ok(true) => Ok(
            Some(
                RuntimeStartRequest {
                    workload_id: workload.id.clone(),
                    runtime_task_id: String::from_str(runtime_task_id),
                    image: workload.image.clone(),
                },
            ),
        ),
    }
}

/// The runtime started the task: the workload is starting.
pub fn start_succeeded(store: &mut WorkloadStore, workload_id: &str, now: i64)
    requires
        old(store).wf(),
    ensures
        final(store).wf(),
        final(store).runs() == old(store).runs(),
        final(store).rows() == cas_rows(
            old(store).rows(),
            workload_id@,
            ActualState::Creating,
            ActualState::Starting,
            None,
            None,
            now,
        ),
{
    store.compare_and_set_actual(
        workload_id,
        ActualState::Creating,
        ActualState::Starting,
        None,
        None,
        now,
    );
}

/// The runtime could not start the task. First, the run that was begun is
/// released, keeping its logs for diagnosis: the result is the workload's
/// latest run with the mode of that cleanup (`None` where it has no run).
/// Nothing is recorded yet.
pub fn start_failure_cleanup(store: &WorkloadStore, workload_id: &str) -> (r: Option<
    (WorkloadRun, RuntimeCleanupMode),
>)
    requires
        store.wf(),
    ensures
        ({
            let k = latest_run_index(store.runs(), workload_id@);
            match r {
                Some((run, mode)) => k >= 0 && run@ == store.runs()[k] && mode
                    == RuntimeCleanupMode::PreserveLogs,
                None => k == -1,
            }
        }),
{
    match store.latest_run(workload_id) {
        Some(run) => Some((run, RuntimeCleanupMode::PreserveLogs)),
        None => None,
    }
}

/// The runtime could not start the task (and its run was released, see
/// `start_failure_cleanup`): the workload failed with the runtime's error.
pub fn start_failed(store: &mut WorkloadStore, workload_id: &str, error: &str, now: i64)
    requires
        old(store).wf(),
    ensures
        final(store).wf(),
        final(store).runs() == old(store).runs(),
        final(store).rows() == cas_rows(
            old(store).rows(),
            workload_id@,
            ActualState::Creating,
            ActualState::Failed,
            None,
            Some(error@),
            now,
        ),
{
    store.compare_and_set_actual(
        workload_id,
        ActualState::Creating,
        ActualState::Failed,
        None,
        Some(error),
        now,
    );
}

/// First half of recovering a workload left `Creating`: without a run it
/// goes back to `Accepted`; with one, the runtime is asked about its task.
pub fn recover_begin(store: &mut WorkloadStore, workload_id: &str, now: i64) -> (run: Option<
    WorkloadRun,
>)
    requires
        old(store).wf(),
    ensures
        final(store).wf(),
        final(store).runs() == old(store).runs(),
        ({
            let k = latest_run_index(old(store).runs(), workload_id@);
            match run {
                Some(r) => k >= 0 && r@ == old(store).runs()[k] && final(store).rows() == old(store).rows(),
                None => k == -1 && final(store).rows() == cas_rows(
                    old(store).rows(),
                    workload_id@,
                    ActualState::Creating,
                    ActualState::Accepted,
                    None,
                    None,
                    now,
                ),
            }
        }),
{
    let run = store.latest_run(workload_id);
    if run.is_none() {
        store.compare_and_set_actual(
            workload_id,
            ActualState::Creating,
            ActualState::Accepted,
            None,
            None,
            now,
        );
    }
    run
}

/// Whether a task found during recovery is adopted as the workload's.
pub open spec fn adoptable(status: Option<RuntimeTaskStatus>) -> bool {
    status matches Some(s) && (s.state == RuntimeTaskState::Running || s.state
        == RuntimeTaskState::Stopped)
}

/// Second half of recovering a workload left `Creating`: a task that runs
/// or ran is adopted (the workload is starting); otherwise the run must be
/// cleaned up, logs and all: the result is the mode of that cleanup.
pub fn recover_after_inspect(
    store: &mut WorkloadStore,
    workload_id: &str,
    status: Option<RuntimeTaskStatus>,
    now: i64,
) -> (cleanup: Option<RuntimeCleanupMode>)
    requires
        old(store).wf(),
    ensures
        final(store).wf(),
        final(store).runs() == old(store).runs(),
        cleanup == if adoptable(status) {
            None
        } else {
            Some(RuntimeCleanupMode::RemoveLogs)
        },
        final(store).rows() == if adoptable(status) {
            cas_rows(
                old(store).rows(),
                workload_id@,
                ActualState::Creating,
                ActualState::Starting,
                None,
                None,
                now,
            )
        } else {
            old(store).rows()
        },
{
    let adopt = match status {
        Some(s) => s.state == RuntimeTaskState::Running || s.state == RuntimeTaskState::Stopped,
        None => false,
    };
    if adopt {
        store.compare_and_set_actual(
            workload_id,
            ActualState::Creating,
            ActualState::Starting,
            None,
            None,
            now,
        );
        return None;
    }
    Some(RuntimeCleanupMode::RemoveLogs)
}

/// Last step of recovering a workload left `Creating`: once its run is
/// cleaned up, the run is forgotten and the workload goes back to `Accepted`.
pub fn recover_after_cleanup(
    store: &mut WorkloadStore,
    workload_id: &str,
    run: &WorkloadRun,
    outcome: CleanupOutcome,
    now: i64,
)
    requires
        old(store).wf(),
    ensures
        final(store).wf(),
        outcome != CleanupOutcome::Done ==> final(store).rows() == old(store).rows() && final(store).runs() == old(store).runs(),
        outcome == CleanupOutcome::Done ==> final(store).runs() == delete_run_runs(
            old(store).runs(),
            run@.runtime_task_id,
        ) && final(store).rows() == cas_rows(
            old(store).rows(),
            workload_id@,
            ActualState::Creating,
            ActualState::Accepted,
            None,
            None,
            now,
        ),
{
    if outcome == CleanupOutcome::Done {
        store.delete_run(run.runtime_task_id.as_str());
        store.compare_and_set_actual(
            workload_id,
            ActualState::Creating,
            ActualState::Accepted,
            None,
            None,
            now,
        );
    }
}

/// Moves a workload to `Stopping`. Returns the task to send a graceful stop
/// to, if the move happened and the workload has a task.
pub fn enter_stopping(store: &mut WorkloadStore, workload: &Workload, now: i64) -> (r: Result<
    Option<String>,
    WorkloadError,
>)
    requires
        old(store).wf(),
    ensures
        final(store).wf(),
        final(store).runs() == old(store).runs(),
        final(store).rows() == cas_rows(
            old(store).rows(),
            workload@.id,
            workload@.actual_state,
            ActualState::Stopping,
            None,
            None,
            now,
        ),
        ({
            let i = crate::store::row_index(old(store).rows(), workload@.id);
            let moved = i >= 0 && old(store).rows()[i].actual_state == workload@.actual_state;
            let after = final(store).read(workload@.id);
            &&& r is Ok
            &&& !moved ==> r->Ok_0 is None
            &&& moved ==> after is Some && after->Some_0.actual_state == ActualState::Stopping
                && opt_chars(r->Ok_0) == after->Some_0.runtime_task_id
        }),
{
    let ghost s0: WorkloadStore = *store;
    let ghost before = store.rows();
    if !store.compare_and_set_actual(
        workload.id.as_str(),
        workload.actual_state,
        ActualState::Stopping,
        None,
        None,
        now,
    ) {
        return Ok(None);
    }
    proof {
        let i = crate::store::row_index(before, workload@.id);
        s0.lemma_read(workload@.id);
        crate::store::lemma_row_index_update(before, i, store.rows()[i]);
        assert(crate::store::row_index(store.rows(), workload@.id) == i);
    }
    let current = match store.get(workload.id.as_str()) {
        Ok(w) => w,
        Err(e) => return Err(e),
    };
    Ok(current.runtime_task_id)
}

/// First half of seeing a stop through: a workload without a task is
/// stopped; otherwise the runtime is asked about its task.
pub fn escalate_begin(store: &mut WorkloadStore, workload: &Workload, now: i64) -> (task: Option<
    String,
>)
    requires
        old(store).wf(),
    ensures
        final(store).wf(),
        final(store).runs() == old(store).runs(),
        match workload@.runtime_task_id {
            Some(t) => final(store).rows() == old(store).rows() && (task matches Some(x) && x@
                == t),
            None => task is None && final(store).rows() == cas_rows(
                old(store).rows(),
                workload@.id,
                ActualState::Stopping,
                ActualState::Stopped,
                None,
                None,
                now,
            ),
        },
{
    match &workload.runtime_task_id {
        Some(t) => Some(t.clone()),
        None => {
            store.compare_and_set_actual(
                workload.id.as_str(),
                ActualState::Stopping,
                ActualState::Stopped,
                None,
                None,
                now,
            );
            None
        },
    }
}

/// How long a workload has been stopping at `now`.
pub open spec fn stopping_elapsed(w: WorkloadV, now: i64) -> i64 {
    match w.stopping_since_unix_secs {
        Some(since) => clamp_i64(now - since),
        None => 0,
    }
}

/// Second half of seeing a stop through, given what the runtime said of the
/// task. A task that is gone or stopped ends the stop. Otherwise the stop is
/// repeated: gracefully within the grace period, forcefully after it; once
/// the kill period is also over, the workload stays `Stopping` with an error
/// saying so. Returns the stop to send, if any.
pub fn escalate_after_inspect(
    store: &mut WorkloadStore,
    workload: &Workload,
    status: Option<RuntimeTaskStatus>,
    timing: &Timing,
    now: i64,
) -> (signal: Option<RuntimeStopMode>)
    requires
        old(store).wf(),
    ensures
        final(store).wf(),
        final(store).runs() == old(store).runs(),
        ({
            let terminated = match status {
                None => true,
                Some(s) => s.state == RuntimeTaskState::Stopped,
            };
            let elapsed = stopping_elapsed(workload@, now);
            if terminated {
                signal is None && final(store).rows() == cas_rows(
                    old(store).rows(),
                    workload@.id,
                    ActualState::Stopping,
                    ActualState::Stopped,
                    None,
                    None,
                    now,
                )
            } else if elapsed < timing.stop_grace_secs {
                signal == Some(RuntimeStopMode::Graceful) && final(store).rows() == old(store).rows()
            } else {
                &&& signal == Some(RuntimeStopMode::Force)
                &&& final(store).rows() == if elapsed >= clamp_i64(
                    timing.stop_grace_secs + timing.stop_kill_secs,
                ) {
                    cas_rows(
                        old(store).rows(),
                        workload@.id,
                        ActualState::Stopping,
                        ActualState::Stopping,
                        None,
                        Some("stop escalation stuck: runtime task still alive after SIGKILL"@),
                        now,
                    )
                } else {
                    old(store).rows()
                }
            }
        }),
{
    let terminated = match status {
        None => true,
        Some(s) => s.state == RuntimeTaskState::Stopped,
    };
    if terminated {
        store.compare_and_set_actual(
            workload.id.as_str(),
            ActualState::Stopping,
            ActualState::Stopped,
            None,
            None,
            now,
        );
        return None;
    }
    let stopping_since = match workload.stopping_since_unix_secs {
        Some(t) => t,
        None => now,
    };
    let elapsed_secs = sat_sub(now, stopping_since);
    let grace_secs = timing.stop_grace_secs;
    let kill_secs = timing.stop_kill_secs;
    if elapsed_secs < grace_secs {
        return Some(RuntimeStopMode::Graceful);
    }
    if elapsed_secs >= sat_add(grace_secs, kill_secs) {
        store.compare_and_set_actual(
            workload.id.as_str(),
            ActualState::Stopping,
            ActualState::Stopping,
            None,
            Some("stop escalation stuck: runtime task still alive after SIGKILL"),
            now,
        );
    }
    Some(RuntimeStopMode::Force)
}

/// After cleaning up the last run of a workload that restarts: whether to
/// start it now. The backoff must allow it (see `restart_backoff_ready`) and
/// the run must be fully released.
pub fn restart_after_cleanup(
    store: &mut WorkloadStore,
    workload: &Workload,
    outcome: CleanupOutcome,
    timing: &Timing,
    now: i64,
) -> (start: bool)
    requires
        old(store).wf(),
    ensures
        final(store).wf(),
        final(store).runs() == old(store).runs(),
        match workload@.restart_not_before_unix_secs {
            Some(not_before) => start == (now >= not_before && outcome == CleanupOutcome::Done)
                && final(store).rows() == old(store).rows(),
            None => !start && final(store).rows() == backoff_rows(
                old(store).rows(),
                workload@.id,
                workload@.actual_state,
                clamp_i64(workload@.restart_attempts + 1),
                clamp_i64(now + restart_delay(*timing, workload@.restart_attempts)),
                now,
            ),
        },
{
    if !restart_backoff_ready(store, workload, timing, now) {
        return false;
    }
    outcome == CleanupOutcome::Done
}

/// After cleaning up the last run of a workload asked to be deleted: unless
/// the cleanup is still pending, the workload is deleted, keeping its exit
/// code and error.
pub fn delete_after_cleanup(
    store: &mut WorkloadStore,
    workload: &Workload,
    outcome: CleanupOutcome,
    now: i64,
)
    requires
        old(store).wf(),
    ensures
        final(store).wf(),
        final(store).runs() == old(store).runs(),
        final(store).rows() == if outcome != CleanupOutcome::Pending {
            cas_rows(
                old(store).rows(),
                workload@.id,
                workload@.actual_state,
                ActualState::Deleted,
                workload@.exit_code,
                workload@.error,
                now,
            )
        } else {
            old(store).rows()
        },
{
    if outcome != CleanupOutcome::Pending {
        let error: Option<&str> = match &workload.error {
            Some(e) => Some(e.as_str()),
            None => None,
        };
        store.compare_and_set_actual(
            workload.id.as_str(),
            workload.actual_state,
            ActualState::Deleted,
            workload.exit_code,
            error,
            now,
        );
    }
}

/// The old runs to release for good at `now` (every run but the latest of
/// its workload, once finished or once its retry delay is over), and the mode
/// of their cleanup: their logs go with them.
pub fn runs_to_prune(store: &WorkloadStore, now: i64) -> (r: (Vec<WorkloadRun>, RuntimeCleanupMode))
    requires
        store.wf(),
    ensures
        crate::store::run_views(r.0@) == store.runs().filter(crate::store::prunable_in(store.runs(), now)),
        r.1 == RuntimeCleanupMode::RemoveLogs,
{
    (store.list_prunable_runs(now), RuntimeCleanupMode::RemoveLogs)
}

/// After releasing an old run for good: a finished run is forgotten.
pub fn prune_after_cleanup(store: &mut WorkloadStore, run: &WorkloadRun, outcome: CleanupOutcome)
    requires
        old(store).wf(),
    ensures
        final(store).wf(),
        final(store).rows() == old(store).rows(),
        final(store).runs() == if outcome == CleanupOutcome::Done {
            delete_run_runs(old(store).runs(), run@.runtime_task_id)
        } else {
            old(store).runs()
        },
{
    if outcome == CleanupOutcome::Done {
        store.delete_run(run.runtime_task_id.as_str());
    }
}

} // verus!
