use billow::manager::{Timing, WorkloadManager};
use billow::reconcile::{
    enter_stopping, plan_reconcile, restart_backoff_delay_secs, start_begin, start_failed,
    start_failure_cleanup,
    start_succeeded, ReconcilePlan,
};
use billow::runtime::{RuntimeCleanupMode, RuntimeTaskState, RuntimeTaskStatus};
use billow::store::WorkloadStore;
use billow::watch::{watch_after_inspect, watch_begin};
use billow::workload::{ActualState, DesiredState, WorkloadKind};

fn manager() -> WorkloadManager {
    WorkloadManager::new(WorkloadStore::new())
}

fn stopped(code: u32) -> Option<RuntimeTaskStatus> {
    Some(RuntimeTaskStatus {
        state: RuntimeTaskState::Stopped,
        exit_code: Some(code),
    })
}

fn running() -> Option<RuntimeTaskStatus> {
    Some(RuntimeTaskStatus {
        state: RuntimeTaskState::Running,
        exit_code: None,
    })
}

/// Starts the workload as task `task` the way one reconcile pass does.
fn start(manager: &mut WorkloadManager, id: &str, task: &str, now: i64) {
    let workload = manager.get(id).unwrap();
    assert_eq!(plan_reconcile(&workload), ReconcilePlan::Start);
    let request = start_begin(&mut manager.store, &workload, task, now).unwrap().unwrap();
    assert_eq!(request.runtime_task_id, task);
    start_succeeded(&mut manager.store, id, now);
}

/// One watch pass over the workload, with what the runtime reports.
fn watch(manager: &mut WorkloadManager, id: &str, status: Option<RuntimeTaskStatus>, now: i64) {
    let workload = manager.get(id).unwrap();
    let timing = manager.timing;
    if let Some(task) = watch_begin(&mut manager.store, &workload, now).unwrap() {
        watch_after_inspect(&mut manager.store, id, &task, status, &timing, now).unwrap();
    }
}

#[test]
fn once_workload_runs_to_stopped() {
    let mut manager = manager();
    let w = manager.submit_at(WorkloadKind::Once, "hello-world", "w-1".to_string(), 10).unwrap();
    start(&mut manager, &w.id, "billow-w1-a", 11);
    assert_eq!(manager.get(&w.id).unwrap().actual_state, ActualState::Starting);
    assert_eq!(
        manager.get(&w.id).unwrap().runtime_task_id,
        Some("billow-w1-a".to_string())
    );

    watch(&mut manager, &w.id, running(), 12);
    assert_eq!(manager.get(&w.id).unwrap().actual_state, ActualState::Running);

    watch(&mut manager, &w.id, stopped(0), 13);
    let done = manager.get(&w.id).unwrap();
    assert_eq!(done.actual_state, ActualState::Stopped);
    assert_eq!(done.exit_code, Some(0));
    assert_eq!(manager.get_logs(&w.id).unwrap(), Some("billow-w1-a".to_string()));
}

#[test]
fn once_nonzero_exit_becomes_failed() {
    let mut manager = manager();
    let w = manager.submit_at(WorkloadKind::Once, "hello-world", "w-1".to_string(), 10).unwrap();
    start(&mut manager, &w.id, "billow-w1-a", 11);
    watch(&mut manager, &w.id, stopped(3), 12);
    let done = manager.get(&w.id).unwrap();
    assert_eq!(done.actual_state, ActualState::Failed);
    assert_eq!(done.exit_code, Some(3));
    assert_eq!(plan_reconcile(&done), ReconcilePlan::Cleanup);
}

#[test]
fn failed_service_is_cleaned_up_then_restarted() {
    let mut manager = manager();
    let w = manager.submit_at(WorkloadKind::Service, "nginx", "w-1".to_string(), 10).unwrap();
    start(&mut manager, &w.id, "billow-w1-a", 11);
    watch(&mut manager, &w.id, stopped(1), 12);
    let failed = manager.get(&w.id).unwrap();
    assert_eq!(failed.actual_state, ActualState::Failed);
    assert_eq!(plan_reconcile(&failed), ReconcilePlan::CleanupThenRestart);
}

#[test]
fn start_failure_marks_failed() {
    let mut manager = manager();
    let w = manager.submit_at(WorkloadKind::Service, "nginx", "w-1".to_string(), 10).unwrap();
    let workload = manager.get(&w.id).unwrap();
    start_begin(&mut manager.store, &workload, "billow-w1-a", 11).unwrap().unwrap();
    let (run, mode) = start_failure_cleanup(&manager.store, &w.id).unwrap();
    assert_eq!(run.runtime_task_id, "billow-w1-a");
    assert_eq!(mode, RuntimeCleanupMode::PreserveLogs);
    assert_eq!(manager.get(&w.id).unwrap().actual_state, ActualState::Creating);
    start_failed(&mut manager.store, &w.id, "pull failed", 12);
    let failed = manager.get(&w.id).unwrap();
    assert_eq!(failed.actual_state, ActualState::Failed);
    assert_eq!(failed.error, Some("pull failed".to_string()));
}

#[test]
fn service_stop_enters_stopping() {
    let mut manager = manager();
    let w = manager.submit_at(WorkloadKind::Service, "nginx", "w-1".to_string(), 10).unwrap();
    start(&mut manager, &w.id, "billow-w1-a", 11);
    watch(&mut manager, &w.id, running(), 12);
    manager.stop_at(&w.id, 13).unwrap();
    let workload = manager.get(&w.id).unwrap();
    assert_eq!(workload.desired_state, DesiredState::Stopped);
    assert_eq!(plan_reconcile(&workload), ReconcilePlan::EnterStopping);
    let task = enter_stopping(&mut manager.store, &workload, 14).unwrap();
    assert_eq!(task, Some("billow-w1-a".to_string()));
    assert_eq!(manager.get(&w.id).unwrap().actual_state, ActualState::Stopping);
    watch(&mut manager, &w.id, stopped(0), 15);
    assert_eq!(manager.get(&w.id).unwrap().actual_state, ActualState::Stopped);
}

#[test]
fn stale_watch_report_changes_nothing() {
    let mut manager = manager();
    let w = manager.submit_at(WorkloadKind::Service, "nginx", "w-1".to_string(), 10).unwrap();
    start(&mut manager, &w.id, "billow-w1-a", 11);
    let timing = manager.timing;
    watch_after_inspect(&mut manager.store, &w.id, "billow-other", stopped(9), &timing, 12).unwrap();
    assert_eq!(manager.get(&w.id).unwrap().actual_state, ActualState::Starting);
}

#[test]
fn service_restart_backoff_exponentially_increases_and_caps() {
    let timing = Timing::defaults();
    let first = restart_backoff_delay_secs(1, &timing);
    let second = restart_backoff_delay_secs(2, &timing);
    assert!(second >= first);
    let mut last = 0;
    for attempts in 1..40 {
        let d = restart_backoff_delay_secs(attempts, &timing);
        assert!(d >= last);
        last = d;
    }
    assert_eq!(restart_backoff_delay_secs(1000, &timing), last);
}
