//! The reconcile and watch passes, driven step by step over a fake runtime
//! and an explicit clock, the way the agent runs them.

use std::collections::HashMap;

use billow::manager::{runtime_task_id, Timing, WorkloadManager};
use billow::reconcile::{
    begin_cleanup_latest_run, delete_after_cleanup, enter_stopping, escalate_after_inspect,
    escalate_begin, mark_stopped, plan_reconcile, prune_after_cleanup, record_cleanup_result,
    recover_after_cleanup, recover_after_inspect, recover_begin, reset_restart_backoff_after_stable_run,
    restart_after_cleanup, runs_to_prune, start_begin, start_failed, start_failure_cleanup,
    start_succeeded, CleanupOutcome,
    CleanupStart, ReconcilePlan,
};
use billow::runtime::{
    RuntimeCleanupMode, RuntimeStartRequest, RuntimeStopMode, RuntimeTaskState, RuntimeTaskStatus,
};
use billow::store::WorkloadStore;
use billow::watch::{watch_after_inspect, watch_begin};
use billow::workload::{
    ActualState, CleanupState, DesiredState, Workload, WorkloadKind, WorkloadRun,
};

#[derive(Default)]
struct FakeRuntime {
    tasks: HashMap<String, RuntimeTaskStatus>,
    logs: HashMap<String, String>,
    starts: Vec<String>,
    stops: Vec<(String, RuntimeStopMode)>,
    cleanups: Vec<(String, RuntimeCleanupMode)>,
    ignore_graceful_stops: bool,
    ignore_force_stops: bool,
    start_failures: usize,
    cleanup_failures: usize,
}

impl FakeRuntime {
    fn start(&mut self, request: &RuntimeStartRequest) -> Result<(), String> {
        self.starts.push(request.runtime_task_id.clone());
        let output = match request.image.as_str() {
            "hello-world" => "Hello from Docker!\n",
            "nginx" => "start worker process\n",
            _ => "",
        };
        self.logs.insert(request.runtime_task_id.clone(), output.to_string());
        if self.start_failures > 0 {
            self.start_failures -= 1;
            return Err("fake runtime start failed".to_string());
        }
        self.tasks.insert(
            request.runtime_task_id.clone(),
            RuntimeTaskStatus {
                state: RuntimeTaskState::Running,
                exit_code: None,
            },
        );
        Ok(())
    }

    fn inspect(&self, task: &str) -> Option<RuntimeTaskStatus> {
        self.tasks.get(task).copied()
    }

    fn stop(&mut self, task: &str, mode: RuntimeStopMode) {
        self.stops.push((task.to_string(), mode));
        let ignored = match mode {
            RuntimeStopMode::Graceful => self.ignore_graceful_stops,
            RuntimeStopMode::Force => self.ignore_force_stops,
        };
        if !ignored {
            if let Some(status) = self.tasks.get_mut(task) {
                status.state = RuntimeTaskState::Stopped;
                status.exit_code = Some(0);
            }
        }
    }

    fn cleanup(&mut self, task: &str, mode: RuntimeCleanupMode) -> Result<(), String> {
        self.cleanups.push((task.to_string(), mode));
        if self.cleanup_failures > 0 {
            self.cleanup_failures -= 1;
            return Err("fake runtime cleanup failed".to_string());
        }
        self.tasks.remove(task);
        if mode == RuntimeCleanupMode::RemoveLogs {
            self.logs.remove(task);
        }
        Ok(())
    }

    fn set_status(&mut self, task: &str, state: RuntimeTaskState, exit_code: Option<u32>) {
        let status = self.tasks.get_mut(task).unwrap();
        status.state = state;
        status.exit_code = exit_code;
    }

    fn force_stops(&self) -> usize {
        self.stops.iter().filter(|(_, mode)| *mode == RuntimeStopMode::Force).count()
    }

    fn removing_cleanups(&self) -> usize {
        self.cleanups.iter().filter(|(_, mode)| *mode == RuntimeCleanupMode::RemoveLogs).count()
    }
}

struct Agent {
    manager: WorkloadManager,
    runtime: FakeRuntime,
    now: i64,
}

impl Agent {
    fn new() -> Self {
        Agent {
            manager: WorkloadManager::new(WorkloadStore::new()),
            runtime: FakeRuntime::default(),
            now: 1_000,
        }
    }

    fn timing(&self) -> Timing {
        self.manager.timing
    }

    fn tick(&mut self, secs: i64) {
        self.now += secs;
    }

    fn submit(&mut self, kind: WorkloadKind, image: &str, id: &str) -> Workload {
        self.manager.submit_at(kind, image, id.to_string(), self.now).unwrap()
    }

    fn get(&self, id: &str) -> Workload {
        self.manager.get(id).unwrap()
    }

    fn latest_run(&self, id: &str) -> WorkloadRun {
        self.manager.store.latest_run(id).unwrap()
    }

    fn logs(&self, id: &str) -> String {
        match self.manager.get_logs(id).unwrap() {
            Some(task) => self.runtime.logs.get(&task).cloned().unwrap_or_default(),
            None => String::new(),
        }
    }

    fn watch_once(&mut self) {
        let now = self.now;
        let timing = self.timing();
        for workload in self.manager.store.list_watchable() {
            let task = match watch_begin(&mut self.manager.store, &workload, now) {
                Ok(Some(task)) => task,
                _ => continue,
            };
            let status = self.runtime.inspect(&task);
            watch_after_inspect(&mut self.manager.store, &workload.id, &task, status, &timing, now)
                .unwrap();
        }
    }

    fn reconcile_once(&mut self) {
        for workload in self.manager.store.list_for_reconcile() {
            self.reconcile_workload(&workload);
        }
        let now = self.now;
        let (runs, mode) = runs_to_prune(&self.manager.store, now);
        for run in runs {
            let outcome = self.cleanup_run(&run, mode);
            prune_after_cleanup(&mut self.manager.store, &run, outcome);
        }
    }

    fn reconcile_workload(&mut self, workload: &Workload) {
        let now = self.now;
        let timing = self.timing();
        match plan_reconcile(workload) {
            ReconcilePlan::EscalateStop => self.escalate_stop(workload),
            ReconcilePlan::Start => self.start_workload(workload),
            ReconcilePlan::RecoverCreating => self.recover_creating(workload),
            ReconcilePlan::CleanupThenRestart => {
                let outcome = self.cleanup_latest_run(workload);
                if restart_after_cleanup(&mut self.manager.store, workload, outcome, &timing, now) {
                    self.start_workload(workload);
                }
            }
            ReconcilePlan::Cleanup => {
                self.cleanup_latest_run(workload);
            }
            ReconcilePlan::ResetBackoff => {
                reset_restart_backoff_after_stable_run(&mut self.manager.store, workload, &timing, now)
            }
            ReconcilePlan::MarkStopped => mark_stopped(&mut self.manager.store, workload, now),
            ReconcilePlan::EnterStopping => {
                if let Ok(Some(task)) = enter_stopping(&mut self.manager.store, workload, now) {
                    self.runtime.stop(&task, RuntimeStopMode::Graceful);
                }
            }
            ReconcilePlan::CleanupThenDelete => {
                let outcome = self.cleanup_latest_run(workload);
                delete_after_cleanup(&mut self.manager.store, workload, outcome, now);
            }
            ReconcilePlan::Nothing => {}
        }
    }

    fn start_workload(&mut self, workload: &Workload) {
        let now = self.now;
        let task = runtime_task_id(workload);
        let request = match start_begin(&mut self.manager.store, workload, &task, now) {
            Ok(Some(request)) => request,
            _ => return,
        };
        match self.runtime.start(&request) {
            Ok(()) => start_succeeded(&mut self.manager.store, &workload.id, now),
            Err(error) => {
                if let Some((run, mode)) = start_failure_cleanup(&self.manager.store, &workload.id) {
                    self.cleanup_run(&run, mode);
                }
                start_failed(&mut self.manager.store, &workload.id, &error, now);
            }
        }
    }

    fn recover_creating(&mut self, workload: &Workload) {
        let now = self.now;
        let Some(run) = recover_begin(&mut self.manager.store, &workload.id, now) else {
            return;
        };
        let status = self.runtime.inspect(&run.runtime_task_id);
        if let Some(mode) = recover_after_inspect(&mut self.manager.store, &workload.id, status, now) {
            let outcome = self.cleanup_run(&run, mode);
            recover_after_cleanup(&mut self.manager.store, &workload.id, &run, outcome, now);
        }
    }

    fn escalate_stop(&mut self, workload: &Workload) {
        let now = self.now;
        let timing = self.timing();
        let Some(task) = escalate_begin(&mut self.manager.store, workload, now) else {
            return;
        };
        let status = self.runtime.inspect(&task);
        if let Some(mode) =
            escalate_after_inspect(&mut self.manager.store, workload, status, &timing, now)
        {
            self.runtime.stop(&task, mode);
        }
    }

    fn cleanup_latest_run(&mut self, workload: &Workload) -> CleanupOutcome {
        match begin_cleanup_latest_run(&self.manager.store, &workload.id, self.now) {
            CleanupStart::Finished(outcome) => outcome,
            CleanupStart::Needed(run, mode) => self.cleanup_run(&run, mode),
        }
    }

    fn cleanup_run(&mut self, run: &WorkloadRun, mode: RuntimeCleanupMode) -> CleanupOutcome {
        let result = self.runtime.cleanup(&run.runtime_task_id, mode);
        record_cleanup_result(&mut self.manager.store, run, result, self.now)
    }

    /// Submits a workload and brings it to `Running`.
    fn submit_and_run(&mut self, kind: WorkloadKind, image: &str, id: &str) -> Workload {
        self.submit(kind, image, id);
        self.reconcile_once();
        assert_eq!(self.get(id).actual_state, ActualState::Starting);
        self.tick(1);
        self.watch_once();
        let running = self.get(id);
        assert_eq!(running.actual_state, ActualState::Running);
        running
    }
}

#[test]
fn once_job_runs_to_stopped_and_keeps_its_output() {
    let mut agent = Agent::new();
    let running = agent.submit_and_run(WorkloadKind::Once, "hello-world", "job-1");
    let task = running.runtime_task_id.clone().unwrap();
    assert!(task.starts_with("billow-job1-"));
    agent.runtime.set_status(&task, RuntimeTaskState::Stopped, Some(0));
    agent.watch_once();
    let stopped = agent.get("job-1");
    assert_eq!(stopped.actual_state, ActualState::Stopped);
    assert_eq!(stopped.exit_code, Some(0));
    assert_eq!(agent.logs("job-1"), "Hello from Docker!\n");
}

#[test]
fn service_starts_on_the_first_reconcile() {
    let mut agent = Agent::new();
    agent.submit_and_run(WorkloadKind::Service, "nginx", "svc-1");
    assert_eq!(agent.runtime.starts.len(), 1);
    let run = agent.latest_run("svc-1");
    assert_eq!(run.cleanup_state, CleanupState::Pending);
    assert_eq!(run.cleanup_attempts, 0);
}

#[test]
fn graceful_stop_reaches_stopped_and_releases_the_run() {
    let mut agent = Agent::new();
    agent.submit_and_run(WorkloadKind::Service, "nginx", "svc-1");
    agent.manager.stop_at("svc-1", agent.now).unwrap();
    agent.reconcile_once();
    assert_eq!(agent.get("svc-1").actual_state, ActualState::Stopping);
    agent.watch_once();
    let stopped = agent.get("svc-1");
    assert_eq!(stopped.actual_state, ActualState::Stopped);
    assert_eq!(stopped.desired_state, DesiredState::Stopped);
    assert_eq!(agent.runtime.stops.len(), 1);
    assert_eq!(agent.runtime.force_stops(), 0);

    agent.reconcile_once();
    assert_eq!(agent.latest_run("svc-1").cleanup_state, CleanupState::Done);
    assert_eq!(agent.runtime.cleanups.len(), 1);
    assert_eq!(agent.runtime.cleanups[0].1, RuntimeCleanupMode::PreserveLogs);
    assert_eq!(agent.logs("svc-1"), "start worker process\n");
}

#[test]
fn stop_requested_by_the_user_drops_the_exit_code() {
    let mut agent = Agent::new();
    let running = agent.submit_and_run(WorkloadKind::Service, "nginx", "svc-1");
    let task = running.runtime_task_id.unwrap();
    agent.manager.stop_at("svc-1", agent.now).unwrap();
    agent.runtime.set_status(&task, RuntimeTaskState::Stopped, Some(137));
    agent.watch_once();
    let stopped = agent.get("svc-1");
    assert_eq!(stopped.actual_state, ActualState::Stopped);
    assert_eq!(stopped.exit_code, None);
    assert_eq!(stopped.error, None);
}

#[test]
fn failed_service_backs_off_then_restarts_under_a_new_task() {
    let mut agent = Agent::new();
    let running = agent.submit_and_run(WorkloadKind::Service, "nginx", "svc-1");
    let first = running.runtime_task_id.unwrap();

    agent.runtime.set_status(&first, RuntimeTaskState::Stopped, Some(1));
    agent.watch_once();
    assert_eq!(agent.get("svc-1").actual_state, ActualState::Failed);

    agent.reconcile_once();
    let backing_off = agent.get("svc-1");
    assert_eq!(backing_off.actual_state, ActualState::Failed);
    assert_eq!(backing_off.restart_attempts, 1);
    assert_eq!(backing_off.restart_not_before_unix_secs, Some(agent.now + 5));
    assert_eq!(agent.runtime.starts.len(), 1);
    assert_eq!(agent.latest_run("svc-1").cleanup_state, CleanupState::Done);

    agent.tick(4);
    agent.reconcile_once();
    assert_eq!(agent.get("svc-1").actual_state, ActualState::Failed);
    assert_eq!(agent.runtime.starts.len(), 1);

    agent.tick(1);
    agent.reconcile_once();
    let restarted = agent.get("svc-1");
    assert_eq!(restarted.actual_state, ActualState::Starting);
    assert_ne!(restarted.runtime_task_id.as_deref(), Some(first.as_str()));
    assert_eq!(agent.runtime.starts.len(), 2);
    // The first run was released with its logs kept, then pruned for good.
    assert_eq!(agent.runtime.cleanups.len(), 2);
    assert_eq!(agent.runtime.removing_cleanups(), 1);
    assert!(!agent.runtime.logs.contains_key(&first));

    agent.tick(1);
    agent.watch_once();
    assert_eq!(agent.get("svc-1").actual_state, ActualState::Running);
}

#[test]
fn stop_escalates_to_force_after_the_grace_period() {
    let mut agent = Agent::new();
    agent.runtime.ignore_graceful_stops = true;
    agent.submit_and_run(WorkloadKind::Service, "nginx", "svc-1");
    agent.manager.stop_at("svc-1", agent.now).unwrap();
    agent.reconcile_once();
    assert_eq!(agent.get("svc-1").actual_state, ActualState::Stopping);
    assert_eq!(agent.runtime.stops.len(), 1);

    // Within the grace period the stop is only repeated.
    agent.tick(1);
    agent.reconcile_once();
    assert_eq!(agent.runtime.stops.len(), 2);
    assert_eq!(agent.runtime.force_stops(), 0);

    agent.tick(agent.timing().stop_grace_secs);
    agent.reconcile_once();
    assert_eq!(agent.runtime.force_stops(), 1);
    agent.watch_once();
    assert_eq!(agent.get("svc-1").actual_state, ActualState::Stopped);
}

#[test]
fn deleted_workload_is_tombstoned_and_keeps_its_logs() {
    let mut agent = Agent::new();
    agent.submit_and_run(WorkloadKind::Service, "nginx", "svc-1");
    agent.manager.delete_at("svc-1", agent.now).unwrap();
    agent.reconcile_once();
    agent.watch_once();
    agent.reconcile_once();
    let deleted = agent.get("svc-1");
    assert_eq!(deleted.actual_state, ActualState::Deleted);
    assert_eq!(deleted.desired_state, DesiredState::Deleted);
    assert_eq!(agent.logs("svc-1"), "start worker process\n");
    assert!(agent.manager.store.list_for_reconcile().is_empty());
}

#[test]
fn cleanup_failure_of_a_finished_job_is_retried_later() {
    let mut agent = Agent::new();
    let running = agent.submit_and_run(WorkloadKind::Once, "hello-world", "job-1");
    agent.runtime.set_status(&running.runtime_task_id.unwrap(), RuntimeTaskState::Stopped, Some(0));
    agent.watch_once();

    agent.runtime.cleanup_failures = 1;
    agent.reconcile_once();
    let stopped = agent.get("job-1");
    assert_eq!(stopped.actual_state, ActualState::Stopped);
    assert_eq!(stopped.exit_code, Some(0));
    let run = agent.latest_run("job-1");
    assert_eq!(run.cleanup_state, CleanupState::Pending);
    assert_eq!(run.cleanup_attempts, 1);
    assert_eq!(run.last_cleanup_error.as_deref(), Some("fake runtime cleanup failed"));

    agent.tick(1);
    agent.reconcile_once();
    let run = agent.latest_run("job-1");
    assert_eq!(run.cleanup_state, CleanupState::Done);
    assert_eq!(agent.runtime.cleanups.len(), 2);
}

#[test]
fn start_during_stopping_finishes_the_stop_first() {
    let mut agent = Agent::new();
    agent.runtime.ignore_graceful_stops = true;
    let running = agent.submit_and_run(WorkloadKind::Service, "nginx", "svc-1");
    let first = running.runtime_task_id.unwrap();

    agent.manager.stop_at("svc-1", agent.now).unwrap();
    agent.reconcile_once();
    agent.manager.start_at("svc-1", agent.now).unwrap();
    agent.reconcile_once();
    let draining = agent.get("svc-1");
    assert_eq!(draining.desired_state, DesiredState::Running);
    assert_eq!(draining.actual_state, ActualState::Stopping);
    assert_eq!(draining.runtime_task_id.as_deref(), Some(first.as_str()));

    agent.runtime.set_status(&first, RuntimeTaskState::Stopped, Some(0));
    agent.watch_once();
    assert_eq!(agent.get("svc-1").actual_state, ActualState::Stopped);

    agent.reconcile_once();
    let backing_off = agent.get("svc-1");
    assert_eq!(backing_off.actual_state, ActualState::Stopped);
    assert_eq!(backing_off.restart_attempts, 1);

    agent.tick(5);
    agent.reconcile_once();
    let restarting = agent.get("svc-1");
    assert_eq!(restarting.actual_state, ActualState::Starting);
    assert_ne!(restarting.runtime_task_id.as_deref(), Some(first.as_str()));
    agent.tick(1);
    agent.watch_once();
    assert_eq!(agent.get("svc-1").actual_state, ActualState::Running);
}

#[test]
fn unkillable_task_stays_stopping_with_an_error() {
    let mut agent = Agent::new();
    agent.runtime.ignore_graceful_stops = true;
    agent.runtime.ignore_force_stops = true;
    agent.submit_and_run(WorkloadKind::Service, "nginx", "svc-1");
    agent.manager.delete_at("svc-1", agent.now).unwrap();
    agent.reconcile_once();
    assert_eq!(agent.get("svc-1").actual_state, ActualState::Stopping);

    let timing = agent.timing();
    agent.tick(timing.stop_grace_secs + timing.stop_kill_secs);
    agent.reconcile_once();
    let stuck = agent.get("svc-1");
    assert_eq!(stuck.actual_state, ActualState::Stopping);
    assert_eq!(
        stuck.error.as_deref(),
        Some("stop escalation stuck: runtime task still alive after SIGKILL")
    );
    assert!(agent.runtime.force_stops() >= 1);
    agent.watch_once();
    assert_eq!(agent.get("svc-1").actual_state, ActualState::Stopping);
}

#[test]
fn delete_waits_until_the_run_is_released() {
    let mut agent = Agent::new();
    let running = agent.submit_and_run(WorkloadKind::Service, "nginx", "svc-1");
    agent.manager.delete_at("svc-1", agent.now).unwrap();
    agent.reconcile_once();
    agent.watch_once();
    assert_eq!(agent.get("svc-1").actual_state, ActualState::Stopped);

    agent.runtime.cleanup_failures = 1;
    agent.reconcile_once();
    assert_eq!(agent.get("svc-1").actual_state, ActualState::Stopped);
    assert_eq!(agent.latest_run("svc-1").cleanup_state, CleanupState::Pending);

    agent.tick(30);
    agent.reconcile_once();
    assert_eq!(agent.get("svc-1").actual_state, ActualState::Deleted);
    assert!(!agent.runtime.tasks.contains_key(&running.runtime_task_id.unwrap()));
}

#[test]
fn failed_release_blocks_restart_until_a_retry_succeeds() {
    let mut agent = Agent::new();
    let running = agent.submit_and_run(WorkloadKind::Service, "nginx", "svc-1");
    let first = running.runtime_task_id.unwrap();
    agent.runtime.set_status(&first, RuntimeTaskState::Stopped, Some(1));
    agent.watch_once();

    agent.runtime.cleanup_failures = 1;
    agent.reconcile_once();
    assert_eq!(agent.latest_run("svc-1").cleanup_state, CleanupState::Pending);
    assert_eq!(agent.get("svc-1").restart_attempts, 1);

    // The backoff is over, but the run is not released yet: no restart.
    agent.tick(5);
    agent.runtime.cleanup_failures = 1;
    agent.reconcile_once();
    assert_eq!(agent.get("svc-1").actual_state, ActualState::Failed);
    assert_eq!(agent.runtime.starts.len(), 1);
    assert_eq!(agent.latest_run("svc-1").cleanup_attempts, 2);

    agent.tick(60);
    agent.reconcile_once();
    assert_eq!(agent.get("svc-1").actual_state, ActualState::Starting);
    assert_eq!(agent.runtime.starts.len(), 2);
}

#[test]
fn start_failure_fails_the_service_and_keeps_its_logs() {
    let mut agent = Agent::new();
    agent.runtime.start_failures = 1;
    agent.submit(WorkloadKind::Service, "nginx", "svc-1");
    agent.reconcile_once();
    let failed = agent.get("svc-1");
    assert_eq!(failed.actual_state, ActualState::Failed);
    assert_eq!(failed.error.as_deref(), Some("fake runtime start failed"));
    assert_eq!(agent.runtime.cleanups.len(), 1);
    assert_eq!(agent.runtime.cleanups[0].1, RuntimeCleanupMode::PreserveLogs);
    assert_eq!(agent.logs("svc-1"), "start worker process\n");

    agent.reconcile_once();
    assert_eq!(agent.get("svc-1").restart_attempts, 1);
    agent.tick(5);
    agent.reconcile_once();
    assert_eq!(agent.get("svc-1").actual_state, ActualState::Starting);
    assert_eq!(agent.runtime.starts.len(), 2);
}

#[test]
fn creating_without_a_task_goes_back_to_accepted() {
    let mut agent = Agent::new();
    let w = agent.submit(WorkloadKind::Service, "nginx", "svc-1");
    // A start that was interrupted before the runtime heard of it.
    let request = start_begin(&mut agent.manager.store, &w, "billow-svc1-lost", agent.now)
        .unwrap()
        .unwrap();
    assert_eq!(request.runtime_task_id, "billow-svc1-lost");
    assert_eq!(agent.get("svc-1").actual_state, ActualState::Creating);

    agent.reconcile_once();
    assert_eq!(agent.get("svc-1").actual_state, ActualState::Accepted);
    assert!(agent.manager.store.latest_run("svc-1").is_none());
    assert_eq!(agent.runtime.removing_cleanups(), 1);

    agent.reconcile_once();
    assert_eq!(agent.get("svc-1").actual_state, ActualState::Starting);
}

#[test]
fn creating_with_a_live_task_is_adopted() {
    let mut agent = Agent::new();
    let w = agent.submit(WorkloadKind::Service, "nginx", "svc-1");
    let request = start_begin(&mut agent.manager.store, &w, "billow-svc1-live", agent.now)
        .unwrap()
        .unwrap();
    agent.runtime.start(&request).unwrap();

    agent.reconcile_once();
    let adopted = agent.get("svc-1");
    assert_eq!(adopted.actual_state, ActualState::Starting);
    assert_eq!(adopted.runtime_task_id.as_deref(), Some("billow-svc1-live"));
    assert_eq!(agent.runtime.starts.len(), 1);
    assert!(agent.runtime.cleanups.is_empty());
}

#[test]
fn created_but_unstarted_task_is_cleaned_up_and_retried() {
    let mut agent = Agent::new();
    let w = agent.submit(WorkloadKind::Service, "nginx", "svc-1");
    let request = start_begin(&mut agent.manager.store, &w, "billow-svc1-idle", agent.now)
        .unwrap()
        .unwrap();
    agent.runtime.start(&request).unwrap();
    agent.runtime.set_status("billow-svc1-idle", RuntimeTaskState::Created, None);

    agent.reconcile_once();
    assert_eq!(agent.get("svc-1").actual_state, ActualState::Accepted);
    assert!(!agent.runtime.tasks.contains_key("billow-svc1-idle"));

    agent.reconcile_once();
    let retried = agent.get("svc-1");
    assert_eq!(retried.actual_state, ActualState::Starting);
    assert_ne!(retried.runtime_task_id.as_deref(), Some("billow-svc1-idle"));
}

#[test]
fn stop_before_the_first_watch_does_not_revive_the_task() {
    let mut agent = Agent::new();
    agent.submit(WorkloadKind::Service, "nginx", "svc-1");
    agent.reconcile_once();
    assert_eq!(agent.get("svc-1").actual_state, ActualState::Starting);
    agent.manager.stop_at("svc-1", agent.now).unwrap();
    agent.reconcile_once();
    assert_eq!(agent.get("svc-1").actual_state, ActualState::Stopping);
    agent.watch_once();
    assert_eq!(agent.get("svc-1").actual_state, ActualState::Stopped);
    agent.reconcile_once();
    agent.watch_once();
    assert_eq!(agent.get("svc-1").actual_state, ActualState::Stopped);
    assert_eq!(agent.runtime.starts.len(), 1);
}

#[test]
fn unknown_task_state_changes_nothing_at_first() {
    let mut agent = Agent::new();
    let running = agent.submit_and_run(WorkloadKind::Service, "nginx", "svc-1");
    agent.runtime.set_status(&running.runtime_task_id.unwrap(), RuntimeTaskState::Unknown, None);
    agent.tick(1);
    agent.watch_once();
    let unknown = agent.get("svc-1");
    assert_eq!(unknown.actual_state, ActualState::Running);
    assert_eq!(unknown.runtime_unknown_since_unix_secs, Some(agent.now));
    assert_eq!(unknown.error, None);
}

#[test]
fn persistent_unknown_state_fails_and_restarts_after_backoff() {
    let mut agent = Agent::new();
    let running = agent.submit_and_run(WorkloadKind::Service, "nginx", "svc-1");
    let first = running.runtime_task_id.unwrap();
    agent.runtime.set_status(&first, RuntimeTaskState::Unknown, None);
    agent.watch_once();
    agent.tick(agent.timing().runtime_unknown_grace_secs);
    agent.watch_once();
    let failed = agent.get("svc-1");
    assert_eq!(failed.actual_state, ActualState::Failed);
    assert_eq!(
        failed.error.as_deref(),
        Some("runtime task state remained unknown for 30 seconds")
    );

    agent.reconcile_once();
    assert_eq!(agent.get("svc-1").restart_attempts, 1);
    agent.tick(5);
    agent.reconcile_once();
    let restarted = agent.get("svc-1");
    assert_eq!(restarted.actual_state, ActualState::Starting);
    assert_ne!(restarted.runtime_task_id.as_deref(), Some(first.as_str()));
}

#[test]
fn stable_run_forgets_the_restart_backoff() {
    let mut agent = Agent::new();
    let running = agent.submit_and_run(WorkloadKind::Service, "nginx", "svc-1");
    agent.runtime.set_status(&running.runtime_task_id.unwrap(), RuntimeTaskState::Stopped, Some(1));
    agent.watch_once();
    agent.reconcile_once();
    agent.tick(5);
    agent.reconcile_once();
    agent.tick(1);
    agent.watch_once();
    let again = agent.get("svc-1");
    assert_eq!(again.actual_state, ActualState::Running);
    assert_eq!(again.restart_attempts, 1);

    agent.tick(agent.timing().restart_backoff_reset_secs - 1);
    agent.reconcile_once();
    assert_eq!(agent.get("svc-1").restart_attempts, 1);
    agent.tick(1);
    agent.reconcile_once();
    let reset = agent.get("svc-1");
    assert_eq!(reset.restart_attempts, 0);
    assert_eq!(reset.restart_not_before_unix_secs, None);
}

#[test]
fn user_start_forgets_the_restart_backoff() {
    let mut agent = Agent::new();
    let running = agent.submit_and_run(WorkloadKind::Service, "nginx", "svc-1");
    agent.runtime.set_status(&running.runtime_task_id.unwrap(), RuntimeTaskState::Stopped, Some(1));
    agent.watch_once();
    agent.reconcile_once();
    assert_eq!(agent.get("svc-1").restart_attempts, 1);
    let started = agent.manager.start_at("svc-1", agent.now).unwrap();
    assert_eq!(started.restart_attempts, 0);
    assert_eq!(started.restart_not_before_unix_secs, None);
}

#[test]
fn lost_task_of_a_job_fails_it_with_a_clear_error() {
    let mut agent = Agent::new();
    let running = agent.submit_and_run(WorkloadKind::Once, "hello-world", "job-1");
    agent.runtime.tasks.remove(&running.runtime_task_id.unwrap());
    agent.watch_once();
    let failed = agent.get("job-1");
    assert_eq!(failed.actual_state, ActualState::Failed);
    assert!(failed.error.is_some());
    agent.reconcile_once();
    assert_eq!(agent.get("job-1").actual_state, ActualState::Failed);
    assert_eq!(agent.runtime.starts.len(), 1);
}

#[test]
fn lost_task_of_a_service_is_restarted() {
    let mut agent = Agent::new();
    let running = agent.submit_and_run(WorkloadKind::Service, "nginx", "svc-1");
    agent.runtime.tasks.remove(&running.runtime_task_id.unwrap());
    agent.watch_once();
    assert_eq!(agent.get("svc-1").actual_state, ActualState::Failed);
    agent.reconcile_once();
    agent.tick(5);
    agent.reconcile_once();
    assert_eq!(agent.get("svc-1").actual_state, ActualState::Starting);
    assert_eq!(agent.runtime.starts.len(), 2);
}

#[test]
fn workload_asked_to_stop_before_starting_is_stopped() {
    let mut agent = Agent::new();
    agent.submit(WorkloadKind::Service, "nginx", "svc-1");
    agent.manager.stop_at("svc-1", agent.now).unwrap();
    agent.reconcile_once();
    assert_eq!(agent.get("svc-1").actual_state, ActualState::Stopped);
    assert!(agent.runtime.starts.is_empty());
    agent.reconcile_once();
    assert_eq!(agent.get("svc-1").actual_state, ActualState::Stopped);
}
