use billow::manager::{new_workload_id, runtime_task_id, Timing, WorkloadManager};
use billow::store::{db_path, ensure_changed, WorkloadStore};
use billow::workload::{ActualState, DesiredState, ErrorCode, Workload, WorkloadKind};

fn manager() -> WorkloadManager {
    WorkloadManager::new(WorkloadStore::new())
}

#[test]
fn missing_workload_returns_not_found() {
    let manager = manager();

    let error = manager.get("missing").unwrap_err();

    assert_eq!(error.code(), ErrorCode::NotFound);
    assert_eq!(error.message(), "workload missing not found");
}

#[test]
fn runtime_task_id_fits_linux_hostname_limit() {
    let workload = Workload {
        id: new_workload_id(),
        kind: WorkloadKind::Service,
        image: String::from("nginx"),
        desired_state: DesiredState::Running,
        actual_state: ActualState::Accepted,
        runtime_task_id: None,
        container_ip: None,
        exit_code: None,
        error: None,
        stopping_since_unix_secs: None,
        runtime_unknown_since_unix_secs: None,
        restart_attempts: 0,
        restart_not_before_unix_secs: None,
        running_since_unix_secs: None,
        created_at_unix_secs: 0,
        updated_at_unix_secs: 0,
    };

    let id = runtime_task_id(&workload);
    assert!(id.len() <= 63);
}

#[test]
fn runtime_task_id_keeps_twenty_id_characters() {
    let workload = Workload {
        id: "0b0a6f4e-3c59-4bd4-a3e2-8d7f3f0d1c22".to_string(),
        kind: WorkloadKind::Service,
        image: String::from("nginx"),
        desired_state: DesiredState::Running,
        actual_state: ActualState::Accepted,
        runtime_task_id: None,
        container_ip: None,
        exit_code: None,
        error: None,
        stopping_since_unix_secs: None,
        runtime_unknown_since_unix_secs: None,
        restart_attempts: 0,
        restart_not_before_unix_secs: None,
        running_since_unix_secs: None,
        created_at_unix_secs: 0,
        updated_at_unix_secs: 0,
    };

    let id = runtime_task_id(&workload);
    assert!(id.len() <= 63);
    assert!(id.starts_with("billow-0b0a6f4e3c594bd4a3e2-"));
}

#[test]
fn workload_ids_are_hyphenated_v4_uuids() {
    for _ in 0..20 {
        let id = new_workload_id();
        assert_eq!(id.len(), 36);
        for (i, c) in id.chars().enumerate() {
            if [8, 13, 18, 23].contains(&i) {
                assert_eq!(c, '-');
            } else {
                assert!(c.is_ascii_digit() || ('a'..='f').contains(&c));
            }
        }
        assert_eq!(id.chars().nth(14), Some('4'));
    }
    assert_ne!(new_workload_id(), new_workload_id());
}

#[test]
fn set_desired_does_not_override_delete() {
    let mut manager = manager();
    let workload = manager.submit_at(WorkloadKind::Service, "nginx", "w-1".to_string(), 100).unwrap();
    manager.delete_at(&workload.id, 101).unwrap();

    let applied = manager
        .store
        .set_desired_unless_deleted(&workload.id, DesiredState::Running, 102);

    assert!(!applied);
    assert_eq!(manager.get(&workload.id).unwrap().desired_state, DesiredState::Deleted);
}

#[test]
fn begin_start_requires_desired_running() {
    let mut manager = manager();
    let workload = manager.submit_at(WorkloadKind::Service, "nginx", "w-1".to_string(), 100).unwrap();
    manager.stop_at(&workload.id, 101).unwrap();

    let started = manager
        .store
        .begin_start(&workload.id, ActualState::Accepted, "billow-should-not-start", 102)
        .unwrap();

    assert!(!started);
    assert!(manager.store.latest_run(&workload.id).is_none());
    assert_eq!(manager.get(&workload.id).unwrap().actual_state, ActualState::Accepted);
}

#[test]
fn set_stopped_outcome_uses_current_desired_state() {
    let mut manager = manager();
    let workload = manager.submit_at(WorkloadKind::Service, "nginx", "w-1".to_string(), 100).unwrap();
    assert!(manager.store.begin_start(&workload.id, ActualState::Accepted, "billow-task", 101).unwrap());
    assert!(manager.store.compare_and_set_actual(
        &workload.id,
        ActualState::Creating,
        ActualState::Running,
        None,
        None,
        102
    ));
    manager.stop_at(&workload.id, 103).unwrap();

    let applied = manager.store.set_stopped_outcome(&workload.id, ActualState::Running, Some(1), 104);

    assert!(applied);
    let stopped = manager.get(&workload.id).unwrap();
    assert_eq!(stopped.actual_state, ActualState::Stopped);
    assert!(stopped.error.is_none());
}

#[test]
fn start_once_is_rejected_but_stop_is_allowed() {
    let mut manager = manager();
    let workload = manager.submit_at(WorkloadKind::Once, "hello-world", "w-1".to_string(), 100).unwrap();

    let start_error = manager.start_at(&workload.id, 101).unwrap_err();
    let stopped = manager.stop_at(&workload.id, 102).unwrap();

    assert_eq!(start_error.code(), ErrorCode::FailedPrecondition);
    assert_eq!(stopped.desired_state, DesiredState::Stopped);
}

#[test]
fn start_and_stop_reject_delete_in_progress() {
    let mut manager = manager();
    let workload = manager.submit_at(WorkloadKind::Service, "nginx", "w-1".to_string(), 100).unwrap();
    manager.delete_at(&workload.id, 101).unwrap();

    let start_error = manager.start_at(&workload.id, 102).unwrap_err();
    let stop_error = manager.stop_at(&workload.id, 103).unwrap_err();

    assert_eq!(start_error.code(), ErrorCode::FailedPrecondition);
    assert_eq!(stop_error.code(), ErrorCode::FailedPrecondition);
    assert_eq!(manager.get(&workload.id).unwrap().desired_state, DesiredState::Deleted);
}

#[test]
fn submitted_workloads_start_out_accepted() {
    let mut manager = manager().with_timing(Timing::defaults());
    let workload = manager.submit_at(WorkloadKind::Service, "nginx", "w-9".to_string(), 7).unwrap();
    assert_eq!(workload.actual_state, ActualState::Accepted);
    assert_eq!(workload.desired_state, DesiredState::Running);
    assert_eq!(workload.created_at_unix_secs, 7);
    assert_eq!(manager.get("w-9").unwrap().image, "nginx");
    assert_eq!(
        manager.submit_at(WorkloadKind::Service, "   ", "w-10".to_string(), 7).unwrap_err().code(),
        ErrorCode::InvalidArgument
    );
}

#[test]
fn storage_helpers() {
    assert_eq!(db_path(None), "/var/lib/billow/workloads.sqlite3");
    assert_eq!(db_path(Some("")), "/var/lib/billow/workloads.sqlite3");
    assert_eq!(db_path(Some("/tmp/w.db")), "/tmp/w.db");
    assert!(ensure_changed("w", 1).is_ok());
    let e = ensure_changed("w", 0).unwrap_err();
    assert_eq!(e.code(), ErrorCode::NotFound);
    assert_eq!(e.message(), "workload w not found");
}

#[test]
fn saved_workload_reads_back_without_a_task() {
    let mut store = WorkloadStore::new();
    let workload = Workload {
        id: "w-1".to_string(),
        kind: WorkloadKind::Once,
        image: String::from("hello-world"),
        desired_state: DesiredState::Running,
        actual_state: ActualState::Accepted,
        runtime_task_id: Some("billow-w1-stale".to_string()),
        container_ip: None,
        exit_code: None,
        error: None,
        stopping_since_unix_secs: None,
        runtime_unknown_since_unix_secs: None,
        restart_attempts: 0,
        restart_not_before_unix_secs: None,
        running_since_unix_secs: None,
        created_at_unix_secs: 7,
        updated_at_unix_secs: 7,
    };
    store.save(&workload).unwrap();
    let read = store.get("w-1").unwrap();
    assert_eq!(read.id, "w-1");
    assert_eq!(read.image, "hello-world");
    assert_eq!(read.kind, WorkloadKind::Once);
    assert_eq!(read.created_at_unix_secs, 7);
    assert_eq!(read.runtime_task_id, None);
    assert!(store.get("w-2").is_err());

    let again = store.save(&workload).unwrap_err();
    assert_eq!(again.code(), ErrorCode::Internal);
    assert_eq!(again.message(), "UNIQUE constraint failed: workloads.id");
}
