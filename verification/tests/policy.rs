use billow::workload::{ActualState, DesiredState, ErrorCode, WorkloadKind};

#[test]
fn policy_defines_start_permissions() {
    let once = WorkloadKind::Once.policy();
    let service = WorkloadKind::Service.policy();

    let start_error = once.ensure_start_allowed().unwrap_err();
    assert_eq!(start_error.code(), ErrorCode::FailedPrecondition);
    assert_eq!(
        start_error.message(),
        "operation is only valid for service workloads"
    );

    service.ensure_start_allowed().unwrap();
}

#[test]
fn policy_defines_restart_decisions() {
    assert!(
        !WorkloadKind::Once
            .policy()
            .should_restart_after_terminal(ActualState::Stopped)
    );
    assert!(
        !WorkloadKind::Once
            .policy()
            .should_restart_after_terminal(ActualState::Failed)
    );
    assert!(
        WorkloadKind::Service
            .policy()
            .should_restart_after_terminal(ActualState::Stopped)
    );
    assert!(
        WorkloadKind::Service
            .policy()
            .should_restart_after_terminal(ActualState::Failed)
    );
    assert!(
        !WorkloadKind::Service
            .policy()
            .should_restart_after_terminal(ActualState::Running)
    );
}

#[test]
fn policy_defines_missing_task_errors() {
    assert_eq!(
        WorkloadKind::Once.policy().missing_runtime_task_error(),
        "runtime task disappeared before its exit was observed"
    );
    assert_eq!(
        WorkloadKind::Service.policy().missing_runtime_task_error(),
        "runtime task not found"
    );
}

#[test]
fn both_kinds_start_out_desired_running() {
    assert_eq!(
        WorkloadKind::Once.policy().initial_desired_state(),
        DesiredState::Running
    );
    assert_eq!(
        WorkloadKind::Service.policy().initial_desired_state(),
        DesiredState::Running
    );
}
