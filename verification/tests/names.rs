use billow::workload::{ActualState, CleanupState, DesiredState, WorkloadKind};

#[test]
fn state_names_round_trip() {
    for kind in [WorkloadKind::Once, WorkloadKind::Service] {
        assert_eq!(WorkloadKind::from_str(kind.as_str()), Some(kind));
    }
    for state in [
        DesiredState::Running,
        DesiredState::Stopped,
        DesiredState::Deleted,
    ] {
        assert_eq!(DesiredState::from_str(state.as_str()), Some(state));
    }
    for state in [
        ActualState::Accepted,
        ActualState::Creating,
        ActualState::Starting,
        ActualState::Running,
        ActualState::Stopping,
        ActualState::Stopped,
        ActualState::Failed,
        ActualState::Deleted,
    ] {
        assert_eq!(ActualState::from_str(state.as_str()), Some(state));
    }
    for state in [
        CleanupState::Pending,
        CleanupState::Done,
        CleanupState::Failed,
    ] {
        assert_eq!(CleanupState::from_str(state.as_str()), Some(state));
    }
}

#[test]
fn unknown_state_names_are_refused() {
    assert_eq!(WorkloadKind::from_str("daemon"), None);
    assert_eq!(DesiredState::from_str("Running"), None);
    assert_eq!(ActualState::from_str(""), None);
    assert_eq!(CleanupState::from_str("finished"), None);
    assert_eq!(ActualState::as_str(ActualState::Stopping), "stopping");
}
