//! The vocabulary between the workload logic and the container runtime:
//! requests, observed task states, stop and cleanup modes.

use vstd::prelude::*;

verus! {

/// What the runtime is asked to start.
#[derive(Debug)]
pub struct RuntimeStartRequest {
    pub workload_id: String,
    pub runtime_task_id: String,
    pub image: String,
}

/// Captured output of a run, each stream cut to a limit.
#[derive(Debug)]
pub struct RuntimeLogs {
    pub stdout: Vec<u8>,
    pub stderr: Vec<u8>,
    pub stdout_truncated: bool,
    pub stderr_truncated: bool,
}

/// How a task is asked to stop.
#[derive(Clone, Copy, Debug, PartialEq, Eq, Structural)]
pub enum RuntimeStopMode {
    Graceful,
    Force,
}

/// Whether the captured output of a run survives its cleanup.
#[derive(Clone, Copy, Debug, PartialEq, Eq, Structural)]
pub enum RuntimeCleanupMode {
    PreserveLogs,
    RemoveLogs,
}

/// The state of a runtime task as the workload logic sees it.
#[derive(Clone, Copy, Debug, PartialEq, Eq, Structural)]
pub enum RuntimeTaskState {
    Created,
    Running,
    Stopped,
    Unknown,
}

/// A runtime task's state, with its exit code once it stopped.
#[derive(Clone, Copy, Debug, PartialEq, Eq, Structural)]
pub struct RuntimeTaskStatus {
    pub state: RuntimeTaskState,
    pub exit_code: Option<u32>,
}

/// The task states that containerd reports.
#[derive(Clone, Copy, Debug, PartialEq, Eq, Structural)]
pub enum ContainerdTaskStatus {
    Unknown,
    Created,
    Running,
    Stopped,
    Paused,
    Pausing,
}

/// The containerd task state with wire number `code`, if there is one.
pub fn containerd_status_from_code(code: i32) -> (s: Option<ContainerdTaskStatus>)
    ensures
        s == match code {
            0 => Some(ContainerdTaskStatus::Unknown),
            1 => Some(ContainerdTaskStatus::Created),
            2 => Some(ContainerdTaskStatus::Running),
            3 => Some(ContainerdTaskStatus::Stopped),
            4 => Some(ContainerdTaskStatus::Paused),
            5 => Some(ContainerdTaskStatus::Pausing),
            _ => None,
        },
{
    match code {
        0 => Some(ContainerdTaskStatus::Unknown),
        1 => Some(ContainerdTaskStatus::Created),
        2 => Some(ContainerdTaskStatus::Running),
        3 => Some(ContainerdTaskStatus::Stopped),
        4 => Some(ContainerdTaskStatus::Paused),
        5 => Some(ContainerdTaskStatus::Pausing),
        _ => None,
    }
}

/// How a containerd task state reads. Tasks are never paused here, so a task
/// paused from outside counts as running and is left alone; the exit status
/// means something only once the task stopped.
pub fn task_status(status: ContainerdTaskStatus, exit_status: u32) -> (s: RuntimeTaskStatus)
    ensures
        s.state == match status {
            ContainerdTaskStatus::Created => RuntimeTaskState::Created,
            ContainerdTaskStatus::Running => RuntimeTaskState::Running,
            ContainerdTaskStatus::Paused => RuntimeTaskState::Running,
            ContainerdTaskStatus::Pausing => RuntimeTaskState::Running,
            ContainerdTaskStatus::Stopped => RuntimeTaskState::Stopped,
            ContainerdTaskStatus::Unknown => RuntimeTaskState::Unknown,
        },
        s.exit_code == if s.state == RuntimeTaskState::Stopped {
            Some(exit_status)
        } else {
            None
        },
{
    let state = match status {
        ContainerdTaskStatus::Created => RuntimeTaskState::Created,
        ContainerdTaskStatus::Running => RuntimeTaskState::Running,
        ContainerdTaskStatus::Paused => RuntimeTaskState::Running,
        ContainerdTaskStatus::Pausing => RuntimeTaskState::Running,
        ContainerdTaskStatus::Stopped => RuntimeTaskState::Stopped,
        ContainerdTaskStatus::Unknown => RuntimeTaskState::Unknown,
    };
    let exit_code = if state == RuntimeTaskState::Stopped {
        Some(exit_status)
    } else {
        None
    };
    RuntimeTaskStatus { state, exit_code }
}

/// The signal a stop sends: SIGTERM for a graceful stop, SIGKILL to force.
pub fn stop_signal(mode: RuntimeStopMode) -> (signal: u32)
    ensures
        signal == match mode {
            RuntimeStopMode::Graceful => 15u32,
            RuntimeStopMode::Force => 9u32,
        },
{
    match mode {
        RuntimeStopMode::Graceful => 15,
        RuntimeStopMode::Force => 9,
    }
}

/// Whether a cleanup in `mode` also removes the run directory and its logs.
pub fn removes_run_dir(mode: RuntimeCleanupMode) -> (b: bool)
    ensures
        b == (mode == RuntimeCleanupMode::RemoveLogs),
{
    mode == RuntimeCleanupMode::RemoveLogs
}

} // verus!
