//! What each workload kind allows: restarts, manual starts and the error
//! reported when its runtime task disappears.

use crate::workload::{ActualState, DesiredState, ErrorCode, WorkloadError, WorkloadKind};
use vstd::prelude::*;

verus! {

/// Whether a workload is started again after it stopped or failed.
#[derive(Clone, Copy, Debug, PartialEq, Eq, Structural)]
pub enum RestartPolicy {
    Never,
    Always,
}

/// The rules that a workload kind follows.
#[derive(Clone, Copy, Debug)]
pub struct WorkloadPolicy {
    pub initial_desired_state: DesiredState,
    pub restart_policy: RestartPolicy,
    pub start_rejection: Option<&'static str>,
    pub missing_runtime_task_error: &'static str,
}

/// The restart policy of a kind: only services restart.
pub open spec fn restart_policy_of(kind: WorkloadKind) -> RestartPolicy {
    match kind {
        WorkloadKind::Once => RestartPolicy::Never,
        WorkloadKind::Service => RestartPolicy::Always,
    }
}

/// Why a manual start of a workload of this kind is refused, if it is.
pub open spec fn start_rejection_of(kind: WorkloadKind) -> Option<Seq<char>> {
    match kind {
        WorkloadKind::Once => Some("operation is only valid for service workloads"@),
        WorkloadKind::Service => None,
    }
}

/// The error recorded when the runtime task of a started workload is gone.
pub open spec fn missing_task_error_of(kind: WorkloadKind) -> Seq<char> {
    match kind {
        WorkloadKind::Once => "runtime task disappeared before its exit was observed"@,
        WorkloadKind::Service => "runtime task not found"@,
    }
}

/// Whether a workload of this kind in `actual` is started again.
pub open spec fn restarts_after(kind: WorkloadKind, actual: ActualState) -> bool {
    (actual == ActualState::Stopped || actual == ActualState::Failed) && restart_policy_of(kind)
        == RestartPolicy::Always
}

impl WorkloadPolicy {
    /// The rules of one kind of workload, as a whole.
    pub open spec fn is_policy_of(self, kind: WorkloadKind) -> bool {
        &&& self.initial_desired_state == DesiredState::Running
        &&& self.restart_policy == restart_policy_of(kind)
        &&& match (self.start_rejection, start_rejection_of(kind)) {
            (Some(r), Some(s)) => r@ == s,
            (None, None) => true,
            _ => false,
        }
        &&& self.missing_runtime_task_error@ == missing_task_error_of(kind)
    }

    /// The state a fresh workload is asked to reach.
    pub fn initial_desired_state(self) -> (d: DesiredState)
        ensures
            d == self.initial_desired_state,
    {
        self.initial_desired_state
    }

    /// Refuses a manual start where the policy does not allow one.
    pub fn ensure_start_allowed(self) -> (r: Result<(), WorkloadError>)
        ensures
            match (r, self.start_rejection) {
                (Ok(()), None) => true,
                (Err(e), Some(m)) => e.code == ErrorCode::FailedPrecondition && e.message@ == m@,
                _ => false,
            },
    {
        match self.start_rejection {
            Some(error) => Err(WorkloadError::failed_precondition(String::from_str(error))),
            None => Ok(()),
        }
    }

    /// Whether a workload in `actual_state` is started again under this policy.
    pub fn should_restart_after_terminal(self, actual_state: ActualState) -> (b: bool)
        ensures
            b == ((actual_state == ActualState::Stopped || actual_state == ActualState::Failed)
                && self.restart_policy == RestartPolicy::Always),
    {
        (actual_state == ActualState::Stopped || actual_state == ActualState::Failed)
            && self.restart_policy == RestartPolicy::Always
    }

    /// The error recorded when the runtime task is gone.
    pub fn missing_runtime_task_error(self) -> (m: &'static str)
        ensures
            m@ == self.missing_runtime_task_error@,
    {
        self.missing_runtime_task_error
    }
}

impl WorkloadKind {
    /// The rules of this kind: once-workloads never restart and cannot be
    /// started by hand; services always restart.
    pub fn policy(self) -> (p: WorkloadPolicy)
        ensures
            p.is_policy_of(self),
    {
        match self {
            WorkloadKind::Once => WorkloadPolicy {
                initial_desired_state: DesiredState::Running,
                restart_policy: RestartPolicy::Never,
                start_rejection: Some("operation is only valid for service workloads"),
                missing_runtime_task_error: "runtime task disappeared before its exit was observed",
            },
            WorkloadKind::Service => WorkloadPolicy {
                initial_desired_state: DesiredState::Running,
                restart_policy: RestartPolicy::Always,
                start_rejection: None,
                missing_runtime_task_error: "runtime task not found",
            },
        }
    }
}

/// Under a kind's policy, a terminal workload is restarted exactly when the
/// kind is a service, and a manual start is refused exactly for once-workloads.
pub proof fn lemma_policy_decisions(p: WorkloadPolicy, kind: WorkloadKind, actual: ActualState)
    requires
        p.is_policy_of(kind),
    ensures
        ((actual == ActualState::Stopped || actual == ActualState::Failed) && p.restart_policy
            == RestartPolicy::Always) == restarts_after(kind, actual),
        restarts_after(kind, actual) ==> kind == WorkloadKind::Service,
        p.start_rejection is Some <==> kind == WorkloadKind::Once,
{
}

} // verus!
