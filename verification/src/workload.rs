//! The workload record, its states and the errors of workload operations.

use crate::text::{chars_of, same_chars};
use vstd::prelude::*;

verus! {

/// Whether two strings hold the same characters.
pub fn str_eq(a: &str, b: &str) -> (r: bool)
    ensures
        r == (a@ == b@),
{
    let x = chars_of(a);
    let y = chars_of(b);
    same_chars(&x, &y)
}

/// What a workload is: a run-to-completion job or a long-running service.
#[derive(Clone, Copy, Debug, PartialEq, Eq, Structural)]
pub enum WorkloadKind {
    Once,
    Service,
}

pub open spec fn kind_name(k: WorkloadKind) -> Seq<char> {
    match k {
        WorkloadKind::Once => "once"@,
        WorkloadKind::Service => "service"@,
    }
}

pub open spec fn kind_named(s: Seq<char>) -> Option<WorkloadKind> {
    if s == "once"@ {
        Some(WorkloadKind::Once)
    } else if s == "service"@ {
        Some(WorkloadKind::Service)
    } else {
        None
    }
}

impl WorkloadKind {
    /// The name under which the kind is stored.
    pub fn as_str(self) -> (s: &'static str)
        ensures
            s@ == kind_name(self),
    {
        match self {
            WorkloadKind::Once => "once",
            WorkloadKind::Service => "service",
        }
    }

    /// The kind stored under `value`, if any.
    pub fn from_str(value: &str) -> (r: Option<WorkloadKind>)
        ensures
            r == kind_named(value@),
    {
        if str_eq(value, "once") {
            Some(WorkloadKind::Once)
        } else if str_eq(value, "service") {
            Some(WorkloadKind::Service)
        } else {
            None
        }
    }
}

/// What the user asked for.
#[derive(Clone, Copy, Debug, PartialEq, Eq, Structural)]
pub enum DesiredState {
    Running,
    Stopped,
    Deleted,
}

pub open spec fn desired_name(d: DesiredState) -> Seq<char> {
    match d {
        DesiredState::Running => "running"@,
        DesiredState::Stopped => "stopped"@,
        DesiredState::Deleted => "deleted"@,
    }
}

pub open spec fn desired_named(s: Seq<char>) -> Option<DesiredState> {
    if s == "running"@ {
        Some(DesiredState::Running)
    } else if s == "stopped"@ {
        Some(DesiredState::Stopped)
    } else if s == "deleted"@ {
        Some(DesiredState::Deleted)
    } else {
        None
    }
}

impl DesiredState {
    /// The name under which the state is stored.
    pub fn as_str(self) -> (s: &'static str)
        ensures
            s@ == desired_name(self),
    {
        match self {
            DesiredState::Running => "running",
            DesiredState::Stopped => "stopped",
            DesiredState::Deleted => "deleted",
        }
    }

    /// The state stored under `value`, if any.
    pub fn from_str(value: &str) -> (r: Option<DesiredState>)
        ensures
            r == desired_named(value@),
    {
        if str_eq(value, "running") {
            Some(DesiredState::Running)
        } else if str_eq(value, "stopped") {
            Some(DesiredState::Stopped)
        } else if str_eq(value, "deleted") {
            Some(DesiredState::Deleted)
        } else {
            None
        }
    }
}

/// What the host observed of a workload.
#[derive(Clone, Copy, Debug, PartialEq, Eq, Structural)]
pub enum ActualState {
    Accepted,
    Creating,
    Starting,
    Running,
    Stopping,
    Stopped,
    Failed,
    Deleted,
}

pub open spec fn actual_name(a: ActualState) -> Seq<char> {
    match a {
        ActualState::Accepted => "accepted"@,
        ActualState::Creating => "creating"@,
        ActualState::Starting => "starting"@,
        ActualState::Running => "running"@,
        ActualState::Stopping => "stopping"@,
        ActualState::Stopped => "stopped"@,
        ActualState::Failed => "failed"@,
        ActualState::Deleted => "deleted"@,
    }
}

pub open spec fn actual_named(s: Seq<char>) -> Option<ActualState> {
    if s == "accepted"@ {
        Some(ActualState::Accepted)
    } else if s == "creating"@ {
        Some(ActualState::Creating)
    } else if s == "starting"@ {
        Some(ActualState::Starting)
    } else if s == "running"@ {
        Some(ActualState::Running)
    } else if s == "stopping"@ {
        Some(ActualState::Stopping)
    } else if s == "stopped"@ {
        Some(ActualState::Stopped)
    } else if s == "failed"@ {
        Some(ActualState::Failed)
    } else if s == "deleted"@ {
        Some(ActualState::Deleted)
    } else {
        None
    }
}

impl ActualState {
    /// The name under which the state is stored.
    pub fn as_str(self) -> (s: &'static str)
        ensures
            s@ == actual_name(self),
    {
        match self {
            ActualState::Accepted => "accepted",
            ActualState::Creating => "creating",
            ActualState::Starting => "starting",
            ActualState::Running => "running",
            ActualState::Stopping => "stopping",
            ActualState::Stopped => "stopped",
            ActualState::Failed => "failed",
            ActualState::Deleted => "deleted",
        }
    }

    /// The state stored under `value`, if any.
    pub fn from_str(value: &str) -> (r: Option<ActualState>)
        ensures
            r == actual_named(value@),
    {
        if str_eq(value, "accepted") {
            Some(ActualState::Accepted)
        } else if str_eq(value, "creating") {
            Some(ActualState::Creating)
        } else if str_eq(value, "starting") {
            Some(ActualState::Starting)
        } else if str_eq(value, "running") {
            Some(ActualState::Running)
        } else if str_eq(value, "stopping") {
            Some(ActualState::Stopping)
        } else if str_eq(value, "stopped") {
            Some(ActualState::Stopped)
        } else if str_eq(value, "failed") {
            Some(ActualState::Failed)
        } else if str_eq(value, "deleted") {
            Some(ActualState::Deleted)
        } else {
            None
        }
    }
}

/// Progress of releasing the runtime resources of one run.
#[derive(Clone, Copy, Debug, PartialEq, Eq, Structural)]
pub enum CleanupState {
    Pending,
    Done,
    Failed,
}

pub open spec fn cleanup_name(c: CleanupState) -> Seq<char> {
    match c {
        CleanupState::Pending => "pending"@,
        CleanupState::Done => "done"@,
        CleanupState::Failed => "failed"@,
    }
}

pub open spec fn cleanup_named(s: Seq<char>) -> Option<CleanupState> {
    if s == "pending"@ {
        Some(CleanupState::Pending)
    } else if s == "done"@ {
        Some(CleanupState::Done)
    } else if s == "failed"@ {
        Some(CleanupState::Failed)
    } else {
        None
    }
}

impl CleanupState {
    /// The name under which the state is stored.
    pub fn as_str(self) -> (s: &'static str)
        ensures
            s@ == cleanup_name(self),
    {
        match self {
            CleanupState::Pending => "pending",
            CleanupState::Done => "done",
            CleanupState::Failed => "failed",
        }
    }

    /// The state stored under `value`, if any.
    pub fn from_str(value: &str) -> (r: Option<CleanupState>)
        ensures
            r == cleanup_named(value@),
    {
        if str_eq(value, "pending") {
            Some(CleanupState::Pending)
        } else if str_eq(value, "done") {
            Some(CleanupState::Done)
        } else if str_eq(value, "failed") {
            Some(CleanupState::Failed)
        } else {
            None
        }
    }
}

/// Every kind's stored name reads back as that kind.
pub proof fn lemma_kind_names_round_trip(k: WorkloadKind)
    ensures
        kind_named(kind_name(k)) == Some(k),
{
    reveal_strlit("once");
    reveal_strlit("service");
    assert("once"@.len() == 4);
    assert("service"@.len() == 7);
}

/// Every desired state's stored name reads back as that state.
pub proof fn lemma_desired_names_round_trip(d: DesiredState)
    ensures
        desired_named(desired_name(d)) == Some(d),
{
    reveal_strlit("running");
    reveal_strlit("stopped");
    reveal_strlit("deleted");
    assert("running"@[0] == 'r' && "stopped"@[0] == 's' && "deleted"@[0] == 'd');
}

/// Every actual state's stored name reads back as that state.
pub proof fn lemma_actual_names_round_trip(a: ActualState)
    ensures
        actual_named(actual_name(a)) == Some(a),
{
    reveal_strlit("accepted");
    reveal_strlit("creating");
    reveal_strlit("starting");
    reveal_strlit("running");
    reveal_strlit("stopping");
    reveal_strlit("stopped");
    reveal_strlit("failed");
    reveal_strlit("deleted");
    assert("accepted"@.len() == 8 && "creating"@.len() == 8 && "starting"@.len() == 8);
    assert("stopping"@.len() == 8 && "running"@.len() == 7 && "stopped"@.len() == 7);
    assert("deleted"@.len() == 7 && "failed"@.len() == 6);
    assert("accepted"@[0] == 'a' && "creating"@[0] == 'c' && "starting"@[0] == 's');
    assert("stopping"@[0] == 's' && "starting"@[2] == 'a' && "stopping"@[2] == 'o');
    assert("running"@[0] == 'r' && "stopped"@[0] == 's' && "deleted"@[0] == 'd');
}

/// Every cleanup state's stored name reads back as that state.
pub proof fn lemma_cleanup_names_round_trip(c: CleanupState)
    ensures
        cleanup_named(cleanup_name(c)) == Some(c),
{
    reveal_strlit("pending");
    reveal_strlit("done");
    reveal_strlit("failed");
    assert("pending"@.len() == 7 && "done"@.len() == 4 && "failed"@.len() == 6);
}

/// A stored name names at most one state: reading a name back and storing
/// the result gives the name again.
pub proof fn lemma_names_read_back(s: Seq<char>)
    ensures
        kind_named(s) matches Some(k) ==> kind_name(k) == s,
        desired_named(s) matches Some(d) ==> desired_name(d) == s,
        actual_named(s) matches Some(a) ==> actual_name(a) == s,
        cleanup_named(s) matches Some(c) ==> cleanup_name(c) == s,
{
}


/// The class of a failed workload operation.
#[derive(Clone, Copy, Debug, PartialEq, Eq, Structural)]
pub enum ErrorCode {
    InvalidArgument,
    NotFound,
    FailedPrecondition,
    Internal,
}

/// A failed workload operation: its class and a message for the user.
#[derive(Debug)]
pub struct WorkloadError {
    pub code: ErrorCode,
    pub message: String,
}

impl WorkloadError {
    /// An error of class `code` with `message`.
    pub fn new(code: ErrorCode, message: String) -> (e: WorkloadError)
        ensures
            e.code == code,
            e.message@ == message@,
    {
        WorkloadError { code, message }
    }

    /// The request itself is malformed.
    pub fn invalid_argument(message: String) -> (e: WorkloadError)
        ensures
            e.code == ErrorCode::InvalidArgument,
            e.message@ == message@,
    {
        WorkloadError::new(ErrorCode::InvalidArgument, message)
    }

    /// The workload does not exist.
    pub fn not_found(message: String) -> (e: WorkloadError)
        ensures
            e.code == ErrorCode::NotFound,
            e.message@ == message@,
    {
        WorkloadError::new(ErrorCode::NotFound, message)
    }

    /// The workload is in a state that does not allow the operation.
    pub fn failed_precondition(message: String) -> (e: WorkloadError)
        ensures
            e.code == ErrorCode::FailedPrecondition,
            e.message@ == message@,
    {
        WorkloadError::new(ErrorCode::FailedPrecondition, message)
    }

    /// Something went wrong inside the host.
    pub fn internal(message: String) -> (e: WorkloadError)
        ensures
            e.code == ErrorCode::Internal,
            e.message@ == message@,
    {
        WorkloadError::new(ErrorCode::Internal, message)
    }

    /// The class of the error.
    pub fn code(&self) -> (c: ErrorCode)
        ensures
            c == self.code,
    {
        self.code
    }

    /// The message shown to the user.
    pub fn message(&self) -> (m: String)
        ensures
            m@ == self.message@,
    {
        self.message.clone()
    }
}

pub open spec fn opt_chars(o: Option<String>) -> Option<Seq<char>> {
    match o {
        Some(s) => Some(s@),
        None => None,
    }
}

/// The copy of an optional string.
pub fn clone_opt(o: &Option<String>) -> (r: Option<String>)
    ensures
        opt_chars(r) == opt_chars(*o),
{
    match o {
        Some(s) => Some(s.clone()),
        None => None,
    }
}

/// A workload as the store records it.
#[derive(Debug)]
pub struct Workload {
    pub id: String,
    pub kind: WorkloadKind,
    pub image: String,
    pub desired_state: DesiredState,
    pub actual_state: ActualState,
    pub runtime_task_id: Option<String>,
    pub container_ip: Option<String>,
    pub exit_code: Option<u32>,
    pub error: Option<String>,
    pub stopping_since_unix_secs: Option<i64>,
    pub runtime_unknown_since_unix_secs: Option<i64>,
    pub restart_attempts: i64,
    pub restart_not_before_unix_secs: Option<i64>,
    pub running_since_unix_secs: Option<i64>,
    pub created_at_unix_secs: i64,
    pub updated_at_unix_secs: i64,
}

/// The value of a workload record, strings taken as character sequences.
pub struct WorkloadV {
    pub id: Seq<char>,
    pub kind: WorkloadKind,
    pub image: Seq<char>,
    pub desired_state: DesiredState,
    pub actual_state: ActualState,
    pub runtime_task_id: Option<Seq<char>>,
    pub container_ip: Option<Seq<char>>,
    pub exit_code: Option<u32>,
    pub error: Option<Seq<char>>,
    pub stopping_since_unix_secs: Option<i64>,
    pub runtime_unknown_since_unix_secs: Option<i64>,
    pub restart_attempts: i64,
    pub restart_not_before_unix_secs: Option<i64>,
    pub running_since_unix_secs: Option<i64>,
    pub created_at_unix_secs: i64,
    pub updated_at_unix_secs: i64,
}

impl View for Workload {
    type V = WorkloadV;

    open spec fn view(&self) -> WorkloadV {
        WorkloadV {
            id: self.id@,
            kind: self.kind,
            image: self.image@,
            desired_state: self.desired_state,
            actual_state: self.actual_state,
            runtime_task_id: opt_chars(self.runtime_task_id),
            container_ip: opt_chars(self.container_ip),
            exit_code: self.exit_code,
            error: opt_chars(self.error),
            stopping_since_unix_secs: self.stopping_since_unix_secs,
            runtime_unknown_since_unix_secs: self.runtime_unknown_since_unix_secs,
            restart_attempts: self.restart_attempts,
            restart_not_before_unix_secs: self.restart_not_before_unix_secs,
            running_since_unix_secs: self.running_since_unix_secs,
            created_at_unix_secs: self.created_at_unix_secs,
            updated_at_unix_secs: self.updated_at_unix_secs,
        }
    }
}

impl Workload {
    /// A field-by-field copy.
    pub fn duplicate(&self) -> (w: Workload)
        ensures
            w@ == self@,
    {
        Workload {
            id: self.id.clone(),
            kind: self.kind,
            image: self.image.clone(),
            desired_state: self.desired_state,
            actual_state: self.actual_state,
            runtime_task_id: clone_opt(&self.runtime_task_id),
            container_ip: clone_opt(&self.container_ip),
            exit_code: self.exit_code,
            error: clone_opt(&self.error),
            stopping_since_unix_secs: self.stopping_since_unix_secs,
            runtime_unknown_since_unix_secs: self.runtime_unknown_since_unix_secs,
            restart_attempts: self.restart_attempts,
            restart_not_before_unix_secs: self.restart_not_before_unix_secs,
            running_since_unix_secs: self.running_since_unix_secs,
            created_at_unix_secs: self.created_at_unix_secs,
            updated_at_unix_secs: self.updated_at_unix_secs,
        }
    }
}

/// One attempt to run a workload in the container runtime.
#[derive(Debug)]
pub struct WorkloadRun {
    pub workload_id: String,
    pub runtime_task_id: String,
    pub cleanup_state: CleanupState,
    pub cleanup_attempts: i64,
    pub last_cleanup_error: Option<String>,
    pub updated_at_unix_secs: i64,
}

/// The value of a run record.
pub struct RunV {
    pub workload_id: Seq<char>,
    pub runtime_task_id: Seq<char>,
    pub cleanup_state: CleanupState,
    pub cleanup_attempts: i64,
    pub last_cleanup_error: Option<Seq<char>>,
    pub updated_at_unix_secs: i64,
}

impl View for WorkloadRun {
    type V = RunV;

    open spec fn view(&self) -> RunV {
        RunV {
            workload_id: self.workload_id@,
            runtime_task_id: self.runtime_task_id@,
            cleanup_state: self.cleanup_state,
            cleanup_attempts: self.cleanup_attempts,
            last_cleanup_error: opt_chars(self.last_cleanup_error),
            updated_at_unix_secs: self.updated_at_unix_secs,
        }
    }
}

impl WorkloadRun {
    /// A field-by-field copy.
    pub fn duplicate(&self) -> (r: WorkloadRun)
        ensures
            r@ == self@,
    {
        WorkloadRun {
            workload_id: self.workload_id.clone(),
            runtime_task_id: self.runtime_task_id.clone(),
            cleanup_state: self.cleanup_state,
            cleanup_attempts: self.cleanup_attempts,
            last_cleanup_error: clone_opt(&self.last_cleanup_error),
            updated_at_unix_secs: self.updated_at_unix_secs,
        }
    }
}

} // verus!
