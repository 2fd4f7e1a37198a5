//! How the agent lays out a run for containerd: the names and paths of its
//! snapshot, task directory and stdio files, what a failed run leaves to
//! clean up, and how much of a log is handed back.

use vstd::prelude::*;
use crate::install::{join_path, path_join};
use crate::text::{joined, join_strings, views};
use crate::workload::WorkloadError;

verus! {

pub const NAMESPACE: &'static str = "billow";
pub const SNAPSHOTTER: &'static str = "overlayfs";
pub const RUNTIME_NAME: &'static str = "io.containerd.runc.v2";
pub const DEFAULT_CONTAINERD_SOCKET: &'static str = "/run/billow/containerd/containerd.sock";
pub const DEFAULT_CONTAINERD_SHIM: &'static str = "/usr/local/lib/billow/bin/containerd-shim-runc-v2";
pub const DEFAULT_CRUN: &'static str = "/usr/local/lib/billow/bin/crun";
pub const DEFAULT_TASK_DIR: &'static str = "/run/billow/tasks";
pub const NETWORK_METADATA_FILE: &'static str = "network.json";

/// The key of a run's root filesystem snapshot: `<task id>-rootfs`.
pub fn snapshot_key(runtime_task_id: &str) -> (k: String)
    ensures
        k@ == runtime_task_id@ + "-rootfs"@,
{
    let mut k = String::from_str(runtime_task_id);
    k.append("-rootfs");
    k
}

/// The directory of a run, under the task directory.
pub fn run_dir(task_dir: &str, runtime_task_id: &str) -> (d: String)
    ensures
        d@ == path_join(task_dir@, runtime_task_id@),
{
    join_path(task_dir, runtime_task_id)
}

/// Where a run's network metadata is kept.
pub fn metadata_path(run_dir: &str) -> (p: String)
    ensures
        p@ == path_join(run_dir@, NETWORK_METADATA_FILE@),
{
    join_path(run_dir, NETWORK_METADATA_FILE)
}

/// A path as containerd is given it.
pub fn path_string(path: &str) -> (s: String)
    ensures
        s@ == path@,
{
    String::from_str(path)
}

/// The files a task's standard streams go to, in its run directory.
pub struct StdioPaths {
    pub stdin: String,
    pub stdout: String,
    pub stderr: String,
}

impl StdioPaths {
    pub fn for_run_dir(run_dir: &str) -> (p: StdioPaths)
        ensures
            p.stdin@ == path_join(run_dir@, "stdin"@),
            p.stdout@ == path_join(run_dir@, "stdout"@),
            p.stderr@ == path_join(run_dir@, "stderr"@),
    {
        StdioPaths {
            stdin: join_path(run_dir, "stdin"),
            stdout: join_path(run_dir, "stdout"),
            stderr: join_path(run_dir, "stderr"),
        }
    }
}

/// The text of a runtime failure.
pub fn runtime_error(message: &str) -> (e: String)
    ensures
        e@ == message@,
{
    String::from_str(message)
}

/// A runtime failure as the workload API reports it: an internal error.
pub fn workload_runtime_error(error: &str) -> (e: WorkloadError)
    ensures
        e.code == crate::workload::ErrorCode::Internal,
        e.message@ == error@,
{
    WorkloadError::internal(String::from_str(error))
}

/// The error of a start that failed: the failure, and the cleanup's where
/// that failed too.
pub fn start_failure(error: &str, cleanup_error: Option<&str>) -> (e: WorkloadError)
    ensures
        e.code == crate::workload::ErrorCode::Internal,
        e.message@ == match cleanup_error {
            None => error@,
            Some(c) => error@ + "; cleanup also failed: "@ + c@,
        },
{
    match cleanup_error {
        None => workload_runtime_error(error),
        Some(c) => {
            let mut m = String::from_str(error);
            m.append("; cleanup also failed: ");
            m.append(c);
            WorkloadError::internal(m)
        },
    }
}

/// At most `limit` bytes of a log: `read` holds up to `limit + 1` bytes of
/// the file, and the log counts as truncated where it held more than
/// `limit`.
pub fn bounded_log(read: Vec<u8>, limit: usize) -> (r: (Vec<u8>, bool))
    ensures
        r.1 == (read@.len() > limit),
        r.0@ == if read@.len() > limit {
            read@.take(limit as int)
        } else {
            read@
        },
{
    let mut bytes = read;
    let truncated = bytes.len() > limit;
    if truncated {
        bytes.truncate(limit);
    }
    (bytes, truncated)
}

/// What a run has created in containerd, and so what its cleanup undoes.
pub struct RunCleanup {
    pub task_id: String,
    pub snapshot_key: String,
    pub run_dir: String,
    pub task_created: bool,
    pub container_created: bool,
    pub snapshot_created: bool,
}

/// One thing a cleanup undoes.
#[derive(Clone, Copy, Debug, PartialEq, Eq, Structural)]
pub enum CleanupStep {
    DeleteTask,
    DeleteContainer,
    RemoveSnapshot,
    RemoveRunDir,
}

/// What a cleanup does, in order: the task, the container and the snapshot
/// where they were created, then the run directory where asked.
pub open spec fn cleanup_plan(c: RunCleanup, remove_run_dir: bool) -> Seq<CleanupStep> {
    (if c.task_created {
        seq![CleanupStep::DeleteTask]
    } else {
        Seq::empty()
    }) + (if c.container_created {
        seq![CleanupStep::DeleteContainer]
    } else {
        Seq::empty()
    }) + (if c.snapshot_created {
        seq![CleanupStep::RemoveSnapshot]
    } else {
        Seq::empty()
    }) + (if remove_run_dir {
        seq![CleanupStep::RemoveRunDir]
    } else {
        Seq::empty()
    })
}

impl RunCleanup {
    /// A run that has created nothing yet.
    pub fn new(task_id: String, snapshot_key: String, run_dir: String) -> (c: RunCleanup)
        ensures
            c.task_id == task_id,
            c.snapshot_key == snapshot_key,
            c.run_dir == run_dir,
            !c.task_created && !c.container_created && !c.snapshot_created,
    {
        RunCleanup {
            task_id,
            snapshot_key,
            run_dir,
            task_created: false,
            container_created: false,
            snapshot_created: false,
        }
    }

    /// A run found in place: everything is taken to exist.
    pub fn existing(task_id: String, snapshot_key: String, run_dir: String) -> (c: RunCleanup)
        ensures
            c.task_id == task_id,
            c.snapshot_key == snapshot_key,
            c.run_dir == run_dir,
            c.task_created && c.container_created && c.snapshot_created,
    {
        RunCleanup {
            task_id,
            snapshot_key,
            run_dir,
            task_created: true,
            container_created: true,
            snapshot_created: true,
        }
    }

    pub fn mark_task_created(&mut self)
        ensures
            *final(self) == (RunCleanup { task_created: true, ..*old(self) }),
    {
        self.task_created = true;
    }

    pub fn mark_container_created(&mut self)
        ensures
            *final(self) == (RunCleanup { container_created: true, ..*old(self) }),
    {
        self.container_created = true;
    }

    pub fn mark_snapshot_created(&mut self)
        ensures
            *final(self) == (RunCleanup { snapshot_created: true, ..*old(self) }),
    {
        self.snapshot_created = true;
    }

    /// The steps of the cleanup, in order.
    pub fn steps(&self, remove_run_dir: bool) -> (s: Vec<CleanupStep>)
        ensures
            s@ == cleanup_plan(*self, remove_run_dir),
    {
        let mut s: Vec<CleanupStep> = Vec::new();
        if self.task_created {
            s.push(CleanupStep::DeleteTask);
        }
        if self.container_created {
            s.push(CleanupStep::DeleteContainer);
        }
        if self.snapshot_created {
            s.push(CleanupStep::RemoveSnapshot);
        }
        if remove_run_dir {
            s.push(CleanupStep::RemoveRunDir);
        }
        assert(s@ =~= cleanup_plan(*self, remove_run_dir));
        s
    }

    pub open spec fn step_message(&self, step: CleanupStep, error: Seq<char>) -> Seq<char> {
        match step {
            CleanupStep::DeleteTask => "delete task "@ + self.task_id@ + " failed: "@ + error,
            CleanupStep::DeleteContainer => "delete container "@ + self.task_id@ + " failed: "@
                + error,
            CleanupStep::RemoveSnapshot => "remove snapshot "@ + self.snapshot_key@
                + " failed: "@ + error,
            CleanupStep::RemoveRunDir => "remove task directory "@ + self.run_dir@ + " failed: "@
                + error,
        }
    }

    /// The report of a step that failed with `error`.
    pub fn step_error(&self, step: CleanupStep, error: &str) -> (m: String)
        ensures
            m@ == self.step_message(step, error@),
    {
        let mut m = match step {
            CleanupStep::DeleteTask => {
                let mut m = String::from_str("delete task ");
                m.append(self.task_id.as_str());
                m
            },
            CleanupStep::DeleteContainer => {
                let mut m = String::from_str("delete container ");
                m.append(self.task_id.as_str());
                m
            },
            CleanupStep::RemoveSnapshot => {
                let mut m = String::from_str("remove snapshot ");
                m.append(self.snapshot_key.as_str());
                m
            },
            CleanupStep::RemoveRunDir => {
                let mut m = String::from_str("remove task directory ");
                m.append(self.run_dir.as_str());
                m
            },
        };
        m.append(" failed: ");
        m.append(error);
        m
    }
}

/// What a cleanup comes to: done where no step failed (a step that found its
/// object already gone does not count), else the failures joined by `; `.
pub fn cleanup_outcome(errors: &Vec<String>) -> (r: Result<(), String>)
    ensures
        errors@.len() == 0 ==> r is Ok,
        errors@.len() > 0 ==> r is Err && r->Err_0@ == joined(views(errors@), "; "@),
{
    if errors.len() == 0 {
        Ok(())
    } else {
        Err(join_strings(errors, "; "))
    }
}


/// A Linux capability a task may hold.
#[derive(Clone, Copy, Debug, PartialEq, Eq, Structural)]
pub enum Capability {
    AuditWrite,
    Chown,
    DacOverride,
    Fowner,
    Fsetid,
    Kill,
    Mknod,
    NetBindService,
    NetRaw,
    Setfcap,
    Setgid,
    Setpcap,
    Setuid,
    SysChroot,
}

/// The capability sets of a task's process.
pub struct LinuxCapabilities {
    pub bounding: Vec<Capability>,
    pub effective: Vec<Capability>,
    pub inheritable: Vec<Capability>,
    pub permitted: Vec<Capability>,
    pub ambient: Vec<Capability>,
}

/// The capabilities a container gets by default.
pub open spec fn default_capability_set() -> Seq<Capability> {
    seq![
        Capability::AuditWrite,
        Capability::Chown,
        Capability::DacOverride,
        Capability::Fowner,
        Capability::Fsetid,
        Capability::Kill,
        Capability::Mknod,
        Capability::NetBindService,
        Capability::NetRaw,
        Capability::Setfcap,
        Capability::Setgid,
        Capability::Setpcap,
        Capability::Setuid,
        Capability::SysChroot,
    ]
}

fn default_capability_list() -> (v: Vec<Capability>)
    ensures
        v@ == default_capability_set(),
{
    let v = vec![
        Capability::AuditWrite,
        Capability::Chown,
        Capability::DacOverride,
        Capability::Fowner,
        Capability::Fsetid,
        Capability::Kill,
        Capability::Mknod,
        Capability::NetBindService,
        Capability::NetRaw,
        Capability::Setfcap,
        Capability::Setgid,
        Capability::Setpcap,
        Capability::Setuid,
        Capability::SysChroot,
    ];
    assert(v@ =~= default_capability_set());
    v
}

/// The default set as the bounding, effective, inheritable and permitted
/// sets, and no ambient capabilities.
pub fn default_capabilities() -> (c: LinuxCapabilities)
    ensures
        c.bounding@ == default_capability_set(),
        c.effective@ == default_capability_set(),
        c.inheritable@ == default_capability_set(),
        c.permitted@ == default_capability_set(),
        c.ambient@.len() == 0,
{
    LinuxCapabilities {
        bounding: default_capability_list(),
        effective: default_capability_list(),
        inheritable: default_capability_list(),
        permitted: default_capability_list(),
        ambient: Vec::new(),
    }
}


/// Where the agent finds containerd and what it runs tasks with.
pub struct RuntimeConfig {
    pub socket_path: String,
    pub shim_path: String,
    pub crun_path: String,
    pub task_dir: String,
}

impl RuntimeConfig {
    /// The configuration from the values of `BILLOW_CONTAINERD_SOCKET`,
    /// `BILLOW_CONTAINERD_SHIM`, `BILLOW_CRUN` and `BILLOW_TASK_DIR`, each a
    /// default where unset or empty.
    pub fn from_env_values(
        socket_path: Option<&str>,
        shim_path: Option<&str>,
        crun_path: Option<&str>,
        task_dir: Option<&str>,
    ) -> (c: RuntimeConfig)
        ensures
            c.socket_path@ == crate::install::dir_or(socket_path, DEFAULT_CONTAINERD_SOCKET@),
            c.shim_path@ == crate::install::dir_or(shim_path, DEFAULT_CONTAINERD_SHIM@),
            c.crun_path@ == crate::install::dir_or(crun_path, DEFAULT_CRUN@),
            c.task_dir@ == crate::install::dir_or(task_dir, DEFAULT_TASK_DIR@),
    {
        RuntimeConfig {
            socket_path: crate::manager::env_string_or_default(socket_path, DEFAULT_CONTAINERD_SOCKET),
            shim_path: crate::manager::env_string_or_default(shim_path, DEFAULT_CONTAINERD_SHIM),
            crun_path: crate::manager::env_string_or_default(crun_path, DEFAULT_CRUN),
            task_dir: crate::manager::env_string_or_default(task_dir, DEFAULT_TASK_DIR),
        }
    }

    /// The directory of a run.
    pub fn run_dir(&self, runtime_task_id: &str) -> (d: String)
        ensures
            d@ == path_join(self.task_dir@, runtime_task_id@),
    {
        join_path(self.task_dir.as_str(), runtime_task_id)
    }
}

} // verus!
