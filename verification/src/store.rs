//! The workload store: workloads and their runs, and the guarded updates that
//! the manager, the watcher and the reconciler make to them. Every update
//! names the state it expects, so that a decision taken on a stale copy of a
//! workload changes nothing.

use crate::text::string_of;
use crate::workload::{
    clone_opt, opt_chars, str_eq, ActualState, CleanupState, DesiredState, RunV, Workload,
    WorkloadError, WorkloadRun, WorkloadV,
};
use vstd::prelude::*;

verus! {

/// Seconds between cleanup retries, per failed attempt.
pub const CLEANUP_RETRY_BACKOFF_SECS: i64 = 30;

/// Longest wait between cleanup retries.
pub const CLEANUP_RETRY_BACKOFF_CAP_SECS: i64 = 300;

/// Index of the last element of `s` that satisfies `p`, or -1.
pub open spec fn last_where<A>(s: Seq<A>, p: spec_fn(A) -> bool) -> int
    decreases s.len(),
{
    if s.len() == 0 {
        -1
    } else if p(s.last()) {
        s.len() - 1
    } else {
        last_where(s.drop_last(), p)
    }
}

pub proof fn lemma_last_where<A>(s: Seq<A>, p: spec_fn(A) -> bool)
    ensures
        -1 <= last_where(s, p) < s.len(),
        forall|j: int| last_where(s, p) < j < s.len() ==> !p(#[trigger] s[j]),
        last_where(s, p) >= 0 ==> p(s[last_where(s, p)]),
    decreases s.len(),
{
    if s.len() > 0 && !p(s.last()) {
        lemma_last_where(s.drop_last(), p);
        assert forall|j: int| last_where(s, p) < j < s.len() implies !p(#[trigger] s[j]) by {
            if j < s.len() - 1 {
                assert(s[j] == s.drop_last()[j]);
            }
        }
    }
}

pub proof fn lemma_last_where_is<A>(s: Seq<A>, p: spec_fn(A) -> bool, i: int)
    requires
        -1 <= i < s.len(),
        forall|j: int| i < j < s.len() ==> !p(#[trigger] s[j]),
        i >= 0 ==> p(s[i]),
    ensures
        last_where(s, p) == i,
{
    lemma_last_where(s, p);
    let f = last_where(s, p);
    if f > i {
        assert(p(s[f]));
    }
    if i > f {
        assert(!p(s[i]));
    }
}

pub open spec fn id_is(id: Seq<char>) -> spec_fn(WorkloadV) -> bool {
    |w: WorkloadV| w.id == id
}

pub open spec fn run_of(id: Seq<char>) -> spec_fn(RunV) -> bool {
    |r: RunV| r.workload_id == id
}

pub open spec fn task_is(task: Seq<char>) -> spec_fn(RunV) -> bool {
    |r: RunV| r.runtime_task_id == task
}

/// Where the workload `id` stands among `rows`, or -1.
pub open spec fn row_index(rows: Seq<WorkloadV>, id: Seq<char>) -> int {
    last_where(rows, id_is(id))
}

/// Where the latest run of workload `id` stands among `runs`, or -1.
pub open spec fn latest_run_index(runs: Seq<RunV>, id: Seq<char>) -> int {
    last_where(runs, run_of(id))
}

/// Where the run of runtime task `task` stands among `runs`, or -1.
pub open spec fn run_index(runs: Seq<RunV>, task: Seq<char>) -> int {
    last_where(runs, task_is(task))
}

/// A stored workload as it is read: with the task of its latest run.
pub open spec fn joined(w: WorkloadV, runs: Seq<RunV>) -> WorkloadV {
    let k = latest_run_index(runs, w.id);
    WorkloadV {
        runtime_task_id: if k >= 0 {
            Some(runs[k].runtime_task_id)
        } else {
            None
        },
        ..w
    }
}

/// A compare-and-set of the actual state, with the bookkeeping that goes
/// with it: the time a stop began is kept while stopping and dropped when a
/// stop ends, the time a run began is kept while running and dropped
/// otherwise, and an unknown runtime state is forgotten.
pub open spec fn set_actual_row(
    w: WorkloadV,
    expected: ActualState,
    actual: ActualState,
    exit_code: Option<u32>,
    error: Option<Seq<char>>,
    now: i64,
) -> WorkloadV {
    WorkloadV {
        actual_state: actual,
        exit_code: exit_code,
        error: error,
        stopping_since_unix_secs: if actual == ActualState::Stopping {
            if w.stopping_since_unix_secs is Some {
                w.stopping_since_unix_secs
            } else {
                Some(now)
            }
        } else if expected == ActualState::Stopping {
            None
        } else {
            w.stopping_since_unix_secs
        },
        runtime_unknown_since_unix_secs: None,
        running_since_unix_secs: if actual == ActualState::Running {
            if w.running_since_unix_secs is Some {
                w.running_since_unix_secs
            } else {
                Some(now)
            }
        } else {
            None
        },
        updated_at_unix_secs: now,
        ..w
    }
}

/// The record of a runtime task that exited: a stop that was asked for, or a
/// zero exit, is `Stopped`; any other exit is `Failed` with its reason.
pub open spec fn stopped_outcome_row(
    w: WorkloadV,
    expected: ActualState,
    exit_code: Option<u32>,
    now: i64,
) -> WorkloadV {
    let asked = w.desired_state == DesiredState::Stopped || w.desired_state
        == DesiredState::Deleted;
    WorkloadV {
        actual_state: if asked || exit_code == Some(0u32) {
            ActualState::Stopped
        } else {
            ActualState::Failed
        },
        exit_code: if asked {
            None
        } else {
            exit_code
        },
        error: if asked || exit_code == Some(0u32) {
            None
        } else if exit_code is Some {
            Some("runtime task exited with non-zero status"@)
        } else {
            Some("runtime task exited without an exit code"@)
        },
        stopping_since_unix_secs: if expected == ActualState::Stopping {
            None
        } else {
            w.stopping_since_unix_secs
        },
        runtime_unknown_since_unix_secs: None,
        running_since_unix_secs: None,
        updated_at_unix_secs: now,
        ..w
    }
}

/// The record of a workload whose new run is being created.
pub open spec fn begin_start_row(w: WorkloadV, now: i64) -> WorkloadV {
    WorkloadV {
        actual_state: ActualState::Creating,
        exit_code: None,
        error: None,
        stopping_since_unix_secs: None,
        runtime_unknown_since_unix_secs: None,
        restart_not_before_unix_secs: None,
        running_since_unix_secs: None,
        updated_at_unix_secs: now,
        ..w
    }
}

/// Whether the cleanup of a run that is no longer the latest may be tried
/// again (or is finished) at `now`.
pub open spec fn prunable_run(r: RunV, now: i64) -> bool {
    r.cleanup_state == CleanupState::Done || now - r.updated_at_unix_secs >= (if 30
        * r.cleanup_attempts <= 300 {
        30 * r.cleanup_attempts
    } else {
        300
    })
}

pub proof fn lemma_last_where_same<A>(s1: Seq<A>, s2: Seq<A>, p: spec_fn(A) -> bool)
    requires
        s1.len() == s2.len(),
        forall|j: int| 0 <= j < s1.len() ==> p(#[trigger] s1[j]) == p(s2[j]),
    ensures
        last_where(s1, p) == last_where(s2, p),
{
    lemma_last_where(s1, p);
    let i = last_where(s1, p);
    assert forall|j: int| i < j < s2.len() implies !p(#[trigger] s2[j]) by {
        assert(!p(s1[j]));
    }
    lemma_last_where_is(s2, p, i);
}

pub proof fn lemma_last_where_push<A>(s: Seq<A>, x: A, p: spec_fn(A) -> bool)
    ensures
        last_where(s.push(x), p) == if p(x) {
            s.len() as int
        } else {
            last_where(s, p)
        },
{
    assert(s.push(x).drop_last() =~= s);
}

/// Replacing a row by one with the same id moves no workload.
pub proof fn lemma_row_index_update(rows: Seq<WorkloadV>, i: int, w: WorkloadV)
    requires
        0 <= i < rows.len(),
        w.id == rows[i].id,
    ensures
        forall|x: Seq<char>| #[trigger] row_index(rows.update(i, w), x) == row_index(rows, x),
{
    assert forall|x: Seq<char>| #[trigger] row_index(rows.update(i, w), x) == row_index(rows, x) by {
        assert forall|j: int| 0 <= j < rows.len() implies id_is(x)(#[trigger] rows.update(i, w)[j])
            == id_is(x)(rows[j]) by {}
        lemma_last_where_same(rows.update(i, w), rows, id_is(x));
    }
}

/// The text of the error for a workload that is not stored.
pub open spec fn not_found_message(id: Seq<char>) -> Seq<char> {
    "workload "@ + id + " not found"@
}

/// `workload <id> not found`.
pub fn not_found_error(id: &str) -> (e: WorkloadError)
    ensures
        e.code == crate::workload::ErrorCode::NotFound,
        e.message@ == not_found_message(id@),
{
    let mut m = String::from_str("workload ");
    m.append(id);
    m.append(" not found");
    WorkloadError::not_found(m)
}

pub open spec fn opt_str(o: Option<&str>) -> Option<Seq<char>> {
    match o {
        Some(s) => Some(s@),
        None => None,
    }
}

fn own_opt(o: Option<&str>) -> (r: Option<String>)
    ensures
        opt_chars(r) == opt_str(o),
{
    match o {
        Some(s) => Some(String::from_str(s)),
        None => None,
    }
}

/// The values of a list of workloads.
pub open spec fn workload_views(v: Seq<Workload>) -> Seq<WorkloadV> {
    v.map_values(|w: Workload| w@)
}

/// The values of a list of runs.
pub open spec fn run_views(v: Seq<WorkloadRun>) -> Seq<RunV> {
    v.map_values(|r: WorkloadRun| r@)
}

/// Workloads the reconciler looks at: all but those already deleted.
pub open spec fn reconcilable(w: WorkloadV) -> bool {
    w.actual_state != ActualState::Deleted
}

/// States in which a workload has a runtime task worth watching.
pub open spec fn watchable_state(a: ActualState) -> bool {
    a == ActualState::Starting || a == ActualState::Running || a == ActualState::Stopping
}

pub open spec fn watchable(w: WorkloadV) -> bool {
    watchable_state(w.actual_state)
}

pub open spec fn reconcilable_pred() -> spec_fn(WorkloadV) -> bool {
    |w: WorkloadV| reconcilable(w)
}

pub open spec fn watchable_pred() -> spec_fn(WorkloadV) -> bool {
    |w: WorkloadV| watchable(w)
}

/// Runs whose resources may be released for good at `now`: every run but
/// the latest of its workload, once finished or once its retry delay is over.
pub open spec fn prunable_in(runs: Seq<RunV>, now: i64) -> spec_fn(RunV) -> bool {
    |r: RunV|
        latest_run_index(runs, r.workload_id) != run_index(runs, r.runtime_task_id)
            && prunable_run(r, now)
}

/// The rows after a compare-and-set of the actual state of workload `id`.
pub open spec fn cas_rows(
    rows: Seq<WorkloadV>,
    id: Seq<char>,
    expected: ActualState,
    actual: ActualState,
    exit_code: Option<u32>,
    error: Option<Seq<char>>,
    now: i64,
) -> Seq<WorkloadV> {
    let i = row_index(rows, id);
    if i >= 0 && rows[i].actual_state == expected {
        rows.update(i, set_actual_row(rows[i], expected, actual, exit_code, error, now))
    } else {
        rows
    }
}

/// The rows after recording the exit of the task of workload `id`.
pub open spec fn stopped_outcome_rows(
    rows: Seq<WorkloadV>,
    id: Seq<char>,
    expected: ActualState,
    exit_code: Option<u32>,
    now: i64,
) -> Seq<WorkloadV> {
    let i = row_index(rows, id);
    if i >= 0 && rows[i].actual_state == expected {
        rows.update(i, stopped_outcome_row(rows[i], expected, exit_code, now))
    } else {
        rows
    }
}

/// The rows after noting that the runtime state of workload `id` is unknown.
pub open spec fn unknown_rows(
    rows: Seq<WorkloadV>,
    id: Seq<char>,
    expected: ActualState,
    since: i64,
) -> Seq<WorkloadV> {
    let i = row_index(rows, id);
    let w = rows[i];
    if i >= 0 && w.actual_state == expected {
        rows.update(
            i,
            if w.runtime_unknown_since_unix_secs is Some {
                w
            } else {
                WorkloadV {
                    runtime_unknown_since_unix_secs: Some(since),
                    updated_at_unix_secs: since,
                    ..w
                }
            },
        )
    } else {
        rows
    }
}

/// The rows after scheduling the next restart of workload `id`.
pub open spec fn backoff_rows(
    rows: Seq<WorkloadV>,
    id: Seq<char>,
    expected: ActualState,
    attempts: i64,
    not_before: i64,
    now: i64,
) -> Seq<WorkloadV> {
    let i = row_index(rows, id);
    if i >= 0 && rows[i].actual_state == expected && rows[i].desired_state
        == DesiredState::Running {
        rows.update(
            i,
            WorkloadV {
                restart_attempts: attempts,
                restart_not_before_unix_secs: Some(not_before),
                updated_at_unix_secs: now,
                ..rows[i]
            },
        )
    } else {
        rows
    }
}

/// The rows after forgetting the restart backoff of workload `id`.
pub open spec fn clear_backoff_rows(rows: Seq<WorkloadV>, id: Seq<char>, now: i64) -> Seq<
    WorkloadV,
> {
    let i = row_index(rows, id);
    if i >= 0 {
        rows.update(
            i,
            WorkloadV {
                restart_attempts: 0,
                restart_not_before_unix_secs: None,
                updated_at_unix_secs: now,
                ..rows[i]
            },
        )
    } else {
        rows
    }
}

/// The runs after the cleanup of task `task` finished.
pub open spec fn cleanup_done_runs(runs: Seq<RunV>, task: Seq<char>, now: i64) -> Seq<RunV> {
    let k = run_index(runs, task);
    if k >= 0 {
        runs.update(
            k,
            RunV {
                cleanup_state: CleanupState::Done,
                last_cleanup_error: None,
                updated_at_unix_secs: now,
                ..runs[k]
            },
        )
    } else {
        runs
    }
}

/// The runs after a failed cleanup of task `task`.
pub open spec fn cleanup_failure_runs(
    runs: Seq<RunV>,
    task: Seq<char>,
    state: CleanupState,
    attempts: i64,
    error: Seq<char>,
    now: i64,
) -> Seq<RunV> {
    let k = run_index(runs, task);
    if k >= 0 {
        runs.update(
            k,
            RunV {
                cleanup_state: state,
                cleanup_attempts: attempts,
                last_cleanup_error: Some(error),
                updated_at_unix_secs: now,
                ..runs[k]
            },
        )
    } else {
        runs
    }
}

/// The runs without the run of task `task`.
pub open spec fn delete_run_runs(runs: Seq<RunV>, task: Seq<char>) -> Seq<RunV> {
    let k = run_index(runs, task);
    if k >= 0 {
        runs.remove(k)
    } else {
        runs
    }
}

/// Workloads and runs held in memory.
pub struct WorkloadStore {
    rows: Vec<Workload>,
    runs: Vec<WorkloadRun>,
}

impl WorkloadStore {
    /// The stored workloads, in the order they were saved.
    pub closed spec fn rows(&self) -> Seq<WorkloadV> {
        self.rows@.map_values(|w: Workload| w@)
    }

    /// The runs, oldest first.
    pub closed spec fn runs(&self) -> Seq<RunV> {
        self.runs@.map_values(|r: WorkloadRun| r@)
    }

    /// Ids and task ids are unique, stored rows carry no task (it is read from
    /// the latest run), and every run belongs to a stored workload.
    pub open spec fn wf(&self) -> bool {
        &&& forall|i: int, j: int|
            0 <= i < self.rows().len() && 0 <= j < self.rows().len() && i != j ==> (
            #[trigger] self.rows()[i]).id != (#[trigger] self.rows()[j]).id
        &&& forall|i: int, j: int|
            0 <= i < self.runs().len() && 0 <= j < self.runs().len() && i != j ==> (
            #[trigger] self.runs()[i]).runtime_task_id != (
            #[trigger] self.runs()[j]).runtime_task_id
        &&& forall|i: int|
            0 <= i < self.rows().len() ==> (#[trigger] self.rows()[i]).runtime_task_id is None
        &&& forall|k: int|
            0 <= k < self.runs().len() ==> row_index(
                self.rows(),
                (#[trigger] self.runs()[k]).workload_id,
            ) >= 0
    }

    /// The workload `id` as it is read, if it is stored.
    pub open spec fn read(&self, id: Seq<char>) -> Option<WorkloadV> {
        let i = row_index(self.rows(), id);
        if i >= 0 {
            Some(joined(self.rows()[i], self.runs()))
        } else {
            None
        }
    }

    /// An empty store.
    pub fn new() -> (s: WorkloadStore)
        ensures
            s.wf(),
            s.rows() == Seq::<WorkloadV>::empty(),
            s.runs() == Seq::<RunV>::empty(),
    {
        let s = WorkloadStore { rows: Vec::new(), runs: Vec::new() };
        assert(s.rows() =~= Seq::<WorkloadV>::empty());
        assert(s.runs() =~= Seq::<RunV>::empty());
        s
    }

    fn find_row(&self, id: &str) -> (r: Option<usize>)
        ensures
            match r {
                Some(i) => i < self.rows@.len() && i == row_index(self.rows(), id@),
                None => row_index(self.rows(), id@) == -1,
            },
    {
        let mut i: usize = self.rows.len();
        while i > 0 && !str_eq(self.rows[i - 1].id.as_str(), id)
            invariant
                i <= self.rows@.len(),
                forall|j: int| i <= j < self.rows().len() ==> !id_is(id@)(#[trigger] self.rows()[j]),
            decreases i,
        {
            i = i - 1;
        }
        proof {
            lemma_last_where_is(self.rows(), id_is(id@), i - 1);
        }
        if i == 0 {
            None
        } else {
            Some(i - 1)
        }
    }

    fn find_latest_run(&self, id: &str) -> (r: Option<usize>)
        ensures
            match r {
                Some(k) => k < self.runs@.len() && k == latest_run_index(self.runs(), id@),
                None => latest_run_index(self.runs(), id@) == -1,
            },
    {
        let mut i: usize = self.runs.len();
        while i > 0 && !str_eq(self.runs[i - 1].workload_id.as_str(), id)
            invariant
                i <= self.runs@.len(),
                forall|j: int|
                    i <= j < self.runs().len() ==> !run_of(id@)(#[trigger] self.runs()[j]),
            decreases i,
        {
            i = i - 1;
        }
        proof {
            lemma_last_where_is(self.runs(), run_of(id@), i - 1);
        }
        if i == 0 {
            None
        } else {
            Some(i - 1)
        }
    }

    fn find_run(&self, task: &str) -> (r: Option<usize>)
        ensures
            match r {
                Some(k) => k < self.runs@.len() && k == run_index(self.runs(), task@),
                None => run_index(self.runs(), task@) == -1,
            },
    {
        let mut i: usize = self.runs.len();
        while i > 0 && !str_eq(self.runs[i - 1].runtime_task_id.as_str(), task)
            invariant
                i <= self.runs@.len(),
                forall|j: int|
                    i <= j < self.runs().len() ==> !task_is(task@)(#[trigger] self.runs()[j]),
            decreases i,
        {
            i = i - 1;
        }
        proof {
            lemma_last_where_is(self.runs(), task_is(task@), i - 1);
        }
        if i == 0 {
            None
        } else {
            Some(i - 1)
        }
    }

    /// All stored workloads as they are read, in the order they were saved.
    pub open spec fn read_all(&self) -> Seq<WorkloadV> {
        let runs = self.runs();
        self.rows().map_values(|w: WorkloadV| joined(w, runs))
    }

    /// Replaces stored row `i` by `w`, which keeps its id.
    fn replace_row(&mut self, i: usize, w: Workload)
        requires
            old(self).wf(),
            i < old(self).rows@.len(),
            w@.id == old(self).rows()[i as int].id,
            w@.runtime_task_id is None,
        ensures
            final(self).wf(),
            final(self).rows() == old(self).rows().update(i as int, w@),
            final(self).runs() == old(self).runs(),
            forall|x: Seq<char>| row_index(final(self).rows(), x) == row_index(old(self).rows(), x),
    {
        let ghost before = self.rows();
        let ghost wv = w@;
        self.rows.set(i, w);
        proof {
            assert(self.rows() =~= before.update(i as int, wv));
            let after = self.rows();
            assert forall|x: Seq<char>| row_index(after, x) == row_index(before, x) by {
                assert forall|j: int| 0 <= j < after.len() implies id_is(x)(#[trigger] after[j])
                    == id_is(x)(before[j]) by {}
                lemma_last_where_same(after, before, id_is(x));
            }
        }
    }

    /// Replaces run `k` by `r`, which keeps its workload and task.
    fn replace_run(&mut self, k: usize, r: WorkloadRun)
        requires
            old(self).wf(),
            k < old(self).runs@.len(),
            r@.workload_id == old(self).runs()[k as int].workload_id,
            r@.runtime_task_id == old(self).runs()[k as int].runtime_task_id,
        ensures
            final(self).wf(),
            final(self).runs() == old(self).runs().update(k as int, r@),
            final(self).rows() == old(self).rows(),
    {
        let ghost before = self.runs();
        let ghost rv = r@;
        self.runs.set(k, r);
        proof {
            assert(self.runs() =~= before.update(k as int, rv));
        }
    }

    /// Saves a new workload. A workload with the same id must not be stored
    /// already.
    pub fn save(&mut self, workload: &Workload) -> (r: Result<(), WorkloadError>)
        requires
            old(self).wf(),
        ensures
            final(self).wf(),
            final(self).runs() == old(self).runs(),
            match r {
                Ok(()) => row_index(old(self).rows(), workload@.id) == -1 && final(self).rows()
                    == old(self).rows().push(WorkloadV { runtime_task_id: None, ..workload@ }),
                Err(e) => row_index(old(self).rows(), workload@.id) >= 0 && final(self).rows()
                    == old(self).rows() && e.code == crate::workload::ErrorCode::Internal
                    && e.message@ == "UNIQUE constraint failed: workloads.id"@,
            },
    {
        if self.find_row(workload.id.as_str()).is_some() {
            return Err(WorkloadError::internal(String::from_str("UNIQUE constraint failed: workloads.id")));
        }
        let mut w = workload.duplicate();
        w.runtime_task_id = None;
        let ghost before = self.rows();
        let ghost wv = w@;
        self.rows.push(w);
        proof {
            let after = self.rows();
            assert(after =~= before.push(wv));
            lemma_last_where(before, id_is(wv.id));
            assert forall|i: int, j: int|
                0 <= i < after.len() && 0 <= j < after.len() && i != j implies (
                #[trigger] after[i]).id != (#[trigger] after[j]).id by {
                if i == before.len() as int {
                    assert(!id_is(wv.id)(before[j]));
                } else if j == before.len() as int {
                    assert(!id_is(wv.id)(before[i]));
                }
            }
            assert forall|k: int| 0 <= k < self.runs().len() implies row_index(
                after,
                (#[trigger] self.runs()[k]).workload_id,
            ) >= 0 by {
                let x = self.runs()[k].workload_id;
                lemma_last_where_push(before, wv, id_is(x));
            }
            assert(wv == WorkloadV { runtime_task_id: None, ..workload@ });
        }
        Ok(())
    }

    /// The workload `id` as it is read.
    pub fn get(&self, workload_id: &str) -> (r: Result<Workload, WorkloadError>)
        requires
            self.wf(),
        ensures
            match r {
                Ok(w) => self.read(workload_id@) == Some(w@),
                Err(e) => self.read(workload_id@) is None && e.code
                    == crate::workload::ErrorCode::NotFound && e.message@ == not_found_message(
                    workload_id@,
                ),
            },
    {
        match self.find_row(workload_id) {
            Some(i) => Ok(self.read_row(i)),
            None => Err(not_found_error(workload_id)),
        }
    }

    /// Sets what the user asks of workload `id`.
    pub fn set_desired(&mut self, workload_id: &str, desired_state: DesiredState, now: i64) -> (r:
        Result<(), WorkloadError>)
        requires
            old(self).wf(),
        ensures
            final(self).wf(),
            final(self).runs() == old(self).runs(),
            ({
                let i = row_index(old(self).rows(), workload_id@);
                match r {
                    Ok(()) => i >= 0 && final(self).rows() == old(self).rows().update(
                        i,
                        WorkloadV {
                            desired_state,
                            updated_at_unix_secs: now,
                            ..old(self).rows()[i]
                        },
                    ),
                    Err(e) => i == -1 && final(self).rows() == old(self).rows() && e.code
                        == crate::workload::ErrorCode::NotFound && e.message@
                        == not_found_message(workload_id@),
                }
            }),
    {
        match self.find_row(workload_id) {
            None => Err(not_found_error(workload_id)),
            Some(i) => {
                let mut w = self.rows[i].duplicate();
                w.desired_state = desired_state;
                w.updated_at_unix_secs = now;
                self.replace_row(i, w);
                Ok(())
            },
        }
    }

    /// Sets what the user asks of workload `id`, unless a delete was asked
    /// for or has happened. Returns whether the workload changed.
    pub fn set_desired_unless_deleted(
        &mut self,
        workload_id: &str,
        desired_state: DesiredState,
        now: i64,
    ) -> (changed: bool)
        requires
            old(self).wf(),
        ensures
            final(self).wf(),
            final(self).runs() == old(self).runs(),
            ({
                let i = row_index(old(self).rows(), workload_id@);
                &&& changed == (i >= 0 && old(self).rows()[i].desired_state != DesiredState::Deleted
                    && old(self).rows()[i].actual_state != ActualState::Deleted)
                &&& final(self).rows() == if changed {
                    old(self).rows().update(
                        i,
                        WorkloadV {
                            desired_state,
                            updated_at_unix_secs: now,
                            ..old(self).rows()[i]
                        },
                    )
                } else {
                    old(self).rows()
                }
            }),
    {
        match self.find_row(workload_id) {
            None => false,
            Some(i) => {
                if self.rows[i].desired_state == DesiredState::Deleted || self.rows[i].actual_state
                    == ActualState::Deleted {
                    return false;
                }
                let mut w = self.rows[i].duplicate();
                w.desired_state = desired_state;
                w.updated_at_unix_secs = now;
                self.replace_row(i, w);
                true
            },
        }
    }

    /// Asks that workload `id` run again and forgets its restart backoff,
    /// unless a delete was asked for or has happened. Returns whether the
    /// workload changed.
    pub fn set_desired_running_unless_deleted_and_clear_backoff(
        &mut self,
        workload_id: &str,
        now: i64,
    ) -> (changed: bool)
        requires
            old(self).wf(),
        ensures
            final(self).wf(),
            final(self).runs() == old(self).runs(),
            ({
                let i = row_index(old(self).rows(), workload_id@);
                &&& changed == (i >= 0 && old(self).rows()[i].desired_state != DesiredState::Deleted
                    && old(self).rows()[i].actual_state != ActualState::Deleted)
                &&& final(self).rows() == if changed {
                    old(self).rows().update(
                        i,
                        WorkloadV {
                            desired_state: DesiredState::Running,
                            restart_attempts: 0,
                            restart_not_before_unix_secs: None,
                            updated_at_unix_secs: now,
                            ..old(self).rows()[i]
                        },
                    )
                } else {
                    old(self).rows()
                }
            }),
    {
        match self.find_row(workload_id) {
            None => false,
            Some(i) => {
                if self.rows[i].desired_state == DesiredState::Deleted || self.rows[i].actual_state
                    == ActualState::Deleted {
                    return false;
                }
                let mut w = self.rows[i].duplicate();
                w.desired_state = DesiredState::Running;
                w.restart_attempts = 0;
                w.restart_not_before_unix_secs = None;
                w.updated_at_unix_secs = now;
                self.replace_row(i, w);
                true
            },
        }
    }

    /// Moves workload `id` from `expected_state` to `actual_state`, recording
    /// `exit_code` and `error`. Returns whether the workload was in
    /// `expected_state` (and so changed).
    pub fn compare_and_set_actual(
        &mut self,
        workload_id: &str,
        expected_state: ActualState,
        actual_state: ActualState,
        exit_code: Option<u32>,
        error: Option<&str>,
        now: i64,
    ) -> (changed: bool)
        requires
            old(self).wf(),
        ensures
            final(self).wf(),
            final(self).runs() == old(self).runs(),
            changed == (row_index(old(self).rows(), workload_id@) >= 0 && old(self).rows()[row_index(
                old(self).rows(),
                workload_id@,
            )].actual_state == expected_state),
            final(self).rows() == cas_rows(
                old(self).rows(),
                workload_id@,
                expected_state,
                actual_state,
                exit_code,
                opt_str(error),
                now,
            ),
    {
        match self.find_row(workload_id) {
            None => false,
            Some(i) => {
                if self.rows[i].actual_state != expected_state {
                    return false;
                }
                let mut w = self.rows[i].duplicate();
                w.stopping_since_unix_secs = if actual_state == ActualState::Stopping {
                    match w.stopping_since_unix_secs {
                        Some(t) => Some(t),
                        None => Some(now),
                    }
                } else if expected_state == ActualState::Stopping {
                    None
                } else {
                    w.stopping_since_unix_secs
                };
                w.running_since_unix_secs = if actual_state == ActualState::Running {
                    match w.running_since_unix_secs {
                        Some(t) => Some(t),
                        None => Some(now),
                    }
                } else {
                    None
                };
                w.actual_state = actual_state;
                w.exit_code = exit_code;
                w.error = own_opt(error);
                w.runtime_unknown_since_unix_secs = None;
                w.updated_at_unix_secs = now;
                self.replace_row(i, w);
                true
            },
        }
    }

    /// Records that the runtime task of workload `id`, last seen in
    /// `expected_state`, has exited with `exit_code`. Returns whether the
    /// workload was in `expected_state` (and so changed).
    pub fn set_stopped_outcome(
        &mut self,
        workload_id: &str,
        expected_state: ActualState,
        exit_code: Option<u32>,
        now: i64,
    ) -> (changed: bool)
        requires
            old(self).wf(),
        ensures
            final(self).wf(),
            final(self).runs() == old(self).runs(),
            changed == (row_index(old(self).rows(), workload_id@) >= 0 && old(self).rows()[row_index(
                old(self).rows(),
                workload_id@,
            )].actual_state == expected_state),
            final(self).rows() == stopped_outcome_rows(
                old(self).rows(),
                workload_id@,
                expected_state,
                exit_code,
                now,
            ),
    {
        match self.find_row(workload_id) {
            None => false,
            Some(i) => {
                if self.rows[i].actual_state != expected_state {
                    return false;
                }
                let mut w = self.rows[i].duplicate();
                let asked = w.desired_state == DesiredState::Stopped || w.desired_state
                    == DesiredState::Deleted;
                let clean_exit = match exit_code {
                    Some(code) => code == 0,
                    None => false,
                };
                w.actual_state = if asked || clean_exit {
                    ActualState::Stopped
                } else {
                    ActualState::Failed
                };
                w.exit_code = if asked {
                    None
                } else {
                    exit_code
                };
                w.error = if asked || clean_exit {
                    None
                } else if exit_code.is_some() {
                    Some(String::from_str("runtime task exited with non-zero status"))
                } else {
                    Some(String::from_str("runtime task exited without an exit code"))
                };
                if expected_state == ActualState::Stopping {
                    w.stopping_since_unix_secs = None;
                }
                w.runtime_unknown_since_unix_secs = None;
                w.running_since_unix_secs = None;
                w.updated_at_unix_secs = now;
                self.replace_row(i, w);
                true
            },
        }
    }

    /// Notes, once, the time from which the runtime could not tell the state
    /// of the task of workload `id`. Returns whether the workload was in
    /// `expected_state`.
    pub fn mark_runtime_unknown(
        &mut self,
        workload_id: &str,
        expected_state: ActualState,
        unknown_since_unix_secs: i64,
    ) -> (changed: bool)
        requires
            old(self).wf(),
        ensures
            final(self).wf(),
            final(self).runs() == old(self).runs(),
            changed == (row_index(old(self).rows(), workload_id@) >= 0 && old(self).rows()[row_index(
                old(self).rows(),
                workload_id@,
            )].actual_state == expected_state),
            final(self).rows() == unknown_rows(
                old(self).rows(),
                workload_id@,
                expected_state,
                unknown_since_unix_secs,
            ),
    {
        match self.find_row(workload_id) {
            None => false,
            Some(i) => {
                if self.rows[i].actual_state != expected_state {
                    return false;
                }
                let mut w = self.rows[i].duplicate();
                if w.runtime_unknown_since_unix_secs.is_none() {
                    w.runtime_unknown_since_unix_secs = Some(unknown_since_unix_secs);
                    w.updated_at_unix_secs = unknown_since_unix_secs;
                }
                self.replace_row(i, w);
                true
            },
        }
    }

    /// Schedules the next restart of workload `id` no earlier than
    /// `restart_not_before_unix_secs`, as attempt number `restart_attempts`,
    /// provided it is still in `expected_state` and asked to run.
    pub fn set_restart_backoff(
        &mut self,
        workload_id: &str,
        expected_state: ActualState,
        restart_attempts: i64,
        restart_not_before_unix_secs: i64,
        now: i64,
    ) -> (changed: bool)
        requires
            old(self).wf(),
        ensures
            final(self).wf(),
            final(self).runs() == old(self).runs(),
            changed == (row_index(old(self).rows(), workload_id@) >= 0 && old(self).rows()[row_index(
                old(self).rows(),
                workload_id@,
            )].actual_state == expected_state && old(self).rows()[row_index(
                old(self).rows(),
                workload_id@,
            )].desired_state == DesiredState::Running),
            final(self).rows() == backoff_rows(
                old(self).rows(),
                workload_id@,
                expected_state,
                restart_attempts,
                restart_not_before_unix_secs,
                now,
            ),
    {
        match self.find_row(workload_id) {
            None => false,
            Some(i) => {
                if self.rows[i].actual_state != expected_state || self.rows[i].desired_state
                    != DesiredState::Running {
                    return false;
                }
                let mut w = self.rows[i].duplicate();
                w.restart_attempts = restart_attempts;
                w.restart_not_before_unix_secs = Some(restart_not_before_unix_secs);
                w.updated_at_unix_secs = now;
                self.replace_row(i, w);
                true
            },
        }
    }

    /// Forgets the restart backoff of workload `id`.
    pub fn clear_restart_backoff(&mut self, workload_id: &str, now: i64)
        requires
            old(self).wf(),
        ensures
            final(self).wf(),
            final(self).runs() == old(self).runs(),
            final(self).rows() == clear_backoff_rows(old(self).rows(), workload_id@, now),
    {
        if let Some(i) = self.find_row(workload_id) {
            let mut w = self.rows[i].duplicate();
            w.restart_attempts = 0;
            w.restart_not_before_unix_secs = None;
            w.updated_at_unix_secs = now;
            self.replace_row(i, w);
        }
    }

    /// Marks workload `id` as `Creating` and records a new run with runtime
    /// task `runtime_task_id`, provided the workload is in `expected_state` and
    /// asked to run. Returns whether it did.
    pub fn begin_start(
        &mut self,
        workload_id: &str,
        expected_state: ActualState,
        runtime_task_id: &str,
        now: i64,
    ) -> (r: Result<bool, WorkloadError>)
        requires
            old(self).wf(),
        ensures
            final(self).wf(),
            ({
                let i = row_index(old(self).rows(), workload_id@);
                let allowed = i >= 0 && old(self).rows()[i].actual_state == expected_state
                    && old(self).rows()[i].desired_state == DesiredState::Running;
                match r {
                    Ok(true) => allowed && run_index(old(self).runs(), runtime_task_id@) == -1
                        && final(self).rows() == old(self).rows().update(
                        i,
                        begin_start_row(old(self).rows()[i], now),
                    ) && final(self).runs() == old(self).runs().push(
                        RunV {
                            workload_id: workload_id@,
                            runtime_task_id: runtime_task_id@,
                            cleanup_state: CleanupState::Pending,
                            cleanup_attempts: 0,
                            last_cleanup_error: None,
                            updated_at_unix_secs: now,
                        },
                    ),
                    Ok(false) => !allowed && final(self).rows() == old(self).rows()
                        && final(self).runs() == old(self).runs(),
                    Err(e) => allowed && run_index(old(self).runs(), runtime_task_id@) >= 0
                        && final(self).rows() == old(self).rows() && final(self).runs() == old(self).runs() && e.code == crate::workload::ErrorCode::Internal && e.message@
                        == "UNIQUE constraint failed: workload_runs.runtime_task_id"@,
                }
            }),
    {
        let i = match self.find_row(workload_id) {
            None => return Ok(false),
            Some(i) => i,
        };
        if self.rows[i].actual_state != expected_state || self.rows[i].desired_state
            != DesiredState::Running {
            return Ok(false);
        }
        if self.find_run(runtime_task_id).is_some() {
            return Err(
                WorkloadError::internal(
                    String::from_str("UNIQUE constraint failed: workload_runs.runtime_task_id"),
                ),
            );
        }
        let mut w = self.rows[i].duplicate();
        w.actual_state = ActualState::Creating;
        w.exit_code = None;
        w.error = None;
        w.stopping_since_unix_secs = None;
        w.runtime_unknown_since_unix_secs = None;
        w.restart_not_before_unix_secs = None;
        w.running_since_unix_secs = None;
        w.updated_at_unix_secs = now;
        self.replace_row(i, w);
        let run = WorkloadRun {
            workload_id: String::from_str(workload_id),
            runtime_task_id: String::from_str(runtime_task_id),
            cleanup_state: CleanupState::Pending,
            cleanup_attempts: 0,
            last_cleanup_error: None,
            updated_at_unix_secs: now,
        };
        let ghost before = self.runs();
        let ghost rv = run@;
        self.runs.push(run);
        proof {
            let after = self.runs();
            assert(after =~= before.push(rv));
            lemma_last_where(before, task_is(rv.runtime_task_id));
            assert forall|a: int, b: int|
                0 <= a < after.len() && 0 <= b < after.len() && a != b implies (
                #[trigger] after[a]).runtime_task_id != (#[trigger] after[b]).runtime_task_id by {
                if a == before.len() as int {
                    assert(!task_is(rv.runtime_task_id)(before[b]));
                } else if b == before.len() as int {
                    assert(!task_is(rv.runtime_task_id)(before[a]));
                }
            }
            assert forall|k: int| 0 <= k < after.len() implies row_index(
                self.rows(),
                (#[trigger] after[k]).workload_id,
            ) >= 0 by {
                if k < before.len() {
                    assert(after[k] == before[k]);
                }
            }
        }
        Ok(true)
    }

    /// The latest run of workload `id`, if it has one.
    pub fn latest_run(&self, workload_id: &str) -> (r: Option<WorkloadRun>)
        requires
            self.wf(),
        ensures
            ({
                let k = latest_run_index(self.runs(), workload_id@);
                match r {
                    Some(run) => k >= 0 && run@ == self.runs()[k],
                    None => k == -1,
                }
            }),
    {
        match self.find_latest_run(workload_id) {
            Some(k) => Some(self.runs[k].duplicate()),
            None => None,
        }
    }

    /// Records that the runtime resources of task `runtime_task_id` are gone.
    pub fn mark_run_cleanup_done(&mut self, runtime_task_id: &str, now: i64)
        requires
            old(self).wf(),
        ensures
            final(self).wf(),
            final(self).rows() == old(self).rows(),
            final(self).runs() == cleanup_done_runs(old(self).runs(), runtime_task_id@, now),
    {
        if let Some(k) = self.find_run(runtime_task_id) {
            let mut r = self.runs[k].duplicate();
            r.cleanup_state = CleanupState::Done;
            r.last_cleanup_error = None;
            r.updated_at_unix_secs = now;
            self.replace_run(k, r);
        }
    }

    /// Records a failed cleanup of task `runtime_task_id`.
    pub fn record_run_cleanup_failure(
        &mut self,
        runtime_task_id: &str,
        cleanup_state: CleanupState,
        cleanup_attempts: i64,
        error: &str,
        now: i64,
    )
        requires
            old(self).wf(),
        ensures
            final(self).wf(),
            final(self).rows() == old(self).rows(),
            final(self).runs() == cleanup_failure_runs(
                old(self).runs(),
                runtime_task_id@,
                cleanup_state,
                cleanup_attempts,
                error@,
                now,
            ),
    {
        if let Some(k) = self.find_run(runtime_task_id) {
            let mut r = self.runs[k].duplicate();
            r.cleanup_state = cleanup_state;
            r.cleanup_attempts = cleanup_attempts;
            r.last_cleanup_error = Some(String::from_str(error));
            r.updated_at_unix_secs = now;
            self.replace_run(k, r);
        }
    }

    /// Forgets the run of task `runtime_task_id`.
    pub fn delete_run(&mut self, runtime_task_id: &str)
        requires
            old(self).wf(),
        ensures
            final(self).wf(),
            final(self).rows() == old(self).rows(),
            final(self).runs() == delete_run_runs(old(self).runs(), runtime_task_id@),
    {
        if let Some(k) = self.find_run(runtime_task_id) {
            let ghost before = self.runs();
            self.runs.remove(k);
            proof {
                let after = self.runs();
                assert(after =~= before.remove(k as int));
                assert forall|a: int, b: int|
                    0 <= a < after.len() && 0 <= b < after.len() && a != b implies (
                    #[trigger] after[a]).runtime_task_id != (#[trigger] after[b]).runtime_task_id by {
                    let a2 = if a < k {
                        a
                    } else {
                        a + 1
                    };
                    let b2 = if b < k {
                        b
                    } else {
                        b + 1
                    };
                    assert(after[a] == before[a2]);
                    assert(after[b] == before[b2]);
                }
                assert forall|j: int| 0 <= j < after.len() implies row_index(
                    self.rows(),
                    (#[trigger] after[j]).workload_id,
                ) >= 0 by {
                    let j2 = if j < k {
                        j
                    } else {
                        j + 1
                    };
                    assert(after[j] == before[j2]);
                }
            }
        }
    }

    /// The workloads the reconciler looks at, in the order they were saved.
    pub fn list_for_reconcile(&self) -> (r: Vec<Workload>)
        requires
            self.wf(),
        ensures
            workload_views(r@) == self.read_all().filter(reconcilable_pred()),
    {
        let ghost all = self.read_all();
        let ghost p = reconcilable_pred();
        let mut out: Vec<Workload> = Vec::new();
        let mut i: usize = 0;
        while i < self.rows.len()
            invariant
                i <= self.rows@.len(),
                all == self.read_all(),
                all.len() == self.rows@.len(),
                p == reconcilable_pred(),
                workload_views(out@) == all.take(i as int).filter(p),
            decreases self.rows.len() - i,
        {
            proof {
                all.take(i as int).lemma_filter_push(all[i as int], p);
                assert(all.take(i as int + 1) =~= all.take(i as int).push(all[i as int]));
                assert(self.rows()[i as int] == self.rows@[i as int]@);
                assert(all[i as int] == joined(self.rows()[i as int], self.runs()));
                assert(all[i as int].actual_state == self.rows@[i as int].actual_state);
            }
            if self.rows[i].actual_state != ActualState::Deleted {
                let w = self.read_row(i);
                let ghost before = out@;
                out.push(w);
                proof {
                    assert(workload_views(out@) =~= workload_views(before).push(all[i as int]));
                }
            }
            i = i + 1;
        }
        proof {
            assert(all.take(i as int) =~= all);
        }
        out
    }

    /// The workloads whose runtime task is watched, in the order they were
    /// saved.
    pub fn list_watchable(&self) -> (r: Vec<Workload>)
        requires
            self.wf(),
        ensures
            workload_views(r@) == self.read_all().filter(watchable_pred()),
    {
        let ghost all = self.read_all();
        let ghost p = watchable_pred();
        let mut out: Vec<Workload> = Vec::new();
        let mut i: usize = 0;
        while i < self.rows.len()
            invariant
                i <= self.rows@.len(),
                all == self.read_all(),
                all.len() == self.rows@.len(),
                p == watchable_pred(),
                workload_views(out@) == all.take(i as int).filter(p),
            decreases self.rows.len() - i,
        {
            proof {
                all.take(i as int).lemma_filter_push(all[i as int], p);
                assert(all.take(i as int + 1) =~= all.take(i as int).push(all[i as int]));
                assert(self.rows()[i as int] == self.rows@[i as int]@);
                assert(all[i as int] == joined(self.rows()[i as int], self.runs()));
                assert(all[i as int].actual_state == self.rows@[i as int].actual_state);
            }
            let a = self.rows[i].actual_state;
            if a == ActualState::Starting || a == ActualState::Running || a
                == ActualState::Stopping {
                let w = self.read_row(i);
                let ghost before = out@;
                out.push(w);
                proof {
                    assert(workload_views(out@) =~= workload_views(before).push(all[i as int]));
                }
            }
            i = i + 1;
        }
        proof {
            assert(all.take(i as int) =~= all);
        }
        out
    }

    /// The runs whose resources may be released for good at `now`, oldest
    /// first.
    pub fn list_prunable_runs(&self, now: i64) -> (r: Vec<WorkloadRun>)
        requires
            self.wf(),
        ensures
            run_views(r@) == self.runs().filter(prunable_in(self.runs(), now)),
    {
        let ghost all = self.runs();
        let ghost p = prunable_in(all, now);
        let mut out: Vec<WorkloadRun> = Vec::new();
        let mut k: usize = 0;
        while k < self.runs.len()
            invariant
                k <= self.runs@.len(),
                all == self.runs(),
                all.len() == self.runs@.len(),
                p == prunable_in(all, now),
                self.wf(),
                run_views(out@) == all.take(k as int).filter(p),
            decreases self.runs.len() - k,
        {
            proof {
                all.take(k as int).lemma_filter_push(all[k as int], p);
                assert(all.take(k as int + 1) =~= all.take(k as int).push(all[k as int]));
                assert forall|j: int| k < j < all.len() implies !task_is(
                    all[k as int].runtime_task_id,
                )(#[trigger] all[j]) by {}
                lemma_last_where_is(all, task_is(all[k as int].runtime_task_id), k as int);
            }
            let latest = self.find_latest_run(self.runs[k].workload_id.as_str());
            let not_latest = match latest {
                Some(l) => l != k,
                None => true,
            };
            let run = &self.runs[k];
            let delay: i128 = if 30 * (run.cleanup_attempts as i128) <= 300 {
                30 * (run.cleanup_attempts as i128)
            } else {
                300
            };
            let due = run.cleanup_state == CleanupState::Done || (now as i128) - (
            run.updated_at_unix_secs as i128) >= delay;
            if not_latest && due {
                let r = run.duplicate();
                let ghost before = out@;
                out.push(r);
                proof {
                    assert(run_views(out@) =~= run_views(before).push(all[k as int]));
                }
            }
            k = k + 1;
        }
        proof {
            assert(all.take(k as int) =~= all);
        }
        out
    }

    /// A workload that is not stored has no runs.
    pub proof fn lemma_no_runs_without_row(&self, id: Seq<char>)
        requires
            self.wf(),
            row_index(self.rows(), id) == -1,
        ensures
            latest_run_index(self.runs(), id) == -1,
    {
        lemma_last_where(self.runs(), run_of(id));
        let k = latest_run_index(self.runs(), id);
        if k >= 0 {
            assert(row_index(self.rows(), self.runs()[k].workload_id) >= 0);
        }
    }

    /// Reading a workload finds the stored row with its id.
    pub proof fn lemma_read(&self, id: Seq<char>)
        requires
            self.wf(),
        ensures
            row_index(self.rows(), id) >= 0 ==> self.rows()[row_index(self.rows(), id)].id == id,
            -1 <= row_index(self.rows(), id) < self.rows().len(),
    {
        lemma_last_where(self.rows(), id_is(id));
    }

    /// The stored row `i` as it is read.
    fn read_row(&self, i: usize) -> (w: Workload)
        requires
            i < self.rows@.len(),
        ensures
            w@ == joined(self.rows()[i as int], self.runs()),
    {
        let mut w = self.rows[i].duplicate();
        let latest = self.find_latest_run(w.id.as_str());
        w.runtime_task_id = match latest {
            Some(k) => Some(self.runs[k].runtime_task_id.clone()),
            None => None,
        };
        w
    }
}


pub const DEFAULT_DB_PATH: &'static str = "/var/lib/billow/workloads.sqlite3";

/// Where the workload database lives: `BILLOW_WORKLOAD_DB_PATH` where set
/// and not empty, else the default.
pub fn db_path(env_value: Option<&str>) -> (p: String)
    ensures
        p@ == match env_value {
            Some(v) => if v@.len() > 0 {
                v@
            } else {
                DEFAULT_DB_PATH@
            },
            None => DEFAULT_DB_PATH@,
        },
{
    crate::manager::env_string_or_default(env_value, DEFAULT_DB_PATH)
}

/// An update that touched no row means the workload is not stored.
pub fn ensure_changed(workload_id: &str, changed: usize) -> (r: Result<(), WorkloadError>)
    ensures
        changed > 0 ==> r is Ok,
        changed == 0 ==> r is Err && r->Err_0.code == crate::workload::ErrorCode::NotFound
            && r->Err_0.message@ == not_found_message(workload_id@),
{
    if changed == 0 {
        Err(not_found_error(workload_id))
    } else {
        Ok(())
    }
}


pub const INCONSISTENT_STORE: &'static str = "stored workloads are inconsistent";

/// What the store keeps of itself: ids and task ids unique, rows without a
/// task of their own, and every run belonging to a stored workload.
pub open spec fn restorable(rows: Seq<WorkloadV>, runs: Seq<RunV>) -> bool {
    &&& forall|i: int, j: int|
        0 <= i < rows.len() && 0 <= j < rows.len() && i != j ==> (#[trigger] rows[i]).id != (
        #[trigger] rows[j]).id
    &&& forall|i: int, j: int|
        0 <= i < runs.len() && 0 <= j < runs.len() && i != j ==> (#[trigger] runs[i]).runtime_task_id
            != (#[trigger] runs[j]).runtime_task_id
    &&& forall|i: int| 0 <= i < rows.len() ==> (#[trigger] rows[i]).runtime_task_id is None
    &&& forall|k: int| 0 <= k < runs.len() ==> row_index(rows, (#[trigger] runs[k]).workload_id) >= 0
}


impl WorkloadStore {
    /// A store holding `rows` and `runs` as they were saved, where they are
    /// consistent (see `restorable`).
    pub fn restore(rows: Vec<Workload>, runs: Vec<WorkloadRun>) -> (r: Result<WorkloadStore, String>)
        ensures
            match r {
                Ok(s) => s.wf() && s.rows() == workload_views(rows@) && s.runs() == run_views(runs@),
                Err(e) => !restorable(workload_views(rows@), run_views(runs@)) && e@ == INCONSISTENT_STORE@,
            },
    {
        let ghost rv = workload_views(rows@);
        let ghost uv = run_views(runs@);
        let mut i: usize = 0;
        while i < rows.len()
            invariant
                i <= rows@.len(),
                rv == workload_views(rows@),
                forall|a: int, b: int| 0 <= a < i && a < b < rows@.len() ==> (#[trigger] rv[a]).id != (#[trigger] rv[b]).id,
                forall|a: int| 0 <= a < i ==> (#[trigger] rv[a]).runtime_task_id is None,
            decreases rows.len() - i,
        {
            assert(rv[i as int] == rows@[i as int]@);
            if rows[i].runtime_task_id.is_some() {
                return Err(String::from_str(INCONSISTENT_STORE));
            }
            let mut j: usize = i + 1;
            while j < rows.len()
                invariant
                    i < j <= rows@.len(),
                    rv == workload_views(rows@),
                    forall|b: int| i < b < j ==> rv[i as int].id != (#[trigger] rv[b]).id,
                decreases rows.len() - j,
            {
                assert(rv[i as int] == rows@[i as int]@);
                assert(rv[j as int] == rows@[j as int]@);
                if rows[i].id == rows[j].id {
                    return Err(String::from_str(INCONSISTENT_STORE));
                }
                j = j + 1;
            }
            i = i + 1;
        }
        let mut k: usize = 0;
        while k < runs.len()
            invariant
                k <= runs@.len(),
                uv == run_views(runs@),
                rv == workload_views(rows@),
                forall|a: int, b: int| 0 <= a < k && a < b < runs@.len() ==> (#[trigger] uv[a]).runtime_task_id != (#[trigger] uv[b]).runtime_task_id,
                forall|a: int| 0 <= a < k ==> row_index(rv, (#[trigger] uv[a]).workload_id) >= 0,
            decreases runs.len() - k,
        {
            assert(uv[k as int] == runs@[k as int]@);
            let mut j: usize = k + 1;
            while j < runs.len()
                invariant
                    k < j <= runs@.len(),
                    uv == run_views(runs@),
                    forall|b: int| k < b < j ==> uv[k as int].runtime_task_id != (#[trigger] uv[b]).runtime_task_id,
                decreases runs.len() - j,
            {
                assert(uv[k as int] == runs@[k as int]@);
                assert(uv[j as int] == runs@[j as int]@);
                if runs[k].runtime_task_id == runs[j].runtime_task_id {
                    return Err(String::from_str(INCONSISTENT_STORE));
                }
                j = j + 1;
            }
            let mut found = false;
            let mut q: usize = 0;
            while q < rows.len()
                invariant
                    q <= rows@.len(),
                    k < runs@.len(),
                    rv == workload_views(rows@),
                    uv == run_views(runs@),
                    found ==> row_index(rv, uv[k as int].workload_id) >= 0,
                    !found ==> forall|b: int| 0 <= b < q ==> (#[trigger] rv[b]).id != uv[k as int].workload_id,
                decreases rows.len() - q,
            {
                assert(rv[q as int] == rows@[q as int]@);
                assert(uv[k as int] == runs@[k as int]@);
                if rows[q].id == runs[k].workload_id {
                    proof {
                        let p = id_is(uv[k as int].workload_id);
                        lemma_last_where(rv, p);
                        assert(p(rv[q as int]));
                    }
                    found = true;
                }
                q = q + 1;
            }
            if !found {
                proof {
                    let p = id_is(uv[k as int].workload_id);
                    lemma_last_where(rv, p);
                    if row_index(rv, uv[k as int].workload_id) >= 0 {
                        let f = row_index(rv, uv[k as int].workload_id);
                        assert(p(rv[f]));
                    }
                }
                return Err(String::from_str(INCONSISTENT_STORE));
            }
            k = k + 1;
        }
        let s = WorkloadStore { rows, runs };
        proof {
            assert(s.rows() == rv);
            assert(s.runs() == uv);
            assert forall|a: int, b: int|
                0 <= a < rv.len() && 0 <= b < rv.len() && a != b implies (#[trigger] rv[a]).id != (
                #[trigger] rv[b]).id by {
                if a > b {
                    assert(rv[b].id != rv[a].id);
                }
            }
            assert forall|a: int, b: int|
                0 <= a < uv.len() && 0 <= b < uv.len() && a != b implies (#[trigger] uv[a]).runtime_task_id
                    != (#[trigger] uv[b]).runtime_task_id by {
                if a > b {
                    assert(uv[b].runtime_task_id != uv[a].runtime_task_id);
                }
            }
        }
        Ok(s)
    }

    /// Copies of the stored workloads and runs, for saving.
    pub fn contents(&self) -> (r: (Vec<Workload>, Vec<WorkloadRun>))
        ensures
            workload_views(r.0@) == self.rows(),
            run_views(r.1@) == self.runs(),
    {
        let mut rows: Vec<Workload> = Vec::new();
        let mut i: usize = 0;
        while i < self.rows.len()
            invariant
                i <= self.rows@.len(),
                workload_views(rows@) == workload_views(self.rows@).take(i as int),
            decreases self.rows.len() - i,
        {
            let w = self.rows[i].duplicate();
            let ghost before = workload_views(rows@);
            rows.push(w);
            proof {
                assert(workload_views(rows@) =~= before.push(self.rows@[i as int]@));
                assert(workload_views(self.rows@).take(i + 1) =~= workload_views(self.rows@).take(
                    i as int,
                ).push(self.rows@[i as int]@));
            }
            i = i + 1;
        }
        let mut runs: Vec<WorkloadRun> = Vec::new();
        let mut k: usize = 0;
        while k < self.runs.len()
            invariant
                k <= self.runs@.len(),
                run_views(runs@) == run_views(self.runs@).take(k as int),
            decreases self.runs.len() - k,
        {
            let r = self.runs[k].duplicate();
            let ghost before = run_views(runs@);
            runs.push(r);
            proof {
                assert(run_views(runs@) =~= before.push(self.runs@[k as int]@));
                assert(run_views(self.runs@).take(k + 1) =~= run_views(self.runs@).take(
                    k as int,
                ).push(self.runs@[k as int]@));
            }
            k = k + 1;
        }
        assert(workload_views(self.rows@).take(self.rows@.len() as int) =~= workload_views(self.rows@));
        assert(run_views(self.runs@).take(self.runs@.len() as int) =~= run_views(self.runs@));
        (rows, runs)
    }
}


/// The store survives a restart: what it holds is always restorable, so
/// `restore` of its `contents` gives back the same workloads and runs.
pub proof fn lemma_saved_store_restores(s: &WorkloadStore)
    requires
        s.wf(),
    ensures
        restorable(s.rows(), s.runs()),
{
}

/// A read gives back what a save wrote: after a workload is saved under a
/// new id, reading that id gives the workload, without a task (no run can
/// name a workload that was not stored), and reading any other id gives
/// what it gave before.
pub proof fn lemma_read_after_save(
    before: &WorkloadStore,
    after: &WorkloadStore,
    w: WorkloadV,
    other: Seq<char>,
)
    requires
        before.wf(),
        row_index(before.rows(), w.id) == -1,
        after.rows() == before.rows().push(WorkloadV { runtime_task_id: None, ..w }),
        after.runs() == before.runs(),
    ensures
        after.read(w.id) == Some(WorkloadV { runtime_task_id: None, ..w }),
        other != w.id ==> after.read(other) == before.read(other),
{
    let wv = WorkloadV { runtime_task_id: None, ..w };
    lemma_last_where_push(before.rows(), wv, id_is(w.id));
    lemma_last_where_push(before.rows(), wv, id_is(other));
    lemma_last_where(before.rows(), id_is(other));
    before.lemma_no_runs_without_row(w.id);
}

} // verus!
