//! The workload manager: submission and the user's start, stop and delete
//! requests, the timing settings, and the naming of runtime tasks.

use crate::policy::start_rejection_of;
use crate::store::{latest_run_index, not_found_message, row_index, workload_views, WorkloadStore};
use crate::text::{
    chars_of, concat_chars, parse_unsigned, parsed_unsigned, string_of, trim, trim_chars,
};
use crate::workload::{
    ActualState, DesiredState, ErrorCode, Workload, WorkloadError, WorkloadKind, WorkloadV,
};
use vstd::prelude::*;

verus! {

/// Largest value of an `i64`.
pub const I64_MAX: i64 = 9223372036854775807i64;

/// `x` clamped to the range of an `i64`.
pub open spec fn clamp_i64(x: int) -> i64 {
    if x < i64::MIN {
        i64::MIN
    } else if x > i64::MAX {
        i64::MAX
    } else {
        x as i64
    }
}

/// `a + b`, saturating at the bounds of `i64` (`i64::saturating_add`).
pub fn sat_add(a: i64, b: i64) -> (r: i64)
    ensures
        r == clamp_i64(a + b),
{
    let x: i128 = a as i128 + b as i128;
    if x > 9223372036854775807i128 {
        I64_MAX
    } else if x < -9223372036854775808i128 {
        -9223372036854775808i64
    } else {
        x as i64
    }
}

/// `a - b`, saturating at the bounds of `i64` (`i64::saturating_sub`).
pub fn sat_sub(a: i64, b: i64) -> (r: i64)
    ensures
        r == clamp_i64(a - b),
{
    let x: i128 = a as i128 - b as i128;
    if x > 9223372036854775807i128 {
        I64_MAX
    } else if x < -9223372036854775808i128 {
        -9223372036854775808i64
    } else {
        x as i64
    }
}

/// A number of seconds written in decimal.
pub fn i64_text_for_secs(secs: i64) -> (s: String)
    ensures
        s@ == crate::text::signed_decimal(secs as int),
{
    crate::text::i64_text(secs)
}

/// Seconds as an `i64`, saturating (as a `Duration` is read in seconds).
pub fn duration_secs(secs: u64) -> (r: i64)
    ensures
        r == if secs <= I64_MAX as u64 {
            secs as int
        } else {
            I64_MAX as int
        },
{
    if secs <= 9223372036854775807u64 {
        secs as i64
    } else {
        I64_MAX
    }
}

/// A positive number of seconds given in the environment, or the default.
pub open spec fn secs_or_default(value: Option<Seq<char>>, default_secs: u64) -> u64 {
    match value {
        Some(v) => match parsed_unsigned(v, u64::MAX as nat) {
            Some(n) => if n > 0 {
                n as u64
            } else {
                default_secs
            },
            None => default_secs,
        },
        None => default_secs,
    }
}

/// A positive number of seconds from an environment variable's value, or
/// `default_secs` where it is missing, unparsable or zero.
pub fn env_secs_or_default(value: Option<&str>, default_secs: u64) -> (r: u64)
    ensures
        r == secs_or_default(
            match value {
                Some(v) => Some(v@),
                None => None,
            },
            default_secs,
        ),
{
    match value {
        Some(v) => {
            let chars = chars_of(v);
            match parse_unsigned(&chars, u64::MAX) {
                Some(n) => if n > 0 {
                    n
                } else {
                    default_secs
                },
                None => default_secs,
            }
        },
        None => default_secs,
    }
}

/// A non-empty environment value, or the default.
pub fn env_string_or_default(value: Option<&str>, default: &str) -> (r: String)
    ensures
        r@ == match value {
            Some(v) => if v@.len() > 0 {
                v@
            } else {
                default@
            },
            None => default@,
        },
{
    match value {
        Some(v) => if v.unicode_len() > 0 {
            String::from_str(v)
        } else {
            String::from_str(default)
        },
        None => String::from_str(default),
    }
}

/// The timing of watching, stopping, unknown-state tolerance and restarts,
/// in seconds.
#[derive(Clone, Copy, Debug)]
pub struct Timing {
    pub watch_interval_secs: u64,
    pub reconcile_interval_secs: u64,
    pub stop_grace_secs: i64,
    pub stop_kill_secs: i64,
    pub runtime_unknown_grace_secs: i64,
    pub restart_backoff_initial_secs: i64,
    pub restart_backoff_cap_secs: i64,
    pub restart_backoff_reset_secs: i64,
}

impl Timing {
    /// The timing where no environment variable overrides it.
    pub fn defaults() -> (t: Timing)
        ensures
            t == Timing::defaults_spec(),
    {
        Timing {
            watch_interval_secs: 1,
            reconcile_interval_secs: 2,
            stop_grace_secs: 10,
            stop_kill_secs: 10,
            runtime_unknown_grace_secs: 30,
            restart_backoff_initial_secs: 5,
            restart_backoff_cap_secs: 300,
            restart_backoff_reset_secs: 600,
        }
    }

    /// The timing given the values of `BILLOW_WORKLOAD_WATCH_INTERVAL_SECS`,
    /// `BILLOW_WORKLOAD_RECONCILE_INTERVAL_SECS`,
    /// `BILLOW_WORKLOAD_STOP_GRACE_SECS` and `BILLOW_WORKLOAD_STOP_KILL_SECS`.
    pub fn from_env_values(
        watch_interval: Option<&str>,
        reconcile_interval: Option<&str>,
        stop_grace: Option<&str>,
        stop_kill: Option<&str>,
    ) -> (t: Timing)
        ensures
            t.watch_interval_secs == secs_or_default(
                match watch_interval {
                    Some(v) => Some(v@),
                    None => None,
                },
                1,
            ),
            t.reconcile_interval_secs == secs_or_default(
                match reconcile_interval {
                    Some(v) => Some(v@),
                    None => None,
                },
                2,
            ),
            t.stop_grace_secs as int == secs_or_default(
                match stop_grace {
                    Some(v) => Some(v@),
                    None => None,
                },
                10,
            ) || (t.stop_grace_secs == I64_MAX && secs_or_default(
                match stop_grace {
                    Some(v) => Some(v@),
                    None => None,
                },
                10,
            ) > I64_MAX as u64),
            t.stop_kill_secs as int == secs_or_default(
                match stop_kill {
                    Some(v) => Some(v@),
                    None => None,
                },
                10,
            ) || (t.stop_kill_secs == I64_MAX && secs_or_default(
                match stop_kill {
                    Some(v) => Some(v@),
                    None => None,
                },
                10,
            ) > I64_MAX as u64),
            t.runtime_unknown_grace_secs == 30,
            t.restart_backoff_initial_secs == 5,
            t.restart_backoff_cap_secs == 300,
            t.restart_backoff_reset_secs == 600,
    {
        Timing {
            watch_interval_secs: env_secs_or_default(watch_interval, 1),
            reconcile_interval_secs: env_secs_or_default(reconcile_interval, 2),
            stop_grace_secs: duration_secs(env_secs_or_default(stop_grace, 10)),
            stop_kill_secs: duration_secs(env_secs_or_default(stop_kill, 10)),
            runtime_unknown_grace_secs: 30,
            restart_backoff_initial_secs: 5,
            restart_backoff_cap_secs: 300,
            restart_backoff_reset_secs: 600,
        }
    }
}

/// Seconds since the Unix epoch on the system clock (zero before it).
#[verifier::external_body]
fn system_clock_secs() -> u64 {
    std::time::SystemTime::now().duration_since(std::time::UNIX_EPOCH).unwrap_or_default().as_secs()
}

/// The current time in Unix seconds, saturating at `i64::MAX`.
pub fn now_unix_secs() -> (t: i64)
    ensures
        t >= 0,
{
    duration_secs(system_clock_secs())
}

/// A lower-case hexadecimal digit.
pub open spec fn is_lower_hex_digit(c: char) -> bool {
    ('0' <= c && c <= '9') || ('a' <= c && c <= 'f')
}

/// The text of a version 4 UUID in hyphenated form: 32 lower-case hex digits
/// in groups of 8, 4, 4, 4 and 12 joined by `-`, the version digit `4` first
/// in the third group.
pub open spec fn hyphenated_v4_uuid(s: Seq<char>) -> bool {
    &&& s.len() == 36
    &&& forall|i: int|
        0 <= i < 36 ==> if i == 8 || i == 13 || i == 18 || i == 23 {
            s[i] == '-'
        } else {
            is_lower_hex_digit(#[trigger] s[i])
        }
    &&& s[14] == '4'
}

/// The text of a version 4 UUID in simple form: 32 lower-case hex digits,
/// the version digit `4` at index 12.
pub open spec fn simple_v4_uuid(s: Seq<char>) -> bool {
    &&& s.len() == 32
    &&& forall|i: int| 0 <= i < 32 ==> is_lower_hex_digit(#[trigger] s[i])
    &&& s[12] == '4'
}

/// A fresh random (version 4) UUID, hyphenated (`Uuid::new_v4().to_string()`,
/// which writes lower-case hex). Which UUID it is rests on chance: only its
/// form is stated.
#[verifier::external_body]
pub fn new_workload_id() -> (id: String)
    ensures
        hyphenated_v4_uuid(id@),
{
    uuid::Uuid::new_v4().to_string()
}

/// A fresh random (version 4) UUID in its simple form
/// (`Uuid::new_v4().simple().to_string()`): 32 lower-case hex digits. Which
/// UUID it is rests on chance: only its form is stated.
#[verifier::external_body]
fn new_simple_uuid() -> (id: String)
    ensures
        simple_v4_uuid(id@),
{
    uuid::Uuid::new_v4().simple().to_string()
}

/// At most the first 20 characters of a workload id, hyphens left out.
pub open spec fn task_id_stem(id: Seq<char>) -> Seq<char> {
    let kept = id.filter(|c: char| c != '-');
    if kept.len() <= 20 {
        kept
    } else {
        kept.take(20)
    }
}

/// The runtime task name of a workload: `billow-<stem>-<suffix>`.
pub open spec fn task_name(id: Seq<char>, suffix: Seq<char>) -> Seq<char> {
    "billow-"@ + task_id_stem(id) + "-"@ + suffix
}

/// The runtime task name of workload `id` with random part `suffix`.
pub fn task_name_for(id: &str, suffix: &str) -> (name: String)
    ensures
        name@ == task_name(id@, suffix@),
{
    let chars = chars_of(id);
    let ghost p = |c: char| c != '-';
    let mut kept: Vec<char> = Vec::new();
    let mut i: usize = 0;
    while i < chars.len()
        invariant
            i <= chars@.len(),
            chars@ == id@,
            p == (|c: char| c != '-'),
            kept@ == (if chars@.take(i as int).filter(p).len() <= 20 {
                chars@.take(i as int).filter(p)
            } else {
                chars@.take(i as int).filter(p).take(20)
            }),
        decreases chars.len() - i,
    {
        let ghost f = chars@.take(i as int).filter(p);
        proof {
            f.lemma_filter_push(chars@[i as int], p);
            chars@.take(i as int).lemma_filter_push(chars@[i as int], p);
            assert(chars@.take(i as int + 1) =~= chars@.take(i as int).push(chars@[i as int]));
        }
        if chars[i] != '-' && kept.len() < 20 {
            kept.push(chars[i]);
            proof {
                let g = f.push(chars@[i as int]);
                if g.len() > 20 {
                    assert(g.take(20) =~= kept@);
                }
            }
        } else if chars[i] != '-' {
            proof {
                let g = f.push(chars@[i as int]);
                assert(g.take(20) =~= f.take(20));
            }
        }
        i = i + 1;
    }
    assert(chars@.take(chars@.len() as int) =~= id@);
    let prefix = chars_of("billow-");
    let dash = chars_of("-");
    let tail = chars_of(suffix);
    let a = concat_chars(&prefix, &kept);
    let b = concat_chars(&a, &dash);
    let c = concat_chars(&b, &tail);
    string_of(&c)
}

/// A fresh runtime task name for `workload`: `billow-`, at most 20
/// characters of its id without hyphens, `-`, and a random version 4 UUID
/// in simple form.
pub fn runtime_task_id(workload: &Workload) -> (name: String)
    ensures
        exists|suffix: Seq<char>| simple_v4_uuid(suffix) && name@ == task_name(workload@.id, suffix),
{
    let suffix = new_simple_uuid();
    let name = task_name_for(workload.id.as_str(), suffix.as_str());
    assert(simple_v4_uuid(suffix@) && name@ == task_name(workload@.id, suffix@));
    name
}

/// A runtime task name is at most 60 characters long, so it fits the 63
/// characters of a Linux host name.
pub proof fn lemma_task_name_fits_hostname(id: Seq<char>, suffix: Seq<char>)
    requires
        suffix.len() == 32,
    ensures
        task_name(id, suffix).len() <= 60,
{
    reveal_strlit("billow-");
    reveal_strlit("-");
}


/// A freshly submitted workload.
pub open spec fn submitted_row(kind: WorkloadKind, image: Seq<char>, id: Seq<char>, now: i64) -> WorkloadV {
    WorkloadV {
        id,
        kind,
        image,
        desired_state: DesiredState::Running,
        actual_state: ActualState::Accepted,
        runtime_task_id: None,
        container_ip: None,
        exit_code: None,
        error: None,
        stopping_since_unix_secs: None,
        runtime_unknown_since_unix_secs: None,
        restart_attempts: 0,
        restart_not_before_unix_secs: None,
        running_since_unix_secs: None,
        created_at_unix_secs: now,
        updated_at_unix_secs: now,
    }
}

/// Takes user requests about workloads and keeps their records.
pub struct WorkloadManager {
    pub store: WorkloadStore,
    pub timing: Timing,
    pub log_limit_bytes: usize,
}

impl WorkloadManager {
    /// A manager over `store` with the default timing and a 1 MiB log limit.
    pub fn new(store: WorkloadStore) -> (m: WorkloadManager)
        ensures
            m.store == store,
            m.log_limit_bytes == 1048576,
            m.timing == Timing::defaults_spec(),
    {
        WorkloadManager { store, timing: Timing::defaults(), log_limit_bytes: 1048576 }
    }

    /// The same manager with another log limit.
    pub fn with_log_limit(self, log_limit_bytes: usize) -> (m: WorkloadManager)
        ensures
            m.store == self.store,
            m.timing == self.timing,
            m.log_limit_bytes == log_limit_bytes,
    {
        WorkloadManager { log_limit_bytes, ..self }
    }

    /// The same manager with another timing.
    pub fn with_timing(self, timing: Timing) -> (m: WorkloadManager)
        ensures
            m.store == self.store,
            m.timing == timing,
            m.log_limit_bytes == self.log_limit_bytes,
    {
        WorkloadManager { timing, ..self }
    }

    /// Records a new workload with id `workload_id` at time `now`, asked to
    /// run the trimmed `image`. An empty image is refused.
    pub fn submit_at(&mut self, kind: WorkloadKind, image: &str, workload_id: String, now: i64) -> (r:
        Result<Workload, WorkloadError>)
        requires
            old(self).store.wf(),
        ensures
            final(self).store.wf(),
            final(self).store.runs() == old(self).store.runs(),
            final(self).timing == old(self).timing,
            match r {
                Ok(w) => trim(image@).len() > 0 && row_index(old(self).store.rows(), workload_id@)
                    == -1 && final(self).store.rows() == old(self).store.rows().push(
                    submitted_row(kind, trim(image@), workload_id@, now),
                ) && w@ == submitted_row(kind, trim(image@), workload_id@, now),
                Err(e) => final(self).store.rows() == old(self).store.rows() && if trim(
                    image@,
                ).len() == 0 {
                    e.code == ErrorCode::InvalidArgument && e.message@
                        == "image reference cannot be empty"@
                } else {
                    row_index(old(self).store.rows(), workload_id@) >= 0 && e.code
                        == ErrorCode::Internal && e.message@ == "UNIQUE constraint failed: workloads.id"@
                },
            },
    {
        let all = chars_of(image);
        let trimmed = trim_chars(&all);
        if trimmed.len() == 0 {
            return Err(WorkloadError::invalid_argument(String::from_str("image reference cannot be empty")));
        }
        let desired_state = kind.policy().initial_desired_state();
        let workload = Workload {
            id: workload_id,
            kind,
            image: string_of(&trimmed),
            desired_state,
            actual_state: ActualState::Accepted,
            runtime_task_id: None,
            container_ip: None,
            exit_code: None,
            error: None,
            stopping_since_unix_secs: None,
            runtime_unknown_since_unix_secs: None,
            restart_attempts: 0,
            restart_not_before_unix_secs: None,
            running_since_unix_secs: None,
            created_at_unix_secs: now,
            updated_at_unix_secs: now,
        };
        let ghost before = self.store;
        match self.store.save(&workload) {
            Ok(()) => {},
            Err(e) => return Err(e),
        }
        proof {
            before.lemma_no_runs_without_row(workload@.id);
            self.store.lemma_read(workload@.id);
            crate::store::lemma_last_where_push(before.rows(), self.store.rows().last(), crate::store::id_is(workload@.id));
            assert(self.store.rows() == before.rows().push(self.store.rows().last()));
        }
        self.store.get(workload.id.as_str())
    }

    /// Records a new workload asked to run `image`, under a fresh random id.
    /// An empty image is refused; so is an id that is already taken.
    pub fn submit(&mut self, kind: WorkloadKind, image: &str) -> (r: Result<Workload, WorkloadError>)
        requires
            old(self).store.wf(),
        ensures
            final(self).store.wf(),
            final(self).store.runs() == old(self).store.runs(),
            final(self).timing == old(self).timing,
            trim(image@).len() == 0 ==> final(self).store.rows() == old(self).store.rows() && (r matches Err(e)
                && e.code == ErrorCode::InvalidArgument && e.message@
                == "image reference cannot be empty"@),
            trim(image@).len() > 0 ==> match r {
                Ok(w) => hyphenated_v4_uuid(w@.id) && exists|id: Seq<char>, now: i64|
                    hyphenated_v4_uuid(id) && now >= 0 && row_index(old(self).store.rows(), id)
                        == -1 && final(self).store.rows() == old(self).store.rows().push(
                        #[trigger] submitted_row(kind, trim(image@), id, now),
                    ) && w@ == submitted_row(kind, trim(image@), id, now),
                Err(e) => final(self).store.rows() == old(self).store.rows() && e.code
                    == ErrorCode::Internal && e.message@ == "UNIQUE constraint failed: workloads.id"@ && exists|i: int|
                    0 <= i < old(self).store.rows().len() && hyphenated_v4_uuid(
                        #[trigger] old(self).store.rows()[i].id,
                    ),
            },
            trim(image@).len() > 0 && (forall|i: int|
                0 <= i < old(self).store.rows().len() ==> !hyphenated_v4_uuid(
                    #[trigger] old(self).store.rows()[i].id,
                )) ==> r is Ok,
    {
        let ghost s0 = self.store;
        let id = new_workload_id();
        let ghost idv = id@;
        let now = now_unix_secs();
        let r = self.submit_at(kind, image, id, now);
        proof {
            s0.lemma_read(idv);
            if trim(image@).len() > 0 && row_index(s0.rows(), idv) >= 0 {
                let i = row_index(s0.rows(), idv);
                assert(hyphenated_v4_uuid(s0.rows()[i].id));
            }
        }
        r
    }

    /// The workload `id`.
    pub fn get(&self, workload_id: &str) -> (r: Result<Workload, WorkloadError>)
        requires
            self.store.wf(),
        ensures
            match r {
                Ok(w) => self.store.read(workload_id@) == Some(w@),
                Err(e) => self.store.read(workload_id@) is None && e.code == ErrorCode::NotFound
                    && e.message@ == not_found_message(workload_id@),
            },
    {
        self.store.get(workload_id)
    }

    /// Whose logs a request for the logs of workload `id` reads: those of its
    /// latest run's task (`None` where it has never run, and its logs are
    /// empty).
    pub fn get_logs(&self, workload_id: &str) -> (r: Result<Option<String>, WorkloadError>)
        requires
            self.store.wf(),
        ensures
            match r {
                Ok(task) => self.store.read(workload_id@) is Some && ({
                    let k = latest_run_index(self.store.runs(), workload_id@);
                    match task {
                        Some(t) => k >= 0 && t@ == self.store.runs()[k].runtime_task_id,
                        None => k == -1,
                    }
                }),
                Err(e) => self.store.read(workload_id@) is None && e.code == ErrorCode::NotFound
                    && e.message@ == not_found_message(workload_id@),
            },
    {
        match self.store.get(workload_id) {
            Ok(_) => {},
            Err(e) => return Err(e),
        }
        match self.store.latest_run(workload_id) {
            Some(run) => Ok(Some(run.runtime_task_id)),
            None => Ok(None),
        }
    }
}

/// What a start request does to the stored rows.
pub open spec fn started_rows(rows: Seq<WorkloadV>, id: Seq<char>, now: i64) -> Seq<WorkloadV> {
    let i = row_index(rows, id);
    rows.update(
        i,
        WorkloadV {
            desired_state: DesiredState::Running,
            restart_attempts: 0,
            restart_not_before_unix_secs: None,
            updated_at_unix_secs: now,
            ..rows[i]
        },
    )
}

/// What a stop or delete request does to the stored rows.
pub open spec fn desired_rows(rows: Seq<WorkloadV>, id: Seq<char>, desired: DesiredState, now: i64) -> Seq<
    WorkloadV,
> {
    let i = row_index(rows, id);
    rows.update(i, WorkloadV { desired_state: desired, updated_at_unix_secs: now, ..rows[i] })
}

pub open spec fn is_deleted(w: WorkloadV) -> bool {
    w.desired_state == DesiredState::Deleted || w.actual_state == ActualState::Deleted
}

impl WorkloadManager {
    /// Asks workload `id` to run again and forgets its restart backoff.
    /// Refused for workloads that are missing, of a kind that cannot be
    /// started by hand, or deleted (or being deleted).
    pub fn start_at(&mut self, workload_id: &str, now: i64) -> (r: Result<Workload, WorkloadError>)
        requires
            old(self).store.wf(),
        ensures
            final(self).store.wf(),
            final(self).store.runs() == old(self).store.runs(),
            final(self).timing == old(self).timing,
            match old(self).store.read(workload_id@) {
                None => final(self).store.rows() == old(self).store.rows() && (r matches Err(e)
                    && e.code == ErrorCode::NotFound && e.message@ == not_found_message(
                    workload_id@,
                )),
                Some(w0) => match start_rejection_of(w0.kind) {
                    Some(m) => final(self).store.rows() == old(self).store.rows() && (r matches Err(e) && e.code == ErrorCode::FailedPrecondition && e.message@ == m),
                    None => if is_deleted(w0) {
                        final(self).store.rows() == old(self).store.rows() && (r matches Err(e)
                            && e.code == ErrorCode::FailedPrecondition && e.message@
                            == "deleted workloads cannot be started"@
                    )} else {
                        final(self).store.rows() == started_rows(
                            old(self).store.rows(),
                            workload_id@,
                            now,
                        ) && (r matches Ok(w) && final(self).store.read(workload_id@) == Some(w@)
                    )},
                },
            },
    {
        let workload = match self.store.get(workload_id) {
            Ok(w) => w,
            Err(e) => return Err(e),
        };
        proof {
            self.store.lemma_read(workload_id@);
        }
        if let Err(e) = workload.kind.policy().ensure_start_allowed() {
            return Err(e);
        }
        if workload.desired_state == DesiredState::Deleted || workload.actual_state
            == ActualState::Deleted
            || !self.store.set_desired_running_unless_deleted_and_clear_backoff(workload_id, now) {
            return Err(WorkloadError::failed_precondition(String::from_str("deleted workloads cannot be started")));
        }
        proof {
            let i = row_index(old(self).store.rows(), workload_id@);
            crate::store::lemma_row_index_update(old(self).store.rows(), i, self.store.rows()[i]);
        }
        self.store.get(workload_id)
    }

    /// Asks workload `id` to stop. Refused for workloads that are missing or
    /// deleted (or being deleted).
    pub fn stop_at(&mut self, workload_id: &str, now: i64) -> (r: Result<Workload, WorkloadError>)
        requires
            old(self).store.wf(),
        ensures
            final(self).store.wf(),
            final(self).store.runs() == old(self).store.runs(),
            final(self).timing == old(self).timing,
            match old(self).store.read(workload_id@) {
                None => final(self).store.rows() == old(self).store.rows() && (r matches Err(e)
                    && e.code == ErrorCode::NotFound && e.message@ == not_found_message(
                    workload_id@,
                )),
                Some(w0) => if is_deleted(w0) {
                    final(self).store.rows() == old(self).store.rows() && (r matches Err(e)
                        && e.code == ErrorCode::FailedPrecondition && e.message@
                        == "deleted workloads cannot be stopped"@
                )} else {
                    final(self).store.rows() == desired_rows(
                        old(self).store.rows(),
                        workload_id@,
                        DesiredState::Stopped,
                        now,
                    ) && (r matches Ok(w) && final(self).store.read(workload_id@) == Some(w@)
                )},
            },
    {
        let workload = match self.store.get(workload_id) {
            Ok(w) => w,
            Err(e) => return Err(e),
        };
        proof {
            self.store.lemma_read(workload_id@);
        }
        if workload.desired_state == DesiredState::Deleted || workload.actual_state
            == ActualState::Deleted || !self.store.set_desired_unless_deleted(
            workload_id,
            DesiredState::Stopped,
            now,
        ) {
            return Err(WorkloadError::failed_precondition(String::from_str("deleted workloads cannot be stopped")));
        }
        proof {
            let i = row_index(old(self).store.rows(), workload_id@);
            crate::store::lemma_row_index_update(old(self).store.rows(), i, self.store.rows()[i]);
        }
        self.store.get(workload_id)
    }

    /// Asks workload `id` to be deleted: it is stopped, its run released,
    /// and its record kept as a tombstone.
    pub fn delete_at(&mut self, workload_id: &str, now: i64) -> (r: Result<Workload, WorkloadError>)
        requires
            old(self).store.wf(),
        ensures
            final(self).store.wf(),
            final(self).store.runs() == old(self).store.runs(),
            final(self).timing == old(self).timing,
            match old(self).store.read(workload_id@) {
                None => final(self).store.rows() == old(self).store.rows() && (r matches Err(e)
                    && e.code == ErrorCode::NotFound && e.message@ == not_found_message(
                    workload_id@,
                )),
                Some(w0) => final(self).store.rows() == desired_rows(
                    old(self).store.rows(),
                    workload_id@,
                    DesiredState::Deleted,
                    now,
                ) && (r matches Ok(w) && final(self).store.read(workload_id@) == Some(w@)),
            },
    {
        if let Err(e) = self.store.get(workload_id) {
            return Err(e);
        }
        proof {
            self.store.lemma_read(workload_id@);
        }
        if let Err(e) = self.store.set_desired(workload_id, DesiredState::Deleted, now) {
            return Err(e);
        }
        proof {
            let i = row_index(old(self).store.rows(), workload_id@);
            crate::store::lemma_row_index_update(old(self).store.rows(), i, self.store.rows()[i]);
        }
        self.store.get(workload_id)
    }

    /// Asks workload `id` to run again, now.
    pub fn start(&mut self, workload_id: &str) -> (r: Result<Workload, WorkloadError>)
        requires
            old(self).store.wf(),
        ensures
            final(self).store.wf(),
            final(self).store.runs() == old(self).store.runs(),
            final(self).timing == old(self).timing,
            match old(self).store.read(workload_id@) {
                None => final(self).store.rows() == old(self).store.rows() && (r matches Err(e)
                    && e.code == ErrorCode::NotFound && e.message@ == not_found_message(
                    workload_id@,
                )),
                Some(w0) => match start_rejection_of(w0.kind) {
                    Some(m) => final(self).store.rows() == old(self).store.rows() && (r matches Err(
                        e,
                    ) && e.code == ErrorCode::FailedPrecondition && e.message@ == m),
                    None => if is_deleted(w0) {
                        final(self).store.rows() == old(self).store.rows() && (r matches Err(e)
                            && e.code == ErrorCode::FailedPrecondition && e.message@
                            == "deleted workloads cannot be started"@)
                    } else {
                        exists|now: i64|
                            now >= 0 && final(self).store.rows() == #[trigger] started_rows(
                                old(self).store.rows(),
                                workload_id@,
                                now,
                            ) && (r matches Ok(w) && final(self).store.read(workload_id@) == Some(
                                w@,
                            ))
                    },
                },
            },
    {
        let now = now_unix_secs();
        self.start_at(workload_id, now)
    }

    /// Asks workload `id` to stop, now.
    pub fn stop(&mut self, workload_id: &str) -> (r: Result<Workload, WorkloadError>)
        requires
            old(self).store.wf(),
        ensures
            final(self).store.wf(),
            final(self).store.runs() == old(self).store.runs(),
            final(self).timing == old(self).timing,
            match old(self).store.read(workload_id@) {
                None => final(self).store.rows() == old(self).store.rows() && (r matches Err(e)
                    && e.code == ErrorCode::NotFound && e.message@ == not_found_message(
                    workload_id@,
                )),
                Some(w0) => if is_deleted(w0) {
                    final(self).store.rows() == old(self).store.rows() && (r matches Err(e)
                        && e.code == ErrorCode::FailedPrecondition && e.message@
                        == "deleted workloads cannot be stopped"@)
                } else {
                    exists|now: i64|
                        now >= 0 && final(self).store.rows() == #[trigger] desired_rows(
                            old(self).store.rows(),
                            workload_id@,
                            DesiredState::Stopped,
                            now,
                        ) && (r matches Ok(w) && final(self).store.read(workload_id@) == Some(w@))
                },
            },
    {
        let now = now_unix_secs();
        self.stop_at(workload_id, now)
    }

    /// Asks workload `id` to be deleted, now.
    pub fn delete(&mut self, workload_id: &str) -> (r: Result<Workload, WorkloadError>)
        requires
            old(self).store.wf(),
        ensures
            final(self).store.wf(),
            final(self).store.runs() == old(self).store.runs(),
            final(self).timing == old(self).timing,
            match old(self).store.read(workload_id@) {
                None => final(self).store.rows() == old(self).store.rows() && (r matches Err(e)
                    && e.code == ErrorCode::NotFound && e.message@ == not_found_message(
                    workload_id@,
                )),
                Some(w0) => exists|now: i64|
                    now >= 0 && final(self).store.rows() == #[trigger] desired_rows(
                        old(self).store.rows(),
                        workload_id@,
                        DesiredState::Deleted,
                        now,
                    ) && (r matches Ok(w) && final(self).store.read(workload_id@) == Some(w@)),
            },
    {
        let now = now_unix_secs();
        self.delete_at(workload_id, now)
    }
}

impl Timing {
    pub open spec fn defaults_spec() -> Timing {
        Timing {
            watch_interval_secs: 1,
            reconcile_interval_secs: 2,
            stop_grace_secs: 10,
            stop_kill_secs: 10,
            runtime_unknown_grace_secs: 30,
            restart_backoff_initial_secs: 5,
            restart_backoff_cap_secs: 300,
            restart_backoff_reset_secs: 600,
        }
    }
}

} // verus!
