//! Where the installer puts the agent, containerd and the CNI plugins, the
//! files it writes, and the checks it makes before it touches anything.

use vstd::prelude::*;
use crate::text::{chars_of, joined, views, join_strings, no_duplicates};
use crate::manager::env_string_or_default;
use crate::seqs::{first_where, lemma_first_where, lemma_first_where_is};
use crate::text::parsed_unsigned;
use crate::text::parse_unsigned;

verus! {

pub const AGENT_BINARY_NAME: &'static str = "billow-agent";
pub const CONTAINERD_BINARY_NAME: &'static str = "containerd";
pub const CONTAINERD_SHIM_BINARY_NAME: &'static str = "containerd-shim-runc-v2";
pub const CRUN_BINARY_NAME: &'static str = "crun";
pub const CNI_DIR_NAME: &'static str = "cni";
pub const AGENT_SERVICE_NAME: &'static str = "billow-agent.service";
pub const CONTAINERD_SERVICE_NAME: &'static str = "billow-containerd.service";
pub const DEFAULT_BIN_DIR: &'static str = "/usr/local/lib/billow/bin";
pub const DEFAULT_CONFIG_DIR: &'static str = "/etc/billow";
pub const DEFAULT_SYSTEMD_UNIT_DIR: &'static str = "/etc/systemd/system";
pub const DEFAULT_SYSTEMD_RUNTIME_DIR: &'static str = "/run/systemd/system";
pub const BINARY_SOURCE_HINT: &'static str = "next to billow-init or in the current directory";
pub const CNI_SOURCE_HINT: &'static str = "in the cni directory next to billow-init";

/// `name` resolved against the directory `base`, as `Path::join` does: an
/// absolute `name` replaces `base`; otherwise one `/` separates them unless
/// `base` is empty or already ends with one.
pub open spec fn path_join(base: Seq<char>, name: Seq<char>) -> Seq<char> {
    if name.len() > 0 && name[0] == '/' {
        name
    } else if base.len() == 0 || base.last() == '/' {
        base + name
    } else {
        base + seq!['/'] + name
    }
}

/// Joins `name` onto the directory `base`.
pub fn join_path(base: &str, name: &str) -> (r: String)
    ensures
        r@ == path_join(base@, name@),
{
    let b = chars_of(base);
    let n = chars_of(name);
    if n.len() > 0 && n[0] == '/' {
        String::from_str(name)
    } else if b.len() == 0 || b[b.len() - 1] == '/' {
        let mut r = String::from_str(base);
        r.append(name);
        r
    } else {
        let mut r = String::from_str(base);
        r.append("/");
        proof {
            reveal_strlit("/");
            assert("/"@ =~= seq!['/']);
        }
        r.append(name);
        r
    }
}

/// The directories the installer works with, each taken from its
/// environment variable where that is set and not empty.
pub struct InstallLayout {
    pub download_dir: Option<String>,
    pub bin_dir: String,
    pub config_dir: String,
    pub systemd_unit_dir: String,
    pub systemd_runtime_dir: String,
}

/// A directory from an environment value that counts only where it is not
/// empty.
pub open spec fn set_dir(value: Option<&str>) -> Option<Seq<char>> {
    match value {
        Some(v) => if v@.len() > 0 {
            Some(v@)
        } else {
            None
        },
        None => None,
    }
}

pub open spec fn dir_or(value: Option<&str>, default: Seq<char>) -> Seq<char> {
    match set_dir(value) {
        Some(d) => d,
        None => default,
    }
}

pub open spec fn opt_view(o: Option<String>) -> Option<Seq<char>> {
    match o {
        Some(s) => Some(s@),
        None => None,
    }
}

impl InstallLayout {
    /// The layout from the values of `BILLOW_DOWNLOAD_DIR`, `BILLOW_BIN_DIR`,
    /// `BILLOW_CONFIG_DIR`, `BILLOW_SYSTEMD_UNIT_DIR` and
    /// `BILLOW_SYSTEMD_RUNTIME_DIR`.
    pub fn from_env_values(
        download_dir: Option<&str>,
        bin_dir: Option<&str>,
        config_dir: Option<&str>,
        systemd_unit_dir: Option<&str>,
        systemd_runtime_dir: Option<&str>,
    ) -> (l: InstallLayout)
        ensures
            opt_view(l.download_dir) == set_dir(download_dir),
            l.bin_dir@ == dir_or(bin_dir, DEFAULT_BIN_DIR@),
            l.config_dir@ == dir_or(config_dir, DEFAULT_CONFIG_DIR@),
            l.systemd_unit_dir@ == dir_or(systemd_unit_dir, DEFAULT_SYSTEMD_UNIT_DIR@),
            l.systemd_runtime_dir@ == dir_or(systemd_runtime_dir, DEFAULT_SYSTEMD_RUNTIME_DIR@),
    {
        let download = match download_dir {
            Some(d) => if d.unicode_len() > 0 {
                Some(String::from_str(d))
            } else {
                None
            },
            None => None,
        };
        InstallLayout {
            download_dir: download,
            bin_dir: env_string_or_default(bin_dir, DEFAULT_BIN_DIR),
            config_dir: env_string_or_default(config_dir, DEFAULT_CONFIG_DIR),
            systemd_unit_dir: env_string_or_default(systemd_unit_dir, DEFAULT_SYSTEMD_UNIT_DIR),
            systemd_runtime_dir: env_string_or_default(
                systemd_runtime_dir,
                DEFAULT_SYSTEMD_RUNTIME_DIR,
            ),
        }
    }

    /// The layout with every directory at its default.
    pub fn defaults() -> (l: InstallLayout)
        ensures
            l.download_dir is None,
            l.bin_dir@ == DEFAULT_BIN_DIR@,
            l.config_dir@ == DEFAULT_CONFIG_DIR@,
            l.systemd_unit_dir@ == DEFAULT_SYSTEMD_UNIT_DIR@,
            l.systemd_runtime_dir@ == DEFAULT_SYSTEMD_RUNTIME_DIR@,
    {
        InstallLayout::from_env_values(None, None, None, None, None)
    }

    pub open spec fn binary_install_path_spec(&self, name: Seq<char>) -> Seq<char> {
        path_join(self.bin_dir@, name)
    }

    pub open spec fn cni_plugin_dir_spec(&self) -> Seq<char> {
        path_join(self.bin_dir@, CNI_DIR_NAME@)
    }

    pub open spec fn containerd_config_dir_spec(&self) -> Seq<char> {
        path_join(self.config_dir@, CONTAINERD_BINARY_NAME@)
    }

    pub open spec fn containerd_config_path_spec(&self) -> Seq<char> {
        path_join(self.containerd_config_dir_spec(), "config.toml"@)
    }

    /// Where the binary `name` is installed.
    pub fn binary_install_path(&self, name: &str) -> (p: String)
        ensures
            p@ == self.binary_install_path_spec(name@),
    {
        join_path(self.bin_dir.as_str(), name)
    }

    pub fn agent_install_path(&self) -> (p: String)
        ensures
            p@ == self.binary_install_path_spec(AGENT_BINARY_NAME@),
    {
        self.binary_install_path(AGENT_BINARY_NAME)
    }

    pub fn containerd_install_path(&self) -> (p: String)
        ensures
            p@ == self.binary_install_path_spec(CONTAINERD_BINARY_NAME@),
    {
        self.binary_install_path(CONTAINERD_BINARY_NAME)
    }

    pub fn containerd_shim_install_path(&self) -> (p: String)
        ensures
            p@ == self.binary_install_path_spec(CONTAINERD_SHIM_BINARY_NAME@),
    {
        self.binary_install_path(CONTAINERD_SHIM_BINARY_NAME)
    }

    pub fn crun_install_path(&self) -> (p: String)
        ensures
            p@ == self.binary_install_path_spec(CRUN_BINARY_NAME@),
    {
        self.binary_install_path(CRUN_BINARY_NAME)
    }

    /// The directory the CNI plugins are installed in.
    pub fn cni_plugin_dir(&self) -> (p: String)
        ensures
            p@ == self.cni_plugin_dir_spec(),
    {
        join_path(self.bin_dir.as_str(), CNI_DIR_NAME)
    }

    /// Where the CNI plugin `name` is installed.
    pub fn cni_plugin_install_path(&self, name: &str) -> (p: String)
        ensures
            p@ == path_join(self.cni_plugin_dir_spec(), name@),
    {
        let dir = self.cni_plugin_dir();
        join_path(dir.as_str(), name)
    }

    pub fn containerd_config_dir(&self) -> (p: String)
        ensures
            p@ == self.containerd_config_dir_spec(),
    {
        join_path(self.config_dir.as_str(), CONTAINERD_BINARY_NAME)
    }

    pub fn containerd_config_path(&self) -> (p: String)
        ensures
            p@ == self.containerd_config_path_spec(),
    {
        let dir = self.containerd_config_dir();
        join_path(dir.as_str(), "config.toml")
    }

    pub fn agent_service_path(&self) -> (p: String)
        ensures
            p@ == path_join(self.systemd_unit_dir@, AGENT_SERVICE_NAME@),
    {
        join_path(self.systemd_unit_dir.as_str(), AGENT_SERVICE_NAME)
    }

    pub fn containerd_service_path(&self) -> (p: String)
        ensures
            p@ == path_join(self.systemd_unit_dir@, CONTAINERD_SERVICE_NAME@),
    {
        join_path(self.systemd_unit_dir.as_str(), CONTAINERD_SERVICE_NAME)
    }
}


pub const AGENT_UNIT_HEAD: &'static str = "[Unit]\nDescription=Billow Agent\nRequires=billow-containerd.service\nAfter=network.target billow-containerd.service\n\n[Service]\nType=simple\nEnvironment=BILLOW_CONTAINERD_SOCKET=/run/billow/containerd/containerd.sock\nEnvironment=BILLOW_CONTAINERD_SHIM=";
pub const AGENT_UNIT_CRUN: &'static str = "\nEnvironment=BILLOW_CRUN=";
pub const AGENT_UNIT_CNI: &'static str = "\nEnvironment=BILLOW_TASK_DIR=/run/billow/tasks\nEnvironment=BILLOW_WORKLOAD_DB_PATH=/var/lib/billow/workloads.sqlite3\nEnvironment=BILLOW_CNI_PLUGIN_DIR=";
pub const AGENT_UNIT_EXEC: &'static str = "\nEnvironment=BILLOW_CNI_NETNS_DIR=/run/billow/netns\nEnvironment=BILLOW_CNI_IPAM_DIR=/var/lib/billow/cni/ipam\nEnvironment=BILLOW_CNI_NETWORK_NAME=billow-net\nEnvironment=BILLOW_CNI_BRIDGE_NAME=billow0\nEnvironment=BILLOW_CNI_SUBNET=10.1.1.0/24\nExecStart=";
pub const UNIT_TAIL: &'static str = "\nRestart=on-failure\nRestartSec=5s\n\n[Install]\nWantedBy=multi-user.target\n";
pub const CONTAINERD_UNIT_HEAD: &'static str = "[Unit]\nDescription=Billow Containerd\nAfter=network.target\n\n[Service]\nType=notify\nExecStartPre=/usr/bin/install -d -m 0755 /var/lib/billow/containerd /run/billow/containerd\nExecStart=";
pub const CONTAINERD_UNIT_CONFIG: &'static str = " --config ";
pub const CONTAINERD_UNIT_ARGS: &'static str = " --root /var/lib/billow/containerd --state /run/billow/containerd --address /run/billow/containerd/containerd.sock\nDelegate=yes\nKillMode=process";
pub const CONFIG_HEAD: &'static str = "version = 3\n\n[plugins.'io.containerd.cri.v1.runtime'.containerd]\ndefault_runtime_name = 'runc'\n\n[plugins.'io.containerd.cri.v1.runtime'.containerd.runtimes.runc]\nruntime_type = 'io.containerd.runc.v2'\nruntime_path = '";
pub const CONFIG_BINARY: &'static str = "'\n\n[plugins.'io.containerd.cri.v1.runtime'.containerd.runtimes.runc.options]\nBinaryName = '";
pub const CONFIG_TAIL: &'static str = "'\n";

/// The systemd unit of the agent, which runs the installed agent binary with
/// the environment that points it at the installed containerd, shim, crun and
/// CNI plugins.
pub open spec fn agent_unit_text(
    agent: Seq<char>,
    shim: Seq<char>,
    crun: Seq<char>,
    cni_dir: Seq<char>,
) -> Seq<char> {
    AGENT_UNIT_HEAD@ + shim + AGENT_UNIT_CRUN@ + crun + AGENT_UNIT_CNI@ + cni_dir
        + AGENT_UNIT_EXEC@ + agent + UNIT_TAIL@
}

/// The systemd unit of containerd, started with the installed configuration
/// and Billow's own root, state and socket.
pub open spec fn containerd_unit_text(containerd: Seq<char>, config: Seq<char>) -> Seq<char> {
    CONTAINERD_UNIT_HEAD@ + containerd + CONTAINERD_UNIT_CONFIG@ + config
        + CONTAINERD_UNIT_ARGS@ + UNIT_TAIL@
}

/// The containerd configuration, which makes runc with the installed shim
/// and crun the default runtime.
pub open spec fn config_text(shim: Seq<char>, crun: Seq<char>) -> Seq<char> {
    CONFIG_HEAD@ + shim + CONFIG_BINARY@ + crun + CONFIG_TAIL@
}

impl InstallLayout {
    /// The contents of `billow-agent.service`.
    pub fn agent_service_unit(&self) -> (u: String)
        ensures
            u@ == agent_unit_text(
                self.binary_install_path_spec(AGENT_BINARY_NAME@),
                self.binary_install_path_spec(CONTAINERD_SHIM_BINARY_NAME@),
                self.binary_install_path_spec(CRUN_BINARY_NAME@),
                self.cni_plugin_dir_spec(),
            ),
    {
        let agent = self.agent_install_path();
        let shim = self.containerd_shim_install_path();
        let crun = self.crun_install_path();
        let cni = self.cni_plugin_dir();
        let mut u = String::from_str(AGENT_UNIT_HEAD);
        u.append(shim.as_str());
        u.append(AGENT_UNIT_CRUN);
        u.append(crun.as_str());
        u.append(AGENT_UNIT_CNI);
        u.append(cni.as_str());
        u.append(AGENT_UNIT_EXEC);
        u.append(agent.as_str());
        u.append(UNIT_TAIL);
        u
    }

    /// The contents of `billow-containerd.service`.
    pub fn containerd_service_unit(&self) -> (u: String)
        ensures
            u@ == containerd_unit_text(
                self.binary_install_path_spec(CONTAINERD_BINARY_NAME@),
                self.containerd_config_path_spec(),
            ),
    {
        let containerd = self.containerd_install_path();
        let config = self.containerd_config_path();
        let mut u = String::from_str(CONTAINERD_UNIT_HEAD);
        u.append(containerd.as_str());
        u.append(CONTAINERD_UNIT_CONFIG);
        u.append(config.as_str());
        u.append(CONTAINERD_UNIT_ARGS);
        u.append(UNIT_TAIL);
        u
    }

    /// The contents of containerd's `config.toml`.
    pub fn config_contents(&self) -> (c: String)
        ensures
            c@ == config_text(
                self.binary_install_path_spec(CONTAINERD_SHIM_BINARY_NAME@),
                self.binary_install_path_spec(CRUN_BINARY_NAME@),
            ),
    {
        let shim = self.containerd_shim_install_path();
        let crun = self.crun_install_path();
        let mut c = String::from_str(CONFIG_HEAD);
        c.append(shim.as_str());
        c.append(CONFIG_BINARY);
        c.append(crun.as_str());
        c.append(CONFIG_TAIL);
        c
    }
}


pub const UID_OVERRIDE_ERROR: &'static str = "BILLOW_OVERRIDE_UID must be an unsigned integer";
pub const NOT_ROOT_ERROR: &'static str = "must be run as root";
pub const SYSTEMCTL_MISSING_ERROR: &'static str = "systemctl is not available";

/// The user id the installer runs as: the value of `BILLOW_OVERRIDE_UID`
/// where that is set, else the process's effective user id. A set value
/// that is not a `u32` is refused.
pub fn effective_uid(override_value: Option<&str>, process_uid: u32) -> (r: Result<u32, String>)
    ensures
        match override_value {
            None => r == Ok::<u32, String>(process_uid),
            Some(v) => match parsed_unsigned(v@, u32::MAX as nat) {
                Some(n) => r == Ok::<u32, String>(n as u32),
                None => r is Err && r->Err_0@ == UID_OVERRIDE_ERROR@,
            },
        },
{
    match override_value {
        None => Ok(process_uid),
        Some(v) => {
            let chars = chars_of(v);
            match parse_unsigned(&chars, u32::MAX as u64) {
                Some(n) => Ok(n as u32),
                None => Err(String::from_str(UID_OVERRIDE_ERROR)),
            }
        },
    }
}

/// Only root may install.
pub fn ensure_root(uid: u32) -> (r: Result<(), String>)
    ensures
        uid == 0 ==> r is Ok,
        uid != 0 ==> r is Err && r->Err_0@ == NOT_ROOT_ERROR@,
{
    if uid == 0 {
        Ok(())
    } else {
        Err(String::from_str(NOT_ROOT_ERROR))
    }
}

pub open spec fn missing_dir_message(what: Seq<char>, dir: Seq<char>) -> Seq<char> {
    what + dir + " does not exist"@
}

fn missing_dir_error(what: &str, dir: &str) -> (e: String)
    ensures
        e@ == missing_dir_message(what@, dir@),
{
    let mut e = String::from_str(what);
    e.append(dir);
    e.append(" does not exist");
    e
}

/// What `ensure_available` finds: systemd's unit directory must exist,
/// then `systemctl --version` must succeed, then systemd's runtime directory
/// must exist.
pub open spec fn availability(
    layout: InstallLayout,
    unit_dir_is_dir: bool,
    systemctl_works: bool,
    runtime_dir_is_dir: bool,
) -> Result<(), Seq<char>> {
    if !unit_dir_is_dir {
        Err(missing_dir_message("systemd unit directory "@, layout.systemd_unit_dir@))
    } else if !systemctl_works {
        Err(SYSTEMCTL_MISSING_ERROR@)
    } else if !runtime_dir_is_dir {
        Err(missing_dir_message("systemd runtime directory "@, layout.systemd_runtime_dir@))
    } else {
        Ok(())
    }
}

pub open spec fn unit_result_view(r: Result<(), String>) -> Result<(), Seq<char>> {
    match r {
        Ok(()) => Ok(()),
        Err(e) => Err(e@),
    }
}

/// systemd must be there to install into: see `availability`. The caller
/// probes in that order and stops probing at the first failure.
pub fn ensure_available(
    layout: &InstallLayout,
    unit_dir_is_dir: bool,
    systemctl_works: bool,
    runtime_dir_is_dir: bool,
) -> (r: Result<(), String>)
    ensures
        unit_result_view(r) == availability(
            *layout,
            unit_dir_is_dir,
            systemctl_works,
            runtime_dir_is_dir,
        ),
{
    if !unit_dir_is_dir {
        Err(missing_dir_error("systemd unit directory ", layout.systemd_unit_dir.as_str()))
    } else if !systemctl_works {
        Err(String::from_str(SYSTEMCTL_MISSING_ERROR))
    } else if !runtime_dir_is_dir {
        Err(missing_dir_error("systemd runtime directory ", layout.systemd_runtime_dir.as_str()))
    } else {
        Ok(())
    }
}

/// The test for a flag that is set.
pub open spec fn flag_set() -> spec_fn(bool) -> bool {
    |b: bool| b
}

/// Nothing may be installed over: the first of `paths` that `exists` marks
/// as present is reported as `<path> already exists`.
pub fn ensure_not_installed(paths: &Vec<String>, exists: &Vec<bool>) -> (r: Result<(), String>)
    requires
        paths.len() == exists.len(),
    ensures
        ({
            let i = first_where(exists@, flag_set());
            &&& i == exists@.len() ==> r is Ok
            &&& i < exists@.len() ==> r is Err && r->Err_0@ == paths@[i]@ + " already exists"@
        }),
{
    let ghost p = flag_set();
    let mut i: usize = 0;
    while i < exists.len()
        invariant
            i <= exists@.len(),
            paths@.len() == exists@.len(),
            p == (flag_set()),
            forall|j: int| 0 <= j < i ==> !p(#[trigger] exists@[j]),
        decreases exists.len() - i,
    {
        if exists[i] {
            proof {
                lemma_first_where_is(exists@, p, i as int);
            }
            let mut e = paths[i].clone();
            e.append(" already exists");
            return Err(e);
        }
        i = i + 1;
    }
    proof {
        lemma_first_where_is(exists@, p, i as int);
    }
    Ok(())
}

/// The source of the binary `name`: the first of `candidates` that `is_file`
/// marks as a regular file, or `<name> must be present <hint>`.
fn first_source(name: &str, candidates: &Vec<String>, is_file: &Vec<bool>, hint: &str) -> (r:
    Result<String, String>)
    requires
        candidates.len() == is_file.len(),
    ensures
        has_source(is_file@) ==> r is Ok && r->Ok_0@ == candidates@[first_where(
            is_file@,
            flag_set(),
        )]@,
        !has_source(is_file@) ==> r is Err && r->Err_0@ == name@ + " must be present "@ + hint@,
{
    let ghost p = flag_set();
    let mut i: usize = 0;
    while i < is_file.len()
        invariant
            i <= is_file@.len(),
            candidates@.len() == is_file@.len(),
            p == (flag_set()),
            forall|j: int| 0 <= j < i ==> !p(#[trigger] is_file@[j]),
        decreases is_file.len() - i,
    {
        if is_file[i] {
            proof {
                lemma_first_where_is(is_file@, p, i as int);
            }
            return Ok(candidates[i].clone());
        }
        i = i + 1;
    }
    proof {
        lemma_first_where_is(is_file@, p, i as int);
    }
    let mut e = String::from_str(name);
    e.append(" must be present ");
    e.append(hint);
    Err(e)
}

/// `s` with each element after its first occurrence left out.
pub open spec fn dedup(s: Seq<Seq<char>>) -> Seq<Seq<char>>
    decreases s.len(),
{
    if s.len() == 0 {
        Seq::empty()
    } else {
        let d = dedup(s.drop_last());
        if d.contains(s.last()) {
            d
        } else {
            d.push(s.last())
        }
    }
}


/// Deduplication leaves no element twice and keeps exactly the elements
/// that were there.
pub proof fn lemma_dedup(s: Seq<Seq<char>>)
    ensures
        no_duplicates(dedup(s)),
        forall|x: Seq<char>| dedup(s).contains(x) <==> s.contains(x),
        dedup(s).len() <= s.len(),
    decreases s.len(),
{
    if s.len() > 0 {
        let t = s.drop_last();
        lemma_dedup(t);
        let d = dedup(t);
        assert forall|x: Seq<char>| s.contains(x) <==> (t.contains(x) || x == s.last()) by {
            if s.contains(x) {
                let k = choose|k: int| 0 <= k < s.len() && s[k] == x;
                if k < s.len() - 1 {
                    assert(t[k] == x);
                }
            }
            if t.contains(x) {
                let k = choose|k: int| 0 <= k < t.len() && t[k] == x;
                assert(s[k] == x);
            }
            if x == s.last() {
                assert(s[s.len() - 1] == x);
            }
        }
        if !d.contains(s.last()) {
            let e = d.push(s.last());
            assert forall|x: Seq<char>| e.contains(x) <==> (d.contains(x) || x == s.last()) by {
                if e.contains(x) {
                    let k = choose|k: int| 0 <= k < e.len() && e[k] == x;
                    if k < d.len() {
                        assert(d[k] == x);
                    }
                }
                if d.contains(x) {
                    let k = choose|k: int| 0 <= k < d.len() && d[k] == x;
                    assert(e[k] == x);
                }
                if x == s.last() {
                    assert(e[d.len() as int] == x);
                }
            }
            assert forall|i: int, j: int| 0 <= i < j < e.len() implies e[i] != e[j] by {
                if j == d.len() {
                    assert(d[i] == e[i]);
                    assert(d.contains(e[i]));
                }
            }
        }
    }
}

/// The paths without repetitions, each kept where it first occurs.
pub fn deduplicate(paths: Vec<String>) -> (r: Vec<String>)
    ensures
        views(r@) == dedup(views(paths@)),
{
    let mut r: Vec<String> = Vec::new();
    let mut i: usize = 0;
    while i < paths.len()
        invariant
            i <= paths@.len(),
            views(r@) == dedup(views(paths@).take(i as int)),
        decreases paths.len() - i,
    {
        let mut found = false;
        let mut j: usize = 0;
        while j < r.len()
            invariant
                j <= r@.len(),
                i < paths@.len(),
                found <==> exists|k: int| 0 <= k < j && r@[k]@ == paths@[i as int]@,
            decreases r.len() - j,
        {
            if r[j] == paths[i] {
                found = true;
            }
            j = j + 1;
        }
        let ghost before = views(paths@).take(i as int);
        let ghost after = views(paths@).take(i + 1);
        proof {
            assert(after.drop_last() =~= before);
            assert(after.last() == paths@[i as int]@);
            let d = views(r@);
            if found {
                let k = choose|k: int| 0 <= k < j && r@[k]@ == paths@[i as int]@;
                assert(d[k] == paths@[i as int]@);
                assert(d.contains(after.last()));
            } else {
                assert forall|k: int| 0 <= k < d.len() implies d[k] != after.last() by {
                    assert(d[k] == r@[k]@);
                }
                assert(!d.contains(after.last()));
            }
        }
        if !found {
            r.push(paths[i].clone());
            proof {
                assert(views(r@) =~= dedup(before).push(after.last()));
            }
        }
        i = i + 1;
    }
    assert(views(paths@).take(paths@.len() as int) =~= views(paths@));
    r
}


pub open spec fn opt_str(o: Option<&str>) -> Option<Seq<char>> {
    match o {
        Some(s) => Some(s@),
        None => None,
    }
}

/// Where `name` is looked for under `dir`: directly, or in its `cni`
/// subdirectory for a CNI plugin.
pub open spec fn under(dir: Seq<char>, in_cni: bool, name: Seq<char>) -> Seq<char> {
    if in_cni {
        path_join(path_join(dir, CNI_DIR_NAME@), name)
    } else {
        path_join(dir, name)
    }
}

/// The places a binary is taken from: the download directory alone where it
/// is set; else next to the installer, then the current directory, each
/// place once.
pub open spec fn source_candidates(
    download: Option<Seq<char>>,
    exe_dir: Option<Seq<char>>,
    cwd: Seq<char>,
    in_cni: bool,
    name: Seq<char>,
) -> Seq<Seq<char>> {
    match download {
        Some(d) => seq![under(d, in_cni, name)],
        None => dedup(
            match exe_dir {
                Some(e) => seq![under(e, in_cni, name), under(cwd, in_cni, name)],
                None => seq![under(cwd, in_cni, name)],
            },
        ),
    }
}

fn under_dir(dir: &str, in_cni: bool, name: &str) -> (p: String)
    ensures
        p@ == under(dir@, in_cni, name@),
{
    if in_cni {
        let sub = join_path(dir, CNI_DIR_NAME);
        join_path(sub.as_str(), name)
    } else {
        join_path(dir, name)
    }
}

impl InstallLayout {
    fn candidates(&self, exe_dir: Option<&str>, current_dir: &str, in_cni: bool, name: &str) -> (r:
        Vec<String>)
        ensures
            views(r@) == source_candidates(
                opt_view(self.download_dir),
                opt_str(exe_dir),
                current_dir@,
                in_cni,
                name@,
            ),
    {
        match &self.download_dir {
            Some(d) => {
                let mut r: Vec<String> = Vec::new();
                r.push(under_dir(d.as_str(), in_cni, name));
                assert(views(r@) =~= seq![under(d@, in_cni, name@)]);
                r
            },
            None => {
                let mut v: Vec<String> = Vec::new();
                match exe_dir {
                    Some(e) => {
                        v.push(under_dir(e, in_cni, name));
                        v.push(under_dir(current_dir, in_cni, name));
                        assert(views(v@) =~= seq![
                            under(e@, in_cni, name@),
                            under(current_dir@, in_cni, name@),
                        ]);
                    },
                    None => {
                        v.push(under_dir(current_dir, in_cni, name));
                        assert(views(v@) =~= seq![under(current_dir@, in_cni, name@)]);
                    },
                }
                deduplicate(v)
            },
        }
    }

    /// Where the binary `name` may be found; `exe_dir` is the installer's own
    /// directory, where it has one.
    pub fn binary_source_candidates(&self, exe_dir: Option<&str>, current_dir: &str, name: &str) -> (r:
        Vec<String>)
        ensures
            views(r@) == source_candidates(
                opt_view(self.download_dir),
                opt_str(exe_dir),
                current_dir@,
                false,
                name@,
            ),
    {
        self.candidates(exe_dir, current_dir, false, name)
    }

    /// Where the CNI plugin `name` may be found.
    pub fn cni_plugin_source_candidates(
        &self,
        exe_dir: Option<&str>,
        current_dir: &str,
        name: &str,
    ) -> (r: Vec<String>)
        ensures
            views(r@) == source_candidates(
                opt_view(self.download_dir),
                opt_str(exe_dir),
                current_dir@,
                true,
                name@,
            ),
    {
        self.candidates(exe_dir, current_dir, true, name)
    }
}

/// The error of a command that ran and failed: `<program> <args> failed with
/// <status>`.
pub fn command_failure_message(program: &str, args: &Vec<String>, status: &str) -> (m: String)
    ensures
        m@ == program@ + " "@ + joined(views(args@), " "@) + " failed with "@ + status@,
{
    let mut m = String::from_str(program);
    m.append(" ");
    let a = join_strings(args, " ");
    m.append(a.as_str());
    m.append(" failed with ");
    m.append(status);
    m
}

/// The error of a command that could not be run: `failed to run <program>
/// <args>: <error>`.
pub fn command_spawn_failure_message(program: &str, args: &Vec<String>, error: &str) -> (m: String)
    ensures
        m@ == "failed to run "@ + program@ + " "@ + joined(views(args@), " "@) + ": "@ + error@,
{
    let mut m = String::from_str("failed to run ");
    m.append(program);
    m.append(" ");
    let a = join_strings(args, " ");
    m.append(a.as_str());
    m.append(": ");
    m.append(error);
    m
}


pub const CNI_PLUGIN_NAMES: [&'static str; 3] = ["bridge", "host-local", "loopback"];

/// The binaries the installer moves into place, in order.
pub fn install_binary_names() -> (v: Vec<String>)
    ensures
        views(v@) == seq![
            AGENT_BINARY_NAME@,
            CONTAINERD_BINARY_NAME@,
            CONTAINERD_SHIM_BINARY_NAME@,
            CRUN_BINARY_NAME@,
        ],
{
    let mut v: Vec<String> = Vec::new();
    v.push(String::from_str(AGENT_BINARY_NAME));
    v.push(String::from_str(CONTAINERD_BINARY_NAME));
    v.push(String::from_str(CONTAINERD_SHIM_BINARY_NAME));
    v.push(String::from_str(CRUN_BINARY_NAME));
    assert(views(v@) =~= seq![
        AGENT_BINARY_NAME@,
        CONTAINERD_BINARY_NAME@,
        CONTAINERD_SHIM_BINARY_NAME@,
        CRUN_BINARY_NAME@,
    ]);
    v
}

/// The CNI plugins the installer moves into place, in order.
pub fn cni_plugin_names() -> (v: Vec<String>)
    ensures
        views(v@) == seq!["bridge"@, "host-local"@, "loopback"@],
{
    let mut v: Vec<String> = Vec::new();
    v.push(String::from_str("bridge"));
    v.push(String::from_str("host-local"));
    v.push(String::from_str("loopback"));
    assert(views(v@) =~= seq!["bridge"@, "host-local"@, "loopback"@]);
    v
}

/// `containerd/config.toml` must not exist yet.
pub fn ensure_config_not_installed(layout: &InstallLayout, exists: bool) -> (r: Result<(), String>)
    ensures
        !exists ==> r is Ok,
        exists ==> r is Err && r->Err_0@ == layout.containerd_config_path_spec()
            + " already exists"@,
{
    if exists {
        let mut e = layout.containerd_config_path();
        e.append(" already exists");
        Err(e)
    } else {
        Ok(())
    }
}

/// Neither unit may exist yet; the containerd unit is looked at first.
pub fn ensure_units_not_installed(
    layout: &InstallLayout,
    containerd_unit_exists: bool,
    agent_unit_exists: bool,
) -> (r: Result<(), String>)
    ensures
        containerd_unit_exists ==> r is Err && r->Err_0@ == path_join(
            layout.systemd_unit_dir@,
            CONTAINERD_SERVICE_NAME@,
        ) + " already exists"@,
        !containerd_unit_exists && agent_unit_exists ==> r is Err && r->Err_0@ == path_join(
            layout.systemd_unit_dir@,
            AGENT_SERVICE_NAME@,
        ) + " already exists"@,
        !containerd_unit_exists && !agent_unit_exists ==> r is Ok,
{
    if containerd_unit_exists {
        let mut e = layout.containerd_service_path();
        e.append(" already exists");
        Err(e)
    } else if agent_unit_exists {
        let mut e = layout.agent_service_path();
        e.append(" already exists");
        Err(e)
    } else {
        Ok(())
    }
}

/// The install paths of `names` under `dir` (the CNI directory where
/// `in_cni`).
pub open spec fn install_paths(
    layout: InstallLayout,
    names: Seq<Seq<char>>,
    in_cni: bool,
) -> Seq<Seq<char>> {
    names.map_values(|n: Seq<char>| under(layout.bin_dir@, in_cni, n))
}

fn install_paths_of(layout: &InstallLayout, names: &Vec<String>, in_cni: bool) -> (v: Vec<String>)
    ensures
        views(v@) == install_paths(*layout, views(names@), in_cni),
{
    let mut v: Vec<String> = Vec::new();
    let mut i: usize = 0;
    while i < names.len()
        invariant
            i <= names@.len(),
            views(v@) == install_paths(*layout, views(names@).take(i as int), in_cni),
        decreases names.len() - i,
    {
        let ghost prev = views(names@).take(i as int);
        let ghost before = views(v@);
        let p = under_dir(layout.bin_dir.as_str(), in_cni, names[i].as_str());
        v.push(p);
        proof {
            let x = names@[i as int]@;
            assert(views(names@).take(i + 1) =~= prev.push(x));
            assert(install_paths(*layout, prev.push(x), in_cni) =~= install_paths(
                *layout,
                prev,
                in_cni,
            ).push(under(layout.bin_dir@, in_cni, x)));
            assert(views(v@) =~= before.push(p@));
        }
        i = i + 1;
    }
    assert(views(names@).take(names@.len() as int) =~= views(names@));
    v
}

/// None of the binaries `names` may be installed yet; `exists` says, name by
/// name, whether its install path is taken.
pub fn ensure_binaries_not_installed(
    layout: &InstallLayout,
    names: &Vec<String>,
    exists: &Vec<bool>,
) -> (r: Result<(), String>)
    requires
        names.len() == exists.len(),
    ensures
        ({
            let i = first_where(exists@, flag_set());
            let paths = install_paths(*layout, views(names@), false);
            &&& i == exists@.len() ==> r is Ok
            &&& i < exists@.len() ==> r is Err && r->Err_0@ == paths[i] + " already exists"@
        }),
{
    let paths = install_paths_of(layout, names, false);
    assert(views(paths@).len() == paths@.len());
    let r = ensure_not_installed(&paths, exists);
    proof {
        let i = first_where(exists@, flag_set());
        lemma_first_where(exists@, flag_set());
        if i < exists@.len() {
            assert(views(paths@)[i] == paths@[i]@);
        }
    }
    r
}

/// None of the CNI plugins may be installed yet; `exists` says, plugin by
/// plugin (`bridge`, `host-local`, `loopback`), whether its path is taken.
pub fn ensure_cni_plugins_not_installed(layout: &InstallLayout, exists: &Vec<bool>) -> (r: Result<
    (),
    String,
>)
    requires
        exists.len() == 3,
    ensures
        ({
            let i = first_where(exists@, flag_set());
            let paths = install_paths(*layout, seq!["bridge"@, "host-local"@, "loopback"@], true);
            &&& i == exists@.len() ==> r is Ok
            &&& i < exists@.len() ==> r is Err && r->Err_0@ == paths[i] + " already exists"@
        }),
{
    let names = cni_plugin_names();
    let paths = install_paths_of(layout, &names, true);
    assert(views(paths@).len() == paths@.len());
    let r = ensure_not_installed(&paths, exists);
    proof {
        let i = first_where(exists@, flag_set());
        lemma_first_where(exists@, flag_set());
        if i < exists@.len() {
            assert(views(paths@)[i] == paths@[i]@);
        }
    }
    r
}

/// A binary to install and where it is found.
pub struct BinarySource {
    pub name: String,
    pub path: String,
}

pub open spec fn has_source(flags: Seq<bool>) -> bool {
    first_where(flags, flag_set()) < flags.len()
}

/// Each binary of `names` is taken from the first of its `candidates` that
/// `is_file` marks as a regular file; the first binary found nowhere is
/// reported as `<name> must be present <hint>`.
pub fn find_sources(
    names: &Vec<String>,
    candidates: &Vec<Vec<String>>,
    is_file: &Vec<Vec<bool>>,
    hint: &str,
) -> (r: Result<Vec<BinarySource>, String>)
    requires
        candidates.len() == names.len(),
        is_file.len() == names.len(),
        forall|k: int| 0 <= k < names.len() ==> #[trigger] candidates@[k].len() == is_file@[k].len(),
    ensures
        match r {
            Ok(sources) => {
                &&& forall|k: int| 0 <= k < names.len() ==> has_source(#[trigger] is_file@[k]@)
                &&& sources@.len() == names@.len()
                &&& forall|k: int|
                    0 <= k < names.len() ==> #[trigger] sources@[k].name@ == names@[k]@
                        && sources@[k].path@ == candidates@[k]@[first_where(
                        is_file@[k]@,
                        flag_set(),
                    )]@
            },
            Err(e) => exists|k: int|
                0 <= k < names.len() && !has_source(#[trigger] is_file@[k]@) && (forall|j: int|
                    0 <= j < k ==> has_source(#[trigger] is_file@[j]@)) && e@ == names@[k]@
                    + " must be present "@ + hint@,
        },
{
    let mut sources: Vec<BinarySource> = Vec::new();
    let mut k: usize = 0;
    while k < names.len()
        invariant
            k <= names@.len(),
            candidates@.len() == names@.len(),
            is_file@.len() == names@.len(),
            forall|q: int| 0 <= q < names.len() ==> #[trigger] candidates@[q].len() == is_file@[q].len(),
            sources@.len() == k,
            forall|q: int| 0 <= q < k ==> has_source(#[trigger] is_file@[q]@),
            forall|q: int|
                0 <= q < k ==> #[trigger] sources@[q].name@ == names@[q]@ && sources@[q].path@
                    == candidates@[q]@[first_where(is_file@[q]@, flag_set())]@,
        decreases names.len() - k,
    {
        match first_source(names[k].as_str(), &candidates[k], &is_file[k], hint) {
            Ok(path) => {
                sources.push(BinarySource { name: names[k].clone(), path });
            },
            Err(e) => {
                assert(!has_source(is_file@[k as int]@));
                return Err(e);
            },
        }
        k = k + 1;
    }
    Ok(sources)
}

/// The binaries the installer installs, in order.
pub open spec fn install_binary_names_spec() -> Seq<Seq<char>> {
    seq![
        AGENT_BINARY_NAME@,
        CONTAINERD_BINARY_NAME@,
        CONTAINERD_SHIM_BINARY_NAME@,
        CRUN_BINARY_NAME@,
    ]
}

/// The CNI plugins the installer installs, in order.
pub open spec fn cni_plugin_names_spec() -> Seq<Seq<char>> {
    seq!["bridge"@, "host-local"@, "loopback"@]
}

/// `find_sources` for the installer's binaries.
pub fn find_binary_sources(candidates: &Vec<Vec<String>>, is_file: &Vec<Vec<bool>>) -> (r: Result<
    Vec<BinarySource>,
    String,
>)
    requires
        candidates.len() == 4,
        is_file.len() == 4,
        forall|k: int| 0 <= k < 4 ==> #[trigger] candidates@[k].len() == is_file@[k].len(),
    ensures
        match r {
            Ok(sources) => {
                &&& sources@.len() == 4
                &&& forall|k: int| 0 <= k < 4 ==> has_source(#[trigger] is_file@[k]@)
                &&& forall|k: int|
                    0 <= k < 4 ==> #[trigger] sources@[k].name@ == install_binary_names_spec()[k]
                        && sources@[k].path@ == candidates@[k]@[first_where(
                        is_file@[k]@,
                        flag_set(),
                    )]@
            },
            Err(e) => exists|k: int|
                0 <= k < 4 && !has_source(#[trigger] is_file@[k]@) && (forall|j: int|
                    0 <= j < k ==> has_source(#[trigger] is_file@[j]@)) && e@
                    == install_binary_names_spec()[k] + " must be present "@ + BINARY_SOURCE_HINT@,
        },
{
    let names = install_binary_names();
    assert(views(names@).len() == names@.len());
    let r = find_sources(&names, candidates, is_file, BINARY_SOURCE_HINT);
    proof {
        if r is Err {
            let k = choose|k: int|
                0 <= k < names.len() && !has_source(#[trigger] is_file@[k]@) && (forall|j: int|
                    0 <= j < k ==> has_source(#[trigger] is_file@[j]@)) && r->Err_0@ == names@[k]@
                    + " must be present "@ + BINARY_SOURCE_HINT@;
            assert(views(names@)[k] == names@[k]@);
        }
        assert forall|k: int| 0 <= k < names.len() implies views(names@)[k] == names@[k]@ by {}
    }
    r
}

/// `find_sources` for the CNI plugins.
pub fn find_cni_plugin_sources(candidates: &Vec<Vec<String>>, is_file: &Vec<Vec<bool>>) -> (r:
    Result<Vec<BinarySource>, String>)
    requires
        candidates.len() == 3,
        is_file.len() == 3,
        forall|k: int| 0 <= k < 3 ==> #[trigger] candidates@[k].len() == is_file@[k].len(),
    ensures
        match r {
            Ok(sources) => {
                &&& sources@.len() == 3
                &&& forall|k: int| 0 <= k < 3 ==> has_source(#[trigger] is_file@[k]@)
                &&& forall|k: int|
                    0 <= k < 3 ==> #[trigger] sources@[k].name@ == cni_plugin_names_spec()[k]
                        && sources@[k].path@ == candidates@[k]@[first_where(
                        is_file@[k]@,
                        flag_set(),
                    )]@
            },
            Err(e) => exists|k: int|
                0 <= k < 3 && !has_source(#[trigger] is_file@[k]@) && (forall|j: int|
                    0 <= j < k ==> has_source(#[trigger] is_file@[j]@)) && e@
                    == cni_plugin_names_spec()[k] + " must be present "@ + CNI_SOURCE_HINT@,
        },
{
    let names = cni_plugin_names();
    assert(views(names@).len() == names@.len());
    let r = find_sources(&names, candidates, is_file, CNI_SOURCE_HINT);
    proof {
        if r is Err {
            let k = choose|k: int|
                0 <= k < names.len() && !has_source(#[trigger] is_file@[k]@) && (forall|j: int|
                    0 <= j < k ==> has_source(#[trigger] is_file@[j]@)) && r->Err_0@ == names@[k]@
                    + " must be present "@ + CNI_SOURCE_HINT@;
            assert(views(names@)[k] == names@[k]@);
        }
        assert forall|k: int| 0 <= k < names.len() implies views(names@)[k] == names@[k]@ by {}
    }
    r
}

/// A directory from an environment value, or `default` where it is unset or
/// empty.
pub fn env_dir_or_default(value: Option<&str>, default: &str) -> (d: String)
    ensures
        d@ == dir_or(value, default@),
{
    env_string_or_default(value, default)
}

/// A path as the installer prints it.
pub fn display(path: &str) -> (s: String)
    ensures
        s@ == path@,
{
    String::from_str(path)
}

impl InstallLayout {
    pub fn bin_dir(&self) -> (d: String)
        ensures
            d@ == self.bin_dir@,
    {
        self.bin_dir.clone()
    }

    pub fn config_dir(&self) -> (d: String)
        ensures
            d@ == self.config_dir@,
    {
        self.config_dir.clone()
    }

    pub fn systemd_unit_dir(&self) -> (d: String)
        ensures
            d@ == self.systemd_unit_dir@,
    {
        self.systemd_unit_dir.clone()
    }

    pub fn systemd_runtime_dir(&self) -> (d: String)
        ensures
            d@ == self.systemd_runtime_dir@,
    {
        self.systemd_runtime_dir.clone()
    }
}

} // verus!
