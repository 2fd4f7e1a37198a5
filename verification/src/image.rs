//! What the agent reads from an image: the process to run, its environment
//! and working directory, and which manifest of an index to use.

use vstd::prelude::*;
use crate::text::{views, chars_of};
use crate::seqs::{first_where, lemma_first_where, lemma_first_where_is};
use crate::workload::str_eq;

verus! {

/// The part of an image's configuration that the agent uses.
pub struct ImageConfig {
    pub entrypoint: Option<Vec<String>>,
    pub cmd: Option<Vec<String>>,
    pub env: Option<Vec<String>>,
    pub working_dir: Option<String>,
}

pub open spec fn list_or_empty(o: Option<Vec<String>>) -> Seq<Seq<char>> {
    match o {
        Some(v) => views(v@),
        None => Seq::empty(),
    }
}

pub open spec fn entrypoint_of(config: Option<ImageConfig>) -> Seq<Seq<char>> {
    match config {
        Some(c) => list_or_empty(c.entrypoint),
        None => Seq::empty(),
    }
}

pub open spec fn cmd_of(config: Option<ImageConfig>) -> Seq<Seq<char>> {
    match config {
        Some(c) => list_or_empty(c.cmd),
        None => Seq::empty(),
    }
}

/// The process an image runs by default: its entrypoint followed by its
/// command, or the command alone where the entrypoint is empty.
pub open spec fn default_process(config: Option<ImageConfig>) -> Seq<Seq<char>> {
    if entrypoint_of(config).len() == 0 {
        cmd_of(config)
    } else {
        entrypoint_of(config) + cmd_of(config)
    }
}

pub const NO_PROCESS_ERROR: &'static str = "image does not define an entrypoint or command for v1 run";

fn copy_list(o: &Option<Vec<String>>) -> (r: Vec<String>)
    ensures
        views(r@) == list_or_empty(*o),
{
    let mut r: Vec<String> = Vec::new();
    match o {
        Some(v) => {
            let mut i: usize = 0;
            while i < v.len()
                invariant
                    i <= v@.len(),
                    views(r@) == views(v@).take(i as int),
                decreases v.len() - i,
            {
                r.push(v[i].clone());
                proof {
                    assert(views(v@).take(i + 1) =~= views(v@).take(i as int).push(v@[i as int]@));
                    assert(views(r@) =~= views(v@).take(i + 1));
                }
                i = i + 1;
            }
            assert(views(v@).take(v@.len() as int) =~= views(v@));
        },
        None => {
            assert(views(r@) =~= Seq::<Seq<char>>::empty());
        },
    }
    r
}

/// The arguments of the process to start, refused where the image names
/// none.
pub fn image_command(config: Option<&ImageConfig>) -> (r: Result<Vec<String>, String>)
    ensures
        ({
            let c = match config {
                Some(c) => Some(*c),
                None => None,
            };
            &&& default_process(c).len() > 0 ==> r is Ok && views(r->Ok_0@) == default_process(c)
            &&& default_process(c).len() == 0 ==> r is Err && r->Err_0@ == NO_PROCESS_ERROR@
        }),
{
    let (mut entrypoint, mut cmd) = match config {
        Some(c) => (copy_list(&c.entrypoint), copy_list(&c.cmd)),
        None => {
            let e: Vec<String> = Vec::new();
            let c: Vec<String> = Vec::new();
            assert(views(e@) =~= Seq::<Seq<char>>::empty());
            assert(views(c@) =~= Seq::<Seq<char>>::empty());
            (e, c)
        },
    };
    let args = if entrypoint.len() == 0 {
        cmd
    } else {
        let ghost e = views(entrypoint@);
        let ghost c = views(cmd@);
        entrypoint.append(&mut cmd);
        assert(views(entrypoint@) =~= e + c);
        entrypoint
    };
    if args.len() == 0 {
        return Err(String::from_str(NO_PROCESS_ERROR));
    }
    Ok(args)
}

pub const DEFAULT_PATH_ENV: &'static str = "PATH=/usr/local/sbin:/usr/local/bin:/usr/sbin:/usr/bin:/sbin:/bin";
pub const DEFAULT_TERM_ENV: &'static str = "TERM=xterm";

/// The environment of the process: the image's, where it sets one, else a
/// default `PATH` and `TERM`.
pub open spec fn process_env(config: Option<ImageConfig>) -> Seq<Seq<char>> {
    let env = match config {
        Some(c) => list_or_empty(c.env),
        None => Seq::empty(),
    };
    if env.len() > 0 {
        env
    } else {
        seq![DEFAULT_PATH_ENV@, DEFAULT_TERM_ENV@]
    }
}

pub fn image_env(config: Option<&ImageConfig>) -> (env: Vec<String>)
    ensures
        views(env@) == process_env(
            match config {
                Some(c) => Some(*c),
                None => None,
            },
        ),
{
    let env = match config {
        Some(c) => copy_list(&c.env),
        None => {
            let e: Vec<String> = Vec::new();
            assert(views(e@) =~= Seq::<Seq<char>>::empty());
            e
        },
    };
    if env.len() > 0 {
        env
    } else {
        let mut d: Vec<String> = Vec::new();
        d.push(String::from_str(DEFAULT_PATH_ENV));
        d.push(String::from_str(DEFAULT_TERM_ENV));
        assert(views(d@) =~= seq![DEFAULT_PATH_ENV@, DEFAULT_TERM_ENV@]);
        d
    }
}

/// The working directory of the process: the image's, where it sets a
/// non-empty one, else `/`.
pub open spec fn process_cwd(config: Option<ImageConfig>) -> Seq<char> {
    match config {
        Some(c) => match c.working_dir {
            Some(d) => if d@.len() > 0 {
                d@
            } else {
                "/"@
            },
            None => "/"@,
        },
        None => "/"@,
    }
}

pub fn image_cwd(config: Option<&ImageConfig>) -> (cwd: String)
    ensures
        cwd@ == process_cwd(
            match config {
                Some(c) => Some(*c),
                None => None,
            },
        ),
{
    match config {
        Some(c) => match &c.working_dir {
            Some(d) => if d.unicode_len() > 0 {
                d.clone()
            } else {
                String::from_str("/")
            },
            None => String::from_str("/"),
        },
        None => String::from_str("/"),
    }
}

pub const OCI_MANIFEST: &'static str = "application/vnd.oci.image.manifest.v1+json";
pub const DOCKER_MANIFEST: &'static str = "application/vnd.docker.distribution.manifest.v2+json";
pub const OCI_INDEX: &'static str = "application/vnd.oci.image.index.v1+json";
pub const DOCKER_MANIFEST_LIST: &'static str = "application/vnd.docker.distribution.manifest.list.v2+json";

/// Whether a descriptor of this media type points at a single manifest.
pub fn is_manifest_media_type(media_type: &str) -> (b: bool)
    ensures
        b == (media_type@ == OCI_MANIFEST@ || media_type@ == DOCKER_MANIFEST@),
{
    str_eq(media_type, OCI_MANIFEST) || str_eq(media_type, DOCKER_MANIFEST)
}

/// Whether a descriptor of this media type points at an index of manifests.
pub fn is_index_media_type(media_type: &str) -> (b: bool)
    ensures
        b == (media_type@ == OCI_INDEX@ || media_type@ == DOCKER_MANIFEST_LIST@),
{
    str_eq(media_type, OCI_INDEX) || str_eq(media_type, DOCKER_MANIFEST_LIST)
}

/// The OCI name of a Rust target architecture (`std::env::consts::ARCH`).
pub open spec fn oci_arch(arch: Seq<char>) -> Seq<char> {
    if arch == "x86_64"@ {
        "amd64"@
    } else if arch == "aarch64"@ {
        "arm64"@
    } else {
        arch
    }
}

pub fn host_architecture(rust_arch: &str) -> (a: String)
    ensures
        a@ == oci_arch(rust_arch@),
{
    if str_eq(rust_arch, "x86_64") {
        String::from_str("amd64")
    } else if str_eq(rust_arch, "aarch64") {
        String::from_str("arm64")
    } else {
        String::from_str(rust_arch)
    }
}

/// An entry of an image index: the platform it is for, where it names one,
/// and the digest of its manifest.
pub struct ManifestEntry {
    pub platform: Option<(String, String)>,
    pub digest: String,
}

pub open spec fn entry_view(e: ManifestEntry) -> (Option<(Seq<char>, Seq<char>)>, Seq<char>) {
    (
        match e.platform {
            Some((os, arch)) => Some((os@, arch@)),
            None => None,
        },
        e.digest@,
    )
}

pub open spec fn entry_views(v: Seq<ManifestEntry>) -> Seq<(Option<(Seq<char>, Seq<char>)>, Seq<char>)> {
    v.map_values(|e: ManifestEntry| entry_view(e))
}

/// The entry is for `os`, and for `arch` too where `arch` is given.
pub open spec fn for_platform(os: Seq<char>, arch: Option<Seq<char>>) -> spec_fn(
    (Option<(Seq<char>, Seq<char>)>, Seq<char>),
) -> bool {
    |e: (Option<(Seq<char>, Seq<char>)>, Seq<char>)|
        match e.0 {
            Some((o, a)) => o == os && match arch {
                Some(x) => a == x,
                None => true,
            },
            None => false,
        }
}

/// The manifest to use from an index: the first for Linux on the host's
/// architecture, else the first for Linux.
pub open spec fn chosen_manifest(
    entries: Seq<(Option<(Seq<char>, Seq<char>)>, Seq<char>)>,
    arch: Seq<char>,
) -> Option<Seq<char>> {
    let exact = first_where(entries, for_platform("linux"@, Some(arch)));
    let linux = first_where(entries, for_platform("linux"@, None));
    if exact < entries.len() {
        Some(entries[exact].1)
    } else if linux < entries.len() {
        Some(entries[linux].1)
    } else {
        None
    }
}

fn first_for_platform(entries: &Vec<ManifestEntry>, arch: Option<&str>) -> (r: usize)
    ensures
        r == first_where(
            entry_views(entries@),
            for_platform(
                "linux"@,
                match arch {
                    Some(a) => Some(a@),
                    None => None,
                },
            ),
        ),
        r <= entries@.len(),
{
    let ghost p = for_platform(
        "linux"@,
        match arch {
            Some(a) => Some(a@),
            None => None,
        },
    );
    let ghost ev = entry_views(entries@);
    let mut i: usize = 0;
    while i < entries.len()
        invariant
            i <= entries@.len(),
            ev == entry_views(entries@),
            p == for_platform(
                "linux"@,
                match arch {
                    Some(a) => Some(a@),
                    None => None,
                },
            ),
            forall|j: int| 0 <= j < i ==> !p(#[trigger] ev[j]),
        decreases entries.len() - i,
    {
        assert(ev[i as int] == entry_view(entries@[i as int]));
        let hit = match &entries[i].platform {
            Some((os, a)) => str_eq(os.as_str(), "linux") && match arch {
                Some(x) => str_eq(a.as_str(), x),
                None => true,
            },
            None => false,
        };
        if hit {
            proof {
                lemma_first_where_is(ev, p, i as int);
            }
            return i;
        }
        i = i + 1;
    }
    proof {
        lemma_first_where_is(ev, p, i as int);
    }
    i
}

/// The digest of the manifest to use from an index, for the architecture
/// `arch` (an OCI name).
pub fn select_manifest_from_index(entries: &Vec<ManifestEntry>, arch: &str) -> (r: Result<
    String,
    String,
>)
    ensures
        match chosen_manifest(entry_views(entries@), arch@) {
            Some(d) => r is Ok && r->Ok_0@ == d,
            None => r is Err && r->Err_0@ == "image index has no linux/"@ + arch@ + " manifest"@,
        },
{
    let exact = first_for_platform(entries, Some(arch));
    if exact < entries.len() {
        assert(entry_views(entries@)[exact as int] == entry_view(entries@[exact as int]));
        return Ok(entries[exact].digest.clone());
    }
    let linux = first_for_platform(entries, None);
    if linux < entries.len() {
        assert(entry_views(entries@)[linux as int] == entry_view(entries@[linux as int]));
        return Ok(entries[linux].digest.clone());
    }
    let mut e = String::from_str("image index has no linux/");
    e.append(arch);
    e.append(" manifest");
    Err(e)
}

/// The manifests that an image index in JSON lists, or `None` where the
/// bytes are not an image index (`oci_spec::image::ImageIndex::from_reader`).
pub uninterp spec fn index_entries(bytes: Seq<u8>) -> Option<
    Seq<(Option<(Seq<char>, Seq<char>)>, Seq<char>)>,
>;

/// The digest of the configuration that an image manifest in JSON names, in
/// its `Display` form, or `None` where the bytes are not an image manifest
/// (`oci_spec::image::ImageManifest::from_reader`).
pub uninterp spec fn manifest_config_digest(bytes: Seq<u8>) -> Option<Seq<char>>;

/// What an image configuration in JSON holds that the agent uses: its
/// execution part (entrypoint, command, environment, working directory),
/// where it has one, and the DiffIDs of its layers in order; `None` where
/// the bytes are not an image configuration
/// (`oci_spec::image::ImageConfiguration::from_reader`).
pub uninterp spec fn configuration_parts(bytes: Seq<u8>) -> Option<
    (
        Option<
            (
                Option<Seq<Seq<char>>>,
                Option<Seq<Seq<char>>>,
                Option<Seq<Seq<char>>>,
                Option<Seq<char>>,
            ),
        >,
        Seq<Seq<char>>,
    ),
>;

pub open spec fn opt_views(o: Option<Vec<String>>) -> Option<Seq<Seq<char>>> {
    match o {
        Some(v) => Some(views(v@)),
        None => None,
    }
}

/// The parts of an execution configuration, as plain values.
pub open spec fn config_parts(c: Option<ImageConfig>) -> Option<
    (Option<Seq<Seq<char>>>, Option<Seq<Seq<char>>>, Option<Seq<Seq<char>>>, Option<Seq<char>>),
> {
    match c {
        Some(c) => Some(
            (
                opt_views(c.entrypoint),
                opt_views(c.cmd),
                opt_views(c.env),
                match c.working_dir {
                    Some(d) => Some(d@),
                    None => None,
                },
            ),
        ),
        None => None,
    }
}

/// Parses an image index with `oci_spec::image::ImageIndex::from_reader` and
/// lists its manifests: each one's platform as `(os, architecture)` in their
/// `Display` form, and its digest. What the parse gives is named, not
/// stated; the error's text is not stated.
#[verifier::external_body]
fn parse_image_index(bytes: &[u8]) -> (r: Result<Vec<ManifestEntry>, String>)
    ensures
        match r {
            Ok(v) => index_entries(bytes@) == Some(entry_views(v@)),
            Err(_) => index_entries(bytes@) is None,
        },
{
    let index = oci_spec::image::ImageIndex::from_reader(bytes).map_err(|e| e.to_string())?;
    Ok(index.manifests().iter().map(|d| ManifestEntry {
        platform: d.platform().as_ref().map(|p| (p.os().to_string(), p.architecture().to_string())),
        digest: d.digest().to_string(),
    }).collect())
}

/// Parses an image manifest with `oci_spec::image::ImageManifest::from_reader`
/// and gives the digest of the configuration it names. What the parse gives
/// is named, not stated; the error's text is not stated.
#[verifier::external_body]
fn parse_manifest(bytes: &[u8]) -> (r: Result<String, String>)
    ensures
        match r {
            Ok(d) => manifest_config_digest(bytes@) == Some(d@),
            Err(_) => manifest_config_digest(bytes@) is None,
        },
{
    oci_spec::image::ImageManifest::from_reader(bytes)
        .map(|m| m.config().digest().to_string())
        .map_err(|e| e.to_string())
}

/// Parses an image configuration with
/// `oci_spec::image::ImageConfiguration::from_reader` and keeps its execution
/// part and its layers' DiffIDs. What the parse gives is named, not stated;
/// the error's text is not stated.
#[verifier::external_body]
fn parse_configuration(bytes: &[u8]) -> (r: Result<(Option<ImageConfig>, Vec<String>), String>)
    ensures
        match r {
            Ok((c, ids)) => configuration_parts(bytes@) == Some((config_parts(c), views(ids@))),
            Err(_) => configuration_parts(bytes@) is None,
        },
{
    let configuration =
        oci_spec::image::ImageConfiguration::from_reader(bytes).map_err(|e| e.to_string())?;
    let config = configuration.config().as_ref().map(|c| ImageConfig {
        entrypoint: c.entrypoint().clone(),
        cmd: c.cmd().clone(),
        env: c.env().clone(),
        working_dir: c.working_dir().clone(),
    });
    Ok((config, configuration.rootfs().diff_ids().clone()))
}

/// The digest of the configuration that the image manifest `manifest` (JSON)
/// names; an error where the bytes are not an image manifest.
pub fn manifest_config(manifest: &[u8]) -> (r: Result<String, String>)
    ensures
        match r {
            Ok(d) => manifest_config_digest(manifest@) == Some(d@),
            Err(_) => manifest_config_digest(manifest@) is None,
        },
{
    parse_manifest(manifest)
}

/// Reads an image configuration (JSON): its execution part, where it has
/// one, and its layers' DiffIDs; an error where the bytes are not an image
/// configuration.
pub fn image_configuration(bytes: &[u8]) -> (r: Result<(Option<ImageConfig>, Vec<String>), String>)
    ensures
        match r {
            Ok((c, ids)) => configuration_parts(bytes@) == Some((config_parts(c), views(ids@))),
            Err(_) => configuration_parts(bytes@) is None,
        },
{
    parse_configuration(bytes)
}

/// The manifest an index chooses, or the parse's failure.
pub open spec fn index_choice(bytes: Seq<u8>, arch: Seq<char>) -> Option<Option<Seq<char>>> {
    match index_entries(bytes) {
        Some(entries) => Some(chosen_manifest(entries, arch)),
        None => None,
    }
}

/// The manifest an image's target descriptor leads to. A manifest type is
/// used as it is; the content of anything else (`content`, read by the
/// caller) is taken as an index where the type says so, else as a manifest
/// where it parses as one, else as an index.
pub fn resolve_manifest_digest(
    media_type: &str,
    digest: &str,
    content: Option<&[u8]>,
    arch: &str,
) -> (r: Result<String, String>)
    requires
        !(media_type@ == OCI_MANIFEST@ || media_type@ == DOCKER_MANIFEST@) ==> content is Some,
    ensures
        (media_type@ == OCI_MANIFEST@ || media_type@ == DOCKER_MANIFEST@) ==> r is Ok
            && r->Ok_0@ == digest@,
        !(media_type@ == OCI_MANIFEST@ || media_type@ == DOCKER_MANIFEST@) ==> {
            let bytes = content.unwrap()@;
            let as_index = media_type@ == OCI_INDEX@ || media_type@ == DOCKER_MANIFEST_LIST@
                || manifest_config_digest(bytes) is None;
            &&& !as_index ==> r is Ok && r->Ok_0@ == digest@
            &&& as_index ==> match index_choice(bytes, arch@) {
                Some(Some(d)) => r is Ok && r->Ok_0@ == d,
                Some(None) => r is Err && r->Err_0@ == "image index has no linux/"@ + arch@
                    + " manifest"@,
                None => r is Err,
            }
        },
{
    if is_manifest_media_type(media_type) {
        return Ok(String::from_str(digest));
    }
    let bytes = content.unwrap();
    if !is_index_media_type(media_type) && parse_manifest(bytes).is_ok() {
        return Ok(String::from_str(digest));
    }
    match parse_image_index(bytes) {
        Ok(entries) => select_manifest_from_index(&entries, arch),
        Err(e) => Err(e),
    }
}

} // verus!
