//! The root filesystem of a container: the snapshot its layers chain to, and
//! the directories an overlay mount of it needs.

use vstd::prelude::*;
use vstd::utf8::encode_utf8;
use crate::text::{chars_of, concat_chars, find_first, first_index, lemma_first_index, slice_chars, string_of, views};
use crate::workload::str_eq;

verus! {

/// The SHA-256 digest of `data` (`sha2::Sha256::digest`).
pub uninterp spec fn sha256_of(data: Seq<u8>) -> Seq<u8>;

/// `sha2::Sha256::digest`: the digest is named, not stated; it is 32 bytes
/// long, as SHA-256 digests are.
#[verifier::external_body]
fn sha256(data: &[u8]) -> (d: Vec<u8>)
    ensures
        d@ == sha256_of(data@),
        d@.len() == 32,
{
    <sha2::Sha256 as sha2::Digest>::digest(data).as_slice().to_vec()
}

pub open spec fn hex_char(n: u8) -> char
    recommends
        n < 16,
{
    if n < 10 {
        ((n + 48) as u8) as char
    } else {
        ((n + 87) as u8) as char
    }
}

/// Lower-case hexadecimal, two digits per byte.
pub open spec fn hex_text(bytes: Seq<u8>) -> Seq<char>
    decreases bytes.len(),
{
    if bytes.len() == 0 {
        Seq::empty()
    } else {
        hex_text(bytes.drop_last()) + seq![
            hex_char(bytes.last() / 16),
            hex_char(bytes.last() % 16),
        ]
    }
}

fn hex_digit(n: u8) -> (c: char)
    requires
        n < 16,
    ensures
        c == hex_char(n),
{
    if n < 10 {
        (n + 48) as char
    } else {
        (n + 87) as char
    }
}

/// `bytes` in lower-case hexadecimal.
pub fn hex_digest(bytes: &[u8]) -> (s: String)
    ensures
        s@ == hex_text(bytes@),
{
    let mut v: Vec<char> = Vec::new();
    let mut i: usize = 0;
    while i < bytes.len()
        invariant
            i <= bytes@.len(),
            v@ == hex_text(bytes@.take(i as int)),
        decreases bytes.len() - i,
    {
        let b = bytes[i];
        v.push(hex_digit(b / 16));
        v.push(hex_digit(b % 16));
        proof {
            let t = bytes@.take(i + 1);
            assert(t.drop_last() =~= bytes@.take(i as int));
            assert(t.last() == b);
            assert(v@ =~= hex_text(t));
        }
        i = i + 1;
    }
    assert(bytes@.take(bytes@.len() as int) =~= bytes@);
    string_of(&v)
}

pub const DIGEST_PREFIX: &'static str = "sha256:";

pub open spec fn is_sha256_digest(id: Seq<char>) -> bool {
    id.len() >= 7 && id.take(7) == DIGEST_PREFIX@
}

/// The chain id of the layers `ids`: the first layer's id, then for each
/// further layer the SHA-256 of the chain so far, a space and its id.
pub open spec fn chain(ids: Seq<Seq<char>>) -> Seq<char>
    decreases ids.len(),
{
    if ids.len() == 0 {
        Seq::empty()
    } else if ids.len() == 1 {
        ids[0]
    } else {
        DIGEST_PREFIX@ + hex_text(
            sha256_of(encode_utf8(chain(ids.drop_last())) + seq![32u8] + encode_utf8(ids.last())),
        )
    }
}

/// The chain id grows one layer at a time (the OCI ChainID recursion): a
/// single layer chains to its own id, and adding a layer on top of layers
/// `ids` hashes the chain id of all of `ids`, a space and the new layer's id.
pub proof fn lemma_chain_extends(ids: Seq<Seq<char>>, id: Seq<char>)
    ensures
        chain(seq![id]) == id,
        ids.len() >= 1 ==> chain(ids.push(id)) == DIGEST_PREFIX@ + hex_text(
            sha256_of(encode_utf8(chain(ids)) + seq![32u8] + encode_utf8(id)),
        ),
{
    assert(ids.push(id).drop_last() =~= ids);
}

fn has_digest_prefix(id: &str) -> (b: bool)
    ensures
        b == is_sha256_digest(id@),
{
    proof {
        reveal_strlit("sha256:");
    }
    let v = chars_of(id);
    if v.len() < 7 {
        return false;
    }
    let p = chars_of(DIGEST_PREFIX);
    let mut i: usize = 0;
    while i < 7
        invariant
            v@ == id@,
            p@ == DIGEST_PREFIX@,
            p@.len() == 7,
            7 <= v@.len(),
            i <= 7,
            forall|j: int| 0 <= j < i ==> v@[j] == p@[j],
        decreases 7 - i,
    {
        if v[i] != p[i] {
            assert(v@.take(7)[i as int] != p@[i as int]);
            return false;
        }
        i = i + 1;
    }
    assert(v@.take(7) =~= p@);
    true
}

pub open spec fn unsupported_digest_message(id: Seq<char>) -> Seq<char> {
    "unsupported diff id digest "@ + id
}

/// The snapshot the layers `diff_ids` chain to (empty for an image without
/// layers); each id must be a SHA-256 digest.
pub fn chain_id(diff_ids: &Vec<String>) -> (r: Result<String, String>)
    ensures
        ({
            let ids = views(diff_ids@);
            let bad = crate::seqs::first_where(ids, |id: Seq<char>| !is_sha256_digest(id));
            &&& bad == ids.len() ==> r is Ok && r->Ok_0@ == chain(ids)
            &&& bad < ids.len() ==> r is Err && r->Err_0@ == unsupported_digest_message(ids[bad])
        }),
{
    let ghost ids = views(diff_ids@);
    let ghost p = |id: Seq<char>| !is_sha256_digest(id);
    if diff_ids.len() == 0 {
        proof {
            crate::seqs::lemma_first_where_is(ids, p, 0);
            assert(chain(ids) =~= Seq::<char>::empty());
        }
        return Ok(String::new());
    }
    let mut parent = diff_ids[0].clone();
    let mut i: usize = 0;
    while i < diff_ids.len()
        invariant
            i < diff_ids@.len() || i == diff_ids@.len(),
            ids == views(diff_ids@),
            ids.len() > 0,
            p == (|id: Seq<char>| !is_sha256_digest(id)),
            forall|j: int| 0 <= j < i ==> !p(#[trigger] ids[j]),
            i > 0 ==> parent@ == chain(ids.take(i as int)),
            i == 0 ==> parent@ == ids[0],
        decreases diff_ids.len() - i,
    {
        let id = diff_ids[i].as_str();
        assert(ids[i as int] == id@);
        if !has_digest_prefix(id) {
            proof {
                crate::seqs::lemma_first_where_is(ids, p, i as int);
            }
            let mut e = String::from_str("unsupported diff id digest ");
            e.append(id);
            return Err(e);
        }
        if i > 0 {
            let mut data: Vec<u8> = Vec::new();
            let pb = parent.as_str().as_bytes();
            let mut k: usize = 0;
            while k < pb.len()
                invariant
                    k <= pb@.len(),
                    data@ == pb@.take(k as int),
                decreases pb.len() - k,
            {
                data.push(pb[k]);
                proof {
                    assert(pb@.take(k + 1) =~= pb@.take(k as int).push(pb@[k as int]));
                }
                k = k + 1;
            }
            data.push(32u8);
            let ib = id.as_bytes();
            let ghost head = data@;
            let mut k: usize = 0;
            while k < ib.len()
                invariant
                    k <= ib@.len(),
                    data@ == head + ib@.take(k as int),
                decreases ib.len() - k,
            {
                data.push(ib[k]);
                proof {
                    assert(ib@.take(k + 1) =~= ib@.take(k as int).push(ib@[k as int]));
                }
                k = k + 1;
            }
            proof {
                assert(pb@.take(pb@.len() as int) =~= pb@);
                assert(ib@.take(ib@.len() as int) =~= ib@);
                assert(data@ =~= encode_utf8(parent@) + seq![32u8] + encode_utf8(id@));
            }
            let d = sha256(data.as_slice());
            let hex = hex_digest(d.as_slice());
            let mut next = String::from_str(DIGEST_PREFIX);
            next.append(hex.as_str());
            proof {
                let t = ids.take(i + 1);
                assert(t.drop_last() =~= ids.take(i as int));
                assert(t.last() == id@);
                assert(next@ == chain(t));
            }
            parent = next;
        } else {
            proof {
                assert(ids.take(1) =~= seq![ids[0]]);
            }
        }
        i = i + 1;
    }
    proof {
        crate::seqs::lemma_first_where_is(ids, p, i as int);
        assert(ids.take(i as int) =~= ids);
    }
    Ok(parent)
}


/// `str::split` on the character `c`: the pieces between its occurrences,
/// always at least one.
pub open spec fn split_on(s: Seq<char>, c: char) -> Seq<Seq<char>>
    decreases s.len(),
{
    let i = first_index(s, c);
    if i >= s.len() {
        seq![s]
    } else {
        proof {
            lemma_first_index(s, c);
        }
        seq![s.take(i)] + split_on(s.skip(i + 1), c)
    }
}

pub open spec fn char_views(v: Seq<Vec<char>>) -> Seq<Seq<char>> {
    v.map_values(|p: Vec<char>| p@)
}

/// Splits `v` at each `c`.
pub fn split_text(v: &[char], c: char) -> (r: Vec<Vec<char>>)
    ensures
        char_views(r@) == split_on(v@, c),
    decreases v.len(),
{
    let i = find_first(v, c);
    let head = slice_chars(v, 0, i);
    if i >= v.len() {
        let mut r: Vec<Vec<char>> = Vec::new();
        assert(head@ =~= v@);
        r.push(head);
        assert(char_views(r@) =~= seq![v@]);
        r
    } else {
        proof {
            lemma_first_index(v@, c);
        }
        let rest = slice_chars(v, i + 1, v.len());
        assert(rest@ =~= v@.skip(i + 1));
        let mut tail = split_text(rest.as_slice(), c);
        let mut r: Vec<Vec<char>> = Vec::new();
        r.push(head);
        let ghost first = char_views(r@);
        r.append(&mut tail);
        proof {
            assert(head@ =~= v@.take(i as int));
            assert(first =~= seq![v@.take(i as int)]);
            assert(char_views(r@) =~= first + split_on(v@.skip(i + 1), c));
        }
        r
    }
}

/// The non-empty pieces of `parts`.
pub open spec fn non_empty(parts: Seq<Seq<char>>) -> Seq<Seq<char>>
    decreases parts.len(),
{
    if parts.len() == 0 {
        Seq::empty()
    } else if parts.last().len() > 0 {
        non_empty(parts.drop_last()).push(parts.last())
    } else {
        non_empty(parts.drop_last())
    }
}

/// The directories one `name=value` option of an overlay mount names: each
/// non-empty directory of `lowerdir`, and `upperdir` and `workdir` where set.
pub open spec fn option_paths(option: Seq<char>) -> Seq<Seq<char>> {
    let i = first_index(option, '=');
    if i >= option.len() {
        Seq::empty()
    } else {
        let name = option.take(i);
        let value = option.skip(i + 1);
        if name == "lowerdir"@ {
            non_empty(split_on(value, ':'))
        } else if (name == "upperdir"@ || name == "workdir"@) && value.len() > 0 {
            seq![value]
        } else {
            Seq::empty()
        }
    }
}

/// The directories of the comma-separated options in `options`, in order.
pub open spec fn options_paths(options: Seq<Seq<char>>) -> Seq<Seq<char>>
    decreases options.len(),
{
    if options.len() == 0 {
        Seq::empty()
    } else {
        options_paths(options.drop_last()) + option_paths(options.last())
    }
}

pub open spec fn mount_options_paths(options: Seq<Seq<char>>) -> Seq<Seq<char>>
    decreases options.len(),
{
    if options.len() == 0 {
        Seq::empty()
    } else {
        mount_options_paths(options.drop_last()) + options_paths(split_on(options.last(), ','))
    }
}

/// A mount of a container's root filesystem.
pub struct Mount {
    pub mount_type: String,
    pub source: String,
    pub target: String,
    pub options: Vec<String>,
}

/// The directories an overlay mount reads and writes; none for another
/// kind of mount.
pub open spec fn overlay_paths(m: Mount) -> Seq<Seq<char>> {
    if m.mount_type@ == "overlay"@ {
        mount_options_paths(views(m.options@))
    } else {
        Seq::empty()
    }
}

fn push_all(acc: &mut Vec<String>, parts: &Vec<Vec<char>>, only_non_empty: bool)
    ensures
        only_non_empty ==> views(final(acc)@) == views(old(acc)@) + non_empty(char_views(parts@)),
        !only_non_empty ==> views(final(acc)@) == views(old(acc)@) + char_views(parts@),
{
    let ghost start = views(acc@);
    let mut i: usize = 0;
    while i < parts.len()
        invariant
            i <= parts@.len(),
            only_non_empty ==> views(acc@) == start + non_empty(char_views(parts@).take(i as int)),
            !only_non_empty ==> views(acc@) == start + char_views(parts@).take(i as int),
        decreases parts.len() - i,
    {
        let ghost t = char_views(parts@).take(i + 1);
        proof {
            assert(t.drop_last() =~= char_views(parts@).take(i as int));
            assert(t.last() == parts@[i as int]@);
        }
        if !only_non_empty || parts[i].len() > 0 {
            let ghost before = views(acc@);
            acc.push(string_of(parts[i].as_slice()));
            proof {
                assert(views(acc@) =~= before.push(parts@[i as int]@));
            }
        }
        i = i + 1;
    }
    assert(char_views(parts@).take(parts@.len() as int) =~= char_views(parts@));
}

fn option_paths_into(acc: &mut Vec<String>, option: &[char])
    ensures
        views(final(acc)@) == views(old(acc)@) + option_paths(option@),
{
    let i = find_first(option, '=');
    if i >= option.len() {
        assert(views(acc@) =~= views(old(acc)@) + Seq::<Seq<char>>::empty());
        return;
    }
    proof {
        lemma_first_index(option@, '=');
    }
    let name = string_of(slice_chars(option, 0, i).as_slice());
    let value = slice_chars(option, i + 1, option.len());
    assert(name@ =~= option@.take(i as int));
    assert(value@ =~= option@.skip(i + 1));
    if str_eq(name.as_str(), "lowerdir") {
        let dirs = split_text(value.as_slice(), ':');
        push_all(acc, &dirs, true);
    } else if (str_eq(name.as_str(), "upperdir") || str_eq(name.as_str(), "workdir")) && value.len()
        > 0 {
        let ghost before = views(acc@);
        acc.push(string_of(value.as_slice()));
        assert(views(acc@) =~= before + seq![value@]);
    } else {
        assert(views(acc@) =~= views(old(acc)@) + Seq::<Seq<char>>::empty());
    }
}

/// The directories an overlay mount needs before a task can start on it.
pub fn overlay_mount_source_paths(mount: &Mount) -> (paths: Vec<String>)
    ensures
        views(paths@) == overlay_paths(*mount),
{
    let mut paths: Vec<String> = Vec::new();
    if !str_eq(mount.mount_type.as_str(), "overlay") {
        assert(views(paths@) =~= Seq::<Seq<char>>::empty());
        return paths;
    }
    let ghost opts = views(mount.options@);
    let mut k: usize = 0;
    while k < mount.options.len()
        invariant
            k <= mount.options@.len(),
            opts == views(mount.options@),
            views(paths@) == mount_options_paths(opts.take(k as int)),
        decreases mount.options.len() - k,
    {
        let chars = chars_of(mount.options[k].as_str());
        let parts = split_text(chars.as_slice(), ',');
        let ghost pv = char_views(parts@);
        let ghost base = views(paths@);
        let mut j: usize = 0;
        while j < parts.len()
            invariant
                j <= parts@.len(),
                pv == char_views(parts@),
                views(paths@) == base + options_paths(pv.take(j as int)),
            decreases parts.len() - j,
        {
            let ghost before = views(paths@);
            option_paths_into(&mut paths, parts[j].as_slice());
            proof {
                let t = pv.take(j + 1);
                assert(t.drop_last() =~= pv.take(j as int));
                assert(t.last() == parts@[j as int]@);
                assert(views(paths@) =~= base + options_paths(t));
            }
            j = j + 1;
        }
        proof {
            assert(pv.take(parts@.len() as int) =~= pv);
            let t = opts.take(k + 1);
            assert(t.drop_last() =~= opts.take(k as int));
            assert(t.last() == mount.options@[k as int]@);
        }
        k = k + 1;
    }
    assert(opts.take(mount.options@.len() as int) =~= opts);
    paths
}

} // verus!
