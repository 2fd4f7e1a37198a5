//! Normalization of container image references to fully qualified names.

use crate::text::{
    after_last, before_first, chars_of, concat_chars, contains_char, contains_space, find_first,
    find_last, first_index, is_space, last_index, lemma_first_index, lemma_first_index_is,
    lemma_last_index, same_chars, slice_chars, starts_with, string_of, trim, trim_chars,
    trim_end, trim_start,
};
use vstd::prelude::*;

verus! {

/// Whether a reference already names a tag or a digest: it holds an `@`, or
/// its last path component holds a `:`.
pub open spec fn names_tag_or_digest(r: Seq<char>) -> bool {
    r.contains('@') || after_last(r, '/').contains(':')
}

/// Whether the first path component of a reference names a registry host.
pub open spec fn names_registry(t: Seq<char>) -> bool {
    let first = before_first(t, '/');
    t.contains('/') && (first.contains('.') || first.contains(':') || first == "localhost"@)
}

/// Step one: references without a registry live on Docker Hub.
pub open spec fn with_registry(t: Seq<char>) -> Seq<char> {
    if names_registry(t) {
        t
    } else {
        "docker.io/"@ + t
    }
}

/// Step two: single-component Docker Hub names live under `library/`.
pub open spec fn with_library(n: Seq<char>) -> Seq<char> {
    let hub = "docker.io/"@;
    if hub.is_prefix_of(n) && !n.skip(hub.len() as int).contains('/') {
        "docker.io/library/"@ + n.skip(hub.len() as int)
    } else {
        n
    }
}

/// Step three: untagged references get the `latest` tag.
pub open spec fn with_tag(n: Seq<char>) -> Seq<char> {
    if names_tag_or_digest(n) {
        n
    } else {
        n + ":latest"@
    }
}

/// The fully qualified form of an acceptable image reference.
pub open spec fn normalized_reference(image: Seq<char>) -> Seq<char> {
    with_tag(with_library(with_registry(trim(image))))
}

/// Why an image reference is refused, if it is.
pub open spec fn reference_problem(image: Seq<char>) -> Option<Seq<char>> {
    let t = trim(image);
    if t.len() == 0 {
        Some("image reference cannot be empty"@)
    } else if exists|j: int| 0 <= j < t.len() && is_space(t[j]) {
        Some("image reference cannot contain whitespace"@)
    } else {
        None
    }
}

/// Whether `reference` names a tag or a digest.
pub fn has_tag_or_digest(reference: &[char]) -> (b: bool)
    ensures
        b == names_tag_or_digest(reference@),
{
    if contains_char(reference, '@') {
        return true;
    }
    let start = match find_last(reference, '/') {
        Some(i) => i + 1,
        None => 0,
    };
    let last = slice_chars(reference, start, reference.len());
    proof {
        assert(last@ =~= after_last(reference@, '/'));
    }
    contains_char(&last, ':')
}

/// Trims `image` and qualifies it with registry, `library/` namespace and tag
/// the way the Docker CLI does. Empty references and references with inner
/// white space are refused.
pub fn normalize_image_reference(image: &str) -> (r: Result<String, String>)
    ensures
        match r {
            Ok(s) => reference_problem(image@) is None && s@ == normalized_reference(image@),
            Err(e) => reference_problem(image@) == Some(e@),
        },
{
    let all = chars_of(image);
    let t = trim_chars(&all);
    if t.len() == 0 {
        return Err(String::from_str("image reference cannot be empty"));
    }
    if contains_space(&t) {
        return Err(String::from_str("image reference cannot contain whitespace"));
    }
    let hub = chars_of("docker.io/");
    let library = chars_of("docker.io/library/");
    let localhost = chars_of("localhost");
    let latest = chars_of(":latest");
    proof {
        reveal_strlit("docker.io/");
        reveal_strlit("docker.io/library/");
        reveal_strlit("localhost");
        reveal_strlit(":latest");
    }
    let slash = find_first(&t, '/');
    let first = slice_chars(&t, 0, slash);
    let registry = contains_char(&t, '/') && (contains_char(&first, '.') || contains_char(
        &first,
        ':',
    ) || same_chars(&first, &localhost));
    assert(registry == names_registry(t@));
    let n1 = if registry {
        t
    } else {
        concat_chars(&hub, &t)
    };
    let n2 = if starts_with(&n1, &hub) {
        let rest = slice_chars(&n1, hub.len(), n1.len());
        assert(rest@ =~= n1@.skip(hub@.len() as int));
        if contains_char(&rest, '/') {
            n1
        } else {
            concat_chars(&library, &rest)
        }
    } else {
        n1
    };
    assert(n2@ == with_library(n1@)) by {
        assert(hub@.is_prefix_of(n1@) == (hub@.len() <= n1@.len() && n1@.take(hub@.len() as int)
            == hub@));
    }
    let n3 = if has_tag_or_digest(&n2) {
        n2
    } else {
        concat_chars(&n2, &latest)
    };
    Ok(string_of(&n3))
}


pub open spec fn no_space(s: Seq<char>) -> bool {
    forall|j: int| 0 <= j < s.len() ==> !is_space(#[trigger] s[j])
}

/// The shape every normalized reference has: not empty, no white space, a
/// registry, a `/` after `docker.io/`, and a tag or digest.
pub open spec fn qualified(n: Seq<char>) -> bool {
    &&& n.len() > 0
    &&& no_space(n)
    &&& names_registry(n)
    &&& ("docker.io/"@.is_prefix_of(n) ==> n.skip(10).contains('/'))
    &&& names_tag_or_digest(n)
}

proof fn lemma_trim_no_space(s: Seq<char>)
    requires
        no_space(s),
    ensures
        trim(s) == s,
{
    if s.len() > 0 {
        assert(!is_space(s[0]));
        assert(!is_space(s.last()));
    }
    assert(trim_start(s) == s);
    assert(trim_end(s) == s);
}

/// Text that starts with `docker.io/` has `docker.io` as its first path
/// component.
proof fn lemma_hub_first_component(n: Seq<char>)
    requires
        "docker.io/"@.is_prefix_of(n),
    ensures
        names_registry(n),
        n.contains('/'),
{
    reveal_strlit("docker.io/");
    let hub = "docker.io/"@;
    assert(n.subrange(0, 10) == hub);
    assert forall|j: int| 0 <= j < 9 implies n[j] != '/' by {
        assert(n[j] == hub[j]);
    }
    assert(n[9] == hub[9]);
    lemma_first_index_is(n, '/', 9);
    let first = before_first(n, '/');
    assert(first[6] == n[6]);
    assert(n[6] == '.');
    assert(first.contains('.'));
    assert(n.contains('/'));
}

proof fn lemma_concat_no_space(a: Seq<char>, b: Seq<char>)
    requires
        no_space(a),
        no_space(b),
    ensures
        no_space(a + b),
{
    assert forall|j: int| 0 <= j < (a + b).len() implies !is_space(#[trigger] (a + b)[j]) by {
        if j < a.len() {
            assert((a + b)[j] == a[j]);
        } else {
            assert((a + b)[j] == b[j - a.len()]);
        }
    }
}

/// Every normalized reference is qualified.
pub proof fn lemma_normalized_qualified(image: Seq<char>)
    requires
        reference_problem(image) is None,
    ensures
        qualified(normalized_reference(image)),
{
    reveal_strlit("docker.io/");
    reveal_strlit("docker.io/library/");
    reveal_strlit(":latest");
    let hub = "docker.io/"@;
    let lib = "docker.io/library/"@;
    let latest = ":latest"@;
    let t = trim(image);
    assert(no_space(t));
    assert(no_space(hub));
    assert(no_space(lib));
    assert(no_space(latest));
    let n1 = with_registry(t);
    if !names_registry(t) {
        assert(hub.is_prefix_of(hub + t)) by {
            assert((hub + t).subrange(0, 10) =~= hub);
        }
        lemma_concat_no_space(hub, t);
    }
    assert(names_registry(n1)) by {
        if !names_registry(t) {
            lemma_hub_first_component(n1);
        }
    }
    assert(no_space(n1) && n1.len() > 0);
    let n2 = with_library(n1);
    if hub.is_prefix_of(n1) && !n1.skip(10).contains('/') {
        let rest = n1.skip(10);
        lemma_concat_no_space(lib, rest);
        assert(n2 == lib + rest);
        assert(hub.is_prefix_of(n2)) by {
            assert(n2.subrange(0, 10) =~= hub);
        }
        lemma_hub_first_component(n2);
        assert(n2.skip(10)[7] == '/');
        assert(n2.skip(10).contains('/'));
    }
    assert(names_registry(n2));
    assert(no_space(n2) && n2.len() > 0);
    assert(hub.is_prefix_of(n2) ==> n2.skip(10).contains('/'));
    let n3 = with_tag(n2);
    if !names_tag_or_digest(n2) {
        let m = n2.len() as int;
        assert(n3 == n2 + latest);
        lemma_concat_no_space(n2, latest);
        // The first path component is unchanged.
        lemma_first_index(n2, '/');
        let f = first_index(n2, '/');
        assert(n2.contains('/'));
        assert(f < m);
        assert forall|j: int| 0 <= j < f implies n3[j] != '/' by {
            assert(n3[j] == n2[j]);
        }
        assert(n3[f] == n2[f]);
        lemma_first_index_is(n3, '/', f);
        assert(before_first(n3, '/') =~= before_first(n2, '/'));
        assert(n3.contains('/')) by {
            assert(n3[f] == '/');
        }
        assert(names_registry(n3));
        // `docker.io/` is a prefix of both or of neither, with a `/` after it.
        if hub.is_prefix_of(n3) {
            if m < 10 {
                assert(n2[f] == n3[f]);
                assert(n3[f] == hub[f]);
                assert(f < 9 ==> hub[f] != '/');
                assert(false);
            }
            assert(n2.subrange(0, 10) =~= n3.subrange(0, 10));
            assert(hub.is_prefix_of(n2));
            let k = choose|k: int| 0 <= k < n2.skip(10).len() && n2.skip(10)[k] == '/';
            assert(n3.skip(10)[k] == '/');
            assert(n3.skip(10).contains('/'));
        }
        // The tag is in the last path component.
        lemma_last_index(n3, '/');
        let l = last_index(n3, '/');
        assert(n3[f] == '/');
        assert(l >= f);
        assert(l < m) by {
            if l >= m {
                assert(n3[l] == latest[l - m]);
            }
        }
        assert(n3[m] == ':');
        assert(after_last(n3, '/')[m - l - 1] == ':');
        assert(after_last(n3, '/').contains(':'));
    }
}

/// A qualified reference normalizes to itself.
pub proof fn lemma_qualified_fixed(n: Seq<char>)
    requires
        qualified(n),
    ensures
        reference_problem(n) is None,
        normalized_reference(n) == n,
{
    reveal_strlit("docker.io/");
    lemma_trim_no_space(n);
    assert(trim(n) == n);
    if exists|j: int| 0 <= j < n.len() && is_space(n[j]) {
        let j = choose|j: int| 0 <= j < n.len() && is_space(n[j]);
        assert(!is_space(n[j]));
    }
    assert(with_registry(n) == n);
    assert(with_library(n) == n);
    assert(with_tag(n) == n);
}

/// Normalizing is idempotent: a normalized reference is accepted and
/// normalizes to itself.
pub proof fn lemma_normalize_idempotent(image: Seq<char>)
    requires
        reference_problem(image) is None,
    ensures
        reference_problem(normalized_reference(image)) is None,
        normalized_reference(normalized_reference(image)) == normalized_reference(image),
{
    lemma_normalized_qualified(image);
    lemma_qualified_fixed(normalized_reference(image));
}

} // verus!
