//! The Referer/Origin URL rewrite.
//!
//! Given an absolute-URL header value `V` and the configured virtual host
//! `H`, the proxy emits `https://{H}{suffix}`, where `suffix` is the part
//! of `V` from its third `/` (inclusive) to the end, or empty when `V`
//! holds fewer than three slashes.  This is a deliberate lightweight
//! heuristic over the conventional `scheme://host[:port]/path...` shape,
//! not a general URL parser: for such values the third slash is the one
//! that begins the path, so path, query and fragment are kept verbatim
//! while scheme and authority are replaced.

use vstd::prelude::*;
use crate::scan::{find_from, find_nth, find_nth_char, lemma_find_from_skip, lemma_find_from_valid};

verus! {

/// The part of `v` kept by the rewrite: everything from the third `/`
/// (inclusive) on, or empty when `v` has fewer than three slashes.
pub open spec fn suffix_of(v: Seq<char>) -> Seq<char> {
    match find_nth(v, '/', 3) {
        Some(i) => v.subrange(i, v.len() as int),
        None => Seq::empty(),
    }
}

/// The rewritten header value: `https://` + the virtual host + the kept
/// suffix of the original value.
pub open spec fn rewritten(v: Seq<char>, host: Seq<char>) -> Seq<char> {
    "https://"@ + host + suffix_of(v)
}

/// Rewrites the absolute-URL header value `value` to point at `host`.
pub fn rewrite_url(value: &str, host: &str) -> (r: String)
    ensures
        r@ == rewritten(value@, host@),
{
    let mut out = String::from_str("https://");
    out.append(host);
    match find_nth_char(value, '/', 3) {
        Some(i) => {
            let len = value.unicode_len();
            let suffix = value.substring_char(i, len);
            out.append(suffix);
        },
        None => {},
    }
    assert(out@ =~= rewritten(value@, host@));
    out
}

/// For a conventionally shaped absolute URL — `https://` followed by a
/// slash-free authority and then a path (or nothing) — the rewrite
/// replaces exactly the scheme and authority and keeps the rest (path,
/// query and fragment) verbatim.
pub proof fn lemma_rewrite_preserves_tail(authority: Seq<char>, rest: Seq<char>, host: Seq<char>)
    requires
        forall|i: int| 0 <= i < authority.len() ==> authority[i] != '/',
        rest.len() > 0 ==> rest[0] == '/',
    ensures
        rewritten("https://"@ + authority + rest, host) == "https://"@ + host + rest,
{
    reveal_strlit("https://");
    let v = "https://"@ + authority + rest;
    let p = "https://"@;
    assert(p.len() == 8);
    assert(p[0] == 'h' && p[1] == 't' && p[2] == 't' && p[3] == 'p' && p[4] == 's' && p[5]
        == ':' && p[6] == '/' && p[7] == '/');
    let alen = authority.len() as int;
    // no '/' in v before index 6
    assert(forall|j: int| 0 <= j < 6 ==> v[j] != '/');
    lemma_find_from_skip(v, '/', 3, 0, 6);
    assert(v[6] == '/');
    assert(find_from(v, '/', 3, 6) == find_from(v, '/', 2, 7));
    assert(v[7] == '/');
    assert(find_from(v, '/', 2, 7) == find_from(v, '/', 1, 8));
    // the authority stretch holds no '/'
    assert(forall|j: int| 8 <= j < 8 + alen ==> v[j] == authority[j - 8] && v[j] != '/');
    lemma_find_from_skip(v, '/', 1, 8, 8 + alen);
    if rest.len() == 0 {
        assert(find_from(v, '/', 1, 8 + alen) is None);
        assert(suffix_of(v) =~= rest);
    } else {
        assert(v[8 + alen] == rest[0] == '/');
        assert(find_from(v, '/', 1, 8 + alen) == Some(8 + alen));
        assert(suffix_of(v) =~= rest);
    }
    assert(rewritten(v, host) == "https://"@ + host + rest);
}

/// The kept suffix is empty or begins with `/`.
pub proof fn lemma_suffix_shape(v: Seq<char>)
    ensures
        suffix_of(v).len() > 0 ==> suffix_of(v)[0] == '/',
{
    lemma_find_from_valid(v, '/', 3, 0);
}

/// Rewriting is total, and for a slash-free virtual host — the common
/// case — rewriting an already-rewritten value again is a no-op.  (With
/// a host that itself holds slashes the second rewrite may differ;
/// neither is required, only that the operation stays well defined.)
pub proof fn lemma_rewrite_stable_for_plain_host(v: Seq<char>, host: Seq<char>)
    requires
        forall|i: int| 0 <= i < host.len() ==> host[i] != '/',
    ensures
        rewritten(rewritten(v, host), host) == rewritten(v, host),
{
    lemma_suffix_shape(v);
    lemma_rewrite_preserves_tail(host, suffix_of(v), host);
}

} // verus!
