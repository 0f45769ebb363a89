//! Validation of IP-address literals.
//!
//! The upstream address is given as text and must be a valid IPv4 or
//! IPv6 literal; anything else is a startup error.  An IPv4 literal is
//! four dot-separated decimal octets, each at most 255, written without
//! a leading zero (except the octet `0` itself).

use vstd::prelude::*;
use crate::scan::{find_from, find_nth, find_nth_char, find_char_from, lemma_find_from_valid};

verus! {

/// A decimal digit.
pub open spec fn is_digit(c: char) -> bool {
    '0' <= c && c <= '9'
}

/// The value of a decimal digit.
pub open spec fn digit_val(c: char) -> int {
    c as u32 - 48
}

/// The value of a string of decimal digits.
pub open spec fn dec_val(s: Seq<char>) -> int
    decreases s.len(),
{
    if s.len() == 0 {
        0
    } else {
        dec_val(s.drop_last()) * 10 + digit_val(s.last())
    }
}

/// The text of one IPv4 octet: one to three decimal digits, no leading
/// zero (except `0` itself), value at most 255.
pub open spec fn is_octet_text(s: Seq<char>) -> bool {
    &&& 1 <= s.len() <= 3
    &&& forall|i: int| 0 <= i < s.len() ==> is_digit(s[i])
    &&& (s.len() > 1 ==> s[0] != '0')
    &&& dec_val(s) <= 255
}

/// A valid IPv4 literal: exactly three dots, each of the four fields a
/// valid octet.
pub open spec fn valid_ipv4(s: Seq<char>) -> bool {
    match (find_nth(s, '.', 1), find_nth(s, '.', 2), find_nth(s, '.', 3)) {
        (Some(d1), Some(d2), Some(d3)) => {
            &&& find_nth(s, '.', 4) is None
            &&& is_octet_text(s.subrange(0, d1))
            &&& is_octet_text(s.subrange(d1 + 1, d2))
            &&& is_octet_text(s.subrange(d2 + 1, d3))
            &&& is_octet_text(s.subrange(d3 + 1, s.len() as int))
        },
        _ => false,
    }
}

/// The four octet values of a valid IPv4 literal.
pub open spec fn ipv4_octets(s: Seq<char>) -> (int, int, int, int)
    recommends
        valid_ipv4(s),
{
    let d1 = find_nth(s, '.', 1)->Some_0;
    let d2 = find_nth(s, '.', 2)->Some_0;
    let d3 = find_nth(s, '.', 3)->Some_0;
    (
        dec_val(s.subrange(0, d1)),
        dec_val(s.subrange(d1 + 1, d2)),
        dec_val(s.subrange(d2 + 1, d3)),
        dec_val(s.subrange(d3 + 1, s.len() as int)),
    )
}

/// Parses one IPv4 octet field.
fn parse_octet(s: &str) -> (r: Option<u8>)
    ensures
        r is Some <==> is_octet_text(s@),
        r matches Some(v) ==> v as int == dec_val(s@),
{
    let len = s.unicode_len();
    if len < 1 || len > 3 {
        return None;
    }
    if len > 1 && s.get_char(0) == '0' {
        return None;
    }
    let mut val: u32 = 0;
    let mut i: usize = 0;
    while i < len
        invariant
            0 <= i <= len,
            len == s@.len(),
            1 <= len <= 3,
            forall|j: int| 0 <= j < i ==> is_digit(s@[j]),
            val == dec_val(s@.subrange(0, i as int)),
            i == 0 ==> val == 0,
            i == 1 ==> val <= 9,
            i == 2 ==> val <= 99,
            i == 3 ==> val <= 999,
        decreases len - i,
    {
        let c = s.get_char(i);
        if !(c >= '0' && c <= '9') {
            return None;
        }
        assert(c as u32 >= 48 && c as u32 <= 57);
        val = val * 10 + (c as u32 - 48);
        proof {
            let pre = s@.subrange(0, i as int);
            let cur = s@.subrange(0, i as int + 1);
            assert(cur.drop_last() =~= pre);
            assert(cur.last() == s@[i as int]);
        }
        i = i + 1;
    }
    assert(s@.subrange(0, len as int) =~= s@);
    if val > 255 {
        return None;
    }
    Some(val as u8)
}

/// Parses an IPv4 literal into its four octets.
pub fn parse_ipv4(s: &str) -> (r: Option<(u8, u8, u8, u8)>)
    ensures
        r is Some <==> valid_ipv4(s@),
        r matches Some(v) ==> (v.0 as int, v.1 as int, v.2 as int, v.3 as int) == ipv4_octets(s@),
{
    let d1 = match find_nth_char(s, '.', 1) {
        Some(i) => i,
        None => {
            return None;
        },
    };
    let d2 = match find_nth_char(s, '.', 2) {
        Some(i) => i,
        None => {
            return None;
        },
    };
    let d3 = match find_nth_char(s, '.', 3) {
        Some(i) => i,
        None => {
            return None;
        },
    };
    if find_nth_char(s, '.', 4).is_some() {
        return None;
    }
    proof {
        lemma_find_from_valid(s@, '.', 1, 0);
        lemma_find_from_valid(s@, '.', 2, 0);
        lemma_find_from_valid(s@, '.', 3, 0);
        lemma_find_from_succ(s@, '.', 1, 0);
        lemma_find_from_succ(s@, '.', 2, 0);
    }
    let len = s.unicode_len();
    let f0 = s.substring_char(0, d1);
    let f1 = s.substring_char(d1 + 1, d2);
    let f2 = s.substring_char(d2 + 1, d3);
    let f3 = s.substring_char(d3 + 1, len);
    let a = match parse_octet(f0) {
        Some(v) => v,
        None => {
            return None;
        },
    };
    let b = match parse_octet(f1) {
        Some(v) => v,
        None => {
            return None;
        },
    };
    let c = match parse_octet(f2) {
        Some(v) => v,
        None => {
            return None;
        },
    };
    let d = match parse_octet(f3) {
        Some(v) => v,
        None => {
            return None;
        },
    };
    Some((a, b, c, d))
}

/// The fields of `s` from position `i` on, split on `c`.  (The inner
/// bounds check only discharges termination; a found index always lies
/// in range.)
pub open spec fn split_from(s: Seq<char>, c: char, i: int) -> Seq<Seq<char>>
    decreases s.len() - i,
{
    if i < 0 || i > s.len() {
        Seq::empty()
    } else {
        match find_from(s, c, 1, i) {
            None => seq![s.subrange(i, s.len() as int)],
            Some(j) => if i <= j < s.len() {
                seq![s.subrange(i, j)] + split_from(s, c, j + 1)
            } else {
                seq![s.subrange(i, s.len() as int)]
            },
        }
    }
}

/// The views of a vector of strings.
pub open spec fn views_of(parts: Seq<String>) -> Seq<Seq<char>> {
    parts.map_values(|p: String| p@)
}

/// Splits `s` into its colon-separated fields.
pub fn split_colon(s: &str) -> (r: Vec<String>)
    ensures
        views_of(r@) == split_from(s@, ':', 0),
        r@.len() >= 1,
{
    let len = s.unicode_len();
    let mut parts: Vec<String> = Vec::new();
    let mut i: usize = 0;
    assert(views_of(parts@) + split_from(s@, ':', 0) =~= split_from(s@, ':', 0));
    loop
        invariant
            0 <= i <= len,
            len == s@.len(),
            split_from(s@, ':', 0) == views_of(parts@) + split_from(s@, ':', i as int),
        decreases len - i,
    {
        let ghost pre = views_of(parts@);
        match find_char_from(s, ':', i) {
            Some(j) => {
                let field = s.substring_char(i, j);
                parts.push(String::from_str(field));
                assert(views_of(parts@) =~= pre.push(s@.subrange(i as int, j as int)));
                assert(pre + split_from(s@, ':', i as int) =~= pre.push(
                    s@.subrange(i as int, j as int),
                ) + split_from(s@, ':', j + 1));
                i = j + 1;
            },
            None => {
                let field = s.substring_char(i, len);
                parts.push(String::from_str(field));
                assert(views_of(parts@) =~= pre.push(s@.subrange(i as int, len as int)));
                assert(pre + split_from(s@, ':', i as int) =~= views_of(parts@));
                assert(views_of(parts@) =~= split_from(s@, ':', 0));
                return parts;
            },
        }
    }
}

/// The first empty field at or after position `i`, if any.
pub open spec fn first_empty_from(ps: Seq<Seq<char>>, i: int) -> Option<int>
    decreases ps.len() - i,
{
    if i < 0 || i >= ps.len() {
        None
    } else if ps[i].len() == 0 {
        Some(i)
    } else {
        first_empty_from(ps, i + 1)
    }
}

/// The first empty field of `parts`, if any.
fn first_empty_exec(parts: &Vec<String>) -> (r: Option<usize>)
    ensures
        match r {
            Some(e) => first_empty_from(views_of(parts@), 0) == Some(e as int) && e
                < parts@.len(),
            None => first_empty_from(views_of(parts@), 0) is None,
        },
{
    let n = parts.len();
    let mut i: usize = 0;
    while i < n
        invariant
            0 <= i <= n,
            n == parts@.len(),
            first_empty_from(views_of(parts@), 0) == first_empty_from(
                views_of(parts@),
                i as int,
            ),
        decreases n - i,
    {
        if parts[i].as_str().is_empty() {
            return Some(i);
        }
        i = i + 1;
    }
    None
}

/// A hexadecimal digit.
pub open spec fn is_hex_digit(c: char) -> bool {
    ('0' <= c && c <= '9') || ('a' <= c && c <= 'f') || ('A' <= c && c <= 'F')
}

/// The value of a hexadecimal digit.
pub open spec fn hex_digit_val(c: char) -> int {
    if '0' <= c && c <= '9' {
        c as u32 - 48
    } else if 'a' <= c && c <= 'f' {
        c as u32 - 87
    } else {
        c as u32 - 55
    }
}

/// The value of a string of hexadecimal digits.
pub open spec fn hex_val(s: Seq<char>) -> int
    decreases s.len(),
{
    if s.len() == 0 {
        0
    } else {
        hex_val(s.drop_last()) * 16 + hex_digit_val(s.last())
    }
}

/// The text of one IPv6 group: one to four hexadecimal digits.
pub open spec fn is_h16(p: Seq<char>) -> bool {
    1 <= p.len() <= 4 && forall|i: int| 0 <= i < p.len() ==> is_hex_digit(p[i])
}

/// Every field in `[lo, hi)` is an IPv6 group.
pub open spec fn all_h16(ps: Seq<Seq<char>>, lo: int, hi: int) -> bool {
    forall|i: int| lo <= i < hi ==> is_h16(#[trigger] ps[i])
}

/// The fields `[lo, hi)` form the right-hand side of an IPv6 address:
/// each a group, except that the last may be an embedded IPv4 quad.
pub open spec fn tail_ok(ps: Seq<Seq<char>>, lo: int, hi: int) -> bool {
    hi - lo >= 1 && all_h16(ps, lo, hi - 1) && (is_h16(ps[hi - 1]) || valid_ipv4(ps[hi - 1]))
}

/// How many 16-bit groups the fields `[lo, hi)` stand for: one each,
/// two for an embedded IPv4 quad.
pub open spec fn tail_group_count(ps: Seq<Seq<char>>, lo: int, hi: int) -> int {
    if hi - lo >= 1 && valid_ipv4(ps[hi - 1]) {
        hi - lo + 1
    } else {
        hi - lo
    }
}

/// Whether `p` is one IPv6 group.
fn is_h16_exec(p: &str) -> (r: bool)
    ensures
        r == is_h16(p@),
{
    let len = p.unicode_len();
    if len < 1 || len > 4 {
        return false;
    }
    let mut i: usize = 0;
    while i < len
        invariant
            0 <= i <= len,
            len == p@.len(),
            forall|j: int| 0 <= j < i ==> is_hex_digit(p@[j]),
        decreases len - i,
    {
        let c = p.get_char(i);
        if !((c >= '0' && c <= '9') || (c >= 'a' && c <= 'f') || (c >= 'A' && c <= 'F')) {
            return false;
        }
        i = i + 1;
    }
    true
}

/// A valid IPv6 literal: colon-separated groups of one to four hex
/// digits, at most one `::` run (standing for one or more zero groups),
/// an optional embedded IPv4 quad as the final two groups, and eight
/// groups in all (fewer written out when `::` is present).
pub open spec fn valid_ipv6(s: Seq<char>) -> bool {
    let ps = split_from(s, ':', 0);
    let n = ps.len() as int;
    match first_empty_from(ps, 0) {
        None => (n == 8 && all_h16(ps, 0, 8)) || (n == 7 && all_h16(ps, 0, 6) && valid_ipv4(
            ps[6],
        )),
        Some(e) => if e == 0 {
            // the address begins with "::"
            n >= 3 && ps[1].len() == 0 && ((n == 3 && ps[2].len() == 0) || (tail_ok(ps, 2, n)
                && tail_group_count(ps, 2, n) <= 7))
        } else if e == n - 2 && ps[n - 1].len() == 0 {
            // the address ends with "::"
            all_h16(ps, 0, e) && e <= 7
        } else {
            // one "::" between two written runs of groups
            1 <= e <= n - 2 && all_h16(ps, 0, e) && tail_ok(ps, e + 1, n) && e
                + tail_group_count(ps, e + 1, n) <= 7
        },
    }
}

/// The group values written one per field in `[lo, hi)`.
pub open spec fn head_vals(ps: Seq<Seq<char>>, lo: int, hi: int) -> Seq<int>
    decreases hi - lo,
{
    if lo >= hi {
        Seq::empty()
    } else {
        head_vals(ps, lo, hi - 1).push(hex_val(ps[hi - 1]))
    }
}

/// The group values of the right-hand fields `[lo, hi)`: one per field,
/// two for a final embedded IPv4 quad.
pub open spec fn tail_vals(ps: Seq<Seq<char>>, lo: int, hi: int) -> Seq<int> {
    if hi - lo >= 1 && valid_ipv4(ps[hi - 1]) {
        let o = ipv4_octets(ps[hi - 1]);
        head_vals(ps, lo, hi - 1) + seq![o.0 * 256 + o.1, o.2 * 256 + o.3]
    } else {
        head_vals(ps, lo, hi)
    }
}

/// `k` zero groups.
pub open spec fn zero_vals(k: int) -> Seq<int> {
    Seq::new(if k < 0 {
        0
    } else {
        k as nat
    }, |i: int| 0)
}

/// The eight 16-bit groups of a valid IPv6 literal, the `::` run
/// expanded to zeros.
pub open spec fn ipv6_groups(s: Seq<char>) -> Seq<int>
    recommends
        valid_ipv6(s),
{
    let ps = split_from(s, ':', 0);
    let n = ps.len() as int;
    match first_empty_from(ps, 0) {
        None => if n == 8 {
            head_vals(ps, 0, 8)
        } else {
            tail_vals(ps, 0, n)
        },
        Some(e) => if e == 0 {
            if n == 3 && ps[2].len() == 0 {
                zero_vals(8)
            } else {
                zero_vals(8 - tail_group_count(ps, 2, n)) + tail_vals(ps, 2, n)
            }
        } else if e == n - 2 && ps[n - 1].len() == 0 {
            head_vals(ps, 0, e) + zero_vals(8 - e)
        } else {
            head_vals(ps, 0, e) + zero_vals(8 - e - tail_group_count(ps, e + 1, n)) + tail_vals(
                ps,
                e + 1,
                n,
            )
        },
    }
}

/// Parses one IPv6 group field.
fn parse_h16(p: &str) -> (r: Option<u16>)
    ensures
        r is Some <==> is_h16(p@),
        r matches Some(v) ==> v as int == hex_val(p@),
{
    let len = p.unicode_len();
    if len < 1 || len > 4 {
        return None;
    }
    let mut val: u32 = 0;
    let mut i: usize = 0;
    while i < len
        invariant
            0 <= i <= len,
            len == p@.len(),
            1 <= len <= 4,
            forall|j: int| 0 <= j < i ==> is_hex_digit(p@[j]),
            val == hex_val(p@.subrange(0, i as int)),
            i == 0 ==> val == 0,
            i == 1 ==> val <= 0xf,
            i == 2 ==> val <= 0xff,
            i == 3 ==> val <= 0xfff,
            i == 4 ==> val <= 0xffff,
        decreases len - i,
    {
        let c = p.get_char(i);
        let d: u32;
        if c >= '0' && c <= '9' {
            d = c as u32 - 48;
        } else if c >= 'a' && c <= 'f' {
            d = c as u32 - 87;
        } else if c >= 'A' && c <= 'F' {
            d = c as u32 - 55;
        } else {
            return None;
        }
        val = val * 16 + d;
        proof {
            let pre = p@.subrange(0, i as int);
            let cur = p@.subrange(0, i as int + 1);
            assert(cur.drop_last() =~= pre);
            assert(cur.last() == p@[i as int]);
        }
        i = i + 1;
    }
    assert(p@.subrange(0, len as int) =~= p@);
    Some(val as u16)
}

/// Splitting off the last field of an all-groups run.
proof fn lemma_all_h16_split(ps: Seq<Seq<char>>, lo: int, hi: int)
    requires
        lo < hi,
    ensures
        all_h16(ps, lo, hi) == (all_h16(ps, lo, hi - 1) && is_h16(ps[hi - 1])),
{
    if all_h16(ps, lo, hi - 1) && is_h16(ps[hi - 1]) {
        assert forall|j: int| lo <= j < hi implies is_h16(#[trigger] ps[j]) by {
            if j < hi - 1 {
            }
        }
    }
}

/// Collects the group values of fields `[lo, hi)`, each one group.
fn collect_head(parts: &Vec<String>, lo: usize, hi: usize) -> (r: Option<Vec<u16>>)
    requires
        lo <= hi <= parts@.len(),
    ensures
        r is Some <==> all_h16(views_of(parts@), lo as int, hi as int),
        (r matches Some(v) ==> v@.len() == hi - lo && v@.map_values(|g: u16| g as int)
            == head_vals(views_of(parts@), lo as int, hi as int)),
{
    let mut out: Vec<u16> = Vec::new();
    let mut i: usize = lo;
    assert(out@.map_values(|g: u16| g as int) =~= head_vals(
        views_of(parts@),
        lo as int,
        lo as int,
    ));
    while i < hi
        invariant
            lo <= i <= hi <= parts@.len(),
            forall|j: int| lo <= j < i ==> is_h16(#[trigger] views_of(parts@)[j]),
            out@.len() == i - lo,
            out@.map_values(|g: u16| g as int) == head_vals(views_of(parts@), lo as int, i as int),
        decreases hi - i,
    {
        assert(views_of(parts@)[i as int] == parts@[i as int]@);
        match parse_h16(parts[i].as_str()) {
            Some(g) => {
                let ghost pre = out@.map_values(|g: u16| g as int);
                out.push(g);
                assert(out@.map_values(|g: u16| g as int) =~= pre.push(
                    hex_val(parts@[i as int]@),
                ));
            },
            None => {
                return None;
            },
        }
        i = i + 1;
    }
    Some(out)
}

/// Collects the group values of the right-hand fields `[lo, hi)`,
/// expanding a final embedded IPv4 quad into its two groups.
fn collect_tail(parts: &Vec<String>, lo: usize, hi: usize) -> (r: Option<Vec<u16>>)
    requires
        lo <= hi <= parts@.len(),
    ensures
        r is Some <==> tail_ok(views_of(parts@), lo as int, hi as int),
        (r matches Some(v) ==> v@.len() == tail_group_count(views_of(parts@), lo as int, hi as int)
            && v@.map_values(|g: u16| g as int) == tail_vals(
            views_of(parts@),
            lo as int,
            hi as int,
        )),
{
    if hi <= lo {
        return None;
    }
    assert(views_of(parts@)[hi as int - 1] == parts@[hi as int - 1]@);
    proof {
        lemma_all_h16_split(views_of(parts@), lo as int, hi as int);
    }
    match parse_ipv4(parts[hi - 1].as_str()) {
        Some(o) => {
            match collect_head(parts, lo, hi - 1) {
                Some(v) => {
                    let mut v = v;
                    let ghost pre = v@.map_values(|g: u16| g as int);
                    let g1: u16 = (o.0 as u16) * 256 + (o.1 as u16);
                    let g2: u16 = (o.2 as u16) * 256 + (o.3 as u16);
                    v.push(g1);
                    v.push(g2);
                    assert(v@.map_values(|g: u16| g as int) =~= pre + seq![
                        g1 as int,
                        g2 as int,
                    ]);
                    Some(v)
                },
                None => None,
            }
        },
        None => collect_head(parts, lo, hi),
    }
}

/// Lays the written groups out as the eight groups of an address:
/// `head`, then zeros for the `::` run, then `tail`.
fn assemble_groups(head: &Vec<u16>, tail: &Vec<u16>) -> (r: Vec<u16>)
    requires
        head@.len() + tail@.len() <= 8,
    ensures
        r@.len() == 8,
        r@.map_values(|g: u16| g as int) == head@.map_values(|g: u16| g as int) + zero_vals(
            8 - head@.len() - tail@.len(),
        ) + tail@.map_values(|g: u16| g as int),
{
    let mut out: Vec<u16> = Vec::new();
    let mut i: usize = 0;
    while i < head.len()
        invariant
            0 <= i <= head@.len(),
            out@ == head@.subrange(0, i as int),
        decreases head@.len() - i,
    {
        out.push(head[i]);
        assert(out@ =~= head@.subrange(0, i as int + 1));
        i = i + 1;
    }
    assert(out@ =~= head@);
    let zeros = 8 - head.len() - tail.len();
    let mut k: usize = 0;
    while k < zeros
        invariant
            0 <= k <= zeros,
            zeros == 8 - head@.len() - tail@.len(),
            out@.len() == head@.len() + k,
            out@.subrange(0, head@.len() as int) == head@,
            forall|t: int| head@.len() <= t < out@.len() ==> out@[t] == 0u16,
        decreases zeros - k,
    {
        out.push(0);
        assert(out@.subrange(0, head@.len() as int) =~= head@);
        k = k + 1;
    }
    let ghost mid = out@;
    let mut j: usize = 0;
    while j < tail.len()
        invariant
            0 <= j <= tail@.len(),
            out@ == mid + tail@.subrange(0, j as int),
        decreases tail@.len() - j,
    {
        out.push(tail[j]);
        assert(out@ =~= mid + tail@.subrange(0, j as int + 1));
        j = j + 1;
    }
    assert(out@ =~= mid + tail@);
    assert(out@.map_values(|g: u16| g as int) =~= head@.map_values(|g: u16| g as int)
        + zero_vals(8 - head@.len() - tail@.len()) + tail@.map_values(|g: u16| g as int));
    out
}

/// Parses an IPv6 literal into its eight 16-bit groups.
pub fn parse_ipv6(s: &str) -> (r: Option<Vec<u16>>)
    ensures
        r is Some <==> valid_ipv6(s@),
        (r matches Some(v) ==> v@.len() == 8 && v@.map_values(|g: u16| g as int) == ipv6_groups(
            s@,
        )),
{
    let parts = split_colon(s);
    let n = parts.len();
    let empty_head: Vec<u16> = Vec::new();
    let empty_tail: Vec<u16> = Vec::new();
    match first_empty_exec(&parts) {
        None => {
            if n == 8 {
                match collect_head(&parts, 0, 8) {
                    Some(v) => {
                        let r = assemble_groups(&v, &empty_tail);
                        assert(r@.map_values(|g: u16| g as int) =~= ipv6_groups(s@));
                        Some(r)
                    },
                    None => None,
                }
            } else if n == 7 {
                assert(views_of(parts@)[6] == parts@[6]@);
                if parse_ipv4(parts[6].as_str()).is_some() {
                    match collect_tail(&parts, 0, 7) {
                        Some(v) => {
                            let r = assemble_groups(&empty_head, &v);
                            assert(r@.map_values(|g: u16| g as int) =~= ipv6_groups(s@));
                            Some(r)
                        },
                        None => None,
                    }
                } else {
                    None
                }
            } else {
                None
            }
        },
        Some(e) => {
            if e == 0 {
                if n < 3 {
                    return None;
                }
                if !parts[1].as_str().is_empty() {
                    assert(views_of(parts@)[1] == parts@[1]@);
                    return None;
                }
                assert(views_of(parts@)[1] == parts@[1]@);
                assert(views_of(parts@)[2] == parts@[2]@);
                if n == 3 && parts[2].as_str().is_empty() {
                    let r = assemble_groups(&empty_head, &empty_tail);
                    assert(r@.map_values(|g: u16| g as int) =~= ipv6_groups(s@));
                    return Some(r);
                }
                match collect_tail(&parts, 2, n) {
                    Some(v) => {
                        if v.len() > 7 {
                            return None;
                        }
                        let r = assemble_groups(&empty_head, &v);
                        assert(r@.map_values(|g: u16| g as int) =~= ipv6_groups(s@));
                        Some(r)
                    },
                    None => None,
                }
            } else if e == n - 2 && parts[n - 1].as_str().is_empty() {
                assert(views_of(parts@)[n as int - 1] == parts@[n as int - 1]@);
                if e > 7 {
                    return None;
                }
                match collect_head(&parts, 0, e) {
                    Some(v) => {
                        let r = assemble_groups(&v, &empty_tail);
                        assert(r@.map_values(|g: u16| g as int) =~= ipv6_groups(s@));
                        Some(r)
                    },
                    None => None,
                }
            } else {
                if !(1 <= e && e <= n - 2) {
                    return None;
                }
                if e > 7 {
                    return None;
                }
                match collect_head(&parts, 0, e) {
                    Some(head) => {
                        match collect_tail(&parts, e + 1, n) {
                            Some(tail) => {
                                if e + tail.len() > 7 {
                                    return None;
                                }
                                let r = assemble_groups(&head, &tail);
                                assert(r@.map_values(|g: u16| g as int) =~= ipv6_groups(s@));
                                Some(r)
                            },
                            None => None,
                        }
                    },
                    None => None,
                }
            }
        },
    }
}

/// From any starting point, the `n+1`-th occurrence lies strictly after
/// the `n`-th.
pub proof fn lemma_find_from_succ(s: Seq<char>, c: char, n: nat, i: int)
    requires
        n >= 1,
    ensures
        crate::scan::find_from(s, c, n + 1, i) is Some ==> crate::scan::find_from(s, c, n, i)
            is Some && crate::scan::find_from(s, c, n, i)->Some_0 < crate::scan::find_from(
            s,
            c,
            n + 1,
            i,
        )->Some_0,
    decreases s.len() - i,
{
    if i < 0 || i >= s.len() {
    } else if s[i] == c {
        if n == 1 {
            crate::scan::lemma_find_from_valid(s, c, 1, i + 1);
        } else {
            lemma_find_from_succ(s, c, (n - 1) as nat, i + 1);
        }
    } else {
        lemma_find_from_succ(s, c, n, i + 1);
    }
}

} // verus!
