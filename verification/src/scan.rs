//! Locating the n-th occurrence of a character in a string.
//!
//! The URL rewrite and the IP-literal validation both need to find the
//! position of the n-th occurrence of a separator character.

use vstd::prelude::*;

verus! {

/// Index of the `n`-th occurrence (1-based) of `c` in `s`, scanning from
/// position `i`; `None` when fewer than `n` occurrences remain.
pub open spec fn find_from(s: Seq<char>, c: char, n: nat, i: int) -> Option<int>
    decreases s.len() - i,
{
    if i < 0 || i >= s.len() {
        None
    } else if s[i] == c {
        if n <= 1 {
            Some(i)
        } else {
            find_from(s, c, (n - 1) as nat, i + 1)
        }
    } else {
        find_from(s, c, n, i + 1)
    }
}

/// Index of the `n`-th occurrence (1-based) of `c` in `s`.
pub open spec fn find_nth(s: Seq<char>, c: char, n: nat) -> Option<int> {
    find_from(s, c, n, 0)
}

/// A found index is in range and holds the character sought.
pub proof fn lemma_find_from_valid(s: Seq<char>, c: char, n: nat, i: int)
    ensures
        find_from(s, c, n, i) matches Some(j) ==> i <= j < s.len() && s[j] == c,
    decreases s.len() - i,
{
    if i < 0 || i >= s.len() {
    } else if s[i] == c && n > 1 {
        lemma_find_from_valid(s, c, (n - 1) as nat, i + 1);
    } else if s[i] != c {
        lemma_find_from_valid(s, c, n, i + 1);
    }
}

/// Scanning over a stretch that does not hold `c` does not change the result.
pub proof fn lemma_find_from_skip(s: Seq<char>, c: char, n: nat, i: int, k: int)
    requires
        0 <= i <= k <= s.len(),
        forall|j: int| i <= j < k ==> s[j] != c,
    ensures
        find_from(s, c, n, i) == find_from(s, c, n, k),
    decreases k - i,
{
    if i < k {
        lemma_find_from_skip(s, c, n, i + 1, k);
    }
}

/// Finds the `n`-th occurrence (1-based) of `c` in `s`, as a character
/// index, or `None` when `s` holds fewer than `n` occurrences.
pub fn find_nth_char(s: &str, c: char, n: usize) -> (r: Option<usize>)
    requires
        1 <= n,
    ensures
        match r {
            Some(i) => find_nth(s@, c, n as nat) == Some(i as int) && i < s@.len(),
            None => find_nth(s@, c, n as nat) is None,
        },
{
    let len = s.unicode_len();
    let mut i: usize = 0;
    let mut rem: usize = n;
    while i < len
        invariant
            0 <= i <= len,
            len == s@.len(),
            1 <= rem <= n,
            find_from(s@, c, n as nat, 0) == find_from(s@, c, rem as nat, i as int),
        decreases len - i,
    {
        let ch = s.get_char(i);
        if ch == c {
            if rem == 1 {
                proof {
                    lemma_find_from_valid(s@, c, n as nat, 0);
                }
                return Some(i);
            }
            rem = rem - 1;
        }
        i = i + 1;
    }
    None
}

/// Finds the first occurrence of `c` in `s` at or after position
/// `start`, as a character index.
pub fn find_char_from(s: &str, c: char, start: usize) -> (r: Option<usize>)
    requires
        start <= s@.len(),
    ensures
        match r {
            Some(j) => find_from(s@, c, 1, start as int) == Some(j as int) && start <= j
                < s@.len(),
            None => find_from(s@, c, 1, start as int) is None,
        },
{
    let len = s.unicode_len();
    let mut i: usize = start;
    while i < len
        invariant
            start <= i <= len,
            len == s@.len(),
            find_from(s@, c, 1, start as int) == find_from(s@, c, 1, i as int),
        decreases len - i,
    {
        if s.get_char(i) == c {
            return Some(i);
        }
        i = i + 1;
    }
    None
}

} // verus!
