//! A model of an outbound header set.
//!
//! The transport engine owns the wire representation of the request
//! headers; the core works on this plain model of them — an ordered list
//! of name/value pairs, with case-insensitive (ASCII) name lookup, where
//! lookup returns the first entry under a name and insertion replaces
//! every entry under the name, as an HTTP header map does.

use vstd::prelude::*;

verus! {

/// ASCII lower-casing of one character.
pub open spec fn lower_char(c: char) -> char {
    if 'A' <= c && c <= 'Z' {
        ((c as u8) + 32) as char
    } else {
        c
    }
}

/// Header-name equality: equal after ASCII lower-casing.
pub open spec fn names_eq(a: Seq<char>, b: Seq<char>) -> bool {
    a.map_values(|c: char| lower_char(c)) == b.map_values(|c: char| lower_char(c))
}

/// The value of the first entry under `name`, if any.
pub open spec fn get_header_spec(hs: Seq<(Seq<char>, Seq<char>)>, name: Seq<char>) -> Option<
    Seq<char>,
>
    decreases hs.len(),
{
    if hs.len() == 0 {
        None
    } else if names_eq(hs[0].0, name) {
        Some(hs[0].1)
    } else {
        get_header_spec(hs.drop_first(), name)
    }
}

/// The header list with every entry under `name` removed.
pub open spec fn remove_header_spec(hs: Seq<(Seq<char>, Seq<char>)>, name: Seq<char>) -> Seq<
    (Seq<char>, Seq<char>),
>
    decreases hs.len(),
{
    if hs.len() == 0 {
        Seq::empty()
    } else if names_eq(hs[0].0, name) {
        remove_header_spec(hs.drop_first(), name)
    } else {
        seq![hs[0]] + remove_header_spec(hs.drop_first(), name)
    }
}

/// The header list with every entry under `name` replaced by the single
/// entry `(name, value)`, appended at the end.
pub open spec fn set_header_spec(
    hs: Seq<(Seq<char>, Seq<char>)>,
    name: Seq<char>,
    value: Seq<char>,
) -> Seq<(Seq<char>, Seq<char>)> {
    remove_header_spec(hs, name).push((name, value))
}

/// A character that may stand in an HTTP header value: horizontal tab,
/// or anything that is neither an ASCII control character nor DEL.
/// (Bytes of a multi-byte UTF-8 character are all above 127, so a value
/// is legal on the wire exactly when each of its characters is.)
pub open spec fn is_header_value_char(c: char) -> bool {
    c == '\t' || (c as u32 >= 32 && c as u32 != 127)
}

/// Whether `s` can be legally set as an HTTP header value.
pub open spec fn valid_header_value(s: Seq<char>) -> bool {
    forall|i: int| 0 <= i < s.len() ==> is_header_value_char(s[i])
}

/// Whether `s` can be legally set as an HTTP header value.
pub fn valid_header_value_exec(s: &str) -> (r: bool)
    ensures
        r == valid_header_value(s@),
{
    let len = s.unicode_len();
    let mut i: usize = 0;
    while i < len
        invariant
            0 <= i <= len,
            len == s@.len(),
            forall|j: int| 0 <= j < i ==> is_header_value_char(s@[j]),
        decreases len - i,
    {
        let c = s.get_char(i);
        if !(c == '\t' || (c as u32 >= 32 && c as u32 != 127)) {
            return false;
        }
        i = i + 1;
    }
    true
}

/// Appending an entry: lookup finds an earlier entry first, the new entry
/// only when no earlier one is under the same name.
pub proof fn lemma_get_push(
    hs: Seq<(Seq<char>, Seq<char>)>,
    name: Seq<char>,
    value: Seq<char>,
    m: Seq<char>,
)
    ensures
        get_header_spec(hs.push((name, value)), m) == (match get_header_spec(hs, m) {
            Some(v) => Some(v),
            None => if names_eq(name, m) {
                Some(value)
            } else {
                None
            },
        }),
    decreases hs.len(),
{
    if hs.len() == 0 {
        assert(hs.push((name, value))[0] == (name, value));
        assert(hs.push((name, value)).drop_first() =~= Seq::<(Seq<char>, Seq<char>)>::empty());
    } else {
        assert(hs.push((name, value))[0] == hs[0]);
        assert(hs.push((name, value)).drop_first() =~= hs.drop_first().push((name, value)));
        lemma_get_push(hs.drop_first(), name, value, m);
    }
}

/// Lookup after removal: gone under the removed name, untouched under any
/// other.
pub proof fn lemma_get_remove(hs: Seq<(Seq<char>, Seq<char>)>, name: Seq<char>, m: Seq<char>)
    ensures
        names_eq(name, m) ==> get_header_spec(remove_header_spec(hs, name), m) is None,
        !names_eq(name, m) ==> get_header_spec(remove_header_spec(hs, name), m)
            == get_header_spec(hs, m),
    decreases hs.len(),
{
    if hs.len() == 0 {
    } else {
        lemma_get_remove(hs.drop_first(), name, m);
        if !names_eq(hs[0].0, name) {
            let r = seq![hs[0]] + remove_header_spec(hs.drop_first(), name);
            assert(r[0] == hs[0]);
            assert(r.drop_first() =~= remove_header_spec(hs.drop_first(), name));
        }
    }
}

/// Lookup after `set`: the set value under the set name, untouched under
/// any other name.
pub proof fn lemma_get_set(
    hs: Seq<(Seq<char>, Seq<char>)>,
    name: Seq<char>,
    value: Seq<char>,
    m: Seq<char>,
)
    ensures
        names_eq(name, m) ==> get_header_spec(set_header_spec(hs, name, value), m) == Some(value),
        !names_eq(name, m) ==> get_header_spec(set_header_spec(hs, name, value), m)
            == get_header_spec(hs, m),
{
    lemma_get_remove(hs, name, m);
    lemma_get_push(remove_header_spec(hs, name), name, value, m);
}

/// An outbound header set: name/value pairs in order.
pub struct Headers {
    pub entries: Vec<(String, String)>,
}

impl View for Headers {
    type V = Seq<(Seq<char>, Seq<char>)>;

    open spec fn view(&self) -> Seq<(Seq<char>, Seq<char>)> {
        self.entries@.map_values(|e: (String, String)| (e.0@, e.1@))
    }
}

/// ASCII lower-casing of one character.
fn lower_char_exec(c: char) -> (r: char)
    ensures
        r == lower_char(c),
{
    if 'A' <= c && c <= 'Z' {
        ((c as u8) + 32) as char
    } else {
        c
    }
}

/// Case-insensitive (ASCII) equality of two header names.
pub fn names_eq_exec(a: &str, b: &str) -> (r: bool)
    ensures
        r == names_eq(a@, b@),
{
    let alen = a.unicode_len();
    let blen = b.unicode_len();
    if alen != blen {
        assert(a@.map_values(|c: char| lower_char(c)).len() == alen);
        assert(b@.map_values(|c: char| lower_char(c)).len() == blen);
        return false;
    }
    let mut i: usize = 0;
    while i < alen
        invariant
            0 <= i <= alen,
            alen == a@.len() == b@.len(),
            forall|j: int| 0 <= j < i ==> lower_char(a@[j]) == lower_char(b@[j]),
        decreases alen - i,
    {
        let ca = lower_char_exec(a.get_char(i));
        let cb = lower_char_exec(b.get_char(i));
        if ca != cb {
            assert(a@.map_values(|c: char| lower_char(c))[i as int] != b@.map_values(
                |c: char| lower_char(c),
            )[i as int]);
            return false;
        }
        i = i + 1;
    }
    assert(a@.map_values(|c: char| lower_char(c)) =~= b@.map_values(|c: char| lower_char(c)));
    true
}

impl Headers {
    /// An empty header set.
    pub fn new() -> (r: Headers)
        ensures
            r@ == Seq::<(Seq<char>, Seq<char>)>::empty(),
    {
        let r = Headers { entries: Vec::new() };
        assert(r@ =~= Seq::<(Seq<char>, Seq<char>)>::empty());
        r
    }

    /// Appends an entry at the end, without touching existing ones.
    pub fn push(&mut self, name: &str, value: &str)
        ensures
            final(self)@ == old(self)@.push((name@, value@)),
    {
        self.entries.push((String::from_str(name), String::from_str(value)));
        assert(self@ =~= old(self)@.push((name@, value@)));
    }

    /// The value of the first entry under `name` (case-insensitive), if any.
    pub fn get(&self, name: &str) -> (r: Option<String>)
        ensures
            match r {
                Some(v) => get_header_spec(self@, name@) == Some(v@),
                None => get_header_spec(self@, name@) is None,
            },
    {
        let len = self.entries.len();
        let mut i: usize = 0;
        assert(self@.subrange(0, len as int) =~= self@);
        while i < len
            invariant
                0 <= i <= len,
                len == self.entries.len(),
                get_header_spec(self@, name@) == get_header_spec(
                    self@.subrange(i as int, len as int),
                    name@,
                ),
            decreases len - i,
        {
            assert(self@.subrange(i as int, len as int)[0] == self@[i as int]);
            assert(self@.subrange(i as int, len as int).drop_first() =~= self@.subrange(
                i as int + 1,
                len as int,
            ));
            if names_eq_exec(self.entries[i].0.as_str(), name) {
                return Some(self.entries[i].1.clone());
            }
            i = i + 1;
        }
        assert(self@.subrange(len as int, len as int).len() == 0);
        None
    }

    /// Removes every entry under `name` (case-insensitive).
    pub fn remove(&mut self, name: &str)
        ensures
            final(self)@ == remove_header_spec(old(self)@, name@),
    {
        let len = self.entries.len();
        let mut kept: Vec<(String, String)> = Vec::new();
        let mut i: usize = 0;
        assert(self@.subrange(0, len as int) =~= self@);
        assert(kept@.map_values(|e: (String, String)| (e.0@, e.1@)) =~= Seq::<
            (Seq<char>, Seq<char>),
        >::empty());
        assert(kept@.map_values(|e: (String, String)| (e.0@, e.1@)) + remove_header_spec(
            self@,
            name@,
        ) =~= remove_header_spec(self@, name@));
        while i < len
            invariant
                0 <= i <= len,
                len == self.entries.len(),
                self@ == old(self)@,
                remove_header_spec(old(self)@, name@) == kept@.map_values(
                    |e: (String, String)| (e.0@, e.1@),
                ) + remove_header_spec(self@.subrange(i as int, len as int), name@),
            decreases len - i,
        {
            let ghost pre = kept@.map_values(|e: (String, String)| (e.0@, e.1@));
            assert(self@.subrange(i as int, len as int)[0] == self@[i as int]);
            assert(self@.subrange(i as int, len as int).drop_first() =~= self@.subrange(
                i as int + 1,
                len as int,
            ));
            if !names_eq_exec(self.entries[i].0.as_str(), name) {
                let e = (self.entries[i].0.clone(), self.entries[i].1.clone());
                kept.push(e);
                assert(kept@.map_values(|e: (String, String)| (e.0@, e.1@)) =~= pre.push(
                    self@[i as int],
                ));
                assert(pre + remove_header_spec(self@.subrange(i as int, len as int), name@)
                    =~= pre.push(self@[i as int]) + remove_header_spec(
                    self@.subrange(i as int + 1, len as int),
                    name@,
                ));
            }
            i = i + 1;
        }
        assert(remove_header_spec(self@.subrange(len as int, len as int), name@) =~= Seq::<
            (Seq<char>, Seq<char>),
        >::empty());
        self.entries = kept;
        assert(self@ =~= remove_header_spec(old(self)@, name@));
    }

    /// Replaces every entry under `name` (case-insensitive) by the single
    /// entry `(name, value)`, appended at the end.
    pub fn set(&mut self, name: &str, value: &str)
        ensures
            final(self)@ == set_header_spec(old(self)@, name@, value@),
    {
        self.remove(name);
        self.entries.push((String::from_str(name), String::from_str(value)));
        assert(self@ =~= remove_header_spec(old(self)@, name@).push((name@, value@)));
    }

    /// The number of entries.
    pub fn len(&self) -> (r: usize)
        ensures
            r == self@.len(),
    {
        self.entries.len()
    }

    /// The entry at position `i`, as a name/value pair.
    pub fn entry_at(&self, i: usize) -> (r: (String, String))
        requires
            i < self@.len(),
        ensures
            (r.0@, r.1@) == self@[i as int],
    {
        (self.entries[i].0.clone(), self.entries[i].1.clone())
    }
}

} // verus!
