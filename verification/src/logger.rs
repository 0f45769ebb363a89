//! The per-request log record.
//!
//! One informational line per completed request: method, final status
//! code (0 when no response was ever produced), and request URI,
//! separated by single spaces.

use vstd::prelude::*;

verus! {

/// The character of a decimal digit value.
pub open spec fn digit_char(d: int) -> char {
    ((d + 48) as u8) as char
}

/// The decimal rendering of a non-negative number, most significant
/// digit first, without leading zeros (`0` itself renders as `"0"`).
pub open spec fn dec_digits(n: int) -> Seq<char>
    decreases n,
{
    if n < 10 {
        seq![digit_char(if n < 0 { 0 } else { n })]
    } else {
        dec_digits(n / 10).push(digit_char(n % 10))
    }
}

/// The digit characters, as string slices.
fn digit_str(d: u16) -> (r: &'static str)
    requires
        d < 10,
    ensures
        r@ == seq![digit_char(d as int)],
{
    if d == 0 {
        proof { reveal_strlit("0"); }
        assert("0"@ =~= seq![digit_char(0)]);
        "0"
    } else if d == 1 {
        proof { reveal_strlit("1"); }
        assert("1"@ =~= seq![digit_char(1)]);
        "1"
    } else if d == 2 {
        proof { reveal_strlit("2"); }
        assert("2"@ =~= seq![digit_char(2)]);
        "2"
    } else if d == 3 {
        proof { reveal_strlit("3"); }
        assert("3"@ =~= seq![digit_char(3)]);
        "3"
    } else if d == 4 {
        proof { reveal_strlit("4"); }
        assert("4"@ =~= seq![digit_char(4)]);
        "4"
    } else if d == 5 {
        proof { reveal_strlit("5"); }
        assert("5"@ =~= seq![digit_char(5)]);
        "5"
    } else if d == 6 {
        proof { reveal_strlit("6"); }
        assert("6"@ =~= seq![digit_char(6)]);
        "6"
    } else if d == 7 {
        proof { reveal_strlit("7"); }
        assert("7"@ =~= seq![digit_char(7)]);
        "7"
    } else if d == 8 {
        proof { reveal_strlit("8"); }
        assert("8"@ =~= seq![digit_char(8)]);
        "8"
    } else {
        proof { reveal_strlit("9"); }
        assert("9"@ =~= seq![digit_char(9)]);
        "9"
    }
}

/// The decimal rendering of `n`.
pub fn dec_string(n: u16) -> (r: String)
    ensures
        r@ == dec_digits(n as int),
    decreases n,
{
    if n < 10 {
        String::from_str(digit_str(n))
    } else {
        let mut s = dec_string(n / 10);
        s.append(digit_str(n % 10));
        assert(s@ =~= dec_digits(n as int));
        s
    }
}

/// The status code a log line records: the response's, or 0 when no
/// response was ever produced.
pub open spec fn status_code_spec(status: Option<u16>) -> int {
    match status {
        Some(c) => c as int,
        None => 0,
    }
}

/// The one log line of a completed request.
pub open spec fn log_line_spec(method: Seq<char>, status: int, uri: Seq<char>) -> Seq<char> {
    method + " "@ + dec_digits(status) + " "@ + uri
}

/// Builds the one log line of a completed request: method, status code
/// (0 when `status` is `None`), and URI.
pub fn log_line(method: &str, status: Option<u16>, uri: &str) -> (r: String)
    ensures
        r@ == log_line_spec(method@, status_code_spec(status), uri@),
{
    let code: u16 = match status {
        Some(c) => c,
        None => 0,
    };
    let mut s = String::from_str(method);
    s.append(" ");
    let digits = dec_string(code);
    s.append(digits.as_str());
    s.append(" ");
    s.append(uri);
    assert(s@ =~= log_line_spec(method@, status_code_spec(status), uri@));
    s
}

} // verus!
