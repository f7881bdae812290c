//! Labels for HTTP status codes: a fixed human label for the three
//! codes the tool cares about, the decimal digits of the code otherwise.

use vstd::prelude::*;
use vstd::string::*;

verus! {

/// The decimal digit character for `d`.
pub open spec fn digit_char(d: nat) -> char {
    if d == 0 {
        '0'
    } else if d == 1 {
        '1'
    } else if d == 2 {
        '2'
    } else if d == 3 {
        '3'
    } else if d == 4 {
        '4'
    } else if d == 5 {
        '5'
    } else if d == 6 {
        '6'
    } else if d == 7 {
        '7'
    } else if d == 8 {
        '8'
    } else {
        '9'
    }
}

/// The decimal digits of `n`, most significant first, no leading zeros
/// (a single `0` for zero).
pub open spec fn dec_seq(n: nat) -> Seq<char>
    decreases n,
{
    if n < 10 {
        seq![digit_char(n)]
    } else {
        dec_seq(n / 10).push(digit_char(n % 10))
    }
}

fn digit_str(d: u16) -> (s: &'static str)
    requires
        d < 10,
    ensures
        s@ == seq![digit_char(d as nat)],
{
    proof {
        reveal_strlit("0");
        reveal_strlit("1");
        reveal_strlit("2");
        reveal_strlit("3");
        reveal_strlit("4");
        reveal_strlit("5");
        reveal_strlit("6");
        reveal_strlit("7");
        reveal_strlit("8");
        reveal_strlit("9");
    }
    match d {
        0 => "0",
        1 => "1",
        2 => "2",
        3 => "3",
        4 => "4",
        5 => "5",
        6 => "6",
        7 => "7",
        8 => "8",
        _ => "9",
    }
}

/// The decimal rendering of `n`.
pub fn u16_to_dec(n: u16) -> (s: String)
    ensures
        s@ == dec_seq(n as nat),
    decreases n,
{
    if n < 10 {
        String::from_str(digit_str(n))
    } else {
        let rest = u16_to_dec(n / 10);
        let s = rest.concat(digit_str(n % 10));
        proof {
            assert(s@ =~= dec_seq((n / 10) as nat).push(digit_char((n % 10) as nat)));
        }
        s
    }
}

/// The label printed for a status code: a fixed phrase for 200, 403 and
/// 404, the bare decimal code for every other value.
pub open spec fn status_label_spec(code: u16) -> Seq<char> {
    if code == 200 {
        "200 OK"@
    } else if code == 403 {
        "403 FORBIDDEN"@
    } else if code == 404 {
        "404 NOT FOUND"@
    } else {
        dec_seq(code as nat)
    }
}

/// Builds the label for a status code.
pub fn status_label(code: u16) -> (s: String)
    ensures
        s@ == status_label_spec(code),
{
    if code == 200 {
        String::from_str("200 OK")
    } else if code == 403 {
        String::from_str("403 FORBIDDEN")
    } else if code == 404 {
        String::from_str("404 NOT FOUND")
    } else {
        u16_to_dec(code)
    }
}

} // verus!
