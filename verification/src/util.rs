//! Formatting a duration in seconds as `m:ss`.

use vstd::prelude::*;
use vstd::string::StringExecFns;

verus! {

/// The character for one decimal digit.
pub open spec fn digit_char(d: nat) -> char {
    if d == 0 {
        '0'
    } else if d == 1 {
        '1'
    } else if d == 2 {
        '2'
    } else if d == 3 {
        '3'
    } else if d == 4 {
        '4'
    } else if d == 5 {
        '5'
    } else if d == 6 {
        '6'
    } else if d == 7 {
        '7'
    } else if d == 8 {
        '8'
    } else {
        '9'
    }
}

/// The decimal digits of `n`, most significant first, without leading zeros
/// (`0` is written as one digit).
pub open spec fn dec_digits(n: nat) -> Seq<char>
    decreases n,
{
    if n < 10 {
        seq![digit_char(n)]
    } else {
        dec_digits(n / 10).push(digit_char(n % 10))
    }
}

/// A duration of `seconds` written as `m:ss`: whole minutes, a colon, and the
/// remaining seconds zero-padded to two digits.
pub open spec fn spec_format_duration(seconds: u64) -> Seq<char> {
    let mins = seconds as nat / 60;
    let secs = seconds as nat % 60;
    dec_digits(mins) + seq![':'] + (if secs < 10 {
        seq!['0']
    } else {
        Seq::empty()
    }) + dec_digits(secs)
}

/// One decimal digit as a string.
fn digit_str(d: u64) -> (r: String)
    requires
        d < 10,
    ensures
        r@ == seq![digit_char(d as nat)],
{
    let s: &str = if d == 0 {
        "0"
    } else if d == 1 {
        "1"
    } else if d == 2 {
        "2"
    } else if d == 3 {
        "3"
    } else if d == 4 {
        "4"
    } else if d == 5 {
        "5"
    } else if d == 6 {
        "6"
    } else if d == 7 {
        "7"
    } else if d == 8 {
        "8"
    } else {
        "9"
    };
    proof {
        reveal_strlit("0");
        reveal_strlit("1");
        reveal_strlit("2");
        reveal_strlit("3");
        reveal_strlit("4");
        reveal_strlit("5");
        reveal_strlit("6");
        reveal_strlit("7");
        reveal_strlit("8");
        reveal_strlit("9");
        assert(s@ =~= seq![digit_char(d as nat)]);
    }
    s.to_owned()
}

/// The decimal digits of `n`.
fn u64_to_string(n: u64) -> (r: String)
    ensures
        r@ == dec_digits(n as nat),
    decreases n,
{
    if n < 10 {
        digit_str(n)
    } else {
        proof {
            assert(n / 10 < n) by (nonlinear_arith)
                requires
                    n >= 10,
            ;
        }
        let mut s = u64_to_string(n / 10);
        let d = digit_str(n % 10);
        s.append(d.as_str());
        proof {
            assert(s@ =~= dec_digits(n as nat));
        }
        s
    }
}

/// Formats a duration in seconds as `m:ss` (seconds zero-padded to two
/// digits).
pub fn format_duration(seconds: u64) -> (r: String)
    ensures
        r@ == spec_format_duration(seconds),
{
    let mins: u64 = seconds / 60;
    let secs: u64 = seconds % 60;
    let mut s = u64_to_string(mins);
    s.append(":");
    if secs < 10 {
        s.append("0");
    }
    let tail = u64_to_string(secs);
    s.append(tail.as_str());
    proof {
        reveal_strlit(":");
        reveal_strlit("0");
        assert(":"@ =~= seq![':']);
        assert("0"@ =~= seq!['0']);
        assert(s@ =~= spec_format_duration(seconds));
    }
    s
}

} // verus!
