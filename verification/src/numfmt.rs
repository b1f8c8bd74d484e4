use vstd::prelude::*;

verus! {

use vstd::string::StringExecFns;
use vstd::string::StrSliceExecFns;

/// The decimal digit character for a value below ten.
pub open spec fn spec_digit(d: int) -> char {
    if d == 0 {
        '0'
    } else if d == 1 {
        '1'
    } else if d == 2 {
        '2'
    } else if d == 3 {
        '3'
    } else if d == 4 {
        '4'
    } else if d == 5 {
        '5'
    } else if d == 6 {
        '6'
    } else if d == 7 {
        '7'
    } else if d == 8 {
        '8'
    } else {
        '9'
    }
}

/// The decimal rendering of a non-negative integer, most significant digit
/// first, with no leading zeros (a lone zero renders as "0").
pub open spec fn spec_decimal(n: int) -> Seq<char>
    decreases n,
{
    if n < 10 {
        seq![spec_digit(n)]
    } else {
        spec_decimal(n / 10) + seq![spec_digit(n % 10)]
    }
}

/// The decimal rendering of a signed integer: a minus sign before the
/// rendering of the magnitude when negative.
pub open spec fn spec_decimal_signed(n: int) -> Seq<char> {
    if n < 0 {
        seq!['-'] + spec_decimal(-n)
    } else {
        spec_decimal(n)
    }
}

fn digit_str(d: u64) -> (s: String)
    requires
        d < 10,
    ensures
        s@ =~= seq![spec_digit(d as int)],
{
    proof {
        reveal_strlit("0");
        reveal_strlit("1");
        reveal_strlit("2");
        reveal_strlit("3");
        reveal_strlit("4");
        reveal_strlit("5");
        reveal_strlit("6");
        reveal_strlit("7");
        reveal_strlit("8");
        reveal_strlit("9");
    }
    if d == 0 {
        String::from_str("0")
    } else if d == 1 {
        String::from_str("1")
    } else if d == 2 {
        String::from_str("2")
    } else if d == 3 {
        String::from_str("3")
    } else if d == 4 {
        String::from_str("4")
    } else if d == 5 {
        String::from_str("5")
    } else if d == 6 {
        String::from_str("6")
    } else if d == 7 {
        String::from_str("7")
    } else if d == 8 {
        String::from_str("8")
    } else {
        String::from_str("9")
    }
}

/// Render an unsigned integer in decimal.
pub fn u64_to_string(n: u64) -> (s: String)
    ensures
        s@ =~= spec_decimal(n as int),
    decreases n,
{
    if n < 10 {
        digit_str(n)
    } else {
        let hi = u64_to_string(n / 10);
        let lo = digit_str(n % 10);
        hi.concat(lo.as_str())
    }
}

/// Render a signed integer in decimal, as activity identifiers appear in
/// file names.
pub fn i64_to_string(n: i64) -> (s: String)
    ensures
        s@ =~= spec_decimal_signed(n as int),
{
    if n >= 0 {
        u64_to_string(n as u64)
    } else {
        proof {
            reveal_strlit("-");
        }
        let m: u64 = (-(n as i128)) as u64;
        String::from_str("-").concat(u64_to_string(m).as_str())
    }
}

} // verus!
