//! Display text for parameter values.
//!
//! A parameter's value is shown as a signed two-decimal fixed-point
//! number (the Q30 value rounded to the nearest hundredth, ties away
//! from zero), for example `0.50` or `-1.25`.

use vstd::prelude::*;
use vstd::string::StringExecFns;

verus! {

use crate::smoothing::ONE_Q30;

/// The decimal digit character for `d` in `[0, 9]`.
pub open spec fn dec_digit(d: int) -> char {
    if d == 0 {
        '0'
    } else if d == 1 {
        '1'
    } else if d == 2 {
        '2'
    } else if d == 3 {
        '3'
    } else if d == 4 {
        '4'
    } else if d == 5 {
        '5'
    } else if d == 6 {
        '6'
    } else if d == 7 {
        '7'
    } else if d == 8 {
        '8'
    } else {
        '9'
    }
}

/// The decimal digit string of a nonnegative number, most significant
/// digit first.
pub open spec fn dec_seq(v: int) -> Seq<char>
    decreases v,
{
    if v <= 9 {
        seq![dec_digit(v)]
    } else {
        dec_seq(v / 10).push(dec_digit(v % 10))
    }
}

/// A Q30 value rounded to hundredths, ties away from zero, on the
/// magnitude `m`.
pub open spec fn hundredths_q30(m: int) -> int {
    (200 * m + ONE_Q30) / (2 * ONE_Q30 as int)
}

/// The two-decimal display text of a Q30 value: sign, whole part,
/// point, and exactly two fraction digits.
pub open spec fn two_decimals_q30(v: int) -> Seq<char> {
    let m = if v < 0 {
        -v
    } else {
        v
    };
    let h = hundredths_q30(m);
    let digits = dec_seq(h / 100) + seq!['.', dec_digit(h % 100 / 10), dec_digit(h % 10)];
    if v < 0 {
        seq!['-'] + digits
    } else {
        digits
    }
}

/// The one-character string for the digit `d`.
fn digit_str(d: u64) -> (s: &'static str)
    requires
        d <= 9,
    ensures
        s@ == seq![dec_digit(d as int)],
{
    proof {
        reveal_strlit("0");
        reveal_strlit("1");
        reveal_strlit("2");
        reveal_strlit("3");
        reveal_strlit("4");
        reveal_strlit("5");
        reveal_strlit("6");
        reveal_strlit("7");
        reveal_strlit("8");
        reveal_strlit("9");
    }
    let s: &'static str = if d == 0 {
        "0"
    } else if d == 1 {
        "1"
    } else if d == 2 {
        "2"
    } else if d == 3 {
        "3"
    } else if d == 4 {
        "4"
    } else if d == 5 {
        "5"
    } else if d == 6 {
        "6"
    } else if d == 7 {
        "7"
    } else if d == 8 {
        "8"
    } else {
        "9"
    };
    proof {
        assert(s@ =~= seq![dec_digit(d as int)]);
    }
    s
}

/// Appends the decimal digits of `v` to `out`.
fn append_dec(out: &mut String, v: u64)
    ensures
        final(out)@ == old(out)@ + dec_seq(v as int),
    decreases v,
{
    if v <= 9 {
        out.append(digit_str(v));
    } else {
        append_dec(out, v / 10);
        out.append(digit_str(v % 10));
        proof {
            assert(final(out)@ =~= old(out)@ + dec_seq(v as int));
        }
    }
}

/// Renders a Q30 value as signed two-decimal fixed point.
pub fn format_two_decimals(v: i64) -> (text: String)
    ensures
        text@ == two_decimals_q30(v as int),
{
    proof {
        reveal_strlit("-");
        reveal_strlit(".");
    }
    let mut out = String::new();
    if v < 0 {
        out.append("-");
    }
    let m: u64 = if v < 0 {
        (-(v as i128)) as u64
    } else {
        v as u64
    };
    let h: u64 = ((200 as u128 * m as u128 + ONE_Q30 as u128) / (2 * ONE_Q30 as u128)) as u64;
    append_dec(&mut out, h / 100);
    out.append(".");
    out.append(digit_str(h % 100 / 10));
    out.append(digit_str(h % 10));
    proof {
        assert(out@ =~= two_decimals_q30(v as int));
    }
    out
}

} // verus!
