//! Decimal rendering of the integers that synthesis markup attributes
//! carry: pitch, rate, volume levels and silence durations.

use vstd::prelude::*;

verus! {

/// The decimal digit character for a value between zero and nine.
pub open spec fn dec_digit(d: int) -> char {
    if d == 0 {
        '0'
    } else if d == 1 {
        '1'
    } else if d == 2 {
        '2'
    } else if d == 3 {
        '3'
    } else if d == 4 {
        '4'
    } else if d == 5 {
        '5'
    } else if d == 6 {
        '6'
    } else if d == 7 {
        '7'
    } else if d == 8 {
        '8'
    } else {
        '9'
    }
}

/// The decimal rendering of a non-negative integer: most significant digit
/// first, no leading zeroes (zero itself is "0").
pub open spec fn spec_decimal(n: nat) -> Seq<char>
    decreases n,
{
    if n < 10 {
        seq![dec_digit(n as int)]
    } else {
        spec_decimal(n / 10).push(dec_digit((n % 10) as int))
    }
}

/// The decimal rendering of a signed integer: a minus sign before the
/// magnitude when negative.
pub open spec fn spec_decimal_signed(v: int) -> Seq<char> {
    if v < 0 {
        seq!['-'] + spec_decimal((-v) as nat)
    } else {
        spec_decimal(v as nat)
    }
}

/// Appends one digit character.
fn push_digit(d: u64, out: &mut String)
    requires
        d < 10,
    ensures
        final(out)@ == old(out)@ + seq![dec_digit(d as int)],
{
    let s: &str = if d == 0 {
        "0"
    } else if d == 1 {
        "1"
    } else if d == 2 {
        "2"
    } else if d == 3 {
        "3"
    } else if d == 4 {
        "4"
    } else if d == 5 {
        "5"
    } else if d == 6 {
        "6"
    } else if d == 7 {
        "7"
    } else if d == 8 {
        "8"
    } else {
        "9"
    };
    proof {
        reveal_strlit("0");
        reveal_strlit("1");
        reveal_strlit("2");
        reveal_strlit("3");
        reveal_strlit("4");
        reveal_strlit("5");
        reveal_strlit("6");
        reveal_strlit("7");
        reveal_strlit("8");
        reveal_strlit("9");
    }
    out.append(s);
    proof {
        assert(final(out)@ =~= old(out)@ + seq![dec_digit(d as int)]);
    }
}

/// Appends the decimal rendering of `n`.
fn push_decimal(n: u64, out: &mut String)
    ensures
        final(out)@ == old(out)@ + spec_decimal(n as nat),
    decreases n,
{
    if n >= 10 {
        push_decimal(n / 10, out);
    }
    let ghost mid = out@;
    push_digit(n % 10, out);
    proof {
        if n < 10 {
            assert(out@ =~= old(out)@ + spec_decimal(n as nat));
        } else {
            assert(out@ =~= old(out)@ + spec_decimal(n as nat));
        }
    }
}

/// The decimal rendering of a non-negative integer.
pub fn decimal_string(n: u64) -> (r: String)
    ensures
        r@ == spec_decimal(n as nat),
{
    let mut out = String::new();
    push_decimal(n, &mut out);
    proof {
        assert(out@ =~= spec_decimal(n as nat));
    }
    out
}

/// The decimal rendering of a signed integer.
pub fn decimal_string_signed(v: i64) -> (r: String)
    ensures
        r@ == spec_decimal_signed(v as int),
{
    if v < 0 {
        let mut out = String::new();
        proof {
            reveal_strlit("-");
        }
        out.append("-");
        let magnitude: u64 = (-(v as i128)) as u64;
        push_decimal(magnitude, &mut out);
        proof {
            assert(magnitude as nat == (-(v as int)) as nat);
            assert(out@ =~= spec_decimal_signed(v as int));
        }
        out
    } else {
        let r = decimal_string(v as u64);
        r
    }
}

} // verus!
