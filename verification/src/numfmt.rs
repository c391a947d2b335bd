//! Decimal rendering of the numbers that appear in the text project
//! document: indices, tick counts, and track durations in seconds.

use vstd::prelude::*;
use crate::strutil::append_chars;

verus! {

/// The decimal digit character for `d`.
pub open spec fn spec_digit(d: int) -> char {
    if d == 0 {
        '0'
    } else if d == 1 {
        '1'
    } else if d == 2 {
        '2'
    } else if d == 3 {
        '3'
    } else if d == 4 {
        '4'
    } else if d == 5 {
        '5'
    } else if d == 6 {
        '6'
    } else if d == 7 {
        '7'
    } else if d == 8 {
        '8'
    } else {
        '9'
    }
}

/// Decimal rendering of a non-negative integer, most significant digit
/// first, without leading zeros (a single `'0'` for zero).
pub open spec fn spec_dec(n: int) -> Seq<char>
    decreases n,
{
    if n < 10 {
        seq![spec_digit(n)]
    } else {
        spec_dec(n / 10) + seq![spec_digit(n % 10)]
    }
}

/// The first `k` digits after the decimal point of `rem / rate`.
pub open spec fn spec_frac_digits(rem: int, rate: int, k: nat) -> Seq<char>
    decreases k,
{
    if k == 0 {
        Seq::empty()
    } else {
        seq![spec_digit((rem * 10) / rate)] + spec_frac_digits(
            (rem * 10) % rate,
            rate,
            (k - 1) as nat,
        )
    }
}

/// `s` with its trailing zero digits removed.
pub open spec fn spec_trim_zeros(s: Seq<char>) -> Seq<char>
    decreases s.len(),
{
    if s.len() > 0 && s.last() == '0' {
        spec_trim_zeros(s.drop_last())
    } else {
        s
    }
}

/// Decimal rendering of the duration `frames / rate` in seconds: the whole
/// part, then, unless they are all zero, up to six fractional digits with
/// trailing zeros removed.
pub open spec fn spec_duration_dec(frames: int, rate: int) -> Seq<char> {
    let whole = spec_dec(frames / rate);
    let frac = spec_trim_zeros(spec_frac_digits(frames % rate, rate, 6));
    if frac.len() == 0 {
        whole
    } else {
        whole + seq!['.'] + frac
    }
}

fn digit_char(d: u64) -> (c: char)
    requires
        d < 10,
    ensures
        c == spec_digit(d as int),
{
    if d == 0 {
        '0'
    } else if d == 1 {
        '1'
    } else if d == 2 {
        '2'
    } else if d == 3 {
        '3'
    } else if d == 4 {
        '4'
    } else if d == 5 {
        '5'
    } else if d == 6 {
        '6'
    } else if d == 7 {
        '7'
    } else if d == 8 {
        '8'
    } else {
        '9'
    }
}

/// Appends the decimal rendering of `n`.
pub fn push_dec(v: &mut Vec<char>, n: u64)
    ensures
        final(v)@ == old(v)@ + spec_dec(n as int),
    decreases n,
{
    if n < 10 {
        v.push(digit_char(n));
        proof {
            assert(v@ =~= old(v)@ + spec_dec(n as int));
        }
    } else {
        push_dec(v, n / 10);
        v.push(digit_char(n % 10));
        proof {
            assert(v@ =~= old(v)@ + spec_dec(n as int));
        }
    }
}

/// Appends the decimal rendering of `n`.
pub fn push_dec_u128(v: &mut Vec<char>, n: u128)
    ensures
        final(v)@ == old(v)@ + spec_dec(n as int),
    decreases n,
{
    if n < 10 {
        v.push(digit_char(n as u64));
        proof {
            assert(v@ =~= old(v)@ + spec_dec(n as int));
        }
    } else {
        push_dec_u128(v, n / 10);
        v.push(digit_char((n % 10) as u64));
        proof {
            assert(v@ =~= old(v)@ + spec_dec(n as int));
        }
    }
}

fn push_frac_digits(v: &mut Vec<char>, rem: u64, rate: u32, k: u64)
    requires
        1 <= rate,
        rem < rate,
    ensures
        final(v)@ == old(v)@ + spec_frac_digits(rem as int, rate as int, k as nat),
    decreases k,
{
    if k > 0 {
        let x: u64 = rem * 10;
        let r64: u64 = rate as u64;
        let d: u64 = x / r64;
        proof {
            assert(d < 10) by (nonlinear_arith)
                requires
                    d == x as int / r64 as int,
                    x < 10 * r64,
                    r64 >= 1,
            ;
        }
        v.push(digit_char(d));
        push_frac_digits(v, x % r64, rate, k - 1);
        proof {
            assert(v@ =~= old(v)@ + spec_frac_digits(rem as int, rate as int, k as nat));
        }
    }
}

/// Appends the decimal rendering of the duration `frames / rate` seconds.
pub fn push_duration_dec(v: &mut Vec<char>, frames: u64, rate: u32)
    requires
        rate >= 1,
    ensures
        final(v)@ == old(v)@ + spec_duration_dec(frames as int, rate as int),
{
    let r64: u64 = rate as u64;
    push_dec(v, frames / r64);
    let mut frac: Vec<char> = Vec::new();
    push_frac_digits(&mut frac, frames % r64, rate, 6);
    let ghost full_frac = frac@;
    while frac.len() > 0 && frac[frac.len() - 1] == '0'
        invariant
            spec_trim_zeros(frac@) == spec_trim_zeros(full_frac),
        decreases frac@.len(),
    {
        proof {
            assert(frac@.drop_last() =~= frac@.subrange(0, frac@.len() - 1));
        }
        frac.pop();
    }
    proof {
        assert(spec_trim_zeros(frac@) == frac@);
    }
    if frac.len() > 0 {
        v.push('.');
        append_chars(v, &frac);
    }
    proof {
        assert(v@ =~= old(v)@ + spec_duration_dec(frames as int, rate as int));
    }
}

} // verus!
