//! Byte counts in a short notation.
use vstd::prelude::*;
use crate::number::{decimal, decimal_string, digit_char};
use crate::text::join2;

verus! {

pub const KIB: u64 = 1024;

pub const MIB: u64 = 1_048_576;

pub const GIB: u64 = 1_073_741_824;

pub const TIB: u64 = 1_099_511_627_776;

/// The counts below this are held exactly by a double-precision number.
pub const DOUBLE_EXACT: u64 = 9_007_199_254_740_992;

/// `a / b`, rounded to the nearest whole number, and to the even one of two that are as near.
pub open spec fn half_even(a: nat, b: nat) -> nat {
    let q = a / b;
    let r = a % b;
    if 2 * r > b || (2 * r == b && q % 2 == 1) {
        q + 1
    } else {
        q
    }
}

/// The distance of two neighbouring double-precision numbers at `n`, for whole numbers.
pub open spec fn double_step(n: nat) -> nat
    decreases n,
{
    if n < DOUBLE_EXACT {
        1
    } else {
        2 * double_step(n / 2)
    }
}

/// The double-precision number that is nearest to `n`.
pub open spec fn as_double(n: nat) -> nat {
    half_even(n, double_step(n)) * double_step(n)
}

/// A number of tenths, with a decimal point.
pub open spec fn tenths(n: nat) -> Seq<char> {
    decimal(n / 10).push('.').push(digit_char(n % 10))
}

/// A number of hundredths, with a decimal point.
pub open spec fn hundredths(n: nat) -> Seq<char> {
    decimal(n / 100).push('.').push(digit_char(n / 10 % 10)).push(digit_char(n % 10))
}

/// A count of bytes in the largest unit that it exceeds: with two places in T and G, one in M,
/// none in K.
pub open spec fn total_text(bytes: nat) -> Seq<char> {
    let b = as_double(bytes);
    if b > TIB {
        hundredths(half_even(b * 100, TIB as nat)) + "T"@
    } else if b > GIB {
        hundredths(half_even(b * 100, GIB as nat)) + "G"@
    } else if b > MIB {
        tenths(half_even(b * 10, MIB as nat)) + "M"@
    } else {
        decimal(half_even(b, KIB as nat)) + "K"@
    }
}

/// A rounded quotient is off by half at most.
pub proof fn rounding_is_to_the_nearest(a: nat, b: nat)
    requires
        b > 0,
    ensures
        2 * (half_even(a, b) * b - a) <= b,
        2 * (a - half_even(a, b) * b) <= b,
{
    let q = a / b;
    let r = a % b;
    assert(a == q * b + r && r < b) by (nonlinear_arith)
        requires
            b > 0,
            q == a / b,
            r == a % b,
    ;
    assert((q + 1) * b == q * b + b) by (nonlinear_arith);
}

/// A count below 2^53 is shown from its exact value.
pub proof fn small_counts_are_exact(n: nat)
    requires
        n < DOUBLE_EXACT,
    ensures
        as_double(n) == n,
{
    assert(n / 1 == n && n % 1 == 0);
    let step = double_step(n);
    assert(half_even(n, step) == n);
    assert(n * step == n) by (nonlinear_arith)
        requires
            step == 1,
    ;
}

proof fn lemma_double_step(n: u64)
    ensures
        1 <= double_step(n as nat) <= 0x800,
        n < 0x40_0000_0000_0000 ==> double_step(n as nat) <= 2,
{
    reveal_with_fuel(double_step, 13);
}

/// `a / b`, rounded.
fn round_half_even(a: u128, b: u128) -> (r: u128)
    requires
        0 < b <= 0x1_0000_0000_0000,
    ensures
        r == half_even(a as nat, b as nat),
{
    let q = a / b;
    let r = a % b;
    if 2 * r > b || (2 * r == b && q % 2 == 1) {
        proof {
            assert(q < u128::MAX) by (nonlinear_arith)
                requires
                    q == a / b,
                    r == a % b,
                    r > 0,
                    b > 0,
                    a <= u128::MAX,
            ;
        }
        q + 1
    } else {
        q
    }
}

/// The distance of two neighbouring double-precision numbers at `n`.
fn step_at(n: u64) -> (r: u64)
    ensures
        r == double_step(n as nat),
    decreases n,
{
    if n < DOUBLE_EXACT {
        1
    } else {
        proof {
            lemma_double_step(n / 2);
        }
        2 * step_at(n / 2)
    }
}

/// A number of tenths, with a decimal point.
fn tenths_string(n: u64) -> (r: String)
    ensures
        r@ == tenths(n as nat),
{
    let mut s = decimal_string(n / 10);
    s.push('.');
    s.push(((n % 10) as u8 + 48) as char);
    s
}

/// A number of hundredths, with a decimal point.
fn hundredths_string(n: u64) -> (r: String)
    ensures
        r@ == hundredths(n as nat),
{
    let mut s = decimal_string(n / 100);
    s.push('.');
    s.push(((n / 10 % 10) as u8 + 48) as char);
    s.push(((n % 10) as u8 + 48) as char);
    s
}

/// A count of bytes in the largest unit that it exceeds.
pub fn format_bytes_total(bytes: u64) -> (r: String)
    ensures
        r@ == total_text(bytes as nat),
{
    let step = step_at(bytes);
    proof {
        lemma_double_step(bytes);
        rounding_is_to_the_nearest(bytes as nat, step as nat);
    }
    let rounded = round_half_even(bytes as u128, step as u128);
    let ghost product = rounded * step;
    assert(product <= bytes + step);
    let b: u128 = rounded * (step as u128);
    assert(b == as_double(bytes as nat));
    assert(b <= 0x1_0000_0000_0000_0800);
    proof {
        rounding_is_to_the_nearest((b * 100) as nat, TIB as nat);
        rounding_is_to_the_nearest((b * 100) as nat, GIB as nat);
        rounding_is_to_the_nearest((b * 10) as nat, MIB as nat);
        rounding_is_to_the_nearest(b as nat, KIB as nat);
    }
    if b > TIB as u128 {
        join2(hundredths_string(round_half_even(b * 100, TIB as u128) as u64).as_str(), "T")
    } else if b > GIB as u128 {
        join2(hundredths_string(round_half_even(b * 100, GIB as u128) as u64).as_str(), "G")
    } else if b > MIB as u128 {
        join2(tenths_string(round_half_even(b * 10, MIB as u128) as u64).as_str(), "M")
    } else {
        join2(decimal_string(round_half_even(b, KIB as u128) as u64).as_str(), "K")
    }
}

} // verus!
