//! The exact value an unsigned 64-bit integer takes when converted to `f64`.
//!
//! An `f64` holds 53 significant bits; a conversion of a larger integer rounds
//! to the nearest representable value, ties to an even significand.

use vstd::prelude::*;

verus! {

/// 2^53: below it every integer is an exact `f64`.
pub open spec fn exact_limit() -> nat {
    0x20_0000_0000_0000
}

/// The power of two by which `n` must be divided to fit in 53 bits.
pub open spec fn scale(n: nat) -> nat
    decreases n,
{
    if n < exact_limit() {
        1
    } else {
        2 * scale(n / 2)
    }
}

/// `q` rounded up by one where the remainder `r` of a division by `d`
/// is more than half of `d`, or exactly half and `q` is odd.
pub open spec fn round_half_even(q: nat, r: nat, d: nat) -> nat {
    if 2 * r > d || (2 * r == d && q % 2 == 1) {
        q + 1
    } else {
        q
    }
}

/// The numerator `x * mult / unit`, rounded to the nearest integer, ties to even.
pub open spec fn rounded_ratio(x: nat, mult: nat, unit: nat) -> nat {
    round_half_even((x * mult) / unit, (x * mult) % unit, unit)
}

/// A number capped at the largest `u64`.
pub open spec fn saturated(n: nat) -> u64 {
    if n > u64::MAX { u64::MAX } else { n as u64 }
}

/// The value of `n as f64`, an integer.
pub open spec fn f64_value(n: nat) -> nat {
    rounded_ratio(n, 1, scale(n)) * scale(n)
}

proof fn lemma_div_step(n: nat, d: nat)
    requires
        d > 0,
    ensures
        (n / d) / 2 == n / (2 * d),
{
    vstd::arithmetic::div_mod::lemma_div_denominator(n as int, d as int, 2);
    assert(d * 2 == 2 * d) by (nonlinear_arith);
}

/// Below 2^53 the conversion is exact.
pub proof fn lemma_f64_value_exact(n: nat)
    requires
        n < exact_limit(),
    ensures
        f64_value(n) == n,
{
    assert(scale(n) == 1);
    assert(n * 1 == n);
    assert(n / 1 == n && n % 1 == 0);
}

/// `n as f64`, as an integer wide enough for 2^64.
pub fn f64_value_of(n: u64) -> (v: u128)
    ensures
        v == f64_value(n as nat),
        v < 0x4_0000_0000_0000_0000,
{
    let mut q: u64 = n;
    let mut d: u64 = 1;
    while q >= 0x20_0000_0000_0000
        invariant
            0 < d < 0x2000,
            q == n / d,
            scale(n as nat) == d * scale(q as nat),
            d * q <= n,
        decreases q,
    {
        proof {
            lemma_div_step(n as nat, d as nat);
            assert(d * q <= n);
            assert(d < 0x1000) by (nonlinear_arith)
                requires
                    q >= 0x20_0000_0000_0000,
                    d * q <= n,
                    n <= 0xffff_ffff_ffff_ffff,
                    d > 0;
            assert((2 * d) * (q / 2) <= d * q) by (nonlinear_arith)
                requires
                    d > 0;
            assert(d * scale(q as nat) == d * (2 * scale((q / 2) as nat)));
            assert(d * (2 * scale((q / 2) as nat)) == (2 * d) * scale((q / 2) as nat))
                by (nonlinear_arith);
        }
        q = q / 2;
        d = d * 2;
    }
    let r: u64 = n % d;
    proof {
        assert(scale(q as nat) == 1);
        assert(d * 1 == d);
        assert(scale(n as nat) == d);
        assert(n * 1 == n);
    }
    let rounded: u64 = if 2 * (r as u128) > d as u128 || (2 * (r as u128) == d as u128 && q % 2 == 1) {
        q + 1
    } else {
        q
    };
    assert(rounded == rounded_ratio(n as nat, 1, scale(n as nat)));
    assert((rounded as u128) * (d as u128) < 0x4_0000_0000_0000_0000) by (nonlinear_arith)
        requires
            rounded <= 0x20_0000_0000_0000,
            d < 0x2000;
    (rounded as u128) * (d as u128)
}

/// `(n as f64) as u64`: the conversion back saturates at the largest `u64`.
pub fn f64_round_trip(n: u64) -> (v: u64)
    ensures
        v == saturated(f64_value(n as nat)),
{
    let w = f64_value_of(n);
    if w > 0xffff_ffff_ffff_ffff {
        0xffff_ffff_ffff_ffff
    } else {
        w as u64
    }
}

} // verus!
