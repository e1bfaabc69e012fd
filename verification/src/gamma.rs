//! The gamma curve between stored 8-bit color and linear intensity.
//!
//! Stored color bytes are gamma-encoded: a byte `c` stands for the
//! linear intensity `(c / 255) ^ 2.2`.  The exponent `2.2` is `11/5`,
//! so the curve is computed exactly on integers: squaring supplies
//! the exponent `2` and an integer fifth root the remaining `1/5`.

use vstd::prelude::*;

use vstd::arithmetic::div_mod::{lemma_div_is_ordered, lemma_fundamental_div_mod, lemma_mod_bound};

use crate::fixed::ONE;

verus! {

/// `ONE` to the fourth power: the rescaling factor of the fifth root.
pub const ONE_POW4: u128 = 1_000_000_000_000_000_000_000_000;

/// `ONE` squared: the rescaling factor of the squaring step.
pub const ONE_POW2: u64 = 1_000_000_000_000;

/// The fifth power.
pub open spec fn pow5(x: int) -> int {
    x * x * x * x * x
}

/// `r` is the integer fifth root of `n`.
pub open spec fn is_root5(n: int, r: int) -> bool {
    0 <= r && pow5(r) <= n < pow5(r + 1)
}

/// The integer fifth root: the unique `r` with
/// `r^5 <= n < (r+1)^5`.
pub open spec fn root5(n: int) -> int {
    choose|r: int| is_root5(n, r)
}

/// The fifth power grows monotonically on the nonnegative numbers.
pub proof fn lemma_pow5_mono(a: int, b: int)
    requires
        0 <= a <= b,
    ensures
        pow5(a) <= pow5(b),
{
    assert(a * a <= b * b) by (nonlinear_arith)
        requires
            0 <= a <= b,
    ;
    assert((a * a) * (a * a) <= (b * b) * (b * b)) by (nonlinear_arith)
        requires
            0 <= a * a <= b * b,
    ;
    assert(((a * a) * (a * a)) * a <= ((b * b) * (b * b)) * b) by (nonlinear_arith)
        requires
            0 <= (a * a) * (a * a) <= (b * b) * (b * b),
            0 <= a <= b,
    ;
    assert(pow5(a) == ((a * a) * (a * a)) * a) by (nonlinear_arith);
    assert(pow5(b) == ((b * b) * (b * b)) * b) by (nonlinear_arith);
}

/// At most one integer is the fifth root of `n`; any witness equals
/// `root5(n)`.
pub proof fn lemma_root5_unique(n: int, r: int)
    requires
        is_root5(n, r),
    ensures
        root5(n) == r,
{
    assert(is_root5(n, root5(n))) by {
        assert(exists|x: int| is_root5(n, x));
    }
    let s = root5(n);
    if s < r {
        lemma_pow5_mono(s + 1, r);
    }
    if r < s {
        lemma_pow5_mono(r + 1, s);
    }
}

/// Computes the fifth power of a small value.
fn pow5_exec(x: u64) -> (r: u128)
    requires
        x <= 1_000_001,
    ensures
        r == pow5(x as int),
{
    proof {
        assert((x as int) * (x as int) <= 1_000_001 * 1_000_001) by (nonlinear_arith)
            requires
                x <= 1_000_001u64,
        ;
        assert(((x as int) * (x as int)) * ((x as int) * (x as int)) <= 1_000_005_000_010_000_010_000_005_000_001int - 1)
            by (nonlinear_arith)
            requires
                0 <= (x as int) * (x as int) <= 1_000_002_000_001int,
        ;
        assert((((x as int) * (x as int)) * ((x as int) * (x as int))) * (x as int)
            <= 1_000_005_000_010_000_010_000_005_000_001int * 1_000_001int) by (nonlinear_arith)
            requires
                0 <= ((x as int) * (x as int)) * ((x as int) * (x as int))
                    <= 1_000_005_000_010_000_010_000_005_000_001int,
                x <= 1_000_001u64,
        ;
        assert(pow5(x as int) == (((x as int) * (x as int)) * ((x as int) * (x as int))) * (
        x as int)) by (nonlinear_arith);
    }
    let sq: u128 = (x as u128) * (x as u128);
    let q4: u128 = sq * sq;
    q4 * (x as u128)
}

/// Computes the integer fifth root by binary search.
pub fn fifth_root(n: u128) -> (r: u64)
    requires
        n <= 1_000_000_000_000_000_000_000_000_000_000,
    ensures
        is_root5(n as int, r as int),
        r == root5(n as int),
        r <= 1_000_000,
{
    let mut lo: u64 = 0;
    let mut hi: u64 = 1_000_001;
    proof {
        assert(pow5(1_000_001) == 1_000_005_000_010_000_010_000_005_000_001int) by (
        nonlinear_arith);
    }
    while hi - lo > 1
        invariant
            lo < hi <= 1_000_001,
            pow5(lo as int) <= n < pow5(hi as int),
        decreases hi - lo,
    {
        let mid = lo + (hi - lo) / 2;
        if pow5_exec(mid) <= n {
            lo = mid;
        } else {
            hi = mid;
        }
    }
    proof {
        assert(hi == lo + 1);
        lemma_root5_unique(n as int, lo as int);
    }
    lo
}

/// The linear intensity a stored color byte stands for, in
/// fixed-point units: `(c / 255) ^ 2.2` scaled by `ONE`.
pub open spec fn srgb_decode(c: u8) -> int {
    let v = (c * ONE) / 255;
    let w = root5(v * ONE_POW4);
    (v * v * w) / (ONE_POW2 as int)
}

/// Converts one gamma-encoded byte to linear intensity.
pub fn srgb_to_linear(c: u8) -> (r: u64)
    ensures
        r == srgb_decode(c),
        r <= ONE,
{
    let v: u64 = ((c as u64) * ONE) / 255;
    proof {
        lemma_fundamental_div_mod((c as u64 * ONE) as int, 255);
        lemma_mod_bound((c as u64 * ONE) as int, 255);
    }
    let n: u128 = (v as u128) * ONE_POW4;
    proof {
        assert((v as int) * (ONE_POW4 as int) <= 1_000_000_000_000_000_000_000_000_000_000int)
            by (nonlinear_arith)
            requires
                v <= 1_000_000u64,
        ;
    }
    let w: u64 = fifth_root(n);
    proof {
        assert((v as int) * (v as int) <= 1_000_000_000_000int) by (nonlinear_arith)
            requires
                v <= 1_000_000u64,
        ;
        assert(((v as int) * (v as int)) * (w as int) <= 1_000_000_000_000_000_000int) by (
        nonlinear_arith)
            requires
                0 <= (v as int) * (v as int) <= 1_000_000_000_000int,
                w <= 1_000_000u64,
        ;
        lemma_div_is_ordered(
            ((v as int) * (v as int)) * (w as int),
            1_000_000_000_000_000_000int,
            ONE_POW2 as int,
        );
    }
    let sq: u64 = v * v;
    let prod: u64 = sq * w;
    prod / ONE_POW2
}


/// The eleventh power.
pub open spec fn pow11(x: int) -> int {
    x * x * x * x * x * x * x * x * x * x * x
}

/// `r` is the integer eleventh root of `n`.
pub open spec fn is_root11(n: int, r: int) -> bool {
    0 <= r && pow11(r) <= n < pow11(r + 1)
}

/// The integer eleventh root: the unique `r` with
/// `r^11 <= n < (r+1)^11`.
pub open spec fn root11(n: int) -> int {
    choose|r: int| is_root11(n, r)
}

/// The eleventh power grows monotonically on the nonnegative
/// numbers.
pub proof fn lemma_pow11_mono(a: int, b: int)
    requires
        0 <= a <= b,
    ensures
        pow11(a) <= pow11(b),
{
    assert(a * a <= b * b) by (nonlinear_arith)
        requires
            0 <= a <= b,
    ;
    assert((a * a) * (a * a) <= (b * b) * (b * b)) by (nonlinear_arith)
        requires
            0 <= a * a <= b * b,
    ;
    assert(((a * a) * (a * a)) * ((a * a) * (a * a)) <= ((b * b) * (b * b)) * ((b * b) * (b * b)))
        by (nonlinear_arith)
        requires
            0 <= (a * a) * (a * a) <= (b * b) * (b * b),
    ;
    assert((((a * a) * (a * a)) * ((a * a) * (a * a))) * ((a * a) * a) <= (((b * b) * (b * b)) * (
    (b * b) * (b * b))) * ((b * b) * b)) by (nonlinear_arith)
        requires
            0 <= ((a * a) * (a * a)) * ((a * a) * (a * a)) <= ((b * b) * (b * b)) * ((b * b) * (
            b * b)),
            0 <= a <= b,
    ;
    assert(pow11(a) == (((a * a) * (a * a)) * ((a * a) * (a * a))) * ((a * a) * a)) by (
    nonlinear_arith);
    assert(pow11(b) == (((b * b) * (b * b)) * ((b * b) * (b * b))) * ((b * b) * b)) by (
    nonlinear_arith);
}

/// At most one integer is the eleventh root of `n`; any witness
/// equals `root11(n)`.
pub proof fn lemma_root11_unique(n: int, r: int)
    requires
        is_root11(n, r),
    ensures
        root11(n) == r,
{
    assert(is_root11(n, root11(n))) by {
        assert(exists|x: int| is_root11(n, x));
    }
    let s = root11(n);
    if s < r {
        lemma_pow11_mono(s + 1, r);
    }
    if r < s {
        lemma_pow11_mono(r + 1, s);
    }
}

/// Computes the eleventh power of a small value.
fn pow11_exec(x: u64) -> (r: u128)
    requires
        x <= 1_001,
    ensures
        r == pow11(x as int),
{
    proof {
        assert(pow11(x as int) == (((x as int * x as int) * (x as int * x as int)) * ((x as int
            * x as int) * (x as int * x as int))) * ((x as int * x as int) * (x as int))) by (
        nonlinear_arith);
        assert((x as int) * (x as int) <= 1_002_001) by (nonlinear_arith)
            requires
                x <= 1_001u64,
        ;
        assert(((x as int) * (x as int)) * ((x as int) * (x as int)) <= 1_004_006_004_001int) by (
        nonlinear_arith)
            requires
                0 <= (x as int) * (x as int) <= 1_002_001,
        ;
        assert((((x as int) * (x as int)) * ((x as int) * (x as int))) * (((x as int) * (
        x as int)) * ((x as int) * (x as int))) <= 1_008_028_056_070_056_028_008_001int) by (
        nonlinear_arith)
            requires
                0 <= ((x as int) * (x as int)) * ((x as int) * (x as int))
                    <= 1_004_006_004_001int,
        ;
        assert(((x as int) * (x as int)) * (x as int) <= 1_003_003_001int) by (nonlinear_arith)
            requires
                0 <= (x as int) * (x as int) <= 1_002_001,
                x <= 1_001u64,
        ;
        assert(((((x as int) * (x as int)) * ((x as int) * (x as int))) * (((x as int) * (
        x as int)) * ((x as int) * (x as int)))) * (((x as int) * (x as int)) * (x as int))
            <= 1_011_055_165_330_462_462_330_165_055_011_001int) by (nonlinear_arith)
            requires
                0 <= (((x as int) * (x as int)) * ((x as int) * (x as int))) * (((x as int) * (
                x as int)) * ((x as int) * (x as int))) <= 1_008_028_056_070_056_028_008_001int,
                0 <= ((x as int) * (x as int)) * (x as int) <= 1_003_003_001int,
        ;
    }
    let x2: u128 = (x as u128) * (x as u128);
    let x4: u128 = x2 * x2;
    let x8: u128 = x4 * x4;
    x8 * (x2 * (x as u128))
}

/// Computes the integer eleventh root by binary search.
fn eleventh_root(n: u128) -> (r: u64)
    requires
        n <= 1_000_000_000_000_000_000_000_000_000_000_000,
    ensures
        is_root11(n as int, r as int),
        r == root11(n as int),
        r <= 1_000,
{
    let mut lo: u64 = 0;
    let mut hi: u64 = 1_001;
    proof {
        assert(pow11(1_001) == 1_011_055_165_330_462_462_330_165_055_011_001int) by (
        nonlinear_arith);
        assert(pow11(0) == 0) by (nonlinear_arith);
    }
    while hi - lo > 1
        invariant
            lo < hi <= 1_001,
            pow11(lo as int) <= n < pow11(hi as int),
        decreases hi - lo,
    {
        let mid = lo + (hi - lo) / 2;
        if pow11_exec(mid) <= n {
            lo = mid;
        } else {
            hi = mid;
        }
    }
    proof {
        assert(hi == lo + 1);
        lemma_root11_unique(n as int, lo as int);
    }
    lo
}

/// The gamma-encoded byte a linear intensity maps to:
/// `255 * (v / ONE) ^ (5 / 11)` with the intensity capped at one,
/// the root taken at a thousandth's precision, and the final byte
/// rounded to nearest.
pub open spec fn srgb_encode(v: int) -> int {
    let vc = if v > ONE {
        ONE as int
    } else {
        v
    };
    let u = root11(pow5(vc) * 1000);
    (u * 255 + 500) / 1000
}

/// Converts one linear intensity to its gamma-encoded byte.
pub fn linear_to_srgb(v: u64) -> (b: u8)
    ensures
        b == srgb_encode(v as int),
        b <= 255,
{
    let vc: u64 = if v > ONE {
        ONE
    } else {
        v
    };
    let p5: u128 = pow5_exec(vc);
    proof {
        lemma_pow5_mono(vc as int, 1_000_000);
        lemma_pow5_mono(0, vc as int);
        assert(pow5(1_000_000) == 1_000_000_000_000_000_000_000_000_000_000int) by (
        nonlinear_arith);
        assert(pow5(0) == 0) by (nonlinear_arith);
    }
    let n: u128 = p5 * 1000;
    let u: u64 = eleventh_root(n);
    proof {
        assert(pow11(1000) == 1_000_000_000_000_000_000_000_000_000_000_000int) by (
        nonlinear_arith);
        if u > 1000 {
            lemma_pow11_mono(1001, u as int);
            assert(pow11(1_001) == 1_011_055_165_330_462_462_330_165_055_011_001int) by (
            nonlinear_arith);
        }
    }
    ((u * 255 + 500) / 1000) as u8
}

} // verus!
