//! Homogeneous color matrices.
//!
//! A color matrix has three rows and four columns; applying it to a
//! pixel computes, per output channel, the dot product of one row with
//! `(r, g, b, ONE)`, rescales by `ONE` and clamps into the stored
//! range.  This is the per-pixel meaning of the engine's "transform"
//! operation: scaling, channel permutation and the fixed color-space
//! conversions are all instances of it.

use vstd::prelude::*;

use vstd::arithmetic::div_mod::{lemma_div_multiples_vanish, lemma_fundamental_div_mod, lemma_mod_bound};

use crate::fixed::{clamp_chan, CHANNEL_MAX, COEFF_MAX, ONE};
use crate::pixel::{clamp_channel, Pixel};
use crate::texture::{texel, Texture};

verus! {

/// A three-by-four matrix of fixed-point coefficients, row by row.
#[derive(Clone, Copy, PartialEq, Eq, Structural, Debug)]
pub struct ColorMatrix {
    pub m00: i64,
    pub m01: i64,
    pub m02: i64,
    pub m03: i64,
    pub m10: i64,
    pub m11: i64,
    pub m12: i64,
    pub m13: i64,
    pub m20: i64,
    pub m21: i64,
    pub m22: i64,
    pub m23: i64,
}

impl ColorMatrix {
    /// The coefficient in row `r`, column `c`.
    pub open spec fn at(self, r: int, c: int) -> int {
        if r == 0 {
            if c == 0 {
                self.m00 as int
            } else if c == 1 {
                self.m01 as int
            } else if c == 2 {
                self.m02 as int
            } else {
                self.m03 as int
            }
        } else if r == 1 {
            if c == 0 {
                self.m10 as int
            } else if c == 1 {
                self.m11 as int
            } else if c == 2 {
                self.m12 as int
            } else {
                self.m13 as int
            }
        } else {
            if c == 0 {
                self.m20 as int
            } else if c == 1 {
                self.m21 as int
            } else if c == 2 {
                self.m22 as int
            } else {
                self.m23 as int
            }
        }
    }

    /// Every coefficient magnitude stays below the shared cap, so
    /// that row dot products cannot overflow the accumulator.
    pub open spec fn wf(self) -> bool {
        forall|r: int, c: int|
            0 <= r < 3 && 0 <= c < 4 ==> -COEFF_MAX <= #[trigger] self.at(r, c) <= COEFF_MAX
    }
}

/// The dot product of row `r` with the homogeneous pixel `(r, g, b, ONE)`.
pub open spec fn row_dot(m: ColorMatrix, r: int, p: Pixel) -> int {
    m.at(r, 0) * p.r + m.at(r, 1) * p.g + m.at(r, 2) * p.b + m.at(r, 3) * ONE
}

/// One output channel of the transform: the rescaled row dot product,
/// clamped into the stored range.
pub open spec fn tx_chan(m: ColorMatrix, r: int, p: Pixel) -> int {
    clamp_chan(row_dot(m, r, p) / (ONE as int))
}

/// The whole transformed pixel.
pub open spec fn tx_pixel(m: ColorMatrix, p: Pixel) -> Pixel {
    Pixel {
        r: tx_chan(m, 0, p) as u64,
        g: tx_chan(m, 1, p) as u64,
        b: tx_chan(m, 2, p) as u64,
    }
}

/// A nonnegative value divided by a positive one yields a nonnegative
/// quotient, and a negative value a negative quotient.
proof fn lemma_div_sign(x: int, d: int)
    requires
        d > 0,
    ensures
        x >= 0 ==> x / d >= 0,
        x < 0 ==> x / d < 0,
        d * (x / d) <= x,
{
    lemma_fundamental_div_mod(x, d);
    lemma_mod_bound(x, d);
    let q = x / d;
    assert(q < 0 ==> d * q <= -d) by (nonlinear_arith)
        requires
            d > 0,
    ;
    assert(q >= 0 ==> d * q >= 0) by (nonlinear_arith)
        requires
            d > 0,
    ;
}

/// Computes one output channel from the four row coefficients.
fn apply_row(c0: i64, c1: i64, c2: i64, c3: i64, p: Pixel) -> (r: u64)
    requires
        -COEFF_MAX <= c0 <= COEFF_MAX,
        -COEFF_MAX <= c1 <= COEFF_MAX,
        -COEFF_MAX <= c2 <= COEFF_MAX,
        -COEFF_MAX <= c3 <= COEFF_MAX,
        p.wf(),
    ensures
        r == clamp_chan((c0 * p.r + c1 * p.g + c2 * p.b + c3 * ONE) / (ONE as int)),
{
    proof {
        assert(-0x100000000000000000000int <= (c0 as int) * (p.r as int)
            <= 0x100000000000000000000int) by (nonlinear_arith)
            requires
                -1_000_000_000_000 <= c0 <= 1_000_000_000_000,
                p.r <= 100_000_000u64,
        ;
        assert(-0x100000000000000000000int <= (c1 as int) * (p.g as int)
            <= 0x100000000000000000000int) by (nonlinear_arith)
            requires
                -1_000_000_000_000 <= c1 <= 1_000_000_000_000,
                p.g <= 100_000_000u64,
        ;
        assert(-0x100000000000000000000int <= (c2 as int) * (p.b as int)
            <= 0x100000000000000000000int) by (nonlinear_arith)
            requires
                -1_000_000_000_000 <= c2 <= 1_000_000_000_000,
                p.b <= 100_000_000u64,
        ;
        assert(-0x100000000000000000000int <= (c3 as int) * 1_000_000int
            <= 0x100000000000000000000int) by (nonlinear_arith)
            requires
                -1_000_000_000_000 <= c3 <= 1_000_000_000_000,
        ;
    }
    let d: i128 = c0 as i128 * p.r as i128 + c1 as i128 * p.g as i128 + c2 as i128 * p.b as i128
        + c3 as i128 * (ONE as i128);
    let ghost dot: int = c0 * p.r + c1 * p.g + c2 * p.b + c3 * ONE;
    proof {
        lemma_div_sign(dot, ONE as int);
    }
    if d <= 0 {
        0
    } else {
        let q: u128 = (d as u128) / (ONE as u128);
        proof {
            lemma_fundamental_div_mod(dot, ONE as int);
            lemma_mod_bound(dot, ONE as int);
        }
        clamp_channel(q as u64)
    }
}

impl ColorMatrix {
    /// Applies the matrix to one pixel.
    pub fn apply(&self, p: Pixel) -> (r: Pixel)
        requires
            self.wf(),
            p.wf(),
        ensures
            r == tx_pixel(*self, p),
            r.wf(),
    {
        proof {
            assert(self.at(0, 0) == self.m00 && self.at(0, 1) == self.m01 && self.at(0, 2)
                == self.m02 && self.at(0, 3) == self.m03);
            assert(self.at(1, 0) == self.m10 && self.at(1, 1) == self.m11 && self.at(1, 2)
                == self.m12 && self.at(1, 3) == self.m13);
            assert(self.at(2, 0) == self.m20 && self.at(2, 1) == self.m21 && self.at(2, 2)
                == self.m22 && self.at(2, 3) == self.m23);
        }
        Pixel {
            r: apply_row(self.m00, self.m01, self.m02, self.m03, p),
            g: apply_row(self.m10, self.m11, self.m12, self.m13, p),
            b: apply_row(self.m20, self.m21, self.m22, self.m23, p),
        }
    }

    /// The matrix that scales the three channels independently.
    pub fn diagonal(x: u64, y: u64, z: u64) -> (m: ColorMatrix)
        requires
            x <= COEFF_MAX as u64,
            y <= COEFF_MAX as u64,
            z <= COEFF_MAX as u64,
        ensures
            m.wf(),
            m == diag_spec(x, y, z),
    {
        ColorMatrix {
            m00: x as i64,
            m01: 0,
            m02: 0,
            m03: 0,
            m10: 0,
            m11: y as i64,
            m12: 0,
            m13: 0,
            m20: 0,
            m21: 0,
            m22: z as i64,
            m23: 0,
        }
    }
}

/// The diagonal matrix that scales the three channels by `x`, `y`
/// and `z`.
pub open spec fn diag_spec(x: u64, y: u64, z: u64) -> ColorMatrix {
    ColorMatrix {
        m00: x as i64, m01: 0, m02: 0, m03: 0,
        m10: 0, m11: y as i64, m12: 0, m13: 0,
        m20: 0, m21: 0, m22: z as i64, m23: 0,
    }
}

/// The triple names a permutation of the three channel indices.
pub open spec fn valid_perm(x: int, y: int, z: int) -> bool {
    0 <= x < 3 && 0 <= y < 3 && 0 <= z < 3 && x != y && x != z && y != z
}

/// The permutation matrix that sends input channel 0 to output
/// channel `x`, 1 to `y` and 2 to `z`.
pub open spec fn perm_spec(x: int, y: int, z: int) -> ColorMatrix {
    ColorMatrix {
        m00: if x == 0 { ONE as i64 } else { 0 },
        m01: if y == 0 { ONE as i64 } else { 0 },
        m02: if z == 0 { ONE as i64 } else { 0 },
        m03: 0,
        m10: if x == 1 { ONE as i64 } else { 0 },
        m11: if y == 1 { ONE as i64 } else { 0 },
        m12: if z == 1 { ONE as i64 } else { 0 },
        m13: 0,
        m20: if x == 2 { ONE as i64 } else { 0 },
        m21: if y == 2 { ONE as i64 } else { 0 },
        m22: if z == 2 { ONE as i64 } else { 0 },
        m23: 0,
    }
}

/// Channel `i` of a pixel.
pub open spec fn chan(p: Pixel, i: int) -> int {
    if i == 0 {
        p.r as int
    } else if i == 1 {
        p.g as int
    } else {
        p.b as int
    }
}

/// The pixel whose channel `x` is the red, channel `y` the green and
/// channel `z` the blue channel of `p`.
pub open spec fn permuted_pixel(x: int, y: int, z: int, p: Pixel) -> Pixel {
    Pixel {
        r: (if x == 0 {
            p.r
        } else if y == 0 {
            p.g
        } else {
            p.b
        }),
        g: (if x == 1 {
            p.r
        } else if y == 1 {
            p.g
        } else {
            p.b
        }),
        b: (if x == 2 {
            p.r
        } else if y == 2 {
            p.g
        } else {
            p.b
        }),
    }
}

impl ColorMatrix {
    /// The matrix that reorders channels: input channel 0 lands in
    /// output channel `x`, 1 in `y` and 2 in `z`.
    pub fn permutation(x: usize, y: usize, z: usize) -> (m: ColorMatrix)
        requires
            valid_perm(x as int, y as int, z as int),
        ensures
            m.wf(),
            m == perm_spec(x as int, y as int, z as int),
    {
        let o: i64 = ONE as i64;
        if x == 0 && y == 1 {
            ColorMatrix {
                m00: o, m01: 0, m02: 0, m03: 0,
                m10: 0, m11: o, m12: 0, m13: 0,
                m20: 0, m21: 0, m22: o, m23: 0,
            }
        } else if x == 0 && y == 2 {
            ColorMatrix {
                m00: o, m01: 0, m02: 0, m03: 0,
                m10: 0, m11: 0, m12: o, m13: 0,
                m20: 0, m21: o, m22: 0, m23: 0,
            }
        } else if x == 1 && y == 0 {
            ColorMatrix {
                m00: 0, m01: o, m02: 0, m03: 0,
                m10: o, m11: 0, m12: 0, m13: 0,
                m20: 0, m21: 0, m22: o, m23: 0,
            }
        } else if x == 1 && y == 2 {
            ColorMatrix {
                m00: 0, m01: 0, m02: o, m03: 0,
                m10: o, m11: 0, m12: 0, m13: 0,
                m20: 0, m21: o, m22: 0, m23: 0,
            }
        } else if x == 2 && y == 0 {
            ColorMatrix {
                m00: 0, m01: o, m02: 0, m03: 0,
                m10: 0, m11: 0, m12: o, m13: 0,
                m20: o, m21: 0, m22: 0, m23: 0,
            }
        } else {
            ColorMatrix {
                m00: 0, m01: 0, m02: o, m03: 0,
                m10: 0, m11: o, m12: 0, m13: 0,
                m20: o, m21: 0, m22: 0, m23: 0,
            }
        }
    }
}

/// The fixed conversion from linear RGB to CIE XYZ, with standard
/// primaries and the D65 white point, in fixed-point units.
pub open spec fn rgb_to_xyz_spec() -> ColorMatrix {
    ColorMatrix {
        m00: 412453, m01: 357580, m02: 180423, m03: 0,
        m10: 212671, m11: 715160, m12: 72169, m13: 0,
        m20: 19334, m21: 119193, m22: 950227, m23: 0,
    }
}

/// The fixed conversion from CIE XYZ back to linear RGB: the
/// numerical inverse of the matrix above.
pub open spec fn xyz_to_rgb_spec() -> ColorMatrix {
    ColorMatrix {
        m00: 3240479, m01: -1537150i64, m02: -498535i64, m03: 0,
        m10: -969256i64, m11: 1875991, m12: 41556, m13: 0,
        m20: 55648, m21: -204043i64, m22: 1057311, m23: 0,
    }
}

/// Builds the RGB-to-XYZ conversion matrix.
pub fn rgb_to_xyz_matrix() -> (m: ColorMatrix)
    ensures
        m == rgb_to_xyz_spec(),
        m.wf(),
{
    ColorMatrix {
        m00: 412453, m01: 357580, m02: 180423, m03: 0,
        m10: 212671, m11: 715160, m12: 72169, m13: 0,
        m20: 19334, m21: 119193, m22: 950227, m23: 0,
    }
}

/// Builds the XYZ-to-RGB conversion matrix.
pub fn xyz_to_rgb_matrix() -> (m: ColorMatrix)
    ensures
        m == xyz_to_rgb_spec(),
        m.wf(),
{
    ColorMatrix {
        m00: 3240479, m01: -1537150, m02: -498535, m03: 0,
        m10: -969256, m11: 1875991, m12: 41556, m13: 0,
        m20: 55648, m21: -204043, m22: 1057311, m23: 0,
    }
}

/// The pixel scaled channelwise by the fixed-point factors `x`, `y`
/// and `z`: the effect of the diagonal matrix `diag_spec(x, y, z)`.
pub open spec fn scaled_pixel(x: u64, y: u64, z: u64, q: Pixel) -> Pixel {
    Pixel {
        r: clamp_chan((x * q.r) / (ONE as int)) as u64,
        g: clamp_chan((y * q.g) / (ONE as int)) as u64,
        b: clamp_chan((z * q.b) / (ONE as int)) as u64,
    }
}

/// One row of a diagonal matrix scales a single channel.
proof fn lemma_diag_row(a0: int, a1: int, a2: int, a3: int, s: int, p: Pixel, k: int)
    requires
        0 <= k < 3,
        a0 == (if k == 0 { s } else { 0int }),
        a1 == (if k == 1 { s } else { 0int }),
        a2 == (if k == 2 { s } else { 0int }),
        a3 == 0,
    ensures
        a0 * p.r + a1 * p.g + a2 * p.b + a3 * ONE == s * chan(p, k),
{
    if k == 0 {
        assert(a0 * p.r + a1 * p.g + a2 * p.b + a3 * 1_000_000 == s * p.r) by (nonlinear_arith)
            requires
                a0 == s,
                a1 == 0,
                a2 == 0,
                a3 == 0,
        ;
    } else if k == 1 {
        assert(a0 * p.r + a1 * p.g + a2 * p.b + a3 * 1_000_000 == s * p.g) by (nonlinear_arith)
            requires
                a0 == 0,
                a1 == s,
                a2 == 0,
                a3 == 0,
        ;
    } else {
        assert(a0 * p.r + a1 * p.g + a2 * p.b + a3 * 1_000_000 == s * p.b) by (nonlinear_arith)
            requires
                a0 == 0,
                a1 == 0,
                a2 == s,
                a3 == 0,
        ;
    }
}

/// Law: a diagonal matrix scales the three channels independently.
pub proof fn lemma_scale_pixel(m: ColorMatrix, x: u64, y: u64, z: u64, p: Pixel)
    requires
        m == diag_spec(x, y, z),
        x <= COEFF_MAX as u64,
        y <= COEFF_MAX as u64,
        z <= COEFF_MAX as u64,
        p.wf(),
    ensures
        tx_pixel(m, p) == scaled_pixel(x, y, z, p),
{
    lemma_diag_row(m.at(0, 0), m.at(0, 1), m.at(0, 2), m.at(0, 3), x as int, p, 0);
    lemma_diag_row(m.at(1, 0), m.at(1, 1), m.at(1, 2), m.at(1, 3), y as int, p, 1);
    lemma_diag_row(m.at(2, 0), m.at(2, 1), m.at(2, 2), m.at(2, 3), z as int, p, 2);
    assert(row_dot(m, 0, p) == x * p.r);
    assert(row_dot(m, 1, p) == y * p.g);
    assert(row_dot(m, 2, p) == z * p.b);
}

/// Law: scaling every channel by one reproduces a well-formed pixel,
/// and so does the identity permutation.
pub proof fn lemma_unit_scale_pixel(p: Pixel)
    requires
        p.wf(),
    ensures
        scaled_pixel(ONE, ONE, ONE, p) == p,
{
    lemma_div_multiples_vanish(p.r as int, ONE as int);
    lemma_div_multiples_vanish(p.g as int, ONE as int);
    lemma_div_multiples_vanish(p.b as int, ONE as int);
    assert((ONE as int) * (p.r as int) == (p.r as int) * 1_000_000) by (nonlinear_arith);
    assert((ONE as int) * (p.g as int) == (p.g as int) * 1_000_000) by (nonlinear_arith);
    assert((ONE as int) * (p.b as int) == (p.b as int) * 1_000_000) by (nonlinear_arith);
    assert((1_000_000 * (p.r as int)) / 1_000_000 == p.r);
    assert((1_000_000 * (p.g as int)) / 1_000_000 == p.g);
    assert((1_000_000 * (p.b as int)) / 1_000_000 == p.b);
}

/// One row of a permutation matrix picks out a single channel.
proof fn lemma_perm_row(a0: int, a1: int, a2: int, a3: int, p: Pixel, k: int)
    requires
        0 <= k < 3,
        a0 == (if k == 0 { 1_000_000int } else { 0int }),
        a1 == (if k == 1 { 1_000_000int } else { 0int }),
        a2 == (if k == 2 { 1_000_000int } else { 0int }),
        a3 == 0,
    ensures
        a0 * p.r + a1 * p.g + a2 * p.b + a3 * ONE == 1_000_000 * chan(p, k),
{
    if k == 0 {
        assert(a0 * p.r + a1 * p.g + a2 * p.b + a3 * 1_000_000 == 1_000_000 * p.r) by (
        nonlinear_arith)
            requires
                a0 == 1_000_000int,
                a1 == 0,
                a2 == 0,
                a3 == 0,
        ;
    } else if k == 1 {
        assert(a0 * p.r + a1 * p.g + a2 * p.b + a3 * 1_000_000 == 1_000_000 * p.g) by (
        nonlinear_arith)
            requires
                a0 == 0,
                a1 == 1_000_000int,
                a2 == 0,
                a3 == 0,
        ;
    } else {
        assert(a0 * p.r + a1 * p.g + a2 * p.b + a3 * 1_000_000 == 1_000_000 * p.b) by (
        nonlinear_arith)
            requires
                a0 == 0,
                a1 == 0,
                a2 == 1_000_000int,
                a3 == 0,
        ;
    }
}

/// Law: a permutation matrix reorders the channels of a well-formed
/// pixel exactly — channel 0 lands in channel `x`, 1 in `y`, 2 in `z`
/// — and in particular the identity triple leaves every pixel as it
/// was.
pub proof fn lemma_permute_pixel(m: ColorMatrix, x: int, y: int, z: int, p: Pixel)
    requires
        valid_perm(x, y, z),
        m == perm_spec(x, y, z),
        p.wf(),
    ensures
        tx_pixel(m, p) == permuted_pixel(x, y, z, p),
{
    lemma_div_multiples_vanish(p.r as int, ONE as int);
    lemma_div_multiples_vanish(p.g as int, ONE as int);
    lemma_div_multiples_vanish(p.b as int, ONE as int);
    let k0 = if x == 0 { 0int } else if y == 0 { 1int } else { 2int };
    let k1 = if x == 1 { 0int } else if y == 1 { 1int } else { 2int };
    let k2 = if x == 2 { 0int } else if y == 2 { 1int } else { 2int };
    lemma_perm_row(m.at(0, 0), m.at(0, 1), m.at(0, 2), m.at(0, 3), p, k0);
    lemma_perm_row(m.at(1, 0), m.at(1, 1), m.at(1, 2), m.at(1, 3), p, k1);
    lemma_perm_row(m.at(2, 0), m.at(2, 1), m.at(2, 2), m.at(2, 3), p, k2);
    assert(row_dot(m, 0, p) == 1_000_000 * chan(p, k0));
    assert(row_dot(m, 1, p) == 1_000_000 * chan(p, k1));
    assert(row_dot(m, 2, p) == 1_000_000 * chan(p, k2));
}


/// Law: converting a pixel from linear RGB to CIE XYZ and back
/// reproduces every channel to within ten fixed-point units
/// (one part in a hundred thousand of full intensity), because the
/// two matrices are each other's numerical inverse.  The bound is
/// stated for pixels in the ordinary color range, up to `ONE` per
/// channel.
#[verifier::rlimit(60)]
pub proof fn lemma_xyz_round_trip_pixel(m1: ColorMatrix, m2: ColorMatrix, p: Pixel)
    requires
        m1 == rgb_to_xyz_spec(),
        m2 == xyz_to_rgb_spec(),
        p.r <= ONE,
        p.g <= ONE,
        p.b <= ONE,
    ensures
        ({
            let w = tx_pixel(m2, tx_pixel(m1, p));
            &&& w.r <= p.r + 10 && p.r <= w.r + 10
            &&& w.g <= p.g + 10 && p.g <= w.g + 10
            &&& w.b <= p.b + 10 && p.b <= w.b + 10
        }),
{
    let o = ONE as int;
    let s0 = row_dot(m1, 0, p);
    let s1 = row_dot(m1, 1, p);
    let s2 = row_dot(m1, 2, p);
    assert(s0 == 412453 * p.r + 357580 * p.g + 180423 * p.b);
    assert(s1 == 212671 * p.r + 715160 * p.g + 72169 * p.b);
    assert(s2 == 19334 * p.r + 119193 * p.g + 950227 * p.b);
    lemma_fundamental_div_mod(s0, o);
    lemma_mod_bound(s0, o);
    lemma_fundamental_div_mod(s1, o);
    lemma_mod_bound(s1, o);
    lemma_fundamental_div_mod(s2, o);
    lemma_mod_bound(s2, o);
    let q0 = s0 / o;
    let q1 = s1 / o;
    let q2 = s2 / o;
    assert(0 <= q0 <= 950456) by {
        assert(0 <= s0 <= 950456 * o);
    }
    assert(0 <= q1 <= 1000000) by {
        assert(0 <= s1 <= 1000000 * o);
    }
    assert(0 <= q2 <= 1088754) by {
        assert(0 <= s2 <= 1088754 * o);
    }
    let q = tx_pixel(m1, p);
    assert(q.r == q0 && q.g == q1 && q.b == q2);
    let t0 = row_dot(m2, 0, q);
    let t1 = row_dot(m2, 1, q);
    let t2 = row_dot(m2, 2, q);
    assert(t0 == 3240479 * q0 - 1537150 * q1 - 498535 * q2);
    assert(t1 == -969256 * q0 + 1875991 * q1 + 41556 * q2);
    assert(t2 == 55648 * q0 - 204043 * q1 + 1057311 * q2);
    lemma_fundamental_div_mod(t0, o);
    lemma_mod_bound(t0, o);
    lemma_fundamental_div_mod(t1, o);
    lemma_mod_bound(t1, o);
    lemma_fundamental_div_mod(t2, o);
    lemma_mod_bound(t2, o);
    let r0 = t0 / o;
    let r1 = t1 / o;
    let r2 = t2 / o;
    // Substituting o * q_j == s_j - (s_j % o) into o * t_c folds the
    // two matrices into their product, which differs from o * o times
    // the identity by a few millionths per entry.
    assert(o * t0 == 3240479 * (s0 - s0 % o) - 1537150 * (s1 - s1 % o) - 498535 * (s2 - s2 % o));
    assert(o * t1 == -969256 * (s0 - s0 % o) + 1875991 * (s1 - s1 % o) + 41556 * (s2 - s2 % o));
    assert(o * t2 == 55648 * (s0 - s0 % o) - 204043 * (s1 - s1 % o) + 1057311 * (s2 - s2 % o));
    assert(p.r - 10 <= r0 <= p.r + 10) by {
        assert(o * o * r0 == o * t0 - o * (t0 % o));
        assert(o * o * (p.r - 10) < o * o * r0 < o * o * (p.r + 10));
    }
    assert(p.g - 10 <= r1 <= p.g + 10) by {
        assert(o * o * r1 == o * t1 - o * (t1 % o));
        assert(o * o * (p.g - 10) < o * o * r1 < o * o * (p.g + 10));
    }
    assert(p.b - 10 <= r2 <= p.b + 10) by {
        assert(o * o * r2 == o * t2 - o * (t2 % o));
        assert(o * o * (p.b - 10) < o * o * r2 < o * o * (p.b + 10));
    }
    let w = tx_pixel(m2, q);
    assert(w.r == clamp_chan(r0) && w.g == clamp_chan(r1) && w.b == clamp_chan(r2));
}

/// Law: the identity permutation triple leaves every well-formed
/// pixel exactly as it was.
pub proof fn lemma_identity_permutation(p: Pixel)
    requires
        p.wf(),
    ensures
        tx_pixel(perm_spec(0, 1, 2), p) == p,
        permuted_pixel(0, 1, 2, p) == p,
{
    lemma_permute_pixel(perm_spec(0, 1, 2), 0, 1, 2, p);
}

/// Two pixels agree on every channel to within `tol` fixed-point
/// units.
pub open spec fn near(a: Pixel, b: Pixel, tol: int) -> bool {
    &&& a.r <= b.r + tol && b.r <= a.r + tol
    &&& a.g <= b.g + tol && b.g <= a.g + tol
    &&& a.b <= b.b + tol && b.b <= a.b + tol
}

/// Law: a whole texture sent from linear RGB to CIE XYZ and back
/// comes out near the original, channel by channel, to within ten
/// fixed-point units — provided its channels lie in the ordinary
/// color range, up to `ONE`.  `b` is the converted and `c` the
/// round-tripped texture, as the conversion operations produce them.
pub proof fn lemma_xyz_round_trip_texture(a: Texture, b: Texture, c: Texture)
    requires
        b.data.len() == c.data.len(),
        forall|j: int|
            0 <= j < b.data.len() ==> ((#[trigger] texel(a, j)).r <= ONE && texel(a, j).g <= ONE
                && texel(a, j).b <= ONE),
        forall|j: int|
            0 <= j < b.data.len() ==> #[trigger] b.data[j] == tx_pixel(
                rgb_to_xyz_spec(),
                texel(a, j),
            ),
        forall|j: int|
            0 <= j < c.data.len() ==> #[trigger] c.data[j] == tx_pixel(
                xyz_to_rgb_spec(),
                texel(b, j),
            ),
    ensures
        forall|j: int| 0 <= j < c.data.len() ==> near(texel(a, j), #[trigger] c.data[j], 10),
{
    assert forall|j: int| 0 <= j < c.data.len() implies near(texel(a, j), #[trigger] c.data[j], 10)
        by {
        assert(texel(b, j) == b.data[j]);
        lemma_xyz_round_trip_pixel(rgb_to_xyz_spec(), xyz_to_rgb_spec(), texel(a, j));
    }
}

} // verus!