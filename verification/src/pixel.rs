//! One pixel of a texture: three fixed-point color channels.

use vstd::prelude::*;

use crate::fixed::{clamp_chan, CHANNEL_MAX, ONE};

verus! {

/// A pixel with red, green and blue channels in fixed-point units.
#[derive(Clone, Copy, PartialEq, Eq, Structural, Debug)]
pub struct Pixel {
    pub r: u64,
    pub g: u64,
    pub b: u64,
}

impl Pixel {
    /// Every channel lies in the range the engine stores.
    pub open spec fn wf(self) -> bool {
        self.r <= CHANNEL_MAX && self.g <= CHANNEL_MAX && self.b <= CHANNEL_MAX
    }

    /// The all-black pixel.
    pub open spec fn black_spec() -> Pixel {
        Pixel { r: 0, g: 0, b: 0 }
    }
}

/// Elementwise sum of two pixels, clamped into range.
pub open spec fn add_spec(a: Pixel, b: Pixel) -> Pixel {
    Pixel {
        r: clamp_chan(a.r + b.r) as u64,
        g: clamp_chan(a.g + b.g) as u64,
        b: clamp_chan(a.b + b.b) as u64,
    }
}

/// Elementwise difference: the absolute difference when `use_abs` is
/// set, and otherwise the difference clamped at zero.
pub open spec fn diff_chan_spec(a: int, b: int, use_abs: bool) -> int {
    if use_abs {
        if a >= b {
            a - b
        } else {
            b - a
        }
    } else if a >= b {
        a - b
    } else {
        0
    }
}

/// Elementwise difference of two pixels.
pub open spec fn diff_spec(a: Pixel, b: Pixel, use_abs: bool) -> Pixel {
    Pixel {
        r: diff_chan_spec(a.r as int, b.r as int, use_abs) as u64,
        g: diff_chan_spec(a.g as int, b.g as int, use_abs) as u64,
        b: diff_chan_spec(a.b as int, b.b as int, use_abs) as u64,
    }
}

/// Elementwise product of two pixels, rescaled to keep the unit and
/// clamped into range.
pub open spec fn mul_spec(a: Pixel, b: Pixel) -> Pixel {
    Pixel {
        r: clamp_chan((a.r * b.r) / (ONE as int)) as u64,
        g: clamp_chan((a.g * b.g) / (ONE as int)) as u64,
        b: clamp_chan((a.b * b.b) / (ONE as int)) as u64,
    }
}

/// Clamps a computed channel value into the stored range.
pub fn clamp_channel(v: u64) -> (r: u64)
    ensures
        r == clamp_chan(v as int),
{
    if v > CHANNEL_MAX {
        CHANNEL_MAX
    } else {
        v
    }
}

/// Adds two well-formed pixels.
pub fn pixel_add(a: Pixel, b: Pixel) -> (r: Pixel)
    requires
        a.wf(),
        b.wf(),
    ensures
        r == add_spec(a, b),
        r.wf(),
{
    Pixel { r: clamp_channel(a.r + b.r), g: clamp_channel(a.g + b.g), b: clamp_channel(a.b + b.b) }
}

/// Subtracts one channel from another under the chosen difference mode.
fn diff_channel(a: u64, b: u64, use_abs: bool) -> (r: u64)
    requires
        a <= CHANNEL_MAX,
        b <= CHANNEL_MAX,
    ensures
        r == diff_chan_spec(a as int, b as int, use_abs),
{
    if a >= b {
        a - b
    } else if use_abs {
        b - a
    } else {
        0
    }
}

/// Takes the elementwise difference of two well-formed pixels.
pub fn pixel_diff(a: Pixel, b: Pixel, use_abs: bool) -> (r: Pixel)
    requires
        a.wf(),
        b.wf(),
    ensures
        r == diff_spec(a, b, use_abs),
        r.wf(),
{
    Pixel {
        r: diff_channel(a.r, b.r, use_abs),
        g: diff_channel(a.g, b.g, use_abs),
        b: diff_channel(a.b, b.b, use_abs),
    }
}

/// Multiplies two channels and rescales the product to the shared unit.
fn mul_channel(a: u64, b: u64) -> (r: u64)
    requires
        a <= CHANNEL_MAX,
        b <= CHANNEL_MAX,
    ensures
        r == clamp_chan((a * b) / (ONE as int)),
{
    proof {
        assert((a as int) * (b as int) <= 10_000_000_000_000_000int) by (nonlinear_arith)
            requires
                a <= 100_000_000u64,
                b <= 100_000_000u64,
        ;
    }
    let p: u64 = a * b;
    clamp_channel(p / ONE)
}

/// Takes the elementwise product of two well-formed pixels.
pub fn pixel_mul(a: Pixel, b: Pixel) -> (r: Pixel)
    requires
        a.wf(),
        b.wf(),
    ensures
        r == mul_spec(a, b),
        r.wf(),
{
    Pixel { r: mul_channel(a.r, b.r), g: mul_channel(a.g, b.g), b: mul_channel(a.b, b.b) }
}


/// Law: subtracting a pixel from itself, in either difference mode,
/// yields the all-black pixel.
pub proof fn lemma_self_diff(a: Pixel)
    ensures
        diff_spec(a, a, true) == Pixel::black_spec(),
        diff_spec(a, a, false) == Pixel::black_spec(),
{
}

/// Law: adding the all-black pixel changes no well-formed pixel, so
/// black is the additive identity.
pub proof fn lemma_add_black(a: Pixel)
    requires
        a.wf(),
    ensures
        add_spec(a, Pixel::black_spec()) == a,
        add_spec(Pixel::black_spec(), a) == a,
{
}

} // verus!