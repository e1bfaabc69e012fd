//! Fixed-point units shared by the whole engine.
//!
//! A channel value of `ONE` stands for the color intensity 1.0; every
//! pixel channel is held in `0 ..= CHANNEL_MAX`, so the engine covers
//! intensities up to 100.0.  Matrix coefficients use the same unit and
//! may be negative.

use vstd::prelude::*;

verus! {

/// The fixed-point representation of the intensity 1.0.
pub const ONE: u64 = 1_000_000;

/// The largest channel value a texture may hold (the intensity 100.0).
pub const CHANNEL_MAX: u64 = 100_000_000;

/// The largest magnitude a matrix coefficient may have.
pub const COEFF_MAX: i64 = 1_000_000_000_000;

/// A channel value clamped into the range the engine stores.
pub open spec fn clamp_chan(v: int) -> int {
    if v < 0 {
        0
    } else if v > CHANNEL_MAX {
        CHANNEL_MAX as int
    } else {
        v
    }
}

} // verus!
