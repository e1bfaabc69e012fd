//! Gamma-encoded byte textures, as decoded image files supply them.
//!
//! A decoded file hands the engine tightly packed 8-bit RGB rows from
//! the top row down; textures are stored from the bottom row up, so
//! the upload reverses the row order.  Linearizing such a texture is
//! the processor's job (see `make_linear`).

use vstd::prelude::*;

use vstd::arithmetic::div_mod::{lemma_fundamental_div_mod, lemma_mod_bound};

use crate::gamma::{srgb_decode, srgb_encode};
use crate::matrix::chan;
use crate::texture::Texture;
use crate::pixel::Pixel;

verus! {

/// A gamma-encoded texture: packed RGB bytes, three per pixel,
/// bottom row first.
pub struct SrgbTexture {
    pub width: u32,
    pub height: u32,
    pub data: Vec<u8>,
}

impl SrgbTexture {
    /// Three bytes per grid cell, on a non-empty grid.
    pub open spec fn wf(self) -> bool {
        &&& self.width >= 1
        &&& self.height >= 1
        &&& self.width * self.height <= 0x1000_0000
        &&& self.data.len() == 3 * self.width * self.height
    }
}

/// The linear pixel that loading a decoded file yields at flat
/// index `i`: the three bytes of the mirrored row, each decoded
/// through the gamma curve.
pub open spec fn loaded_pixel(bytes: Seq<u8>, i: int, w: int, h: int) -> Pixel {
    Pixel {
        r: srgb_decode(bytes[flip_row_index(3 * i, 3 * w, h)]) as u64,
        g: srgb_decode(bytes[flip_row_index(3 * i + 1, 3 * w, h)]) as u64,
        b: srgb_decode(bytes[flip_row_index(3 * i + 2, 3 * w, h)]) as u64,
    }
}

/// Where a flat byte of the row-reversed buffer comes from: the same
/// column of the mirrored row.  `tw` is the width in bytes of one row.
pub open spec fn flip_row_index(i: int, tw: int, h: int) -> int {
    (h - 1 - i / tw) * tw + i % tw
}

/// A mirrored flat index stays inside the buffer.
pub proof fn lemma_flip_row_index_in_range(i: int, tw: int, h: int)
    requires
        tw >= 1,
        h >= 1,
        0 <= i < tw * h,
    ensures
        0 <= flip_row_index(i, tw, h) < tw * h,
        0 <= i / tw < h,
{
    lemma_fundamental_div_mod(i, tw);
    lemma_mod_bound(i, tw);
    let row = i / tw;
    let col = i % tw;
    assert(0 <= row < h) by (nonlinear_arith)
        requires
            i == tw * row + col,
            0 <= col < tw,
            0 <= i < tw * h,
            tw >= 1,
    ;
    assert(0 <= (h - 1 - row) * tw + col < tw * h) by (nonlinear_arith)
        requires
            0 <= row < h,
            0 <= col < tw,
            tw >= 1,
    ;
}

impl SrgbTexture {
    /// Uploads decoded top-down RGB rows as a bottom-up texture.
    pub fn from_rows_reversed(width: u32, height: u32, bytes: &Vec<u8>) -> (t: SrgbTexture)
        requires
            width >= 1,
            height >= 1,
            width * height <= 0x1000_0000,
            bytes.len() == 3 * width * height,
        ensures
            t.wf(),
            t.width == width,
            t.height == height,
            forall|i: int|
                0 <= i < t.data.len() ==> t.data[i] == bytes[flip_row_index(
                    i,
                    3 * width,
                    height as int,
                )],
    {
        proof {
            assert(3 * (width as int) * (height as int) == (3 * (width as int)) * (height as int))
                by (nonlinear_arith);
            assert(height <= 0x1000_0000 && width <= 0x1000_0000) by (nonlinear_arith)
                requires
                    width >= 1,
                    height >= 1,
                    (width as int) * (height as int) <= 0x1000_0000,
            ;
        }
        let tw: usize = 3 * (width as usize);
        let h: usize = height as usize;
        let n: usize = bytes.len();
        let mut data: Vec<u8> = Vec::new();
        for i in 0..n
            invariant
                tw == 3 * width,
                h == height,
                tw >= 3,
                h >= 1,
                n == bytes.len(),
                n == tw * h,
                tw <= 0x3000_0000,
                h <= 0x1000_0000,
                data.len() == i,
                forall|j: int|
                    0 <= j < i ==> data[j] == bytes[flip_row_index(j, tw as int, h as int)],
        {
            let row = i / tw;
            let col = i % tw;
            proof {
                lemma_flip_row_index_in_range(i as int, tw as int, h as int);
            }
            let src = (h - 1 - row) * tw + col;
            data.push(bytes[src]);
        }
        proof {
            assert((3 * (width as int)) * (height as int) == 3 * (width as int) * (height as int))
                by (nonlinear_arith);
        }
        SrgbTexture { width, height, data }
    }
}


/// The byte that saving a texture writes at flat index `i`: the
/// channels of the mirrored row — textures store rows bottom-up,
/// files top-down — each sent through the gamma encoding.
pub open spec fn saved_byte(t: Texture, i: int) -> int {
    let k = flip_row_index(i, 3 * t.width, t.height as int);
    srgb_encode(chan(t.data[k / 3], k % 3))
}

} // verus!
