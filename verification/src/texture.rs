//! A texture: an immutable two-dimensional pixel buffer.
//!
//! A texture is either full-sized — the fixed width and height the
//! processor was created with — or a single pixel, which every
//! sampling operation reads as a constant color, the way a graphics
//! sampler upscales a one-by-one source.

use vstd::prelude::*;

use crate::pixel::{add_spec, diff_spec, Pixel};

verus! {

/// A two-dimensional pixel buffer, immutable once built.
pub struct Texture {
    pub width: u32,
    pub height: u32,
    pub data: Vec<Pixel>,
}

impl Texture {
    /// The buffer holds exactly one well-formed pixel per grid cell.
    pub open spec fn wf(self) -> bool {
        &&& self.width >= 1
        &&& self.height >= 1
        &&& self.data.len() == self.width * self.height
        &&& forall|i: int| 0 <= i < self.data.len() ==> (#[trigger] self.data[i]).wf()
    }

    /// The texture can feed an operation on a `w` by `h` grid: it
    /// either has that size itself or is a single constant pixel.
    pub open spec fn fits(self, w: int, h: int) -> bool {
        (self.width == w && self.height == h) || (self.width == 1 && self.height == 1)
    }
}

/// The pixel an operation on a larger grid reads at flat index `i`:
/// a one-pixel texture answers every sample with its single pixel.
pub open spec fn texel(t: Texture, i: int) -> Pixel {
    if t.data.len() == 1 {
        t.data[0]
    } else {
        t.data[i]
    }
}

/// Law: a texture holding the difference of a source with itself —
/// in either difference mode — is all black.
pub proof fn lemma_self_difference_texture(a: Texture, d: Texture, use_abs: bool)
    requires
        forall|j: int|
            0 <= j < d.data.len() ==> #[trigger] d.data[j] == diff_spec(
                texel(a, j),
                texel(a, j),
                use_abs,
            ),
    ensures
        forall|j: int| 0 <= j < d.data.len() ==> #[trigger] d.data[j] == Pixel::black_spec(),
{
}

/// Law: adding an all-black source — such as a gray level of zero —
/// reproduces a well-formed texture pixel for pixel.
pub proof fn lemma_additive_identity_texture(a: Texture, z: Texture, s: Texture)
    requires
        a.wf(),
        z.data.len() == 1,
        z.data[0] == Pixel::black_spec(),
        s.data.len() == a.data.len() || a.data.len() == 1,
        forall|j: int|
            0 <= j < s.data.len() ==> #[trigger] s.data[j] == add_spec(texel(a, j), texel(z, j)),
    ensures
        forall|j: int| 0 <= j < s.data.len() ==> #[trigger] s.data[j] == texel(a, j),
{
    assert forall|j: int| 0 <= j < s.data.len() implies #[trigger] s.data[j] == texel(a, j) by {
        crate::pixel::lemma_add_black(texel(a, j));
    }
}

} // verus!
