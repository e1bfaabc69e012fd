//! A scene that lets a random background move behind a masked
//! foreground.

use vstd::prelude::*;

use crate::fixed::ONE;
use crate::image::Image;
use crate::pixel::{add_spec, diff_spec, mul_spec, Pixel};
use crate::process::{shift_source, Processor};
use crate::rng::random_below;
use crate::texture::Texture;

use super::{SceneT, ViewChange};

verus! {

/// A random background, a mask and its negative; when `shift` is
/// set, every synthesized frame draws a fresh random offset for the
/// background.
pub struct Movement {
    pub background: Image,
    pub mask: Image,
    pub neg_mask: Image,
    pub shift: bool,
}

impl Movement {
    /// Builds the scene around a mask image: the negative mask is
    /// its absolute difference from white, and the background is
    /// fresh random noise.
    pub fn new(p: &mut Processor, mask: Image) -> (s: Movement)
        requires
            old(p).wf(),
            mask.ok_for(*old(p)),
        ensures
            final(p).wf(),
            final(p).width == old(p).width,
            final(p).height == old(p).height,
            s.inv(),
            s.compat(*final(p)),
            s.mask == mask,
            s.shift == false,
            s.background.full_for(*old(p)),
            forall|j: int|
                0 <= j < s.background.texture.data.len() ==> ((
                #[trigger] s.background.texture.data[j]).r < ONE
                    && s.background.texture.data[j].g < ONE && s.background.texture.data[j].b
                    < ONE),
            s.neg_mask.full_for(*old(p)),
            forall|j: int|
                0 <= j < s.neg_mask.texture.data.len() ==> s.neg_mask.texture.data[j] == diff_spec(
                    mask.px(j),
                    Pixel { r: ONE, g: ONE, b: ONE },
                    true,
                ),
    {
        let white = Image::grayscale(p, ONE);
        let neg_mask = Image::diff(p, &mask, &white, true);
        let background = Image::random(p);
        Movement { background, mask, neg_mask, shift: false }
    }
}

impl ViewChange for Movement {
    open spec fn inv(&self) -> bool {
        self.background.wf() && self.mask.wf() && self.neg_mask.wf()
    }

    open spec fn views_spec(&self) -> int {
        1
    }

    open spec fn view_spec(&self) -> int {
        0
    }

    open spec fn with_view_spec(&self, i: int) -> Movement {
        *self
    }

    proof fn lemma_view_in_range(&self) {
    }

    proof fn lemma_with_view(&self, i: int) {
    }

    fn current_view(&self) -> (r: usize) {
        0
    }

    fn n_views(&self) -> (r: usize) {
        1
    }

    fn set_view(&mut self, i: usize) {
    }
}

impl Movement {
    /// One synthesized frame, for the background offset `(dx, dy)`:
    /// the shifted background shows through the negative mask and
    /// the unshifted background through the mask itself.
    pub open spec fn frame_with(&self, p: Processor, t: Texture, dx: u64, dy: u64) -> bool {
        &&& dx < ONE
        &&& dy < ONE
        &&& (!self.shift ==> dx == 0 && dy == 0)
        &&& forall|j: int|
            0 <= j < t.data.len() ==> t.data[j] == add_spec(
                mul_spec(
                    self.background.px(
                        shift_source(
                            j % (p.width as int),
                            j / (p.width as int),
                            p.width as int,
                            p.height as int,
                            dx,
                            dy,
                        ),
                    ),
                    self.neg_mask.px(j),
                ),
                mul_spec(self.background.px(j), self.mask.px(j)),
            )
    }
}

impl SceneT for Movement {
    open spec fn compat(&self, p: Processor) -> bool {
        self.background.ok_for(p) && self.mask.ok_for(p) && self.neg_mask.ok_for(p)
    }

    open spec fn toggled_spec(&self) -> Movement {
        Movement {
            background: self.background,
            mask: self.mask,
            neg_mask: self.neg_mask,
            shift: !self.shift,
        }
    }

    open spec fn image_ok(&self, p: Processor, t: Texture) -> bool {
        &&& t.data.len() == p.n_pixels()
        &&& exists|dx: u64, dy: u64| #[trigger] self.frame_with(p, t, dx, dy)
    }

    proof fn lemma_toggled(&self) {
    }

    fn toggle(&mut self) {
        self.shift = !self.shift;
    }

    fn image(&self, p: &mut Processor) -> (img: Image) {
        let (dx, dy): (u64, u64) = if self.shift {
            (random_below(ONE), random_below(ONE))
        } else {
            (0, 0)
        };
        let shifted_bg = self.background.shift(p, dx, dy);
        let mask_bg = Image::mul(p, &shifted_bg, &self.neg_mask);
        let mask_fg = Image::mul(p, &self.background, &self.mask);
        let out = Image::add(p, &mask_bg, &mask_fg);
        proof {
            assert(self.frame_with(*old(p), *out.texture, dx, dy));
        }
        out
    }
}

} // verus!
