//! The plainest scene: one image, one view.

use vstd::prelude::*;

use crate::fixed::ONE;
use crate::image::Image;
use crate::matrix::lemma_unit_scale_pixel;
use crate::process::Processor;
use crate::texture::Texture;

use super::{SceneT, ViewChange};

verus! {

/// A scene that shows a single image as it is.
pub struct Plain {
    pub image: Image,
}

impl Plain {
    /// Wraps one image as a scene.
    pub fn new(image: Image) -> (s: Plain)
        ensures
            s.image == image,
    {
        Plain { image }
    }
}

impl ViewChange for Plain {
    open spec fn inv(&self) -> bool {
        self.image.wf()
    }

    open spec fn views_spec(&self) -> int {
        1
    }

    open spec fn view_spec(&self) -> int {
        0
    }

    open spec fn with_view_spec(&self, i: int) -> Plain {
        *self
    }

    proof fn lemma_view_in_range(&self) {
    }

    proof fn lemma_with_view(&self, i: int) {
    }

    fn current_view(&self) -> (r: usize) {
        0
    }

    fn n_views(&self) -> (r: usize) {
        1
    }

    fn set_view(&mut self, i: usize) {
    }
}

impl SceneT for Plain {
    open spec fn compat(&self, p: Processor) -> bool {
        self.image.ok_for(p)
    }

    open spec fn toggled_spec(&self) -> Plain {
        *self
    }

    open spec fn image_ok(&self, p: Processor, t: Texture) -> bool {
        &&& t.data.len() == p.n_pixels()
        &&& forall|i: int| 0 <= i < t.data.len() ==> t.data[i] == self.image.px(i)
    }

    proof fn lemma_toggled(&self) {
    }

    fn toggle(&mut self) {
    }

    fn image(&self, p: &mut Processor) -> (img: Image) {
        let out = self.image.uscale(p, ONE);
        proof {
            assert forall|i: int| 0 <= i < out.texture.data.len() implies out.texture.data[i]
                == self.image.px(i) by {
                lemma_unit_scale_pixel(self.image.px(i));
            }
        }
        out
    }
}

} // verus!
