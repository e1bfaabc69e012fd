//! A scene that walks a list of images, all shown through one fixed
//! channel permutation.

use vstd::prelude::*;

use crate::image::Image;
use crate::matrix::{permuted_pixel, valid_perm};
use crate::process::Processor;
use crate::texture::Texture;

use super::{SceneT, ViewChange};

verus! {

/// A list of images; each view shows one of them, its channels
/// reordered by the fixed triple.
pub struct Permutation {
    pub i: usize,
    pub views: Vec<Image>,
    pub permutation: (usize, usize, usize),
}

impl Permutation {
    /// Wraps the images with the channel permutation; the cursor
    /// starts on the first image.
    pub fn new(images: Vec<Image>, permutation: (usize, usize, usize)) -> (s: Permutation)
        requires
            images.len() >= 1,
            valid_perm(permutation.0 as int, permutation.1 as int, permutation.2 as int),
        ensures
            s.i == 0,
            s.views == images,
            s.permutation == permutation,
    {
        Permutation { i: 0, views: images, permutation }
    }
}

impl ViewChange for Permutation {
    open spec fn inv(&self) -> bool {
        &&& self.views.len() >= 1
        &&& self.i < self.views.len()
        &&& valid_perm(
            self.permutation.0 as int,
            self.permutation.1 as int,
            self.permutation.2 as int,
        )
        &&& forall|k: int| 0 <= k < self.views.len() ==> (#[trigger] self.views[k]).wf()
    }

    open spec fn views_spec(&self) -> int {
        self.views.len() as int
    }

    open spec fn view_spec(&self) -> int {
        self.i as int
    }

    open spec fn with_view_spec(&self, i: int) -> Permutation {
        Permutation { i: i as usize, views: self.views, permutation: self.permutation }
    }

    proof fn lemma_view_in_range(&self) {
    }

    proof fn lemma_with_view(&self, i: int) {
    }

    fn current_view(&self) -> (r: usize) {
        self.i
    }

    fn n_views(&self) -> (r: usize) {
        self.views.len()
    }

    fn set_view(&mut self, i: usize) {
        self.i = i;
    }
}

impl SceneT for Permutation {
    open spec fn compat(&self, p: Processor) -> bool {
        forall|k: int| 0 <= k < self.views.len() ==> (#[trigger] self.views[k]).ok_for(p)
    }

    open spec fn toggled_spec(&self) -> Permutation {
        *self
    }

    open spec fn image_ok(&self, p: Processor, t: Texture) -> bool {
        &&& t.data.len() == p.n_pixels()
        &&& forall|j: int|
            0 <= j < t.data.len() ==> t.data[j] == permuted_pixel(
                self.permutation.0 as int,
                self.permutation.1 as int,
                self.permutation.2 as int,
                self.views[self.view_spec()].px(j),
            )
    }

    proof fn lemma_toggled(&self) {
    }

    fn toggle(&mut self) {
    }

    fn image(&self, p: &mut Processor) -> (img: Image) {
        let tex = &self.views[self.i];
        tex.permute(p, self.permutation.0, self.permutation.1, self.permutation.2)
    }
}

} // verus!
