//! A scene that recombines one channel from each of three images,
//! walking all six orderings.

use vstd::prelude::*;

use crate::fixed::ONE;
use crate::image::Image;
use crate::process::{mix_pixel, Processor};
use crate::texture::Texture;

use super::{SceneT, ViewChange};

verus! {

/// Three fixed images; each of the six views picks one ordering of
/// them as the red, green and blue sources.
pub struct Channels {
    pub i: usize,
    pub images: Vec<Image>,
}

/// The fixed table of the six orderings: which of the three images
/// supplies the red, the green and the blue channel of view `v`.
pub open spec fn order_for(v: int) -> (int, int, int) {
    if v == 0 {
        (1int, 0int, 2int)
    } else if v == 1 {
        (2int, 0int, 1int)
    } else if v == 2 {
        (0int, 1int, 2int)
    } else if v == 3 {
        (2int, 1int, 0int)
    } else if v == 4 {
        (0int, 2int, 1int)
    } else {
        (1int, 2int, 0int)
    }
}

impl Channels {
    /// Wraps the three source images; the cursor starts on the
    /// first ordering.
    pub fn new(images: Vec<Image>) -> (s: Channels)
        requires
            images.len() == 3,
        ensures
            s.i == 0,
            s.images == images,
    {
        Channels { i: 0, images }
    }
}

impl ViewChange for Channels {
    open spec fn inv(&self) -> bool {
        &&& self.images.len() == 3
        &&& self.i < 6
        &&& forall|k: int| 0 <= k < 3 ==> (#[trigger] self.images[k]).wf()
    }

    open spec fn views_spec(&self) -> int {
        6
    }

    open spec fn view_spec(&self) -> int {
        self.i as int
    }

    open spec fn with_view_spec(&self, i: int) -> Channels {
        Channels { i: i as usize, images: self.images }
    }

    proof fn lemma_view_in_range(&self) {
    }

    proof fn lemma_with_view(&self, i: int) {
    }

    fn current_view(&self) -> (r: usize) {
        self.i
    }

    fn n_views(&self) -> (r: usize) {
        6
    }

    fn set_view(&mut self, i: usize) {
        self.i = i;
    }
}

impl SceneT for Channels {
    open spec fn compat(&self, p: Processor) -> bool {
        forall|k: int| 0 <= k < 3 ==> (#[trigger] self.images[k]).ok_for(p)
    }

    open spec fn toggled_spec(&self) -> Channels {
        *self
    }

    open spec fn image_ok(&self, p: Processor, t: Texture) -> bool {
        &&& t.data.len() == p.n_pixels()
        &&& ({
            let (a, b, c) = order_for(self.view_spec());
            forall|j: int|
                0 <= j < t.data.len() ==> t.data[j] == mix_pixel(
                    self.images[a].px(j),
                    self.images[b].px(j),
                    self.images[c].px(j),
                )
        })
    }

    proof fn lemma_toggled(&self) {
    }

    fn toggle(&mut self) {
    }

    fn image(&self, p: &mut Processor) -> (img: Image) {
        if self.i == 0 {
            Image::channels(p, &self.images[1], &self.images[0], &self.images[2])
        } else if self.i == 1 {
            Image::channels(p, &self.images[2], &self.images[0], &self.images[1])
        } else if self.i == 2 {
            Image::channels(p, &self.images[0], &self.images[1], &self.images[2])
        } else if self.i == 3 {
            Image::channels(p, &self.images[2], &self.images[1], &self.images[0])
        } else if self.i == 4 {
            Image::channels(p, &self.images[0], &self.images[2], &self.images[1])
        } else if self.i == 5 {
            Image::channels(p, &self.images[1], &self.images[2], &self.images[0])
        } else {
            proof {
                assert(false);
            }
            self.images[0].uscale(p, ONE)
        }
    }
}

} // verus!
