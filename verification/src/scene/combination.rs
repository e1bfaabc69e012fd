//! A scene that blends two images, one blend weight per view.

use vstd::prelude::*;

use crate::fixed::ONE;
use crate::image::Image;
use crate::pixel::add_spec;
use crate::matrix::scaled_pixel;
use crate::process::Processor;
use crate::texture::Texture;

use super::{SceneT, ViewChange};

verus! {

/// Two images and `n` views; view `i` blends them with the weight
/// `i / (n - 1)`, capped just short of one.  Construction starts at
/// the last view: the second image fully revealed.
pub struct Combination {
    pub i: usize,
    pub n: usize,
    pub image1: Image,
    pub image2: Image,
}

/// The blend weight of view `i` among `n`, in fixed-point units:
/// `i / (n - 1)`, capped at `0.995`.
pub open spec fn blend_scale(i: int, n: int) -> int {
    let raw = (i * (ONE as int)) / (n - 1);
    if raw > 995_000 {
        995_000
    } else {
        raw
    }
}

/// The blend weight stays inside `0 ..= 0.995`, so both weights of
/// the blend are valid scale factors.
pub proof fn lemma_blend_scale_range(i: int, n: int)
    requires
        0 <= i < n,
        n >= 2,
    ensures
        0 <= blend_scale(i, n) <= 995_000,
{
    let prod = i * (ONE as int);
    assert(i * (ONE as int) >= 0) by (nonlinear_arith)
        requires
            i >= 0,
    ;
    vstd::arithmetic::div_mod::lemma_fundamental_div_mod(prod, n - 1);
    vstd::arithmetic::div_mod::lemma_mod_bound(prod, n - 1);
    let q = prod / (n - 1);
    assert(q < 0 ==> (n - 1) * q <= -(n - 1)) by (nonlinear_arith)
        requires
            n >= 2,
    ;
}

impl Combination {
    /// Wraps the two images; the cursor starts on the last view,
    /// where the second image is fully revealed.
    pub fn new(n: usize, image1: Image, image2: Image) -> (s: Combination)
        requires
            2 <= n <= 1_000_000,
        ensures
            s.i == n - 1,
            s.n == n,
            s.image1 == image1,
            s.image2 == image2,
    {
        Combination { i: n - 1, n, image1, image2 }
    }
}

impl ViewChange for Combination {
    open spec fn inv(&self) -> bool {
        &&& 2 <= self.n <= 1_000_000
        &&& self.i < self.n
        &&& self.image1.wf()
        &&& self.image2.wf()
    }

    open spec fn views_spec(&self) -> int {
        self.n as int
    }

    open spec fn view_spec(&self) -> int {
        self.i as int
    }

    open spec fn with_view_spec(&self, i: int) -> Combination {
        Combination { i: i as usize, n: self.n, image1: self.image1, image2: self.image2 }
    }

    proof fn lemma_view_in_range(&self) {
    }

    proof fn lemma_with_view(&self, i: int) {
    }

    fn current_view(&self) -> (r: usize) {
        self.i
    }

    fn n_views(&self) -> (r: usize) {
        self.n
    }

    fn set_view(&mut self, i: usize) {
        self.i = i;
    }
}

impl SceneT for Combination {
    open spec fn compat(&self, p: Processor) -> bool {
        self.image1.ok_for(p) && self.image2.ok_for(p)
    }

    open spec fn toggled_spec(&self) -> Combination {
        *self
    }

    open spec fn image_ok(&self, p: Processor, t: Texture) -> bool {
        &&& t.data.len() == p.n_pixels()
        &&& ({
            let s = blend_scale(self.view_spec(), self.views_spec());
            forall|j: int|
                0 <= j < t.data.len() ==> t.data[j] == add_spec(
                    scaled_pixel(
                        (ONE - s) as u64,
                        (ONE - s) as u64,
                        (ONE - s) as u64,
                        self.image1.px(j),
                    ),
                    scaled_pixel(s as u64, s as u64, s as u64, self.image2.px(j)),
                )
        })
    }

    proof fn lemma_toggled(&self) {
    }

    fn toggle(&mut self) {
    }

    fn image(&self, p: &mut Processor) -> (img: Image) {
        proof {
            assert((self.i as int) * (ONE as int) <= 1_000_000_000_000int) by (nonlinear_arith)
                requires
                    self.i <= 1_000_000usize,
            ;
            lemma_blend_scale_range(self.i as int, self.n as int);
        }
        let raw: u64 = ((self.i as u64) * ONE) / ((self.n - 1) as u64);
        let s: u64 = if raw > 995_000 {
            995_000
        } else {
            raw
        };
        let a = self.image1.uscale(p, ONE - s);
        let b = self.image2.uscale(p, s);
        Image::add(p, &a, &b)
    }
}


/// Law: at the last view the blend weight is exactly the cap, so a
/// freshly built scene reveals the second image at weight `0.995`
/// and keeps the first at `0.005`.
pub proof fn lemma_blend_initial(n: int)
    requires
        2 <= n <= 1_000_000,
    ensures
        blend_scale(n - 1, n) == 995_000,
{
    vstd::arithmetic::div_mod::lemma_div_multiples_vanish(ONE as int, n - 1);
    assert((n - 1) * (ONE as int) == (ONE as int) * (n - 1)) by (nonlinear_arith);
}

} // verus!