//! Scenes: the navigable units of the presentation.
//!
//! Every scene keeps a current-view cursor inside `0 .. n_views()`
//! and synthesizes the image its current view displays.  The two
//! traits split the behavior the way the engine uses it: view-cursor
//! navigation, and image synthesis with the secondary mode switch.

use vstd::prelude::*;

pub mod channels;
pub mod combination;
pub mod movement;
pub mod permutation;
pub mod plain;

use crate::image::Image;
use crate::process::Processor;
use crate::texture::Texture;

use self::channels::Channels;
use self::combination::Combination;
use self::movement::Movement;
use self::permutation::Permutation;
use self::plain::Plain;

verus! {

/// View-cursor navigation, shared by every scene.
pub trait ViewChange: Sized {
    /// The scene's internal consistency: its cursor is in range and
    /// its images are well formed.
    spec fn inv(&self) -> bool;

    /// How many views the scene offers.
    spec fn views_spec(&self) -> int;

    /// The view the cursor rests on.
    spec fn view_spec(&self) -> int;

    /// The same scene with its cursor moved to view `i`; nothing
    /// else changes.
    spec fn with_view_spec(&self, i: int) -> Self;

    /// Law: a consistent scene offers at least one view and keeps
    /// its cursor strictly inside `0 .. n_views()`.
    proof fn lemma_view_in_range(&self)
        requires
            self.inv(),
        ensures
            0 <= self.view_spec() < self.views_spec(),
            self.views_spec() <= usize::MAX,
    ;

    /// Law: moving the cursor to a view in range keeps the scene
    /// consistent, lands the cursor there and changes no view count.
    proof fn lemma_with_view(&self, i: int)
        requires
            self.inv(),
            0 <= i < self.views_spec(),
        ensures
            self.with_view_spec(i).inv(),
            self.with_view_spec(i).view_spec() == i,
            self.with_view_spec(i).views_spec() == self.views_spec(),
    ;

    fn current_view(&self) -> (r: usize)
        requires
            self.inv(),
        ensures
            r == self.view_spec(),
    ;

    fn n_views(&self) -> (r: usize)
        requires
            self.inv(),
        ensures
            r == self.views_spec(),
    ;

    /// Moves the cursor to view `i`; the caller validates the index.
    fn set_view(&mut self, i: usize)
        requires
            old(self).inv(),
            i < old(self).views_spec(),
        ensures
            *final(self) == old(self).with_view_spec(i as int),
    ;
}

/// Image synthesis and the secondary mode switch.
pub trait SceneT: ViewChange {
    /// Every image the scene holds can feed operations on the
    /// processor's grid.
    spec fn compat(&self, p: Processor) -> bool;

    /// The scene after its secondary mode switch; a variant without
    /// one leaves the scene as it is.
    spec fn toggled_spec(&self) -> Self;

    /// What the synthesized texture may hold, given the processor
    /// the scene draws through.  For every variant but the one with
    /// stochastic content this pins the pixels exactly.
    spec fn image_ok(&self, p: Processor, t: Texture) -> bool;

    /// Law: the mode switch touches neither consistency nor the
    /// view cursor.
    proof fn lemma_toggled(&self)
        requires
            self.inv(),
        ensures
            self.toggled_spec().inv(),
            self.toggled_spec().views_spec() == self.views_spec(),
            self.toggled_spec().view_spec() == self.view_spec(),
    ;

    /// Flips the scene's secondary mode, where it has one.
    fn toggle(&mut self)
        requires
            old(self).inv(),
        ensures
            *final(self) == old(self).toggled_spec(),
    ;

    /// Synthesizes the image the current view displays.  The scene
    /// itself never changes; the processor only compiles programs.
    fn image(&self, p: &mut Processor) -> (img: Image)
        requires
            self.inv(),
            old(p).wf(),
            self.compat(*old(p)),
        ensures
            final(p).wf(),
            final(p).width == old(p).width,
            final(p).height == old(p).height,
            img.full_for(*old(p)),
            self.image_ok(*old(p), *img.texture),
    ;

    /// Advances the cursor by one view; at the last view the call
    /// leaves the scene unchanged.
    fn next_view(&mut self)
        requires
            old(self).inv(),
        ensures
            *final(self) == (if old(self).view_spec() + 1 < old(self).views_spec() {
                old(self).with_view_spec(old(self).view_spec() + 1)
            } else {
                *old(self)
            }),
    {
        proof {
            self.lemma_view_in_range();
        }
        let i = self.current_view() + 1;
        if i < self.n_views() {
            self.set_view(i);
        }
    }

    /// Retreats the cursor by one view; at the first view the call
    /// leaves the scene unchanged.
    fn previous_view(&mut self)
        requires
            old(self).inv(),
        ensures
            *final(self) == (if old(self).view_spec() > 0 {
                old(self).with_view_spec(old(self).view_spec() - 1)
            } else {
                *old(self)
            }),
    {
        proof {
            self.lemma_view_in_range();
        }
        if self.current_view() > 0 {
            let i = self.current_view() - 1;
            self.set_view(i);
        }
    }
}


/// The closed set of scene variants, matched exhaustively at every
/// call.
pub enum Scene {
    Channels(Channels),
    Combination(Combination),
    Movement(Movement),
    Permutation(Permutation),
    Plain(Plain),
}

impl Scene {
    /// A channel-recombination scene over three images.
    pub fn channels(images: Vec<Image>) -> (s: Scene)
        requires
            images.len() == 3,
        ensures
            ({
                &&& s matches Scene::Channels(c)
                &&& c.i == 0
                &&& c.images == images
            }),
    {
        Scene::Channels(Channels::new(images))
    }

    /// A blend scene over two images with `n` views.
    pub fn combination(n: usize, image1: Image, image2: Image) -> (s: Scene)
        requires
            2 <= n <= 1_000_000,
        ensures
            ({
                &&& s matches Scene::Combination(c)
                &&& c.i == n - 1
                &&& c.n == n
                &&& c.image1 == image1
                &&& c.image2 == image2
            }),
    {
        Scene::Combination(Combination::new(n, image1, image2))
    }

    /// A movement scene around a mask image.
    pub fn movement(p: &mut Processor, mask: Image) -> (s: Scene)
        requires
            old(p).wf(),
            mask.ok_for(*old(p)),
        ensures
            final(p).wf(),
            final(p).width == old(p).width,
            final(p).height == old(p).height,
            ({
                &&& s matches Scene::Movement(m)
                &&& m.inv()
                &&& m.compat(*final(p))
                &&& m.mask == mask
                &&& m.shift == false
            }),
    {
        Scene::Movement(Movement::new(p, mask))
    }

    /// A permutation scene over a list of images.
    pub fn permutation(images: Vec<Image>, permutation: (usize, usize, usize)) -> (s: Scene)
        requires
            images.len() >= 1,
            crate::matrix::valid_perm(
                permutation.0 as int,
                permutation.1 as int,
                permutation.2 as int,
            ),
        ensures
            ({
                &&& s matches Scene::Permutation(q)
                &&& q.i == 0
                &&& q.views == images
                &&& q.permutation == permutation
            }),
    {
        Scene::Permutation(Permutation::new(images, permutation))
    }

    /// A plain scene around one image.
    pub fn plain(image: Image) -> (s: Scene)
        ensures
            ({
                &&& s matches Scene::Plain(q)
                &&& q.image == image
            }),
    {
        Scene::Plain(Plain::new(image))
    }
}

impl ViewChange for Scene {
    open spec fn inv(&self) -> bool {
        match self {
            Scene::Channels(c) => c.inv(),
            Scene::Combination(c) => c.inv(),
            Scene::Movement(c) => c.inv(),
            Scene::Permutation(c) => c.inv(),
            Scene::Plain(c) => c.inv(),
        }
    }

    open spec fn views_spec(&self) -> int {
        match self {
            Scene::Channels(c) => c.views_spec(),
            Scene::Combination(c) => c.views_spec(),
            Scene::Movement(c) => c.views_spec(),
            Scene::Permutation(c) => c.views_spec(),
            Scene::Plain(c) => c.views_spec(),
        }
    }

    open spec fn view_spec(&self) -> int {
        match self {
            Scene::Channels(c) => c.view_spec(),
            Scene::Combination(c) => c.view_spec(),
            Scene::Movement(c) => c.view_spec(),
            Scene::Permutation(c) => c.view_spec(),
            Scene::Plain(c) => c.view_spec(),
        }
    }

    open spec fn with_view_spec(&self, i: int) -> Scene {
        match self {
            Scene::Channels(c) => Scene::Channels(c.with_view_spec(i)),
            Scene::Combination(c) => Scene::Combination(c.with_view_spec(i)),
            Scene::Movement(c) => Scene::Movement(c.with_view_spec(i)),
            Scene::Permutation(c) => Scene::Permutation(c.with_view_spec(i)),
            Scene::Plain(c) => Scene::Plain(c.with_view_spec(i)),
        }
    }

    proof fn lemma_view_in_range(&self) {
        match self {
            Scene::Channels(c) => c.lemma_view_in_range(),
            Scene::Combination(c) => c.lemma_view_in_range(),
            Scene::Movement(c) => c.lemma_view_in_range(),
            Scene::Permutation(c) => c.lemma_view_in_range(),
            Scene::Plain(c) => c.lemma_view_in_range(),
        }
    }

    proof fn lemma_with_view(&self, i: int) {
        match self {
            Scene::Channels(c) => c.lemma_with_view(i),
            Scene::Combination(c) => c.lemma_with_view(i),
            Scene::Movement(c) => c.lemma_with_view(i),
            Scene::Permutation(c) => c.lemma_with_view(i),
            Scene::Plain(c) => c.lemma_with_view(i),
        }
    }

    fn current_view(&self) -> (r: usize) {
        match self {
            Scene::Channels(c) => c.current_view(),
            Scene::Combination(c) => c.current_view(),
            Scene::Movement(c) => c.current_view(),
            Scene::Permutation(c) => c.current_view(),
            Scene::Plain(c) => c.current_view(),
        }
    }

    fn n_views(&self) -> (r: usize) {
        match self {
            Scene::Channels(c) => c.n_views(),
            Scene::Combination(c) => c.n_views(),
            Scene::Movement(c) => c.n_views(),
            Scene::Permutation(c) => c.n_views(),
            Scene::Plain(c) => c.n_views(),
        }
    }

    fn set_view(&mut self, i: usize) {
        match self {
            Scene::Channels(c) => c.set_view(i),
            Scene::Combination(c) => c.set_view(i),
            Scene::Movement(c) => c.set_view(i),
            Scene::Permutation(c) => c.set_view(i),
            Scene::Plain(c) => c.set_view(i),
        }
    }
}

impl SceneT for Scene {
    open spec fn compat(&self, p: Processor) -> bool {
        match self {
            Scene::Channels(c) => c.compat(p),
            Scene::Combination(c) => c.compat(p),
            Scene::Movement(c) => c.compat(p),
            Scene::Permutation(c) => c.compat(p),
            Scene::Plain(c) => c.compat(p),
        }
    }

    open spec fn toggled_spec(&self) -> Scene {
        match self {
            Scene::Channels(c) => Scene::Channels(c.toggled_spec()),
            Scene::Combination(c) => Scene::Combination(c.toggled_spec()),
            Scene::Movement(c) => Scene::Movement(c.toggled_spec()),
            Scene::Permutation(c) => Scene::Permutation(c.toggled_spec()),
            Scene::Plain(c) => Scene::Plain(c.toggled_spec()),
        }
    }

    open spec fn image_ok(&self, p: Processor, t: Texture) -> bool {
        match self {
            Scene::Channels(c) => c.image_ok(p, t),
            Scene::Combination(c) => c.image_ok(p, t),
            Scene::Movement(c) => c.image_ok(p, t),
            Scene::Permutation(c) => c.image_ok(p, t),
            Scene::Plain(c) => c.image_ok(p, t),
        }
    }

    proof fn lemma_toggled(&self) {
        match self {
            Scene::Channels(c) => c.lemma_toggled(),
            Scene::Combination(c) => c.lemma_toggled(),
            Scene::Movement(c) => c.lemma_toggled(),
            Scene::Permutation(c) => c.lemma_toggled(),
            Scene::Plain(c) => c.lemma_toggled(),
        }
    }

    fn toggle(&mut self) {
        match self {
            Scene::Channels(c) => c.toggle(),
            Scene::Combination(c) => c.toggle(),
            Scene::Movement(c) => c.toggle(),
            Scene::Permutation(c) => c.toggle(),
            Scene::Plain(c) => c.toggle(),
        }
    }

    fn image(&self, p: &mut Processor) -> (img: Image) {
        match self {
            Scene::Channels(c) => c.image(p),
            Scene::Combination(c) => c.image(p),
            Scene::Movement(c) => c.image(p),
            Scene::Permutation(c) => c.image(p),
            Scene::Plain(c) => c.image(p),
        }
    }
}

} // verus!
