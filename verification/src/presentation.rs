//! The presentation: an ordered sequence of scenes with a cursor,
//! and view-state carryover between scenes.
//!
//! Moving to a neighboring scene whose keep-view flag is set copies
//! the view index of the scene being left into the scene being
//! entered, clamped into the target's view range; without the flag
//! the target keeps whatever view it already had.  At either end the
//! move is a no-op.  All other behavior is forwarded to the active
//! scene.

use vstd::prelude::*;

use crate::image::Image;
use crate::process::Processor;
use crate::scene::{Scene, SceneT, ViewChange};

verus! {

/// An ordered, non-empty sequence of scenes, each with its keep-view
/// flag, and the index of the active scene.
pub struct Presentation {
    pub i: usize,
    pub scenes: Vec<(Scene, bool)>,
}

/// The view the target scene shows after a carryover from `src`:
/// the source's view index, clamped into the target's range.
pub open spec fn carried_view(src: Scene, tgt: Scene) -> int {
    if src.view_spec() < tgt.views_spec() {
        src.view_spec()
    } else {
        tgt.views_spec() - 1
    }
}

impl Presentation {
    /// The cursor is in range and every scene is consistent.
    pub open spec fn inv(&self) -> bool {
        &&& self.scenes.len() >= 1
        &&& self.i < self.scenes.len()
        &&& forall|k: int| 0 <= k < self.scenes.len() ==> (#[trigger] self.scenes[k]).0.inv()
    }

    /// Every scene can draw through the processor.
    pub open spec fn compat(&self, p: Processor) -> bool {
        forall|k: int| 0 <= k < self.scenes.len() ==> (#[trigger] self.scenes[k]).0.compat(p)
    }

    /// The active scene.
    pub open spec fn scene_spec(&self) -> Scene {
        self.scenes[self.i as int].0
    }

    /// The scene list after a move to index `j`: with the target's
    /// keep-view flag set, the target's cursor takes the carried
    /// view; otherwise nothing changes.
    pub open spec fn scenes_after_move(&self, j: int) -> Seq<(Scene, bool)> {
        if self.scenes[j].1 {
            self.scenes@.update(
                j,
                (self.scenes[j].0.with_view_spec(carried_view(self.scene_spec(), self.scenes[j].0)),
                self.scenes[j].1),
            )
        } else {
            self.scenes@
        }
    }

    /// Wraps a fixed script of scenes; the first scene is active.
    pub fn new(scenes: Vec<(Scene, bool)>) -> (r: Presentation)
        requires
            scenes.len() >= 1,
            forall|k: int| 0 <= k < scenes.len() ==> (#[trigger] scenes[k]).0.inv(),
        ensures
            r.inv(),
            r.i == 0,
            r.scenes == scenes,
    {
        Presentation { i: 0, scenes }
    }

    /// Moves the cursor to the next scene, carrying the view index
    /// over when the target keeps views; at the last scene the call
    /// changes nothing.
    pub fn next_scene(&mut self)
        requires
            old(self).inv(),
        ensures
            final(self).inv(),
            old(self).i + 1 < old(self).scenes.len() ==> final(self).i == old(self).i + 1
                && final(self).scenes@ == old(self).scenes_after_move(old(self).i + 1),
            old(self).i + 1 >= old(self).scenes.len() ==> *final(self) == *old(self),
    {
        let j = self.i + 1;
        if j < self.scenes.len() {
            let keep = self.scenes[j].1;
            if keep {
                proof {
                    self.scenes[self.i as int].0.lemma_view_in_range();
                    self.scenes[j as int].0.lemma_view_in_range();
                }
                let v = self.scenes[self.i].0.current_view();
                let n = self.scenes[j].0.n_views();
                let v2 = if v < n {
                    v
                } else {
                    n - 1
                };
                self.scenes[j].0.set_view(v2);
                proof {
                    old(self).scenes[j as int].0.lemma_with_view(v2 as int);
                }
            }
            self.i = j;
            proof {
                assert forall|k: int| 0 <= k < self.scenes.len() implies (
                #[trigger] self.scenes[k]).0.inv() by {}
            }
        }
    }

    /// Moves the cursor to the previous scene, carrying the view
    /// index over when the target keeps views; at the first scene
    /// the call changes nothing.
    pub fn previous_scene(&mut self)
        requires
            old(self).inv(),
        ensures
            final(self).inv(),
            old(self).i >= 1 ==> final(self).i == old(self).i - 1 && final(self).scenes@ == old(
                self,
            ).scenes_after_move(old(self).i - 1),
            old(self).i == 0 ==> *final(self) == *old(self),
    {
        if self.i >= 1 {
            let j = self.i - 1;
            let keep = self.scenes[j].1;
            if keep {
                proof {
                    self.scenes[self.i as int].0.lemma_view_in_range();
                    self.scenes[j as int].0.lemma_view_in_range();
                }
                let v = self.scenes[self.i].0.current_view();
                let n = self.scenes[j].0.n_views();
                let v2 = if v < n {
                    v
                } else {
                    n - 1
                };
                self.scenes[j].0.set_view(v2);
                proof {
                    old(self).scenes[j as int].0.lemma_with_view(v2 as int);
                }
            }
            self.i = j;
            proof {
                assert forall|k: int| 0 <= k < self.scenes.len() implies (
                #[trigger] self.scenes[k]).0.inv() by {}
            }
        }
    }

    /// The active scene's current view.
    pub fn current_view(&self) -> (r: usize)
        requires
            self.inv(),
        ensures
            r == self.scene_spec().view_spec(),
    {
        self.scenes[self.i].0.current_view()
    }

    /// The active scene's view count.
    pub fn n_views(&self) -> (r: usize)
        requires
            self.inv(),
        ensures
            r == self.scene_spec().views_spec(),
    {
        self.scenes[self.i].0.n_views()
    }

    /// Advances the active scene's view cursor; a no-op at its last
    /// view.
    pub fn next_view(&mut self)
        requires
            old(self).inv(),
        ensures
            final(self).inv(),
            final(self).i == old(self).i,
            final(self).scenes@ == old(self).scenes@.update(
                old(self).i as int,
                (
                    (if old(self).scene_spec().view_spec() + 1 < old(
                        self,
                    ).scene_spec().views_spec() {
                        old(self).scene_spec().with_view_spec(
                            old(self).scene_spec().view_spec() + 1,
                        )
                    } else {
                        old(self).scene_spec()
                    }),
                    old(self).scenes[old(self).i as int].1,
                ),
            ),
    {
        self.scenes[self.i].0.next_view();
        proof {
            if old(self).scene_spec().view_spec() + 1 < old(self).scene_spec().views_spec() {
                old(self).scene_spec().lemma_with_view(old(self).scene_spec().view_spec() + 1);
            }
            assert forall|k: int| 0 <= k < self.scenes.len() implies (
            #[trigger] self.scenes[k]).0.inv() by {}
        }
    }

    /// Retreats the active scene's view cursor; a no-op at its first
    /// view.
    pub fn previous_view(&mut self)
        requires
            old(self).inv(),
        ensures
            final(self).inv(),
            final(self).i == old(self).i,
            final(self).scenes@ == old(self).scenes@.update(
                old(self).i as int,
                (
                    (if old(self).scene_spec().view_spec() > 0 {
                        old(self).scene_spec().with_view_spec(
                            old(self).scene_spec().view_spec() - 1,
                        )
                    } else {
                        old(self).scene_spec()
                    }),
                    old(self).scenes[old(self).i as int].1,
                ),
            ),
    {
        self.scenes[self.i].0.previous_view();
        proof {
            if old(self).scene_spec().view_spec() > 0 {
                old(self).scene_spec().lemma_view_in_range();
                old(self).scene_spec().lemma_with_view(old(self).scene_spec().view_spec() - 1);
            }
            assert forall|k: int| 0 <= k < self.scenes.len() implies (
            #[trigger] self.scenes[k]).0.inv() by {}
        }
    }

    /// Flips the active scene's secondary mode.
    pub fn toggle(&mut self)
        requires
            old(self).inv(),
        ensures
            final(self).inv(),
            final(self).i == old(self).i,
            final(self).scenes@ == old(self).scenes@.update(
                old(self).i as int,
                (old(self).scene_spec().toggled_spec(), old(self).scenes[old(self).i as int].1),
            ),
    {
        self.scenes[self.i].0.toggle();
        proof {
            old(self).scene_spec().lemma_toggled();
            assert forall|k: int| 0 <= k < self.scenes.len() implies (
            #[trigger] self.scenes[k]).0.inv() by {}
        }
    }

    /// Synthesizes the active scene's current image.
    pub fn image(&self, p: &mut Processor) -> (img: Image)
        requires
            self.inv(),
            old(p).wf(),
            self.compat(*old(p)),
        ensures
            final(p).wf(),
            final(p).width == old(p).width,
            final(p).height == old(p).height,
            img.full_for(*old(p)),
            self.scene_spec().image_ok(*old(p), *img.texture),
    {
        self.scenes[self.i].0.image(p)
    }
}

} // verus!
