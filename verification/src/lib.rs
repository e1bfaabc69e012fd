//! A verified engine for an interactive color-image presentation.
//!
//! The engine applies colorimetric and compositing transforms to
//! fixed-point image buffers, caches one compiled program per named
//! operation, and drives a navigable sequence of scenes, each offering
//! one or more selectable views.  All pixel arithmetic is exact
//! fixed-point integer arithmetic; the window, the files and the
//! graphics device live outside the library.

pub mod files;
pub mod fixed;
pub mod gamma;
pub mod image;
pub mod matrix;
pub mod pixel;
pub mod presentation;
pub mod process;
pub mod recipes;
pub mod rng;
pub mod scene;
pub mod srgb;
pub mod texture;
