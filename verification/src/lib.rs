//! A minimal image-viewer library: fits decoded images into a fixed-size
//! framebuffer with aspect-preserving scaling and centering, and drives
//! navigation through an ordered set of image paths.

use vstd::prelude::*;

pub mod compositor;
pub mod fit;
pub mod navigator;

pub use compositor::Bitmap;
pub use compositor::composite;
pub use fit::compute_fit;
pub use fit::FitRect;
pub use navigator::Navigator;

verus! {

/// Width of the display surface, in pixels.
pub const WIDTH: usize = 800;

/// Height of the display surface, in pixels.
pub const HEIGHT: usize = 600;

} // verus!
