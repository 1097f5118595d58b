//! The integer side of a small ray tracer's output: the plain-text PPM
//! encoding of an image and the row-major order in which a render emits
//! its pixels.
use vstd::prelude::*;

pub mod ppm;
pub mod render;

verus! {

/// The image height that a camera renders, given the one derived from its
/// width and aspect ratio: at least one row.
pub fn clamp_image_height(h: u32) -> (r: u32)
    ensures
        r == if h < 1 { 1 } else { h },
{
    if h < 1 {
        1
    } else {
        h
    }
}

} // verus!
