//! The decisions of a sphere ray tracer, on plain integers: which root of a
//! sphere and which object a ray query accepts, when a traced path ends and
//! how, how an image is filled pixel by pixel, and how held camera keys move
//! the camera.
use vstd::prelude::*;

pub mod buffer;
pub mod controls;
pub mod hit;
pub mod integrator;

verus! {

} // verus!
