//! Ray casting of a small scene of spheres from a single viewpoint.
//!
//! Geometry is exact integer arithmetic: coordinates are integers in
//! sub-units (`camera::UNIT` to a world unit), the bounds of a trace are
//! rationals, and each hit is held exactly as `(base +- sqrt(disc)) / den`,
//! compared with others by sign cases and squaring.
use vstd::prelude::*;

pub mod camera;
pub mod canvas;
pub mod color;
pub mod hit;
pub mod param;
pub mod render;
pub mod sphere;
pub mod vector;
