use vstd::prelude::*;

use crate::vector::{Vec3, COORD_LIMIT};

verus! {

/// Sub-units in one world unit: coordinates are integers in these units.
pub const UNIT: i64 = 600;

/// Width of the image in pixels.
pub const WIDTH: usize = 600;

/// Height of the image in pixels.
pub const HEIGHT: usize = 600;

/// Side of the square viewport, one world unit.
pub const VIEWPORT_SIZE: i64 = UNIT;

/// Distance from the camera to the projection plane, one world unit.
pub const PROJECTION_PLANE_Z: i64 = UNIT;

/// `(px, py)` lies on the canvas, whose origin is the image centre, with `x`
/// growing rightwards and `y` upwards.
pub open spec fn on_canvas(px: int, py: int) -> bool {
    -(WIDTH as int / 2) <= px < WIDTH as int / 2 && -(HEIGHT as int / 2) <= py < HEIGHT as int / 2
}

/// The horizontal component of the view direction through pixel column `px`.
pub open spec fn viewport_x(px: int) -> int {
    px * VIEWPORT_SIZE / WIDTH as int
}

/// The vertical component of the view direction through pixel row `py`.
pub open spec fn viewport_y(py: int) -> int {
    py * VIEWPORT_SIZE / HEIGHT as int
}

/// The (unnormalised) direction from the camera through pixel `(px, py)`.
pub open spec fn viewport_direction(px: int, py: int) -> Vec3 {
    Vec3 { x: viewport_x(px) as i64, y: viewport_y(py) as i64, z: PROJECTION_PLANE_Z }
}

/// The direction from the camera at the origin through canvas pixel
/// `(px, py)`, on the projection plane.
pub fn canvas_to_viewport(px: i64, py: i64) -> (d: Vec3)
    requires
        on_canvas(px as int, py as int),
    ensures
        d == viewport_direction(px as int, py as int),
        d.x == viewport_x(px as int),
        d.y == viewport_y(py as int),
        d.z == PROJECTION_PLANE_Z,
        d.wf(),
        !d.is_zero(),
{
    let x = px * VIEWPORT_SIZE / WIDTH as i64;
    let y = py * VIEWPORT_SIZE / HEIGHT as i64;
    Vec3 { x, y, z: PROJECTION_PLANE_Z }
}

/// The projection is linear in the pixel coordinates: scaling a coordinate
/// by `k` scales that component of the direction by `k`, so doubling `px`
/// doubles the `x` component; pixel `(0, 0)` looks straight down the `z`
/// axis at the projection plane.
pub proof fn lemma_projection_linear(px: int, py: int, k: int)
    ensures
        viewport_x(k * px) == k * viewport_x(px),
        viewport_y(k * py) == k * viewport_y(py),
        viewport_x(2 * px) == 2 * viewport_x(px),
        viewport_direction(0, 0) == (Vec3 { x: 0, y: 0, z: PROJECTION_PLANE_Z }),
{
    assert(k * px * 600 / 600 == k * px) by (nonlinear_arith);
    assert(px * 600 / 600 == px) by (nonlinear_arith);
    assert(k * py * 600 / 600 == k * py) by (nonlinear_arith);
    assert(py * 600 / 600 == py) by (nonlinear_arith);
    assert(2 * px * 600 / 600 == 2 * px) by (nonlinear_arith);
}

} // verus!
