use vstd::prelude::*;

verus! {

/// Largest magnitude of a coordinate that the geometry accepts; it keeps every
/// exact comparison of hit parameters within 128-bit arithmetic.
pub const COORD_LIMIT: i64 = 8192;

/// A point or direction in space, in integer sub-units.
#[derive(Clone, Copy, Debug, PartialEq, Eq, Structural)]
pub struct Vec3 {
    pub x: i64,
    pub y: i64,
    pub z: i64,
}

pub open spec fn coord_ok(c: int) -> bool {
    -COORD_LIMIT <= c <= COORD_LIMIT
}

impl Vec3 {
    /// Every coordinate lies within `COORD_LIMIT`.
    pub open spec fn wf(self) -> bool {
        coord_ok(self.x as int) && coord_ok(self.y as int) && coord_ok(self.z as int)
    }

    pub open spec fn is_zero(self) -> bool {
        self.x == 0 && self.y == 0 && self.z == 0
    }

    pub fn new(x: i64, y: i64, z: i64) -> (v: Vec3)
        ensures
            v == (Vec3 { x, y, z }),
    {
        Vec3 { x, y, z }
    }
}

/// Dot product of two vectors, over the integers.
pub open spec fn dot(a: Vec3, b: Vec3) -> int {
    a.x * b.x + a.y * b.y + a.z * b.z
}

} // verus!
