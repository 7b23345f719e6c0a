use vstd::prelude::*;

use crate::color::Color;
use crate::hit::{hit_lt, Hit};
use crate::hit::lemma_mul_bound;
use crate::vector::{coord_ok, dot, Vec3, COORD_LIMIT};

verus! {

/// A sphere of the scene, with the colour it is drawn in.
#[derive(Clone, Copy, Debug, PartialEq, Eq, Structural)]
pub struct Sphere {
    pub center: Vec3,
    pub radius: i64,
    pub color: Color,
}

impl Sphere {
    /// The centre lies within the coordinate bounds and the radius is positive.
    pub open spec fn wf(self) -> bool {
        self.center.wf() && 0 < self.radius <= COORD_LIMIT
    }
}

/// `(origin - center) . direction`.
pub open spec fn offset_dot_dir(origin: Vec3, direction: Vec3, s: Sphere) -> int {
    (origin.x - s.center.x) * direction.x + (origin.y - s.center.y) * direction.y + (origin.z
        - s.center.z) * direction.z
}

/// `(origin - center) . (origin - center)`.
pub open spec fn offset_sq(origin: Vec3, s: Sphere) -> int {
    (origin.x - s.center.x) * (origin.x - s.center.x) + (origin.y - s.center.y) * (origin.y
        - s.center.y) + (origin.z - s.center.z) * (origin.z - s.center.z)
}

/// The coefficients `k1`, `k2`, `k3` of `k1 t^2 + k2 t + k3 = 0`, whose roots
/// are the parameters at which the ray meets the sphere's surface.
pub open spec fn quad_k1(direction: Vec3) -> int {
    dot(direction, direction)
}

pub open spec fn quad_k2(origin: Vec3, direction: Vec3, s: Sphere) -> int {
    2 * offset_dot_dir(origin, direction, s)
}

pub open spec fn quad_k3(origin: Vec3, s: Sphere) -> int {
    offset_sq(origin, s) - s.radius * s.radius
}

pub open spec fn discriminant(origin: Vec3, direction: Vec3, s: Sphere) -> int {
    quad_k2(origin, direction, s) * quad_k2(origin, direction, s) - 4 * quad_k1(direction)
        * quad_k3(origin, s)
}

/// The two exact ray parameters at which the ray meets the sphere,
/// `t1 = (-k2 + sqrt(disc)) / 2k1` and `t2 = (-k2 - sqrt(disc)) / 2k1`;
/// `None` when the discriminant is negative.
pub open spec fn ray_hits(origin: Vec3, direction: Vec3, s: Sphere) -> Option<(Hit, Hit)> {
    let disc = discriminant(origin, direction, s);
    if disc < 0 {
        None
    } else {
        let base = (-quad_k2(origin, direction, s)) as i64;
        let den = (2 * quad_k1(direction)) as i64;
        Some(
            (
                Hit { base, plus: true, disc: disc as i64, den },
                Hit { base, plus: false, disc: disc as i64, den },
            ),
        )
    }
}

/// Sizes of the quadratic's coefficients, and of the products that make
/// them up, for well-formed inputs.
pub proof fn lemma_quad_bounds(origin: Vec3, direction: Vec3, s: Sphere)
    requires
        origin.wf(),
        direction.wf(),
        !direction.is_zero(),
        s.wf(),
    ensures
        -0x400_0000 <= direction.x * direction.x <= 0x400_0000,
        -0x400_0000 <= direction.y * direction.y <= 0x400_0000,
        -0x400_0000 <= direction.z * direction.z <= 0x400_0000,
        -0x800_0000 <= (origin.x - s.center.x) * direction.x <= 0x800_0000,
        -0x800_0000 <= (origin.y - s.center.y) * direction.y <= 0x800_0000,
        -0x800_0000 <= (origin.z - s.center.z) * direction.z <= 0x800_0000,
        -0x1000_0000 <= (origin.x - s.center.x) * (origin.x - s.center.x) <= 0x1000_0000,
        -0x1000_0000 <= (origin.y - s.center.y) * (origin.y - s.center.y) <= 0x1000_0000,
        -0x1000_0000 <= (origin.z - s.center.z) * (origin.z - s.center.z) <= 0x1000_0000,
        -0x400_0000 <= s.radius * s.radius <= 0x400_0000,
        0 < quad_k1(direction) <= 3 * 0x400_0000,
        -0x3000_0000 <= quad_k2(origin, direction, s) <= 0x3000_0000,
        -0x400_0000 <= quad_k3(origin, s) <= 3 * 0x1000_0000,
        -0x4000_0000_0000_0000 <= quad_k2(origin, direction, s) * quad_k2(origin, direction, s)
            <= 0x4000_0000_0000_0000,
        -0x4000_0000_0000_0000 <= 4 * quad_k1(direction) * quad_k3(origin, s)
            <= 0x4000_0000_0000_0000,
        -144 * 0x10_0000_0000_0000 <= discriminant(origin, direction, s) <= 156
            * 0x10_0000_0000_0000,
{
    let lim = 0x2000int;
    let ox = origin.x - s.center.x;
    let oy = origin.y - s.center.y;
    let oz = origin.z - s.center.z;
    let dx = direction.x as int;
    let dy = direction.y as int;
    let dz = direction.z as int;
    assert(coord_ok(dx) && coord_ok(dy) && coord_ok(dz));
    lemma_mul_bound(dx, dx, lim, lim);
    lemma_mul_bound(dy, dy, lim, lim);
    lemma_mul_bound(dz, dz, lim, lim);
    assert(dx * dx >= 0 && dy * dy >= 0 && dz * dz >= 0) by (nonlinear_arith);
    assert(dx != 0 ==> dx * dx > 0) by (nonlinear_arith);
    assert(dy != 0 ==> dy * dy > 0) by (nonlinear_arith);
    assert(dz != 0 ==> dz * dz > 0) by (nonlinear_arith);
    lemma_mul_bound(ox, dx, 2 * lim, lim);
    lemma_mul_bound(oy, dy, 2 * lim, lim);
    lemma_mul_bound(oz, dz, 2 * lim, lim);
    lemma_mul_bound(ox, ox, 2 * lim, 2 * lim);
    lemma_mul_bound(oy, oy, 2 * lim, 2 * lim);
    lemma_mul_bound(oz, oz, 2 * lim, 2 * lim);
    assert(ox * ox >= 0 && oy * oy >= 0 && oz * oz >= 0) by (nonlinear_arith);
    lemma_mul_bound(s.radius as int, s.radius as int, lim, lim);
    assert(s.radius * s.radius >= 0) by (nonlinear_arith);
    let k1 = quad_k1(direction);
    let k2 = quad_k2(origin, direction, s);
    let k3 = quad_k3(origin, s);
    lemma_mul_bound(k2, k2, 0x3000_0000, 0x3000_0000);
    assert(k2 * k2 >= 0) by (nonlinear_arith);
    lemma_mul_bound(4 * k1, k3, 12 * 0x400_0000int, 3 * 0x1000_0000int);
    assert(k1 * k3 >= -(3 * 0x400_0000 * 0x400_0000)) by (nonlinear_arith)
        requires
            0 < k1 <= 3 * 0x400_0000,
            -0x400_0000 <= k3,
    ;
    assert(4 * k1 * k3 == 4 * (k1 * k3)) by (nonlinear_arith);
}

/// The exact parameters at which the ray `origin + t * direction` meets the
/// sphere's surface: `Some((t1, t2))`, `t1` with `+sqrt(disc)` and `t2` with
/// `-sqrt(disc)`, or `None` when it misses.
pub fn intersect_ray_sphere(origin: Vec3, direction: Vec3, sphere: &Sphere) -> (r: Option<(Hit, Hit)>)
    requires
        origin.wf(),
        direction.wf(),
        !direction.is_zero(),
        sphere.wf(),
    ensures
        r == ray_hits(origin, direction, *sphere),
        r is None <==> discriminant(origin, direction, *sphere) < 0,
        match r {
            None => true,
            Some((t1, t2)) => {
                &&& t1.wf() && t2.wf()
                &&& t1.base == -quad_k2(origin, direction, *sphere)
                &&& t1.disc == discriminant(origin, direction, *sphere)
                &&& t1.den == 2 * quad_k1(direction)
            },
        },
{
    proof {
        lemma_quad_bounds(origin, direction, *sphere);
    }
    let ox = origin.x as i128 - sphere.center.x as i128;
    let oy = origin.y as i128 - sphere.center.y as i128;
    let oz = origin.z as i128 - sphere.center.z as i128;
    let dx = direction.x as i128;
    let dy = direction.y as i128;
    let dz = direction.z as i128;
    let rad = sphere.radius as i128;
    let k1 = dx * dx + dy * dy + dz * dz;
    let k2 = 2 * (ox * dx + oy * dy + oz * dz);
    let k3 = ox * ox + oy * oy + oz * oz - rad * rad;
    let disc = k2 * k2 - 4 * k1 * k3;
    if disc < 0 {
        return None;
    }
    let base = (-k2) as i64;
    let den = (2 * k1) as i64;
    Some((Hit { base, plus: true, disc: disc as i64, den }, Hit { base, plus: false, disc: disc as i64, den }))
}

} // verus!

verus! {

/// Each hit `t = (base + s * sqrt(disc)) / den` is an exact root of
/// `k1 t^2 + k2 t + k3 = 0`, the equation of the ray meeting the sphere:
/// multiplied by `den^2`, the equation's left side is
/// `P + Q * s * sqrt(disc)` with `P = k1 (base^2 + disc) + k2 den base + k3 den^2`
/// and `Q = 2 k1 base + k2 den`, and both vanish.
pub proof fn lemma_hits_are_roots(origin: Vec3, direction: Vec3, s: Sphere)
    requires
        origin.wf(),
        direction.wf(),
        !direction.is_zero(),
        s.wf(),
    ensures
        match ray_hits(origin, direction, s) {
            None => true,
            Some((t1, t2)) => {
                let k1 = quad_k1(direction);
                let k2 = quad_k2(origin, direction, s);
                let k3 = quad_k3(origin, s);
                &&& t1.base == t2.base && t1.disc == t2.disc && t1.den == t2.den
                &&& t1.plus && !t2.plus
                &&& k1 * (t1.base * t1.base + t1.disc) + k2 * t1.den * t1.base + k3 * t1.den
                    * t1.den == 0
                &&& 2 * k1 * t1.base + k2 * t1.den == 0
            },
        },
{
    lemma_quad_bounds(origin, direction, s);
    let k1 = quad_k1(direction);
    let k2 = quad_k2(origin, direction, s);
    let k3 = quad_k3(origin, s);
    let disc = discriminant(origin, direction, s);
    if disc >= 0 {
        let base = -k2;
        let den = 2 * k1;
        assert(k1 * (base * base + disc) + k2 * den * base + k3 * den * den == 0) by (nonlinear_arith)
            requires
                disc == k2 * k2 - 4 * k1 * k3,
                base == -k2,
                den == 2 * k1,
        ;
        assert(2 * k1 * base + k2 * den == 0) by (nonlinear_arith)
            requires
                base == -k2,
                den == 2 * k1,
        ;
    }
}

/// Doubling the direction halves each hit: the base doubles, the
/// discriminant grows fourfold (so its root doubles) and the denominator
/// grows fourfold.
pub proof fn lemma_scaled_direction(origin: Vec3, direction: Vec3, doubled: Vec3, s: Sphere)
    requires
        origin.wf(),
        direction.wf(),
        doubled.wf(),
        !direction.is_zero(),
        s.wf(),
        doubled.x == 2 * direction.x,
        doubled.y == 2 * direction.y,
        doubled.z == 2 * direction.z,
    ensures
        quad_k1(doubled) == 4 * quad_k1(direction),
        quad_k2(origin, doubled, s) == 2 * quad_k2(origin, direction, s),
        discriminant(origin, doubled, s) == 4 * discriminant(origin, direction, s),
        match (ray_hits(origin, direction, s), ray_hits(origin, doubled, s)) {
            (None, None) => true,
            (Some((t1, t2)), Some((u1, u2))) => {
                &&& u1.base == 2 * t1.base && u1.disc == 4 * t1.disc && u1.den == 4 * t1.den
                &&& u2.base == 2 * t2.base && u2.disc == 4 * t2.disc && u2.den == 4 * t2.den
                &&& u1.plus == t1.plus && u2.plus == t2.plus
            },
            _ => false,
        },
{
    lemma_quad_bounds(origin, direction, s);
    lemma_quad_bounds(origin, doubled, s);
    let (dx, dy, dz) = (direction.x as int, direction.y as int, direction.z as int);
    let ox = origin.x - s.center.x;
    let oy = origin.y - s.center.y;
    let oz = origin.z - s.center.z;
    assert((2 * dx) * (2 * dx) + (2 * dy) * (2 * dy) + (2 * dz) * (2 * dz) == 4 * (dx * dx + dy
        * dy + dz * dz)) by (nonlinear_arith);
    assert(ox * (2 * dx) + oy * (2 * dy) + oz * (2 * dz) == 2 * (ox * dx + oy * dy + oz * dz))
        by (nonlinear_arith);
    let k1 = quad_k1(direction);
    let k2 = quad_k2(origin, direction, s);
    let k3 = quad_k3(origin, s);
    assert((2 * k2) * (2 * k2) - 4 * (4 * k1) * k3 == 4 * (k2 * k2 - 4 * k1 * k3))
        by (nonlinear_arith);
}

/// A ray tangent to a sphere (zero discriminant) meets it at a single
/// parameter: its two hits are equal, neither smaller than the other.
pub proof fn lemma_tangent_single_hit(origin: Vec3, direction: Vec3, s: Sphere)
    requires
        discriminant(origin, direction, s) == 0,
    ensures
        match ray_hits(origin, direction, s) {
            Some((t1, t2)) => t1.disc == 0 && t2.disc == 0 && t1.base == t2.base && t1.den
                == t2.den && !hit_lt(t1, t2) && !hit_lt(t2, t1),
            None => false,
        },
{
}

} // verus!
