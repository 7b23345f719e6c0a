use vstd::prelude::*;

use crate::param::Param;

verus! {

/// Bound on `|base|` of a hit, from the coordinate bound.
pub const BASE_LIMIT: i64 = 0x3000_0000;

/// Bound (exclusive) on the discriminant of a hit.
pub const DISC_LIMIT: i64 = 0x1000_0000_0000_0000;

/// Bound (exclusive) on the denominator of a hit.
pub const DEN_LIMIT: i64 = 0x2000_0000;

/// The exact ray parameter `(base + sqrt(disc)) / den` when `plus`, and
/// `(base - sqrt(disc)) / den` otherwise.
#[derive(Clone, Copy, Debug, PartialEq, Eq, Structural)]
pub struct Hit {
    pub base: i64,
    pub plus: bool,
    pub disc: i64,
    pub den: i64,
}

impl Hit {
    /// The sizes that the exact comparisons below can handle.
    pub open spec fn wf(self) -> bool {
        &&& -BASE_LIMIT <= self.base <= BASE_LIMIT
        &&& 0 <= self.disc < DISC_LIMIT
        &&& 0 < self.den < DEN_LIMIT
    }

    /// The sign in front of the square root: `1` or `-1`.
    pub open spec fn sign(self) -> int {
        if self.plus {
            1
        } else {
            -1
        }
    }
}

/// `x + u * sqrt(a) > 0`, for `a >= 0`: where `u >= 0` it holds when `x` is
/// positive or `u^2 a > x^2`; where `u < 0` it needs `x` positive and
/// `x^2 > u^2 a`.
pub open spec fn pos_plus_root(x: int, u: int, a: int) -> bool {
    if u >= 0 {
        x > 0 || u * u * a > x * x
    } else {
        x > 0 && x * x > u * u * a
    }
}

/// `x + u * sqrt(a) + v * sqrt(b) > 0`, for `u, v` in `{1, -1}` and
/// `a, b >= 0`. With `y = x + u * sqrt(a)`, whose square is
/// `x^2 + a + 2xu * sqrt(a)`: `y + sqrt(b) > 0` iff `y > 0` or `b > y^2`;
/// `y - sqrt(b) > 0` iff `y > 0` and `y^2 > b`.
pub open spec fn pos_two_roots(x: int, u: int, a: int, v: int, b: int) -> bool {
    if v > 0 {
        pos_plus_root(x, u, a) || pos_plus_root(b - x * x - a, -2 * x * u, a)
    } else {
        pos_plus_root(x, u, a) && pos_plus_root(x * x + a - b, 2 * x * u, a)
    }
}

/// `h1 < h2` for two hits over one denominator (the hits of one ray):
/// `(h2.base - h1.base) + s2 * sqrt(h2.disc) - s1 * sqrt(h1.disc) > 0`.
pub open spec fn hit_lt(h1: Hit, h2: Hit) -> bool {
    pos_two_roots(h2.base - h1.base, h2.sign(), h2.disc as int, -h1.sign(), h1.disc as int)
}

/// `p < h`: `(q * base - p * den) + q * s * sqrt(disc) > 0` for `p = num / q`.
pub open spec fn param_lt_hit(p: Param, h: Hit) -> bool {
    pos_plus_root(p.den * h.base - p.num * h.den, p.den * h.sign(), h.disc as int)
}

/// `h < p`: `(num * den - q * base) - q * s * sqrt(disc) > 0` for `p = num / q`.
pub open spec fn hit_lt_param(h: Hit, p: Param) -> bool {
    pos_plus_root(p.num * h.den - p.den * h.base, -p.den * h.sign(), h.disc as int)
}

/// `|a * b| <= bound_a * bound_b` when `|a| <= bound_a` and `|b| <= bound_b`.
pub proof fn lemma_mul_bound(a: int, b: int, bound_a: int, bound_b: int)
    requires
        -bound_a <= a <= bound_a,
        -bound_b <= b <= bound_b,
    ensures
        -(bound_a * bound_b) <= a * b <= bound_a * bound_b,
{
    assert(-(bound_a * bound_b) <= a * b <= bound_a * bound_b) by (nonlinear_arith)
        requires
            -bound_a <= a <= bound_a,
            -bound_b <= b <= bound_b,
    ;
}

/// Decides `x + u * sqrt(a) > 0`.
fn pos_plus_root_exec(x: i128, u: i128, a: i128) -> (r: bool)
    requires
        -0x8000_0000_0000_0000 <= x <= 0x8000_0000_0000_0000,
        -0x1_0000_0000 <= u <= 0x1_0000_0000,
        0 <= a < 0x1000_0000_0000_0000,
    ensures
        r == pos_plus_root(x as int, u as int, a as int),
{
    proof {
        lemma_mul_bound(x as int, x as int, 0x8000_0000_0000_0000, 0x8000_0000_0000_0000);
        lemma_mul_bound(u as int, u as int, 0x1_0000_0000, 0x1_0000_0000);
        assert(u * u >= 0) by (nonlinear_arith);
        lemma_mul_bound(u * u, a as int, 0x1_0000_0000_0000_0000, 0x1000_0000_0000_0000);
    }
    if u >= 0 {
        x > 0 || u * u * a > x * x
    } else {
        x > 0 && x * x > u * u * a
    }
}

/// Whether `h1 < h2`, for two hits of one ray.
pub fn hit_lt_exec(h1: &Hit, h2: &Hit) -> (r: bool)
    requires
        h1.wf(),
        h2.wf(),
    ensures
        r == hit_lt(*h1, *h2),
{
    let x = h2.base as i128 - h1.base as i128;
    let u: i128 = if h2.plus { 1 } else { -1 };
    let v: i128 = if h1.plus { -1 } else { 1 };
    let a = h2.disc as i128;
    let b = h1.disc as i128;
    proof {
        lemma_mul_bound(x as int, x as int, 0x6000_0000, 0x6000_0000);
    }
    let xu: i128 = if h2.plus { x } else { -x };
    assert(xu == x * u) by (nonlinear_arith)
        requires
            u == 1 || u == -1,
            u == 1 ==> xu == x,
            u == -1 ==> xu == -x,
    ;
    assert(-2 * x * u == -2 * xu && 2 * x * u == 2 * xu) by (nonlinear_arith)
        requires
            xu == x * u,
    ;
    let first = pos_plus_root_exec(x, u, a);
    if v > 0 {
        first || pos_plus_root_exec(b - x * x - a, -2 * xu, a)
    } else {
        first && pos_plus_root_exec(x * x + a - b, 2 * xu, a)
    }
}

/// Whether `p < h`.
pub fn param_lt_hit_exec(p: &Param, h: &Hit) -> (r: bool)
    requires
        p.wf(),
        h.wf(),
    ensures
        r == param_lt_hit(*p, *h),
{
    let q = p.den as i128;
    let s: i128 = if h.plus { 1 } else { -1 };
    proof {
        lemma_mul_bound(q as int, h.base as int, 0x8000_0000, BASE_LIMIT as int);
        lemma_mul_bound(p.num as int, h.den as int, 0x8000_0000, DEN_LIMIT as int);
    }
    pos_plus_root_exec(q * h.base as i128 - p.num as i128 * h.den as i128, q * s, h.disc as i128)
}

/// Whether `h < p`.
pub fn hit_lt_param_exec(h: &Hit, p: &Param) -> (r: bool)
    requires
        p.wf(),
        h.wf(),
    ensures
        r == hit_lt_param(*h, *p),
{
    let q = p.den as i128;
    let s: i128 = if h.plus { 1 } else { -1 };
    proof {
        lemma_mul_bound(q as int, h.base as int, 0x8000_0000, BASE_LIMIT as int);
        lemma_mul_bound(p.num as int, h.den as int, 0x8000_0000, DEN_LIMIT as int);
    }
    pos_plus_root_exec(p.num as i128 * h.den as i128 - q * h.base as i128, -q * s, h.disc as i128)
}

/// `x + u sqrt(a) + v sqrt(b) > 0` and its negation
/// `-x - v sqrt(b) - u sqrt(a) > 0` never hold together.
proof fn lemma_two_roots_asymmetric(x: int, u: int, a: int, v: int, b: int)
    requires
        u == 1 || u == -1,
        v == 1 || v == -1,
        a >= 0,
        b >= 0,
    ensures
        !(pos_two_roots(x, u, a, v, b) && pos_two_roots(-x, -v, b, -u, a)),
{
    assert(!(pos_two_roots(x, u, a, v, b) && pos_two_roots(-x, -v, b, -u, a))) by (nonlinear_arith)
        requires
            u == 1 || u == -1,
            v == 1 || v == -1,
            a >= 0,
            b >= 0,
    ;
}

/// Of two hits of one ray, at most one is strictly smaller than the other.
pub proof fn lemma_hit_lt_asymmetric(h1: Hit, h2: Hit)
    requires
        h1.disc >= 0,
        h2.disc >= 0,
    ensures
        !(hit_lt(h1, h2) && hit_lt(h2, h1)),
{
    lemma_two_roots_asymmetric(h2.base - h1.base, h2.sign(), h2.disc as int, -h1.sign(), h1.disc as int);
    assert(-(h2.base - h1.base) == h1.base - h2.base);
    assert(--h1.sign() == h1.sign());
}

} // verus!
