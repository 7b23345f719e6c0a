use vstd::prelude::*;

use crate::camera::{canvas_to_viewport, on_canvas, viewport_direction};
use crate::color::Color;
use crate::hit::{
    hit_lt, hit_lt_exec, hit_lt_param, hit_lt_param_exec, lemma_hit_lt_asymmetric, param_lt_hit,
    param_lt_hit_exec, Hit,
};
use crate::param::Param;
use crate::sphere::{
    discriminant, intersect_ray_sphere, lemma_quad_bounds, lemma_tangent_single_hit, ray_hits, Sphere,
};
use crate::vector::Vec3;

verus! {

/// The spheres to draw, in order, and the colour of pixels that meet none.
pub struct Scene {
    pub spheres: Vec<Sphere>,
    pub background: Color,
}

impl Scene {
    pub open spec fn wf(&self) -> bool {
        forall|i: int| 0 <= i < self.spheres@.len() ==> (#[trigger] self.spheres@[i]).wf()
    }
}

pub open spec fn limit_wf(max_t: Option<Param>) -> bool {
    match max_t {
        None => true,
        Some(m) => m.wf(),
    }
}

/// `min_t < t < max_t`, where no `max_t` means no far limit.
pub open spec fn in_range(t: Hit, min_t: Param, max_t: Option<Param>) -> bool {
    param_lt_hit(min_t, t) && match max_t {
        None => true,
        Some(m) => hit_lt_param(t, m),
    }
}

/// One step of nearest-hit resolution: `t`, a hit on sphere `i`, becomes
/// the nearest so far when it is in range and strictly nearer than the
/// nearest so far (if any); otherwise the nearest so far stays.
pub open spec fn consider(
    closest: Option<(int, Hit)>,
    i: int,
    t: Hit,
    min_t: Param,
    max_t: Option<Param>,
) -> Option<(int, Hit)> {
    if in_range(t, min_t, max_t) && match closest {
        None => true,
        Some((_, c)) => hit_lt(t, c),
    } {
        Some((i, t))
    } else {
        closest
    }
}

/// The nearest hit in range among the first `n` spheres, with the sphere's
/// index: the spheres in scene order, each one's `t1` before its `t2`, so
/// that of equal hits the first met is kept.
pub open spec fn nearest_upto(
    spheres: Seq<Sphere>,
    origin: Vec3,
    direction: Vec3,
    min_t: Param,
    max_t: Option<Param>,
    n: nat,
) -> Option<(int, Hit)>
    decreases n,
{
    if n == 0 {
        None
    } else {
        let prev = nearest_upto(spheres, origin, direction, min_t, max_t, (n - 1) as nat);
        match ray_hits(origin, direction, spheres[n - 1]) {
            None => prev,
            Some((t1, t2)) => consider(
                consider(prev, n - 1, t1, min_t, max_t),
                n - 1,
                t2,
                min_t,
                max_t,
            ),
        }
    }
}

/// The colour seen along the ray: that of the sphere holding the nearest
/// hit in range, or the background where no sphere is hit in range.
pub open spec fn traced_color(
    spheres: Seq<Sphere>,
    background: Color,
    origin: Vec3,
    direction: Vec3,
    min_t: Param,
    max_t: Option<Param>,
) -> Color {
    match nearest_upto(spheres, origin, direction, min_t, max_t, spheres.len()) {
        None => background,
        Some((i, _)) => spheres[i].color,
    }
}

pub open spec fn closest_view(c: Option<(usize, Hit)>) -> Option<(int, Hit)> {
    match c {
        None => None,
        Some((i, t)) => Some((i as int, t)),
    }
}

/// `consider`, on values held by the renderer.
fn consider_exec(
    closest: Option<(usize, Hit)>,
    i: usize,
    t: Hit,
    min_t: &Param,
    max_t: &Option<Param>,
) -> (r: Option<(usize, Hit)>)
    requires
        min_t.wf(),
        limit_wf(*max_t),
        t.wf(),
        match closest {
            None => true,
            Some((_, c)) => c.wf(),
        },
    ensures
        closest_view(r) == consider(closest_view(closest), i as int, t, *min_t, *max_t),
        match r {
            None => true,
            Some((_, c)) => c.wf(),
        },
{
    let beyond_min = param_lt_hit_exec(min_t, &t);
    let before_max = match max_t {
        None => true,
        Some(m) => hit_lt_param_exec(&t, m),
    };
    let nearer = match &closest {
        None => true,
        Some((_, c)) => hit_lt_exec(&t, c),
    };
    if beyond_min && before_max && nearer {
        Some((i, t))
    } else {
        closest
    }
}

/// The colour seen along the ray `origin + t * direction` for
/// `min_t < t < max_t` (no `max_t`: no far limit): the colour of the sphere
/// hit nearest, the first met among equally near hits, or the background
/// colour where no sphere is hit in range.
pub fn trace_ray(
    scene: &Scene,
    origin: Vec3,
    direction: Vec3,
    min_t: Param,
    max_t: Option<Param>,
) -> (r: Color)
    requires
        scene.wf(),
        origin.wf(),
        direction.wf(),
        !direction.is_zero(),
        min_t.wf(),
        limit_wf(max_t),
    ensures
        r == traced_color(scene.spheres@, scene.background, origin, direction, min_t, max_t),
{
    let ghost spheres = scene.spheres@;
    let mut closest: Option<(usize, Hit)> = None;
    let mut k: usize = 0;
    while k < scene.spheres.len()
        invariant
            k <= spheres.len(),
            spheres == scene.spheres@,
            scene.wf(),
            origin.wf(),
            direction.wf(),
            !direction.is_zero(),
            min_t.wf(),
            limit_wf(max_t),
            closest_view(closest) == nearest_upto(
                spheres,
                origin,
                direction,
                min_t,
                max_t,
                k as nat,
            ),
            match closest {
                None => true,
                Some((i, c)) => c.wf() && i < k,
            },
        decreases spheres.len() - k,
    {
        proof {
            assert(spheres[k as int].wf());
        }
        let hits = intersect_ray_sphere(origin, direction, &scene.spheres[k]);
        if let Some((t1, t2)) = hits {
            closest = consider_exec(closest, k, t1, &min_t, &max_t);
            closest = consider_exec(closest, k, t2, &min_t, &max_t);
        }
        k = k + 1;
    }
    match closest {
        None => scene.background,
        Some((i, _)) => scene.spheres[i].color,
    }
}

/// The camera sits at the origin.
pub open spec fn camera_position() -> Vec3 {
    Vec3 { x: 0, y: 0, z: 0 }
}

/// The colour of canvas pixel `(px, py)`: the ray from the camera through the
/// pixel, traced beyond the projection plane (`t > 1`) with no far limit.
pub open spec fn pixel_color(scene: &Scene, px: int, py: int) -> Color {
    traced_color(
        scene.spheres@,
        scene.background,
        camera_position(),
        viewport_direction(px, py),
        Param { num: 1, den: 1 },
        None,
    )
}

/// The colour of canvas pixel `(px, py)`.
pub fn render_pixel(scene: &Scene, px: i64, py: i64) -> (r: Color)
    requires
        scene.wf(),
        on_canvas(px as int, py as int),
    ensures
        r == pixel_color(scene, px as int, py as int),
{
    let direction = canvas_to_viewport(px, py);
    trace_ray(scene, Vec3::new(0, 0, 0), direction, Param::new(1, 1), None)
}

/// The scene of three spheres of radius one world unit (`UNIT` sub-units), red below the view axis, blue to the
/// right and green to the left, before a white background.
pub fn default_scene() -> (s: Scene)
    ensures
        s.wf(),
        s.spheres@ == seq![
            Sphere { center: Vec3 { x: 0, y: -600i64, z: 1800 }, radius: 600, color: Color { r: 255, g: 0, b: 0 } },
            Sphere { center: Vec3 { x: 1200, y: 0, z: 2400 }, radius: 600, color: Color { r: 0, g: 0, b: 255 } },
            Sphere { center: Vec3 { x: -1200i64, y: 0, z: 2400 }, radius: 600, color: Color { r: 0, g: 255, b: 0 } },
        ],
        s.background == (Color { r: 255, g: 255, b: 255 }),
{
    let spheres = vec![
        Sphere { center: Vec3::new(0, -600, 1800), radius: 600, color: Color { r: 255, g: 0, b: 0 } },
        Sphere { center: Vec3::new(1200, 0, 2400), radius: 600, color: Color { r: 0, g: 0, b: 255 } },
        Sphere { center: Vec3::new(-1200, 0, 2400), radius: 600, color: Color { r: 0, g: 255, b: 0 } },
    ];
    let s = Scene { spheres, background: Color { r: 255, g: 255, b: 255 } };
    assert(s.spheres@[0].wf() && s.spheres@[1].wf() && s.spheres@[2].wf());
    s
}

/// `h` is one of the two hits of the ray on sphere `s`, and lies in range.
pub open spec fn hit_in_range(
    origin: Vec3,
    direction: Vec3,
    s: Sphere,
    min_t: Param,
    max_t: Option<Param>,
    h: Hit,
) -> bool {
    match ray_hits(origin, direction, s) {
        None => false,
        Some((t1, t2)) => (h == t1 || h == t2) && in_range(h, min_t, max_t),
    }
}

/// No sphere among the first `n` holds a hit in range, so none is nearest.
proof fn lemma_no_hit_upto(
    spheres: Seq<Sphere>,
    origin: Vec3,
    direction: Vec3,
    min_t: Param,
    max_t: Option<Param>,
    n: nat,
)
    requires
        n <= spheres.len(),
        forall|i: int, h: Hit|
            0 <= i < spheres.len() ==> !#[trigger] hit_in_range(
                origin,
                direction,
                spheres[i],
                min_t,
                max_t,
                h,
            ),
    ensures
        nearest_upto(spheres, origin, direction, min_t, max_t, n) is None,
    decreases n,
{
    if n > 0 {
        lemma_no_hit_upto(spheres, origin, direction, min_t, max_t, (n - 1) as nat);
        if let Some((t1, t2)) = ray_hits(origin, direction, spheres[n - 1]) {
            assert(!hit_in_range(origin, direction, spheres[n - 1], min_t, max_t, t1));
            assert(!hit_in_range(origin, direction, spheres[n - 1], min_t, max_t, t2));
        }
    }
}

/// Where the ray meets no sphere within range, the traced colour is the
/// background colour.
pub proof fn lemma_no_hit_background(
    spheres: Seq<Sphere>,
    background: Color,
    origin: Vec3,
    direction: Vec3,
    min_t: Param,
    max_t: Option<Param>,
)
    requires
        forall|i: int, h: Hit|
            0 <= i < spheres.len() ==> !#[trigger] hit_in_range(
                origin,
                direction,
                spheres[i],
                min_t,
                max_t,
                h,
            ),
    ensures
        traced_color(spheres, background, origin, direction, min_t, max_t) == background,
{
    lemma_no_hit_upto(spheres, origin, direction, min_t, max_t, spheres.len());
}

/// Of two spheres where every hit in range on `near` is strictly nearer than
/// every hit in range on `far`, and `near` is hit in range, the colour of
/// `near` is seen, whichever comes first in the scene.
pub proof fn lemma_nearer_of_two(
    near: Sphere,
    far: Sphere,
    background: Color,
    origin: Vec3,
    direction: Vec3,
    min_t: Param,
    max_t: Option<Param>,
    witness: Hit,
)
    requires
        origin.wf(),
        direction.wf(),
        !direction.is_zero(),
        near.wf(),
        far.wf(),
        hit_in_range(origin, direction, near, min_t, max_t, witness),
        forall|hn: Hit, hf: Hit|
            #![trigger hit_in_range(origin, direction, near, min_t, max_t, hn), hit_in_range(origin, direction, far, min_t, max_t, hf)]
            hit_in_range(origin, direction, near, min_t, max_t, hn) && hit_in_range(
                origin,
                direction,
                far,
                min_t,
                max_t,
                hf,
            ) ==> hit_lt(hn, hf),
    ensures
        traced_color(seq![near, far], background, origin, direction, min_t, max_t)
            == near.color,
        traced_color(seq![far, near], background, origin, direction, min_t, max_t)
            == near.color,
{
    let a = seq![near, far];
    let b = seq![far, near];
    assert(a[0] == near && a[1] == far && b[0] == far && b[1] == near);
    reveal_with_fuel(nearest_upto, 3);
    lemma_quad_bounds(origin, direction, near);
    lemma_quad_bounds(origin, direction, far);
    let (n1, n2) = ray_hits(origin, direction, near)->Some_0;
    assert(hit_in_range(origin, direction, near, min_t, max_t, n1) || hit_in_range(
        origin,
        direction,
        near,
        min_t,
        max_t,
        n2,
    ));
    // near first: its hit is kept, as no hit of far is nearer
    let after_near = nearest_upto(a, origin, direction, min_t, max_t, 1);
    assert(after_near is Some && after_near->Some_0.0 == 0 && hit_in_range(
        origin,
        direction,
        near,
        min_t,
        max_t,
        after_near->Some_0.1,
    ));
    let hn = after_near->Some_0.1;
    if let Some((f1, f2)) = ray_hits(origin, direction, far) {
        if in_range(f1, min_t, max_t) {
            assert(hit_in_range(origin, direction, far, min_t, max_t, f1));
            lemma_hit_lt_asymmetric(hn, f1);
        }
        if in_range(f2, min_t, max_t) {
            assert(hit_in_range(origin, direction, far, min_t, max_t, f2));
            lemma_hit_lt_asymmetric(hn, f2);
        }
    }
    // far first: near's first hit in range is nearer than far's
    let after_far = nearest_upto(b, origin, direction, min_t, max_t, 1);
    assert(after_far is Some ==> hit_in_range(
        origin,
        direction,
        far,
        min_t,
        max_t,
        after_far->Some_0.1,
    ));
    if after_far is Some {
        let hf = after_far->Some_0.1;
        assert(hit_in_range(origin, direction, far, min_t, max_t, hf));
        if in_range(n1, min_t, max_t) {
            assert(hit_in_range(origin, direction, near, min_t, max_t, n1));
            assert(hit_lt(n1, hf));
        }
        if in_range(n2, min_t, max_t) {
            assert(hit_in_range(origin, direction, near, min_t, max_t, n2));
            assert(hit_lt(n2, hf));
        }
    }
}

/// A tangent hit in range counts as a hit: in a scene of that sphere alone,
/// the sphere's colour is seen.
pub proof fn lemma_tangent_hit(
    s: Sphere,
    background: Color,
    origin: Vec3,
    direction: Vec3,
    min_t: Param,
    max_t: Option<Param>,
)
    requires
        discriminant(origin, direction, s) == 0,
        match ray_hits(origin, direction, s) {
            Some((t1, _)) => in_range(t1, min_t, max_t),
            None => false,
        },
    ensures
        traced_color(seq![s], background, origin, direction, min_t, max_t) == s.color,
{
    lemma_tangent_single_hit(origin, direction, s);
    let a = seq![s];
    assert(a[0] == s);
    reveal_with_fuel(nearest_upto, 2);
}

} // verus!
