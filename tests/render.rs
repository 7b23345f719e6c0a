use raycast::camera::{canvas_to_viewport, HEIGHT, PROJECTION_PLANE_Z, WIDTH};
use raycast::canvas::{put_pixel, render_image};
use raycast::color::{from_u8_rgb, Color};
use raycast::hit::Hit;
use raycast::param::Param;
use raycast::render::{default_scene, render_pixel, trace_ray, Scene};
use raycast::sphere::{intersect_ray_sphere, Sphere};
use raycast::vector::Vec3;

const RED: Color = Color { r: 255, g: 0, b: 0 };
const GREEN: Color = Color { r: 0, g: 255, b: 0 };
const BLUE: Color = Color { r: 0, g: 0, b: 255 };
const WHITE: Color = Color { r: 255, g: 255, b: 255 };

fn ball(x: i64, y: i64, z: i64, radius: i64, color: Color) -> Sphere {
    Sphere { center: Vec3::new(x, y, z), radius, color }
}

fn scene_of(spheres: Vec<Sphere>) -> Scene {
    Scene { spheres, background: WHITE }
}

fn origin() -> Vec3 {
    Vec3::new(0, 0, 0)
}

fn hits(base: i64, disc: i64, den: i64) -> Option<(Hit, Hit)> {
    Some((Hit { base, plus: true, disc, den }, Hit { base, plus: false, disc, den }))
}

fn value(h: &Hit) -> f64 {
    let root = (h.disc as f64).sqrt();
    let top = if h.plus { h.base as f64 + root } else { h.base as f64 - root };
    top / h.den as f64
}

#[test]
fn no_hit_returns_background() {
    let scene = default_scene();
    let away = Vec3::new(0, 0, -600);
    assert_eq!(trace_ray(&scene, origin(), away, Param::new(1, 1), None), WHITE);
    let up = Vec3::new(0, 600, 0);
    assert_eq!(trace_ray(&scene, origin(), up, Param::new(1, 1), None), WHITE);
}

#[test]
fn single_exact_hit() {
    let s = ball(0, 0, 3, 1, RED);
    let found = intersect_ray_sphere(origin(), Vec3::new(0, 0, 1), &s);
    assert_eq!(found, hits(6, 4, 2));
    let (t1, t2) = found.unwrap();
    assert_eq!(value(&t1), 4.0);
    assert_eq!(value(&t2), 2.0);
    let scene = scene_of(vec![s]);
    assert_eq!(trace_ray(&scene, origin(), Vec3::new(0, 0, 1), Param::new(1, 1), None), RED);
}

#[test]
fn behind_camera_excluded() {
    let s = ball(0, 0, -3, 1, RED);
    let found = intersect_ray_sphere(origin(), Vec3::new(0, 0, 1), &s);
    assert_eq!(found, hits(-6, 4, 2));
    let (t1, t2) = found.unwrap();
    assert_eq!(value(&t1), -2.0);
    assert_eq!(value(&t2), -4.0);
    let scene = scene_of(vec![s]);
    assert_eq!(trace_ray(&scene, origin(), Vec3::new(0, 0, 1), Param::new(1, 1), None), WHITE);
}

#[test]
fn nearer_of_two_either_order() {
    let near = ball(0, 0, 3, 1, RED);
    let far = ball(0, 0, 6, 1, BLUE);
    let d = Vec3::new(0, 0, 1);
    let first = scene_of(vec![near, far]);
    let second = scene_of(vec![far, near]);
    assert_eq!(trace_ray(&first, origin(), d, Param::new(1, 1), None), RED);
    assert_eq!(trace_ray(&second, origin(), d, Param::new(1, 1), None), RED);
}

#[test]
fn equal_hits_first_sphere_wins() {
    let a = ball(0, 0, 3, 1, RED);
    let b = ball(0, 0, 3, 1, GREEN);
    let d = Vec3::new(0, 0, 1);
    assert_eq!(trace_ray(&scene_of(vec![a, b]), origin(), d, Param::new(1, 1), None), RED);
    assert_eq!(trace_ray(&scene_of(vec![b, a]), origin(), d, Param::new(1, 1), None), GREEN);
}

#[test]
fn tangent_counts_as_hit() {
    let s = ball(1, 0, 3, 1, GREEN);
    let d = Vec3::new(0, 0, 1);
    let found = intersect_ray_sphere(origin(), d, &s);
    assert_eq!(found, hits(6, 0, 2));
    let (t1, t2) = found.unwrap();
    assert_eq!(value(&t1), value(&t2));
    let scene = scene_of(vec![s]);
    assert_eq!(trace_ray(&scene, origin(), d, Param::new(1, 1), None), GREEN);
}

#[test]
fn miss_gives_no_parameters() {
    let s = ball(5, 0, 3, 1, GREEN);
    assert_eq!(intersect_ray_sphere(origin(), Vec3::new(0, 0, 1), &s), None);
}

#[test]
fn irrational_roots_exact() {
    // disc = 36 - 4 * 6 = 12: the hits are 3 + sqrt(3) and 3 - sqrt(3)
    let s = ball(1, 0, 3, 2, GREEN);
    let found = intersect_ray_sphere(origin(), Vec3::new(0, 0, 1), &s);
    assert_eq!(found, hits(6, 12, 2));
    let (t1, t2) = found.unwrap();
    assert!((value(&t1) - (3.0 + 3f64.sqrt())).abs() < 1e-12);
    assert!((value(&t2) - (3.0 - 3f64.sqrt())).abs() < 1e-12);
}

#[test]
fn grazing_far_hit_in_range() {
    // the far hit is sqrt(5) - 1, just beyond the projection plane
    let s = ball(2, 0, -1, 3, BLUE);
    let d = Vec3::new(0, 0, 1);
    let found = intersect_ray_sphere(origin(), d, &s);
    assert_eq!(found, hits(-2, 20, 2));
    assert!((value(&found.unwrap().0) - (5f64.sqrt() - 1.0)).abs() < 1e-12);
    let scene = scene_of(vec![s]);
    assert_eq!(trace_ray(&scene, origin(), d, Param::new(1, 1), None), BLUE);
    assert_eq!(trace_ray(&scene, origin(), d, Param::new(5, 4), None), WHITE);
    assert_eq!(trace_ray(&scene, origin(), d, Param::new(6, 5), None), BLUE);
}

#[test]
fn closer_irrational_hit_wins() {
    // near hits 3 - sqrt(3) (about 1.27) and 3 - sqrt(2) (about 1.59)
    let a = ball(1, 0, 3, 2, RED);
    let b = ball(1, 1, 3, 2, BLUE);
    let d = Vec3::new(0, 0, 1);
    assert_eq!(intersect_ray_sphere(origin(), d, &b), hits(6, 8, 2));
    assert_eq!(trace_ray(&scene_of(vec![a, b]), origin(), d, Param::new(1, 1), None), RED);
    assert_eq!(trace_ray(&scene_of(vec![b, a]), origin(), d, Param::new(1, 1), None), RED);
}

#[test]
fn parameters_scale_with_direction() {
    let s = ball(0, 0, 3, 1, RED);
    let found = intersect_ray_sphere(origin(), Vec3::new(0, 0, 2), &s);
    assert_eq!(found, hits(12, 16, 8));
    assert_eq!(value(&found.unwrap().0), 2.0);
    let t = ball(1, 1, 3, 2, RED);
    let once = intersect_ray_sphere(origin(), Vec3::new(0, 0, 1), &t).unwrap();
    let twice = intersect_ray_sphere(origin(), Vec3::new(0, 0, 2), &t).unwrap();
    assert_eq!(once.0, Hit { base: 6, plus: true, disc: 8, den: 2 });
    assert_eq!(twice.0, Hit { base: 12, plus: true, disc: 32, den: 8 });
    assert!((value(&twice.0) - value(&once.0) / 2.0).abs() < 1e-12);
}

#[test]
fn far_limit_excludes_hits() {
    let scene = scene_of(vec![ball(0, 0, 3, 1, RED)]);
    let d = Vec3::new(0, 0, 1);
    assert_eq!(trace_ray(&scene, origin(), d, Param::new(1, 1), Some(Param::new(3, 2))), WHITE);
    assert_eq!(trace_ray(&scene, origin(), d, Param::new(1, 1), Some(Param::new(5, 2))), RED);
    assert_eq!(trace_ray(&scene, origin(), d, Param::new(5, 1), None), WHITE);
    assert_eq!(trace_ray(&scene, origin(), d, Param::new(3, 1), None), RED);
}

#[test]
fn projection_linear() {
    let a = canvas_to_viewport(10, 7);
    let b = canvas_to_viewport(20, 7);
    assert_eq!(b.x, 2 * a.x);
    assert_eq!(a.y, b.y);
    assert_eq!(a, Vec3::new(10, 7, PROJECTION_PLANE_Z));
    assert_eq!(canvas_to_viewport(0, 0), Vec3::new(0, 0, PROJECTION_PLANE_Z));
    assert_eq!(canvas_to_viewport(-300, -300), Vec3::new(-300, -300, 600));
}

#[test]
fn trace_is_deterministic() {
    let scene = default_scene();
    let d = canvas_to_viewport(37, -120);
    let first = trace_ray(&scene, origin(), d, Param::new(1, 1), None);
    let second = trace_ray(&scene, origin(), d, Param::new(1, 1), None);
    assert_eq!(first, second);
}

#[test]
fn pack_rgb() {
    assert_eq!(from_u8_rgb(0x12, 0x34, 0x56), 0x0012_3456);
    assert_eq!(from_u8_rgb(255, 255, 255), 0x00FF_FFFF);
    assert_eq!(from_u8_rgb(0, 0, 0), 0);
}

#[test]
fn put_pixel_positions() {
    let mut buffer = vec![0u32; WIDTH * HEIGHT];
    put_pixel(0, 0, RED, &mut buffer);
    assert_eq!(buffer[299 * 600 + 300], 0x00FF_0000);
    put_pixel(-300, 299, BLUE, &mut buffer);
    assert_eq!(buffer[0], 0x0000_00FF);
    let before = buffer.clone();
    put_pixel(300, 0, GREEN, &mut buffer);
    put_pixel(0, 300, GREEN, &mut buffer);
    put_pixel(-301, 0, GREEN, &mut buffer);
    assert_eq!(buffer, before);
}

#[test]
fn default_scene_pixels() {
    let scene = default_scene();
    assert_eq!(scene.spheres.len(), 3);
    assert_eq!(render_pixel(&scene, 0, -100), RED);
    assert_eq!(render_pixel(&scene, 0, 0), RED);
    assert_eq!(render_pixel(&scene, 200, 0), BLUE);
    assert_eq!(render_pixel(&scene, -200, 0), GREEN);
    assert_eq!(render_pixel(&scene, -300, 299), WHITE);
}

#[test]
fn whole_image() {
    let scene = default_scene();
    let buffer = render_image(&scene);
    assert_eq!(buffer.len(), WIDTH * HEIGHT);
    assert_eq!(buffer[0], 0x00FF_FFFF);
    assert_eq!(buffer[299 * 600 + 500], 0x0000_00FF);
    assert_eq!(buffer[299 * 600 + 100], 0x0000_FF00);
    assert_eq!(buffer[399 * 600 + 300], 0x00FF_0000);
}
