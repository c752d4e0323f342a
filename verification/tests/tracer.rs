//! End-to-end tests of projection, intersection, lighting and tracing.

use raytracer::{Canvas, Color, Light, LightKind, Scene, Sphere, Vec3, render};
use raytracer::tracing::{Viewport, canvas_to_viewport, compute_lighting, intersect_ray_sphere,
    trace_ray};

fn white() -> Color {
    Color { r: 255, g: 255, b: 255 }
}

fn unit_sphere_at(z: i64, color: Color) -> Sphere {
    Sphere { center: Vec3 { x: 0, y: 0, z }, radius: 1, color, shininess: None }
}

fn ambient(intensity: i64) -> Light {
    Light { kind: LightKind::Ambient, intensity }
}

#[test]
fn viewport_projection_exact() {
    let canvas = Canvas::new(1024, 1024);
    let viewport = Viewport { width: 1, height: 1, distance: 1000 };
    let d = canvas_to_viewport(0, 0, &canvas, &viewport);
    assert_eq!(d, Vec3 { x: 0, y: 0, z: 1000 });
    let d2 = canvas_to_viewport(512, -512, &canvas, &viewport);
    assert_eq!(d2, Vec3 { x: 500, y: -500, z: 1000 });
    let d3 = canvas_to_viewport(-100, 256, &canvas, &viewport);
    // -100 * 1000 * 1 / 1024 truncated toward zero.
    assert_eq!(d3, Vec3 { x: -97, y: 250, z: 1000 });
}

#[test]
fn intersect_head_on_roots() {
    let s = unit_sphere_at(5000, white());
    let o = Vec3 { x: 0, y: 0, z: 0 };
    let d = Vec3 { x: 0, y: 0, z: 1000 };
    // a=1, b=-10, c=24: roots 6 and 4, the +sqrt branch first.
    assert_eq!(intersect_ray_sphere(&o, &d, &s), Some((6000, 4000)));
}

#[test]
fn intersect_nearest_root_not_above_farther() {
    let s = unit_sphere_at(5000, white());
    let o = Vec3 { x: 0, y: 0, z: 0 };
    for d in [
        Vec3 { x: 0, y: 0, z: 1000 },
        Vec3 { x: 10, y: -10, z: 1000 },
        Vec3 { x: 0, y: 0, z: -1000 },
    ] {
        if let Some((t1, t2)) = intersect_ray_sphere(&o, &d, &s) {
            assert!(t2 <= t1);
        }
    }
}

#[test]
fn intersect_sideways_misses() {
    let s = unit_sphere_at(5000, white());
    let o = Vec3 { x: 0, y: 0, z: 0 };
    let d = Vec3 { x: 1000, y: 0, z: 0 };
    assert_eq!(intersect_ray_sphere(&o, &d, &s), None);
}

#[test]
fn intersect_degenerate_direction_is_no_hit() {
    let s = unit_sphere_at(5000, white());
    let o = Vec3 { x: 0, y: 0, z: 0 };
    assert_eq!(intersect_ray_sphere(&o, &Vec3 { x: 0, y: 0, z: 0 }, &s), None);
    // So short that its dot product with itself rounds to zero.
    assert_eq!(intersect_ray_sphere(&o, &Vec3 { x: 1, y: 1, z: 1 }, &s), None);
}

#[test]
fn lighting_ambient_only_is_intensity() {
    let scene = Scene { objects: vec![], lights: vec![ambient(700)] };
    let p = Vec3 { x: 0, y: 0, z: 4000 };
    let n = Vec3 { x: 0, y: 0, z: -1000 };
    let v = Vec3 { x: 0, y: 0, z: -1000 };
    assert_eq!(compute_lighting(&scene, &p, &n, &v, None), 700);
}

#[test]
fn lighting_diffuse_head_on() {
    let scene = Scene {
        objects: vec![],
        lights: vec![Light {
            kind: LightKind::Directional(Vec3 { x: 0, y: 0, z: 2000 }),
            intensity: 600,
        }],
    };
    let p = Vec3 { x: 0, y: 0, z: 0 };
    let n = Vec3 { x: 0, y: 0, z: 1000 };
    let v = Vec3 { x: 0, y: 0, z: 1000 };
    assert_eq!(compute_lighting(&scene, &p, &n, &v, None), 600);
}

#[test]
fn lighting_light_behind_surface_adds_nothing() {
    let scene = Scene {
        objects: vec![],
        lights: vec![Light {
            kind: LightKind::Directional(Vec3 { x: 0, y: 0, z: -2000 }),
            intensity: 600,
        }],
    };
    let p = Vec3 { x: 0, y: 0, z: 0 };
    let n = Vec3 { x: 0, y: 0, z: 1000 };
    let v = Vec3 { x: 0, y: 0, z: 1000 };
    assert_eq!(compute_lighting(&scene, &p, &n, &v, None), 0);
}

#[test]
fn lighting_specular_head_on() {
    let scene = Scene {
        objects: vec![],
        lights: vec![Light {
            kind: LightKind::Point(Vec3 { x: 0, y: 0, z: 10000 }),
            intensity: 400,
        }],
    };
    let p = Vec3 { x: 0, y: 0, z: 4000 };
    let n = Vec3 { x: 0, y: 0, z: 1000 };
    let v = Vec3 { x: 0, y: 0, z: 1000 };
    // Diffuse 400 plus specular 400 * 1.0^10.
    assert_eq!(compute_lighting(&scene, &p, &n, &v, Some(10)), 800);
    assert_eq!(compute_lighting(&scene, &p, &n, &v, None), 400);
}

#[test]
fn trace_miss_returns_exact_background() {
    let scene = Scene {
        objects: vec![unit_sphere_at(5000, Color { r: 10, g: 20, b: 30 })],
        lights: vec![ambient(1000)],
    };
    let o = Vec3 { x: 0, y: 0, z: 0 };
    let side = Vec3 { x: 1000, y: 0, z: 0 };
    assert_eq!(trace_ray(&scene, &o, &side, 1000, i64::MAX), white());
    let empty = Scene { objects: vec![], lights: vec![ambient(1000)] };
    let fwd = Vec3 { x: 0, y: 0, z: 1000 };
    assert_eq!(trace_ray(&empty, &o, &fwd, 1000, i64::MAX), white());
}

#[test]
fn trace_center_ray_hits_sphere() {
    // Unit sphere at (0,0,5), camera at the origin, viewport distance 1:
    // the center ray hits at t = 4 and shows the sphere's own color.
    let color = Color { r: 10, g: 200, b: 30 };
    let scene = Scene { objects: vec![unit_sphere_at(5000, color)], lights: vec![ambient(1000)] };
    let o = Vec3 { x: 0, y: 0, z: 0 };
    let d = Vec3 { x: 0, y: 0, z: 1000 };
    assert_eq!(trace_ray(&scene, &o, &d, 1000, i64::MAX), color);
}

#[test]
fn trace_ambient_scales_base_color() {
    let scene = Scene {
        objects: vec![unit_sphere_at(5000, Color { r: 200, g: 100, b: 50 })],
        lights: vec![ambient(500)],
    };
    let o = Vec3 { x: 0, y: 0, z: 0 };
    let d = Vec3 { x: 0, y: 0, z: 1000 };
    assert_eq!(trace_ray(&scene, &o, &d, 1000, i64::MAX), Color { r: 100, g: 50, b: 25 });
}

#[test]
fn trace_picks_nearer_sphere_in_both_orders() {
    let near_color = Color { r: 255, g: 0, b: 0 };
    let far_color = Color { r: 0, g: 0, b: 255 };
    let near = unit_sphere_at(3000, near_color);
    let far = unit_sphere_at(5000, far_color);
    let o = Vec3 { x: 0, y: 0, z: 0 };
    let d = Vec3 { x: 0, y: 0, z: 1000 };
    let forward = Scene {
        objects: vec![near.clone(), far.clone()],
        lights: vec![ambient(1000)],
    };
    let reversed = Scene { objects: vec![far, near], lights: vec![ambient(1000)] };
    assert_eq!(trace_ray(&forward, &o, &d, 1000, i64::MAX), near_color);
    assert_eq!(trace_ray(&reversed, &o, &d, 1000, i64::MAX), near_color);
}

#[test]
fn trace_range_excludes_hits() {
    let color = Color { r: 10, g: 200, b: 30 };
    let scene = Scene { objects: vec![unit_sphere_at(5000, color)], lights: vec![ambient(1000)] };
    let o = Vec3 { x: 0, y: 0, z: 0 };
    let d = Vec3 { x: 0, y: 0, z: 1000 };
    // Both roots (4 and 6) lie outside (tmin, tmax) = (1, 3.5): nothing hits.
    assert_eq!(trace_ray(&scene, &o, &d, 1000, 3500), white());
    // Roots behind the camera are excluded too.
    let back = Vec3 { x: 0, y: 0, z: -1000 };
    assert_eq!(trace_ray(&scene, &o, &back, 1000, i64::MAX), white());
}

#[test]
fn render_writes_hit_and_background_pixels() {
    let color = Color { r: 10, g: 200, b: 30 };
    let scene = Scene { objects: vec![unit_sphere_at(5000, color)], lights: vec![ambient(1000)] };
    let mut canvas = Canvas::new(2, 2);
    render(&mut canvas, &scene);
    // The centered pixel (0, 0) lands on buffer (1, 0) and its ray hits.
    assert_eq!(canvas.pixel(1, 0), color);
    // The three off-center rays of a 2x2 canvas miss the unit sphere.
    assert_eq!(canvas.pixel(0, 0), white());
    assert_eq!(canvas.pixel(0, 1), white());
    assert_eq!(canvas.pixel(1, 1), white());
}

#[test]
fn render_keeps_dimensions() {
    let scene = Scene { objects: vec![], lights: vec![ambient(1000)] };
    let mut canvas = Canvas::new(3, 5);
    render(&mut canvas, &scene);
    assert_eq!(canvas.width(), 3);
    assert_eq!(canvas.height(), 5);
}
