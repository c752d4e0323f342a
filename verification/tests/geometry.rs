//! Tests of the vector algebra, colors and the canvas coordinate mapping.

use raytracer::{Vec3, Color, Canvas};

#[test]
fn vector_add_sub_neg() {
    let a = Vec3 { x: 1000, y: 2000, z: 3000 };
    let b = Vec3 { x: 400, y: -500, z: 600 };
    assert_eq!(a.add(b), Vec3 { x: 1400, y: 1500, z: 3600 });
    assert_eq!(a.sub(b), Vec3 { x: 600, y: 2500, z: 2400 });
    assert_eq!(b.neg(), Vec3 { x: -400, y: 500, z: -600 });
}

#[test]
fn vector_scale_and_dot() {
    let a = Vec3 { x: 1000, y: 2000, z: 3000 };
    let b = Vec3 { x: 4000, y: -5000, z: 6000 };
    assert_eq!(a.scale(2000), Vec3 { x: 2000, y: 4000, z: 6000 });
    assert_eq!(a.dot(b), 4000 - 10000 + 18000);
}

#[test]
fn vector_norm_and_normalize() {
    let v = Vec3 { x: 3000, y: 0, z: 4000 };
    assert_eq!(v.norm(), 5000);
    assert_eq!(v.normalize(), Vec3 { x: 600, y: 0, z: 800 });
    let w = Vec3 { x: 0, y: 0, z: -1000 };
    assert_eq!(w.normalize(), w);
}

#[test]
fn normalize_of_zero_norm_is_zero() {
    let zero = Vec3 { x: 0, y: 0, z: 0 };
    assert_eq!(zero.normalize(), zero);
    // A vector so short that its norm rounds to zero has no direction.
    let tiny = Vec3 { x: 1, y: 1, z: 1 };
    assert_eq!(tiny.normalize(), zero);
}

#[test]
fn color_scale_clamps_high() {
    let c = Color { r: 200, g: 0, b: 0 };
    assert_eq!(c.scale(2000), Color { r: 255, g: 0, b: 0 });
}

#[test]
fn color_scale_by_zero_is_black() {
    let c = Color { r: 10, g: 10, b: 10 };
    assert_eq!(c.scale(0), Color { r: 0, g: 0, b: 0 });
}

#[test]
fn color_scale_exact() {
    let c = Color { r: 200, g: 100, b: 50 };
    assert_eq!(c.scale(500), Color { r: 100, g: 50, b: 25 });
    assert_eq!(c.scale(1000), c);
}

#[test]
fn canvas_new_is_black() {
    let c = Canvas::new(4, 4);
    assert_eq!(c.width(), 4);
    assert_eq!(c.height(), 4);
    assert_eq!(c.pixel(0, 0), Color { r: 0, g: 0, b: 0 });
    assert_eq!(c.pixel(3, 3), Color { r: 0, g: 0, b: 0 });
}

#[test]
fn canvas_center_maps_to_half_width_half_height_minus_one() {
    // The centered coordinate (0, 0) lands on the buffer cell
    // (width / 2, height / 2 - 1).
    let red = Color { r: 255, g: 0, b: 0 };
    let mut c = Canvas::new(4, 4);
    c.put_pixel(0, 0, red);
    assert_eq!(c.pixel(2, 1), red);
    let mut d = Canvas::new(1024, 768);
    d.put_pixel(0, 0, red);
    assert_eq!(d.pixel(512, 383), red);
}

#[test]
fn canvas_corner_mapping() {
    let blue = Color { r: 0, g: 0, b: 255 };
    let mut c = Canvas::new(4, 4);
    c.put_pixel(-2, -2, blue);
    assert_eq!(c.pixel(0, 3), blue);
    c.put_pixel(1, 1, blue);
    assert_eq!(c.pixel(3, 0), blue);
}

#[test]
fn canvas_write_leaves_other_pixels() {
    let red = Color { r: 255, g: 0, b: 0 };
    let mut c = Canvas::new(4, 4);
    c.put_pixel(0, 0, red);
    assert_eq!(c.pixel(0, 0), Color { r: 0, g: 0, b: 0 });
    assert_eq!(c.pixel(2, 2), Color { r: 0, g: 0, b: 0 });
}
