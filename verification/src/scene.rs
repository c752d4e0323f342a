//! The scene model: spheres and lights, pure data read during rendering.

use vstd::prelude::*;
use crate::vec3::Vec3;
use crate::color::Color;

verus! {

/// A 3-D spherical primitive.
///
/// A present `shininess` exponent gives the surface a specular lobe; an
/// absent one makes it purely diffuse/ambient.
#[derive(Clone, Copy)]
pub struct Sphere {
    pub center: Vec3,
    pub radius: u32,
    pub color: Color,
    pub shininess: Option<i32>,
}

/// The kind of a light source.
pub enum LightKind {
    /// Uniform light that illuminates every point of the scene.
    Ambient,
    /// A point source at a position; the direction to it is computed per
    /// surface point.
    Point(Vec3),
    /// Parallel rays with one fixed direction.
    Directional(Vec3),
}

/// A light source: a kind plus a non-negative fixed-point intensity.
pub struct Light {
    pub kind: LightKind,
    pub intensity: i64,
}

/// All objects and lights to be rendered.
pub struct Scene {
    pub objects: Vec<Sphere>,
    pub lights: Vec<Light>,
}

/// A light is well formed when its intensity is non-negative.
pub open spec fn light_wf(l: Light) -> bool {
    l.intensity >= 0
}

/// A sphere is well formed when its specular exponent, if present, is
/// non-negative.
pub open spec fn sphere_wf(s: Sphere) -> bool {
    match s.shininess {
        Some(e) => e >= 0,
        None => true,
    }
}

/// A scene is well formed when all its lights and spheres are.
pub open spec fn scene_wf(s: Scene) -> bool {
    &&& forall|i: int| 0 <= i < s.lights@.len() ==> light_wf(#[trigger] s.lights@[i])
    &&& forall|i: int| 0 <= i < s.objects@.len() ==> sphere_wf(#[trigger] s.objects@[i])
}

} // verus!
