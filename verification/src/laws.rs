//! General laws of the tracer, stated and proved over the specification
//! functions that the executable contracts use.

use vstd::prelude::*;
use crate::fixed::{sat64, sfadd, sfsub, sfmul, sfdiv, sfsqrt, lemma_sqrt_floor_props,
    lemma_tdiv_monotone, SCALE};
use crate::vec3::{Vec3, v_dot, v_sub, v_add, v_scale, v_neg, v_normalize};
use crate::color::{Color, spec_scale};
use crate::scene::{Scene, Sphere, Light};
use crate::tracing::{
    spec_roots, spec_trace, spec_lighting, closest_hit, closest_upto, consider, background,
    shade_hit, illum_upto, add_light, spec_ctv, FOUR_FIXED,
};
use crate::render::{rendered_pixel, render_viewport, camera_origin};
use crate::canvas::Canvas;
use vstd::arithmetic::div_mod::lemma_div_by_multiple;

verus! {

/// Does the ray `(o, d)` miss the sphere `s` over the range `(tmin, tmax)`:
/// either no real roots, or neither root strictly inside the range.
pub open spec fn misses(o: Vec3, d: Vec3, s: Sphere, tmin: int, tmax: int) -> bool {
    match spec_roots(o, d, s) {
        None => true,
        Some(ts) => !(tmin < ts.0 && ts.0 < tmax) && !(tmin < ts.1 && ts.1 < tmax),
    }
}

/// A scan over spheres that are all missed records no hit.
proof fn lemma_miss_upto(objs: Seq<Sphere>, o: Vec3, d: Vec3, tmin: int, tmax: int, n: int)
    requires
        n <= objs.len(),
        forall|i: int| 0 <= i < objs.len() ==> misses(o, d, #[trigger] objs[i], tmin, tmax),
    ensures
        closest_upto(objs, o, d, tmin, tmax, n) is None,
    decreases n,
{
    if n > 0 {
        lemma_miss_upto(objs, o, d, tmin, tmax, n - 1);
        assert(misses(o, d, objs[n - 1], tmin, tmax));
    }
}

/// A ray that misses every sphere of the scene traces to exactly the
/// background color.
pub proof fn lemma_miss_gives_background(scene: Scene, o: Vec3, d: Vec3, tmin: i64, tmax: i64)
    requires
        forall|i: int|
            0 <= i < scene.objects@.len() ==> misses(
                o,
                d,
                #[trigger] scene.objects@[i],
                tmin as int,
                tmax as int,
            ),
    ensures
        closest_hit(scene.objects@, o, d, tmin as int, tmax as int) is None,
        spec_trace(scene, o, d, tmin, tmax) == background(),
{
    lemma_miss_upto(scene.objects@, o, d, tmin as int, tmax as int, scene.objects@.len() as int);
}

/// For a ray whose direction has a positive dot product with itself, the
/// `-sqrt` root of an intersecting configuration never exceeds the `+sqrt`
/// root: the pair comes out as `(far, near)`.
pub proof fn lemma_roots_ordered(o: Vec3, d: Vec3, s: Sphere)
    requires
        v_dot(d, d) > 0,
    ensures
        match spec_roots(o, d, s) {
            None => true,
            Some(ts) => ts.1 <= ts.0,
        },
{
    let co = v_sub(o, s.center);
    let a = v_dot(d, d);
    let cd = v_dot(co, d);
    let b = sfadd(cd, cd);
    let rs = s.radius as int * (SCALE as int);
    let rsq = sfmul(rs, rs);
    let c = sfsub(v_dot(co, co), rsq);
    let disc = sfsub(sfmul(b, b), sfmul(FOUR_FIXED as int, sfmul(a, c)));
    if a != 0 && disc >= 0 {
        lemma_sqrt_floor_props(disc * (SCALE as int));
        let sq = sfsqrt(disc);
        assert(sq >= 0);
        let nb = sfsub(0, b);
        let den = sfadd(a, a);
        assert(den > 0);
        let num1 = sfadd(nb, sq);
        let num2 = sfsub(nb, sq);
        assert(num2 <= num1);
        lemma_tdiv_monotone(num2 * (SCALE as int), num1 * (SCALE as int), den);
        assert(sfdiv(num2, den) <= sfdiv(num1, den));
    }
}

/// Under a single ambient light the illumination at every point, normal and
/// view direction is exactly the light's intensity.
pub proof fn lemma_ambient_only_lighting(
    lights: Seq<Light>,
    point: Vec3,
    normal: Vec3,
    view: Vec3,
    sh: Option<i32>,
)
    requires
        lights.len() == 1,
        lights[0].kind is Ambient,
    ensures
        spec_lighting(lights, point, normal, view, sh) == sat64(lights[0].intensity as int),
{
    assert(illum_upto(lights, point, normal, view, sh, 0) == 0);
    assert(spec_lighting(lights, point, normal, view, sh) == add_light(
        0,
        lights[0],
        point,
        normal,
        view,
        sh,
    ));
}

/// In a scene lit by one ambient light of intensity `I`, every ray that hits
/// a sphere traces to that sphere's base color scaled by `I`, clamped per
/// channel; rays that hit nothing trace to the background color.
pub proof fn lemma_ambient_scene_pixel(scene: Scene, o: Vec3, d: Vec3, tmin: i64, tmax: i64)
    requires
        scene.lights@.len() == 1,
        scene.lights@[0].kind is Ambient,
    ensures
        match closest_hit(scene.objects@, o, d, tmin as int, tmax as int) {
            None => spec_trace(scene, o, d, tmin, tmax) == background(),
            Some(h) => spec_trace(scene, o, d, tmin, tmax) == spec_scale(
                scene.objects@[h.0].color,
                sat64(scene.lights@[0].intensity as int),
            ),
        },
{
    match closest_hit(scene.objects@, o, d, tmin as int, tmax as int) {
        None => {},
        Some(h) => {
            let s = scene.objects@[h.0];
            let point = v_add(o, v_scale(d, h.1 as int));
            let normal = v_normalize(v_sub(point, s.center));
            let view = v_neg(d);
            lemma_ambient_only_lighting(scene.lights@, point, normal, view, s.shininess);
        },
    }
}

/// The centered coordinate `(0, 0)` of any canvas lands on the buffer cell
/// `(width / 2, height / 2 - 1)`.
pub proof fn lemma_center_pixel_buffer_cell(c: Canvas)
    ensures
        c.buf_x(0) == c.spec_width() / 2,
        c.buf_y(0) == c.spec_height() / 2 - 1,
{
}

/// Scaling a color by the fixed-point one leaves every channel unchanged.
pub proof fn lemma_scale_by_one_is_identity(c: Color)
    ensures
        spec_scale(c, SCALE as int) == c,
{
    lemma_div_by_multiple(c.r as int, SCALE as int);
    lemma_div_by_multiple(c.g as int, SCALE as int);
    lemma_div_by_multiple(c.b as int, SCALE as int);
}

/// Scaling any color by zero gives black.
pub proof fn lemma_scale_by_zero_is_black(c: Color)
    ensures
        spec_scale(c, 0) == (Color { r: 0, g: 0, b: 0 }),
{
}

/// In a scene lit by one ambient light, every rendered pixel is either the
/// background color (its ray misses every sphere) or the hit sphere's base
/// color scaled by the light's intensity, clamped per channel.
pub proof fn lemma_ambient_scene_rendered_pixel(scene: Scene, cw: int, ch: int, x: int, y: int)
    requires
        scene.lights@.len() == 1,
        scene.lights@[0].kind is Ambient,
    ensures
        match closest_hit(
            scene.objects@,
            camera_origin(),
            spec_ctv(x, y, cw, ch, render_viewport()),
            SCALE as int,
            i64::MAX as int,
        ) {
            None => rendered_pixel(scene, cw, ch, x, y) == background(),
            Some(h) => rendered_pixel(scene, cw, ch, x, y) == spec_scale(
                scene.objects@[h.0].color,
                sat64(scene.lights@[0].intensity as int),
            ),
        },
{
    lemma_ambient_scene_pixel(
        scene,
        camera_origin(),
        spec_ctv(x, y, cw, ch, render_viewport()),
        SCALE,
        i64::MAX,
    );
}

/// The parametric distance of the nearest valid hit of one sphere alone, if
/// it is hit at all.
pub open spec fn best_t(s: Sphere, o: Vec3, d: Vec3, tmin: int, tmax: int) -> Option<i64> {
    match consider(None, 0, s, o, d, tmin, tmax) {
        None => None,
        Some(h) => Some(h.1),
    }
}

/// Two spheres on the same ray at different nearest distances: the tracer
/// selects the nearer sphere, and reversing the order of the objects list
/// does not change the traced color.
pub proof fn lemma_two_spheres_order_independent(
    sc1: Scene,
    sc2: Scene,
    o: Vec3,
    d: Vec3,
    tmin: i64,
    tmax: i64,
    a: Sphere,
    b: Sphere,
    ta: i64,
    tb: i64,
)
    requires
        sc1.objects@ == seq![a, b],
        sc2.objects@ == seq![b, a],
        sc1.lights@ == sc2.lights@,
        best_t(a, o, d, tmin as int, tmax as int) == Some(ta),
        best_t(b, o, d, tmin as int, tmax as int) == Some(tb),
        ta < tb,
    ensures
        spec_trace(sc1, o, d, tmin, tmax) == shade_hit(sc1, a, o, d, ta),
        spec_trace(sc2, o, d, tmin, tmax) == shade_hit(sc2, a, o, d, ta),
        spec_trace(sc1, o, d, tmin, tmax) == spec_trace(sc2, o, d, tmin, tmax),
{
    let tmi = tmin as int;
    let tma = tmax as int;
    assert(sc1.objects@[0] == a && sc1.objects@[1] == b);
    assert(sc2.objects@[0] == b && sc2.objects@[1] == a);
    assert(closest_upto(sc1.objects@, o, d, tmi, tma, 0) is None);
    assert(closest_upto(sc2.objects@, o, d, tmi, tma, 0) is None);
    assert(closest_upto(sc1.objects@, o, d, tmi, tma, 1) == consider(None, 0, a, o, d, tmi, tma));
    assert(closest_upto(sc2.objects@, o, d, tmi, tma, 1) == consider(None, 0, b, o, d, tmi, tma));
    assert(consider(None, 0, a, o, d, tmi, tma) == Some((0int, ta)));
    assert(consider(None, 0, b, o, d, tmi, tma) == Some((0int, tb)));
    assert(closest_upto(sc1.objects@, o, d, tmi, tma, 2) == consider(
        Some((0int, ta)),
        1,
        b,
        o,
        d,
        tmi,
        tma,
    ));
    assert(closest_upto(sc2.objects@, o, d, tmi, tma, 2) == consider(
        Some((0int, tb)),
        1,
        a,
        o,
        d,
        tmi,
        tma,
    ));
    assert(consider(Some((0int, ta)), 1, b, o, d, tmi, tma) == Some((0int, ta)));
    assert(consider(Some((0int, tb)), 1, a, o, d, tmi, tma) == Some((1int, ta)));
    assert(closest_hit(sc1.objects@, o, d, tmi, tma) == Some((0int, ta)));
    assert(closest_hit(sc2.objects@, o, d, tmi, tma) == Some((1int, ta)));
    assert(shade_hit(sc1, a, o, d, ta) == shade_hit(sc2, a, o, d, ta));
}

} // verus!
