//! Ray casting: projection, ray/sphere intersection, the local lighting
//! model, and the per-ray driver.

use vstd::prelude::*;
use crate::fixed::{
    sat64, tdiv, sfadd, sfsub, sfmul, sfdiv, sfsqrt, sfpow, max0, fadd, fsub, fmul, fdiv, fsqrt,
    fpow, fmax0, sat_to_i64, tdiv128, lemma_sfmul_nonneg, lemma_sfpow_nonneg, SCALE,
};
use crate::vec3::{
    Vec3, v_add, v_sub, v_neg, v_scale, v_dot, v_normalize, lemma_v_dot_self_nonneg,
};
use crate::color::{Color, spec_scale};
use crate::scene::{Scene, Sphere, Light, LightKind, light_wf, scene_wf};
use crate::canvas::Canvas;

verus! {

/// The virtual viewport: a plane of the given size at `distance`
/// (fixed-point) from the camera along the forward axis.
pub struct Viewport {
    pub width: u32,
    pub height: u32,
    pub distance: i64,
}

/// `4.0` at the fixed-point scale, the constant of the quadratic
/// discriminant.
pub const FOUR_FIXED: i64 = 4 * SCALE;

/// The color returned for rays that hit nothing.
pub open spec fn background() -> Color {
    Color { r: 255, g: 255, b: 255 }
}

/// The ray direction of the centered canvas pixel `(x, y)`: the pixel mapped
/// onto the viewport plane, `(x*vw/cw, y*vh/ch, distance)`, unnormalized.
pub open spec fn spec_ctv(x: int, y: int, cw: int, ch: int, vp: Viewport) -> Vec3 {
    Vec3 {
        x: sat64(tdiv(x * (SCALE as int) * (vp.width as int), cw)) as i64,
        y: sat64(tdiv(y * (SCALE as int) * (vp.height as int), ch)) as i64,
        z: vp.distance,
    }
}

/// One axis of the viewport mapping: `p * vsize / csize` at fixed scale.
fn ctv_axis(p: i32, vsize: u32, csize: u32) -> (r: i64)
    requires
        csize > 0,
    ensures
        r == sat64(tdiv(p as int * (SCALE as int) * (vsize as int), csize as int)),
{
    let a: i128 = (p as i128) * 1000;
    proof {
        assert(SCALE == 1000);
        assert(-0x400000000000000000000i128 <= a * (vsize as int) <= 0x400000000000000000000i128)
            by (nonlinear_arith)
            requires
                -0x80000000000i128 <= a <= 0x80000000000i128,
                0 <= (vsize as int) && (vsize as int) < 0x100000000,
        ;
    }
    let b: i128 = a * (vsize as i128);
    let q: i128 = tdiv128(b, csize as i128);
    sat_to_i64(q)
}

/// Maps a centered pixel coordinate to its ray direction through the
/// viewport.
pub fn canvas_to_viewport(x: i32, y: i32, canvas: &Canvas, viewport: &Viewport) -> (r: Vec3)
    requires
        canvas.spec_width() > 0,
        canvas.spec_height() > 0,
    ensures
        r == spec_ctv(
            x as int,
            y as int,
            canvas.spec_width(),
            canvas.spec_height(),
            *viewport,
        ),
{
    Vec3 {
        x: ctv_axis(x, viewport.width, canvas.width()),
        y: ctv_axis(y, viewport.height, canvas.height()),
        z: viewport.distance,
    }
}

/// The parametric distances at which a ray meets a sphere.
///
/// Solves `a t^2 + b t + c = 0` for `a = d.d`, `b = 2 (o - center).d`,
/// `c = (o - center).(o - center) - r^2` in fixed-point arithmetic.  `None`
/// stands for "no hit": a negative discriminant, or the degenerate ray whose
/// direction has a zero dot product with itself, which is rejected outright
/// rather than divided by.  Otherwise the two roots come in the order
/// `(+sqrt, -sqrt)`, unsorted; callers test both against their range.
pub open spec fn spec_roots(o: Vec3, d: Vec3, s: Sphere) -> Option<(i64, i64)> {
    let co = v_sub(o, s.center);
    let a = v_dot(d, d);
    let cd = v_dot(co, d);
    let b = sfadd(cd, cd);
    let rs = s.radius as int * (SCALE as int);
    let rsq = sfmul(rs, rs);
    let c = sfsub(v_dot(co, co), rsq);
    let disc = sfsub(sfmul(b, b), sfmul(FOUR_FIXED as int, sfmul(a, c)));
    if a == 0 || disc < 0 {
        None
    } else {
        let sq = sfsqrt(disc);
        let nb = sfsub(0, b);
        let den = sfadd(a, a);
        Some((sfdiv(sfadd(nb, sq), den) as i64, sfdiv(sfsub(nb, sq), den) as i64))
    }
}

/// Intersects a ray with a sphere; see `spec_roots`.
pub fn intersect_ray_sphere(origin: &Vec3, direction: &Vec3, sphere: &Sphere) -> (r: Option<
    (i64, i64),
>)
    ensures
        r == spec_roots(*origin, *direction, *sphere),
{
    let co: Vec3 = (*origin).sub(sphere.center);
    let a: i64 = (*direction).dot(*direction);
    proof {
        lemma_v_dot_self_nonneg(*direction);
    }
    let cd: i64 = co.dot(*direction);
    let b: i64 = fadd(cd, cd);
    let rs: i64 = (sphere.radius as i64) * SCALE;
    let rsq: i64 = fmul(rs, rs);
    let c: i64 = fsub(co.dot(co), rsq);
    let disc: i64 = fsub(fmul(b, b), fmul(FOUR_FIXED, fmul(a, c)));
    if a == 0 || disc < 0 {
        return None;
    }
    let sq: i64 = fsqrt(disc);
    let nb: i64 = fsub(0, b);
    let den: i64 = fadd(a, a);
    let t1: i64 = fdiv(fadd(nb, sq), den);
    let t2: i64 = fdiv(fsub(nb, sq), den);
    Some((t1, t2))
}

/// The shininess exponent, if present, is usable as a power.
pub open spec fn shininess_wf(sh: Option<i32>) -> bool {
    match sh {
        Some(e) => e >= 0,
        None => true,
    }
}

/// Diffuse and specular contribution of one non-ambient light reaching the
/// surface point from direction `ptl`, added onto `cur`.
pub open spec fn spec_apply(
    cur: int,
    inten: int,
    ptl: Vec3,
    normal: Vec3,
    view: Vec3,
    sh: Option<i32>,
) -> int {
    let nd = v_dot(normal, ptl);
    let cur1 = sfadd(cur, sfmul(inten, max0(nd)));
    match sh {
        None => cur1,
        Some(e) => {
            let refl = v_sub(v_scale(normal, sfadd(nd, nd)), ptl);
            let rv = v_dot(refl, v_normalize(view));
            sfadd(cur1, sfmul(inten, sfpow(max0(rv), e as nat)))
        },
    }
}

/// The illumination after one more light of the scene is taken into account.
pub open spec fn add_light(
    cur: int,
    l: Light,
    point: Vec3,
    normal: Vec3,
    view: Vec3,
    sh: Option<i32>,
) -> int {
    match l.kind {
        LightKind::Ambient => sfadd(cur, l.intensity as int),
        LightKind::Point(pos) => spec_apply(
            cur,
            l.intensity as int,
            v_normalize(v_sub(pos, point)),
            normal,
            view,
            sh,
        ),
        LightKind::Directional(dir) => spec_apply(
            cur,
            l.intensity as int,
            v_normalize(dir),
            normal,
            view,
            sh,
        ),
    }
}

/// The illumination summed over the first `n` lights.
pub open spec fn illum_upto(
    lights: Seq<Light>,
    point: Vec3,
    normal: Vec3,
    view: Vec3,
    sh: Option<i32>,
    n: int,
) -> int
    decreases n,
{
    if n <= 0 {
        0
    } else {
        add_light(
            illum_upto(lights, point, normal, view, sh, n - 1),
            lights[n - 1],
            point,
            normal,
            view,
            sh,
        )
    }
}

/// The total illumination at a surface point: ambient, diffuse and specular
/// contributions summed over every light of the scene (no shadow test).
pub open spec fn spec_lighting(
    lights: Seq<Light>,
    point: Vec3,
    normal: Vec3,
    view: Vec3,
    sh: Option<i32>,
) -> int {
    illum_upto(lights, point, normal, view, sh, lights.len() as int)
}

/// One well-formed light never darkens the running illumination below zero.
pub proof fn lemma_add_light_nonneg(
    cur: int,
    l: Light,
    point: Vec3,
    normal: Vec3,
    view: Vec3,
    sh: Option<i32>,
)
    requires
        cur >= 0,
        light_wf(l),
        shininess_wf(sh),
    ensures
        add_light(cur, l, point, normal, view, sh) >= 0,
{
    match l.kind {
        LightKind::Ambient => {},
        LightKind::Point(pos) => {
            lemma_spec_apply_nonneg(
                cur,
                l.intensity as int,
                v_normalize(v_sub(pos, point)),
                normal,
                view,
                sh,
            );
        },
        LightKind::Directional(dir) => {
            lemma_spec_apply_nonneg(cur, l.intensity as int, v_normalize(dir), normal, view, sh);
        },
    }
}

/// Diffuse and specular terms of a well-formed light are non-negative.
pub proof fn lemma_spec_apply_nonneg(
    cur: int,
    inten: int,
    ptl: Vec3,
    normal: Vec3,
    view: Vec3,
    sh: Option<i32>,
)
    requires
        cur >= 0,
        inten >= 0,
        shininess_wf(sh),
    ensures
        spec_apply(cur, inten, ptl, normal, view, sh) >= 0,
{
    let nd = v_dot(normal, ptl);
    lemma_sfmul_nonneg(inten, max0(nd));
    match sh {
        None => {},
        Some(e) => {
            let refl = v_sub(v_scale(normal, sfadd(nd, nd)), ptl);
            let rv = v_dot(refl, v_normalize(view));
            lemma_sfpow_nonneg(max0(rv), e as nat);
            lemma_sfmul_nonneg(inten, sfpow(max0(rv), e as nat));
        },
    }
}

/// The illumination over well-formed lights is non-negative.
pub proof fn lemma_illum_nonneg(
    lights: Seq<Light>,
    point: Vec3,
    normal: Vec3,
    view: Vec3,
    sh: Option<i32>,
    n: int,
)
    requires
        forall|i: int| 0 <= i < lights.len() ==> light_wf(#[trigger] lights[i]),
        shininess_wf(sh),
        n <= lights.len(),
    ensures
        illum_upto(lights, point, normal, view, sh, n) >= 0,
    decreases n,
{
    if n > 0 {
        lemma_illum_nonneg(lights, point, normal, view, sh, n - 1);
        lemma_add_light_nonneg(
            illum_upto(lights, point, normal, view, sh, n - 1),
            lights[n - 1],
            point,
            normal,
            view,
            sh,
        );
    }
}

/// Diffuse and specular contribution of one light, executable form.
fn apply_light(cur: i64, inten: i64, ptl: Vec3, normal: Vec3, view: Vec3, sh: Option<i32>) -> (r:
    i64)
    requires
        cur >= 0,
        inten >= 0,
        shininess_wf(sh),
    ensures
        r == spec_apply(cur as int, inten as int, ptl, normal, view, sh),
        r >= 0,
{
    proof {
        lemma_spec_apply_nonneg(cur as int, inten as int, ptl, normal, view, sh);
    }
    let nd: i64 = normal.dot(ptl);
    let cur1: i64 = fadd(cur, fmul(inten, fmax0(nd)));
    match sh {
        None => cur1,
        Some(e) => {
            let refl: Vec3 = normal.scale(fadd(nd, nd)).sub(ptl);
            let vn: Vec3 = view.normalize();
            let rv: i64 = refl.dot(vn);
            let sp: i64 = fpow(fmax0(rv), e as u32);
            fadd(cur1, fmul(inten, sp))
        },
    }
}

/// Sums the ambient, diffuse and specular contributions of every light in
/// the scene at the surface point `point` with outward unit normal `normal`,
/// seen from direction `view`.  No shadow test is performed: every light
/// always reaches every point.
pub fn compute_lighting(
    scene: &Scene,
    point: &Vec3,
    normal: &Vec3,
    view: &Vec3,
    shininess: Option<i32>,
) -> (r: i64)
    requires
        forall|i: int| 0 <= i < scene.lights@.len() ==> light_wf(#[trigger] scene.lights@[i]),
        shininess_wf(shininess),
    ensures
        r == spec_lighting(scene.lights@, *point, *normal, *view, shininess),
        r >= 0,
{
    let mut illum: i64 = 0;
    let n: usize = scene.lights.len();
    let mut i: usize = 0;
    while i < n
        invariant
            i <= n,
            n == scene.lights@.len(),
            forall|j: int| 0 <= j < scene.lights@.len() ==> light_wf(#[trigger] scene.lights@[j]),
            shininess_wf(shininess),
            illum >= 0,
            illum == illum_upto(scene.lights@, *point, *normal, *view, shininess, i as int),
        decreases n - i,
    {
        let light: &Light = &scene.lights[i];
        match &light.kind {
            LightKind::Ambient => {
                illum = fadd(illum, light.intensity);
            },
            LightKind::Point(pos) => {
                let ptl: Vec3 = (*pos).sub(*point).normalize();
                illum = apply_light(illum, light.intensity, ptl, *normal, *view, shininess);
            },
            LightKind::Directional(dir) => {
                let ptl: Vec3 = (*dir).normalize();
                illum = apply_light(illum, light.intensity, ptl, *normal, *view, shininess);
            },
        }
        proof {
            lemma_add_light_nonneg(
                illum_upto(scene.lights@, *point, *normal, *view, shininess, i as int),
                scene.lights@[i as int],
                *point,
                *normal,
                *view,
                shininess,
            );
        }
        i = i + 1;
    }
    illum
}

/// Is `t` a better hit than the current one?  Strictly nearer: at equal
/// distance the earlier candidate wins.
pub open spec fn better(prev: Option<(int, i64)>, t: i64) -> bool {
    match prev {
        None => true,
        Some(p) => t < p.1,
    }
}

/// The current hit updated with the candidate root `t` of the sphere at
/// `idx`: taken only when it lies strictly inside `(tmin, tmax)` and is
/// strictly nearer than the hit seen so far.
pub open spec fn upd(prev: Option<(int, i64)>, idx: int, t: i64, tmin: int, tmax: int) -> Option<
    (int, i64),
> {
    if tmin < t && t < tmax && better(prev, t) {
        Some((idx, t))
    } else {
        prev
    }
}

/// The current hit updated with both roots of the sphere at `idx`, the
/// `+sqrt` root first, as they are returned.
pub open spec fn consider(
    prev: Option<(int, i64)>,
    idx: int,
    s: Sphere,
    o: Vec3,
    d: Vec3,
    tmin: int,
    tmax: int,
) -> Option<(int, i64)> {
    match spec_roots(o, d, s) {
        None => prev,
        Some(ts) => upd(upd(prev, idx, ts.0, tmin, tmax), idx, ts.1, tmin, tmax),
    }
}

/// The closest hit among the first `n` spheres, scanned in order.
pub open spec fn closest_upto(
    objs: Seq<Sphere>,
    o: Vec3,
    d: Vec3,
    tmin: int,
    tmax: int,
    n: int,
) -> Option<(int, i64)>
    decreases n,
{
    if n <= 0 {
        None
    } else {
        consider(closest_upto(objs, o, d, tmin, tmax, n - 1), n - 1, objs[n - 1], o, d, tmin, tmax)
    }
}

/// The closest hit among all spheres: the index of the hit sphere and the
/// parametric distance of the hit.
pub open spec fn closest_hit(objs: Seq<Sphere>, o: Vec3, d: Vec3, tmin: int, tmax: int) -> Option<
    (int, i64),
> {
    closest_upto(objs, o, d, tmin, tmax, objs.len() as int)
}

/// A recorded hit points at a sphere of the scanned prefix and lies inside
/// the valid range.
pub proof fn lemma_closest_upto_props(
    objs: Seq<Sphere>,
    o: Vec3,
    d: Vec3,
    tmin: int,
    tmax: int,
    n: int,
)
    ensures
        match closest_upto(objs, o, d, tmin, tmax, n) {
            None => true,
            Some(h) => 0 <= h.0 < n && tmin < h.1 < tmax,
        },
    decreases n,
{
    if n > 0 {
        lemma_closest_upto_props(objs, o, d, tmin, tmax, n - 1);
    }
}

/// The color of the sphere `s` hit at distance `t`: its base color scaled by
/// the lighting at the hit point.
pub open spec fn shade_hit(scene: Scene, s: Sphere, o: Vec3, d: Vec3, t: i64) -> Color {
    let point = v_add(o, v_scale(d, t as int));
    let normal = v_normalize(v_sub(point, s.center));
    let illum = spec_lighting(scene.lights@, point, normal, v_neg(d), s.shininess);
    spec_scale(s.color, illum)
}

/// What a traced ray returns: the shaded color of the closest hit, or the
/// background color when every sphere is missed.
pub open spec fn spec_trace(scene: Scene, o: Vec3, d: Vec3, tmin: i64, tmax: i64) -> Color {
    match closest_hit(scene.objects@, o, d, tmin as int, tmax as int) {
        None => background(),
        Some(h) => shade_hit(scene, scene.objects@[h.0], o, d, h.1),
    }
}

/// Traces one ray through the scene: finds the closest sphere hit with a
/// parametric distance in `(t_min, t_max)` and shades it; rays that hit
/// nothing return the background color.
pub fn trace_ray(scene: &Scene, origin: &Vec3, direction: &Vec3, t_min: i64, t_max: i64) -> (r:
    Color)
    requires
        scene_wf(*scene),
    ensures
        r == spec_trace(*scene, *origin, *direction, t_min, t_max),
        closest_hit(scene.objects@, *origin, *direction, t_min as int, t_max as int) is None
            ==> r == background(),
{
    let n: usize = scene.objects.len();
    let mut have: bool = false;
    let mut best_idx: usize = 0;
    let mut best_t: i64 = 0;
    let mut i: usize = 0;
    while i < n
        invariant
            i <= n,
            n == scene.objects@.len(),
            have ==> best_idx < i,
            closest_upto(scene.objects@, *origin, *direction, t_min as int, t_max as int, i as int)
                == if have {
                    Some((best_idx as int, best_t))
                } else {
                    Option::<(int, i64)>::None
                },
        decreases n - i,
    {
        let roots: Option<(i64, i64)> = intersect_ray_sphere(origin, direction, &scene.objects[i]);
        match roots {
            None => {},
            Some((t1, t2)) => {
                if t_min < t1 && t1 < t_max && (!have || t1 < best_t) {
                    have = true;
                    best_idx = i;
                    best_t = t1;
                }
                if t_min < t2 && t2 < t_max && (!have || t2 < best_t) {
                    have = true;
                    best_idx = i;
                    best_t = t2;
                }
            },
        }
        i = i + 1;
    }
    if have {
        proof {
            lemma_closest_upto_props(
                scene.objects@,
                *origin,
                *direction,
                t_min as int,
                t_max as int,
                n as int,
            );
        }
        let sphere: &Sphere = &scene.objects[best_idx];
        let point: Vec3 = (*origin).add((*direction).scale(best_t));
        let normal: Vec3 = point.sub(sphere.center).normalize();
        let view: Vec3 = (*direction).neg();
        let illum: i64 = compute_lighting(scene, &point, &normal, &view, sphere.shininess);
        sphere.color.scale(illum)
    } else {
        Color { r: 255, g: 255, b: 255 }
    }
}

} // verus!
