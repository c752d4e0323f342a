//! The render driver: one ray per canvas pixel.

use vstd::prelude::*;
use crate::fixed::SCALE;
use crate::vec3::Vec3;
use crate::color::Color;
use crate::scene::{Scene, scene_wf};
use crate::canvas::Canvas;
use crate::tracing::{Viewport, spec_ctv, spec_trace, canvas_to_viewport, trace_ray};

verus! {

/// The fixed camera position.
pub open spec fn camera_origin() -> Vec3 {
    Vec3 { x: 0, y: 0, z: 0 }
}

/// The viewport `render` projects through: a unit square at distance one
/// from the camera.
pub open spec fn render_viewport() -> Viewport {
    Viewport { width: 1, height: 1, distance: SCALE }
}

/// The color `render` owes the centered pixel `(x, y)` of a `cw` by `ch`
/// canvas: its ray traced through the scene from the camera, with hits
/// accepted from parametric distance one outward.
pub open spec fn rendered_pixel(scene: Scene, cw: int, ch: int, x: int, y: int) -> Color {
    spec_trace(scene, camera_origin(), spec_ctv(x, y, cw, ch, render_viewport()), SCALE, i64::MAX)
}

/// Is the buffer index `i` the image of some valid centered coordinate?
pub open spec fn covered(c: Canvas, i: int) -> bool {
    exists|x: int, y: int| c.in_range(x, y) && i == c.pixel_index(x, y)
}

/// A valid centered coordinate maps to a valid buffer index.
pub proof fn lemma_pixel_index_bounds(c: Canvas, x: int, y: int)
    requires
        c.wf(),
        c.in_range(x, y),
    ensures
        0 <= c.pixel_index(x, y) < c.pixels_seq().len(),
{
    let w = c.spec_width();
    let h = c.spec_height();
    let bx = c.buf_x(x);
    let by = c.buf_y(y);
    assert(0 <= bx < w);
    assert(0 <= by < h);
    assert(0 <= by * w + bx < w * h) by (nonlinear_arith)
        requires
            0 <= bx < w,
            0 <= by < h,
    ;
}

/// Distinct valid centered coordinates map to distinct buffer indices.
pub proof fn lemma_pixel_index_injective(c: Canvas, x1: int, y1: int, x2: int, y2: int)
    requires
        c.wf(),
        c.in_range(x1, y1),
        c.in_range(x2, y2),
        !(x1 == x2 && y1 == y2),
    ensures
        c.pixel_index(x1, y1) != c.pixel_index(x2, y2),
{
    let w = c.spec_width();
    if c.buf_y(y1) == c.buf_y(y2) {
        assert(y1 == y2);
        assert(c.buf_x(x1) != c.buf_x(x2));
        assert(c.buf_y(y1) * w + c.buf_x(x1) != c.buf_y(y2) * w + c.buf_x(x2));
    } else {
        assert(c.buf_y(y1) * w + c.buf_x(x1) != c.buf_y(y2) * w + c.buf_x(x2))
            by (nonlinear_arith)
            requires
                0 <= c.buf_x(x1) < w,
                0 <= c.buf_x(x2) < w,
                c.buf_y(y1) != c.buf_y(y2),
        ;
    }
}

/// Renders the scene onto the canvas: every pixel of the valid centered
/// range receives the color of its ray; every buffer cell outside that range
/// keeps its old value.
pub fn render(canvas: &mut Canvas, scene: &Scene)
    requires
        old(canvas).wf(),
        scene_wf(*scene),
    ensures
        final(canvas).wf(),
        final(canvas).spec_width() == old(canvas).spec_width(),
        final(canvas).spec_height() == old(canvas).spec_height(),
        forall|x: int, y: int|
            old(canvas).in_range(x, y) ==> final(canvas).pixel_at(x, y) == rendered_pixel(
                *scene,
                old(canvas).spec_width(),
                old(canvas).spec_height(),
                x,
                y,
            ),
        forall|i: int|
            0 <= i < old(canvas).pixels_seq().len() && !covered(*old(canvas), i)
                ==> final(canvas).pixels_seq()[i] == old(canvas).pixels_seq()[i],
{
    let ghost cw: int = old(canvas).spec_width();
    let ghost ch: int = old(canvas).spec_height();
    let origin: Vec3 = Vec3 { x: 0, y: 0, z: 0 };
    let viewport: Viewport = Viewport { width: 1, height: 1, distance: SCALE };
    let hw: i32 = (canvas.width() / 2) as i32;
    let hh: i32 = (canvas.height() / 2) as i32;
    let mut x: i32 = 0 - hw;
    while x < hw
        invariant
            canvas.wf(),
            canvas.spec_width() == cw,
            canvas.spec_height() == ch,
            old(canvas).wf(),
            old(canvas).spec_width() == cw,
            old(canvas).spec_height() == ch,
            scene_wf(*scene),
            origin == camera_origin(),
            viewport == render_viewport(),
            hw == cw / 2,
            hh == ch / 2,
            -hw <= x <= hw,
            forall|px: int, py: int|
                canvas.in_range(px, py) && px < x ==> canvas.pixel_at(px, py) == rendered_pixel(
                    *scene,
                    cw,
                    ch,
                    px,
                    py,
                ),
            forall|i: int|
                0 <= i < old(canvas).pixels_seq().len() && !covered(*old(canvas), i)
                    ==> canvas.pixels_seq()[i] == old(canvas).pixels_seq()[i],
        decreases hw - x,
    {
        let mut y: i32 = 0 - hh;
        while y < hh
            invariant
                canvas.wf(),
                canvas.spec_width() == cw,
                canvas.spec_height() == ch,
                old(canvas).wf(),
                old(canvas).spec_width() == cw,
                old(canvas).spec_height() == ch,
                scene_wf(*scene),
                origin == camera_origin(),
                viewport == render_viewport(),
                hw == cw / 2,
                hh == ch / 2,
                -hw <= x < hw,
                -hh <= y <= hh,
                forall|px: int, py: int|
                    canvas.in_range(px, py) && px < x ==> canvas.pixel_at(px, py)
                        == rendered_pixel(*scene, cw, ch, px, py),
                forall|py: int|
                    -hh <= py < y ==> canvas.pixel_at(x as int, py) == rendered_pixel(
                        *scene,
                        cw,
                        ch,
                        x as int,
                        py,
                    ),
                forall|i: int|
                    0 <= i < old(canvas).pixels_seq().len() && !covered(*old(canvas), i)
                        ==> canvas.pixels_seq()[i] == old(canvas).pixels_seq()[i],
            decreases hh - y,
        {
            let direction: Vec3 = canvas_to_viewport(x, y, canvas, &viewport);
            let color = trace_ray(scene, &origin, &direction, SCALE, i64::MAX);
            let ghost before: Canvas = *canvas;
            canvas.put_pixel(x, y, color);
            proof {
                lemma_pixel_index_bounds(before, x as int, y as int);
                assert(canvas.pixel_at(x as int, y as int) == color);
                assert forall|px: int, py: int|
                    canvas.in_range(px, py) && px < x implies canvas.pixel_at(px, py)
                    == rendered_pixel(*scene, cw, ch, px, py) by {
                    lemma_pixel_index_injective(before, px, py, x as int, y as int);
                    lemma_pixel_index_bounds(before, px, py);
                    assert(before.in_range(px, py));
                    assert(before.pixel_at(px, py) == rendered_pixel(*scene, cw, ch, px, py));
                    assert(canvas.pixel_index(px, py) == before.pixel_index(px, py));
                    assert(canvas.pixels_seq()[before.pixel_index(px, py)]
                        == before.pixels_seq()[before.pixel_index(px, py)]);
                }
                assert forall|py: int| -hh <= py < y + 1 implies canvas.pixel_at(x as int, py)
                    == rendered_pixel(*scene, cw, ch, x as int, py) by {
                    if py < y {
                        lemma_pixel_index_injective(before, x as int, py, x as int, y as int);
                        lemma_pixel_index_bounds(before, x as int, py);
                        assert(before.pixel_at(x as int, py) == rendered_pixel(
                            *scene,
                            cw,
                            ch,
                            x as int,
                            py,
                        ));
                        assert(canvas.pixels_seq()[before.pixel_index(x as int, py)]
                            == before.pixels_seq()[before.pixel_index(x as int, py)]);
                    } else {
                        assert(canvas.pixel_at(x as int, y as int) == color);
                    }
                }
                assert forall|i: int|
                    0 <= i < old(canvas).pixels_seq().len() && !covered(*old(canvas), i)
                    implies canvas.pixels_seq()[i] == old(canvas).pixels_seq()[i] by {
                    assert(old(canvas).in_range(x as int, y as int));
                    assert(before.pixel_index(x as int, y as int) == old(canvas).pixel_index(
                        x as int,
                        y as int,
                    ));
                    assert(covered(*old(canvas), old(canvas).pixel_index(x as int, y as int)));
                    assert(i != before.pixel_index(x as int, y as int));
                    assert(before.pixels_seq()[i] == old(canvas).pixels_seq()[i]);
                    assert(canvas.pixels_seq() == before.pixels_seq().update(
                        before.pixel_index(x as int, y as int),
                        color,
                    ));
                }
            }
            y = y + 1;
        }
        x = x + 1;
    }
}

} // verus!
