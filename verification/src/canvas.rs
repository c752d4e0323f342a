//! The canvas: a pixel buffer addressed by centered coordinates.
//!
//! The origin `(0, 0)` is the image center.  A centered coordinate `(x, y)`
//! is translated on write to the buffer position
//! `(width / 2 + x, height / 2 - (y + 1))`, row-major.

use vstd::prelude::*;
use vstd::pervasive::VecAdditionalExecFns;
use crate::color::Color;

verus! {

/// A bidimensional grid of pixels that makes the final image.
pub struct Canvas {
    width: u32,
    height: u32,
    pixels: Vec<Color>,
}

impl Canvas {
    /// The pixel buffer in row-major order.
    pub closed spec fn pixels_seq(&self) -> Seq<Color> {
        self.pixels@
    }

    /// The width of the canvas.
    pub closed spec fn spec_width(&self) -> int {
        self.width as int
    }

    /// The height of the canvas.
    pub closed spec fn spec_height(&self) -> int {
        self.height as int
    }

    /// Well-formedness: the buffer holds exactly width * height pixels, and
    /// the dimensions fit the centered `i32` coordinate space and the buffer
    /// index space.
    pub open spec fn wf(&self) -> bool {
        &&& self.pixels_seq().len() == self.spec_width() * self.spec_height()
        &&& 0 <= self.spec_width() < 0x80000000
        &&& 0 <= self.spec_height() < 0x80000000
        &&& self.spec_width() * self.spec_height() <= usize::MAX
    }

    /// Buffer column of the centered column `x`.
    pub open spec fn buf_x(&self, x: int) -> int {
        self.spec_width() / 2 + x
    }

    /// Buffer row of the centered row `y`.
    pub open spec fn buf_y(&self, y: int) -> int {
        self.spec_height() / 2 - (y + 1)
    }

    /// Row-major buffer index of the centered coordinates `(x, y)`.
    pub open spec fn pixel_index(&self, x: int, y: int) -> int {
        self.buf_y(y) * self.spec_width() + self.buf_x(x)
    }

    /// The valid centered coordinate range:
    /// `x in [-width/2, width/2)`, `y in [-height/2, height/2)`.
    pub open spec fn in_range(&self, x: int, y: int) -> bool {
        &&& -(self.spec_width() / 2) <= x < self.spec_width() / 2
        &&& -(self.spec_height() / 2) <= y < self.spec_height() / 2
    }

    /// The pixel stored at the centered coordinates `(x, y)`.
    pub open spec fn pixel_at(&self, x: int, y: int) -> Color {
        self.pixels_seq()[self.pixel_index(x, y)]
    }

    /// Creates a new all-black canvas with the given resolution.
    pub fn new(width: u32, height: u32) -> (c: Canvas)
        requires
            width < 0x80000000,
            height < 0x80000000,
            width * height <= usize::MAX,
        ensures
            c.wf(),
            c.spec_width() == width,
            c.spec_height() == height,
            forall|i: int|
                0 <= i < c.pixels_seq().len() ==> c.pixels_seq()[i] == (Color { r: 0, g: 0, b: 0 }),
    {
        let total: usize = (width as usize) * (height as usize);
        let mut pixels: Vec<Color> = Vec::new();
        let mut i: usize = 0;
        while i < total
            invariant
                i <= total,
                pixels@.len() == i,
                forall|j: int|
                    0 <= j < i ==> pixels@[j] == (Color { r: 0, g: 0, b: 0 }),
            decreases total - i,
        {
            pixels.push(Color { r: 0, g: 0, b: 0 });
            i = i + 1;
        }
        Canvas { width, height, pixels }
    }

    /// The width of this canvas.
    pub fn width(&self) -> (w: u32)
        ensures
            w == self.spec_width(),
    {
        self.width
    }

    /// The height of this canvas.
    pub fn height(&self) -> (h: u32)
        ensures
            h == self.spec_height(),
    {
        self.height
    }

    /// Updates the pixel at the centered coordinates `(x, y)`.
    pub fn put_pixel(&mut self, x: i32, y: i32, pixel: Color)
        requires
            old(self).wf(),
            old(self).in_range(x as int, y as int),
        ensures
            final(self).wf(),
            final(self).spec_width() == old(self).spec_width(),
            final(self).spec_height() == old(self).spec_height(),
            final(self).pixels_seq() == old(self).pixels_seq().update(
                old(self).pixel_index(x as int, y as int),
                pixel,
            ),
    {
        let w: usize = self.width as usize;
        let h: usize = self.height as usize;
        let half_w: usize = w / 2;
        let half_h: usize = h / 2;
        let bx: usize = if x >= 0 {
            half_w + (x as usize)
        } else {
            half_w - ((-x) as usize)
        };
        let t: i32 = y + 1;
        let by: usize = if t >= 0 {
            half_h - (t as usize)
        } else {
            half_h + ((-t) as usize)
        };
        proof {
            assert(bx == self.buf_x(x as int));
            assert(by == self.buf_y(y as int));
            assert(bx < w);
            assert(by < h);
            assert(by * w + bx < w * h && by * w <= w * h) by (nonlinear_arith)
                requires
                    0 <= bx < w,
                    0 <= by < h,
            ;
        }
        let idx: usize = by * w + bx;
        self.pixels.set(idx, pixel);
    }

    /// The pixel at the buffer position `(bx, by)` (top-left origin).
    pub fn pixel(&self, bx: u32, by: u32) -> (c: Color)
        requires
            self.wf(),
            bx < self.spec_width(),
            by < self.spec_height(),
        ensures
            c == self.pixels_seq()[by * self.spec_width() + bx],
    {
        proof {
            assert(by as int * self.spec_width() + bx < self.spec_width() * self.spec_height()
                && by as int * self.spec_width() <= self.spec_width() * self.spec_height())
                by (nonlinear_arith)
                requires
                    0 <= bx < self.spec_width(),
                    0 <= by < self.spec_height(),
            ;
        }
        let idx: usize = (by as usize) * (self.width as usize) + (bx as usize);
        self.pixels[idx]
    }
}

} // verus!
