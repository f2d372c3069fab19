//! A RAM framebuffer for one rectangular region of the panel: primitives are
//! rendered into a plain pixel vector, then the whole region is pushed to the
//! panel in a single transfer, which is what lets the clock box repaint every
//! second without flicker. The buffer is generic in its pixel color.

use vstd::prelude::*;

verus! {

/// A `width`×`height` pixel buffer, row-major.
pub struct FrameBuf<C> {
    buf: Vec<C>,
    width: u32,
    height: u32,
}

impl<C> FrameBuf<C> {
    /// The buffer holds exactly one pixel per position.
    pub closed spec fn wf(self) -> bool {
        &&& self.buf@.len() == self.width * self.height
        &&& self.width * self.height <= u32::MAX
    }

    /// The pixels, row by row.
    pub closed spec fn pixels(self) -> Seq<C> {
        self.buf@
    }

    /// The width in pixels.
    pub closed spec fn spec_width(self) -> nat {
        self.width as nat
    }

    /// The height in pixels.
    pub closed spec fn spec_height(self) -> nat {
        self.height as nat
    }
}

/// The row-major index of pixel `(x, y)` in a buffer `width` wide.
pub open spec fn pixel_index(x: int, y: int, width: int) -> int {
    y * width + x
}

/// Whether `(x, y)` lies inside a `width`×`height` buffer.
pub open spec fn in_bounds(x: int, y: int, width: int, height: int) -> bool {
    0 <= x < width && 0 <= y < height
}

impl<C: Copy> FrameBuf<C> {
    /// Allocates a `width`×`height` buffer, every pixel `fill`.
    pub fn new(width: u32, height: u32, fill: C) -> (f: Self)
        requires
            width * height <= u32::MAX,
        ensures
            f.wf(),
            f.spec_width() == width,
            f.spec_height() == height,
            f.pixels() == Seq::new((width * height) as nat, |i: int| fill),
    {
        let n = width * height;
        let mut buf: Vec<C> = Vec::new();
        let mut i: u32 = 0;
        while i < n
            invariant
                i <= n,
                buf@ == Seq::new(i as nat, |k: int| fill),
            decreases n - i,
        {
            buf.push(fill);
            proof {
                assert(buf@ =~= Seq::new((i + 1) as nat, |k: int| fill));
            }
            i = i + 1;
        }
        FrameBuf { buf, width, height }
    }

    /// Resets every pixel to `color`, so nothing of the previous frame
    /// lingers.
    pub fn clear_fill(&mut self, color: C)
        requires
            old(self).wf(),
        ensures
            final(self).wf(),
            final(self).spec_width() == old(self).spec_width(),
            final(self).spec_height() == old(self).spec_height(),
            final(self).pixels() == Seq::new(old(self).pixels().len(), |i: int| color),
    {
        let n = self.buf.len();
        let mut i: usize = 0;
        while i < n
            invariant
                i <= n,
                n == self.buf@.len(),
                self.buf@.len() == self.width * self.height,
                self.width * self.height <= u32::MAX,
                self.width == old(self).width,
                self.height == old(self).height,
                n == old(self).buf@.len(),
                forall|k: int| 0 <= k < i ==> self.buf@[k] == color,
            decreases n - i,
        {
            self.buf.set(i, color);
            i = i + 1;
        }
        proof {
            assert(self.buf@ =~= Seq::new(old(self).pixels().len(), |k: int| color));
        }
    }

    /// The width in pixels.
    pub fn width(&self) -> (w: u32)
        ensures
            w == self.spec_width(),
    {
        self.width
    }

    /// The height in pixels.
    pub fn height(&self) -> (h: u32)
        ensures
            h == self.spec_height(),
    {
        self.height
    }

    /// Paints pixel `(x, y)`. A point outside the buffer is dropped: the
    /// primitives are drawn in buffer-local coordinates, and clipping keeps a
    /// stray draw from faulting.
    pub fn set_pixel(&mut self, x: i32, y: i32, color: C)
        requires
            old(self).wf(),
        ensures
            final(self).wf(),
            final(self).spec_width() == old(self).spec_width(),
            final(self).spec_height() == old(self).spec_height(),
            final(self).pixels() == if in_bounds(x as int, y as int, old(self).spec_width() as int, old(self).spec_height() as int) {
                old(self).pixels().update(pixel_index(x as int, y as int, old(self).spec_width() as int), color)
            } else {
                old(self).pixels()
            },
    {
        if x >= 0 && y >= 0 && (x as u32) < self.width && (y as u32) < self.height {
            let w = self.width;
            let xx = x as u32;
            let yy = y as u32;
            assert(yy * w + xx < w * self.height) by (nonlinear_arith)
                requires
                    xx < w,
                    yy < self.height,
            ;
            assert(x as int == xx && y as int == yy);
            let idx = yy * w + xx;
            self.buf.set(idx as usize, color);
        }
    }

    /// The pixels, row by row, for pushing to the panel.
    pub fn pixels_slice(&self) -> (s: &[C])
        ensures
            s@ == self.pixels(),
    {
        self.buf.as_slice()
    }
}

} // verus!
