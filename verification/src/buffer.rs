//! The framebuffer grid.
//!
//! A buffer is a `width x height` grid of pixels in one row-major array,
//! stored from the visual top row down.  Write and read positions `(x, y)`
//! count `y` from the bottom, so every access flips `y`; out-of-bounds
//! writes are silently ignored while reads demand a position inside the
//! grid.  The pixel payload is generic: the host program renders into a
//! buffer of its floating-point colors and quantises into a buffer of
//! [`Rgb8`] values before serialising.

use vstd::prelude::*;

verus! {

/// A pixel quantised to 8 bits per channel, as written to the image file.
#[derive(Clone, Copy, Debug, PartialEq, Eq, Structural)]
pub struct Rgb8 {
    pub r: u8,
    pub g: u8,
    pub b: u8,
}

/// Row-major position of `(x, y)` in the pixel array: `y` counts from the
/// bottom of the picture while the array starts at the top row, so the row
/// index is flipped.
pub open spec fn spec_index_of(x: int, y: int, width: int, height: int) -> int {
    x + (height - y - 1) * width
}

/// A 2D grid of pixels with a remembered clear color.
pub struct Buffer<C> {
    width: usize,
    height: usize,
    data: Vec<C>,
    clear_color: C,
}

impl<C: Copy> Buffer<C> {
    /// Number of pixel columns.
    pub closed spec fn spec_width(self) -> int {
        self.width as int
    }

    /// Number of pixel rows.
    pub closed spec fn spec_height(self) -> int {
        self.height as int
    }

    /// The pixel array, visual top row first.
    pub closed spec fn pixels(self) -> Seq<C> {
        self.data@
    }

    /// The color the buffer was last cleared to (the sky color of a render).
    pub closed spec fn spec_clear_color(self) -> C {
        self.clear_color
    }

    /// The pixel array covers the grid exactly (the dimensions are machine
    /// words).
    pub open spec fn wf(self) -> bool {
        &&& 0 <= self.spec_width() <= usize::MAX
        &&& 0 <= self.spec_height() <= usize::MAX
        &&& self.pixels().len() == self.spec_width() * self.spec_height()
    }

    /// `(x, y)` names a pixel of the grid.
    pub open spec fn in_bounds(self, x: int, y: int) -> bool {
        0 <= x < self.spec_width() && 0 <= y < self.spec_height()
    }

    pub fn width(&self) -> (r: usize)
        ensures
            r as int == self.spec_width(),
    {
        self.width
    }

    pub fn height(&self) -> (r: usize)
        ensures
            r as int == self.spec_height(),
    {
        self.height
    }

    /// Reads back the remembered clear color.
    pub fn current_clear_color(&self) -> (r: C)
        ensures
            r == self.spec_clear_color(),
    {
        self.clear_color
    }

    /// A fresh grid with every pixel, and the clear color, set to `fill`.
    pub fn new(width: usize, height: usize, fill: C) -> (r: Buffer<C>)
        requires
            width * height <= usize::MAX,
        ensures
            r.wf(),
            r.spec_width() == width as int,
            r.spec_height() == height as int,
            r.spec_clear_color() == fill,
            forall|k: int| 0 <= k < r.pixels().len() ==> r.pixels()[k] == fill,
    {
        let n: usize = width * height;
        let mut data: Vec<C> = Vec::new();
        while data.len() < n
            invariant
                data.len() <= n,
                forall|k: int| 0 <= k < data@.len() ==> data@[k] == fill,
            decreases n - data.len(),
        {
            data.push(fill);
        }
        Buffer { width, height, data, clear_color: fill }
    }

    /// Repaints every pixel with `color` and records it as the clear color.
    pub fn clear_color(&mut self, color: C)
        requires
            old(self).wf(),
        ensures
            final(self).wf(),
            final(self).spec_width() == old(self).spec_width(),
            final(self).spec_height() == old(self).spec_height(),
            final(self).spec_clear_color() == color,
            final(self).pixels().len() == old(self).pixels().len(),
            forall|k: int| 0 <= k < final(self).pixels().len() ==> final(self).pixels()[k] == color,
    {
        self.clear_color = color;
        let n: usize = self.data.len();
        let mut k: usize = 0;
        while k < n
            invariant
                k <= n,
                n == self.data.len(),
                self.width == old(self).width,
                self.height == old(self).height,
                self.clear_color == color,
                forall|m: int| 0 <= m < k ==> self.data@[m] == color,
            decreases n - k,
        {
            self.data.set(k, color);
            k = k + 1;
        }
    }

    /// Writes `color` at `(x, y)`, flipping `y`; positions off the grid are
    /// silently ignored, since ray-traced coordinates can round to an edge.
    pub fn set_pixel(&mut self, x: usize, y: usize, color: C)
        requires
            old(self).wf(),
        ensures
            final(self).wf(),
            final(self).spec_width() == old(self).spec_width(),
            final(self).spec_height() == old(self).spec_height(),
            final(self).spec_clear_color() == old(self).spec_clear_color(),
            old(self).in_bounds(x as int, y as int) ==> final(self).pixels() == old(
                self,
            ).pixels().update(
                spec_index_of(x as int, y as int, old(self).spec_width(), old(self).spec_height()),
                color,
            ),
            !old(self).in_bounds(x as int, y as int) ==> final(self).pixels() == old(self).pixels(),
    {
        if x < self.width && y < self.height {
            // Reading the length as a usize pins the array size to a
            // machine word, which the index arithmetic below needs.
            let _pixel_count: usize = self.data.len();
            proof {
                lemma_index_in_range(
                    x as int,
                    y as int,
                    self.spec_width(),
                    self.spec_height(),
                );
            }
            let index: usize = x + (self.height - y - 1) * self.width;
            self.data.set(index, color);
        }
    }

    /// Reads the pixel at `(x, y)`, flipping `y`; the position must be on
    /// the grid.
    pub fn get_pixel(&self, x: usize, y: usize) -> (r: C)
        requires
            self.wf(),
            self.in_bounds(x as int, y as int),
        ensures
            r == self.pixels()[spec_index_of(x as int, y as int, self.spec_width(), self.spec_height())],
    {
        // Reading the length as a usize pins the array size to a machine
        // word, which the index arithmetic below needs.
        let _pixel_count: usize = self.data.len();
        proof {
            lemma_index_in_range(x as int, y as int, self.spec_width(), self.spec_height());
        }
        let index: usize = x + (self.height - y - 1) * self.width;
        self.data[index]
    }

    /// Writes `color` directly at position `idx` of the pixel array; an
    /// index past the end is silently ignored.
    pub fn write_pixel_by_idx(&mut self, idx: usize, color: C)
        requires
            old(self).wf(),
        ensures
            final(self).wf(),
            final(self).spec_width() == old(self).spec_width(),
            final(self).spec_height() == old(self).spec_height(),
            final(self).spec_clear_color() == old(self).spec_clear_color(),
            idx < old(self).pixels().len() ==> final(self).pixels() == old(self).pixels().update(
                idx as int,
                color,
            ),
            idx >= old(self).pixels().len() ==> final(self).pixels() == old(self).pixels(),
    {
        if idx < self.data.len() {
            self.data.set(idx, color);
        }
    }
}

/// The 2x2 block of pixels that the downsampled pixel `k` averages:
/// top-left, top-right, bottom-left, bottom-right in array order, out of a
/// row-major array `width` pixels wide.
pub open spec fn shrink_block<C>(data: Seq<C>, width: int, k: int) -> (C, C, C, C) {
    let xx = k % (width / 2);
    let yy = k / (width / 2);
    (
        data[2 * yy * width + 2 * xx],
        data[2 * yy * width + 2 * xx + 1],
        data[(2 * yy + 1) * width + 2 * xx],
        data[(2 * yy + 1) * width + 2 * xx + 1],
    )
}

impl<C: Copy> Buffer<C> {
    /// Replaces the grid by its 2x2 box-downsample: pixel `k` of the new
    /// grid is `avg` applied to its 2x2 block of the old grid.  Dimensions
    /// halve, rounding down; an odd last row or column is dropped.
    pub fn shrink_by_two<F: Fn(C, C, C, C) -> C>(&mut self, avg: F)
        requires
            old(self).wf(),
            forall|args: (C, C, C, C)| call_requires(avg, args),
        ensures
            final(self).wf(),
            final(self).spec_width() == old(self).spec_width() / 2,
            final(self).spec_height() == old(self).spec_height() / 2,
            final(self).spec_clear_color() == old(self).spec_clear_color(),
            forall|k: int|
                0 <= k < final(self).pixels().len() ==> call_ensures(
                    avg,
                    shrink_block(old(self).pixels(), old(self).spec_width(), k),
                    #[trigger] final(self).pixels()[k],
                ),
    {
        let w: usize = self.width;
        let h: usize = self.height;
        let nw: usize = w / 2;
        let nh: usize = h / 2;
        let n: usize = self.data.len();
        let mut new_data: Vec<C> = Vec::new();
        let mut yy: usize = 0;
        while yy < nh
            invariant
                yy <= nh,
                w == self.width,
                h == self.height,
                nw == w / 2,
                nh == h / 2,
                n == self.data.len(),
                self == old(self),
                old(self).wf(),
                forall|args: (C, C, C, C)| call_requires(avg, args),
                new_data@.len() == yy * nw,
                forall|k: int|
                    0 <= k < new_data@.len() ==> call_ensures(
                        avg,
                        shrink_block(old(self).pixels(), old(self).spec_width(), k),
                        #[trigger] new_data@[k],
                    ),
            decreases nh - yy,
        {
            let mut xx: usize = 0;
            while xx < nw
                invariant
                    yy < nh,
                    xx <= nw,
                    w == self.width,
                    h == self.height,
                    nw == w / 2,
                    nh == h / 2,
                    n == self.data.len(),
                    self == old(self),
                    old(self).wf(),
                    forall|args: (C, C, C, C)| call_requires(avg, args),
                    new_data@.len() == yy * nw + xx,
                    forall|k: int|
                        0 <= k < new_data@.len() ==> call_ensures(
                            avg,
                            shrink_block(old(self).pixels(), old(self).spec_width(), k),
                            #[trigger] new_data@[k],
                        ),
                decreases nw - xx,
            {
                proof {
                    lemma_shrink_indices(xx as int, yy as int, w as int, h as int);
                }
                let row0: usize = (2 * yy) * w;
                let row1: usize = (2 * yy + 1) * w;
                let a: C = self.data[row0 + 2 * xx];
                let b: C = self.data[row0 + 2 * xx + 1];
                let c: C = self.data[row1 + 2 * xx];
                let d: C = self.data[row1 + 2 * xx + 1];
                let v: C = avg(a, b, c, d);
                new_data.push(v);
                proof {
                    lemma_flat_index(xx as int, yy as int, nw as int);
                    assert(shrink_block(old(self).pixels(), old(self).spec_width(), yy * nw + xx)
                        == (a, b, c, d));
                }
                xx = xx + 1;
            }
            yy = yy + 1;
            proof {
                assert((yy - 1) * nw + nw == yy * nw) by (nonlinear_arith);
            }
        }
        proof {
            assert(nw * nh == nh * nw) by (nonlinear_arith);
        }
        self.width = nw;
        self.height = nh;
        self.data = new_data;
    }
}

impl Buffer<Rgb8> {
    /// Serialises the grid to raw image bytes: three bytes per pixel in
    /// R, G, B order, pixels in array order (row-major from the visual
    /// top), no padding.
    pub fn into_vec(&self) -> (r: Vec<u8>)
        ensures
            r@.len() == 3 * self.pixels().len(),
            forall|k: int|
                0 <= k < self.pixels().len() ==> r@[3 * k] == self.pixels()[k].r && r@[3 * k + 1]
                    == self.pixels()[k].g && r@[3 * k + 2] == self.pixels()[k].b,
    {
        let n: usize = self.data.len();
        let mut out: Vec<u8> = Vec::new();
        let mut k: usize = 0;
        while k < n
            invariant
                k <= n,
                n == self.data.len(),
                out@.len() == 3 * k,
                forall|m: int|
                    0 <= m < k ==> out@[3 * m] == self.data@[m].r && out@[3 * m + 1]
                        == self.data@[m].g && out@[3 * m + 2] == self.data@[m].b,
            decreases n - k,
        {
            let c: Rgb8 = self.data[k];
            out.push(c.r);
            out.push(c.g);
            out.push(c.b);
            k = k + 1;
        }
        out
    }
}

/// Pixel `k = yy * nw + xx` of a row-major array `nw` wide sits at column
/// `xx` of row `yy`.
proof fn lemma_flat_index(xx: int, yy: int, nw: int)
    requires
        0 <= xx < nw,
        0 <= yy,
    ensures
        (yy * nw + xx) % nw == xx,
        (yy * nw + xx) / nw == yy,
{
    assert((yy * nw + xx) % nw == xx && (yy * nw + xx) / nw == yy) by (nonlinear_arith)
        requires
            0 <= xx < nw,
            0 <= yy,
    ;
}

/// The 2x2 block of downsampled pixel `(xx, yy)` lies inside the old array.
proof fn lemma_shrink_indices(xx: int, yy: int, w: int, h: int)
    requires
        0 <= xx < w / 2,
        0 <= yy < h / 2,
    ensures
        0 <= 2 * yy * w,
        (2 * yy + 1) * w + 2 * xx + 1 < w * h,
        2 * yy * w + 2 * xx + 1 < (2 * yy + 1) * w,
{
    assert(0 <= 2 * yy * w && (2 * yy + 1) * w + 2 * xx + 1 < w * h && 2 * yy * w + 2 * xx + 1 < (2
        * yy + 1) * w) by (nonlinear_arith)
        requires
            0 <= xx < w / 2,
            0 <= yy < h / 2,
    ;
}

/// Law: writing a pixel and then reading the same position yields the
/// written color.  The hypotheses are what [`Buffer::set_pixel`] ensures
/// of an in-bounds write; the conclusion is what [`Buffer::get_pixel`]
/// then returns.
pub proof fn lemma_set_then_get<C: Copy>(pre: Buffer<C>, post: Buffer<C>, x: int, y: int, c: C)
    requires
        pre.wf(),
        pre.in_bounds(x, y),
        post.spec_width() == pre.spec_width(),
        post.spec_height() == pre.spec_height(),
        post.pixels() == pre.pixels().update(
            spec_index_of(x, y, pre.spec_width(), pre.spec_height()),
            c,
        ),
    ensures
        post.wf(),
        post.in_bounds(x, y),
        post.pixels()[spec_index_of(x, y, post.spec_width(), post.spec_height())] == c,
{
    lemma_index_in_range(x, y, pre.spec_width(), pre.spec_height());
}

/// Law: downsampling a grid of constant color `c` yields a grid of
/// constant color `c` at halved dimensions, whenever the averaging
/// function maps an all-`c` block back to `c` (as any exact average
/// does).  The hypotheses about `post` are what
/// [`Buffer::shrink_by_two`] ensures.
pub proof fn lemma_shrink_constant<C: Copy, F: Fn(C, C, C, C) -> C>(
    pre: Buffer<C>,
    post: Buffer<C>,
    avg: F,
    c: C,
)
    requires
        pre.wf(),
        post.wf(),
        forall|k: int| 0 <= k < pre.pixels().len() ==> pre.pixels()[k] == c,
        forall|r: C| call_ensures(avg, (c, c, c, c), r) ==> r == c,
        post.spec_width() == pre.spec_width() / 2,
        post.spec_height() == pre.spec_height() / 2,
        forall|k: int|
            0 <= k < post.pixels().len() ==> call_ensures(
                avg,
                shrink_block(pre.pixels(), pre.spec_width(), k),
                #[trigger] post.pixels()[k],
            ),
    ensures
        forall|k: int| 0 <= k < post.pixels().len() ==> post.pixels()[k] == c,
{
    let w = pre.spec_width();
    let h = pre.spec_height();
    let nw = w / 2;
    let nh = h / 2;
    assert forall|k: int| 0 <= k < post.pixels().len() implies post.pixels()[k] == c by {
        assert(post.pixels().len() == nw * nh);
        let xx = k % nw;
        let yy = k / nw;
        assert(0 <= xx < nw && 0 <= yy < nh) by (nonlinear_arith)
            requires
                0 <= k < nw * nh,
                xx == k % nw,
                yy == k / nw,
                0 < nw,
        ;
        lemma_shrink_indices(xx, yy, w, h);
        assert(shrink_block(pre.pixels(), w, k) == (c, c, c, c));
    }
}

/// Law: clearing to a color `c` and serialising yields `3 * width *
/// height` bytes, each pixel contributing the three channels of `c`.  The
/// hypotheses are what [`Buffer::clear_color`] ensures of the grid and
/// what [`Buffer::into_vec`] ensures of the bytes.
pub proof fn lemma_clear_then_bytes(buf: Buffer<Rgb8>, bytes: Seq<u8>, c: Rgb8)
    requires
        buf.wf(),
        forall|k: int| 0 <= k < buf.pixels().len() ==> buf.pixels()[k] == c,
        bytes.len() == 3 * buf.pixels().len(),
        forall|k: int|
            0 <= k < buf.pixels().len() ==> bytes[3 * k] == buf.pixels()[k].r && bytes[3 * k + 1]
                == buf.pixels()[k].g && bytes[3 * k + 2] == buf.pixels()[k].b,
    ensures
        bytes.len() == 3 * (buf.spec_width() * buf.spec_height()),
        forall|k: int|
            0 <= k < buf.spec_width() * buf.spec_height() ==> #[trigger] bytes[3 * k] == c.r
                && bytes[3 * k + 1] == c.g && bytes[3 * k + 2] == c.b,
{
    assert forall|k: int|
        0 <= k < buf.spec_width() * buf.spec_height() implies #[trigger] bytes[3 * k] == c.r
        && bytes[3 * k + 1] == c.g && bytes[3 * k + 2] == c.b by {
        assert(buf.pixels()[k] == c);
    }
}

/// A position on the grid lands inside the pixel array.
proof fn lemma_index_in_range(x: int, y: int, width: int, height: int)
    requires
        0 <= x < width,
        0 <= y < height,
    ensures
        0 <= spec_index_of(x, y, width, height) < width * height,
{
    assert(0 <= x + (height - y - 1) * width < width * height) by (nonlinear_arith)
        requires
            0 <= x < width,
            0 <= y < height,
    ;
}

} // verus!
