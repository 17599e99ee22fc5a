//! Tile-parallel dispatch of the primary pass.
//!
//! The sampler walks pixels in centered coordinates: rows `i` ascending
//! from `-height/2`, and within each row columns `j` ascending from
//! `-width/2`.  For parallel rendering the row range is split into
//! `workers` contiguous bands; each worker emits its band's pixels in that
//! same row-major order, and the collected outputs are joined in band
//! order and copied into the framebuffer by array index.  The lemmas at
//! the end pin the determinism of this composition: the joined bands are
//! the plain row-major pixel order, whatever the worker count.

use crate::buffer::Buffer;
use vstd::arithmetic::div_mod::lemma_fundamental_div_mod;
use vstd::arithmetic::div_mod::lemma_fundamental_div_mod_converse;
use vstd::prelude::*;

verus! {

/// Centered row bounds `[lo, hi)` of worker `k` out of `workers`: the
/// bands are contiguous, each `height / workers` rows tall, starting at
/// row `-height/2`.
pub open spec fn spec_band_bounds(height: int, workers: int, k: int) -> (int, int) {
    (-(height / 2) + (height / workers) * k, -(height / 2) + (height / workers) * (k + 1))
}

/// Computes the centered row bounds of worker `k`'s band.
pub fn band_bounds(height: i32, workers: i32, k: i32) -> (r: (i32, i32))
    requires
        0 <= height,
        0 < workers,
        0 <= k < workers,
    ensures
        r.0 as int == spec_band_bounds(height as int, workers as int, k as int).0,
        r.1 as int == spec_band_bounds(height as int, workers as int, k as int).1,
{
    let rows: i32 = height / workers;
    proof {
        assert(0 <= rows * k <= rows * (k + 1) <= rows * workers <= height) by (nonlinear_arith)
            requires
                0 <= k < workers,
                rows == height as int / workers as int,
                0 < workers,
                0 <= height,
        ;
    }
    (-(height / 2) + rows * k, -(height / 2) + rows * (k + 1))
}

/// The pixel sequence of one worker band: rows `[lo, hi)` ascending, and
/// within each row the `width` columns from `-width/2` ascending, each
/// pixel the value of `shade` at its centered coordinates.
pub open spec fn spec_band_output<T>(
    shade: spec_fn(int, int) -> T,
    width: int,
    lo: int,
    hi: int,
) -> Seq<T> {
    Seq::new(((hi - lo) * width) as nat, |n: int| shade(lo + n / width, -(width / 2) + n % width))
}

/// The full row-major pixel sequence of a `width x height` render.
pub open spec fn spec_row_major<T>(shade: spec_fn(int, int) -> T, width: int, height: int) -> Seq<
    T,
> {
    spec_band_output(shade, width, -(height / 2), -(height / 2) + height)
}

/// The outputs of the first `k` worker bands, joined in band order.
pub open spec fn spec_bands_concat<T>(
    shade: spec_fn(int, int) -> T,
    width: int,
    height: int,
    workers: int,
    k: int,
) -> Seq<T>
    decreases k,
{
    if k <= 0 {
        Seq::empty()
    } else {
        spec_bands_concat(shade, width, height, workers, k - 1) + spec_band_output(
            shade,
            width,
            spec_band_bounds(height, workers, k - 1).0,
            spec_band_bounds(height, workers, k - 1).1,
        )
    }
}

/// Renders one band: calls `shade` at every centered pixel coordinate of
/// rows `[lo, hi)`, in row-major order, and collects the results.
pub fn render_band<T, F: Fn(i32, i32) -> T>(shade: F, lo: i32, hi: i32, width: i32) -> (r: Vec<T>)
    requires
        lo <= hi,
        0 < width,
        (hi - lo) * width <= usize::MAX,
        forall|args: (i32, i32)| call_requires(shade, args),
    ensures
        r@.len() == (hi - lo) * width,
        forall|n: int|
            0 <= n < r@.len() ==> call_ensures(
                shade,
                ((lo + n / (width as int)) as i32, (-(width as int / 2) + n % (width as int)) as i32),
                #[trigger] r@[n],
            ),
{
    let mut out: Vec<T> = Vec::new();
    let mut i: i32 = lo;
    while i < hi
        invariant
            lo <= i <= hi,
            0 < width,
            (hi - lo) * width <= usize::MAX,
            forall|args: (i32, i32)| call_requires(shade, args),
            out@.len() == (i - lo) * width,
            forall|n: int|
                0 <= n < out@.len() ==> call_ensures(
                    shade,
                    (
                        (lo + n / (width as int)) as i32,
                        (-(width as int / 2) + n % (width as int)) as i32,
                    ),
                    #[trigger] out@[n],
                ),
        decreases hi - i,
    {
        proof {
            assert((i - lo) * width + width <= (hi - lo) * width) by (nonlinear_arith)
                requires
                    lo <= i < hi,
                    0 < width,
            ;
        }
        let mut c: i32 = 0;
        while c < width
            invariant
                lo <= i < hi,
                0 <= c <= width,
                0 < width,
                (hi - lo) * width <= usize::MAX,
                (i - lo) * width + width <= (hi - lo) * width,
                forall|args: (i32, i32)| call_requires(shade, args),
                out@.len() == (i - lo) * width + c,
                forall|n: int|
                    0 <= n < out@.len() ==> call_ensures(
                        shade,
                        (
                            (lo + n / (width as int)) as i32,
                            (-(width as int / 2) + n % (width as int)) as i32,
                        ),
                        #[trigger] out@[n],
                    ),
            decreases width - c,
        {
            let j: i32 = -(width / 2) + c;
            let v: T = shade(i, j);
            out.push(v);
            proof {
                lemma_flat_split(i - lo, c as int, width as int);
                assert((c as int) / (width as int) == 0 && (c as int) % (width as int) == c as int)
                    by (nonlinear_arith)
                    requires
                        0 <= c < width,
                ;
            }
            c = c + 1;
        }
        proof {
            assert((i - lo) * width + width == (i + 1 - lo) * width) by (nonlinear_arith);
        }
        i = i + 1;
    }
    proof {
        assert((hi - lo) * width == out@.len());
    }
    out
}

/// Joins per-worker band outputs in band order into one pixel sequence.
pub fn concat_band_outputs<T>(outputs: Vec<Vec<T>>) -> (r: Vec<T>)
    ensures
        r@ == outputs@.map_values(|v: Vec<T>| v@).flatten(),
{
    let mut rest = outputs;
    let mut out: Vec<T> = Vec::new();
    let ghost all: Seq<Vec<T>> = rest@;
    let ghost mut done: int = 0;
    while rest.len() > 0
        invariant
            0 <= done <= all.len(),
            rest@ == all.subrange(done, all.len() as int),
            out@ == all.subrange(0, done).map_values(|v: Vec<T>| v@).flatten(),
        decreases rest.len(),
    {
        let mut band = rest.remove(0);
        let ghost band_view: Seq<T> = band@;
        while band.len() > 0
            invariant
                out@ + band@ == all.subrange(0, done).map_values(|v: Vec<T>| v@).flatten()
                    + band_view,
            decreases band.len(),
        {
            let x = band.remove(0);
            out.push(x);
        }
        proof {
            let prefix = all.subrange(0, done);
            let next = all.subrange(0, done + 1);
            assert(next.map_values(|v: Vec<T>| v@) =~= prefix.map_values(|v: Vec<T>| v@).push(
                all[done]@,
            ));
            prefix.map_values(|v: Vec<T>| v@).lemma_flatten_push(all[done]@);
            assert(out@ =~= next.map_values(|v: Vec<T>| v@).flatten());
            done = done + 1;
        }
    }
    proof {
        assert(all.subrange(0, all.len() as int) =~= all);
        assert(out@ == all.map_values(|v: Vec<T>| v@).flatten());
    }
    out
}

/// Copies a joined worker output into the framebuffer: entry `k`
/// overwrites pixel `k` of the array where the pass produced a color;
/// empty entries leave the pixel untouched.
pub fn write_band_outputs<C: Copy>(buf: &mut Buffer<C>, pixels: &Vec<Option<C>>)
    requires
        old(buf).wf(),
    ensures
        final(buf).wf(),
        final(buf).spec_width() == old(buf).spec_width(),
        final(buf).spec_height() == old(buf).spec_height(),
        final(buf).spec_clear_color() == old(buf).spec_clear_color(),
        final(buf).pixels().len() == old(buf).pixels().len(),
        forall|k: int|
            0 <= k < final(buf).pixels().len() ==> final(buf).pixels()[k] == (if k < pixels@.len()
                && pixels@[k] is Some {
                pixels@[k]->0
            } else {
                old(buf).pixels()[k]
            }),
{
    let n: usize = pixels.len();
    let mut k: usize = 0;
    while k < n
        invariant
            k <= n,
            n == pixels@.len(),
            buf.wf(),
            buf.spec_width() == old(buf).spec_width(),
            buf.spec_height() == old(buf).spec_height(),
            buf.spec_clear_color() == old(buf).spec_clear_color(),
            buf.pixels().len() == old(buf).pixels().len(),
            forall|m: int|
                0 <= m < buf.pixels().len() ==> buf.pixels()[m] == (if m < k && pixels@[m] is Some {
                    pixels@[m]->0
                } else {
                    old(buf).pixels()[m]
                }),
        decreases n - k,
    {
        match pixels[k] {
            Some(color) => {
                buf.write_pixel_by_idx(k, color);
            },
            None => {},
        }
        k = k + 1;
    }
}

/// Law: a worker whose shading closure computes a fixed function `f` of
/// the centered pixel coordinates emits exactly [`spec_band_output`] of
/// `f` — the hypotheses are what [`render_band`] ensures of its result.
/// Together with [`lemma_bands_cover`] this pins the whole parallel
/// composition to the row-major order of `f`.
pub proof fn lemma_render_band_deterministic<T, F: Fn(i32, i32) -> T>(
    shade: F,
    f: spec_fn(int, int) -> T,
    out: Seq<T>,
    lo: int,
    hi: int,
    width: int,
)
    requires
        i32::MIN <= lo <= hi <= i32::MAX,
        0 < width <= i32::MAX,
        forall|args: (i32, i32), ret: T|
            call_ensures(shade, args, ret) ==> ret == f(args.0 as int, args.1 as int),
        out.len() == (hi - lo) * width,
        forall|n: int|
            0 <= n < out.len() ==> call_ensures(
                shade,
                ((lo + n / width) as i32, (-(width / 2) + n % width) as i32),
                #[trigger] out[n],
            ),
    ensures
        out == spec_band_output(f, width, lo, hi),
{
    let band = spec_band_output(f, width, lo, hi);
    assert forall|n: int| 0 <= n < out.len() implies out[n] == band[n] by {
        assert(width * (hi - lo) == (hi - lo) * width) by (nonlinear_arith);
        vstd::arithmetic::div_mod::lemma_multiply_divide_lt(n, width, hi - lo);
        assert(n / width < hi - lo);
        assert(lo <= lo + n / width < hi);
        assert(0 <= n % width < width);
        let row = (lo + n / width) as i32;
        let col = (-(width / 2) + n % width) as i32;
        assert(row as int == lo + n / width);
        assert(col as int == -(width / 2) + n % width);
        assert(out[n] == f(row as int, col as int));
    }
    assert(out =~= band);
}

/// Pixel `a * w + m` of a row-major array `w` wide, with `m` an offset of
/// `a` full rows or more, sits `m / w` rows below row `a`.
proof fn lemma_flat_split(a: int, m: int, w: int)
    requires
        0 < w,
        0 <= a,
        0 <= m,
    ensures
        (a * w + m) / w == a + m / w,
        (a * w + m) % w == m % w,
{
    lemma_fundamental_div_mod(m, w);
    let q = a + m / w;
    let r = m % w;
    assert(a * w + m == q * w + r) by (nonlinear_arith)
        requires
            q == a + m / w,
            r == m % w,
            m == w * (m / w) + m % w,
    ;
    lemma_fundamental_div_mod_converse(a * w + m, w, q, r);
}

/// The first `k` bands joined in order are exactly the first
/// `k * (height / workers) * width` pixels of the row-major order.
proof fn lemma_bands_prefix<T>(
    shade: spec_fn(int, int) -> T,
    width: int,
    height: int,
    workers: int,
    k: int,
)
    requires
        0 < width,
        0 <= height,
        0 < workers,
        0 <= k <= workers,
    ensures
        spec_bands_concat(shade, width, height, workers, k) == Seq::new(
            ((k * (height / workers)) * width) as nat,
            |n: int| shade(-(height / 2) + n / width, -(width / 2) + n % width),
        ),
    decreases k,
{
    let rows = height / workers;
    let flat = |n: int| shade(-(height / 2) + n / width, -(width / 2) + n % width);
    if k <= 0 {
        assert(spec_bands_concat(shade, width, height, workers, 0) == Seq::<T>::empty());
        assert((0 * rows) * width == 0) by (nonlinear_arith);
        assert(Seq::new(((0 * rows) * width) as nat, flat).len() == 0);
        assert(spec_bands_concat(shade, width, height, workers, 0) =~= Seq::new(
            ((0 * rows) * width) as nat,
            flat,
        ));
    } else {
        lemma_bands_prefix(shade, width, height, workers, k - 1);
        let prev = spec_bands_concat(shade, width, height, workers, k - 1);
        let (lo, hi) = spec_band_bounds(height, workers, k - 1);
        let band = spec_band_output(shade, width, lo, hi);
        assert(hi - lo == rows) by (nonlinear_arith)
            requires
                lo == -(height / 2) + rows * (k - 1),
                hi == -(height / 2) + rows * k,
        ;
        assert(0 <= rows * (k - 1) && rows * (k - 1) + rows == rows * k && ((k - 1) * rows) * width
            + rows * width == (k * rows) * width) by (nonlinear_arith)
            requires
                0 <= rows,
                0 < k,
        ;
        let whole = Seq::new(((k * rows) * width) as nat, flat);
        assert forall|n: int| 0 <= n < whole.len() implies whole[n] == (prev + band)[n] by {
            if n < prev.len() {
            } else {
                let m = n - ((k - 1) * rows) * width;
                assert(0 <= m < rows * width);
                lemma_flat_split((k - 1) * rows, m, width);
                assert(n / width == (k - 1) * rows + m / width);
                assert(n % width == m % width);
                assert(band[m] == shade(lo + m / width, -(width / 2) + m % width));
                assert(lo + m / width == -(height / 2) + n / width) by (nonlinear_arith)
                    requires
                        lo == -(height / 2) + rows * (k - 1),
                        n / width == (k - 1) * rows + m / width,
                ;
            }
        }
        assert(whole =~= prev + band);
    }
}

/// Law: when the worker count divides the row count, the bands joined in
/// index order are exactly the row-major pixel order of the whole frame.
pub proof fn lemma_bands_cover<T>(
    shade: spec_fn(int, int) -> T,
    width: int,
    height: int,
    workers: int,
)
    requires
        0 < width,
        0 <= height,
        0 < workers,
        height % workers == 0,
    ensures
        spec_bands_concat(shade, width, height, workers, workers) == spec_row_major(
            shade,
            width,
            height,
        ),
{
    lemma_bands_prefix(shade, width, height, workers, workers);
    lemma_fundamental_div_mod(height, workers);
    assert((workers * (height / workers)) == height);
    assert((height / workers) * workers == height && (workers * (height / workers)) * width
        == height * width) by (nonlinear_arith)
        requires
            workers * (height / workers) == height,
    ;
    let flat = |n: int| shade(-(height / 2) + n / width, -(width / 2) + n % width);
    assert(spec_row_major(shade, width, height) =~= Seq::new((height * width) as nat, flat));
}

/// Law: the joined output of the primary pass does not depend on how many
/// workers the rows were split across, as long as each count divides the
/// row count; with a fixed per-pixel shading function the render is
/// deterministic under parallelism.
pub proof fn lemma_dispatch_deterministic<T>(
    shade: spec_fn(int, int) -> T,
    width: int,
    height: int,
    workers1: int,
    workers2: int,
)
    requires
        0 < width,
        0 <= height,
        0 < workers1,
        0 < workers2,
        height % workers1 == 0,
        height % workers2 == 0,
    ensures
        spec_bands_concat(shade, width, height, workers1, workers1) == spec_bands_concat(
            shade,
            width,
            height,
            workers2,
            workers2,
        ),
{
    lemma_bands_cover(shade, width, height, workers1);
    lemma_bands_cover(shade, width, height, workers2);
}

} // verus!
