//! Adaptive anti-aliasing: the mark pass.
//!
//! After the primary pass the interior pixels of the frame are walked; a
//! pixel is marked when one of its neighbours — the four axis-aligned
//! ones in `X` mode, all eight in `O` mode — differs from it in quantised
//! color.  Marked pixels later receive extra jittered rays.  The pass
//! works on the quantised view of the frame, which is exactly the
//! equality the renderer's color comparison uses.

use crate::buffer::Buffer;
use crate::buffer::Rgb8;
use crate::buffer::spec_index_of;
use crate::camera::AntiAliasingType;
use vstd::prelude::*;

verus! {

/// Whether `(dx, dy)` is a neighbour offset the mode inspects: all eight
/// surrounding offsets in `AdaptiveO` mode, the four axis-aligned ones
/// otherwise.
pub open spec fn spec_neighbour(mode: AntiAliasingType, dx: int, dy: int) -> bool {
    if mode == AntiAliasingType::AdaptiveO {
        -1 <= dx <= 1 && -1 <= dy <= 1 && !(dx == 0 && dy == 0)
    } else {
        (dx == 0 && (dy == -1 || dy == 1)) || (dy == 0 && (dx == -1 || dx == 1))
    }
}

/// The quantised pixel at position `(x, y)` of the frame.
pub open spec fn spec_pixel_at(buf: Buffer<Rgb8>, x: int, y: int) -> Rgb8 {
    buf.pixels()[spec_index_of(x, y, buf.spec_width(), buf.spec_height())]
}

/// An interior pixel is marked when some inspected neighbour differs from
/// it in quantised color.
pub open spec fn spec_marked(buf: Buffer<Rgb8>, mode: AntiAliasingType, x: int, y: int) -> bool {
    &&& 1 <= x < buf.spec_width() - 1
    &&& 1 <= y < buf.spec_height() - 1
    &&& exists|dx: int, dy: int|
        #[trigger] spec_neighbour(mode, dx, dy) && spec_pixel_at(buf, x + dx, y + dy)
            != spec_pixel_at(buf, x, y)
}

/// Decides whether the interior pixel `(x, y)` is marked.
fn neighbour_differs(buf: &Buffer<Rgb8>, mode: AntiAliasingType, x: usize, y: usize) -> (r: bool)
    requires
        buf.wf(),
        1 <= x && (x as int) < buf.spec_width() - 1,
        1 <= y && (y as int) < buf.spec_height() - 1,
    ensures
        r == spec_marked(*buf, mode, x as int, y as int),
{
    let center: Rgb8 = buf.get_pixel(x, y);
    let mut differs: bool = false;
    if buf.get_pixel(x - 1, y) != center {
        proof {
            assert(spec_neighbour(mode, -1, 0));
        }
        differs = true;
    }
    if buf.get_pixel(x + 1, y) != center {
        proof {
            assert(spec_neighbour(mode, 1, 0));
        }
        differs = true;
    }
    if buf.get_pixel(x, y - 1) != center {
        proof {
            assert(spec_neighbour(mode, 0, -1));
        }
        differs = true;
    }
    if buf.get_pixel(x, y + 1) != center {
        proof {
            assert(spec_neighbour(mode, 0, 1));
        }
        differs = true;
    }
    if mode == AntiAliasingType::AdaptiveO {
        if buf.get_pixel(x - 1, y - 1) != center {
            proof {
                assert(spec_neighbour(mode, -1, -1));
            }
            differs = true;
        }
        if buf.get_pixel(x - 1, y + 1) != center {
            proof {
                assert(spec_neighbour(mode, -1, 1));
            }
            differs = true;
        }
        if buf.get_pixel(x + 1, y - 1) != center {
            proof {
                assert(spec_neighbour(mode, 1, -1));
            }
            differs = true;
        }
        if buf.get_pixel(x + 1, y + 1) != center {
            proof {
                assert(spec_neighbour(mode, 1, 1));
            }
            differs = true;
        }
    }
    proof {
        if !differs {
            assert forall|dx: int, dy: int| #[trigger]
                spec_neighbour(mode, dx, dy) implies spec_pixel_at(
                *buf,
                x as int + dx,
                y as int + dy,
            ) == spec_pixel_at(*buf, x as int, y as int) by {
                assert(-1 <= dx <= 1 && -1 <= dy <= 1);
            }
        }
    }
    differs
}

/// Walks the interior pixels of the quantised frame in column-major order
/// and collects every marked one exactly once, columns ascending and rows
/// ascending within a column.
pub fn mark_adaptive_pixels(buf: &Buffer<Rgb8>, mode: AntiAliasingType) -> (r: Vec<(usize, usize)>)
    requires
        buf.wf(),
    ensures
        forall|m: int|
            0 <= m < r@.len() ==> spec_marked(
                *buf,
                mode,
                (#[trigger] r@[m]).0 as int,
                r@[m].1 as int,
            ),
        forall|x: int, y: int|
            spec_marked(*buf, mode, x, y) ==> r@.contains(((x as usize, y as usize))),
        forall|m1: int, m2: int| 0 <= m1 < m2 < r@.len() ==> r@[m1] != r@[m2],
{
    let w: usize = buf.width();
    let h: usize = buf.height();
    let mut out: Vec<(usize, usize)> = Vec::new();
    if w < 3 || h < 3 {
        return out;
    }
    let mut x: usize = 1;
    while x < w - 1
        invariant
            buf.wf(),
            w as int == buf.spec_width(),
            h as int == buf.spec_height(),
            3 <= w,
            3 <= h,
            1 <= x <= w - 1,
            forall|m: int|
                0 <= m < out@.len() ==> spec_marked(
                    *buf,
                    mode,
                    (#[trigger] out@[m]).0 as int,
                    out@[m].1 as int,
                ),
            forall|a: int, b: int|
                spec_marked(*buf, mode, a, b) && a < x ==> out@.contains(((a as usize, b as usize))),
            forall|m: int| 0 <= m < out@.len() ==> (#[trigger] out@[m]).0 < x,
            forall|m1: int, m2: int|
                0 <= m1 < m2 < out@.len() ==> (out@[m1].0 < out@[m2].0 || (out@[m1].0 == out@[m2].0
                    && out@[m1].1 < out@[m2].1)),
        decreases w - 1 - x,
    {
        let mut y: usize = 1;
        while y < h - 1
            invariant
                buf.wf(),
                w as int == buf.spec_width(),
                h as int == buf.spec_height(),
                3 <= w,
                3 <= h,
                1 <= x < w - 1,
                1 <= y <= h - 1,
                forall|m: int|
                    0 <= m < out@.len() ==> spec_marked(
                        *buf,
                        mode,
                        (#[trigger] out@[m]).0 as int,
                        out@[m].1 as int,
                    ),
                forall|a: int, b: int|
                    spec_marked(*buf, mode, a, b) && (a < x || (a == x && b < y)) ==> out@.contains(
                        ((a as usize, b as usize)),
                    ),
                forall|m: int|
                    0 <= m < out@.len() ==> ((#[trigger] out@[m]).0 < x || (out@[m].0 == x
                        && out@[m].1 < y)),
                forall|m1: int, m2: int|
                    0 <= m1 < m2 < out@.len() ==> (out@[m1].0 < out@[m2].0 || (out@[m1].0
                        == out@[m2].0 && out@[m1].1 < out@[m2].1)),
            decreases h - 1 - y,
        {
            if neighbour_differs(buf, mode, x, y) {
                let ghost before: Seq<(usize, usize)> = out@;
                out.push((x, y));
                proof {
                    assert forall|a: int, b: int|
                        spec_marked(*buf, mode, a, b) && (a < x || (a == x && b < y + 1)) implies
                        out@.contains(((a as usize, b as usize))) by {
                        if a < x || (a == x && b < y) {
                            assert(before.contains(((a as usize, b as usize))));
                            let m = choose|m: int|
                                0 <= m < before.len() && before[m] == ((a as usize, b as usize));
                            assert(out@[m] == ((a as usize, b as usize)));
                        } else {
                            assert(a == x && b == y);
                            assert(out@[out@.len() - 1] == ((a as usize, b as usize)));
                        }
                    }
                }
            }
            y = y + 1;
        }
        x = x + 1;
    }
    proof {
        assert forall|a: int, b: int| spec_marked(*buf, mode, a, b) implies out@.contains(
            ((a as usize, b as usize)),
        ) by {
            assert(a < w - 1);
        }
        assert forall|m1: int, m2: int| 0 <= m1 < m2 < out@.len() implies out@[m1] != out@[m2] by {
            assert(out@[m1].0 < out@[m2].0 || (out@[m1].0 == out@[m2].0 && out@[m1].1
                < out@[m2].1));
        }
    }
    out
}

} // verus!
