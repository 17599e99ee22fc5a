//! ASCII trace of a primary pass.
//!
//! A quick debugging aid: the per-pixel hit flags of a pass, one row of
//! `width` cells per line, `0` where the ray hit geometry and `.` where it
//! escaped.  The host program writes the text to a file.

use vstd::prelude::*;

verus! {

/// The trace of the first `k` hit flags: one character per flag, with a
/// line break after every `width`-th one.
pub open spec fn spec_hit_map(hits: Seq<bool>, width: int, k: int) -> Seq<char>
    decreases k,
{
    if k <= 0 {
        Seq::empty()
    } else {
        spec_hit_map(hits, width, k - 1) + (if hits[k - 1] {
            "0"@
        } else {
            "."@
        }) + (if k % width == 0 {
            "\n"@
        } else {
            Seq::empty()
        })
    }
}

/// Renders the hit flags of a primary pass as an ASCII map.
pub fn hit_map_string(hits: &Vec<bool>, width: usize) -> (r: String)
    requires
        0 < width,
    ensures
        r@ == spec_hit_map(hits@, width as int, hits@.len() as int),
{
    let n: usize = hits.len();
    let mut out: String = String::new();
    let mut k: usize = 0;
    while k < n
        invariant
            k <= n,
            n == hits@.len(),
            0 < width,
            out@ == spec_hit_map(hits@, width as int, k as int),
        decreases n - k,
    {
        if hits[k] {
            out.append("0");
        } else {
            out.append(".");
        }
        if (k + 1) % width == 0 {
            out.append("\n");
        }
        proof {
            assert(out@ =~= spec_hit_map(hits@, width as int, k as int + 1));
        }
        k = k + 1;
    }
    out
}

} // verus!
