//! Camera-side pixel conventions.
//!
//! Rays are generated over centered pixel coordinates `(j, i)` — `j`
//! counts columns from `-W/2`, `i` counts rows from `-H/2`, with
//! mathematical up — while the framebuffer addresses pixels as `(x, y)`
//! from the visual top-left.  The two maps below keep that flip in one
//! place; the rest of this module fixes the anti-aliasing strategies and
//! the output file naming.

use vstd::prelude::*;

verus! {

/// The anti-aliasing strategies of the sampler: a single primary ray per
/// pixel, 4x supersampling (render at doubled resolution, then box-average
/// each 2x2 block), or adaptive edge resampling with a 4-neighbour (`X`)
/// or 8-neighbour (`O`) difference test.
#[derive(Clone, Copy, Debug, PartialEq, Eq, Structural)]
pub enum AntiAliasingType {
    Off,
    Supersampling4x,
    AdaptiveX,
    AdaptiveO,
}

impl AntiAliasingType {
    /// The tag each strategy contributes to an output file name;
    /// plain one-ray sampling is conventionally tagged "None".
    pub open spec fn tag(self) -> Seq<char> {
        match self {
            AntiAliasingType::Off => "None"@,
            AntiAliasingType::Supersampling4x => "Supersampling4x"@,
            AntiAliasingType::AdaptiveX => "AdaptiveX"@,
            AntiAliasingType::AdaptiveO => "AdaptiveO"@,
        }
    }

    pub fn to_string(&self) -> (r: &str)
        ensures
            r@ == self.tag(),
    {
        match self {
            AntiAliasingType::Off => "None",
            AntiAliasingType::Supersampling4x => "Supersampling4x",
            AntiAliasingType::AdaptiveX => "AdaptiveX",
            AntiAliasingType::AdaptiveO => "AdaptiveO",
        }
    }
}

/// Centered camera coordinates of the pixel at framebuffer position
/// `(x, y)`: the column offset from the image center, and the row counted
/// upward from the center while `y` counts downward from the top.
pub open spec fn spec_xy_to_ji(x: int, y: int, width: int, height: int) -> (int, int) {
    (x - width / 2, height / 2 - y)
}

/// Framebuffer position of the pixel with centered camera coordinates
/// `(j, i)`: the inverse of [`spec_xy_to_ji`].
pub open spec fn spec_ji_to_xy(j: int, i: int, width: int, height: int) -> (int, int) {
    (j + width / 2, height / 2 - i)
}

/// The two coordinate maps invert each other, for every render size.
pub proof fn lemma_ji_xy_inverse(j: int, i: int, x: int, y: int, width: int, height: int)
    ensures
        spec_xy_to_ji(
            spec_ji_to_xy(j, i, width, height).0,
            spec_ji_to_xy(j, i, width, height).1,
            width,
            height,
        ) == (j, i),
        spec_ji_to_xy(
            spec_xy_to_ji(x, y, width, height).0,
            spec_xy_to_ji(x, y, width, height).1,
            width,
            height,
        ) == (x, y),
{
}

/// Maps a centered pixel coordinate to its framebuffer position.
pub fn ji_to_xy(j: i32, i: i32, width: i32, height: i32) -> (r: (i32, i32))
    requires
        0 <= width,
        0 <= height,
        i32::MIN <= j + width / 2 <= i32::MAX,
        i32::MIN <= height / 2 - i <= i32::MAX,
    ensures
        (r.0 as int, r.1 as int) == spec_ji_to_xy(j as int, i as int, width as int, height as int),
{
    (j + width / 2, height / 2 - i)
}

/// Maps a framebuffer position back to its centered pixel coordinate.
pub fn xy_to_ji(x: i32, y: i32, width: i32, height: i32) -> (r: (i32, i32))
    requires
        0 <= width,
        0 <= height,
        i32::MIN <= x - width / 2 <= i32::MAX,
        i32::MIN <= height / 2 - y <= i32::MAX,
    ensures
        (r.0 as int, r.1 as int) == spec_xy_to_ji(x as int, y as int, width as int, height as int),
{
    (x - width / 2, height / 2 - y)
}

/// A render size is workable when both dimensions are positive.
pub fn valid_render_size(width: i32, height: i32) -> (r: bool)
    ensures
        r == (0 < width && 0 < height),
{
    0 < width && 0 < height
}

/// The working frame size of a render: 4x supersampling renders at twice
/// the target resolution in each dimension (the frame is box-downsampled
/// afterwards); every other mode renders at the target size.
pub fn supersampled_size(width: i32, height: i32, aa: AntiAliasingType) -> (r: (i32, i32))
    requires
        0 <= width,
        0 <= height,
        2 * width <= i32::MAX,
        2 * height <= i32::MAX,
    ensures
        aa == AntiAliasingType::Supersampling4x ==> r.0 == 2 * width && r.1 == 2 * height,
        aa != AntiAliasingType::Supersampling4x ==> r.0 == width && r.1 == height,
{
    if aa == AntiAliasingType::Supersampling4x {
        (2 * width, 2 * height)
    } else {
        (width, height)
    }
}

/// Composes the conventional output file name:
/// `<base>_<perspective|orthographic>_<aa tag>.png`.
pub fn render_file_name(base: &str, perspective: bool, aa: AntiAliasingType) -> (r: String)
    ensures
        r@ == base@ + (if perspective {
            "_perspective_"@
        } else {
            "_orthographic_"@
        }) + aa.tag() + ".png"@,
{
    let mut name = String::from_str(base);
    if perspective {
        name.append("_perspective_");
    } else {
        name.append("_orthographic_");
    }
    name.append(aa.to_string());
    name.append(".png");
    name
}

} // verus!
