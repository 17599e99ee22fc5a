use raytracer::buffer::Buffer;
use raytracer::dispatch::band_bounds;
use raytracer::dispatch::concat_band_outputs;
use raytracer::dispatch::render_band;
use raytracer::dispatch::write_band_outputs;

/// A deterministic stand-in for per-pixel shading: encodes the centered
/// pixel coordinate so tests can read the emission order back.
fn shade(i: i32, j: i32) -> Option<i64> {
    Some((i as i64) * 1000 + (j as i64))
}

#[test]
fn bands_are_contiguous_and_cover_the_rows() {
    let height = 256;
    let workers = 16;
    let mut expected_lo = -128;
    for k in 0..workers {
        let (lo, hi) = band_bounds(height, workers, k);
        assert_eq!(lo, expected_lo);
        assert_eq!(hi - lo, 16);
        expected_lo = hi;
    }
    assert_eq!(expected_lo, 128);
}

#[test]
fn band_emits_pixels_in_row_major_order() {
    let out = render_band(shade, -1, 1, 4);
    let expected: Vec<Option<i64>> = vec![
        shade(-1, -2),
        shade(-1, -1),
        shade(-1, 0),
        shade(-1, 1),
        shade(0, -2),
        shade(0, -1),
        shade(0, 0),
        shade(0, 1),
    ];
    assert_eq!(out, expected);
}

#[test]
fn worker_count_does_not_change_the_joined_output() {
    let width = 8;
    let height = 16;
    let mut per_count: Vec<Vec<Option<i64>>> = Vec::new();
    for workers in [1, 2, 4, 16] {
        let mut outputs: Vec<Vec<Option<i64>>> = Vec::new();
        for k in 0..workers {
            let (lo, hi) = band_bounds(height, workers, k);
            outputs.push(render_band(shade, lo, hi, width));
        }
        per_count.push(concat_band_outputs(outputs));
    }
    for joined in &per_count {
        assert_eq!(joined.len(), (width * height) as usize);
        assert_eq!(joined, &per_count[0]);
    }
}

#[test]
fn rendering_twice_gives_identical_output() {
    let width = 8;
    let height = 16;
    let workers = 4;
    let mut first: Vec<Option<i64>> = Vec::new();
    let mut second: Vec<Option<i64>> = Vec::new();
    for round in 0..2 {
        let mut outputs: Vec<Vec<Option<i64>>> = Vec::new();
        for k in 0..workers {
            let (lo, hi) = band_bounds(height, workers, k);
            outputs.push(render_band(shade, lo, hi, width));
        }
        let joined = concat_band_outputs(outputs);
        if round == 0 {
            first = joined;
        } else {
            second = joined;
        }
    }
    assert_eq!(first, second);
}

#[test]
fn joined_output_overwrites_only_produced_pixels() {
    let mut buf = Buffer::new(2, 2, 0i64);
    let pixels: Vec<Option<i64>> = vec![Some(10), None, Some(30), None];
    write_band_outputs(&mut buf, &pixels);
    // Array order: index 0 is the visual top-left, y counts from the bottom.
    assert_eq!(buf.get_pixel(0, 1), 10);
    assert_eq!(buf.get_pixel(1, 1), 0);
    assert_eq!(buf.get_pixel(0, 0), 30);
    assert_eq!(buf.get_pixel(1, 0), 0);
}

#[test]
fn joined_output_longer_than_the_frame_is_clipped() {
    let mut buf = Buffer::new(1, 1, 0i64);
    let pixels: Vec<Option<i64>> = vec![Some(5), Some(6)];
    write_band_outputs(&mut buf, &pixels);
    assert_eq!(buf.get_pixel(0, 0), 5);
}
