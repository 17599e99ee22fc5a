use raytracer::buffer::Buffer;
use raytracer::buffer::Rgb8;
use raytracer::camera::AntiAliasingType;
use raytracer::sampler::mark_adaptive_pixels;
use raytracer::trace::hit_map_string;

fn rgb(v: u8) -> Rgb8 {
    Rgb8 { r: v, g: v, b: v }
}

#[test]
fn uniform_frame_marks_nothing() {
    let buf = Buffer::new(6, 6, rgb(40));
    assert!(mark_adaptive_pixels(&buf, AntiAliasingType::AdaptiveX).is_empty());
    assert!(mark_adaptive_pixels(&buf, AntiAliasingType::AdaptiveO).is_empty());
}

#[test]
fn tiny_frame_has_no_interior() {
    let buf = Buffer::new(2, 2, rgb(0));
    assert!(mark_adaptive_pixels(&buf, AntiAliasingType::AdaptiveO).is_empty());
}

#[test]
fn lone_bright_pixel_marks_its_neighbourhood() {
    let mut buf = Buffer::new(5, 5, rgb(0));
    buf.set_pixel(2, 2, rgb(255));
    let marked_x = mark_adaptive_pixels(&buf, AntiAliasingType::AdaptiveX);
    // The pixel itself and its four axis-aligned neighbours, columns
    // ascending and rows ascending within a column.
    assert_eq!(marked_x, vec![(1, 2), (2, 1), (2, 2), (2, 3), (3, 2)]);
    let marked_o = mark_adaptive_pixels(&buf, AntiAliasingType::AdaptiveO);
    assert_eq!(
        marked_o,
        vec![
            (1, 1),
            (1, 2),
            (1, 3),
            (2, 1),
            (2, 2),
            (2, 3),
            (3, 1),
            (3, 2),
            (3, 3)
        ]
    );
}

#[test]
fn diagonal_contrast_needs_o_mode() {
    // A checker of two colors along the diagonal: pixel (1, 1) agrees with
    // its four axis-aligned neighbours and differs only diagonally.
    let mut buf = Buffer::new(3, 3, rgb(0));
    buf.set_pixel(0, 0, rgb(255));
    buf.set_pixel(2, 0, rgb(255));
    buf.set_pixel(0, 2, rgb(255));
    buf.set_pixel(2, 2, rgb(255));
    let marked_x = mark_adaptive_pixels(&buf, AntiAliasingType::AdaptiveX);
    assert!(marked_x.is_empty());
    let marked_o = mark_adaptive_pixels(&buf, AntiAliasingType::AdaptiveO);
    assert_eq!(marked_o, vec![(1, 1)]);
}

#[test]
fn hit_map_draws_rows() {
    let hits = vec![true, false, false, true];
    assert_eq!(hit_map_string(&hits, 2), "0.\n.0\n");
    assert_eq!(hit_map_string(&hits, 4), "0..0\n");
    assert_eq!(hit_map_string(&hits, 3), "0..\n0");
}
