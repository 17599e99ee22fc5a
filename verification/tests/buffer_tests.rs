use raytracer::buffer::Buffer;
use raytracer::buffer::Rgb8;

fn rgb(r: u8, g: u8, b: u8) -> Rgb8 {
    Rgb8 { r, g, b }
}

/// Quantisation of a linear [0, 1] channel to 8 bits, as the host's color
/// type performs it before handing pixels to the buffer.
fn quantise(c: (f32, f32, f32)) -> Rgb8 {
    rgb(
        (c.0 * 255.0).clamp(0.0, 255.0) as u8,
        (c.1 * 255.0).clamp(0.0, 255.0) as u8,
        (c.2 * 255.0).clamp(0.0, 255.0) as u8,
    )
}

#[test]
fn set_then_get_returns_the_written_color() {
    let mut buf = Buffer::new(8, 6, rgb(0, 0, 0));
    let c = quantise((0.9, 0.1, 0.1));
    buf.set_pixel(3, 2, c);
    assert_eq!(buf.get_pixel(3, 2), c);
    assert_eq!(buf.get_pixel(2, 3), rgb(0, 0, 0));
}

#[test]
fn set_flips_y_into_the_array() {
    let mut buf = Buffer::new(2, 3, 0u32);
    // y counts from the bottom; the array starts at the visual top, so
    // row y = 0 sits at array index 0 + (3 - 0 - 1) * 2 = 4.
    buf.set_pixel(0, 0, 7);
    assert_eq!(buf.get_pixel(0, 0), 7);
    assert_eq!(buf.get_pixel(0, 2), 0);
    let bytes_order: Vec<u32> = vec![0, 0, 0, 0, 7, 0];
    let mut seen: Vec<u32> = Vec::new();
    for y in [2, 1, 0] {
        for x in 0..2 {
            seen.push(buf.get_pixel(x, y));
        }
    }
    assert_eq!(seen, bytes_order);
}

#[test]
fn out_of_bounds_write_is_ignored() {
    let mut buf = Buffer::new(4, 4, rgb(1, 1, 1));
    buf.set_pixel(4, 0, rgb(9, 9, 9));
    buf.set_pixel(0, 4, rgb(9, 9, 9));
    for y in 0..4 {
        for x in 0..4 {
            assert_eq!(buf.get_pixel(x, y), rgb(1, 1, 1));
        }
    }
}

#[test]
fn write_by_index_hits_the_array_directly() {
    let mut buf = Buffer::new(2, 2, 0u8);
    buf.write_pixel_by_idx(3, 5);
    buf.write_pixel_by_idx(4, 9); // one past the end: ignored
    assert_eq!(buf.get_pixel(1, 0), 5); // index 3 = x 1, y 0 (bottom row)
    assert_eq!(buf.get_pixel(0, 1), 0);
}

#[test]
fn clear_repaints_and_remembers() {
    let mut buf = Buffer::new(3, 3, rgb(0, 0, 0));
    buf.set_pixel(1, 1, rgb(5, 5, 5));
    let sky = quantise((0.1, 0.2, 0.3));
    buf.clear_color(sky);
    assert_eq!(buf.current_clear_color(), sky);
    for y in 0..3 {
        for x in 0..3 {
            assert_eq!(buf.get_pixel(x, y), sky);
        }
    }
}

#[test]
fn shrink_constant_buffer_keeps_the_color() {
    let c = rgb(100, 150, 200);
    let mut buf = Buffer::new(6, 4, c);
    buf.shrink_by_two(|a: Rgb8, b: Rgb8, c2: Rgb8, d: Rgb8| {
        rgb(
            ((a.r as u16 + b.r as u16 + c2.r as u16 + d.r as u16) / 4) as u8,
            ((a.g as u16 + b.g as u16 + c2.g as u16 + d.g as u16) / 4) as u8,
            ((a.b as u16 + b.b as u16 + c2.b as u16 + d.b as u16) / 4) as u8,
        )
    });
    assert_eq!(buf.width(), 3);
    assert_eq!(buf.height(), 2);
    for y in 0..2 {
        for x in 0..3 {
            assert_eq!(buf.get_pixel(x, y), c);
        }
    }
}

#[test]
fn shrink_averages_each_block() {
    // 2x2 buffer of integers: one block, averaged exactly.
    let mut buf = Buffer::new(2, 2, 0u32);
    buf.write_pixel_by_idx(0, 10);
    buf.write_pixel_by_idx(1, 20);
    buf.write_pixel_by_idx(2, 30);
    buf.write_pixel_by_idx(3, 40);
    buf.shrink_by_two(|a: u32, b: u32, c: u32, d: u32| (a + b + c + d) / 4);
    assert_eq!(buf.width(), 1);
    assert_eq!(buf.height(), 1);
    assert_eq!(buf.get_pixel(0, 0), 25);
}

#[test]
fn shrink_drops_an_odd_edge() {
    let mut buf = Buffer::new(5, 3, 2u32);
    buf.shrink_by_two(|a: u32, b: u32, c: u32, d: u32| (a + b + c + d) / 4);
    assert_eq!(buf.width(), 2);
    assert_eq!(buf.height(), 1);
    assert_eq!(buf.get_pixel(0, 0), 2);
}

#[test]
fn cleared_buffer_serialises_to_uniform_bytes() {
    // An empty 128x128 sky-only frame: every pixel quantises the clear
    // color and the byte stream is 128 * 128 * 3 bytes long.
    let sky = quantise((0.1, 0.2, 0.3));
    let mut buf = Buffer::new(128, 128, rgb(0, 0, 0));
    buf.clear_color(sky);
    let bytes = buf.into_vec();
    assert_eq!(bytes.len(), 49152);
    for k in 0..(128 * 128) {
        assert_eq!(bytes[3 * k], sky.r);
        assert_eq!(bytes[3 * k + 1], sky.g);
        assert_eq!(bytes[3 * k + 2], sky.b);
    }
}

#[test]
fn serialisation_walks_the_array_in_order() {
    let mut buf = Buffer::new(2, 2, rgb(0, 0, 0));
    buf.write_pixel_by_idx(0, rgb(1, 2, 3));
    buf.write_pixel_by_idx(1, rgb(4, 5, 6));
    buf.write_pixel_by_idx(2, rgb(7, 8, 9));
    buf.write_pixel_by_idx(3, rgb(10, 11, 12));
    let bytes = buf.into_vec();
    assert_eq!(bytes, vec![1, 2, 3, 4, 5, 6, 7, 8, 9, 10, 11, 12]);
}
