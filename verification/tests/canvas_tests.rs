use pixel_renderer::canvas::{assert_pixel, Canvas, CanvasError, ChannelValue};

fn frac(num: i64, den: i64) -> ChannelValue {
    ChannelValue { num, den }
}

#[test]
fn test_write_then_get_pixel() {
    let color = [255, 0, 255];
    let mut canvas = Canvas::new(256, 256);
    canvas.write_pixel(11, 10, &color).unwrap();

    let output = canvas.pixel_rgb(11, 10).unwrap();

    assert_eq!(color, output);
}

#[test]
fn test_resize() {
    let mut canvas = Canvas::new(256, 256);
    canvas.write_pixel(255, 200, &[255, 255, 255]).unwrap();
    canvas.pixel_rgb(255, 200).unwrap();

    canvas.resize(512, 512);
    canvas.write_pixel(500, 230, &[255, 255, 255]).unwrap();
    canvas.pixel_rgb(500, 230).unwrap();
}

#[test]
fn test_write_then_get_pixel_alpha() {
    let mut canvas = Canvas::new(256, 256);
    canvas.write_pixel(11, 10, &[255, 0, 255]).unwrap();

    let output = canvas.pixel_rgba(11, 10).unwrap();

    assert_eq!(output, [255, 0, 255, 255]);
}

#[test]
fn test_out_of_bounds_on_every_edge() {
    let mut canvas = Canvas::new(64, 32);
    let w = 64;
    let h = 32;

    for &(x, y) in &[(w, 0), (0, h), (w, h)] {
        assert_eq!(canvas.pixel_rgb(x, y), Err(CanvasError::OutOfBounds));
        assert_eq!(canvas.pixel_rgba(x, y), Err(CanvasError::OutOfBounds));
        assert_eq!(
            canvas.write_pixel(x, y, &[1, 2, 3]),
            Err(CanvasError::OutOfBounds)
        );
        assert_eq!(
            canvas.write_pixel_blend(x, y, &[1, 2, 3, 4]),
            Err(CanvasError::OutOfBounds)
        );
    }

    // Every in-range corner works.
    for &(x, y) in &[(0, 0), (w - 1, 0), (0, h - 1), (w - 1, h - 1)] {
        assert!(canvas.write_pixel(x, y, &[9, 9, 9]).is_ok());
        assert!(canvas.pixel_rgb(x, y).is_ok());
        assert!(canvas.write_pixel_blend(x, y, &[9, 9, 9, 9]).is_ok());
    }
}

#[test]
fn test_assert_pixel_matches_bounds() {
    assert_eq!(assert_pixel(63, 31, 64, 32), Ok(()));
    assert_eq!(assert_pixel(64, 0, 64, 32), Err(CanvasError::OutOfBounds));
    assert_eq!(assert_pixel(0, 32, 64, 32), Err(CanvasError::OutOfBounds));
}

#[test]
fn test_resize_preserves_capacity_invariant() {
    let mut canvas = Canvas::new(256, 256);
    assert_eq!(canvas.capacity(), 256 * 256 * 4);

    canvas.resize(512, 512);

    assert_eq!(canvas.capacity(), 512 * 512 * 4);
    assert_eq!(canvas.width(), 512);
    assert_eq!(canvas.height(), 512);
    canvas.write_pixel(500, 230, &[1, 2, 3]).unwrap();
    assert_eq!(canvas.pixel_rgb(500, 230).unwrap(), [1, 2, 3]);
}

#[test]
fn test_blend_opaque_replaces_destination() {
    let mut canvas = Canvas::new(16, 16);
    // Whatever the prior content, an opaque source wins exactly.
    canvas.write_pixel(3, 4, &[10, 200, 33]).unwrap();
    canvas.write_pixel_blend(3, 4, &[77, 88, 99, 255]).unwrap();
    assert_eq!(canvas.pixel_rgba(3, 4).unwrap(), [77, 88, 99, 255]);

    canvas.clear_screen(&[1, 2, 3]);
    canvas.write_pixel_blend(0, 0, &[200, 0, 5, 255]).unwrap();
    assert_eq!(canvas.pixel_rgba(0, 0).unwrap(), [200, 0, 5, 255]);
}

#[test]
fn test_blend_zero_alpha_is_a_no_op() {
    let mut canvas = Canvas::new(16, 16);
    canvas.write_pixel(5, 6, &[12, 34, 56]).unwrap();

    canvas.write_pixel_blend(5, 6, &[200, 100, 50, 0]).unwrap();

    assert_eq!(canvas.pixel_rgba(5, 6).unwrap(), [12, 34, 56, 255]);

    // Both source and destination fully transparent: pixel untouched.
    let mut fresh = Canvas::new(8, 8);
    fresh.write_pixel_blend(1, 1, &[200, 100, 50, 0]).unwrap();
    assert_eq!(fresh.pixel_rgba(1, 1).unwrap(), [0, 0, 0, 0]);
}

#[test]
fn test_blend_half_alpha_over_opaque_black() {
    let mut canvas = Canvas::new(8, 8);
    canvas.clear_screen(&[0, 0, 0]);

    canvas.write_pixel_blend(2, 2, &[255, 0, 255, 128]).unwrap();

    // alpha_out stays 255; each source channel is weighted 128/255:
    // 255 * 128 * 255 / (255*128 + 255*127) = 128, truncated.
    assert_eq!(canvas.pixel_rgba(2, 2).unwrap(), [128, 0, 128, 255]);
}

#[test]
fn test_blend_over_transparent_stores_source() {
    let mut canvas = Canvas::new(8, 8);
    // Destination alpha is zero, so the source color and alpha land as-is.
    canvas.write_pixel_blend(4, 4, &[10, 20, 30, 51]).unwrap();
    assert_eq!(canvas.pixel_rgba(4, 4).unwrap(), [10, 20, 30, 51]);
}

#[test]
fn test_invalid_rgba() {
    let mut canvas = Canvas::new(256, 256);
    // Channel 1.2 lies outside [0, 1].
    let r = canvas.write_pixel_f32(6, 10, &[frac(10, 10), frac(12, 10), frac(0, 10)]);
    assert_eq!(r, Err(CanvasError::InvalidColorComponent));

    // A negative channel is rejected too.
    let r = canvas.write_pixel_f32(6, 10, &[frac(-1, 10), frac(5, 10), frac(0, 10)]);
    assert_eq!(r, Err(CanvasError::InvalidColorComponent));

    // Out-of-bounds coordinates take precedence, as in the bounds check
    // running first.
    let r = canvas.write_pixel_f32(256, 10, &[frac(10, 10), frac(12, 10), frac(0, 10)]);
    assert_eq!(r, Err(CanvasError::OutOfBounds));
}

#[test]
fn test_write_pixel_f32_scales_and_truncates() {
    let mut canvas = Canvas::new(16, 16);
    // 0.5 scales to trunc(127.5) = 127; 1.0 to 255; 0.0 to 0.
    canvas
        .write_pixel_f32(1, 2, &[frac(1, 2), frac(1, 1), frac(0, 2)])
        .unwrap();
    assert_eq!(canvas.pixel_rgba(1, 2).unwrap(), [127, 255, 0, 255]);
}

#[test]
fn test_write_pixel_blend_f32_validates_then_blends() {
    let mut canvas = Canvas::new(16, 16);
    let bad = canvas.write_pixel_blend_f32(
        0,
        0,
        &[frac(1, 1), frac(0, 1), frac(1, 1), frac(3, 2)],
    );
    assert_eq!(bad, Err(CanvasError::InvalidColorComponent));

    canvas
        .write_pixel_blend_f32(0, 0, &[frac(1, 1), frac(0, 1), frac(1, 1), frac(1, 1)])
        .unwrap();
    assert_eq!(canvas.pixel_rgba(0, 0).unwrap(), [255, 0, 255, 255]);
}

#[test]
fn test_clear_screen_sets_every_pixel_opaque() {
    let mut canvas = Canvas::new(32, 16);
    canvas.clear_screen(&[7, 8, 9]);

    for &(x, y) in &[(0, 0), (31, 0), (0, 15), (31, 15), (13, 7)] {
        assert_eq!(canvas.pixel_rgba(x, y).unwrap(), [7, 8, 9, 255]);
    }
}

#[test]
fn test_clear_screen_f32_rejects_out_of_range() {
    let mut canvas = Canvas::new(8, 8);
    let r = canvas.clear_screen_f32(&[frac(1, 1), frac(2, 1), frac(0, 1)]);
    assert_eq!(r, Err(CanvasError::InvalidColorComponent));

    canvas
        .clear_screen_f32(&[frac(1, 1), frac(0, 1), frac(1, 2)])
        .unwrap();
    assert_eq!(canvas.pixel_rgba(3, 3).unwrap(), [255, 0, 127, 255]);
}

#[test]
fn test_resize_reclears_with_remembered_color() {
    let mut canvas = Canvas::new(8, 8);
    canvas.clear_screen(&[10, 20, 30]);
    canvas.write_pixel(0, 0, &[200, 200, 200]).unwrap();

    canvas.resize(4, 4);

    // Prior content is gone; every pixel holds the remembered clear color.
    assert_eq!(canvas.pixel_rgba(0, 0).unwrap(), [10, 20, 30, 255]);
    assert_eq!(canvas.pixel_rgba(3, 3).unwrap(), [10, 20, 30, 255]);
}

#[test]
fn test_set_clear_color_applies_on_next_resize() {
    let mut canvas = Canvas::new(8, 8);
    canvas.set_clear_color(&[40, 50, 60]);
    // Setting the color alone leaves the pixels untouched.
    assert_eq!(canvas.pixel_rgba(2, 2).unwrap(), [0, 0, 0, 0]);

    canvas.resize(8, 8);
    assert_eq!(canvas.pixel_rgba(2, 2).unwrap(), [40, 50, 60, 255]);
}

#[test]
fn test_set_clear_color_f32_validates() {
    let mut canvas = Canvas::new(8, 8);
    let r = canvas.set_clear_color_f32(&[frac(1, 1), frac(-3, 10), frac(0, 1)]);
    assert_eq!(r, Err(CanvasError::InvalidColorComponent));

    canvas
        .set_clear_color_f32(&[frac(1, 1), frac(0, 1), frac(0, 1)])
        .unwrap();
    canvas.resize(8, 8);
    assert_eq!(canvas.pixel_rgba(0, 7).unwrap(), [255, 0, 0, 255]);
}

#[test]
fn test_get_pixel_buffer_is_a_faithful_copy() {
    let mut canvas = Canvas::new(4, 2);
    canvas.write_pixel(1, 0, &[9, 8, 7]).unwrap();

    let buffer = canvas.get_pixel_buffer();

    assert_eq!(buffer.len(), 4 * 2 * 4);
    assert_eq!(&buffer[4..8], &[9, 8, 7, 255]);
    // The copy is a snapshot: later writes do not reach it.
    canvas.write_pixel(1, 0, &[1, 1, 1]).unwrap();
    assert_eq!(&buffer[4..8], &[9, 8, 7, 255]);
}

#[test]
fn test_pixel_rgb_f32_returns_byte_fractions() {
    let mut canvas = Canvas::new(8, 8);
    canvas.write_pixel(2, 3, &[51, 0, 255]).unwrap();

    let c = canvas.pixel_rgb_f32(2, 3).unwrap();
    assert_eq!((c[0].num, c[0].den), (51, 255));
    assert_eq!((c[1].num, c[1].den), (0, 255));
    assert_eq!((c[2].num, c[2].den), (255, 255));

    let c = canvas.pixel_rgba_f32(2, 3).unwrap();
    assert_eq!((c[3].num, c[3].den), (255, 255));

    assert_eq!(
        canvas.pixel_rgb_f32(8, 0),
        Err(CanvasError::OutOfBounds)
    );
}

#[test]
fn test_channel_value_validity_and_scaling() {
    assert!(frac(0, 1).valid());
    assert!(frac(1, 1).valid());
    assert!(frac(1, 2).valid());
    assert!(!frac(12, 10).valid());
    assert!(!frac(-1, 2).valid());
    assert!(!frac(1, 0).valid());
    assert!(!frac(1, -2).valid());

    assert_eq!(frac(0, 1).to_byte(), 0);
    assert_eq!(frac(1, 1).to_byte(), 255);
    assert_eq!(frac(1, 2).to_byte(), 127);
    assert_eq!(frac(1, 3).to_byte(), 85);
}
