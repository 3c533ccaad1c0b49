use pixel_renderer::canvas::Canvas;
use pixel_renderer::media::{GifUploader, ScreenshotUploader};

#[test]
fn screenshot_uploader_tracks_dimensions() {
    let mut up = ScreenshotUploader::new(256, 128);
    assert_eq!(up.width(), 256);
    assert_eq!(up.height(), 128);

    up.resize(512, 512);
    assert_eq!(up.width(), 512);
    assert_eq!(up.height(), 512);
}

#[test]
fn gif_uploader_records_snapshots_in_order() {
    let mut canvas = Canvas::new(2, 2);
    let mut up = GifUploader::new(2, 2);
    assert_eq!(up.frames().len(), 0);

    up.record(canvas.get_pixel_buffer());
    canvas.write_pixel(0, 0, &[9, 9, 9]).unwrap();
    up.record(canvas.get_pixel_buffer());

    let frames = up.frames();
    assert_eq!(frames.len(), 2);
    assert_eq!(frames[0].len(), 2 * 2 * 4);
    assert_eq!(&frames[0][0..4], &[0, 0, 0, 0]);
    assert_eq!(&frames[1][0..4], &[9, 9, 9, 255]);
}

#[test]
fn gif_uploader_clear_and_resize() {
    let mut up = GifUploader::new(4, 4);
    up.record(vec![0; 64]);
    up.resize(8, 8);
    // A resize keeps the recorded frames; clearing is explicit.
    assert_eq!(up.frames().len(), 1);
    assert_eq!(up.width(), 8);
    assert_eq!(up.height(), 8);

    up.clear();
    assert_eq!(up.frames().len(), 0);
}
