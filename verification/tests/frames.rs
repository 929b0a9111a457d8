use mandelzoom::complex::Complex;
use mandelzoom::fixed::SCALE;
use mandelzoom::mandel::mandelbrot;
use mandelzoom::palette::{colorize, Rgb};
use mandelzoom::render::{generate_frame, render_row};
use mandelzoom::viewport::{config_ok, pixel_coord, viewport_new};

#[test]
fn center_pixel_maps_to_center() {
    // even dimensions: the half-width, half-height pixel hits the center
    // exactly, whatever the zoom
    for zoom in [SCALE as u64, 10 * SCALE as u64, 12345 * SCALE as u64] {
        let vp = viewport_new(16, 8, -3 * SCALE / 2, SCALE / 4, zoom);
        let c = pixel_coord(&vp, 8, 4);
        assert_eq!(c.re, -3 * SCALE / 2);
        assert_eq!(c.im, SCALE / 4);
    }
}

#[test]
fn viewport_spans_follow_zoom() {
    // zoom 1: the real span is exactly 3; 16:8 halves it for the imaginary axis
    let vp = viewport_new(16, 8, 0, 0, SCALE as u64);
    assert_eq!(vp.span_x, 3 * SCALE);
    assert_eq!(vp.span_y, 3 * SCALE / 2);
    // doubling the zoom halves the visible span
    let vp2 = viewport_new(16, 8, 0, 0, 2 * SCALE as u64);
    assert_eq!(vp2.span_x, 3 * SCALE / 2);
}

#[test]
fn config_validation() {
    let cx = -3 * SCALE / 2;
    assert!(config_ok(16, 9, cx, 0, SCALE as u64));
    assert!(!config_ok(0, 9, cx, 0, SCALE as u64));
    assert!(!config_ok(16, 0, cx, 0, SCALE as u64));
    assert!(!config_ok(16, 200, cx, 0, SCALE as u64));
    assert!(!config_ok(16, 9, cx, 0, 0));
    assert!(!config_ok(16, 9, cx, 0, SCALE as u64 - 1));
    assert!(!config_ok(16, 9, 100 * SCALE, 0, SCALE as u64));
}

#[test]
fn frame_entries_are_palette_colors() {
    let table: Vec<Rgb> = (0..16u32).map(colorize).collect();
    let vp = viewport_new(16, 9, -3 * SCALE / 2, 0, SCALE as u64);
    let buf = generate_frame(&vp, 256);
    assert_eq!(buf.len(), 16 * 9);
    for px in &buf {
        assert!(table.contains(px));
    }
}

#[test]
fn frame_is_rows_in_order() {
    // the whole-frame buffer equals its rows rendered independently and
    // concatenated in row order
    let vp = viewport_new(16, 9, -3 * SCALE / 2, 0, SCALE as u64);
    let buf = generate_frame(&vp, 256);
    let mut assembled: Vec<Rgb> = Vec::new();
    for y in 0..9u32 {
        assembled.extend(render_row(&vp, y, 256));
    }
    assert_eq!(buf, assembled);
}

#[test]
fn small_frame_scenario() {
    // width 16, height 9, center (-1.5, 0), zoom 1, cap 256
    let cx = -3 * SCALE / 2;
    let vp = viewport_new(16, 9, cx, 0, SCALE as u64);
    let buf = generate_frame(&vp, 256);
    assert_eq!(buf.len(), 144);

    // the far left corners have |c| > 2 and escape within a few steps
    let top_left = pixel_coord(&vp, 0, 0);
    assert_eq!(top_left.re, -3 * SCALE);
    assert!(mandelbrot(top_left, 256) < 10);
    let bottom_left = pixel_coord(&vp, 0, 8);
    assert!(mandelbrot(bottom_left, 256) < 10);

    // the column under the center hits the real axis region around -1.5;
    // the pixel nearest the center sits half a row off the axis and escapes
    let near_center = pixel_coord(&vp, 8, 4);
    assert_eq!(near_center.re, cx);
    // with an odd height the nearest row sits within half a pixel of the axis
    assert!(near_center.im.abs() <= vp.span_y / 9);
    let n = mandelbrot(near_center, 256);
    assert_eq!(n, 7);
    assert_eq!(buf[4 * 16 + 8], colorize(n));

    // points of the grid on the set itself reach the cap
    let interior = pixel_coord(&vp, 13, 4);
    assert_eq!(mandelbrot(interior, 256), 256);
}
