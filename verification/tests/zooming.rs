use mandelzoom::fixed::SCALE;
use mandelzoom::zoom::{frame_viewport, schedule_ok, zoom_at, ZoomSchedule};

fn cfg(steps: u32, zoom_start: u64, zoom_end: u64) -> ZoomSchedule {
    ZoomSchedule { steps, zoom_start, zoom_end }
}

#[test]
fn schedule_validation() {
    let s = SCALE as u64;
    assert!(schedule_ok(&cfg(10, s, 1000 * s)));
    assert!(schedule_ok(&cfg(1, s, s)));
    assert!(!schedule_ok(&cfg(0, s, 1000 * s)));
    assert!(!schedule_ok(&cfg(10, s - 1, 1000 * s)));
    assert!(!schedule_ok(&cfg(10, 2 * s, s)));
}

#[test]
fn zoom_starts_at_the_start_bound() {
    let s = SCALE as u64;
    assert_eq!(zoom_at(&cfg(10, s, 1000 * s), 0), s);
    assert_eq!(zoom_at(&cfg(6000, s, 1_000_000_000_000 * s), 0), s);
}

#[test]
fn zoom_is_monotone_and_bounded() {
    let s = SCALE as u64;
    let c = cfg(10, s, 1000 * s);
    let mut prev = zoom_at(&c, 0);
    for i in 1..10u32 {
        let z = zoom_at(&c, i);
        assert!(prev <= z);
        assert!(c.zoom_start <= z && z <= c.zoom_end);
        prev = z;
    }
}

#[test]
fn zoom_exact_values() {
    // steps 10 gives easing exponent 2; the halfway frame has t = 1/2,
    // t^2 = 1/4, so zoom = 1 + 999/4
    let s = SCALE as u64;
    let c = cfg(10, s, 1000 * s);
    assert_eq!(zoom_at(&c, 5), 4206886912);
    assert_eq!(zoom_at(&c, 1), 184381444);
    assert_eq!(zoom_at(&c, 9), 13592731672);
}

#[test]
fn frame_viewport_uses_the_eased_zoom() {
    let s = SCALE as u64;
    let c = cfg(10, s, 1000 * s);
    let vp = frame_viewport(&c, 16, 9, -3 * SCALE / 2, 0, 5);
    assert_eq!(vp.zoom, zoom_at(&c, 5));
    assert_eq!(vp.width, 16);
    assert_eq!(vp.height, 9);
}
