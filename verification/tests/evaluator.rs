use mandelzoom::complex::Complex;
use mandelzoom::fixed::{fix_mul, FIX_BOUND, SCALE};
use mandelzoom::mandel::{mandelbrot, COORD_BOUND};

#[test]
fn fixed_mul_exact_values() {
    // 1.5 * 2.0 == 3.0
    assert_eq!(fix_mul(3 * SCALE / 2, 2 * SCALE), 3 * SCALE);
    // signs
    assert_eq!(fix_mul(-3 * SCALE / 2, 2 * SCALE), -3 * SCALE);
    assert_eq!(fix_mul(-3 * SCALE / 2, -2 * SCALE), 3 * SCALE);
    // floor rounding: a tiny positive product rounds down to zero,
    // a tiny negative product rounds down to minus one raw unit
    assert_eq!(fix_mul(1, 1), 0);
    assert_eq!(fix_mul(-1, 1), -1);
    // the largest accepted magnitudes
    assert_eq!(fix_mul(FIX_BOUND, FIX_BOUND), 64 * 64 * SCALE);
    assert_eq!(fix_mul(-FIX_BOUND, FIX_BOUND), -64 * 64 * SCALE);
}

#[test]
fn complex_ops_exact_values() {
    // (1.5 + 0.5i) + (2 - 1i) == 3.5 - 0.5i
    let a = Complex::new(3 * SCALE / 2, SCALE / 2);
    let b = Complex::new(2 * SCALE, -SCALE);
    let s = a.add(&b);
    assert_eq!(s.re, 7 * SCALE / 2);
    assert_eq!(s.im, -SCALE / 2);
    // (1.5 + 0.5i) * (2 - 1i) == 3.5 - 0.5i
    let p = a.mul(&b);
    assert_eq!(p.re, 7 * SCALE / 2);
    assert_eq!(p.im, -SCALE / 2);
    // |3 + 4i|^2 == 25
    let c = Complex::new(3 * SCALE, 4 * SCALE);
    assert_eq!(c.abs_sq(), 25 * SCALE);
}

#[test]
fn origin_count_is_the_cap() {
    // the origin never escapes, whatever the iteration bound
    assert_eq!(mandelbrot(Complex::new(0, 0), 256), 256);
    assert_eq!(mandelbrot(Complex::new(0, 0), 1000), 1000);
    assert_eq!(mandelbrot(Complex::new(0, 0), 1), 1);
}

#[test]
fn far_coordinates_escape_immediately() {
    // |c| > 2 escapes right after the first step from z = 0
    assert_eq!(mandelbrot(Complex::new(3 * SCALE, 0), 256), 1);
    assert_eq!(mandelbrot(Complex::new(0, 3 * SCALE), 256), 1);
    assert_eq!(mandelbrot(Complex::new(-3 * SCALE, 0), 256), 1);
    assert_eq!(mandelbrot(Complex::new(COORD_BOUND, COORD_BOUND), 256), 1);
}

#[test]
fn count_is_bounded_by_the_cap() {
    let samples = [
        (0i64, 0i64),
        (-3 * SCALE / 2, 3 * SCALE / 2),
        (SCALE / 4, SCALE / 4),
        (-SCALE, 0),
        (COORD_BOUND, -COORD_BOUND),
    ];
    for (re, im) in samples {
        let n = mandelbrot(Complex::new(re, im), 100);
        assert!(n <= 100);
    }
}

#[test]
fn interior_point_reaches_the_cap() {
    // -1 + 0i lies inside the set: the orbit cycles and never escapes
    assert_eq!(mandelbrot(Complex::new(-SCALE, 0), 256), 256);
}
