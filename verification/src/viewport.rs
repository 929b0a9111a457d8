//! The coordinate mapper: a viewport of the complex plane, built from a
//! center, a zoom factor, and the frame dimensions, together with the affine
//! map from pixel indices to fixed-point complex coordinates.
//!
//! The visible real-axis span is `3 / zoom`; the imaginary-axis span scales
//! it by `height / width` to preserve the aspect ratio. Row zero is the top
//! of the frame, so the imaginary axis runs downward from the upper edge.

use vstd::prelude::*;
use vstd::arithmetic::div_mod::{
    lemma_div_by_multiple, lemma_div_denominator, lemma_div_is_ordered,
    lemma_div_is_ordered_by_denominator, lemma_div_multiples_vanish, lemma_div_nonincreasing,
    lemma_div_pos_is_pos, lemma_fundamental_div_mod,
};
use vstd::arithmetic::mul::{lemma_mul_inequality, lemma_mul_is_commutative, lemma_mul_nonnegative};
use crate::fixed::SCALE;
use crate::complex::Complex;
use crate::mandel::{coord_in_range, COORD_BOUND};

verus! {

/// Largest center-coordinate magnitude (8 whole units) a viewport accepts.
pub const CENTER_BOUND: i64 = 8 * 0x100_0000;

/// The real-axis span of the visible region: `3 / zoom`, all in fixed point,
/// so the numerator carries one extra `SCALE` factor.
pub open spec fn spec_span_x(zoom: int) -> int {
    (3 * (SCALE as int) * (SCALE as int)) / zoom
}

/// The imaginary-axis span: the real-axis span scaled by `height / width`.
pub open spec fn spec_span_y(span_x: int, width: int, height: int) -> int {
    (span_x * height) / width
}

/// One frame's viewport: the center and zoom it was built from, and the
/// derived spans and top-left corner that the pixel map uses.
#[derive(Clone, Copy, Debug)]
pub struct Viewport {
    pub width: u32,
    pub height: u32,
    pub cx: i64,
    pub cy: i64,
    pub zoom: u64,
    pub span_x: i64,
    pub span_y: i64,
    pub start_x: i64,
    pub start_y: i64,
}

impl Viewport {
    /// Well-formedness: positive dimensions with a sane aspect ratio, zoom
    /// at least one, the center within range, and every derived field equal
    /// to its defining formula.
    pub open spec fn wf(&self) -> bool {
        &&& 1 <= self.width
        &&& 1 <= self.height
        &&& self.height <= 8 * self.width
        &&& SCALE as u64 <= self.zoom
        &&& -CENTER_BOUND <= self.cx <= CENTER_BOUND
        &&& -CENTER_BOUND <= self.cy <= CENTER_BOUND
        &&& self.span_x == spec_span_x(self.zoom as int)
        &&& self.span_y == spec_span_y(self.span_x as int, self.width as int, self.height as int)
        &&& self.start_x == self.cx - self.span_x as int / 2
        &&& self.start_y == self.cy + self.span_y as int / 2
    }
}

/// The complex coordinate under pixel column `x`: linear interpolation of
/// the real-axis span, offset from the left edge.
pub open spec fn spec_pixel_re(vp: Viewport, x: int) -> int {
    vp.start_x + (x * vp.span_x) / (vp.width as int)
}

/// The complex coordinate under pixel row `y`: linear interpolation of the
/// imaginary-axis span, descending from the top edge.
pub open spec fn spec_pixel_im(vp: Viewport, y: int) -> int {
    vp.start_y - (y * vp.span_y) / (vp.height as int)
}

/// Range facts every well-formed viewport provides: spans are non-negative
/// and bounded, and the corner offsets stay well inside the fixed-point
/// range.
pub proof fn lemma_wf_bounds(vp: Viewport)
    requires
        vp.wf(),
    ensures
        0 <= vp.span_x <= 3 * (SCALE as int),
        0 <= vp.span_y <= 24 * (SCALE as int),
        -10 * (SCALE as int) <= vp.start_x <= 10 * (SCALE as int),
        -21 * (SCALE as int) <= vp.start_y <= 21 * (SCALE as int),
{
    let s = SCALE as int;
    let num = 3 * s * s;
    lemma_div_pos_is_pos(num, vp.zoom as int);
    lemma_div_is_ordered_by_denominator(num, s, vp.zoom as int);
    assert(num / s == 3 * s) by (nonlinear_arith)
        requires s == 0x100_0000 && num == 3 * s * s;
    let sx = vp.span_x as int;
    let w = vp.width as int;
    let h = vp.height as int;
    lemma_mul_nonnegative(sx, h);
    lemma_div_pos_is_pos(sx * h, w);
    lemma_mul_inequality(h, 8 * w, sx);
    lemma_mul_is_commutative(h, sx);
    lemma_mul_is_commutative(8 * w, sx);
    lemma_div_is_ordered(sx * h, sx * (8 * w), w);
    assert(sx * (8 * w) == (8 * sx) * w) by (nonlinear_arith);
    lemma_div_by_multiple(8 * sx, w);
}

/// Validates a frame configuration before any rendering: positive
/// dimensions, a sane aspect ratio, a zoom of at least one, and a center
/// within range — exactly the inputs `viewport_new` accepts.
pub fn config_ok(width: u32, height: u32, cx: i64, cy: i64, zoom: u64) -> (ok: bool)
    ensures
        ok <==> {
            &&& 1 <= width
            &&& 1 <= height
            &&& height <= 8 * width
            &&& SCALE as u64 <= zoom
            &&& -CENTER_BOUND <= cx <= CENTER_BOUND
            &&& -CENTER_BOUND <= cy <= CENTER_BOUND
        },
{
    1 <= width && 1 <= height && (height as u64) <= 8 * (width as u64)
        && (SCALE as u64) <= zoom
        && -CENTER_BOUND <= cx && cx <= CENTER_BOUND
        && -CENTER_BOUND <= cy && cy <= CENTER_BOUND
}

/// Builds the viewport for one frame from the center, the fixed-point zoom
/// factor, and the frame dimensions.
pub fn viewport_new(width: u32, height: u32, cx: i64, cy: i64, zoom: u64) -> (vp: Viewport)
    requires
        1 <= width,
        1 <= height,
        height <= 8 * width,
        SCALE as u64 <= zoom,
        -CENTER_BOUND <= cx <= CENTER_BOUND,
        -CENTER_BOUND <= cy <= CENTER_BOUND,
    ensures
        vp.wf(),
        vp.width == width,
        vp.height == height,
        vp.cx == cx,
        vp.cy == cy,
        vp.zoom == zoom,
{
    let num: u64 = 3 * (SCALE as u64) * (SCALE as u64);
    let sx: u64 = num / zoom;
    proof {
        lemma_div_pos_is_pos(num as int, zoom as int);
        lemma_div_is_ordered_by_denominator(num as int, SCALE as int, zoom as int);
        assert(num as int / (SCALE as int) == 3 * (SCALE as int)) by (nonlinear_arith)
            requires num == 3 * (SCALE as int) * (SCALE as int) && SCALE == 0x100_0000;
    }
    let span_x: i64 = sx as i64;
    proof {
        assert(sx as int * height as int <= 50331648 * 0xffff_ffff) by (nonlinear_arith)
            requires sx <= 50331648 && height <= 0xffff_ffff;
    }
    let sy: u64 = (sx * height as u64) / (width as u64);
    proof {
        lemma_mul_nonnegative(sx as int, height as int);
        lemma_div_pos_is_pos(sx as int * height as int, width as int);
        lemma_div_nonincreasing(sx as int * height as int, width as int);
        lemma_mul_inequality(height as int, 8 * width as int, sx as int);
        lemma_mul_is_commutative(height as int, sx as int);
        lemma_mul_is_commutative(8 * width as int, sx as int);
        lemma_div_is_ordered(sx as int * height as int, sx as int * (8 * width as int), width as int);
        assert(sx as int * (8 * width as int) == (8 * sx as int) * width as int) by (nonlinear_arith);
        lemma_div_by_multiple(8 * sx as int, width as int);
    }
    let span_y: i64 = sy as i64;
    let start_x: i64 = cx - (sx / 2) as i64;
    let start_y: i64 = cy + (sy / 2) as i64;
    Viewport { width, height, cx, cy, zoom, span_x, span_y, start_x, start_y }
}

/// Maps a pixel to its complex coordinate, exactly as the two spec
/// interpolation formulas state; the result is always a coordinate the
/// escape-time evaluator accepts.
pub fn pixel_coord(vp: &Viewport, x: u32, y: u32) -> (c: Complex)
    requires
        vp.wf(),
        x < vp.width,
        y < vp.height,
    ensures
        c.re == spec_pixel_re(*vp, x as int),
        c.im == spec_pixel_im(*vp, y as int),
        coord_in_range(c),
{
    proof {
        lemma_wf_bounds(*vp);
        lemma_mul_nonnegative(x as int, vp.span_x as int);
        lemma_div_pos_is_pos(x as int * vp.span_x as int, vp.width as int);
        lemma_mul_inequality(x as int, vp.width as int, vp.span_x as int);
        lemma_mul_is_commutative(x as int, vp.span_x as int);
        lemma_mul_is_commutative(vp.width as int, vp.span_x as int);
        lemma_div_is_ordered(
            x as int * vp.span_x as int,
            vp.span_x as int * vp.width as int,
            vp.width as int,
        );
        lemma_div_by_multiple(vp.span_x as int, vp.width as int);
        lemma_mul_nonnegative(y as int, vp.span_y as int);
        lemma_div_pos_is_pos(y as int * vp.span_y as int, vp.height as int);
        lemma_mul_inequality(y as int, vp.height as int, vp.span_y as int);
        lemma_mul_is_commutative(y as int, vp.span_y as int);
        lemma_mul_is_commutative(vp.height as int, vp.span_y as int);
        lemma_div_is_ordered(
            y as int * vp.span_y as int,
            vp.span_y as int * vp.height as int,
            vp.height as int,
        );
        lemma_div_by_multiple(vp.span_y as int, vp.height as int);
        assert(x as int * vp.span_x as int <= 0xffff_ffff * 50331648) by (nonlinear_arith)
            requires x <= 0xffff_ffff && vp.span_x <= 50331648;
        assert(y as int * vp.span_y as int <= 0xffff_ffff * 402653184) by (nonlinear_arith)
            requires y <= 0xffff_ffff && vp.span_y <= 402653184;
    }
    let ox: u64 = (x as u64 * vp.span_x as u64) / (vp.width as u64);
    let oy: u64 = (y as u64 * vp.span_y as u64) / (vp.height as u64);
    let re: i64 = vp.start_x + ox as i64;
    let im: i64 = vp.start_y - oy as i64;
    Complex::new(re, im)
}

/// The half-index interpolation error: offsetting by `(w/2)` steps of an
/// interpolated span `s` lands at most one pixel width (plus rounding) short
/// of the true half span.
proof fn lemma_half_span(s: int, w: int)
    requires
        0 <= s,
        1 <= w,
    ensures
        0 <= s / 2 - ((w / 2) * s) / w <= s / w + 2,
{
    let m = w / 2;
    lemma_fundamental_div_mod(w, 2);
    lemma_fundamental_div_mod(s, 2);
    lemma_fundamental_div_mod(s, w);
    lemma_fundamental_div_mod(m * s, w);
    lemma_mul_nonnegative(m, s);
    let dl = w % 2;
    let r2 = s % 2;
    let r3 = s % w;
    let q1 = (m * s) / w;
    let r1 = (m * s) % w;
    let q2 = s / 2;
    let q3 = s / w;
    assert(0 <= q2 - q1 && q2 - q1 <= q3 + 2) by (nonlinear_arith)
        requires
            w == 2 * m + dl && 0 <= dl < 2
            && s == 2 * q2 + r2 && 0 <= r2 < 2
            && s == w * q3 + r3 && 0 <= r3 < w
            && m * s == w * q1 + r1 && 0 <= r1 < w
            && 0 <= s && 1 <= w,
    ;
}

/// The pixel at half the width and half the height maps to within one pixel
/// of the viewport center: exactly left of it on the real axis and exactly
/// above it on the imaginary axis, by at most one pixel's span each (plus
/// two raw rounding units).
pub proof fn lemma_center_pixel_near(vp: Viewport)
    requires
        vp.wf(),
    ensures
        0 <= vp.cx - spec_pixel_re(vp, vp.width as int / 2)
            <= vp.span_x as int / (vp.width as int) + 2,
        0 <= spec_pixel_im(vp, vp.height as int / 2) - vp.cy
            <= vp.span_y as int / (vp.height as int) + 2,
{
    lemma_wf_bounds(vp);
    lemma_half_span(vp.span_x as int, vp.width as int);
    lemma_half_span(vp.span_y as int, vp.height as int);
}

/// The pixel at half the width and half the height of an even-dimensioned
/// frame maps exactly to the viewport center.
pub proof fn lemma_center_pixel(vp: Viewport)
    requires
        vp.wf(),
        vp.width % 2 == 0,
        vp.height % 2 == 0,
    ensures
        spec_pixel_re(vp, vp.width as int / 2) == vp.cx,
        spec_pixel_im(vp, vp.height as int / 2) == vp.cy,
{
    lemma_wf_bounds(vp);
    let w = vp.width as int;
    let h = vp.height as int;
    let mx = w / 2;
    let my = h / 2;
    lemma_fundamental_div_mod(w, 2);
    lemma_fundamental_div_mod(h, 2);
    assert(w == 2 * mx);
    assert(h == 2 * my);
    let sx = vp.span_x as int;
    let sy = vp.span_y as int;
    lemma_mul_nonnegative(mx, sx);
    lemma_mul_is_commutative(mx, sx);
    lemma_div_denominator(mx * sx, mx, 2);
    lemma_div_multiples_vanish(sx, mx);
    assert(mx * 2 == w) by (nonlinear_arith)
        requires w == 2 * mx;
    assert((mx * sx) / w == sx / 2);
    lemma_mul_nonnegative(my, sy);
    lemma_mul_is_commutative(my, sy);
    lemma_div_denominator(my * sy, my, 2);
    lemma_div_multiples_vanish(sy, my);
    assert(my * 2 == h) by (nonlinear_arith)
        requires h == 2 * my;
    assert((my * sy) / h == sy / 2);
}

} // verus!
