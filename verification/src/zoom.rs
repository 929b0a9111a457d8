//! The sequence driver's zoom schedule: an eased progress curve between a
//! start and an end zoom. Frame `i` of `steps` has progress `t = i / steps`
//! and zoom `start + (end - start) * t^p` with exponent `p = 2 + steps/100`,
//! which biases later frames toward faster magnification.
//!
//! All quantities are fixed-point with unit `SCALE` (see `crate::fixed`).

use vstd::prelude::*;
use vstd::arithmetic::div_mod::{
    lemma_div_by_multiple, lemma_div_is_ordered, lemma_div_multiples_vanish, lemma_div_of0,
    lemma_div_pos_is_pos,
};
use vstd::arithmetic::mul::{lemma_mul_inequality, lemma_mul_nonnegative};
use crate::fixed::{fmul, lemma_fmul_mono_nonneg, lemma_fmul_nonneg, SCALE};
use crate::viewport::{Viewport, viewport_new, CENTER_BOUND};

verus! {

/// The animation configuration: how many frames, and the zoom bounds the
/// eased curve interpolates between.
#[derive(Clone, Copy, Debug)]
pub struct ZoomSchedule {
    pub steps: u32,
    pub zoom_start: u64,
    pub zoom_end: u64,
}

impl ZoomSchedule {
    /// At least one frame, a start zoom of at least one, and an end zoom no
    /// smaller than the start.
    pub open spec fn wf(&self) -> bool {
        &&& 1 <= self.steps
        &&& SCALE as u64 <= self.zoom_start
        &&& self.zoom_start <= self.zoom_end
    }
}

/// The easing exponent: `2 + steps / 100`.
pub open spec fn spec_ease_exp(steps: int) -> int {
    2 + steps / 100
}

/// Fixed-point power: `t^p` with `SCALE` as the unit.
pub open spec fn fpow(t: int, p: nat) -> int
    decreases p,
{
    if p == 0 {
        SCALE as int
    } else {
        fmul(fpow(t, (p - 1) as nat), t)
    }
}

/// The progress ratio of frame `i`: `i / steps` in fixed point.
pub open spec fn spec_progress(i: int, steps: int) -> int {
    (i * (SCALE as int)) / steps
}

/// The zoom of frame `i`: the eased interpolation between the bounds.
pub open spec fn spec_zoom_at(cfg: ZoomSchedule, i: int) -> int {
    cfg.zoom_start + ((cfg.zoom_end - cfg.zoom_start) * fpow(
        spec_progress(i, cfg.steps as int),
        spec_ease_exp(cfg.steps as int) as nat,
    )) / (SCALE as int)
}

/// A power of a unit-interval value stays in the unit interval.
pub proof fn lemma_fpow_range(t: int, p: nat)
    requires
        0 <= t <= SCALE as int,
    ensures
        0 <= fpow(t, p) <= SCALE as int,
    decreases p,
{
    let s = SCALE as int;
    if p > 0 {
        lemma_fpow_range(t, (p - 1) as nat);
        lemma_fmul_nonneg(fpow(t, (p - 1) as nat), t);
        lemma_fmul_mono_nonneg(fpow(t, (p - 1) as nat), t, s, s);
        lemma_div_by_multiple(s, s);
    }
}

/// The fixed-point power is monotone in its base over the unit interval.
pub proof fn lemma_fpow_mono(t1: int, t2: int, p: nat)
    requires
        0 <= t1 <= t2 <= SCALE as int,
    ensures
        fpow(t1, p) <= fpow(t2, p),
    decreases p,
{
    if p > 0 {
        lemma_fpow_mono(t1, t2, (p - 1) as nat);
        lemma_fpow_range(t1, (p - 1) as nat);
        lemma_fpow_range(t2, (p - 1) as nat);
        lemma_fmul_mono_nonneg(fpow(t1, (p - 1) as nat), t1, fpow(t2, (p - 1) as nat), t2);
    }
}

/// The progress ratio lies in the unit interval for every valid frame.
pub proof fn lemma_progress_range(i: int, steps: int)
    requires
        0 <= i <= steps,
        1 <= steps,
    ensures
        0 <= spec_progress(i, steps) <= SCALE as int,
{
    let s = SCALE as int;
    lemma_mul_nonnegative(i, s);
    lemma_div_pos_is_pos(i * s, steps);
    lemma_mul_inequality(i, steps, s);
    lemma_div_is_ordered(i * s, steps * s, steps);
    lemma_div_multiples_vanish(s, steps);
}

/// The progress ratio never decreases from one frame to the next.
pub proof fn lemma_progress_mono(i: int, j: int, steps: int)
    requires
        0 <= i <= j,
        1 <= steps,
    ensures
        spec_progress(i, steps) <= spec_progress(j, steps),
{
    let s = SCALE as int;
    lemma_mul_inequality(i, j, s);
    lemma_div_is_ordered(i * s, j * s, steps);
}

/// The first frame's zoom is exactly the start zoom.
pub proof fn lemma_zoom_at_start(cfg: ZoomSchedule)
    requires
        cfg.wf(),
    ensures
        spec_zoom_at(cfg, 0) == cfg.zoom_start,
{
    let steps = cfg.steps as int;
    let s = SCALE as int;
    lemma_div_of0(steps);
    assert(spec_progress(0, steps) == 0);
    let p = spec_ease_exp(steps) as nat;
    lemma_div_pos_is_pos(steps, 100);
    assert(p >= 2);
    assert(fpow(0, p) == fmul(fpow(0, (p - 1) as nat), 0));
    assert(fmul(fpow(0, (p - 1) as nat), 0) == 0) by {
        lemma_div_of0(s);
    }
    lemma_div_of0(s);
}

/// Every frame's zoom lies between the start and end zooms.
pub proof fn lemma_zoom_at_in_bounds(cfg: ZoomSchedule, i: int)
    requires
        cfg.wf(),
        0 <= i <= cfg.steps,
    ensures
        cfg.zoom_start <= spec_zoom_at(cfg, i) <= cfg.zoom_end,
{
    let steps = cfg.steps as int;
    let s = SCALE as int;
    let d = cfg.zoom_end - cfg.zoom_start;
    lemma_progress_range(i, steps);
    let t = spec_progress(i, steps);
    let p = spec_ease_exp(steps) as nat;
    lemma_fpow_range(t, p);
    let q = fpow(t, p);
    lemma_mul_nonnegative(d, q);
    lemma_div_pos_is_pos(d * q, s);
    lemma_mul_inequality(q, s, d);
    assert(q * d == d * q && s * d == d * s) by (nonlinear_arith);
    lemma_div_is_ordered(d * q, d * s, s);
    lemma_div_by_multiple(d, s);
}

/// Every power of the unit value is the unit value.
pub proof fn lemma_fpow_unit(p: nat)
    ensures
        fpow(SCALE as int, p) == SCALE as int,
    decreases p,
{
    let s = SCALE as int;
    if p > 0 {
        lemma_fpow_unit((p - 1) as nat);
        lemma_div_by_multiple(s, s);
    }
}

/// At full progress the eased curve reaches the end zoom exactly: the index
/// just past the last frame has `t = 1`, so the zoom values of the frames
/// climb toward `zoom_end` as `t` approaches one.
pub proof fn lemma_zoom_at_full_progress(cfg: ZoomSchedule)
    requires
        cfg.wf(),
    ensures
        spec_zoom_at(cfg, cfg.steps as int) == cfg.zoom_end,
{
    let steps = cfg.steps as int;
    let s = SCALE as int;
    let d = cfg.zoom_end - cfg.zoom_start;
    lemma_div_multiples_vanish(s, steps);
    assert(spec_progress(steps, steps) == s);
    lemma_fpow_unit(spec_ease_exp(steps) as nat);
    lemma_div_by_multiple(d, s);
}

/// Zoom easing monotonicity: the zoom never decreases from one frame to the
/// next.
pub proof fn lemma_zoom_monotone(cfg: ZoomSchedule, i: int)
    requires
        cfg.wf(),
        0 <= i,
        i + 1 <= cfg.steps,
    ensures
        spec_zoom_at(cfg, i) <= spec_zoom_at(cfg, i + 1),
{
    let steps = cfg.steps as int;
    let s = SCALE as int;
    let d = cfg.zoom_end - cfg.zoom_start;
    lemma_progress_range(i, steps);
    lemma_progress_range(i + 1, steps);
    lemma_progress_mono(i, i + 1, steps);
    let t1 = spec_progress(i, steps);
    let t2 = spec_progress(i + 1, steps);
    let p = spec_ease_exp(steps) as nat;
    lemma_fpow_mono(t1, t2, p);
    lemma_fpow_range(t1, p);
    lemma_fpow_range(t2, p);
    let q1 = fpow(t1, p);
    let q2 = fpow(t2, p);
    lemma_mul_inequality(q1, q2, d);
    assert(q1 * d == d * q1 && q2 * d == d * q2) by (nonlinear_arith);
    lemma_div_is_ordered(d * q1, d * q2, s);
}

/// Fixed-point power of a unit-interval value, exactly as `fpow` states.
fn fpow_exec(t: u64, p: u32) -> (r: u64)
    requires
        t <= SCALE as u64,
    ensures
        r == fpow(t as int, p as nat),
        r <= SCALE as u64,
{
    proof {
        lemma_fpow_range(t as int, p as nat);
    }
    let mut acc: u64 = SCALE as u64;
    let mut j: u32 = 0;
    while j < p
        invariant
            t <= SCALE as u64,
            j <= p,
            acc == fpow(t as int, j as nat),
            acc <= SCALE as u64,
        decreases p - j,
    {
        proof {
            lemma_fmul_nonneg(acc as int, t as int);
            lemma_fmul_mono_nonneg(acc as int, t as int, SCALE as int, SCALE as int);
            lemma_div_by_multiple(SCALE as int, SCALE as int);
            assert(acc as int * t as int <= 0x100_0000 * 0x100_0000) by (nonlinear_arith)
                requires acc <= 0x100_0000 && t <= 0x100_0000;
        }
        acc = (acc * t) / (SCALE as u64);
        j = j + 1;
    }
    acc
}

/// The sequence driver's zoom for frame `i`: computes the eased value that
/// `spec_zoom_at` states, always between the configured bounds.
pub fn zoom_at(cfg: &ZoomSchedule, i: u32) -> (z: u64)
    requires
        cfg.wf(),
        i < cfg.steps,
    ensures
        z == spec_zoom_at(*cfg, i as int),
        cfg.zoom_start <= z <= cfg.zoom_end,
{
    proof {
        lemma_zoom_at_in_bounds(*cfg, i as int);
        lemma_progress_range(i as int, cfg.steps as int);
        assert(i as int * SCALE as int <= 0xffff_ffff * 0x100_0000) by (nonlinear_arith)
            requires i <= 0xffff_ffff && SCALE == 0x100_0000;
    }
    let p: u32 = 2 + cfg.steps / 100;
    let t: u64 = (i as u64 * SCALE as u64) / (cfg.steps as u64);
    let q: u64 = fpow_exec(t, p);
    let d: u64 = cfg.zoom_end - cfg.zoom_start;
    proof {
        let s = SCALE as int;
        lemma_mul_nonnegative(d as int, q as int);
        lemma_div_pos_is_pos(d as int * q as int, s);
        lemma_mul_inequality(q as int, s, d as int);
        assert(q as int * d as int == d as int * q as int
            && s * d as int == d as int * s) by (nonlinear_arith);
        lemma_div_is_ordered(d as int * q as int, d as int * s, s);
        lemma_div_by_multiple(d as int, s);
        assert(d as int * q as int <= 0xffff_ffff_ffff_ffff * 0x100_0000) by (nonlinear_arith)
            requires d <= 0xffff_ffff_ffff_ffff && q <= 0x100_0000;
    }
    let dq: u128 = (d as u128 * q as u128) / (SCALE as u128);
    let z: u64 = cfg.zoom_start + dq as u64;
    z
}

/// Validates an animation configuration: exactly the schedules the zoom
/// curve is defined for.
pub fn schedule_ok(cfg: &ZoomSchedule) -> (ok: bool)
    ensures
        ok == cfg.wf(),
{
    1 <= cfg.steps && SCALE as u64 <= cfg.zoom_start && cfg.zoom_start <= cfg.zoom_end
}

/// One step of the sequence driver: the viewport of frame `i`, built from
/// the fixed center, the frame dimensions, and the eased zoom of that frame.
pub fn frame_viewport(cfg: &ZoomSchedule, width: u32, height: u32, cx: i64, cy: i64, i: u32)
    -> (vp: Viewport)
    requires
        cfg.wf(),
        i < cfg.steps,
        1 <= width,
        1 <= height,
        height <= 8 * width,
        -CENTER_BOUND <= cx <= CENTER_BOUND,
        -CENTER_BOUND <= cy <= CENTER_BOUND,
    ensures
        vp.wf(),
        vp.width == width,
        vp.height == height,
        vp.cx == cx,
        vp.cy == cy,
        vp.zoom == spec_zoom_at(*cfg, i as int),
{
    let z = zoom_at(cfg, i);
    viewport_new(width, height, cx, cy, z)
}

} // verus!
