//! The escape-time evaluator: iterate `z := z*z + c` from zero and count the
//! steps until the squared magnitude passes the escape threshold, capped at a
//! configurable bound.

use vstd::prelude::*;
use crate::fixed::{fmul, fix_in_range, lemma_fmul_bounds, lemma_fmul_sq_nonneg, FIX_BOUND, SCALE};
use crate::complex::{Complex, cmul_re, cmul_im, mag_sq, complex_in_range};

verus! {

/// Largest coordinate magnitude (32 whole units) the evaluator accepts; the
/// recurrence then stays within the fixed-point range at every step.
pub const COORD_BOUND: i64 = 32 * 0x100_0000;

/// The escape test: squared magnitude beyond 4, so magnitude beyond 2.
pub open spec fn spec_escaped(zr: int, zi: int) -> bool {
    mag_sq(zr, zi) > 4 * (SCALE as int)
}

/// A coordinate the evaluator accepts.
pub open spec fn coord_in_range(c: Complex) -> bool {
    -COORD_BOUND <= c.re <= COORD_BOUND && -COORD_BOUND <= c.im <= COORD_BOUND
}

/// The orbit of the recurrence: `z_0 = 0`, `z_{n+1} = z_n * z_n + c`, in
/// fixed-point arithmetic.
pub open spec fn z_iter(cr: int, ci: int, n: nat) -> (int, int)
    decreases n,
{
    if n == 0 {
        (0int, 0int)
    } else {
        let (zr, zi) = z_iter(cr, ci, (n - 1) as nat);
        (cmul_re(zr, zi, zr, zi) + cr, cmul_im(zr, zi, zr, zi) + ci)
    }
}

/// The iteration count reached from orbit position `k`: the first index at
/// which the orbit escapes, capped at `max`.
pub open spec fn count_from(cr: int, ci: int, k: nat, max: nat) -> nat
    decreases max - k,
{
    if k >= max {
        max
    } else if spec_escaped(z_iter(cr, ci, k).0, z_iter(cr, ci, k).1) {
        k
    } else {
        count_from(cr, ci, k + 1, max)
    }
}

/// The escape-time count of a coordinate: the first orbit index at which the
/// squared magnitude passes the threshold, capped at `max`.
pub open spec fn spec_mandel_count(cr: int, ci: int, max: nat) -> nat {
    count_from(cr, ci, 0, max)
}

/// The count from any starting index never passes the cap.
pub proof fn lemma_count_from_le_max(cr: int, ci: int, k: nat, max: nat)
    ensures
        count_from(cr, ci, k, max) <= max,
    decreases max - k,
{
    if k < max && !spec_escaped(z_iter(cr, ci, k).0, z_iter(cr, ci, k).1) {
        lemma_count_from_le_max(cr, ci, k + 1, max);
    }
}

/// While the orbit has not escaped, the current position keeps both
/// components within two whole units.
pub proof fn lemma_not_escaped_component_bound(zr: int, zi: int)
    requires
        fix_in_range(zr),
        fix_in_range(zi),
        !spec_escaped(zr, zi),
    ensures
        -2 * (SCALE as int) <= zr <= 2 * (SCALE as int),
        -2 * (SCALE as int) <= zi <= 2 * (SCALE as int),
{
    lemma_fmul_sq_nonneg(zr);
    lemma_fmul_sq_nonneg(zi);
    let s = SCALE as int;
    assert(fmul(zr, zr) <= 4 * s && fmul(zi, zi) <= 4 * s);
    assert((zr * zr) / s <= 4 * s ==> zr * zr <= 4 * s * s + s - 1) by (nonlinear_arith)
        requires s == 0x100_0000;
    assert((zi * zi) / s <= 4 * s ==> zi * zi <= 4 * s * s + s - 1) by (nonlinear_arith)
        requires s == 0x100_0000;
    assert(zr * zr <= 4 * s * s + s - 1 ==> -2 * s <= zr <= 2 * s) by (nonlinear_arith)
        requires s == 0x100_0000;
    assert(zi * zi <= 4 * s * s + s - 1 ==> -2 * s <= zi <= 2 * s) by (nonlinear_arith)
        requires s == 0x100_0000;
}

/// The escape-time count of any coordinate lies in `[0, max]`.
pub proof fn lemma_count_le_max(cr: int, ci: int, max: nat)
    ensures
        spec_mandel_count(cr, ci, max) <= max,
{
    lemma_count_from_le_max(cr, ci, 0, max);
}

/// The orbit of the origin stays at the origin forever.
pub proof fn lemma_z_iter_origin(k: nat)
    ensures
        z_iter(0, 0, k) == (0int, 0int),
    decreases k,
{
    if k > 0 {
        lemma_z_iter_origin((k - 1) as nat);
    }
}

proof fn lemma_count_from_origin(k: nat, max: nat)
    ensures
        count_from(0, 0, k, max) == max,
    decreases max - k,
{
    if k < max {
        lemma_z_iter_origin(k);
        lemma_count_from_origin(k + 1, max);
    }
}

/// The origin never escapes: its escape-time count is always the cap,
/// whatever the cap is.
pub proof fn lemma_origin_count_is_max(max: nat)
    ensures
        spec_mandel_count(0, 0, max) == max,
{
    lemma_count_from_origin(0, max);
}

/// A coordinate already beyond the escape threshold escapes on the very
/// first step, because the first orbit position equals the coordinate.
pub proof fn lemma_immediate_escape(cr: int, ci: int, max: nat)
    requires
        spec_escaped(cr, ci),
        1 <= max,
    ensures
        spec_mandel_count(cr, ci, max) == 1,
{
    assert(z_iter(cr, ci, 0) == (0int, 0int));
    assert(z_iter(cr, ci, 1) == (cr, ci));
    assert(!spec_escaped(0, 0));
    assert(count_from(cr, ci, 1, max) == 1);
}

/// The escape-time evaluator. The result is the first orbit index at which
/// the escape test holds, capped at `max_iter`; the extra clauses restate
/// that minimality directly.
pub fn mandelbrot(c: Complex, max_iter: u32) -> (n: u32)
    requires
        coord_in_range(c),
    ensures
        n <= max_iter,
        n == spec_mandel_count(c.re as int, c.im as int, max_iter as nat),
        forall|k: nat| k < n ==> !spec_escaped(
            z_iter(c.re as int, c.im as int, k).0,
            z_iter(c.re as int, c.im as int, k).1,
        ),
        n < max_iter ==> spec_escaped(
            z_iter(c.re as int, c.im as int, n as nat).0,
            z_iter(c.re as int, c.im as int, n as nat).1,
        ),
{
    let ghost cr = c.re as int;
    let ghost ci = c.im as int;
    let mut z = Complex::new(0, 0);
    let mut n: u32 = 0;
    while n < max_iter
        invariant
            n <= max_iter,
            coord_in_range(c),
            cr == c.re as int,
            ci == c.im as int,
            complex_in_range(z),
            z.re == z_iter(cr, ci, n as nat).0,
            z.im == z_iter(cr, ci, n as nat).1,
            forall|k: nat| k < n ==> !spec_escaped(z_iter(cr, ci, k).0, z_iter(cr, ci, k).1),
            count_from(cr, ci, n as nat, max_iter as nat)
                == spec_mandel_count(cr, ci, max_iter as nat),
        decreases max_iter - n,
    {
        let m = z.abs_sq();
        if m > 4 * SCALE {
            proof {
                lemma_count_from_le_max(cr, ci, n as nat, max_iter as nat);
            }
            return n;
        }
        proof {
            lemma_not_escaped_component_bound(z.re as int, z.im as int);
            lemma_fmul_bounds(z.re as int, z.im as int, 2 * SCALE as int, 2 * SCALE as int);
            lemma_fmul_bounds(z.re as int, z.re as int, 2 * SCALE as int, 2 * SCALE as int);
            lemma_fmul_bounds(z.im as int, z.im as int, 2 * SCALE as int, 2 * SCALE as int);
        }
        z = z.mul(&z).add(&c);
        n = n + 1;
    }
    n
}

} // verus!
