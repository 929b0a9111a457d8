//! The complex-number primitive used by the escape-time evaluator.
//!
//! Components are fixed-point values (see `crate::fixed`); the spec functions
//! here give the exact meaning of each operation, floor rounding included.

use vstd::prelude::*;
use crate::fixed::{fmul, fix_in_range, fix_mul, lemma_fmul_bounds, lemma_fmul_sq_nonneg, FIX_BOUND};

verus! {

/// A complex value with fixed-point real and imaginary parts.
#[derive(Clone, Copy, Debug, PartialEq, Eq, Structural)]
pub struct Complex {
    pub re: i64,
    pub im: i64,
}

/// Real part of the fixed-point complex product.
pub open spec fn cmul_re(ar: int, ai: int, br: int, bi: int) -> int {
    fmul(ar, br) - fmul(ai, bi)
}

/// Imaginary part of the fixed-point complex product.
pub open spec fn cmul_im(ar: int, ai: int, br: int, bi: int) -> int {
    fmul(ar, bi) + fmul(ai, br)
}

/// Squared magnitude in fixed-point representation.
pub open spec fn mag_sq(re: int, im: int) -> int {
    fmul(re, re) + fmul(im, im)
}

/// Both components lie within the range the fixed-point operations accept.
pub open spec fn complex_in_range(c: Complex) -> bool {
    fix_in_range(c.re as int) && fix_in_range(c.im as int)
}

impl Complex {
    /// Builds a complex value from fixed-point components.
    pub fn new(re: i64, im: i64) -> (c: Complex)
        ensures
            c.re == re,
            c.im == im,
    {
        Complex { re, im }
    }

    /// Componentwise sum; the caller keeps the result in range.
    pub fn add(&self, other: &Complex) -> (c: Complex)
        requires
            complex_in_range(*self),
            complex_in_range(*other),
        ensures
            c.re == self.re + other.re,
            c.im == self.im + other.im,
    {
        Complex { re: self.re + other.re, im: self.im + other.im }
    }

    /// Fixed-point complex product, exact up to the floor rounding that
    /// `fmul` states.
    pub fn mul(&self, other: &Complex) -> (c: Complex)
        requires
            complex_in_range(*self),
            complex_in_range(*other),
        ensures
            c.re == cmul_re(self.re as int, self.im as int, other.re as int, other.im as int),
            c.im == cmul_im(self.re as int, self.im as int, other.re as int, other.im as int),
    {
        proof {
            lemma_fmul_bounds(self.re as int, other.re as int, FIX_BOUND as int, FIX_BOUND as int);
            lemma_fmul_bounds(self.im as int, other.im as int, FIX_BOUND as int, FIX_BOUND as int);
            lemma_fmul_bounds(self.re as int, other.im as int, FIX_BOUND as int, FIX_BOUND as int);
            lemma_fmul_bounds(self.im as int, other.re as int, FIX_BOUND as int, FIX_BOUND as int);
        }
        let rr = fix_mul(self.re, other.re);
        let ii = fix_mul(self.im, other.im);
        let ri = fix_mul(self.re, other.im);
        let ir = fix_mul(self.im, other.re);
        Complex { re: rr - ii, im: ri + ir }
    }

    /// Squared magnitude; never negative, and exact per `mag_sq`.
    pub fn abs_sq(&self) -> (m: i64)
        requires
            complex_in_range(*self),
        ensures
            m == mag_sq(self.re as int, self.im as int),
            0 <= m,
    {
        proof {
            lemma_fmul_bounds(self.re as int, self.re as int, FIX_BOUND as int, FIX_BOUND as int);
            lemma_fmul_bounds(self.im as int, self.im as int, FIX_BOUND as int, FIX_BOUND as int);
            lemma_fmul_sq_nonneg(self.re as int);
            lemma_fmul_sq_nonneg(self.im as int);
        }
        let rr = fix_mul(self.re, self.re);
        let ii = fix_mul(self.im, self.im);
        rr + ii
    }
}

} // verus!
