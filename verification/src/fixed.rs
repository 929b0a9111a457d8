//! Fixed-point arithmetic over `i64` values.
//!
//! A raw value `v` stands for the real number `v / SCALE`; all library
//! arithmetic on complex-plane quantities uses this representation, so the
//! whole pipeline is exact integer computation with floor rounding.

use vstd::prelude::*;
use vstd::arithmetic::div_mod::{
    lemma_div_is_ordered, lemma_div_pos_is_pos, lemma_fundamental_div_mod,
    lemma_fundamental_div_mod_converse, lemma_mod_bound,
};

verus! {

/// One whole unit in fixed-point representation: 2^24.
pub const SCALE: i64 = 0x100_0000;

/// Largest magnitude (64 whole units) accepted by the fixed-point operations;
/// products of two such values still fit comfortably in 64 bits.
pub const FIX_BOUND: i64 = 64 * 0x100_0000;

/// The fixed-point product: the mathematical product rescaled with floor
/// rounding. This is the reference meaning of every executable multiply.
pub open spec fn fmul(a: int, b: int) -> int {
    (a * b) / (SCALE as int)
}

/// A value within the range the fixed-point operations accept.
pub open spec fn fix_in_range(a: int) -> bool {
    -FIX_BOUND <= a <= FIX_BOUND
}

/// Floor division of a negated non-negative number: `(-m)/d` is `-(m/d)`,
/// less one when `d` does not divide `m`.
pub proof fn lemma_neg_div_floor(m: int, d: int)
    requires
        0 <= m,
        0 < d,
    ensures
        (-m) / d == if m % d == 0 { -(m / d) } else { -(m / d) - 1 },
{
    lemma_fundamental_div_mod(m, d);
    lemma_mod_bound(m, d);
    let q = m / d;
    let r = m % d;
    if r == 0 {
        assert(-m == (-q) * d + 0) by (nonlinear_arith)
            requires m == d * q + r && r == 0;
        lemma_fundamental_div_mod_converse(-m, d, -q, 0);
    } else {
        assert(-m == (-q - 1) * d + (d - r)) by (nonlinear_arith)
            requires m == d * q + r;
        lemma_fundamental_div_mod_converse(-m, d, -q - 1, d - r);
    }
}

/// Bounds of the fixed-point product from bounds of its factors.
pub proof fn lemma_fmul_bounds(a: int, b: int, ma: int, mb: int)
    requires
        0 <= ma,
        0 <= mb,
        -ma <= a <= ma,
        -mb <= b <= mb,
    ensures
        -((ma * mb) / (SCALE as int)) - 1 <= fmul(a, b) <= (ma * mb) / (SCALE as int),
{
    assert(-(ma * mb) <= a * b <= ma * mb) by (nonlinear_arith)
        requires 0 <= ma && 0 <= mb && -ma <= a <= ma && -mb <= b <= mb;
    lemma_div_is_ordered(a * b, ma * mb, SCALE as int);
    lemma_div_is_ordered(-(ma * mb), a * b, SCALE as int);
    lemma_neg_div_floor(ma * mb, SCALE as int);
}

/// The fixed-point product of non-negative factors is non-negative.
pub proof fn lemma_fmul_nonneg(a: int, b: int)
    requires
        0 <= a,
        0 <= b,
    ensures
        0 <= fmul(a, b),
{
    assert(0 <= a * b) by (nonlinear_arith)
        requires 0 <= a && 0 <= b;
    lemma_div_pos_is_pos(a * b, SCALE as int);
}

/// The fixed-point square is non-negative whatever the sign of its operand.
pub proof fn lemma_fmul_sq_nonneg(a: int)
    ensures
        0 <= fmul(a, a),
{
    assert(0 <= a * a) by (nonlinear_arith);
    lemma_div_pos_is_pos(a * a, SCALE as int);
}

/// The fixed-point product is monotone in both factors over non-negative
/// values.
pub proof fn lemma_fmul_mono_nonneg(a1: int, b1: int, a2: int, b2: int)
    requires
        0 <= a1 <= a2,
        0 <= b1 <= b2,
    ensures
        fmul(a1, b1) <= fmul(a2, b2),
{
    assert(a1 * b1 <= a2 * b2) by (nonlinear_arith)
        requires 0 <= a1 <= a2 && 0 <= b1 <= b2;
    lemma_div_is_ordered(a1 * b1, a2 * b2, SCALE as int);
}

/// Fixed-point multiplication: computes `fmul` exactly, splitting off the
/// sign so that the divisions run on non-negative operands.
pub fn fix_mul(a: i64, b: i64) -> (r: i64)
    requires
        fix_in_range(a as int),
        fix_in_range(b as int),
    ensures
        r == fmul(a as int, b as int),
{
    let neg = (a < 0) != (b < 0);
    let ma: u64 = if a < 0 { (-a) as u64 } else { a as u64 };
    let mb: u64 = if b < 0 { (-b) as u64 } else { b as u64 };
    assert(ma * mb <= 0x1000_0000_0000_0000) by (nonlinear_arith)
        requires ma <= 0x4000_0000 && mb <= 0x4000_0000;
    let p: u64 = ma * mb;
    let s: u64 = SCALE as u64;
    if neg {
        proof {
            assert(a as int * b as int == -(p as int)) by (nonlinear_arith)
                requires
                    p == ma * mb
                    && ((a < 0 && b >= 0 && ma == -(a as int) && mb == b as int)
                        || (a >= 0 && b < 0 && ma == a as int && mb == -(b as int))),
            ;
            lemma_neg_div_floor(p as int, SCALE as int);
            lemma_fundamental_div_mod(p as int, SCALE as int);
            lemma_mod_bound(p as int, SCALE as int);
        }
        if p % s == 0 {
            -((p / s) as i64)
        } else {
            -((p / s) as i64) - 1
        }
    } else {
        proof {
            assert(a as int * b as int == p as int) by (nonlinear_arith)
                requires
                    p == ma * mb
                    && ((a >= 0 && b >= 0 && ma == a as int && mb == b as int)
                        || (a < 0 && b < 0 && ma == -(a as int) && mb == -(b as int))),
            ;
            lemma_div_pos_is_pos(p as int, SCALE as int);
            lemma_div_is_ordered(p as int, 0x1000_0000_0000_0000, SCALE as int);
        }
        (p / s) as i64
    }
}

} // verus!
