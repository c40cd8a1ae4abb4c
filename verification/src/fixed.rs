//! Fixed-point helpers shared by the signal graph: scaled multiplication
//! with truncation toward zero, and saturation to a symmetric bound.

use vstd::prelude::*;
use vstd::arithmetic::div_mod::lemma_div_is_ordered;
use vstd::arithmetic::div_mod::lemma_div_multiples_vanish;
use vstd::arithmetic::mul::lemma_mul_nonnegative;
use vstd::arithmetic::mul::lemma_mul_unary_negation;

use crate::SAMPLE_BOUND;
use crate::UNIT;

verus! {

/// Bound on the operands [`mul_unit_exec`] accepts.
pub const MUL_OPERAND_MAX: i64 = 1_000_000_000;

/// Product of two fixed-point values, rescaled by [`UNIT`] with the
/// fractional part truncated toward zero, as Rust's `/` would do.
pub open spec fn mul_unit(a: int, b: int) -> int {
    let p = a * b;
    if p >= 0 {
        p / (UNIT as int)
    } else {
        -((-p) / (UNIT as int))
    }
}

/// `x` saturated into `[-SAMPLE_BOUND, SAMPLE_BOUND]`.
pub open spec fn clamp_sample(x: int) -> int {
    if x > SAMPLE_BOUND {
        SAMPLE_BOUND as int
    } else if x < -(SAMPLE_BOUND as int) {
        -(SAMPLE_BOUND as int)
    } else {
        x
    }
}

/// For `|b| <= UNIT` the rescaled product can be no larger than `|a|`.
pub proof fn lemma_mul_unit_bound(a: int, b: int, m: int)
    requires
        -m <= a <= m,
        -(UNIT as int) <= b <= UNIT,
        0 <= m,
    ensures
        -m <= mul_unit(a, b) <= m,
{
    let u = UNIT as int;
    assert(-(m * u) <= a * b <= m * u) by (nonlinear_arith)
        requires
            -m <= a <= m,
            -u <= b <= u,
            0 <= m,
            0 < u,
    ;
    let p = a * b;
    lemma_div_multiples_vanish(m, u);
    if p >= 0 {
        lemma_div_is_ordered(p, m * u, u);
    } else {
        lemma_div_is_ordered(-p, m * u, u);
    }
}

/// Multiplies two bounded fixed-point values and rescales by [`UNIT`],
/// truncating toward zero.
pub fn mul_unit_exec(a: i64, b: i64) -> (r: i64)
    requires
        -MUL_OPERAND_MAX <= a <= MUL_OPERAND_MAX,
        -MUL_OPERAND_MAX <= b <= MUL_OPERAND_MAX,
    ensures
        r == mul_unit(a as int, b as int),
{
    let am: u64 = if a >= 0 {
        a as u64
    } else {
        (-a) as u64
    };
    let bm: u64 = if b >= 0 {
        b as u64
    } else {
        (-b) as u64
    };
    proof {
        assert(am * bm <= 1_000_000_000_000_000_000) by (nonlinear_arith)
            requires
                0 <= am <= 1_000_000_000,
                0 <= bm <= 1_000_000_000,
        ;
    }
    let pm: u64 = am * bm;
    let qm: u64 = pm / 1_000_000u64;
    proof {
        let ai = a as int;
        let bi = b as int;
        let p = ai * bi;
        if a >= 0 {
            if b >= 0 {
                lemma_mul_nonnegative(ai, bi);
                assert(pm == p);
            } else {
                lemma_mul_unary_negation(ai, bi);
                lemma_mul_nonnegative(ai, -bi);
                assert(pm == ai * (-bi));
                assert(pm == -p);
            }
        } else {
            if b >= 0 {
                lemma_mul_unary_negation(ai, bi);
                lemma_mul_nonnegative(-ai, bi);
                assert(pm == (-ai) * bi);
                assert(pm == -p);
            } else {
                lemma_mul_unary_negation(ai, -bi);
                lemma_mul_unary_negation(ai, bi);
                lemma_mul_nonnegative(-ai, -bi);
                assert(pm == (-ai) * (-bi));
                assert(pm == p);
            }
        }
        lemma_div_multiples_vanish(1_000_000_000_000, UNIT as int);
        lemma_div_is_ordered(pm as int, 1_000_000_000_000 * (UNIT as int), UNIT as int);
    }
    if (a >= 0) == (b >= 0) {
        qm as i64
    } else {
        -(qm as i64)
    }
}

/// Saturates `x` into `[-SAMPLE_BOUND, SAMPLE_BOUND]`.
pub fn clamp_sample_exec(x: i64) -> (r: i64)
    ensures
        r == clamp_sample(x as int),
        -SAMPLE_BOUND <= r <= SAMPLE_BOUND,
{
    if x > SAMPLE_BOUND {
        SAMPLE_BOUND
    } else if x < -SAMPLE_BOUND {
        -SAMPLE_BOUND
    } else {
        x
    }
}

} // verus!
