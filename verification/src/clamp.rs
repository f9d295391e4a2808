//! Bounded monotone remap curves.
//!
//! A `ClampFunction` turns a raw distance or angle into a probability or a
//! velocity multiplier: constant at `min_v` up to `min_t`, constant at
//! `max_v` from `max_t` on, and linearly interpolated in between.

use vstd::prelude::*;
use crate::math::COORD_LIMIT;
use crate::math::div_trunc;
use crate::math::lemma_div_trunc_ordered;
use crate::math::mul_div_trunc;
use vstd::arithmetic::div_mod::lemma_div_is_ordered;
use vstd::arithmetic::div_mod::lemma_div_by_multiple;
use vstd::arithmetic::div_mod::lemma_div_pos_is_pos;
use vstd::arithmetic::mul::lemma_mul_inequality;
use vstd::arithmetic::mul::lemma_mul_is_commutative;
use vstd::arithmetic::mul::lemma_mul_unary_negation;
use vstd::arithmetic::mul::lemma_mul_nonnegative;

verus! {

/// A monotone remap from a scalar (a distance, an angular offset) to a
/// value in the closed interval between `min_v` and `max_v`.
#[derive(Clone, Copy, PartialEq, Eq, Structural, Debug)]
pub struct ClampFunction {
    pub min_t: i64,
    pub max_t: i64,
    pub min_v: i64,
    pub max_v: i64,
}

/// `0 <= div_trunc(a * d, p) <= d` (signs flipped when `d` is negative)
/// whenever `0 <= a <= p`.
proof fn lemma_interp_range(a: int, d: int, p: int)
    requires
        p > 0,
        0 <= a <= p,
    ensures
        d >= 0 ==> 0 <= div_trunc(a * d, p) <= d,
        d < 0 ==> d <= div_trunc(a * d, p) <= 0,
{
    if d >= 0 {
        lemma_mul_nonnegative(a, d);
        lemma_mul_inequality(a, p, d);
        lemma_div_is_ordered(a * d, p * d, p);
        lemma_mul_is_commutative(p, d);
        lemma_div_by_multiple(d, p);
        lemma_div_pos_is_pos(a * d, p);
    } else {
        lemma_mul_unary_negation(a, d);
        lemma_mul_nonnegative(a, -d);
        lemma_mul_inequality(a, p, -d);
        lemma_div_is_ordered(a * (-d), p * (-d), p);
        lemma_mul_is_commutative(p, -d);
        lemma_div_by_multiple(-d, p);
        lemma_div_pos_is_pos(a * (-d), p);
    }
}

impl ClampFunction {
    /// The thresholds are ordered and every parameter stays inside the
    /// world's coordinate range; validated when configuration is loaded,
    /// never re-checked at run time.
    pub open spec fn wf(self) -> bool {
        &&& self.min_t < self.max_t
        &&& -COORD_LIMIT <= self.min_t <= COORD_LIMIT
        &&& -COORD_LIMIT <= self.max_t <= COORD_LIMIT
        &&& -COORD_LIMIT <= self.min_v <= COORD_LIMIT
        &&& -COORD_LIMIT <= self.max_v <= COORD_LIMIT
    }

    /// Lower end of the curve's value interval.
    pub open spec fn lo(self) -> int {
        if self.min_v <= self.max_v {
            self.min_v as int
        } else {
            self.max_v as int
        }
    }

    /// Upper end of the curve's value interval.
    pub open spec fn hi(self) -> int {
        if self.min_v <= self.max_v {
            self.max_v as int
        } else {
            self.min_v as int
        }
    }

    /// The value `compute` returns.
    pub open spec fn compute_spec(self, t: int) -> int {
        if t <= self.min_t {
            self.min_v as int
        } else if t >= self.max_t {
            self.max_v as int
        } else {
            self.min_v + div_trunc(
                (t - self.min_t) * (self.max_v - self.min_v),
                self.max_t - self.min_t,
            )
        }
    }

    /// Remap `t`: `min_v` up to `min_t`, `max_v` from `max_t` on, linear
    /// in between, always inside the value interval.
    pub fn compute(&self, t: i64) -> (r: i64)
        requires
            self.wf(),
            -COORD_LIMIT <= t <= COORD_LIMIT,
        ensures
            r == self.compute_spec(t as int),
            self.lo() <= r <= self.hi(),
    {
        proof {
            lemma_clamp_bounds(*self, t as int);
        }
        if t <= self.min_t {
            self.min_v
        } else if t >= self.max_t {
            self.max_v
        } else {
            assert(-0x4000_0000_0000_0000 <= (t - self.min_t) * (self.max_v - self.min_v)
                <= 0x4000_0000_0000_0000) by (nonlinear_arith)
                requires
                    0 <= t - self.min_t <= 2 * COORD_LIMIT,
                    -2 * COORD_LIMIT <= self.max_v - self.min_v <= 2 * COORD_LIMIT,
            ;
            let q: i64 = mul_div_trunc(t - self.min_t, self.max_v - self.min_v, self.max_t - self.min_t);
            self.min_v + q
        }
    }
}

/// A clamp curve is bounded: it is exactly `min_v` up to `min_t`, exactly
/// `max_v` from `max_t` on, and never leaves the closed interval between
/// the two values.
pub proof fn lemma_clamp_bounds(c: ClampFunction, t: int)
    requires
        c.wf(),
    ensures
        t <= c.min_t ==> c.compute_spec(t) == c.min_v,
        t >= c.max_t ==> c.compute_spec(t) == c.max_v,
        c.lo() <= c.compute_spec(t) <= c.hi(),
{
    if c.min_t < t < c.max_t {
        lemma_interp_range(t - c.min_t, c.max_v - c.min_v, c.max_t - c.min_t);
    }
}

/// A clamp curve is monotone: nondecreasing when `min_v <= max_v`,
/// nonincreasing otherwise.
pub proof fn lemma_clamp_monotone(c: ClampFunction, t1: int, t2: int)
    requires
        c.wf(),
        t1 <= t2,
    ensures
        c.min_v <= c.max_v ==> c.compute_spec(t1) <= c.compute_spec(t2),
        c.min_v > c.max_v ==> c.compute_spec(t1) >= c.compute_spec(t2),
{
    lemma_clamp_bounds(c, t1);
    lemma_clamp_bounds(c, t2);
    if c.min_t < t1 < c.max_t && c.min_t < t2 < c.max_t {
        let d = c.max_v - c.min_v;
        let p = c.max_t - c.min_t;
        if d >= 0 {
            lemma_mul_inequality(t1 - c.min_t, t2 - c.min_t, d);
            lemma_div_trunc_ordered((t1 - c.min_t) * d, (t2 - c.min_t) * d, p);
        } else {
            lemma_mul_unary_negation(t1 - c.min_t, d);
            lemma_mul_unary_negation(t2 - c.min_t, d);
            lemma_mul_inequality(t1 - c.min_t, t2 - c.min_t, -d);
            lemma_div_trunc_ordered((t2 - c.min_t) * d, (t1 - c.min_t) * d, p);
        }
    }
}

} // verus!
