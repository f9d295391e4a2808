//! Fixed-point scalars and 2-D vectors.
//!
//! One world unit (and one second, and one unit of probability) is `SCALE`
//! fixed-point steps.  All executable divisions round toward zero, which
//! `div_trunc` mirrors in specifications.

use vstd::prelude::*;
use vstd::arithmetic::div_mod::lemma_div_is_ordered;
use vstd::arithmetic::div_mod::lemma_div_nonincreasing;
use vstd::arithmetic::div_mod::lemma_div_pos_is_pos;

verus! {

/// Fixed-point steps per world unit, per second and per probability unit.
pub const SCALE: i64 = 1000;

/// Largest magnitude a world coordinate, velocity or curve parameter may
/// take, so that squares and cross products stay well inside `i64`.
pub const COORD_LIMIT: i64 = 1048576;

/// Half turn in fixed-point radians.
pub const PI_FX: i64 = 3142;

/// Full turn in fixed-point radians.
pub const TWO_PI_FX: i64 = 2 * PI_FX;

/// Division that rounds toward zero, as the executable `/` does.
pub open spec fn div_trunc(a: int, b: int) -> int {
    if a >= 0 {
        a / b
    } else {
        -((-a) / b)
    }
}

/// Magnitude of a quotient never exceeds the magnitude of the dividend,
/// and a dividend below the divisor in magnitude gives zero.
pub proof fn lemma_div_trunc_bounds(a: int, b: int)
    requires
        b > 0,
    ensures
        a >= 0 ==> 0 <= div_trunc(a, b) <= a,
        a < 0 ==> a <= div_trunc(a, b) <= 0,
{
    if a >= 0 {
        lemma_div_pos_is_pos(a, b);
        lemma_div_nonincreasing(a, b);
    } else {
        lemma_div_pos_is_pos(-a, b);
        lemma_div_nonincreasing(-a, b);
    }
}

/// Truncating division by a positive divisor is monotone.
pub proof fn lemma_div_trunc_ordered(a1: int, a2: int, b: int)
    requires
        b > 0,
        a1 <= a2,
    ensures
        div_trunc(a1, b) <= div_trunc(a2, b),
{
    if a1 >= 0 {
        lemma_div_is_ordered(a1, a2, b);
    } else if a2 < 0 {
        lemma_div_is_ordered(-a2, -a1, b);
    } else {
        lemma_div_pos_is_pos(-a1, b);
        lemma_div_pos_is_pos(a2, b);
    }
}

/// `(a * m) / d` computed without intermediate overflow, rounded toward
/// zero.
pub fn mul_div_trunc(a: i64, m: i64, d: i64) -> (r: i64)
    requires
        d > 0,
        -0x4000_0000_0000_0000 <= a as int * m as int <= 0x4000_0000_0000_0000,
    ensures
        r == div_trunc(a as int * m as int, d as int),
{
    proof {
        lemma_div_trunc_bounds(a as int * m as int, d as int);
    }
    let p: i128 = (a as i128) * (m as i128);
    if p >= 0 {
        let q: u128 = (p as u128) / (d as u128);
        q as i64
    } else {
        let q: u128 = ((-p) as u128) / (d as u128);
        -(q as i64)
    }
}

/// Floor of the square root: `r * r <= x < (r + 1) * (r + 1)`.
pub fn isqrt(x: u64) -> (r: u64)
    ensures
        r * r <= x < (r + 1) * (r + 1),
        r < 4294967296,
{
    let mut lo: u64 = 0;
    let mut hi: u64 = 4294967296;
    assert(x < 4294967296u64 * 4294967296u64) by (nonlinear_arith)
        requires
            x <= 0xffff_ffff_ffff_ffffu64,
    ;
    while lo + 1 < hi
        invariant
            lo < hi <= 4294967296,
            lo * lo <= x,
            x < hi * hi,
        decreases hi - lo,
    {
        let mid: u64 = lo + (hi - lo) / 2;
        assert(lo < mid < hi);
        assert(mid * mid <= 4294967295u64 * 4294967295u64) by (nonlinear_arith)
            requires
                mid <= 4294967295u64,
        ;
        assert(4294967295u64 * 4294967295u64 < 0xffff_ffff_ffff_ffffu64) by (nonlinear_arith);
        let sq: u64 = mid * mid;
        if sq <= x {
            lo = mid;
        } else {
            hi = mid;
        }
    }
    lo
}

/// `n` is the floor of the Euclidean length of the vector `(dx, dy)`.
pub open spec fn is_norm_of(dx: int, dy: int, n: int) -> bool {
    &&& n >= 0
    &&& n * n <= dx * dx + dy * dy < (n + 1) * (n + 1)
}

/// A 2-D point, vector or velocity in fixed-point world coordinates.
#[derive(Clone, Copy, PartialEq, Eq, Structural, Debug)]
pub struct Vec2 {
    pub x: i64,
    pub y: i64,
}

impl Vec2 {
    /// Both coordinates stay inside the world's coordinate range.
    pub open spec fn wf(self) -> bool {
        &&& -COORD_LIMIT <= self.x <= COORD_LIMIT
        &&& -COORD_LIMIT <= self.y <= COORD_LIMIT
    }

    /// Squared Euclidean length.
    pub open spec fn norm_sq(self) -> int {
        self.x * self.x + self.y * self.y
    }

    /// `r` is the floor of this vector's Euclidean length.
    pub open spec fn is_norm(self, r: int) -> bool {
        &&& r >= 0
        &&& r * r <= self.norm_sq() < (r + 1) * (r + 1)
    }

    pub fn zero() -> (r: Vec2)
        ensures
            r == (Vec2 { x: 0, y: 0 }),
    {
        Vec2 { x: 0, y: 0 }
    }

    pub fn plus(self, o: Vec2) -> (r: Vec2)
        requires
            -0x4000_0000_0000_0000 <= self.x + o.x <= 0x4000_0000_0000_0000,
            -0x4000_0000_0000_0000 <= self.y + o.y <= 0x4000_0000_0000_0000,
        ensures
            r.x == self.x + o.x,
            r.y == self.y + o.y,
    {
        Vec2 { x: self.x + o.x, y: self.y + o.y }
    }

    pub fn minus(self, o: Vec2) -> (r: Vec2)
        requires
            self.wf(),
            o.wf(),
        ensures
            r.x == self.x - o.x,
            r.y == self.y - o.y,
    {
        Vec2 { x: self.x - o.x, y: self.y - o.y }
    }

    /// Floor of the Euclidean length; accepts differences of two
    /// in-range vectors.
    pub fn norm(self) -> (r: i64)
        requires
            -2 * COORD_LIMIT <= self.x <= 2 * COORD_LIMIT,
            -2 * COORD_LIMIT <= self.y <= 2 * COORD_LIMIT,
        ensures
            self.is_norm(r as int),
            0 <= r <= 3 * COORD_LIMIT,
    {
        assert(0 <= self.x * self.x <= 4 * (COORD_LIMIT * COORD_LIMIT)) by (nonlinear_arith)
            requires
                -2 * COORD_LIMIT <= self.x <= 2 * COORD_LIMIT,
        ;
        assert(0 <= self.y * self.y <= 4 * (COORD_LIMIT * COORD_LIMIT)) by (nonlinear_arith)
            requires
                -2 * COORD_LIMIT <= self.y <= 2 * COORD_LIMIT,
        ;
        let sx: i64 = self.x * self.x;
        let sy: i64 = self.y * self.y;
        let r: u64 = isqrt((sx as u64) + (sy as u64));
        assert(r <= 3 * COORD_LIMIT) by (nonlinear_arith)
            requires
                r * r <= 8 * (COORD_LIMIT * COORD_LIMIT),
                r >= 0,
        ;
        r as i64
    }
}

/// The floor of the Euclidean length of `(dx, dy)`, as a function.
pub open spec fn norm_floor(dx: int, dy: int) -> int {
    choose|n: int| is_norm_of(dx, dy, n)
}

/// Ties `norm_floor` to any witness of `is_norm_of`.
pub proof fn lemma_norm_floor(dx: int, dy: int, n: int)
    requires
        is_norm_of(dx, dy, n),
    ensures
        norm_floor(dx, dy) == n,
{
    assert(is_norm_of(dx, dy, norm_floor(dx, dy)));
    lemma_norm_of_unique(dx, dy, n, norm_floor(dx, dy));
}

/// The floor length of a vector is unique.
pub proof fn lemma_norm_of_unique(dx: int, dy: int, n1: int, n2: int)
    requires
        is_norm_of(dx, dy, n1),
        is_norm_of(dx, dy, n2),
    ensures
        n1 == n2,
{
    assert(n1 == n2) by (nonlinear_arith)
        requires
            n1 >= 0,
            n2 >= 0,
            n1 * n1 <= dx * dx + dy * dy < (n1 + 1) * (n1 + 1),
            n2 * n2 <= dx * dx + dy * dy < (n2 + 1) * (n2 + 1),
    ;
}

/// The floor of a vector's length is at least the magnitude of each of its
/// coordinates.
pub proof fn lemma_norm_dominates_coords(v: Vec2, r: int)
    requires
        v.is_norm(r),
    ensures
        -r <= v.x <= r,
        -r <= v.y <= r,
{
    assert(-r <= v.x <= r && -r <= v.y <= r) by (nonlinear_arith)
        requires
            r >= 0,
            r * r <= v.x * v.x + v.y * v.y < (r + 1) * (r + 1),
    ;
}

/// A position with an orientation: what the physics engine calls an
/// isometry.
#[derive(Clone, Copy, PartialEq, Eq, Structural, Debug)]
pub struct Isometry2 {
    pub translation: Vec2,
    /// Orientation in fixed-point radians.
    pub rotation: i64,
}

/// Distance between two angles, folded into `[0, PI_FX]`.
///
/// With `exact` set, the difference is reduced modulo a full turn and then
/// reflected about the half turn.  Without it, the remainder is taken by
/// `2 * SCALE` before the scale by the half turn, as the historical
/// formula had it; that variant can reach the reflection step with values
/// anywhere below a full turn, so both variants end in the same fold.
pub fn angular_distance(delta: i64, exact: bool) -> (r: i64)
    requires
        -COORD_LIMIT <= delta <= COORD_LIMIT,
    ensures
        0 <= r <= PI_FX,
        r == angular_distance_spec(delta as int, exact),
{
    let a: i64 = if delta >= 0 {
        delta
    } else {
        -delta
    };
    let v: i64 = if exact {
        a % TWO_PI_FX
    } else {
        let m: i64 = a % (2 * SCALE);
        proof {
            lemma_div_trunc_bounds(m as int * PI_FX as int, SCALE as int);
        }
        mul_div_trunc(m, PI_FX, SCALE)
    };
    assert(0 <= v < 2 * PI_FX) by {
        if !exact {
            let m = (a as int) % (2 * SCALE) as int;
            assert(m * PI_FX <= (2 * SCALE - 1) * PI_FX) by (nonlinear_arith)
                requires
                    0 <= m <= 2 * SCALE - 1,
            ;
            lemma_div_is_ordered(m * PI_FX, (2 * SCALE - 1) * PI_FX, SCALE as int);
            assert(((2 * SCALE - 1) * PI_FX) as int / (SCALE as int) < 2 * PI_FX) by (nonlinear_arith);
            lemma_div_pos_is_pos(m * PI_FX, SCALE as int);
        }
    };
    if v >= PI_FX {
        TWO_PI_FX - v
    } else {
        v
    }
}

/// The value `angular_distance` returns.
pub open spec fn angular_distance_spec(delta: int, exact: bool) -> int {
    let a = if delta >= 0 {
        delta
    } else {
        -delta
    };
    let v = if exact {
        a % (TWO_PI_FX as int)
    } else {
        div_trunc((a % (2 * SCALE) as int) * PI_FX, SCALE as int)
    };
    if v >= PI_FX {
        TWO_PI_FX - v
    } else {
        v
    }
}

} // verus!
