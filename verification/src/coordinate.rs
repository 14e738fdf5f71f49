//! Polar points and the path metric.
//!
//! A `PolarCoordinate` is an angle `theta` (micro-radians, unbounded) and
//! a radius `rho` (micro-units, normally within `[0, MICRO]`).  The
//! distance metric approximates arc length on a disk: angular travel is
//! weighted by the average radius of the two endpoints, so sweeps near
//! the center are cheap.

use vstd::prelude::*;
use crate::fixed::{abs_int, round_div_int, abs_i64, round_div_i64, mul_div_round_i64, MICRO};

verus! {

/// Largest coordinate magnitude (in micro-units) the planner accepts.
/// Keeps every product in the distance metric inside `i64`.
pub const COORD_LIMIT: i64 = 1_000_000_000;

/// Sign of an integer: `-1`, `0` or `+1`.
pub open spec fn sign_int(v: int) -> int {
    if v > 0 {
        1
    } else if v < 0 {
        -1
    } else {
        0
    }
}

#[derive(Clone, Copy, PartialEq, Eq, Structural, Debug)]
pub struct PolarCoordinate {
    pub theta: i64,
    pub rho: i64,
}

impl PolarCoordinate {
    /// Both components have magnitude at most `limit`.
    pub open spec fn bounded(self, limit: int) -> bool {
        abs_int(self.theta as int) <= limit && abs_int(self.rho as int) <= limit
    }

    /// Path length from `self` to `other`:
    /// `|delta theta| * avg_rho + |delta rho|`, in micro-units.
    pub open spec fn spec_distance(self, other: PolarCoordinate) -> int {
        let avg_rho = round_div_int(self.rho + other.rho, 2);
        round_div_int(abs_int(other.theta - self.theta) * avg_rho, MICRO as int) + abs_int(
            other.rho - self.rho,
        )
    }

    /// Component-wise scaling by the rational `num / den`, each component
    /// rounded to the nearest micro-unit.
    pub open spec fn spec_scale(self, num: int, den: int) -> PolarCoordinate {
        PolarCoordinate {
            theta: round_div_int(self.theta * num, den) as i64,
            rho: round_div_int(self.rho * num, den) as i64,
        }
    }

    /// Component-wise sum.
    pub open spec fn spec_add(self, other: PolarCoordinate) -> PolarCoordinate {
        PolarCoordinate {
            theta: (self.theta + other.theta) as i64,
            rho: (self.rho + other.rho) as i64,
        }
    }

    /// Component-wise difference.
    pub open spec fn spec_subtract(self, other: PolarCoordinate) -> PolarCoordinate {
        PolarCoordinate {
            theta: (self.theta - other.theta) as i64,
            rho: (self.rho - other.rho) as i64,
        }
    }

    /// Component-wise sign.
    pub open spec fn spec_direction(self) -> PolarCoordinate {
        PolarCoordinate { theta: sign_int(self.theta as int) as i64, rho: sign_int(self.rho as int) as i64 }
    }

    /// Path length from `self` to `other` in micro-units.
    pub fn distance(&self, other: &PolarCoordinate) -> (r: i64)
        requires
            self.bounded(COORD_LIMIT as int),
            other.bounded(COORD_LIMIT as int),
        ensures
            r == self.spec_distance(*other),
    {
        let avg_rho: i64 = round_div_i64(other.rho + self.rho, 2);
        let theta_span: i64 = abs_i64(other.theta - self.theta);
        proof {
            assert(abs_int(theta_span as int * avg_rho as int) <= i64::MAX as int)
                by (nonlinear_arith)
                requires
                    0 <= theta_span as int <= 2_000_000_000,
                    abs_int(avg_rho as int) <= 1_000_000_000,
            ;
        }
        let theta_distance: i64 = mul_div_round_i64(theta_span, avg_rho, MICRO);
        let rho_distance: i64 = abs_i64(other.rho - self.rho);
        theta_distance + rho_distance
    }

    /// Scale both components by `num / den`, rounding to the nearest
    /// micro-unit.
    pub fn scale(&self, num: i64, den: i64) -> (r: PolarCoordinate)
        requires
            1 <= den,
            abs_int(self.theta as int * num as int) <= i64::MAX as int,
            abs_int(self.rho as int * num as int) <= i64::MAX as int,
        ensures
            r == self.spec_scale(num as int, den as int),
            abs_int(r.theta as int) <= abs_int(self.theta as int * num as int),
            abs_int(r.rho as int) <= abs_int(self.rho as int * num as int),
    {
        PolarCoordinate {
            theta: mul_div_round_i64(self.theta, num, den),
            rho: mul_div_round_i64(self.rho, num, den),
        }
    }

    /// Component-wise sum.
    pub fn add(&self, other: &PolarCoordinate) -> (r: PolarCoordinate)
        requires
            i64::MIN <= self.theta as int + other.theta as int <= i64::MAX,
            i64::MIN <= self.rho as int + other.rho as int <= i64::MAX,
        ensures
            r == self.spec_add(*other),
    {
        PolarCoordinate { theta: self.theta + other.theta, rho: self.rho + other.rho }
    }

    /// Component-wise difference.
    pub fn subtract(&self, other: &PolarCoordinate) -> (r: PolarCoordinate)
        requires
            i64::MIN <= self.theta as int - other.theta as int <= i64::MAX,
            i64::MIN <= self.rho as int - other.rho as int <= i64::MAX,
        ensures
            r == self.spec_subtract(*other),
    {
        PolarCoordinate { theta: self.theta - other.theta, rho: self.rho - other.rho }
    }

    /// Component-wise sign: each component becomes `-1`, `0` or `+1`.
    pub fn direction(&self) -> (r: PolarCoordinate)
        ensures
            r == self.spec_direction(),
    {
        PolarCoordinate { theta: sign_i64(self.theta), rho: sign_i64(self.rho) }
    }

    /// Exact component-wise equality.
    pub fn equals(&self, other: &PolarCoordinate) -> (r: bool)
        ensures
            r <==> *self == *other,
    {
        self.theta == other.theta && self.rho == other.rho
    }
}

/// Sign of a value: `-1`, `0` or `+1`.
fn sign_i64(v: i64) -> (r: i64)
    ensures
        r == sign_int(v as int),
{
    if v > 0 {
        1
    } else if v < 0 {
        -1
    } else {
        0
    }
}

/// Largest distance the metric can report between two points whose
/// components are bounded by `COORD_LIMIT`.
pub const DISTANCE_LIMIT: i64 = 3_000_000_000_000;

/// Between points bounded by `COORD_LIMIT`, the metric's magnitude stays
/// below `DISTANCE_LIMIT`.
pub proof fn lemma_distance_bounded(a: PolarCoordinate, b: PolarCoordinate)
    requires
        a.bounded(COORD_LIMIT as int),
        b.bounded(COORD_LIMIT as int),
    ensures
        abs_int(a.spec_distance(b)) <= DISTANCE_LIMIT,
{
    let avg = round_div_int(a.rho + b.rho, 2);
    crate::fixed::lemma_round_div_int_bounds(a.rho + b.rho, 2);
    assert(abs_int(avg) <= 1_000_000_000);
    let span = abs_int(b.theta - a.theta);
    assert(abs_int(span * avg) <= 2_000_000_000_000_000_000) by (nonlinear_arith)
        requires
            0 <= span <= 2_000_000_000,
            -1_000_000_000 <= avg <= 1_000_000_000,
    ;
    crate::fixed::lemma_round_div_int_bounds(span * avg, MICRO as int);
    let td = round_div_int(span * avg, MICRO as int);
    assert(abs_int(td) <= 2_000_000_000_000) by (nonlinear_arith)
        requires
            1_000_000 * abs_int(td) <= 2_000_000_000_000_000_000 + 500_000,
            0 <= abs_int(td),
    ;
}

/// The path metric is symmetric: `distance(a, b) == distance(b, a)`.
pub proof fn lemma_distance_symmetric(a: PolarCoordinate, b: PolarCoordinate)
    ensures
        a.spec_distance(b) == b.spec_distance(a),
{
    assert(abs_int(b.theta - a.theta) == abs_int(a.theta - b.theta));
    assert(abs_int(b.rho - a.rho) == abs_int(a.rho - b.rho));
    assert(a.rho + b.rho == b.rho + a.rho);
}

/// Taking the component-wise sign is idempotent:
/// `direction(direction(v)) == direction(v)`.
pub proof fn lemma_direction_idempotent(v: PolarCoordinate)
    ensures
        v.spec_direction().spec_direction() == v.spec_direction(),
{
}

/// Subtracting and re-adding a point restores the original,
/// component-wise, whenever the difference itself is representable.
pub proof fn lemma_subtract_add_roundtrip(a: PolarCoordinate, b: PolarCoordinate)
    requires
        i64::MIN <= a.theta as int - b.theta as int <= i64::MAX,
        i64::MIN <= a.rho as int - b.rho as int <= i64::MAX,
    ensures
        a.spec_subtract(b).spec_add(b) == a,
{
}

} // verus!
