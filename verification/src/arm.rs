//! Absolute motor step positions and the step-count mapping.
//!
//! The arm has two links driven through a `90 / 16` pulley reduction by
//! steppers with a natural step of `1.8` degrees, micro-stepped 16 times:
//! 50 micro-steps per degree of joint travel.  The trigonometric part of
//! the inverse kinematics (the elbow angle derived from the law of
//! cosines) is computed outside this crate; this module turns the
//! resulting joint angles, in micro-degrees, into absolute step counts.

use vstd::prelude::*;
use crate::fixed::{abs_int, round_div_int, abs_i64, mul_div_round_i64, MICRO};

verus! {

/// Teeth on the arm's main pulley.
pub const MAIN_PULLEY_TEETH: i64 = 90;

/// Teeth on the motor pulley.
pub const MOTOR_PULLEY_TEETH: i64 = 16;

/// Motor's natural step, in tenths of a degree.
pub const TENTH_DEGREES_PER_STEP: i64 = 18;

/// Micro-steps per full motor step.
pub const MICRO_STEPS: i64 = 16;

/// Micro-steps per degree of joint travel:
/// `MICRO_STEPS * MAIN_PULLEY_TEETH / MOTOR_PULLEY_TEETH`, divided by
/// the 1.8-degree natural step — `16 * 90 / 16 / 1.8 = 50`.
pub const STEPS_PER_DEGREE: i64 = 50;

/// Largest joint angle magnitude (micro-degrees) the step mapping
/// accepts; keeps every product inside `i64`.
pub const ANGLE_LIMIT: i64 = 1_000_000_000_000_000;

/// Absolute step counts for the two motors.
#[derive(Clone, Copy, PartialEq, Eq, Structural, Debug)]
pub struct StepPosition {
    pub primary_steps: i64,
    pub secondary_steps: i64,
}

impl StepPosition {
    /// Combined magnitude of both axes' step counts.
    pub fn get_total_steps(&self) -> (r: i64)
        requires
            i64::MIN < self.primary_steps,
            i64::MIN < self.secondary_steps,
            abs_int(self.primary_steps as int) + abs_int(self.secondary_steps as int)
                <= i64::MAX as int,
        ensures
            r == abs_int(self.primary_steps as int) + abs_int(self.secondary_steps as int),
    {
        let primary_total_steps: i64 = abs_i64(self.primary_steps);
        let secondary_total_steps: i64 = abs_i64(self.secondary_steps);
        primary_total_steps + secondary_total_steps
    }

    /// Component-wise difference: the steps still to travel from `other`
    /// to `self`.  Two equal positions yield the zero delta.
    pub fn delta(&self, other: &StepPosition) -> (r: StepPosition)
        requires
            i64::MIN <= self.primary_steps as int - other.primary_steps as int <= i64::MAX,
            i64::MIN <= self.secondary_steps as int - other.secondary_steps as int
                <= i64::MAX,
        ensures
            r.primary_steps == self.primary_steps as int - other.primary_steps as int,
            r.secondary_steps == self.secondary_steps as int - other.secondary_steps as int,
            *self == *other ==> r == (StepPosition { primary_steps: 0, secondary_steps: 0 }),
    {
        StepPosition {
            primary_steps: self.primary_steps - other.primary_steps,
            secondary_steps: self.secondary_steps - other.secondary_steps,
        }
    }
}

/// The primary motor's target step count for the given joint angles
/// (micro-degrees): the primary axis turns opposite the commanded angle
/// and is offset by half the elbow fold.
pub open spec fn spec_primary_steps(theta_degrees: int, secondary_degrees: int) -> int {
    let primary_degrees = -theta_degrees - round_div_int(secondary_degrees, 2);
    round_div_int(primary_degrees * STEPS_PER_DEGREE, MICRO as int)
}

/// The secondary motor's target step count: its shaft is mechanically
/// coupled on top of the primary, so its absolute count is measured
/// relative to the primary's.
pub open spec fn spec_secondary_steps(theta_degrees: int, secondary_degrees: int) -> int {
    round_div_int(secondary_degrees * STEPS_PER_DEGREE, MICRO as int) + spec_primary_steps(
        theta_degrees,
        secondary_degrees,
    )
}

/// Map joint angles (micro-degrees) to absolute motor step counts.
///
/// `theta_degrees` is the commanded polar angle converted to degrees;
/// `secondary_degrees` is the elbow angle, `180 - degrees(acos((0.5 -
/// rho^2) * 2))`, computed by the caller.  Each count rounds to the
/// nearest whole micro-step, ties away from zero.
pub fn step_position_from_angles(theta_degrees: i64, secondary_degrees: i64) -> (r:
    StepPosition)
    requires
        abs_int(theta_degrees as int) <= ANGLE_LIMIT,
        abs_int(secondary_degrees as int) <= ANGLE_LIMIT,
    ensures
        r.primary_steps == spec_primary_steps(theta_degrees as int, secondary_degrees as int),
        r.secondary_steps == spec_secondary_steps(
            theta_degrees as int,
            secondary_degrees as int,
        ),
{
    let primary_offset: i64 = crate::fixed::round_div_i64(secondary_degrees, 2);
    let primary_degrees: i64 = -theta_degrees - primary_offset;
    let primary_steps: i64 = mul_div_round_i64(primary_degrees, STEPS_PER_DEGREE, MICRO);
    let secondary_scaled: i64 = mul_div_round_i64(secondary_degrees, STEPS_PER_DEGREE, MICRO);
    StepPosition {
        primary_steps,
        secondary_steps: secondary_scaled + primary_steps,
    }
}

/// Zero joint angles map to the zero step position: the fully extended
/// arm (`rho = 1`, where the elbow angle is zero) at `theta = 0` is the
/// zero-step reference orientation.
pub proof fn lemma_zero_angles_zero_steps()
    ensures
        spec_primary_steps(0, 0) == 0,
        spec_secondary_steps(0, 0) == 0,
{
    crate::fixed::lemma_div_value(500_000, 1_000_000, 0, 500_000);
    assert(round_div_int(0, 2) == 0);
    assert(round_div_int(0 * STEPS_PER_DEGREE as int, MICRO as int) == 0);
}

} // verus!
