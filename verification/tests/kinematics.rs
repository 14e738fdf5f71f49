use polar_motion::arm::{step_position_from_angles, StepPosition};

/// Joint angles for a polar target, in micro-degrees, computed the way
/// the device firmware does: the commanded angle converted to degrees,
/// and the elbow angle from the law of cosines for two equal links.
fn joint_angles_micro(theta: f64, rho: f64) -> (i64, i64) {
    let theta_degrees = theta * (180.0 / core::f64::consts::PI);
    let elbow_degrees = 180.0 - (libm::acos((0.5 - libm::pow(rho, 2.0)) * 2.0) * (180.0 / core::f64::consts::PI));
    (
        libm::round(theta_degrees * 1_000_000.0) as i64,
        libm::round(elbow_degrees * 1_000_000.0) as i64,
    )
}

#[test]
fn fully_extended_arm_is_zero_step_reference() {
    // rho = 1: acos(-1) is pi, so the elbow angle is 180 - 180 = 0
    let (theta_deg, elbow_deg) = joint_angles_micro(0.0, 1.0);
    assert_eq!(theta_deg, 0);
    assert_eq!(elbow_deg, 0);
    let steps = step_position_from_angles(theta_deg, elbow_deg);
    assert_eq!(steps, StepPosition { primary_steps: 0, secondary_steps: 0 });
}

#[test]
fn folded_arm_steps() {
    // rho = 0: acos(1) is 0, so the elbow is fully folded at 180
    // degrees; the primary axis offsets by half the fold
    let (theta_deg, elbow_deg) = joint_angles_micro(0.0, 0.0);
    assert_eq!(theta_deg, 0);
    assert_eq!(elbow_deg, 180_000_000);
    let steps = step_position_from_angles(theta_deg, elbow_deg);
    assert_eq!(steps.primary_steps, -4500);
    assert_eq!(steps.secondary_steps, 4500);
}

#[test]
fn quarter_turn_primary_steps() {
    // theta = pi/2 at full reach: the elbow stays straight and the
    // primary turns -90 degrees times 50 steps per degree
    let (theta_deg, elbow_deg) = joint_angles_micro(core::f64::consts::FRAC_PI_2, 1.0);
    assert_eq!(elbow_deg, 0);
    let steps = step_position_from_angles(theta_deg, elbow_deg);
    assert_eq!(steps.primary_steps, -4500);
    assert_eq!(steps.secondary_steps, -4500);
}

#[test]
fn delta_of_equal_positions_is_zero() {
    let a = StepPosition { primary_steps: 123, secondary_steps: -456 };
    let d = a.delta(&a);
    assert_eq!(d, StepPosition { primary_steps: 0, secondary_steps: 0 });
    assert_eq!(d.get_total_steps(), 0);
}

#[test]
fn delta_and_total_steps() {
    let target = StepPosition { primary_steps: 300, secondary_steps: -200 };
    let current = StepPosition { primary_steps: -200, secondary_steps: 1800 };
    let d = target.delta(&current);
    assert_eq!(d.primary_steps, 500);
    assert_eq!(d.secondary_steps, -2000);
    assert_eq!(d.get_total_steps(), 2500);
}
