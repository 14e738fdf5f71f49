use polar_motion::stepper_pair::{plan_pulses, pulse_period_micros, PulseTick};

fn count_pulses(ticks: &[PulseTick]) -> (u64, u64) {
    let mut primary: u64 = 0;
    let mut secondary: u64 = 0;
    for tick in ticks {
        if tick.pulse_primary {
            primary += 1;
        }
        if tick.pulse_secondary {
            secondary += 1;
        }
    }
    (primary, secondary)
}

#[test]
fn move_500_2000_pulses_each_axis_exactly() {
    let plan = plan_pulses(500, 2000);
    assert_eq!(plan.ticks.len(), 2000);
    let (primary, secondary) = count_pulses(&plan.ticks);
    assert_eq!(primary, 500);
    assert_eq!(secondary, 2000);
    // both axes finish on the same tick
    let last = plan.ticks.last().unwrap();
    assert!(last.pulse_primary);
    assert!(last.pulse_secondary);
    // the slower axis pulses exactly every fourth tick
    for (i, tick) in plan.ticks.iter().enumerate() {
        assert_eq!(tick.pulse_primary, (i + 1) % 4 == 0);
        assert!(tick.pulse_secondary);
    }
}

#[test]
fn directions_follow_the_wiring_convention() {
    // primary forward on a nonnegative delta; secondary inverted
    let plan = plan_pulses(500, 2000);
    assert!(plan.primary_forward);
    assert!(!plan.secondary_forward);
    let plan = plan_pulses(-3, 7);
    assert!(!plan.primary_forward);
    assert!(!plan.secondary_forward);
    let plan = plan_pulses(3, -7);
    assert!(plan.primary_forward);
    assert!(plan.secondary_forward);
}

#[test]
fn zero_delta_still_moves_the_other_axis() {
    // an axis with no steps to issue stays silent; the other one still
    // runs at full rate
    let plan = plan_pulses(0, 2000);
    assert_eq!(plan.ticks.len(), 2000);
    let (primary, secondary) = count_pulses(&plan.ticks);
    assert_eq!(primary, 0);
    assert_eq!(secondary, 2000);
    assert!(plan.ticks.iter().all(|tick| tick.pulse_secondary && !tick.pulse_primary));

    let plan = plan_pulses(500, 0);
    assert_eq!(plan.ticks.len(), 500);
    let (primary, secondary) = count_pulses(&plan.ticks);
    assert_eq!(primary, 500);
    assert_eq!(secondary, 0);

    assert_eq!(plan_pulses(0, 0).ticks.len(), 0);
}

#[test]
fn pacing_is_proportional() {
    // after t ticks an axis of magnitude m has pulsed floor(t * m / max)
    // times
    let plan = plan_pulses(3, 7);
    let mut primary: i64 = 0;
    let mut secondary: i64 = 0;
    for (i, tick) in plan.ticks.iter().enumerate() {
        if tick.pulse_primary {
            primary += 1;
        }
        if tick.pulse_secondary {
            secondary += 1;
        }
        let t = (i + 1) as i64;
        assert_eq!(primary, t * 3 / 7);
        assert_eq!(secondary, t);
    }
}

#[test]
fn equal_deltas_pulse_together() {
    let plan = plan_pulses(-5, 5);
    assert_eq!(plan.ticks.len(), 5);
    for tick in &plan.ticks {
        assert!(tick.pulse_primary);
        assert!(tick.pulse_secondary);
    }
}

#[test]
fn uneven_deltas_complete_both_axes() {
    let plan = plan_pulses(7, 3);
    assert_eq!(plan.ticks.len(), 7);
    let (primary, secondary) = count_pulses(&plan.ticks);
    assert_eq!(primary, 7);
    assert_eq!(secondary, 3);
    let last = plan.ticks.last().unwrap();
    assert!(last.pulse_primary);
    assert!(last.pulse_secondary);
}

#[test]
fn pulse_period_matches_firmware_default() {
    // a speed of 90 units gives (100 - 90) * 100 + 250 microseconds
    assert_eq!(pulse_period_micros(90_000_000), 1250);
}

#[test]
fn pulse_period_clamps_and_decreases() {
    assert_eq!(pulse_period_micros(0), 10_150);
    assert_eq!(pulse_period_micros(1_000_000), 10_150);
    assert_eq!(pulse_period_micros(100_000_000), 250);
    assert_eq!(pulse_period_micros(5_000_000_000), 250);
    let mut last = pulse_period_micros(0);
    let mut speed: i64 = 0;
    while speed <= 100_000_000 {
        let period = pulse_period_micros(speed);
        assert!(period <= last);
        last = period;
        speed += 1_000_000;
    }
}
