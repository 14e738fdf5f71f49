use polar_motion::coordinate::PolarCoordinate;

#[test]
fn distance_is_symmetric() {
    let a = PolarCoordinate { theta: 0, rho: 300_000 };
    let b = PolarCoordinate { theta: -400_000, rho: 400_000 };
    assert_eq!(a.distance(&b), b.distance(&a));
    let c = PolarCoordinate { theta: 123_456, rho: 0 };
    let d = PolarCoordinate { theta: -654_321, rho: 999_999 };
    assert_eq!(c.distance(&d), d.distance(&c));
}

#[test]
fn distance_exact_value() {
    // |delta theta| * avg_rho + |delta rho| =
    // 0.4 * 0.35 + 0.1 = 0.24
    let a = PolarCoordinate { theta: 0, rho: 300_000 };
    let b = PolarCoordinate { theta: -400_000, rho: 400_000 };
    assert_eq!(a.distance(&b), 240_000);
    // pure radial move: 0.3
    let home = PolarCoordinate { theta: 0, rho: 0 };
    let up = PolarCoordinate { theta: 0, rho: 300_000 };
    assert_eq!(home.distance(&up), 300_000);
    // pure angular move at rho 0 costs nothing
    let spin = PolarCoordinate { theta: 5_000_000, rho: 0 };
    assert_eq!(home.distance(&spin), 0);
}

#[test]
fn direction_is_idempotent() {
    let v = PolarCoordinate { theta: -400_000, rho: 100_000 };
    let d = v.direction();
    assert_eq!(d, PolarCoordinate { theta: -1, rho: 1 });
    assert_eq!(d.direction(), d);
    let z = PolarCoordinate { theta: 0, rho: 0 };
    assert_eq!(z.direction(), z);
    assert_eq!(z.direction().direction(), z.direction());
}

#[test]
fn zero_component_direction_is_zero() {
    let v = PolarCoordinate { theta: 0, rho: -250_000 };
    assert_eq!(v.direction(), PolarCoordinate { theta: 0, rho: -1 });
}

#[test]
fn subtract_then_add_restores() {
    let a = PolarCoordinate { theta: 1_570_800, rho: 500_000 };
    let b = PolarCoordinate { theta: -400_000, rho: 400_000 };
    assert_eq!(a.subtract(&b).add(&b), a);
    assert_eq!(b.subtract(&a).add(&a), b);
}

#[test]
fn scale_rounds_to_nearest() {
    let v = PolarCoordinate { theta: -400_000, rho: 100_000 };
    let third = v.scale(1, 3);
    assert_eq!(third, PolarCoordinate { theta: -133_333, rho: 33_333 });
    let double = v.scale(2, 1);
    assert_eq!(double, PolarCoordinate { theta: -800_000, rho: 200_000 });
    // ties round away from zero
    let half = PolarCoordinate { theta: 1, rho: -1 }.scale(1, 2);
    assert_eq!(half, PolarCoordinate { theta: 1, rho: -1 });
}

#[test]
fn equals_is_component_wise() {
    let a = PolarCoordinate { theta: 7, rho: 8 };
    let b = PolarCoordinate { theta: 7, rho: 8 };
    let c = PolarCoordinate { theta: 7, rho: 9 };
    assert!(a.equals(&b));
    assert!(!a.equals(&c));
}
