use polar_motion::coordinate::PolarCoordinate;
use polar_motion::motion_controller::{MotionController, MotionControllerConfig};

fn test_config() -> MotionControllerConfig {
    MotionControllerConfig {
        home_position: PolarCoordinate { theta: 0, rho: 0 },
        max_acceleration: 1_000_000,
        max_speed: 100_000_000,
        min_speed: 1_000_000,
        step_distance: 100_000,
    }
}

#[test]
fn speedup_slowdown() {
    let home_position = PolarCoordinate { theta: 0, rho: 0 };
    let mut motion_controller = MotionController::new(MotionControllerConfig {
        home_position,
        max_acceleration: 1_000_000,
        max_speed: 100_000_000,
        min_speed: 1_000_000,
        step_distance: 100_000,
    });
    motion_controller.queue_position(PolarCoordinate { theta: 0, rho: 300_000 });
    assert_eq!(motion_controller.is_queue_ready(), true);
    motion_controller.queue_position(PolarCoordinate { theta: -400_000, rho: 400_000 });
    assert_eq!(motion_controller.is_queue_ready(), true);
    motion_controller.queue_position(PolarCoordinate { theta: 0, rho: 0 });
    assert_eq!(motion_controller.is_queue_ready(), false);
    let frame0 = motion_controller.next_frame();
    assert_eq!(frame0.speed, 1_000_000);
    assert_eq!(frame0.position.theta, 0);
    assert_eq!(frame0.position.rho, 100_000);
    let frame1 = motion_controller.next_frame();
    assert_eq!(frame1.speed, 1_100_000);
    assert_eq!(frame1.position.theta, 0);
    assert_eq!(frame1.position.rho, 200_000);
    let frame2 = motion_controller.next_frame();
    assert_eq!(frame2.speed, 1_000_000);
    assert_eq!(frame2.position.theta, 0);
    assert_eq!(frame2.position.rho, 300_000);
    let frame3 = motion_controller.next_frame();
    assert_eq!(frame3.speed, 1_080_000);
    assert_eq!(frame3.position.theta, -133_333);
    assert_eq!(frame3.position.rho, 333_333);
    let frame4 = motion_controller.next_frame();
    assert_eq!(frame4.speed, 1_080_000);
    assert_eq!(frame4.position.theta, -266_666);
    assert_eq!(frame4.position.rho, 366_666);
    let frame5 = motion_controller.next_frame();
    assert_eq!(frame5.speed, 1_000_000);
    assert_eq!(frame5.position.theta, -399_999);
    assert_eq!(frame5.position.rho, 399_999);
    let frame6 = motion_controller.next_frame();
    assert_eq!(frame6.speed, 1_096_000);
    assert_eq!(frame6.position.theta, -319_999);
    assert_eq!(frame6.position.rho, 319_999);
    let frame7 = motion_controller.next_frame();
    assert_eq!(frame7.speed, 1_192_000);
    assert_eq!(frame7.position.theta, -239_999);
    assert_eq!(frame7.position.rho, 239_999);
    let frame8 = motion_controller.next_frame();
    assert_eq!(frame8.speed, 1_288_000);
    assert_eq!(frame8.position.theta, -159_999);
    assert_eq!(frame8.position.rho, 159_999);
    let frame9 = motion_controller.next_frame();
    assert_eq!(frame9.speed, 1_288_000);
    assert_eq!(frame9.position.theta, -79_999);
    assert_eq!(frame9.position.rho, 79_999);
}

#[test]
fn first_segment_distances() {
    let mut mc = MotionController::new(test_config());
    mc.queue_position(PolarCoordinate { theta: 0, rho: 300_000 });
    let cp = mc.checkpoints.front().unwrap();
    assert_eq!(cp.absolute_distance, 300_000);
    assert_eq!(cp.steps, 3);
    assert_eq!(cp.step_size, 100_000);
    assert_eq!(cp.vector, PolarCoordinate { theta: 0, rho: 300_000 });
}

#[test]
fn segment_emits_exactly_steps_frames() {
    let mut mc = MotionController::new(test_config());
    mc.queue_position(PolarCoordinate { theta: 0, rho: 300_000 });
    assert_eq!(mc.checkpoints.front().unwrap().steps, 3);
    let f0 = mc.next_frame();
    assert_eq!(f0.relative_distance, 100_000);
    assert_eq!(mc.checkpoints.len(), 1);
    let _f1 = mc.next_frame();
    assert_eq!(mc.checkpoints.len(), 1);
    let f2 = mc.next_frame();
    // the third frame reaches the checkpoint and consumes it
    assert_eq!(mc.checkpoints.len(), 0);
    assert_eq!(f2.position.rho, 300_000);
    assert_eq!(f2.absolute_distance, 300_000);
}

#[test]
fn duplicate_enqueue_is_ignored() {
    let mut mc = MotionController::new(test_config());
    mc.queue_position(PolarCoordinate { theta: 0, rho: 1_000_000 });
    assert_eq!(mc.checkpoints.len(), 1);
    mc.queue_position(PolarCoordinate { theta: 0, rho: 1_000_000 });
    assert_eq!(mc.checkpoints.len(), 1);
}

#[test]
fn enqueue_home_on_empty_queue_is_ignored() {
    let mut mc = MotionController::new(test_config());
    mc.queue_position(PolarCoordinate { theta: 0, rho: 0 });
    assert_eq!(mc.checkpoints.len(), 0);
}

#[test]
fn empty_queue_next_frame_repeats_stored_frame() {
    let mut mc = MotionController::new(test_config());
    let seed = mc.next_frame();
    assert_eq!(seed.speed, 0);
    assert_eq!(seed.position, PolarCoordinate { theta: 0, rho: 0 });
    assert_eq!(seed.absolute_distance, 0);
    let again = mc.next_frame();
    assert_eq!(again, seed);
    mc.queue_position(PolarCoordinate { theta: 0, rho: 200_000 });
    let f0 = mc.next_frame();
    let f1 = mc.next_frame();
    assert_eq!(mc.checkpoints.len(), 0);
    assert_ne!(f0, f1);
    let f2 = mc.next_frame();
    let f3 = mc.next_frame();
    assert_eq!(f1, f2);
    assert_eq!(f2, f3);
}

#[test]
fn empty_queue_is_ready() {
    let mc = MotionController::new(test_config());
    assert!(mc.is_queue_ready());
    let mut mc = MotionController::new(test_config());
    let _ = mc.next_frame();
    assert!(mc.is_queue_ready());
}

#[test]
fn speed_band_and_distance_monotonic_over_full_drain() {
    let mut mc = MotionController::new(test_config());
    mc.queue_position(PolarCoordinate { theta: 0, rho: 300_000 });
    mc.queue_position(PolarCoordinate { theta: -400_000, rho: 400_000 });
    mc.queue_position(PolarCoordinate { theta: 0, rho: 0 });
    let mut last_abs: i64 = 0;
    let mut frames: u32 = 0;
    while !mc.checkpoints.is_empty() {
        let f = mc.next_frame();
        assert!(f.speed >= 1_000_000, "speed under the floor: {}", f.speed);
        assert!(f.speed <= 100_000_000, "speed over the ceiling: {}", f.speed);
        assert!(f.absolute_distance >= last_abs, "distance went backward");
        last_abs = f.absolute_distance;
        frames += 1;
        assert!(frames < 1000, "planner failed to drain");
    }
    // three segments of 3, 3 and 5 steps
    assert_eq!(frames, 11);
    assert_eq!(last_abs, 1_020_000);
}

#[test]
fn drain_decelerates_before_direction_change() {
    let mut mc = MotionController::new(test_config());
    mc.queue_position(PolarCoordinate { theta: 0, rho: 300_000 });
    mc.queue_position(PolarCoordinate { theta: -400_000, rho: 400_000 });
    mc.queue_position(PolarCoordinate { theta: 0, rho: 0 });
    // segment one ends in a direction change: its last frame must have
    // braked back down to min_speed
    let _f0 = mc.next_frame();
    let f1 = mc.next_frame();
    let f2 = mc.next_frame();
    assert!(f2.speed < f1.speed);
    assert_eq!(f2.speed, 1_000_000);
}
