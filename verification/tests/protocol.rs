use polar_motion::control_buffer::ControlBuffer;
use polar_motion::coordinate::PolarCoordinate;
use polar_motion::motion_controller::{MotionController, MotionControllerConfig};
use polar_motion::protocol::{ack_frame, needs_ack, parse_command, parse_micro_decimal, ParsedCommand};

#[test]
fn move_line_byte_by_byte_enqueues_one_target() {
    let mut buffer = ControlBuffer::new();
    let mut acks: u32 = 0;
    let mut mc = MotionController::new(MotionControllerConfig {
        home_position: PolarCoordinate { theta: 0, rho: 0 },
        max_acceleration: 1_000_000,
        max_speed: 100_000_000,
        min_speed: 1_000_000,
        step_distance: 100_000,
    });
    for byte in b"MOVE 1.5708 0.5;" {
        assert!(!buffer.is_complete());
        let result = buffer.add_char_buf(&[*byte]);
        assert!(result.is_ok());
    }
    assert!(buffer.is_complete());
    let command = parse_command(buffer.line());
    if needs_ack(&command) {
        acks += 1;
    }
    match command {
        ParsedCommand::Move { theta, rho } => {
            assert_eq!(theta, 1_570_800);
            assert_eq!(rho, 500_000);
            mc.queue_position(PolarCoordinate { theta, rho });
        },
        _ => panic!("expected a well-formed move"),
    }
    assert_eq!(acks, 1);
    assert_eq!(mc.checkpoints.len(), 1);
}

#[test]
fn duplicate_targets_leave_one_checkpoint() {
    let mut mc = MotionController::new(MotionControllerConfig {
        home_position: PolarCoordinate { theta: 0, rho: 0 },
        max_acceleration: 1_000_000,
        max_speed: 100_000_000,
        min_speed: 1_000_000,
        step_distance: 100_000,
    });
    for line in [&b"MOVE 0 1;"[..], &b"MOVE 0 1;"[..]] {
        let mut buffer = ControlBuffer::new();
        for byte in line {
            let _ = buffer.add_char_buf(&[*byte]);
        }
        if let ParsedCommand::Move { theta, rho } = parse_command(buffer.line()) {
            mc.queue_position(PolarCoordinate { theta, rho });
        } else {
            panic!("expected a move");
        }
    }
    assert_eq!(mc.checkpoints.len(), 1);
}

#[test]
fn unknown_commands_are_ignored_without_ack() {
    let command = parse_command(b"HOME 1 2");
    assert_eq!(command, ParsedCommand::Unknown);
    assert!(!needs_ack(&command));
}

#[test]
fn malformed_move_is_dropped_silently() {
    let command = parse_command(b"MOVE abc 0.5");
    assert_eq!(command, ParsedCommand::MalformedMove);
    assert!(!needs_ack(&command));
    assert_eq!(parse_command(b"MOVE"), ParsedCommand::MalformedMove);
    assert_eq!(parse_command(b"MOVE 1.0"), ParsedCommand::MalformedMove);
    assert_eq!(parse_command(b"MOVE 1 2"), ParsedCommand::Move {
        theta: 1_000_000,
        rho: 2_000_000,
    });
}

#[test]
fn double_space_yields_empty_malformed_token() {
    // an empty token between two spaces is not a number
    assert_eq!(parse_command(b"MOVE  1"), ParsedCommand::MalformedMove);
}

#[test]
fn decimal_parser_values() {
    assert_eq!(parse_micro_decimal(b"1.5708"), Some(1_570_800));
    assert_eq!(parse_micro_decimal(b"-0.4"), Some(-400_000));
    assert_eq!(parse_micro_decimal(b"+2"), Some(2_000_000));
    assert_eq!(parse_micro_decimal(b"0"), Some(0));
    assert_eq!(parse_micro_decimal(b"2."), Some(2_000_000));
    assert_eq!(parse_micro_decimal(b".5"), Some(500_000));
    assert_eq!(parse_micro_decimal(b"-.5"), Some(-500_000));
    assert_eq!(parse_micro_decimal(b"123456789012"), Some(123_456_789_012_000_000));
}

#[test]
fn decimal_parser_truncates_below_resolution() {
    assert_eq!(parse_micro_decimal(b"0.1234567"), Some(123_456));
    assert_eq!(parse_micro_decimal(b"0.9999999"), Some(999_999));
}

#[test]
fn decimal_parser_rejects_malformed_tokens() {
    assert_eq!(parse_micro_decimal(b""), None);
    assert_eq!(parse_micro_decimal(b"-"), None);
    assert_eq!(parse_micro_decimal(b"."), None);
    assert_eq!(parse_micro_decimal(b"1.2.3"), None);
    assert_eq!(parse_micro_decimal(b"1e3"), None);
    assert_eq!(parse_micro_decimal(b"12x"), None);
    assert_eq!(parse_micro_decimal(b"1234567890123"), None);
}

#[test]
fn ack_frame_bytes() {
    let frame = ack_frame();
    assert_eq!(frame.len(), 16);
    assert_eq!(&frame[0..10], b"MOVE ACK\r\n");
    assert_eq!(frame[10], b'\n');
    assert_eq!(&frame[11..16], &[0u8; 5]);
}
