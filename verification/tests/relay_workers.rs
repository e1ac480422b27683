use base_station::relay::{
    field_worker_step, robot_worker_step, worker_transition, FieldAction, RadioBackend,
    RobotAction, WorkerState,
};
use base_station::router::Router;
use base_station::shutdown::ShutdownSignal;
use base_station::status::{encode, RobotStatusMessage, ENCODER_COUNT, FRAME_LEN};

fn small_fleet() -> Router {
    Router::new(&vec![0, 1, 2, 3, 4, 5])
}

#[test]
fn command_for_robot_one_is_forwarded() {
    // Header with address bits = 1 and reserved bits = 0, body "MOVE".
    let shutdown = ShutdownSignal::new();
    let router = small_fleet();
    let mut packet = vec![0b0000_0100u8];
    packet.extend_from_slice(b"MOVE");
    let act = field_worker_step(&shutdown, &router, RadioBackend::LongRange, Some(packet));
    assert_eq!(
        act,
        FieldAction::Forward { address: 1, payload: b"MOVE".to_vec() }
    );
}

#[test]
fn unknown_robot_is_dropped_not_fatal() {
    let shutdown = ShutdownSignal::new();
    let router = small_fleet();
    // Address 63 is not provisioned.
    let act = field_worker_step(
        &shutdown,
        &router,
        RadioBackend::LongRange,
        Some(vec![0b1111_1100, 1, 2, 3]),
    );
    assert_eq!(act, FieldAction::DropUnknown);
}

#[test]
fn zero_length_packet_is_dropped_not_fatal() {
    let shutdown = ShutdownSignal::new();
    let router = small_fleet();
    let act = field_worker_step(&shutdown, &router, RadioBackend::LongRange, Some(Vec::new()));
    assert_eq!(act, FieldAction::DropMalformed);
}

#[test]
fn timeout_is_an_idle_iteration() {
    let shutdown = ShutdownSignal::new();
    let router = small_fleet();
    let act = field_worker_step(&shutdown, &router, RadioBackend::LongRange, None);
    assert_eq!(act, FieldAction::Idle);
    let act = robot_worker_step(&shutdown, None);
    assert_eq!(act, RobotAction::Idle);
}

#[test]
fn oversize_body_is_rejected_before_transmission() {
    let shutdown = ShutdownSignal::new();
    let router = small_fleet();
    // 33-byte body exceeds the short-range backend's 32-byte frames
    // but fits the long-range backend's 255-byte frames.
    let mut packet = vec![0b0000_0100u8];
    packet.extend_from_slice(&[7u8; 33]);
    let act = field_worker_step(&shutdown, &router, RadioBackend::ShortRange, Some(packet.clone()));
    assert_eq!(act, FieldAction::DropOversize);
    let act = field_worker_step(&shutdown, &router, RadioBackend::LongRange, Some(packet));
    assert!(matches!(act, FieldAction::Forward { address: 1, .. }));
}

#[test]
fn good_frame_is_published_upstream() {
    let shutdown = ShutdownSignal::new();
    let msg = RobotStatusMessage {
        uid: 3,
        battery_voltage: 200,
        motor_errors: 0,
        ball_sense_status: false,
        kick_status: false,
        kick_healthy: false,
        fpga_status: false,
        encoder_deltas: vec![0i16; ENCODER_COUNT],
    };
    let frame = encode(&msg).unwrap();
    let act = robot_worker_step(&shutdown, Some(frame));
    assert_eq!(act, RobotAction::Publish(msg));
}

#[test]
fn wrong_length_frame_is_dropped_not_fatal() {
    let shutdown = ShutdownSignal::new();
    let act = robot_worker_step(&shutdown, Some(vec![0u8; FRAME_LEN - 1]));
    assert_eq!(act, RobotAction::DropBadFrame);
}

#[test]
fn shutdown_stops_both_workers_at_next_check() {
    let mut shutdown = ShutdownSignal::new();
    assert!(!shutdown.has_fired());
    shutdown.signal();
    assert!(shutdown.has_fired());
    // Whatever arrives, the next iteration decides to stop.
    let router = small_fleet();
    let mut packet = vec![0b0000_0100u8];
    packet.extend_from_slice(b"MOVE");
    let act = field_worker_step(&shutdown, &router, RadioBackend::LongRange, Some(packet));
    assert_eq!(act, FieldAction::Stop);
    let act = robot_worker_step(&shutdown, None);
    assert_eq!(act, RobotAction::Stop);
    assert_eq!(
        worker_transition(WorkerState::Running, &shutdown),
        WorkerState::Terminal
    );
}

#[test]
fn signal_is_idempotent() {
    let mut shutdown = ShutdownSignal::new();
    shutdown.signal();
    shutdown.signal();
    assert!(shutdown.has_fired());
}

#[test]
fn workers_terminate_only_via_cancellation() {
    let shutdown = ShutdownSignal::new();
    // A running worker stays running while the signal has not fired,
    // whatever its iteration dropped.
    assert_eq!(
        worker_transition(WorkerState::Running, &shutdown),
        WorkerState::Running
    );
    assert_eq!(
        worker_transition(WorkerState::Terminal, &shutdown),
        WorkerState::Terminal
    );
}
