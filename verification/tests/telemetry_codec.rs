use base_station::status::{
    decode, encode, CodecError, FPGAStatus, MotorBallKickStatus, RobotStatusMessage, ENCODER_COUNT,
    FRAME_LEN,
};

fn zero_message() -> RobotStatusMessage {
    RobotStatusMessage {
        uid: 0,
        battery_voltage: 0,
        motor_errors: 0,
        ball_sense_status: false,
        kick_status: false,
        kick_healthy: false,
        fpga_status: false,
        encoder_deltas: vec![0i16; ENCODER_COUNT],
    }
}

#[test]
fn round_trip_all_fields_set() {
    let mut deltas: Vec<i16> = Vec::new();
    for i in 0..ENCODER_COUNT {
        deltas.push((i as i16) * 379 - 3000);
    }
    let msg = RobotStatusMessage {
        uid: 42,
        battery_voltage: 173,
        motor_errors: 0b10101,
        ball_sense_status: true,
        kick_status: false,
        kick_healthy: true,
        fpga_status: true,
        encoder_deltas: deltas,
    };
    let frame = encode(&msg).unwrap();
    assert_eq!(frame.len(), FRAME_LEN);
    let back = decode(&frame).unwrap();
    assert_eq!(back, msg);
}

#[test]
fn round_trip_extreme_deltas() {
    let mut msg = zero_message();
    msg.encoder_deltas[0] = i16::MIN;
    msg.encoder_deltas[1] = i16::MAX;
    msg.encoder_deltas[17] = -1;
    let frame = encode(&msg).unwrap();
    let back = decode(&frame).unwrap();
    assert_eq!(back, msg);
}

#[test]
fn scenario_uid_and_battery() {
    // uid=3, raw battery=200, everything else zero.
    let mut msg = zero_message();
    msg.uid = 3;
    msg.battery_voltage = 200;
    let frame = encode(&msg).unwrap();
    let back = decode(&frame).unwrap();
    assert_eq!(back.uid, 3);
    assert_eq!(back.battery_voltage, 200);
    assert_eq!(back.motor_errors, 0);
    assert!(!back.ball_sense_status);
    assert!(!back.kick_status);
    assert!(!back.kick_healthy);
    assert!(!back.fpga_status);
    assert_eq!(back.encoder_deltas, vec![0i16; 18]);
    let volts = back.battery_voltage as f64 * 0.09884;
    assert!((volts - 19.768).abs() < 1e-9);
}

#[test]
fn wrong_length_frame_rejected() {
    // One byte short of the expected size: no partial record.
    let short = vec![0u8; FRAME_LEN - 1];
    assert_eq!(decode(&short), Err(CodecError::WrongLength));
    let long = vec![0u8; FRAME_LEN + 1];
    assert_eq!(decode(&long), Err(CodecError::WrongLength));
    let empty: Vec<u8> = Vec::new();
    assert_eq!(decode(&empty), Err(CodecError::WrongLength));
}

#[test]
fn decode_is_total_on_right_length() {
    // Every bit pattern of the right length decodes to some record.
    let ones = vec![0xFFu8; FRAME_LEN];
    let m = decode(&ones).unwrap();
    assert_eq!(m.uid, 63);
    assert_eq!(m.battery_voltage, 255);
    assert_eq!(m.motor_errors, 31);
    assert!(m.ball_sense_status && m.kick_status && m.kick_healthy && m.fpga_status);
    assert_eq!(m.encoder_deltas, vec![-1i16; 18]);
}

#[test]
fn field_positions_on_the_wire() {
    // uid occupies the low six bits of byte 0.
    let mut msg = zero_message();
    msg.uid = 1;
    let frame = encode(&msg).unwrap();
    assert_eq!(frame[0], 0x01);
    assert!(frame[1..].iter().all(|&b| b == 0));

    // battery_voltage starts at bit 6: raw 200 puts 200 >> 2 into byte 1.
    let mut msg = zero_message();
    msg.uid = 3;
    msg.battery_voltage = 200;
    let frame = encode(&msg).unwrap();
    assert_eq!(frame[0], 0x03);
    assert_eq!(frame[1], 50);
    assert!(frame[2..].iter().all(|&b| b == 0));

    // motor_errors starts at bit 14.
    let mut msg = zero_message();
    msg.motor_errors = 1;
    let frame = encode(&msg).unwrap();
    assert_eq!(frame[1], 0x40);

    // The four single-bit flags sit at bits 19..23.
    let mut msg = zero_message();
    msg.ball_sense_status = true;
    assert_eq!(encode(&msg).unwrap()[2], 0x08);
    let mut msg = zero_message();
    msg.kick_status = true;
    assert_eq!(encode(&msg).unwrap()[2], 0x10);
    let mut msg = zero_message();
    msg.kick_healthy = true;
    assert_eq!(encode(&msg).unwrap()[2], 0x20);
    let mut msg = zero_message();
    msg.fpga_status = true;
    assert_eq!(encode(&msg).unwrap()[2], 0x40);

    // The first encoder delta starts at bit 23; -1 is sixteen one bits.
    let mut msg = zero_message();
    msg.encoder_deltas[0] = -1;
    let frame = encode(&msg).unwrap();
    assert_eq!(frame[2], 0x80);
    assert_eq!(frame[3], 0xFF);
    assert_eq!(frame[4], 0x7F);

    // The last delta ends at bit 311; the final padding bit stays zero.
    let mut msg = zero_message();
    msg.encoder_deltas[17] = -1;
    let frame = encode(&msg).unwrap();
    assert_eq!(frame[36], 0x80);
    assert_eq!(frame[37], 0xFF);
    assert_eq!(frame[38], 0x7F);
}

#[test]
fn out_of_range_fields_rejected_before_packing() {
    let mut msg = zero_message();
    msg.uid = 64;
    assert_eq!(encode(&msg), Err(CodecError::FieldOutOfRange));

    let mut msg = zero_message();
    msg.motor_errors = 32;
    assert_eq!(encode(&msg), Err(CodecError::FieldOutOfRange));

    let mut msg = zero_message();
    msg.encoder_deltas.pop();
    assert_eq!(encode(&msg), Err(CodecError::FieldOutOfRange));
}

#[test]
fn motor_ball_kick_byte_round_trip() {
    let s = MotorBallKickStatus {
        motor_errors: 5,
        ball_sense_status: true,
        kick_status: false,
        kick_healthy: true,
    };
    let b = s.to_byte();
    assert_eq!(b, 5 + 32 + 128);
    assert_eq!(MotorBallKickStatus::from_byte(b), s);

    let all = MotorBallKickStatus::from_byte(0xFF);
    assert_eq!(all.motor_errors, 31);
    assert!(all.ball_sense_status && all.kick_status && all.kick_healthy);
    assert_eq!(all.to_byte(), 0xFF);
}

#[test]
fn fpga_status_bit_round_trip() {
    let up = FPGAStatus { fpga_status: true };
    assert_eq!(up.to_bit(), 1);
    assert_eq!(FPGAStatus::from_bit(1), up);
    let down = FPGAStatus { fpga_status: false };
    assert_eq!(down.to_bit(), 0);
    assert_eq!(FPGAStatus::from_bit(0), down);
}

#[test]
fn sub_records_of_a_message() {
    let mut msg = zero_message();
    msg.motor_errors = 7;
    msg.kick_status = true;
    msg.fpga_status = true;
    let flags = msg.status_flags();
    assert_eq!(flags.motor_errors, 7);
    assert!(!flags.ball_sense_status);
    assert!(flags.kick_status);
    assert!(!flags.kick_healthy);
    assert!(msg.fpga().fpga_status);
}
