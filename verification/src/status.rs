//! The fixed-width packed telemetry record and its codec.
//!
//! A robot reports its status as one bit-packed record. The wire layout is
//! part of the network contract: fields in order, each an unsigned
//! little-endian bit field at a fixed offset of the bit stream (see
//! [`crate::bits::stream_bits`]), encoder deltas as 16-bit two's-complement
//! values. The declared fields sum to 311 bits; the frame is 39 bytes
//! (312 bits) with one zero padding bit at the end.
//!
//! Layout (offset, width): `uid` (0, 6), `battery_voltage` (6, 8),
//! `motor_errors` (14, 5), `ball_sense_status` (19, 1), `kick_status`
//! (20, 1), `kick_healthy` (21, 1), `fpga_status` (22, 1),
//! `encoder_deltas[i]` (23 + 16 i, 16) for i in 0..18, padding (311, 1).

use vstd::prelude::*;
use vstd::arithmetic::power2::pow2;
use crate::bits::{
    bits_to_nat, nat_to_bits, stream_bits, field_val, lemma_nat_to_bits_len,
    lemma_bits_of_nat_round_trip, nat_to_bits_exec, read_bits, bytes_to_bits, bits_to_bytes,
};

verus! {

/// Number of bytes in an encoded status frame.
pub const FRAME_LEN: usize = 39;

/// Number of bits in an encoded status frame (311 field bits + 1 padding bit).
pub const FRAME_BITS: usize = 312;

/// Number of encoder delta fields in a record.
pub const ENCODER_COUNT: usize = 18;

pub const UID_OFF: usize = 0;

pub const UID_BITS: usize = 6;

pub const BATTERY_OFF: usize = 6;

pub const BATTERY_BITS: usize = 8;

pub const MOTOR_OFF: usize = 14;

pub const MOTOR_BITS: usize = 5;

pub const BALL_SENSE_OFF: usize = 19;

pub const KICK_STATUS_OFF: usize = 20;

pub const KICK_HEALTHY_OFF: usize = 21;

pub const FPGA_OFF: usize = 22;

pub const ENCODER_OFF: usize = 23;

pub const ENCODER_BITS: usize = 16;

/// Why a frame or a record was rejected by the codec.
#[derive(Clone, Copy, Debug, PartialEq, Eq, Structural)]
pub enum CodecError {
    /// The frame is not exactly [`FRAME_LEN`] bytes.
    WrongLength,
    /// A field of the record exceeds its declared bit width.
    FieldOutOfRange,
}

/// One decoded robot status record.
#[derive(Debug, PartialEq, Eq)]
pub struct RobotStatusMessage {
    /// 6-bit robot identifier.
    pub uid: u8,
    /// Raw battery reading; one unit is 0.09884 volts.
    pub battery_voltage: u8,
    /// 5-bit bitmask of per-motor fault flags.
    pub motor_errors: u8,
    pub ball_sense_status: bool,
    pub kick_status: bool,
    pub kick_healthy: bool,
    pub fpga_status: bool,
    /// 18 per-wheel encoder tick deltas since the previous report.
    pub encoder_deltas: Vec<i16>,
}

/// The motor/ball/kick flag sub-record, packed into one byte as
/// `motor_errors` (bits 0..5), `ball_sense_status` (bit 5), `kick_status`
/// (bit 6), `kick_healthy` (bit 7).
#[derive(Clone, Copy, Debug, PartialEq, Eq, Structural)]
pub struct MotorBallKickStatus {
    /// 5-bit bitmask of per-motor fault flags.
    pub motor_errors: u8,
    pub ball_sense_status: bool,
    pub kick_status: bool,
    pub kick_healthy: bool,
}

/// The single FPGA health flag, a 1-bit field.
#[derive(Clone, Copy, Debug, PartialEq, Eq, Structural)]
pub struct FPGAStatus {
    pub fpga_status: bool,
}

impl MotorBallKickStatus {
    /// The bitmask fits its 5-bit field.
    pub open spec fn wf(&self) -> bool {
        self.motor_errors < 32
    }

    /// The packed byte: `motor_errors` in bits 0..5, then one bit per flag.
    pub open spec fn spec_byte(&self) -> nat {
        self.motor_errors as nat + (if self.ball_sense_status {
            32nat
        } else {
            0nat
        }) + (if self.kick_status {
            64nat
        } else {
            0nat
        }) + (if self.kick_healthy {
            128nat
        } else {
            0nat
        })
    }

    /// Packs the sub-record into its byte.
    pub fn to_byte(&self) -> (b: u8)
        requires
            self.wf(),
        ensures
            b as nat == self.spec_byte(),
    {
        self.motor_errors + (if self.ball_sense_status {
            32
        } else {
            0
        }) + (if self.kick_status {
            64
        } else {
            0
        }) + (if self.kick_healthy {
            128
        } else {
            0
        })
    }

    /// Unpacks a byte into the sub-record.
    pub fn from_byte(b: u8) -> (r: MotorBallKickStatus)
        ensures
            r == flags_of_byte(b as nat),
            r.wf(),
    {
        MotorBallKickStatus {
            motor_errors: b % 32,
            ball_sense_status: (b / 32) % 2 == 1,
            kick_status: (b / 64) % 2 == 1,
            kick_healthy: b / 128 == 1,
        }
    }
}

/// The sub-record denoted by a packed flag byte.
pub open spec fn flags_of_byte(b: nat) -> MotorBallKickStatus {
    MotorBallKickStatus {
        motor_errors: (b % 32) as u8,
        ball_sense_status: (b / 32) % 2 == 1,
        kick_status: (b / 64) % 2 == 1,
        kick_healthy: b / 128 == 1,
    }
}

/// Round trip: unpacking the packed byte of a well-formed flag sub-record
/// gives the sub-record back.
pub proof fn lemma_flags_round_trip(s: MotorBallKickStatus)
    requires
        s.wf(),
    ensures
        flags_of_byte(s.spec_byte()) == s,
{
    let b = s.spec_byte();
    assert(b % 32 == s.motor_errors as nat && (b / 32) % 2 == (if s.ball_sense_status {
        1nat
    } else {
        0nat
    }) && (b / 64) % 2 == (if s.kick_status {
        1nat
    } else {
        0nat
    }) && b / 128 == (if s.kick_healthy {
        1nat
    } else {
        0nat
    })) by (nonlinear_arith)
        requires
            b == s.spec_byte(),
            s.motor_errors < 32,
    ;
}

impl FPGAStatus {
    /// Packs the flag into its 1-bit field value.
    pub fn to_bit(&self) -> (b: u8)
        ensures
            b == (if self.fpga_status {
                1u8
            } else {
                0u8
            }),
    {
        if self.fpga_status {
            1
        } else {
            0
        }
    }

    /// Unpacks a 1-bit field value into the flag.
    pub fn from_bit(b: u8) -> (r: FPGAStatus)
        ensures
            r.fpga_status == (b == 1),
    {
        FPGAStatus { fpga_status: b == 1 }
    }
}

/// The 16-bit two's-complement raw value of an encoder delta.
pub open spec fn delta_as_u16(d: int) -> nat {
    if d >= 0 {
        d as nat
    } else {
        (d + 0x10000) as nat
    }
}

/// The encoder delta denoted by a 16-bit raw value.
pub open spec fn u16_as_delta(r: nat) -> int {
    if r < 0x8000 {
        r as int
    } else {
        r - 0x10000
    }
}

/// The bit stream of the first `n` encoder delta fields.
pub open spec fn enc_bits(s: Seq<i16>, n: int) -> Seq<bool>
    decreases n,
{
    if n <= 0 {
        Seq::empty()
    } else {
        enc_bits(s, n - 1) + nat_to_bits(delta_as_u16(s[n - 1] as int), 16)
    }
}

impl RobotStatusMessage {
    /// Every field fits its declared bit width.
    pub open spec fn wf(&self) -> bool {
        &&& self.uid < 64
        &&& self.motor_errors < 32
        &&& self.encoder_deltas@.len() == ENCODER_COUNT
    }

    /// The motor/ball/kick flags of this record as the packed sub-record.
    pub fn status_flags(&self) -> (r: MotorBallKickStatus)
        ensures
            r.motor_errors == self.motor_errors,
            r.ball_sense_status == self.ball_sense_status,
            r.kick_status == self.kick_status,
            r.kick_healthy == self.kick_healthy,
    {
        MotorBallKickStatus {
            motor_errors: self.motor_errors,
            ball_sense_status: self.ball_sense_status,
            kick_status: self.kick_status,
            kick_healthy: self.kick_healthy,
        }
    }

    /// The FPGA flag of this record as its own sub-record.
    pub fn fpga(&self) -> (r: FPGAStatus)
        ensures
            r.fpga_status == self.fpga_status,
    {
        FPGAStatus { fpga_status: self.fpga_status }
    }
}

/// The full bit stream of an encoded record: each field in layout order,
/// least significant bit first, then one zero padding bit.
pub open spec fn msg_bits(m: RobotStatusMessage) -> Seq<bool> {
    nat_to_bits(m.uid as nat, UID_BITS as nat) + nat_to_bits(
        m.battery_voltage as nat,
        BATTERY_BITS as nat,
    ) + nat_to_bits(m.motor_errors as nat, MOTOR_BITS as nat) + seq![m.ball_sense_status]
        + seq![m.kick_status] + seq![m.kick_healthy] + seq![m.fpga_status] + enc_bits(
        m.encoder_deltas@,
        ENCODER_COUNT as int,
    ) + seq![false]
}

/// What `decode` promises of an accepted frame: every field of the record
/// equals the corresponding bit field of the frame.
pub open spec fn decodes_to(f: Seq<u8>, m: RobotStatusMessage) -> bool {
    &&& m.uid as nat == field_val(f, UID_OFF as int, UID_BITS as int)
    &&& m.battery_voltage as nat == field_val(f, BATTERY_OFF as int, BATTERY_BITS as int)
    &&& m.motor_errors as nat == field_val(f, MOTOR_OFF as int, MOTOR_BITS as int)
    &&& m.ball_sense_status == (field_val(f, BALL_SENSE_OFF as int, 1) == 1)
    &&& m.kick_status == (field_val(f, KICK_STATUS_OFF as int, 1) == 1)
    &&& m.kick_healthy == (field_val(f, KICK_HEALTHY_OFF as int, 1) == 1)
    &&& m.fpga_status == (field_val(f, FPGA_OFF as int, 1) == 1)
    &&& m.encoder_deltas@.len() == ENCODER_COUNT
    &&& forall|i: int|
        0 <= i < ENCODER_COUNT ==> m.encoder_deltas@[i] as int == u16_as_delta(
            field_val(f, ENCODER_OFF + ENCODER_BITS * i, ENCODER_BITS as int),
        )
}

proof fn lemma_enc_bits_len(s: Seq<i16>, n: int)
    requires
        n >= 0,
    ensures
        enc_bits(s, n).len() == 16 * n,
    decreases n,
{
    if n > 0 {
        lemma_enc_bits_len(s, n - 1);
        lemma_nat_to_bits_len(delta_as_u16(s[n - 1] as int), 16);
    }
}

proof fn lemma_enc_bits_slice(s: Seq<i16>, n: int, i: int)
    requires
        0 <= i < n,
    ensures
        enc_bits(s, n).subrange(16 * i, 16 * i + 16) == nat_to_bits(
            delta_as_u16(s[i] as int),
            16,
        ),
    decreases n,
{
    lemma_enc_bits_len(s, n - 1);
    lemma_nat_to_bits_len(delta_as_u16(s[n - 1] as int), 16);
    if i == n - 1 {
        assert(enc_bits(s, n).subrange(16 * i, 16 * i + 16) =~= nat_to_bits(
            delta_as_u16(s[i] as int),
            16,
        ));
    } else {
        lemma_enc_bits_slice(s, n - 1, i);
        assert(enc_bits(s, n).subrange(16 * i, 16 * i + 16) =~= enc_bits(s, n - 1).subrange(
            16 * i,
            16 * i + 16,
        ));
    }
}

proof fn lemma_msg_bits_len(m: RobotStatusMessage)
    ensures
        msg_bits(m).len() == FRAME_BITS,
{
    lemma_nat_to_bits_len(m.uid as nat, UID_BITS as nat);
    lemma_nat_to_bits_len(m.battery_voltage as nat, BATTERY_BITS as nat);
    lemma_nat_to_bits_len(m.motor_errors as nat, MOTOR_BITS as nat);
    lemma_enc_bits_len(m.encoder_deltas@, ENCODER_COUNT as int);
}

/// Converts an encoder delta to its 16-bit two's-complement raw value.
fn delta_to_u16(d: i16) -> (r: u16)
    ensures
        r as nat == delta_as_u16(d as int),
{
    if d >= 0 {
        d as u16
    } else {
        ((d as i32) + 0x10000) as u16
    }
}

/// Converts a 16-bit raw value to the encoder delta it denotes.
fn u16_to_delta(r: u16) -> (d: i16)
    ensures
        d as int == u16_as_delta(r as nat),
{
    if r < 0x8000 {
        r as i16
    } else {
        ((r as i32) - 0x10000) as i16
    }
}

/// Packs a well-formed record into a 39-byte frame; a record with a field
/// over its declared width is rejected before packing.
pub fn encode(m: &RobotStatusMessage) -> (r: Result<Vec<u8>, CodecError>)
    ensures
        m.wf() ==> (r matches Ok(f) && f@.len() == FRAME_LEN && stream_bits(f@) == msg_bits(*m)),
        !m.wf() ==> r == Err::<Vec<u8>, CodecError>(CodecError::FieldOutOfRange),
{
    if m.uid >= 64 || m.motor_errors >= 32 || m.encoder_deltas.len() != ENCODER_COUNT {
        return Err(CodecError::FieldOutOfRange);
    }
    let mut bits: Vec<bool> = Vec::new();

    let mut part = nat_to_bits_exec(m.uid as u16, UID_BITS);
    bits.append(&mut part);
    let ghost p_uid = nat_to_bits(m.uid as nat, UID_BITS as nat);
    proof {
        assert(bits@ =~= p_uid);
    }

    let mut part = nat_to_bits_exec(m.battery_voltage as u16, BATTERY_BITS);
    bits.append(&mut part);
    let ghost p_batt = p_uid + nat_to_bits(m.battery_voltage as nat, BATTERY_BITS as nat);
    proof {
        assert(bits@ =~= p_batt);
    }

    let mut part = nat_to_bits_exec(m.motor_errors as u16, MOTOR_BITS);
    bits.append(&mut part);
    let ghost p_motor = p_batt + nat_to_bits(m.motor_errors as nat, MOTOR_BITS as nat);
    proof {
        assert(bits@ =~= p_motor);
    }

    bits.push(m.ball_sense_status);
    bits.push(m.kick_status);
    bits.push(m.kick_healthy);
    bits.push(m.fpga_status);
    let ghost p_flags = p_motor + seq![m.ball_sense_status] + seq![m.kick_status]
        + seq![m.kick_healthy] + seq![m.fpga_status];
    proof {
        assert(bits@ =~= p_flags);
    }

    let mut i: usize = 0;
    while i < ENCODER_COUNT
        invariant
            i <= ENCODER_COUNT,
            m.encoder_deltas@.len() == ENCODER_COUNT,
            bits@ == p_flags + enc_bits(m.encoder_deltas@, i as int),
        decreases ENCODER_COUNT - i,
    {
        proof {
            lemma_enc_bits_len(m.encoder_deltas@, i as int);
        }
        let raw = delta_to_u16(m.encoder_deltas[i]);
        let mut part = nat_to_bits_exec(raw, ENCODER_BITS);
        bits.append(&mut part);
        i = i + 1;
        proof {
            assert(bits@ =~= p_flags + enc_bits(m.encoder_deltas@, i as int));
        }
    }

    bits.push(false);
    proof {
        assert(bits@ =~= msg_bits(*m));
        lemma_msg_bits_len(*m);
    }
    let frame = bits_to_bytes(&bits);
    Ok(frame)
}

/// Unpacks a 39-byte frame into a record; decoding is total over frames of
/// the right length, and any other length is rejected.
pub fn decode(frame: &Vec<u8>) -> (r: Result<RobotStatusMessage, CodecError>)
    ensures
        frame@.len() == FRAME_LEN ==> (r matches Ok(m) && m.wf() && decodes_to(frame@, m)),
        frame@.len() != FRAME_LEN ==> r == Err::<RobotStatusMessage, CodecError>(
            CodecError::WrongLength,
        ),
{
    if frame.len() != FRAME_LEN {
        return Err(CodecError::WrongLength);
    }
    let bits = bytes_to_bits(frame);
    proof {
        vstd::arithmetic::power2::lemma2_to64();
    }
    let uid = read_bits(&bits, UID_OFF, UID_BITS) as u8;
    let battery_voltage = read_bits(&bits, BATTERY_OFF, BATTERY_BITS) as u8;
    let motor_errors = read_bits(&bits, MOTOR_OFF, MOTOR_BITS) as u8;
    let ball_sense_status = read_bits(&bits, BALL_SENSE_OFF, 1) == 1;
    let kick_status = read_bits(&bits, KICK_STATUS_OFF, 1) == 1;
    let kick_healthy = read_bits(&bits, KICK_HEALTHY_OFF, 1) == 1;
    let fpga_status = read_bits(&bits, FPGA_OFF, 1) == 1;

    let mut encoder_deltas: Vec<i16> = Vec::new();
    let mut i: usize = 0;
    while i < ENCODER_COUNT
        invariant
            i <= ENCODER_COUNT,
            bits@ == stream_bits(frame@),
            frame@.len() == FRAME_LEN,
            encoder_deltas@.len() == i,
            forall|j: int|
                0 <= j < i ==> encoder_deltas@[j] as int == u16_as_delta(
                    field_val(frame@, ENCODER_OFF + ENCODER_BITS * j, ENCODER_BITS as int),
                ),
        decreases ENCODER_COUNT - i,
    {
        let raw = read_bits(&bits, ENCODER_OFF + ENCODER_BITS * i, ENCODER_BITS);
        let d = u16_to_delta(raw);
        encoder_deltas.push(d);
        i = i + 1;
    }

    Ok(
        RobotStatusMessage {
            uid,
            battery_voltage,
            motor_errors,
            ball_sense_status,
            kick_status,
            kick_healthy,
            fpga_status,
            encoder_deltas,
        },
    )
}

/// Round trip: a frame whose bit stream packs a well-formed record decodes
/// to that record, field for field. Together with the contract of
/// [`encode`], this states that decoding an encoded record reproduces it.
pub proof fn lemma_codec_round_trip(m: RobotStatusMessage, f: Seq<u8>)
    requires
        m.wf(),
        f.len() == FRAME_LEN,
        stream_bits(f) == msg_bits(m),
    ensures
        decodes_to(f, m),
{
    lemma_msg_bits_len(m);
    let b = msg_bits(m);
    let p_uid = nat_to_bits(m.uid as nat, UID_BITS as nat);
    let p_batt = nat_to_bits(m.battery_voltage as nat, BATTERY_BITS as nat);
    let p_motor = nat_to_bits(m.motor_errors as nat, MOTOR_BITS as nat);
    let p_enc = enc_bits(m.encoder_deltas@, ENCODER_COUNT as int);
    lemma_nat_to_bits_len(m.uid as nat, UID_BITS as nat);
    lemma_nat_to_bits_len(m.battery_voltage as nat, BATTERY_BITS as nat);
    lemma_nat_to_bits_len(m.motor_errors as nat, MOTOR_BITS as nat);
    lemma_enc_bits_len(m.encoder_deltas@, ENCODER_COUNT as int);
    vstd::arithmetic::power2::lemma2_to64();

    assert(b.subrange(UID_OFF as int, UID_OFF + UID_BITS) =~= p_uid);
    lemma_bits_of_nat_round_trip(m.uid as nat, UID_BITS as nat);

    assert(b.subrange(BATTERY_OFF as int, BATTERY_OFF + BATTERY_BITS) =~= p_batt);
    lemma_bits_of_nat_round_trip(m.battery_voltage as nat, BATTERY_BITS as nat);

    assert(b.subrange(MOTOR_OFF as int, MOTOR_OFF + MOTOR_BITS) =~= p_motor);
    lemma_bits_of_nat_round_trip(m.motor_errors as nat, MOTOR_BITS as nat);

    assert(b.subrange(BALL_SENSE_OFF as int, BALL_SENSE_OFF + 1) =~= seq![m.ball_sense_status]);
    assert(b.subrange(KICK_STATUS_OFF as int, KICK_STATUS_OFF + 1) =~= seq![m.kick_status]);
    assert(b.subrange(KICK_HEALTHY_OFF as int, KICK_HEALTHY_OFF + 1) =~= seq![m.kick_healthy]);
    assert(b.subrange(FPGA_OFF as int, FPGA_OFF + 1) =~= seq![m.fpga_status]);
    lemma_singleton_bit(m.ball_sense_status);
    lemma_singleton_bit(m.kick_status);
    lemma_singleton_bit(m.kick_healthy);
    lemma_singleton_bit(m.fpga_status);

    assert forall|i: int| 0 <= i < ENCODER_COUNT implies m.encoder_deltas@[i] as int
        == u16_as_delta(
        field_val(f, ENCODER_OFF + ENCODER_BITS * i, ENCODER_BITS as int),
    ) by {
        let d = m.encoder_deltas@[i] as int;
        lemma_enc_bits_slice(m.encoder_deltas@, ENCODER_COUNT as int, i);
        assert(b.subrange(
            ENCODER_OFF + ENCODER_BITS * i,
            ENCODER_OFF + ENCODER_BITS * i + ENCODER_BITS,
        ) =~= p_enc.subrange(16 * i, 16 * i + 16));
        lemma_bits_of_nat_round_trip(delta_as_u16(d), 16);
    }
}

proof fn lemma_singleton_bit(x: bool)
    ensures
        bits_to_nat(seq![x]) == (if x {
            1nat
        } else {
            0nat
        }),
{
    let s = seq![x];
    assert(s.drop_first() =~= Seq::<bool>::empty());
    assert(s.len() == 1 && s[0] == x);
    assert(bits_to_nat(s.drop_first()) == 0);
    assert(bits_to_nat(s) == (if x {
        1nat
    } else {
        0nat
    }) + 2 * bits_to_nat(s.drop_first()));
}

} // verus!
