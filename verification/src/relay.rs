//! Per-iteration decision logic of the two relay workers.
//!
//! Each worker runs one polling loop: check the shutdown signal, read its
//! own link with a bounded timeout, and process what arrived. The decision
//! each iteration takes — stop, idle, drop with a diagnostic, or forward —
//! is a pure function of the shutdown state and the received data, stated
//! here and proved; the embedding performs the resulting action (radio or
//! UDP send, logging) and hands the next event back. A worker leaves its
//! loop only on cancellation: no malformed packet, unknown address or
//! oversize payload ever stops it.

use vstd::prelude::*;
use crate::router::Router;
use crate::shutdown::ShutdownSignal;
use crate::status::{decode, decodes_to, RobotStatusMessage, FRAME_LEN};

verus! {

/// The radio backend active in this deployment. The two variants are
/// interchangeable behind the same send/receive capability set and differ
/// here only in their maximum frame size.
#[derive(Clone, Copy, Debug, PartialEq, Eq, Structural)]
pub enum RadioBackend {
    /// Long-range, low-bandwidth radio: frames up to 255 bytes.
    LongRange,
    /// Short-range, higher-bandwidth radio: frames up to 32 bytes.
    ShortRange,
}

impl RadioBackend {
    /// The largest payload the backend can carry in one frame.
    pub open spec fn spec_max_frame(self) -> nat {
        match self {
            RadioBackend::LongRange => 255,
            RadioBackend::ShortRange => 32,
        }
    }

    /// The largest payload the backend can carry in one frame.
    pub fn max_frame_len(&self) -> (r: usize)
        ensures
            r == self.spec_max_frame(),
    {
        match self {
            RadioBackend::LongRange => 255,
            RadioBackend::ShortRange => 32,
        }
    }
}

/// A worker is either polling or has left its loop.
#[derive(Clone, Copy, Debug, PartialEq, Eq, Structural)]
pub enum WorkerState {
    Running,
    Terminal,
}

/// What the field worker does with one received command packet (or none).
#[derive(Debug, PartialEq, Eq)]
pub enum FieldAction {
    /// Cancellation observed: leave the loop.
    Stop,
    /// Read timed out: poll again.
    Idle,
    /// Packet below the 1-byte minimum: log, drop, continue.
    DropMalformed,
    /// Header names no provisioned robot: log, drop, continue.
    DropUnknown,
    /// Command body exceeds the radio backend's frame size: log, drop,
    /// continue.
    DropOversize,
    /// Send the command body to the resolved robot.
    Forward { address: u8, payload: Vec<u8> },
}

/// The decision tag of a [`FieldAction`].
#[derive(Clone, Copy, Debug, PartialEq, Eq, Structural)]
pub enum FieldDecision {
    Stop,
    Idle,
    Malformed,
    Unknown,
    Oversize,
    Forward,
}

/// What the robot worker does with one received radio frame (or none).
#[derive(Debug, PartialEq, Eq)]
pub enum RobotAction {
    /// Cancellation observed: leave the loop.
    Stop,
    /// Read timed out: poll again.
    Idle,
    /// Frame of the wrong length: log, drop, continue.
    DropBadFrame,
    /// Send the decoded status record upstream.
    Publish(RobotStatusMessage),
}

/// The decision tag of a [`RobotAction`].
#[derive(Clone, Copy, Debug, PartialEq, Eq, Structural)]
pub enum RobotDecision {
    Stop,
    Idle,
    BadFrame,
    Publish,
}

/// The received bytes of an optional packet, as a sequence.
pub open spec fn packet_view(p: Option<Vec<u8>>) -> Option<Seq<u8>> {
    match p {
        Some(v) => Some(v@),
        None => None,
    }
}

pub open spec fn field_decision_of(act: FieldAction) -> FieldDecision {
    match act {
        FieldAction::Stop => FieldDecision::Stop,
        FieldAction::Idle => FieldDecision::Idle,
        FieldAction::DropMalformed => FieldDecision::Malformed,
        FieldAction::DropUnknown => FieldDecision::Unknown,
        FieldAction::DropOversize => FieldDecision::Oversize,
        FieldAction::Forward { .. } => FieldDecision::Forward,
    }
}

pub open spec fn robot_decision_of(act: RobotAction) -> RobotDecision {
    match act {
        RobotAction::Stop => RobotDecision::Stop,
        RobotAction::Idle => RobotDecision::Idle,
        RobotAction::DropBadFrame => RobotDecision::BadFrame,
        RobotAction::Publish(_) => RobotDecision::Publish,
    }
}

/// The decision one field worker iteration takes, as a function of the
/// shutdown state and the received packet.
pub open spec fn spec_field_decision(
    fired: bool,
    router: Router,
    backend: RadioBackend,
    packet: Option<Seq<u8>>,
) -> FieldDecision {
    if fired {
        FieldDecision::Stop
    } else {
        match packet {
            None => FieldDecision::Idle,
            Some(p) => if p.len() == 0 {
                FieldDecision::Malformed
            } else if router.spec_resolve(p[0]) is None {
                FieldDecision::Unknown
            } else if p.len() - 1 > backend.spec_max_frame() {
                FieldDecision::Oversize
            } else {
                FieldDecision::Forward
            },
        }
    }
}

/// The decision one robot worker iteration takes, as a function of the
/// shutdown state and the received frame.
pub open spec fn spec_robot_decision(fired: bool, frame: Option<Seq<u8>>) -> RobotDecision {
    if fired {
        RobotDecision::Stop
    } else {
        match frame {
            None => RobotDecision::Idle,
            Some(f) => if f.len() == FRAME_LEN {
                RobotDecision::Publish
            } else {
                RobotDecision::BadFrame
            },
        }
    }
}

/// One iteration of the field worker: check cancellation, then route the
/// received command packet. On `Forward`, the address is the resolved
/// header address and the payload is the command body, bytes 1.. of the
/// packet, passed through unmodified.
pub fn field_worker_step(
    shutdown: &ShutdownSignal,
    router: &Router,
    backend: RadioBackend,
    packet: Option<Vec<u8>>,
) -> (act: FieldAction)
    requires
        router.wf(),
    ensures
        field_decision_of(act) == spec_field_decision(
            shutdown.spec_fired(),
            *router,
            backend,
            packet_view(packet),
        ),
        act matches FieldAction::Forward { address, payload } ==> (packet matches Some(p)
            && p@.len() >= 1 && router.spec_resolve(p@[0]) == Some(address) && payload@
            == p@.subrange(1, p@.len() as int)),
{
    if shutdown.has_fired() {
        return FieldAction::Stop;
    }
    match packet {
        None => FieldAction::Idle,
        Some(p) => {
            if p.len() == 0 {
                return FieldAction::DropMalformed;
            }
            match router.resolve(p[0]) {
                None => FieldAction::DropUnknown,
                Some(address) => {
                    if p.len() - 1 > backend.max_frame_len() {
                        return FieldAction::DropOversize;
                    }
                    let mut payload: Vec<u8> = Vec::new();
                    let mut i: usize = 1;
                    while i < p.len()
                        invariant
                            1 <= i <= p@.len(),
                            payload@ == p@.subrange(1, i as int),
                        decreases p@.len() - i,
                    {
                        payload.push(p[i]);
                        i = i + 1;
                        proof {
                            assert(payload@ =~= p@.subrange(1, i as int));
                        }
                    }
                    proof {
                        assert(payload@ =~= p@.subrange(1, p@.len() as int));
                    }
                    FieldAction::Forward { address, payload }
                },
            }
        },
    }
}

/// One iteration of the robot worker: check cancellation, then decode the
/// received radio frame. On `Publish`, the record is the decoded frame; a
/// frame of any other length is dropped and the worker continues.
pub fn robot_worker_step(shutdown: &ShutdownSignal, frame: Option<Vec<u8>>) -> (act: RobotAction)
    ensures
        robot_decision_of(act) == spec_robot_decision(shutdown.spec_fired(), packet_view(frame)),
        act matches RobotAction::Publish(m) ==> (frame matches Some(f) && f@.len() == FRAME_LEN
            && m.wf() && decodes_to(f@, m)),
{
    if shutdown.has_fired() {
        return RobotAction::Stop;
    }
    match frame {
        None => RobotAction::Idle,
        Some(f) => match decode(&f) {
            Ok(m) => RobotAction::Publish(m),
            Err(_) => RobotAction::DropBadFrame,
        },
    }
}

/// The worker state after one iteration: Terminal exactly when the loop was
/// already left or cancellation has fired.
pub open spec fn spec_next_state(state: WorkerState, fired: bool) -> WorkerState {
    if state is Terminal || fired {
        WorkerState::Terminal
    } else {
        WorkerState::Running
    }
}

/// Advances a worker's state by one iteration's cancellation check.
pub fn worker_transition(state: WorkerState, shutdown: &ShutdownSignal) -> (r: WorkerState)
    ensures
        r == spec_next_state(state, shutdown.spec_fired()),
{
    if shutdown.has_fired() {
        WorkerState::Terminal
    } else {
        state
    }
}

/// Shutdown is observed at the next check: once the signal has fired, both
/// workers decide to stop on their next iteration, whatever was received,
/// and a running worker's state goes to Terminal.
pub proof fn lemma_shutdown_stops_workers(
    router: Router,
    backend: RadioBackend,
    packet: Option<Seq<u8>>,
    frame: Option<Seq<u8>>,
    state: WorkerState,
)
    ensures
        spec_field_decision(true, router, backend, packet) is Stop,
        spec_robot_decision(true, frame) is Stop,
        spec_next_state(state, true) is Terminal,
{
}

/// Malformed input never stops a worker: a zero-length command packet and a
/// radio frame of the wrong length are each dropped with a diagnostic, and
/// the worker polls again.
pub proof fn lemma_malformed_input_does_not_stop(
    router: Router,
    backend: RadioBackend,
    frame: Seq<u8>,
)
    requires
        frame.len() != FRAME_LEN,
    ensures
        spec_field_decision(false, router, backend, Some(Seq::empty())) is Malformed,
        spec_robot_decision(false, Some(frame)) is BadFrame,
        !(spec_field_decision(false, router, backend, Some(Seq::empty())) is Stop),
        !(spec_robot_decision(false, Some(frame)) is Stop),
{
}

/// A header naming an unprovisioned robot is dropped as unknown, and the
/// worker continues.
pub proof fn lemma_unknown_address_continues(router: Router, backend: RadioBackend, p: Seq<u8>)
    requires
        p.len() >= 1,
        router.spec_resolve(p[0]) is None,
    ensures
        spec_field_decision(false, router, backend, Some(p)) is Unknown,
        !(spec_field_decision(false, router, backend, Some(p)) is Stop),
{
}

/// Terminal is reached only via cancellation: while the signal has not
/// fired, a running worker stays running, whatever its iteration decided.
pub proof fn lemma_terminal_only_by_cancellation(state: WorkerState)
    requires
        state is Running,
    ensures
        spec_next_state(state, false) is Running,
{
}

} // verus!
