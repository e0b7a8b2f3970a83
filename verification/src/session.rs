//! The execution-control state machine, free of any I/O.
//!
//! A [`Session`] is told what arrived from the debugger and what a step of
//! the target reported, and says how to react. [`crate::stub::GdbStub`] joins
//! it to a transport and a target.

use vstd::prelude::*;

use crate::connection::ReceiveMode;
use crate::protocol::ascii::{DIGIT_0, DIGIT_1, MINUS, PLUS, UPPER_E, UPPER_K, UPPER_O};
use crate::protocol::commands::{Command, CommandView, ParseError};
use crate::protocol::hex::digit_value;
use crate::protocol::packet::{
    decode, frame, lemma_damaged_checksum_rejected, lemma_frame_round_trip, Packet, PacketError,
    PacketView,
};
use crate::target::TargetState;

verus! {

/// The session's execution mode.
#[derive(Debug, Clone, Copy, PartialEq, Eq, Structural)]
pub enum ExecState {
    /// The target stands still and the engine waits for a command.
    Paused,
    /// The target runs, one step at a time between polls for a command.
    Running,
    /// The session is over.
    Exited,
}

/// What one reception brought.
#[derive(Debug, Clone, PartialEq, Eq)]
pub enum Arrival {
    /// Nothing was pending.
    Idle,
    /// Bytes that are no packet.
    Damaged(PacketError),
    /// A positive acknowledgment.
    Ack,
    /// A negative acknowledgment.
    Nack,
    /// An intact frame holding this command.
    Request(Command),
    /// An intact frame whose payload is a known command with a malformed body.
    Malformed(ParseError),
}

/// The mathematical value of an [`Arrival`].
pub enum ArrivalView {
    Idle,
    Damaged(PacketError),
    Ack,
    Nack,
    Request(CommandView),
    Malformed(ParseError),
}

impl View for Arrival {
    type V = ArrivalView;

    open spec fn view(&self) -> ArrivalView {
        match self {
            Arrival::Idle => ArrivalView::Idle,
            Arrival::Damaged(e) => ArrivalView::Damaged(*e),
            Arrival::Ack => ArrivalView::Ack,
            Arrival::Nack => ArrivalView::Nack,
            Arrival::Request(command) => ArrivalView::Request(command@),
            Arrival::Malformed(e) => ArrivalView::Malformed(*e),
        }
    }
}

/// What the engine puts on the wire in answer to an arrival.
#[derive(Debug, Clone, Copy, PartialEq, Eq, Structural)]
pub enum Reaction {
    /// Nothing.
    Silent,
    /// A negative acknowledgment, `-`.
    Nack,
    /// The frame of the session's last reply, once more.
    Retransmit,
    /// A positive acknowledgment, `+`, and then the frame of the session's
    /// last reply, which is the reply to what just arrived.
    Reply,
}

/// The state of a session: its execution mode, and the payload of the reply
/// sent last, kept for retransmission.
pub struct Session {
    state: ExecState,
    last_reply: Option<Vec<u8>>,
}

/// The mathematical value of a [`Session`].
pub struct SessionView {
    pub state: ExecState,
    pub last_reply: Option<Seq<u8>>,
}

impl View for Session {
    type V = SessionView;

    closed spec fn view(&self) -> SessionView {
        SessionView {
            state: self.state,
            last_reply: match self.last_reply {
                Some(payload) => Some(payload@),
                None => None,
            },
        }
    }
}

/// The session before anything arrived: paused, with no reply sent.
pub open spec fn initial() -> SessionView {
    SessionView { state: ExecState::Paused, last_reply: None }
}

/// The payload of the reply to a command: `OK` to a thread selection and to
/// a detach, the empty payload to everything else.
pub open spec fn reply_to(command: CommandView) -> Seq<u8> {
    match command {
        CommandView::H(_) => seq![UPPER_O, UPPER_K],
        CommandView::D(_) => seq![UPPER_O, UPPER_K],
        _ => Seq::empty(),
    }
}

/// The payload of the reply to a malformed command: `E01`.
pub open spec fn error_reply() -> Seq<u8> {
    seq![UPPER_E, DIGIT_0, DIGIT_1]
}

/// The execution mode after a command: continue and step set the target
/// running, detach and kill end the session, every other command leaves the
/// mode as it is. A session that is over stays over.
pub open spec fn state_after(state: ExecState, command: CommandView) -> ExecState {
    match state {
        ExecState::Exited => ExecState::Exited,
        _ => match command {
            CommandView::c(_) => ExecState::Running,
            CommandView::s(_) => ExecState::Running,
            CommandView::D(_) => ExecState::Exited,
            CommandView::k => ExecState::Exited,
            _ => state,
        },
    }
}

/// The arrival that a decoded packet is.
pub open spec fn arrival_of_packet(packet: PacketView) -> ArrivalView {
    match packet {
        PacketView::Ack => ArrivalView::Ack,
        PacketView::Nack => ArrivalView::Nack,
        PacketView::Command(payload) => match Command::of_payload(payload) {
            Ok(command) => ArrivalView::Request(command),
            Err(e) => ArrivalView::Malformed(e),
        },
    }
}

/// The arrival that a run of received bytes is.
pub open spec fn arrival_of_wire(buf: Seq<u8>) -> ArrivalView {
    match decode(buf) {
        Ok(packet) => arrival_of_packet(packet),
        Err(e) => ArrivalView::Damaged(e),
    }
}

/// The session after an arrival, and the reaction to it.
///
/// Nothing pending and an acknowledgment change nothing and are met with
/// silence. Damaged bytes are met with a negative acknowledgment. A negative
/// acknowledgment has the last reply sent again, if there is one. A command
/// is acknowledged and replied to, and may change the execution mode; a
/// malformed command is acknowledged and replied to with an error.
pub open spec fn react(session: SessionView, arrival: ArrivalView) -> (SessionView, Reaction) {
    match arrival {
        ArrivalView::Idle => (session, Reaction::Silent),
        ArrivalView::Ack => (session, Reaction::Silent),
        ArrivalView::Damaged(_) => (session, Reaction::Nack),
        ArrivalView::Nack => (
            session,
            if session.last_reply is Some {
                Reaction::Retransmit
            } else {
                Reaction::Silent
            },
        ),
        ArrivalView::Request(command) => (
            SessionView {
                state: state_after(session.state, command),
                last_reply: Some(reply_to(command)),
            },
            Reaction::Reply,
        ),
        ArrivalView::Malformed(_) => (
            SessionView { state: session.state, last_reply: Some(error_reply()) },
            Reaction::Reply,
        ),
    }
}

/// The arrival that the bytes taken in by one reception are: nothing where
/// none were taken.
pub open spec fn arrival_of_received(unit: Seq<u8>) -> ArrivalView {
    if unit.len() == 0 {
        ArrivalView::Idle
    } else {
        arrival_of_wire(unit)
    }
}

/// The bytes that a reaction puts on the wire, given the session as it is
/// after the arrival.
pub open spec fn transmitted(after: SessionView, reaction: Reaction) -> Seq<u8> {
    let last_frame = frame(
        match after.last_reply {
            Some(payload) => payload,
            None => Seq::empty(),
        },
    );
    match reaction {
        Reaction::Silent => Seq::empty(),
        Reaction::Nack => seq![MINUS],
        Reaction::Retransmit => if after.last_reply is Some {
            last_frame
        } else {
            Seq::empty()
        },
        Reaction::Reply => seq![PLUS] + last_frame,
    }
}

/// How a session in `state` waits for the debugger: blocking while paused,
/// polling while the target runs, not at all once it is over.
pub open spec fn receive_mode_of(state: ExecState) -> Option<ReceiveMode> {
    match state {
        ExecState::Paused => Some(ReceiveMode::Blocking),
        ExecState::Running => Some(ReceiveMode::Polling),
        ExecState::Exited => None,
    }
}

/// The session after the step that a cycle made, if it made one: a target
/// that halted pauses the session.
pub open spec fn settle(session: SessionView, stepped: Option<TargetState>) -> SessionView {
    match stepped {
        Some(TargetState::Halted) => SessionView {
            state: ExecState::Paused,
            last_reply: session.last_reply,
        },
        _ => session,
    }
}

/// An acknowledgment never changes the session and never draws a response,
/// however often it arrives.
pub proof fn lemma_ack_changes_nothing(session: SessionView)
    ensures
        arrival_of_wire(seq![PLUS]) == ArrivalView::Ack,
        react(session, ArrivalView::Ack) == (session, Reaction::Silent),
        transmitted(session, Reaction::Silent) == Seq::<u8>::empty(),
{
}

/// A frame whose checksum was damaged draws a negative acknowledgment and
/// leaves the session as it was. (A checksum digit replaced by the same digit
/// in the other case is no damage.)
pub proof fn lemma_damaged_checksum_nacked(session: SessionView, payload: Seq<u8>, k: int, b: u8)
    requires
        frame(payload).len() - 2 <= k < frame(payload).len(),
        digit_value(b) != digit_value(frame(payload)[k]),
    ensures
        arrival_of_wire(frame(payload).update(k, b)) is Damaged,
        react(session, arrival_of_wire(frame(payload).update(k, b))) == (session, Reaction::Nack),
        transmitted(session, Reaction::Nack) == seq![MINUS],
{
    lemma_damaged_checksum_rejected(payload, k, b);
}

/// An intact frame arrives as what its payload parses to.
pub proof fn lemma_frame_arrives(payload: Seq<u8>)
    ensures
        arrival_of_wire(frame(payload)) == arrival_of_packet(PacketView::Command(payload)),
{
    lemma_frame_round_trip(payload);
}

/// A paused session that receives anything but a continue or a step command
/// is not running afterwards, so that the target is not stepped.
pub proof fn lemma_paused_without_resume_does_not_run(session: SessionView, arrival: ArrivalView)
    requires
        session.state == ExecState::Paused,
        !(arrival matches ArrivalView::Request(CommandView::c(_))),
        !(arrival matches ArrivalView::Request(CommandView::s(_))),
    ensures
        react(session, arrival).0.state != ExecState::Running,
{
}

/// A session runs after an arrival exactly if it ran before and was not
/// ended, or the arrival is a continue or a step command to a session that
/// is not over.
pub proof fn lemma_runs_after(session: SessionView, arrival: ArrivalView)
    ensures
        react(session, arrival).0.state == ExecState::Running <==> {
            ||| session.state == ExecState::Running && !(arrival matches ArrivalView::Request(
                CommandView::D(_),
            )) && !(arrival matches ArrivalView::Request(CommandView::k))
            ||| session.state == ExecState::Paused && (arrival matches ArrivalView::Request(
                CommandView::c(_),
            ) || arrival matches ArrivalView::Request(CommandView::s(_)))
        },
{
}

/// A running session polls, so that a cycle never waits for the debugger; and
/// a command that is pending when a cycle begins is answered in that cycle,
/// whatever the cycle's step reports afterwards: it is never put off until
/// the target halts.
pub proof fn lemma_running_command_answered_in_cycle(
    session: SessionView,
    command: CommandView,
    stepped: Option<TargetState>,
)
    requires
        session.state == ExecState::Running,
    ensures
        receive_mode_of(session.state) == Some(ReceiveMode::Polling),
        react(session, ArrivalView::Request(command)).1 == Reaction::Reply,
        transmitted(react(session, ArrivalView::Request(command)).0, Reaction::Reply) == seq![PLUS]
            + frame(reply_to(command)),
        settle(react(session, ArrivalView::Request(command)).0, stepped).last_reply == Some(
            reply_to(command),
        ),
{
}

impl Arrival {
    /// Classifies a decoded packet, parsing the payload of a command.
    pub fn from_packet(packet: &Packet) -> (arrival: Arrival)
        ensures
            arrival@ == arrival_of_packet(packet@),
    {
        match packet {
            Packet::Ack => Arrival::Ack,
            Packet::Nack => Arrival::Nack,
            Packet::Command(payload) => match Command::from_payload(payload.as_slice()) {
                Ok(command) => Arrival::Request(command),
                Err(e) => Arrival::Malformed(e),
            },
        }
    }

    /// Classifies the bytes of one received unit.
    pub fn from_wire(buf: &[u8]) -> (arrival: Arrival)
        ensures
            arrival@ == arrival_of_wire(buf@),
    {
        match Packet::from_buf(buf) {
            Ok(packet) => Arrival::from_packet(&packet),
            Err(e) => Arrival::Damaged(e),
        }
    }
}

/// Builds the payload of the reply to a command.
pub fn reply(command: &Command) -> (payload: Vec<u8>)
    ensures
        payload@ == reply_to(command@),
{
    let mut payload: Vec<u8> = Vec::new();
    match command {
        Command::H(_) => {
            payload.push(UPPER_O);
            payload.push(UPPER_K);
        },
        Command::D(_) => {
            payload.push(UPPER_O);
            payload.push(UPPER_K);
        },
        _ => {},
    }
    proof {
        assert(payload@ =~= reply_to(command@));
    }
    payload
}

/// Says which execution mode follows a command.
pub fn next_state(state: ExecState, command: &Command) -> (next: ExecState)
    ensures
        next == state_after(state, command@),
{
    match state {
        ExecState::Exited => ExecState::Exited,
        _ => match command {
            Command::c(_) => ExecState::Running,
            Command::s(_) => ExecState::Running,
            Command::D(_) => ExecState::Exited,
            Command::k => ExecState::Exited,
            _ => state,
        },
    }
}

impl Session {
    /// A session before anything arrived.
    pub fn new() -> (session: Session)
        ensures
            session@ == initial(),
    {
        Session { state: ExecState::Paused, last_reply: None }
    }

    /// The execution mode.
    pub fn exec_state(&self) -> (state: ExecState)
        ensures
            state == self@.state,
    {
        self.state
    }

    /// The payload of the reply sent last, if one was sent.
    pub fn last_reply(&self) -> (payload: Option<&[u8]>)
        ensures
            match payload {
                Some(bytes) => self@.last_reply == Some(bytes@),
                None => self@.last_reply is None,
            },
    {
        match &self.last_reply {
            Some(payload) => Some(payload.as_slice()),
            None => None,
        }
    }

    /// How to wait for the debugger now.
    pub fn receive_mode(&self) -> (mode: Option<ReceiveMode>)
        ensures
            mode == receive_mode_of(self@.state),
    {
        match self.state {
            ExecState::Paused => Some(ReceiveMode::Blocking),
            ExecState::Running => Some(ReceiveMode::Polling),
            ExecState::Exited => None,
        }
    }

    /// Takes in an arrival and says how to react to it.
    pub fn dispatch(&mut self, arrival: &Arrival) -> (reaction: Reaction)
        ensures
            final(self)@ == react(old(self)@, arrival@).0,
            reaction == react(old(self)@, arrival@).1,
    {
        match arrival {
            Arrival::Idle => Reaction::Silent,
            Arrival::Ack => Reaction::Silent,
            Arrival::Damaged(_) => Reaction::Nack,
            Arrival::Nack => {
                if self.last_reply.is_some() {
                    Reaction::Retransmit
                } else {
                    Reaction::Silent
                }
            },
            Arrival::Request(command) => {
                self.state = next_state(self.state, command);
                self.last_reply = Some(reply(command));
                Reaction::Reply
            },
            Arrival::Malformed(_) => {
                let mut payload: Vec<u8> = Vec::new();
                payload.push(UPPER_E);
                payload.push(DIGIT_0);
                payload.push(DIGIT_1);
                proof {
                    assert(payload@ =~= error_reply());
                }
                self.last_reply = Some(payload);
                Reaction::Reply
            },
        }
    }

    /// Takes in what a step of the target reported.
    pub fn step_taken(&mut self, reported: TargetState)
        ensures
            final(self)@ == settle(old(self)@, Some(reported)),
    {
        match reported {
            TargetState::Halted => {
                self.state = ExecState::Paused;
            },
            TargetState::Running => {},
        }
    }
}

} // verus!
