//! The session engine: a [`Session`] joined to a transport and a target.

use vstd::prelude::*;

use crate::connection::Connection;
use crate::error::Error;
use crate::history::{
    advance, after_cycles, answer, arrival_of_turn, blank, lemma_one_more_turn,
    lemma_stopped_reads, lemma_turn_reads, made_by_cycles, outcome, possible, reads, stopped,
    turn_of, uninterrupted, verdict, Mark, Turn,
};
use crate::protocol::ascii::{MINUS, PLUS};
use crate::protocol::commands::Command;
use crate::protocol::packet::{
    decode, frame, lemma_frame_not_empty, Packet, PacketError, PacketView,
};
use crate::protocol::response_writer::ResponseWriter;
use crate::protocol::wire::{
    is_unit, lemma_cut_short_after_byte, lemma_cut_short_at_flush, lemma_cut_short_at_once,
    lemma_cut_short_sent, Wire,
};
use crate::session::{
    react, receive_mode_of, transmitted, Arrival, ArrivalView, ExecState, Reaction, Session,
    SessionView,
};
use crate::target::{MemoryAccess, Steps, Target, TargetState};

verus! {

/// What one cycle of the engine did.
#[derive(Debug)]
pub struct Cycle {
    /// What the cycle's reception brought, and so what was reacted to.
    pub arrival: Arrival,
    /// What the target reported, if the cycle stepped it.
    pub stepped: Option<TargetState>,
    /// The memory accesses of the cycle's step, in the order they occurred.
    pub accesses: Vec<MemoryAccess>,
}

/// The state of a remote debugging session, including the transport.
///
/// Beside the session it holds the records that its contracts speak of: the
/// wire keeps the record of what was asked of the transport, the steps that
/// of what was asked of the target, and the history holds, for each cycle
/// that succeeded, what came from outside in it.
pub struct GdbStub<T: Target, C: Connection> {
    wire: Wire<C>,
    session: Session,
    packet_buffer: Vec<u8>,
    steps: Steps<T>,
    history: Ghost<Seq<Turn>>,
}

impl<T: Target, C: Connection> GdbStub<T, C> {
    /// The session's state.
    pub closed spec fn session(&self) -> SessionView {
        self.session@
    }

    /// The transport, with the record of what was asked of it.
    pub closed spec fn wire(&self) -> Wire<C> {
        self.wire
    }

    /// The record of what was asked of the target.
    pub closed spec fn steps(&self) -> Steps<T> {
        self.steps
    }

    /// What came from outside in each cycle that succeeded, oldest first.
    pub closed spec fn history(&self) -> Seq<Turn> {
        self.history@
    }

    /// The transport.
    pub open spec fn connection(&self) -> C {
        self.wire().connection()
    }

    /// What the engine's records hold.
    pub open spec fn mark(&self) -> Mark {
        Mark {
            session: self.session(),
            offered: self.wire().offered(),
            sent: self.wire().sent(),
            flushes: self.wire().flushes(),
            received: self.wire().received(),
            waits: self.wire().waits(),
            polls: self.wire().polls(),
            reports: self.steps().reports(),
            steps: self.steps().asked(),
        }
    }

    /// The bytes received since the engine was as `before`.
    pub open spec fn taken_since(&self, before: &Self) -> Seq<u8> {
        self.wire().taken_since(&before.wire())
    }

    /// What came from outside in the cycles that succeeded since the engine
    /// was as `before`.
    pub open spec fn turns_since(&self, before: &Self) -> Seq<Turn> {
        self.history().skip(before.history().len() as int)
    }

    /// The engine answered `r` to what was asked of it since it was as
    /// `before`: a failure of the transport or of the target is the one that
    /// the transport or the target answered with last, and the only one since
    /// then; and without such a failure neither of them failed.
    pub open spec fn answered<V>(
        &self,
        before: &Self,
        r: Result<V, Error<T::Error, C::Error>>,
    ) -> bool {
        &&& self.wire().failures() == match r {
            Err(Error::Connection(e)) => before.wire().failures().push(e),
            _ => before.wire().failures(),
        }
        &&& self.steps().failures() == match r {
            Err(Error::Target(e)) => before.steps().failures().push(e),
            _ => before.steps().failures(),
        }
    }

    /// A session over `conn`: paused, with nothing asked of anyone yet.
    pub fn new(conn: C) -> (stub: GdbStub<T, C>)
        ensures
            stub.connection() == conn,
            stub.mark() == blank(),
            stub.history() == Seq::<Turn>::empty(),
            stub.wire().failures() == Seq::<C::Error>::empty(),
            stub.steps().failures() == Seq::<T::Error>::empty(),
    {
        GdbStub {
            wire: Wire::new(conn),
            session: Session::new(),
            packet_buffer: Vec::new(),
            steps: Steps::new(),
            history: Ghost(Seq::empty()),
        }
    }

    /// The execution mode.
    pub fn exec_state(&self) -> (state: ExecState)
        ensures
            state == self.session().state,
    {
        self.session.exec_state()
    }

    /// Looks at the transport.
    pub fn connection_ref(&self) -> (conn: &C)
        ensures
            *conn == self.connection(),
    {
        self.wire.inner()
    }

    /// Ends the session's hold on the transport and hands it back.
    pub fn into_connection(self) -> (conn: C)
        ensures
            conn == self.connection(),
    {
        self.wire.into_inner()
    }

    /// Puts a reaction on the wire: the bytes that it stands for, and a flush
    /// after them. Where there is nothing to put, nothing is asked of the
    /// transport.
    fn perform(&mut self, reaction: Reaction) -> (r: Result<(), C::Error>)
        ensures
            final(self).session() == old(self).session(),
            final(self).steps() == old(self).steps(),
            final(self).history() == old(self).history(),
            final(self).wire().answered(&old(self).wire(), r),
            final(self).wire().sent_once(
                &old(self).wire(),
                transmitted(old(self).session(), reaction),
                r is Err,
            ),
            transmitted(old(self).session(), reaction).len() == 0 ==> r is Ok,
    {
        let ghost sent = self.wire.sent();
        let ghost offered = self.wire.offered();
        let ghost bytes = transmitted(self.session@, reaction);
        proof {
            lemma_frame_not_empty(
                match self.session@.last_reply {
                    Some(payload) => payload,
                    None => Seq::empty(),
                },
            );
            assert((sent + bytes).len() == sent.len() + bytes.len());
        }
        match reaction {
            Reaction::Silent => {
                proof {
                    assert(sent + bytes =~= sent);
                    assert(offered + bytes =~= offered);
                }
                Ok(())
            },
            Reaction::Nack => match self.wire.write(MINUS) {
                Ok(()) => {
                    let r = self.wire.flush();
                    proof {
                        assert(sent + bytes =~= sent.push(MINUS));
                        assert(offered + bytes =~= offered.push(MINUS));
                        lemma_cut_short_at_flush(offered, sent, bytes);
                    }
                    r
                },
                Err(e) => {
                    proof {
                        lemma_cut_short_at_once(offered, sent, bytes);
                    }
                    Err(e)
                },
            },
            Reaction::Retransmit => match self.session.last_reply() {
                Some(payload) => self.wire.write_response(payload),
                None => {
                    proof {
                        assert(sent + bytes =~= sent);
                        assert(offered + bytes =~= offered);
                    }
                    Ok(())
                },
            },
            Reaction::Reply => match self.wire.write(PLUS) {
                Ok(()) => {
                    let mut res = ResponseWriter::new(&mut self.wire);
                    match self.session.last_reply() {
                        Some(payload) => {
                            res.write_bytes(payload);
                        },
                        None => {},
                    }
                    let ghost payload = res.payload@;
                    let r = res.flush();
                    proof {
                        assert(Seq::<u8>::empty() + payload =~= payload);
                        assert(bytes =~= seq![PLUS] + frame(payload));
                        assert(sent.push(PLUS) + frame(payload) =~= sent + bytes);
                        assert(offered.push(PLUS) + frame(payload) =~= offered + bytes);
                        if r is Err {
                            lemma_cut_short_after_byte(
                                self.wire.offered(),
                                self.wire.sent(),
                                offered,
                                sent,
                                PLUS,
                                frame(payload),
                            );
                            lemma_cut_short_sent(
                                self.wire.offered(),
                                self.wire.sent(),
                                offered.push(PLUS),
                                sent.push(PLUS),
                                frame(payload),
                            );
                        }
                    }
                    r
                },
                Err(e) => {
                    proof {
                        lemma_cut_short_at_once(offered, sent, bytes);
                    }
                    Err(e)
                },
            },
        }
    }

    /// Acknowledges a command, takes it into the session and replies to it.
    ///
    /// The session is updated whether or not the transport then fails. What
    /// goes out is the acknowledgment and the frame of the reply, with a
    /// flush after them; where the transport fails, its failure is returned
    /// and the sending was cut short, with nothing offered after the failure.
    /// Nothing is read, and the target is left alone.
    pub fn handle_command(&mut self, target: &mut T, command: Command) -> (r: Result<
        (),
        Error<T::Error, C::Error>,
    >)
        ensures
            final(self).session() == react(old(self).session(), ArrivalView::Request(command@)).0,
            final(self).steps() == old(self).steps(),
            final(self).history() == old(self).history(),
            *final(target) == *old(target),
            final(self).answered(old(self), r),
            final(self).wire().sent_once(
                &old(self).wire(),
                transmitted(final(self).session(), Reaction::Reply),
                r is Err,
            ),
            r matches Err(e) ==> e is Connection,
    {
        let arrival = Arrival::Request(command);
        let reaction = self.session.dispatch(&arrival);
        match self.perform(reaction) {
            Ok(()) => Ok(()),
            Err(e) => Err(Error::Connection(e)),
        }
    }

    /// Receives one packet into `packet_buffer`, waiting for it if the session
    /// is paused and taking it only if it is pending if the target runs. A
    /// session that is over receives nothing.
    ///
    /// One unit is taken from the transport and no byte more. The buffer is
    /// left as it is until a first byte has arrived, and then holds exactly
    /// the bytes taken. A failure of the transport is returned as it is, and
    /// nothing is read after it. The session itself is left as it is, and
    /// nothing is sent: what to do about the packet, or about bytes that are
    /// no packet, is the caller's to decide.
    pub fn recv_packet(&mut self, packet_buffer: &mut Vec<u8>) -> (r: Result<
        Option<Packet>,
        Error<T::Error, C::Error>,
    >)
        ensures
            final(self).session() == old(self).session(),
            final(self).steps() == old(self).steps(),
            final(self).history() == old(self).history(),
            final(self).wire().wrote_nothing_since(&old(self).wire()),
            final(self).answered(old(self), r),
            final(packet_buffer)@ == if final(self).taken_since(old(self)).len() == 0 {
                old(packet_buffer)@
            } else {
                final(self).taken_since(old(self))
            },
            match receive_mode_of(old(self).session().state) {
                None => final(self).wire().read_nothing_since(&old(self).wire()),
                Some(mode) => final(self).wire().received_once(
                    &old(self).wire(),
                    mode,
                    r matches Err(Error::Connection(_)),
                ),
            },
            match r {
                Ok(None) => final(self).taken_since(old(self)).len() == 0,
                Ok(Some(packet)) => {
                    &&& final(self).taken_since(old(self)).len() > 0
                    &&& is_unit(final(packet_buffer)@)
                    &&& decode(final(packet_buffer)@) == Ok::<PacketView, PacketError>(packet@)
                },
                Err(Error::PacketParse(text)) => {
                    &&& final(self).taken_since(old(self)).len() > 0
                    &&& is_unit(final(packet_buffer)@)
                    &&& decode(final(packet_buffer)@) matches Err(e) && text@ == e.message()
                },
                Err(Error::Connection(_)) => !is_unit(final(self).taken_since(old(self))),
                Err(Error::Target(_)) => false,
            },
    {
        let mode = match self.session.receive_mode() {
            Some(mode) => mode,
            None => {
                proof {
                    assert(self.wire.received().skip(self.wire.received().len() as int)
                        =~= Seq::<u8>::empty());
                }
                return Ok(None);
            },
        };
        match self.wire.receive_packet(mode, packet_buffer) {
            Ok(None) => Ok(None),
            Ok(Some(Ok(packet))) => Ok(Some(packet)),
            Ok(Some(Err(e))) => Err(Error::PacketParse(e.describe())),
            Err(e) => Err(Error::Connection(e)),
        }
    }

    /// Runs one cycle: receives what the debugger sent, if anything, reacts
    /// to it, and then steps the target once if the session is running.
    ///
    /// Reception comes first in every cycle, so that a command is never kept
    /// waiting by a running target for longer than one step; and the target
    /// is stepped exactly if the session is running once the arrival has been
    /// reacted to. A cycle of a session that is over does nothing.
    ///
    /// A cycle that succeeds is fixed by the bytes that it took and by what
    /// the target reported: they are entered in the history as one turn, and
    /// the records are advanced by it. A cycle that fails returns the failure
    /// of the transport or of the target as it is, enters no turn, and asks
    /// nothing of anyone after the failure.
    pub fn cycle(&mut self, target: &mut T) -> (r: Result<Cycle, Error<T::Error, C::Error>>)
        ensures
            final(self).answered(old(self), r),
            match r {
                Ok(done) => {
                    let turn = turn_of(final(self).taken_since(old(self)), done.stepped);
                    &&& done.arrival@ == arrival_of_turn(turn)
                    &&& done.stepped is None ==> done.accesses@.len() == 0
                    &&& if old(self).session().state == ExecState::Exited {
                        &&& done.stepped is None
                        &&& final(self).mark() == old(self).mark()
                        &&& final(self).history() == old(self).history()
                    } else {
                        &&& possible(old(self).session(), turn)
                        &&& final(self).mark() == advance(old(self).mark(), turn)
                        &&& final(self).history() == old(self).history().push(turn)
                    }
                },
                Err(e) => {
                    &&& !(e is PacketParse)
                    &&& old(self).session().state != ExecState::Exited
                    &&& final(self).history() == old(self).history()
                    &&& stopped(old(self).mark(), final(self).mark(), e is Target)
                },
            },
    {
        let ghost wire_before = self.wire;
        let ghost before = self.mark();
        proof {
            assert(wire_before.received().skip(wire_before.received().len() as int) =~= Seq::<
                u8,
            >::empty());
        }
        let mode = match self.session.receive_mode() {
            Some(mode) => mode,
            None => {
                return Ok(Cycle { arrival: Arrival::Idle, stepped: None, accesses: Vec::new() });
            },
        };
        let received = self.wire.receive_packet(mode, &mut self.packet_buffer);
        let ghost unit = self.wire.taken_since(&wire_before);
        let arrival = match received {
            Ok(None) => Arrival::Idle,
            Ok(Some(Ok(packet))) => Arrival::from_packet(&packet),
            Ok(Some(Err(e))) => Arrival::Damaged(e),
            Err(e) => {
                proof {
                    assert(self.mark().received =~= before.received + unit);
                }
                return Err(Error::Connection(e));
            },
        };
        let ghost bytes = answer(before.session, unit);
        let ghost wire_received = self.wire;
        let reaction = self.session.dispatch(&arrival);
        match self.perform(reaction) {
            Ok(()) => {},
            Err(e) => {
                proof {
                    lemma_cut_short_sent(
                        self.wire.offered(),
                        self.wire.sent(),
                        wire_received.offered(),
                        wire_received.sent(),
                        bytes,
                    );
                }
                return Err(Error::Connection(e));
            },
        }
        let mut accesses: Vec<MemoryAccess> = Vec::new();
        let stepped = match self.session.exec_state() {
            ExecState::Running => match self.steps.step(target, &mut accesses) {
                Ok(reported) => {
                    self.session.step_taken(reported);
                    Some(reported)
                },
                Err(e) => {
                    return Err(Error::Target(e));
                },
            },
            _ => None,
        };
        self.history = Ghost(self.history@.push(turn_of(unit, stepped)));
        Ok(Cycle { arrival, stepped, accesses })
    }

    /// Says whether a run ends after the cycle `done`, and with what: with
    /// `Halted` if the target halted in it, with `Running` if it has left the
    /// session over, and not at all otherwise.
    pub fn verdict(&self, done: &Cycle) -> (result: Option<TargetState>)
        ensures
            result == verdict(self.session(), done.stepped),
    {
        match done.stepped {
            Some(TargetState::Halted) => Some(TargetState::Halted),
            _ => match self.session.exec_state() {
                ExecState::Exited => Some(TargetState::Running),
                _ => None,
            },
        }
    }

    /// Runs cycles until the target halts or the session is over, but no more
    /// than `cycles` of them.
    ///
    /// `Some(Halted)` says that the target halted, which pauses the session;
    /// `Some(Running)` that the session is over; `None` that `cycles` cycles
    /// were run and neither happened. The run ends with the first cycle in
    /// which the target halts or which ends the session, and with the first
    /// that fails, whose failure is returned.
    ///
    /// The run is fixed by what came from outside in its cycles: where it
    /// succeeds, the records are those that its turns lead to and the result
    /// is their outcome; where it fails, the cycles before the failing one
    /// succeeded and the failing one left off where it failed.
    pub fn run_for(&mut self, target: &mut T, cycles: u64) -> (r: Result<
        Option<TargetState>,
        Error<T::Error, C::Error>,
    >)
        ensures
            final(self).answered(old(self), r),
            final(self).history() == old(self).history() + final(self).turns_since(old(self)),
            final(self).turns_since(old(self)).len() <= cycles,
            made_by_cycles(old(self).mark(), final(self).turns_since(old(self))),
            final(self).turns_since(old(self)).len() > 0 ==> uninterrupted(
                old(self).mark(),
                final(self).turns_since(old(self)).drop_last(),
            ),
            reads(final(self).mark()) >= reads(old(self).mark()) + final(self).turns_since(
                old(self),
            ).len() + (if r is Err {
                1nat
            } else {
                0nat
            }),
            match r {
                Ok(result) => {
                    &&& final(self).mark() == after_cycles(
                        old(self).mark(),
                        final(self).turns_since(old(self)),
                    )
                    &&& result == outcome(old(self).mark(), final(self).turns_since(old(self)))
                    &&& result is None ==> final(self).turns_since(old(self)).len() == cycles
                },
                Err(e) => {
                    &&& !(e is PacketParse)
                    &&& final(self).turns_since(old(self)).len() < cycles
                    &&& uninterrupted(old(self).mark(), final(self).turns_since(old(self)))
                    &&& stopped(
                        after_cycles(old(self).mark(), final(self).turns_since(old(self))),
                        final(self).mark(),
                        e is Target,
                    )
                },
            },
    {
        let ghost start = self.mark();
        let ghost history = self.history@;
        let ghost mut turns: Seq<Turn> = Seq::empty();
        proof {
            assert(history + turns =~= history);
            assert(history.skip(history.len() as int) =~= turns);
        }
        match self.session.exec_state() {
            ExecState::Exited => {
                return Ok(Some(TargetState::Running));
            },
            _ => {},
        }
        let mut left: u64 = cycles;
        while left > 0
            invariant
                left <= cycles,
                start == old(self).mark(),
                history == old(self).history(),
                turns.len() == cycles - left,
                self.history() == history + turns,
                self.turns_since(old(self)) == turns,
                self.mark() == after_cycles(start, turns),
                self.session().state != ExecState::Exited,
                made_by_cycles(start, turns),
                uninterrupted(start, turns),
                self.wire().failures() == old(self).wire().failures(),
                self.steps().failures() == old(self).steps().failures(),
                reads(self.mark()) >= reads(start) + turns.len(),
            decreases left,
        {
            let ghost before = self.mark();
            let ghost taken_before = self.wire().received();
            let outcome = self.cycle(target);
            match outcome {
                Ok(done) => {
                    let ghost turn = turn_of(
                        self.wire().received().skip(taken_before.len() as int),
                        done.stepped,
                    );
                    proof {
                        lemma_one_more_turn(start, turns, turn);
                        lemma_turn_reads(before, turn);
                        assert(history + turns.push(turn) =~= (history + turns).push(turn));
                        assert((history + turns.push(turn)).skip(history.len() as int)
                            =~= turns.push(turn));
                        assert(turns.push(turn).drop_last() =~= turns);
                        turns = turns.push(turn);
                    }
                    match self.verdict(&done) {
                        Some(result) => {
                            return Ok(Some(result));
                        },
                        None => {},
                    }
                },
                Err(e) => {
                    proof {
                        lemma_stopped_reads(before, self.mark(), e is Target);
                    }
                    return Err(e);
                },
            }
            left -= 1;
        }
        Ok(None)
    }

    /// Runs the session: cycle after cycle, with a check for commands between
    /// any two steps of the target.
    ///
    /// Returns `Halted` once the target halts, which pauses the session, and
    /// `Running` once the session is over. The first failure of the transport
    /// or of the target ends the run and is returned. Bytes that are no
    /// packet do not end it: they are answered with a negative
    /// acknowledgment. A run is cut off after `u64::MAX` cycles, with
    /// `Running` for a target that has not halted.
    ///
    /// Like [`GdbStub::run_for`], the run is fixed by what came from outside
    /// in its cycles.
    pub fn run(&mut self, target: &mut T) -> (r: Result<TargetState, Error<T::Error, C::Error>>)
        ensures
            final(self).answered(old(self), r),
            final(self).history() == old(self).history() + final(self).turns_since(old(self)),
            made_by_cycles(old(self).mark(), final(self).turns_since(old(self))),
            final(self).turns_since(old(self)).len() > 0 ==> uninterrupted(
                old(self).mark(),
                final(self).turns_since(old(self)).drop_last(),
            ),
            reads(final(self).mark()) >= reads(old(self).mark()) + final(self).turns_since(
                old(self),
            ).len() + (if r is Err {
                1nat
            } else {
                0nat
            }),
            match r {
                Ok(state) => {
                    &&& final(self).mark() == after_cycles(
                        old(self).mark(),
                        final(self).turns_since(old(self)),
                    )
                    &&& match outcome(old(self).mark(), final(self).turns_since(old(self))) {
                        Some(result) => state == result,
                        None => state == TargetState::Running && final(self).turns_since(
                            old(self),
                        ).len() == u64::MAX,
                    }
                },
                Err(e) => {
                    &&& !(e is PacketParse)
                    &&& uninterrupted(old(self).mark(), final(self).turns_since(old(self)))
                    &&& stopped(
                        after_cycles(old(self).mark(), final(self).turns_since(old(self))),
                        final(self).mark(),
                        e is Target,
                    )
                },
            },
    {
        match self.run_for(target, u64::MAX) {
            Ok(Some(state)) => Ok(state),
            Ok(None) => Ok(TargetState::Running),
            Err(e) => Err(e),
        }
    }
}

} // verus!
