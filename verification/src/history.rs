//! What the cycles of a session amount to.
//!
//! A cycle that succeeds is fixed by two things that come from outside: the
//! bytes it took from the transport and what the target reported, if it was
//! stepped. This module says, in the terms of the records that the engine
//! keeps, what one such cycle does, what a run of them does, and what a cycle
//! leaves behind that failed.

use vstd::prelude::*;

use crate::connection::ReceiveMode;
use crate::protocol::ascii::{MINUS, PLUS};
use crate::protocol::commands::{Command, CommandView, ParseError};
use crate::protocol::hex::digit_value;
use crate::protocol::packet::{frame, lemma_frame_not_empty};
use crate::protocol::wire::{cut_short, flushes_owed, is_unit, polls_for, waits_for};
use crate::session::{
    arrival_of_received, initial, lemma_ack_changes_nothing, lemma_damaged_checksum_nacked,
    lemma_frame_arrives, react, receive_mode_of, reply_to, settle, transmitted, ArrivalView,
    ExecState, SessionView,
};
use crate::target::TargetState;

verus! {

/// What came from outside in one cycle that succeeded.
pub struct Turn {
    /// The bytes that the cycle took from the transport; none where the
    /// cycle polled and nothing was pending.
    pub unit: Seq<u8>,
    /// What the target reported, if the cycle stepped it.
    pub stepped: Option<TargetState>,
}

/// What the engine's records hold at one moment.
pub struct Mark {
    /// The session.
    pub session: SessionView,
    /// The bytes handed to the transport.
    pub offered: Seq<u8>,
    /// The bytes that the transport accepted.
    pub sent: Seq<u8>,
    /// How often the transport was asked to flush.
    pub flushes: nat,
    /// The bytes that the transport delivered.
    pub received: Seq<u8>,
    /// How often the transport was waited on.
    pub waits: nat,
    /// How often the transport was polled.
    pub polls: nat,
    /// The states that the target reported.
    pub reports: Seq<TargetState>,
    /// How often the target was asked for a step.
    pub steps: nat,
}

/// The records of an engine of which nothing was asked yet.
pub open spec fn blank() -> Mark {
    Mark {
        session: initial(),
        offered: Seq::empty(),
        sent: Seq::empty(),
        flushes: 0,
        received: Seq::empty(),
        waits: 0,
        polls: 0,
        reports: Seq::empty(),
        steps: 0,
    }
}

/// The turn that took `unit` and was reported `stepped`.
pub open spec fn turn_of(unit: Seq<u8>, stepped: Option<TargetState>) -> Turn {
    Turn { unit, stepped }
}

/// What the bytes of a turn arrive as.
pub open spec fn arrival_of_turn(turn: Turn) -> ArrivalView {
    arrival_of_received(turn.unit)
}

/// How a cycle receives that begins in `session`: polling if the target
/// runs, blocking otherwise.
pub open spec fn mode_in(session: SessionView) -> ReceiveMode {
    match receive_mode_of(session.state) {
        Some(mode) => mode,
        None => ReceiveMode::Blocking,
    }
}

/// The session once it has reacted to the bytes of `unit`.
pub open spec fn reacted(session: SessionView, unit: Seq<u8>) -> SessionView {
    react(session, arrival_of_received(unit)).0
}

/// The bytes that answer the bytes of `unit`.
pub open spec fn answer(session: SessionView, unit: Seq<u8>) -> Seq<u8> {
    transmitted(
        react(session, arrival_of_received(unit)).0,
        react(session, arrival_of_received(unit)).1,
    )
}

/// Whether a cycle that begins in `session` can make `turn`: the session is
/// not over; what was taken is one unit, or nothing, which a paused session
/// does not settle for; and the target was stepped exactly if the session
/// runs once it has reacted.
pub open spec fn possible(session: SessionView, turn: Turn) -> bool {
    &&& session.state != ExecState::Exited
    &&& turn.unit.len() > 0 ==> is_unit(turn.unit)
    &&& session.state == ExecState::Paused ==> turn.unit.len() > 0
    &&& turn.stepped is Some <==> reacted(session, turn.unit).state == ExecState::Running
}

/// The records after a reception that took `unit`.
pub open spec fn after_reception(mark: Mark, unit: Seq<u8>, failed: bool) -> Mark {
    Mark {
        received: mark.received + unit,
        waits: mark.waits + waits_for(mode_in(mark.session), unit.len(), failed),
        polls: mark.polls + polls_for(mode_in(mark.session)),
        ..mark
    }
}

/// The records after the reaction to `unit` went out whole.
pub open spec fn after_reaction(mark: Mark, unit: Seq<u8>) -> Mark {
    let bytes = answer(mark.session, unit);
    let received = after_reception(mark, unit, false);
    Mark {
        session: reacted(mark.session, unit),
        offered: mark.offered + bytes,
        sent: mark.sent + bytes,
        flushes: mark.flushes + if bytes.len() > 0 {
            1nat
        } else {
            0nat
        },
        ..received
    }
}

/// The records after a cycle that made `turn`: the bytes of the unit are
/// received; the session has reacted to them, and the answer is sent and
/// flushed; and the report of the step, if there was one, is taken in.
pub open spec fn advance(mark: Mark, turn: Turn) -> Mark {
    let reaction = after_reaction(mark, turn.unit);
    Mark {
        session: settle(reaction.session, turn.stepped),
        reports: match turn.stepped {
            Some(state) => mark.reports.push(state),
            None => mark.reports,
        },
        steps: mark.steps + if turn.stepped is Some {
            1nat
        } else {
            0nat
        },
        ..reaction
    }
}

/// The records after cycles that made `turns`, one after the other.
pub open spec fn after_cycles(mark: Mark, turns: Seq<Turn>) -> Mark
    decreases turns.len(),
{
    if turns.len() == 0 {
        mark
    } else {
        advance(after_cycles(mark, turns.drop_last()), turns.last())
    }
}

/// Each of `turns` is one that a cycle can make in the session that the turns
/// before it lead to.
pub open spec fn made_by_cycles(mark: Mark, turns: Seq<Turn>) -> bool
    decreases turns.len(),
{
    turns.len() == 0 || (made_by_cycles(mark, turns.drop_last()) && possible(
        after_cycles(mark, turns.drop_last()).session,
        turns.last(),
    ))
}

/// None of `turns` ends the run: in none did the target halt, and none ended
/// the session.
pub open spec fn uninterrupted(mark: Mark, turns: Seq<Turn>) -> bool
    decreases turns.len(),
{
    turns.len() == 0 || (uninterrupted(mark, turns.drop_last()) && turns.last().stepped != Some(
        TargetState::Halted,
    ) && after_cycles(mark, turns).session.state != ExecState::Exited)
}

/// Whether a run ends once a cycle has left the session as `session` and the
/// target has reported `stepped` in it, and with what: with `Halted` if the
/// target halted, with `Running` if the session is over, and not at all
/// otherwise.
pub open spec fn verdict(session: SessionView, stepped: Option<TargetState>) -> Option<
    TargetState,
> {
    if stepped == Some(TargetState::Halted) {
        Some(TargetState::Halted)
    } else if session.state == ExecState::Exited {
        Some(TargetState::Running)
    } else {
        None
    }
}

/// What a run reports that made `turns`: the verdict on the last of them, or
/// on the session as it was where there is none.
pub open spec fn outcome(mark: Mark, turns: Seq<Turn>) -> Option<TargetState> {
    verdict(
        after_cycles(mark, turns).session,
        if turns.len() > 0 {
            turns.last().stepped
        } else {
            None
        },
    )
}

/// How often the transport was asked for a byte, waiting or polling.
pub open spec fn reads(mark: Mark) -> nat {
    mark.waits + mark.polls
}

/// What a cycle leaves behind that failed, begun at `before`.
///
/// Where the transport failed during reception, the bytes taken fall short
/// of a unit: they are received, and nothing else happened. Where it failed
/// later, a unit was received and the session reacted to it, but the sending
/// of the answer was cut short, and the target was not stepped. Where the
/// target failed, the answer went out whole and the one step was asked for
/// that failed; the session runs.
pub open spec fn stopped(before: Mark, after: Mark, in_target: bool) -> bool {
    let unit = after.received.skip(before.received.len() as int);
    let bytes = answer(before.session, unit);
    if !in_target && !is_unit(unit) {
        after == after_reception(before, unit, true)
    } else {
        &&& unit.len() > 0 ==> is_unit(unit)
        &&& before.session.state == ExecState::Paused ==> unit.len() > 0
        &&& if in_target {
            &&& after == Mark { steps: before.steps + 1, ..after_reaction(before, unit) }
            &&& after.session.state == ExecState::Running
        } else {
            &&& cut_short(after.offered, after.sent, before.offered, before.sent, bytes)
            &&& after == Mark {
                offered: after.offered,
                sent: after.sent,
                flushes: before.flushes + flushes_owed(after.sent, before.sent, bytes),
                ..after_reaction(before, unit)
            }
        }
    }
}

/// One more turn after `turns` advances the records that `turns` lead to.
pub proof fn lemma_one_more_turn(mark: Mark, turns: Seq<Turn>, turn: Turn)
    ensures
        after_cycles(mark, turns.push(turn)) == advance(after_cycles(mark, turns), turn),
        made_by_cycles(mark, turns.push(turn)) <==> made_by_cycles(mark, turns) && possible(
            after_cycles(mark, turns).session,
            turn,
        ),
        uninterrupted(mark, turns.push(turn)) <==> uninterrupted(mark, turns) && turn.stepped
            != Some(TargetState::Halted) && advance(after_cycles(mark, turns), turn).session.state
            != ExecState::Exited,
{
    assert(turns.push(turn).drop_last() =~= turns);
}

/// Every cycle asks the transport for a byte at least once: a turn that a
/// cycle can make adds to the waits or to the polls.
pub proof fn lemma_turn_reads(mark: Mark, turn: Turn)
    requires
        possible(mark.session, turn),
    ensures
        reads(advance(mark, turn)) >= reads(mark) + 1,
{
}

/// A cycle that failed asked the transport for a byte at least once, too.
pub proof fn lemma_stopped_reads(before: Mark, after: Mark, in_target: bool)
    requires
        before.session.state != ExecState::Exited,
        stopped(before, after, in_target),
    ensures
        reads(after) >= reads(before) + 1,
{
}

/// An acknowledgment draws no response and leaves the session alone: a cycle
/// that took a `+` sent nothing, and the session after it is as before it,
/// but for what the step of a running target reported.
pub proof fn lemma_turn_of_ack(mark: Mark, stepped: Option<TargetState>)
    ensures
        reacted(mark.session, seq![PLUS]) == mark.session,
        advance(mark, turn_of(seq![PLUS], stepped)).session == settle(mark.session, stepped),
        advance(mark, turn_of(seq![PLUS], stepped)).offered == mark.offered,
        advance(mark, turn_of(seq![PLUS], stepped)).sent == mark.sent,
        advance(mark, turn_of(seq![PLUS], stepped)).flushes == mark.flushes,
{
    lemma_ack_changes_nothing(mark.session);
    assert(mark.sent + Seq::<u8>::empty() =~= mark.sent);
    assert(mark.offered + Seq::<u8>::empty() =~= mark.offered);
}

/// A frame whose checksum was damaged draws a negative acknowledgment and
/// nothing else, and leaves the session alone. (A checksum digit replaced by
/// the same digit in the other case is no damage.)
pub proof fn lemma_turn_of_damaged_frame(
    mark: Mark,
    payload: Seq<u8>,
    k: int,
    b: u8,
    stepped: Option<TargetState>,
)
    requires
        frame(payload).len() - 2 <= k < frame(payload).len(),
        digit_value(b) != digit_value(frame(payload)[k]),
    ensures
        reacted(mark.session, frame(payload).update(k, b)) == mark.session,
        advance(mark, turn_of(frame(payload).update(k, b), stepped)).sent == mark.sent
            + seq![MINUS],
        advance(mark, turn_of(frame(payload).update(k, b), stepped)).flushes == mark.flushes + 1,
{
    lemma_damaged_checksum_nacked(mark.session, payload, k, b);
    lemma_frame_not_empty(payload);
}

/// The target is stepped in a cycle exactly if the session runs once it has
/// reacted to what arrived, and then once; so a paused session that receives
/// anything but a continue or a step command is not stepped.
pub proof fn lemma_turn_steps(mark: Mark, turn: Turn)
    requires
        possible(mark.session, turn),
    ensures
        turn.stepped is Some <==> reacted(mark.session, turn.unit).state == ExecState::Running,
        advance(mark, turn).steps == mark.steps + (if reacted(mark.session, turn.unit).state
            == ExecState::Running {
            1nat
        } else {
            0nat
        }),
        mark.session.state == ExecState::Paused && !(arrival_of_turn(turn) matches
            ArrivalView::Request(CommandView::c(_))) && !(arrival_of_turn(turn) matches
            ArrivalView::Request(CommandView::s(_))) ==> turn.stepped is None && advance(
            mark,
            turn,
        ).steps == mark.steps,
{
}

/// A command that is pending when a cycle of a running session begins is
/// answered in that cycle, whatever the step of the cycle reports: the cycle
/// polls for the first byte of the frame, waits for no byte but the rest of
/// it, sends the acknowledgment and the reply, and asks for one step at most.
pub proof fn lemma_running_turn_answers(
    mark: Mark,
    payload: Seq<u8>,
    command: CommandView,
    stepped: Option<TargetState>,
)
    requires
        mark.session.state == ExecState::Running,
        Command::of_payload(payload) == Ok::<CommandView, ParseError>(command),
    ensures
        advance(mark, turn_of(frame(payload), stepped)).sent == mark.sent + (seq![PLUS] + frame(
            reply_to(command),
        )),
        advance(mark, turn_of(frame(payload), stepped)).polls == mark.polls + 1,
        advance(mark, turn_of(frame(payload), stepped)).waits == mark.waits + frame(
            payload,
        ).len() - 1,
        advance(mark, turn_of(frame(payload), stepped)).steps <= mark.steps + 1,
{
    lemma_frame_arrives(payload);
    lemma_frame_not_empty(payload);
}

/// A session that is over makes no turn.
pub proof fn lemma_no_turn_when_over(mark: Mark, turns: Seq<Turn>)
    requires
        mark.session.state == ExecState::Exited,
        made_by_cycles(mark, turns),
    ensures
        turns.len() == 0,
    decreases turns.len(),
{
    if turns.len() > 0 {
        lemma_no_turn_when_over(mark, turns.drop_last());
    }
}

} // verus!
