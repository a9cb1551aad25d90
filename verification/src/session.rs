//! The session as a whole: the coordinator, the renderer, and the result
//! channel between them.
//!
//! The coordinator and the renderer run apart and meet only in the channel.
//! Lookups send their records into it, in the order in which they complete;
//! the renderer takes them out in that order. The channel counts as closed
//! once the coordinator has given up its own sender, which it does behind the
//! barrier, and a closed channel shows as such to the renderer once it is
//! empty.
//!
//! Nothing here is executed. This is the model that the two machines are
//! wired by, and the laws below are what holds of every session that is
//! wired so, whatever the order in which its parts take their turns.

use crate::coordinator::{
    lemma_channel_closes_behind_barrier, lemma_delivered_within_unstarred,
    lemma_starred_line_dispatches_nothing, lemma_step_keeps_wf, lines_of, unstarred_hops,
    CoordinatorView, EventView, Stage,
};
use crate::hop::is_starred;
use crate::record::{delivered, GeoRecordView, LookupOutcomeView};
use crate::renderer::{
    lemma_ends_only_while_awaiting_quit, lemma_step_keeps_points, Key, Phase, RendererView,
    SignalView,
};
use vstd::prelude::*;

verus! {

/// A session at one moment.
pub struct Session {
    pub coordinator: CoordinatorView,
    /// The records sent and not yet received, the oldest first.
    pub channel: Seq<GeoRecordView>,
    pub renderer: RendererView,
}

/// One turn of one part of the session.
pub enum Move {
    /// The input gives a line.
    Line(Seq<char>),
    /// The input gives a line that cannot be read as text.
    Unreadable,
    /// The input ends.
    InputEnded,
    /// A lookup that is in flight settles with this outcome.
    Settle(LookupOutcomeView),
    /// The renderer takes what the channel has for it.
    Receive,
    /// A key is pressed.
    Key(Key),
    /// The keyboard gives out.
    KeysEnded,
    /// The coordinator finds that the renderer has ended.
    Join,
}

impl Session {
    /// How many lookups are in flight: dispatched and not yet settled.
    pub open spec fn in_flight(self) -> int {
        self.coordinator.dispatched.len() - self.coordinator.settled
    }

    /// What holds of a session at every moment.
    pub open spec fn inv(self) -> bool {
        &&& self.coordinator.wf()
        &&& self.renderer.points.len() + self.channel.len() == self.coordinator.delivered
        &&& self.renderer.phase != Phase::Receiving ==> self.coordinator.channel_closed()
            && self.channel.len() == 0
        &&& self.coordinator.stage == Stage::Finished ==> self.renderer.phase == Phase::Terminated
    }
}

/// The session as it starts.
pub open spec fn initial() -> Session {
    Session {
        coordinator: crate::coordinator::initial(),
        channel: Seq::empty(),
        renderer: crate::renderer::initial(),
    }
}

/// What the move sends into the channel: the record of a lookup that was in
/// flight and settles well.
pub open spec fn sent_by(session: Session, step: Move) -> Option<GeoRecordView> {
    match step {
        Move::Settle(outcome) => if session.in_flight() > 0 {
            delivered(outcome)
        } else {
            None
        },
        _ => None,
    }
}

/// What the move reports to the coordinator, if anything. A lookup settles
/// only if one is in flight, and the renderer is joined only once it has
/// ended.
pub open spec fn event_of(session: Session, step: Move) -> Option<EventView> {
    match step {
        Move::Line(line) => Some(EventView::Line(line)),
        Move::Unreadable => Some(EventView::Unreadable),
        Move::InputEnded => Some(EventView::InputEnded),
        Move::Settle(outcome) => if session.in_flight() > 0 {
            Some(EventView::LookupSettled { delivered: delivered(outcome) is Some })
        } else {
            None
        },
        Move::Join => if session.renderer.phase == Phase::Terminated {
            Some(EventView::RendererExited)
        } else {
            None
        },
        _ => None,
    }
}

/// What the move reports to the renderer, if anything. A renderer that is
/// receiving gets the oldest record in the channel, or learns that the
/// channel is closed once it is closed and empty; otherwise it goes on
/// waiting. Keys are reported whenever they are pressed.
pub open spec fn signal_of(session: Session, step: Move) -> Option<SignalView> {
    match step {
        Move::Receive => if session.renderer.phase != Phase::Receiving {
            None
        } else if session.channel.len() > 0 {
            Some(SignalView::Record(session.channel[0]))
        } else if session.coordinator.channel_closed() {
            Some(SignalView::ChannelClosed)
        } else {
            None
        },
        Move::Key(key) => Some(SignalView::KeyPressed(key)),
        Move::KeysEnded => Some(SignalView::KeysEnded),
        _ => None,
    }
}

/// The session after the move.
pub open spec fn next(session: Session, step: Move) -> Session {
    Session {
        coordinator: match event_of(session, step) {
            Some(event) => crate::coordinator::next_state(session.coordinator, event),
            None => session.coordinator,
        },
        channel: match sent_by(session, step) {
            Some(record) => session.channel.push(record),
            None => match signal_of(session, step) {
                Some(SignalView::Record(_)) => session.channel.drop_first(),
                _ => session.channel,
            },
        },
        renderer: match signal_of(session, step) {
            Some(signal) => crate::renderer::next_state(session.renderer, signal),
            None => session.renderer,
        },
    }
}

/// The session after the moves of `trace`, in order, from its start.
pub open spec fn run(trace: Seq<Move>) -> Session
    decreases trace.len(),
{
    if trace.len() == 0 {
        initial()
    } else {
        next(run(trace.drop_last()), trace.last())
    }
}

/// What the coordinator was told in the course of `trace`, in order.
pub open spec fn events_of(trace: Seq<Move>) -> Seq<EventView>
    decreases trace.len(),
{
    if trace.len() == 0 {
        Seq::empty()
    } else {
        match event_of(run(trace.drop_last()), trace.last()) {
            Some(event) => events_of(trace.drop_last()).push(event),
            None => events_of(trace.drop_last()),
        }
    }
}

/// What the renderer was told in the course of `trace`, in order.
pub open spec fn signals_of(trace: Seq<Move>) -> Seq<SignalView>
    decreases trace.len(),
{
    if trace.len() == 0 {
        Seq::empty()
    } else {
        match signal_of(run(trace.drop_last()), trace.last()) {
            Some(signal) => signals_of(trace.drop_last()).push(signal),
            None => signals_of(trace.drop_last()),
        }
    }
}

/// The records sent into the channel in the course of `trace`, in the order
/// in which their lookups settled.
pub open spec fn sent(trace: Seq<Move>) -> Seq<GeoRecordView>
    decreases trace.len(),
{
    if trace.len() == 0 {
        Seq::empty()
    } else {
        match sent_by(run(trace.drop_last()), trace.last()) {
            Some(record) => sent(trace.drop_last()).push(record),
            None => sent(trace.drop_last()),
        }
    }
}

/// The lines that the input gave in the course of `trace`, in order.
pub open spec fn input_of(trace: Seq<Move>) -> Seq<Seq<char>> {
    lines_of(events_of(trace))
}

/// In a session, each machine goes through what it would go through alone on
/// what it was told.
pub proof fn lemma_session_runs_both_machines(trace: Seq<Move>)
    ensures
        run(trace).coordinator == crate::coordinator::run(
            crate::coordinator::initial(),
            events_of(trace),
        ),
        run(trace).renderer == crate::renderer::run(crate::renderer::initial(), signals_of(trace)),
    decreases trace.len(),
{
    if trace.len() > 0 {
        let before = trace.drop_last();
        lemma_session_runs_both_machines(before);
        match event_of(run(before), trace.last()) {
            Some(event) => {
                assert(events_of(trace).drop_last() =~= events_of(before));
            },
            None => {},
        }
        match signal_of(run(before), trace.last()) {
            Some(signal) => {
                assert(signals_of(trace).drop_last() =~= signals_of(before));
            },
            None => {},
        }
    }
}

/// Every move keeps what holds of a session.
pub proof fn lemma_move_keeps_inv(session: Session, step: Move)
    requires
        session.inv(),
    ensures
        next(session, step).inv(),
{
    match event_of(session, step) {
        Some(event) => {
            lemma_step_keeps_wf(session.coordinator, event);
            lemma_channel_closes_behind_barrier(session.coordinator, event);
        },
        None => {},
    }
    match signal_of(session, step) {
        Some(signal) => {
            lemma_ends_only_while_awaiting_quit(session.renderer, signal);
            lemma_step_keeps_points(session.renderer, signal);
        },
        None => {},
    }
}

/// What holds of a session holds at every moment of every session.
pub proof fn lemma_session_inv(trace: Seq<Move>)
    ensures
        run(trace).inv(),
    decreases trace.len(),
{
    if trace.len() > 0 {
        lemma_session_inv(trace.drop_last());
        lemma_move_keeps_inv(run(trace.drop_last()), trace.last());
    }
}

/// A line whose third token is `*` never yields a record. Reading it puts
/// no lookup in flight and nothing into the channel, and it leaves the map
/// as it is; and records come only of lookups in flight.
pub proof fn lemma_starred_line_yields_no_record(session: Session, line: Seq<char>)
    requires
        is_starred(line),
    ensures
        next(session, Move::Line(line)).in_flight() == session.in_flight(),
        next(session, Move::Line(line)).coordinator.dispatched == session.coordinator.dispatched,
        next(session, Move::Line(line)).channel == session.channel,
        next(session, Move::Line(line)).renderer == session.renderer,
        forall|step: Move| sent_by(session, step) is Some ==> session.in_flight() > 0,
{
    lemma_starred_line_dispatches_nothing(session.coordinator, line);
}

/// The renderer turns to the keyboard, and so can be made to quit, only
/// behind the barrier. Whenever it is not receiving, the coordinator has
/// closed the channel: the input has ended and every lookup that was
/// dispatched has settled. Nothing is then left in the channel, so the map
/// shows every record that was delivered. While a lookup is in flight, no key
/// ends the renderer.
pub proof fn lemma_quit_only_behind_barrier(trace: Seq<Move>)
    ensures
        run(trace).renderer.phase != Phase::Receiving ==> {
            &&& run(trace).coordinator.channel_closed()
            &&& run(trace).in_flight() == 0
            &&& run(trace).channel.len() == 0
            &&& run(trace).renderer.points.len() == run(trace).coordinator.delivered
        },
        run(trace).in_flight() > 0 ==> run(trace).renderer.phase == Phase::Receiving,
        !run(trace).coordinator.channel_closed() ==> run(trace).renderer.phase
            == Phase::Receiving,
{
    lemma_session_inv(trace);
}

/// The map never shows more points than the input has hop lines whose third
/// token is not `*`.
pub proof fn lemma_points_within_unstarred_hops(trace: Seq<Move>)
    ensures
        run(trace).renderer.points.len() <= run(trace).coordinator.delivered <= unstarred_hops(
            input_of(trace),
        ),
{
    lemma_session_inv(trace);
    lemma_session_runs_both_machines(trace);
    lemma_delivered_within_unstarred(events_of(trace));
}

/// The channel hands on what was sent, in the order in which it was sent and
/// nothing else: the points on the map, followed by what waits in the
/// channel, are the records sent so far. So the points stand in the order in
/// which their lookups settled, which need not be the order of the lines.
pub proof fn lemma_points_are_what_was_sent(trace: Seq<Move>)
    ensures
        run(trace).renderer.points + run(trace).channel == sent(trace),
    decreases trace.len(),
{
    if trace.len() == 0 {
        assert(run(trace).renderer.points + run(trace).channel =~= sent(trace));
    } else {
        let before = run(trace.drop_last());
        let after = run(trace);
        lemma_points_are_what_was_sent(trace.drop_last());
        lemma_session_inv(trace.drop_last());
        assert(before.renderer.points + before.channel == sent(trace.drop_last()));
        match signal_of(before, trace.last()) {
            Some(SignalView::Record(record)) => {
                assert(sent_by(before, trace.last()) is None);
                assert(record == before.channel[0]);
                assert(after.renderer.points + after.channel =~= before.renderer.points
                    + before.channel);
            },
            _ => {
                match sent_by(before, trace.last()) {
                    Some(record) => {
                        assert(after.renderer.points == before.renderer.points);
                        assert(after.renderer.points + after.channel =~= (before.renderer.points
                            + before.channel).push(record));
                    },
                    None => {
                        assert(after.renderer.points == before.renderer.points);
                        assert(after.channel == before.channel);
                    },
                }
            },
        }
    }
}

/// Over a whole session, redraws are monotonic: what the map shows after `j`
/// moves begins with what it showed after `i` moves, for `i` before `j`.
pub proof fn lemma_session_keeps_points(trace: Seq<Move>, i: int, j: int)
    requires
        0 <= i <= j <= trace.len(),
    ensures
        run(trace.take(i)).renderer.points.is_prefix_of(run(trace.take(j)).renderer.points),
    decreases j - i,
{
    if i < j {
        lemma_session_keeps_points(trace, i, j - 1);
        assert(trace.take(j).drop_last() =~= trace.take(j - 1));
        let before = run(trace.take(j - 1));
        match signal_of(before, trace.take(j).last()) {
            Some(signal) => {
                lemma_step_keeps_points(before.renderer, signal);
            },
            None => {},
        }
    }
}

} // verus!
