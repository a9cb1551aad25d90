//! The renderer: the one owner of the terminal.
//!
//! The renderer paints an empty map when it starts. Then it receives records
//! from the result channel, one at a time, and repaints the whole map after
//! each. Once the channel has closed it turns to the keyboard and waits for
//! the quit key; any other key is passed over. The renderer does not listen
//! to the keyboard while the channel is open, so it cannot be made to quit
//! while lookups are still in flight.
//!
//! The machine here makes the decisions. Its owner does the work: it carries
//! out each [`Directive`] and reports what happened as the next [`Signal`].

use crate::record::{record_views, Degrees, GeoRecord, GeoRecordView};
use vstd::prelude::*;

verus! {

/// A key of the keyboard.
#[derive(Clone, Copy, Debug, PartialEq, Eq, Structural)]
pub enum Key {
    Backspace,
    Left,
    Right,
    Up,
    Down,
    Home,
    End,
    PageUp,
    PageDown,
    BackTab,
    Delete,
    Insert,
    /// A function key, by its number.
    F(u8),
    /// A character typed without a modifier.
    Char(char),
    /// A character typed with Alt.
    Alt(char),
    /// A character typed with Ctrl.
    Ctrl(char),
    Null,
    Esc,
    /// A key that the terminal could not name.
    Unknown,
}

/// Whether `key` is the quit key: the letter `q`, unmodified.
pub open spec fn is_quit(key: Key) -> bool {
    key == Key::Char('q')
}

/// Decides [`is_quit`].
pub fn is_quit_key(key: Key) -> (quit: bool)
    ensures
        quit == is_quit(key),
{
    match key {
        Key::Char(c) => c == 'q',
        _ => false,
    }
}

/// What the renderer is doing.
#[derive(Clone, Copy, Debug, PartialEq, Eq, Structural)]
pub enum Phase {
    /// The channel is open: the renderer receives records and repaints.
    Receiving,
    /// The channel has closed: the renderer waits for the quit key.
    AwaitingQuit,
    /// The renderer has given up the terminal.
    Terminated,
}

/// What happened since the last directive.
#[derive(Clone, Debug, PartialEq, Eq)]
pub enum Signal {
    /// The channel handed over a record.
    Record(GeoRecord),
    /// The channel is closed: every sender is gone and nothing is left in it.
    ChannelClosed,
    /// A key was pressed.
    KeyPressed(Key),
    /// The keyboard will give no more keys.
    KeysEnded,
}

/// The mathematical content of a [`Signal`].
pub enum SignalView {
    Record(GeoRecordView),
    ChannelClosed,
    KeyPressed(Key),
    KeysEnded,
}

impl View for Signal {
    type V = SignalView;

    open spec fn view(&self) -> SignalView {
        match *self {
            Signal::Record(record) => SignalView::Record(record@),
            Signal::ChannelClosed => SignalView::ChannelClosed,
            Signal::KeyPressed(key) => SignalView::KeyPressed(key),
            Signal::KeysEnded => SignalView::KeysEnded,
        }
    }
}

/// What the owner of the terminal does next.
#[derive(Clone, Copy, Debug, PartialEq, Eq, Structural)]
pub enum Directive {
    /// Paint the map anew with every point gathered so far, then receive
    /// from the channel.
    Redraw,
    /// Receive from the channel; the picture stands as it is.
    Receive,
    /// Wait for the next key.
    AwaitKey,
    /// Give up the terminal and end.
    Exit,
}

/// The mathematical content of a [`Renderer`].
pub struct RendererView {
    pub phase: Phase,
    /// The records gathered so far, in the order in which they arrived.
    pub points: Seq<GeoRecordView>,
}

/// The renderer as it starts: receiving, with no point on the map.
pub open spec fn initial() -> RendererView {
    RendererView { phase: Phase::Receiving, points: Seq::empty() }
}

/// One mark on the map. The map's horizontal axis is the longitude and its
/// vertical axis the latitude.
#[derive(Clone, Copy, Debug, PartialEq, Eq, Structural)]
pub struct Mark {
    pub x: Degrees,
    pub y: Degrees,
}

/// Where the record is marked on the map.
pub open spec fn mark_of(record: GeoRecordView) -> Mark {
    Mark { x: record.longitude, y: record.latitude }
}

/// What a redraw paints for `points`: one mark for each of them, in their
/// order. A redraw paints all of them anew, not only the latest.
pub open spec fn marks_of(points: Seq<GeoRecordView>) -> Seq<Mark> {
    points.map_values(|record: GeoRecordView| mark_of(record))
}

/// Whether `signal` ends a renderer that waits for the quit key.
pub open spec fn ends_session(signal: SignalView) -> bool {
    match signal {
        SignalView::KeyPressed(key) => is_quit(key),
        SignalView::KeysEnded => true,
        _ => false,
    }
}

/// The state that follows `state` on `signal`.
pub open spec fn next_state(state: RendererView, signal: SignalView) -> RendererView {
    match state.phase {
        Phase::Receiving => match signal {
            SignalView::Record(record) => RendererView {
                phase: Phase::Receiving,
                points: state.points.push(record),
            },
            SignalView::ChannelClosed => RendererView {
                phase: Phase::AwaitingQuit,
                points: state.points,
            },
            _ => state,
        },
        Phase::AwaitingQuit => if ends_session(signal) {
            RendererView { phase: Phase::Terminated, points: state.points }
        } else {
            state
        },
        Phase::Terminated => state,
    }
}

/// What the renderer in `state` asks for on `signal`.
pub open spec fn directive_on(state: RendererView, signal: SignalView) -> Directive {
    match state.phase {
        Phase::Receiving => match signal {
            SignalView::Record(_) => Directive::Redraw,
            SignalView::ChannelClosed => Directive::AwaitKey,
            _ => Directive::Receive,
        },
        Phase::AwaitingQuit => if ends_session(signal) {
            Directive::Exit
        } else {
            Directive::AwaitKey
        },
        Phase::Terminated => Directive::Exit,
    }
}

/// The state reached from `state` after the signals of `trace`, in order.
pub open spec fn run(state: RendererView, trace: Seq<SignalView>) -> RendererView
    decreases trace.len(),
{
    if trace.len() == 0 {
        state
    } else {
        next_state(run(state, trace.drop_last()), trace.last())
    }
}

/// A renderer that is receiving does not end on any signal: a quit key
/// pressed while the channel is open changes nothing. The only step that
/// ends a renderer starts from one that waits for the quit key.
pub proof fn lemma_ends_only_while_awaiting_quit(state: RendererView, signal: SignalView)
    ensures
        state.phase == Phase::Receiving ==> next_state(state, signal).phase != Phase::Terminated,
        state.phase == Phase::Receiving && !(signal is Record) && !(signal is ChannelClosed)
            ==> next_state(state, signal) == state,
        state.phase != Phase::Terminated && next_state(state, signal).phase == Phase::Terminated
            ==> state.phase == Phase::AwaitingQuit && ends_session(signal),
        next_state(state, signal).phase == Phase::AwaitingQuit ==> state.phase
            == Phase::AwaitingQuit || (state.phase == Phase::Receiving && signal is ChannelClosed),
{
}

/// A step keeps every point in its place and adds at most one at the end.
pub proof fn lemma_step_keeps_points(state: RendererView, signal: SignalView)
    ensures
        state.points.is_prefix_of(next_state(state, signal).points),
        next_state(state, signal).points.len() <= state.points.len() + 1,
{
}

/// Running a trace in two parts is running it whole.
pub proof fn lemma_run_split(state: RendererView, first: Seq<SignalView>, second: Seq<SignalView>)
    ensures
        run(state, first + second) == run(run(state, first), second),
    decreases second.len(),
{
    if second.len() == 0 {
        assert(first + second =~= first);
    } else {
        assert((first + second).drop_last() =~= first + second.drop_last());
        assert((first + second).last() == second.last());
        lemma_run_split(state, first, second.drop_last());
    }
}

/// Whatever happens, the points gathered so far stay, in their order.
pub proof fn lemma_run_keeps_points(state: RendererView, trace: Seq<SignalView>)
    ensures
        state.points.is_prefix_of(run(state, trace).points),
    decreases trace.len(),
{
    if trace.len() > 0 {
        lemma_run_keeps_points(state, trace.drop_last());
        lemma_step_keeps_points(run(state, trace.drop_last()), trace.last());
    }
}

/// What a later redraw paints begins with what an earlier one painted: the
/// marks of a longer list of points begin with the marks of the shorter.
pub proof fn lemma_marks_grow_with_points(earlier: Seq<GeoRecordView>, later: Seq<GeoRecordView>)
    requires
        earlier.is_prefix_of(later),
    ensures
        marks_of(earlier).is_prefix_of(marks_of(later)),
{
    assert(marks_of(earlier) =~= marks_of(later).subrange(0, earlier.len() as int));
}

/// Redraws are monotonic. Take any two moments of one renderer, the first
/// after `i` signals and the second after `j`: the points held at the second
/// begin with the points held at the first, and so do the marks that a
/// redraw paints. Points are only added, after those that are there; none is
/// taken away or moved.
pub proof fn lemma_redraws_are_monotonic(
    state: RendererView,
    trace: Seq<SignalView>,
    i: int,
    j: int,
)
    requires
        0 <= i <= j <= trace.len(),
    ensures
        run(state, trace.take(i)).points.is_prefix_of(run(state, trace.take(j)).points),
        marks_of(run(state, trace.take(i)).points).is_prefix_of(
            marks_of(run(state, trace.take(j)).points),
        ),
{
    assert(trace.take(j) =~= trace.take(i) + trace.subrange(i, j));
    lemma_run_split(state, trace.take(i), trace.subrange(i, j));
    lemma_run_keeps_points(run(state, trace.take(i)), trace.subrange(i, j));
    lemma_marks_grow_with_points(
        run(state, trace.take(i)).points,
        run(state, trace.take(j)).points,
    );
}

/// The renderer takes the quit key only after the channel has closed. If a
/// session that began with [`initial`] has ended, then somewhere in its trace
/// the channel closed, and a later signal ended it. If the channel never
/// closed, the renderer is still receiving, whatever keys were pressed.
pub proof fn lemma_quit_only_after_channel_closed(trace: Seq<SignalView>)
    ensures
        run(initial(), trace).phase != Phase::Receiving ==> exists|i: int|
            0 <= i < trace.len() && #[trigger] trace[i] is ChannelClosed,
        run(initial(), trace).phase == Phase::Terminated ==> exists|i: int, j: int|
            #![trigger trace[i], trace[j]]
            0 <= i < j < trace.len() && trace[i] is ChannelClosed && ends_session(trace[j]),
    decreases trace.len(),
{
    if trace.len() > 0 {
        let before = trace.drop_last();
        let last = trace.len() - 1;
        lemma_quit_only_after_channel_closed(before);
        let state = run(initial(), before);
        lemma_ends_only_while_awaiting_quit(state, trace.last());
        if state.phase != Phase::Receiving {
            let i = choose|i: int| 0 <= i < before.len() && #[trigger] before[i] is ChannelClosed;
            assert(trace[i] is ChannelClosed);
            if state.phase == Phase::Terminated {
                let (a, b) = choose|a: int, b: int|
                    #![trigger before[a], before[b]]
                    0 <= a < b < before.len() && before[a] is ChannelClosed && ends_session(
                        before[b],
                    );
                assert(trace[a] is ChannelClosed && ends_session(trace[b]));
            } else if run(initial(), trace).phase == Phase::Terminated {
                assert(trace[i] is ChannelClosed && ends_session(trace[last]));
            }
        } else {
            if run(initial(), trace).phase != Phase::Receiving {
                assert(trace[last] is ChannelClosed);
            }
        }
    }
}

/// The renderer's state machine.
#[derive(Debug)]
pub struct Renderer {
    phase: Phase,
    points: Vec<GeoRecord>,
}

impl View for Renderer {
    type V = RendererView;

    closed spec fn view(&self) -> RendererView {
        RendererView { phase: self.phase, points: record_views(self.points@) }
    }
}

impl Renderer {
    /// Starts the renderer. The first thing to do is to paint the empty map.
    pub fn start() -> (started: (Renderer, Directive))
        ensures
            started.0@ == initial(),
            started.1 == Directive::Redraw,
    {
        let renderer = Renderer { phase: Phase::Receiving, points: Vec::new() };
        assert(record_views(renderer.points@) =~= Seq::empty());
        (renderer, Directive::Redraw)
    }

    /// Takes in what happened; hands back the renderer as it is then, and
    /// says what to do next.
    pub fn step(self, signal: Signal) -> (next: (Renderer, Directive))
        ensures
            next.0@ == next_state(self@, signal@),
            next.1 == directive_on(self@, signal@),
    {
        match self.phase {
            Phase::Receiving => match signal {
                Signal::Record(record) => {
                    let ghost before = self.points@;
                    let mut points = self.points;
                    points.push(record);
                    assert(record_views(before.push(record)) =~= record_views(before).push(
                        record@,
                    ));
                    (Renderer { phase: Phase::Receiving, points }, Directive::Redraw)
                },
                Signal::ChannelClosed => (
                    Renderer { phase: Phase::AwaitingQuit, ..self },
                    Directive::AwaitKey,
                ),
                _ => (self, Directive::Receive),
            },
            Phase::AwaitingQuit => {
                let ends = match signal {
                    Signal::KeyPressed(key) => is_quit_key(key),
                    Signal::KeysEnded => true,
                    _ => false,
                };
                if ends {
                    (Renderer { phase: Phase::Terminated, ..self }, Directive::Exit)
                } else {
                    (self, Directive::AwaitKey)
                }
            },
            Phase::Terminated => (self, Directive::Exit),
        }
    }

    /// What the renderer is doing.
    pub fn phase(&self) -> (phase: Phase)
        ensures
            phase == self@.phase,
    {
        self.phase
    }

    /// The points to paint: every record gathered so far, in the order in
    /// which they arrived.
    pub fn points(&self) -> (points: &Vec<GeoRecord>)
        ensures
            record_views(points@) == self@.points,
    {
        &self.points
    }

    /// The marks to paint at a redraw: one for every record gathered so far,
    /// in the order in which they arrived.
    pub fn marks(&self) -> (marks: Vec<Mark>)
        ensures
            marks@ == marks_of(self@.points),
    {
        let mut marks: Vec<Mark> = Vec::new();
        let mut i: usize = 0;
        while i < self.points.len()
            invariant
                i <= self.points.len(),
                marks@ == marks_of(record_views(self.points@)).take(i as int),
            decreases self.points.len() - i,
        {
            let record = &self.points[i];
            marks.push(Mark { x: record.longitude, y: record.latitude });
            assert(marks@ =~= marks_of(record_views(self.points@)).take(i + 1));
            i += 1;
        }
        assert(marks@ =~= marks_of(record_views(self.points@)));
        marks
    }
}

} // verus!
