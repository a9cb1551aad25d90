//! The coordinator: the life of one session, from the first line of input to
//! the end of the process.
//!
//! The coordinator starts the renderer, then reads the input line by line.
//! The first line is a header and is passed over. For every later line that
//! names an address it dispatches one lookup. When the input has ended it
//! waits until every lookup that it dispatched has settled, whether it
//! delivered a record or not: all of them, not some. Only then does it close
//! the result channel, and then it waits for the renderer to end. The session
//! then ends well, however many lookups failed.
//!
//! Without a terminal there is no session: the coordinator gives up before
//! it reads a line.
//!
//! The machine here makes the decisions. Its owner does the work: it carries
//! out each [`Command`] and reports what happened as the next [`Event`].

use crate::hop::{is_starred, parse_hop, parse_line, HopError, ParsedHop, ParsedHopView};
use crate::text::lemma_token_is_maximal_word;
use vstd::prelude::*;

verus! {

/// How far the session has come.
#[derive(Clone, Copy, Debug, PartialEq, Eq, Structural)]
pub enum Stage {
    /// The input is being read; lookups are dispatched as lines come in.
    Reading,
    /// The input has ended and some lookup has not settled yet.
    Settling,
    /// Every lookup has settled and the channel is closed; the renderer is
    /// still up.
    Joining,
    /// The renderer has ended. The session is over, and it succeeded.
    Finished,
    /// The terminal could not be had. The session is over before it began,
    /// and it failed.
    Aborted,
}

/// What happened since the last command.
#[derive(Clone, Debug, PartialEq, Eq)]
pub enum Event {
    /// The input gave this line.
    Line(String),
    /// The input gave a line that could not be read as text. It counts as a
    /// line, and as an empty one.
    Unreadable,
    /// The input has no more lines.
    InputEnded,
    /// One lookup has settled; `delivered` says whether it sent a record into
    /// the channel.
    LookupSettled { delivered: bool },
    /// The renderer has ended.
    RendererExited,
}

/// The mathematical content of an [`Event`].
pub enum EventView {
    Line(Seq<char>),
    Unreadable,
    InputEnded,
    LookupSettled { delivered: bool },
    RendererExited,
}

impl View for Event {
    type V = EventView;

    open spec fn view(&self) -> EventView {
        match *self {
            Event::Line(line) => EventView::Line(line@),
            Event::Unreadable => EventView::Unreadable,
            Event::InputEnded => EventView::InputEnded,
            Event::LookupSettled { delivered } => EventView::LookupSettled { delivered },
            Event::RendererExited => EventView::RendererExited,
        }
    }
}

/// Why a line led to no lookup.
#[derive(Clone, Copy, Debug, PartialEq, Eq, Structural)]
pub enum Skipped {
    /// It is the first line of the input.
    Header,
    /// It could not be read as text.
    Unreadable,
    /// Its hop did not answer.
    Unresolved,
    /// It is not a hop line.
    Malformed(HopError),
}

/// What the owner of the session does next.
#[derive(Clone, Debug, PartialEq, Eq)]
pub enum Command {
    /// Start the renderer on a thread of its own.
    StartRenderer,
    /// Start a lookup for this address, at once and beside all the others.
    Dispatch(String),
    /// Pass over the line that was just read.
    Skip(Skipped),
    /// Nothing to do but to report the next event.
    Wait,
    /// Give up the coordinator's own sender, so that the channel closes.
    CloseChannel,
    /// The session is over: return success.
    Finish,
    /// There is no terminal to paint on: say so and return failure.
    Abort,
}

/// The mathematical content of a [`Command`].
pub enum CommandView {
    StartRenderer,
    Dispatch(Seq<char>),
    Skip(Skipped),
    Wait,
    CloseChannel,
    Finish,
    Abort,
}

impl View for Command {
    type V = CommandView;

    open spec fn view(&self) -> CommandView {
        match *self {
            Command::StartRenderer => CommandView::StartRenderer,
            Command::Dispatch(address) => CommandView::Dispatch(address@),
            Command::Skip(why) => CommandView::Skip(why),
            Command::Wait => CommandView::Wait,
            Command::CloseChannel => CommandView::CloseChannel,
            Command::Finish => CommandView::Finish,
            Command::Abort => CommandView::Abort,
        }
    }
}

/// The mathematical content of a [`Coordinator`].
pub struct CoordinatorView {
    pub stage: Stage,
    /// Whether the header line has been read.
    pub header_seen: bool,
    /// The addresses of the lookups dispatched so far, in the order of their
    /// lines.
    pub dispatched: Seq<Seq<char>>,
    /// How many of the dispatched lookups have settled.
    pub settled: nat,
    /// How many of the settled lookups delivered a record.
    pub delivered: nat,
}

impl CoordinatorView {
    /// What holds of the coordinator at every moment: no more lookups have
    /// delivered than have settled, no more have settled than were
    /// dispatched, the stage says truly whether the barrier is passed, and a
    /// session that was given up has read nothing.
    pub open spec fn wf(self) -> bool {
        &&& self.delivered <= self.settled <= self.dispatched.len()
        &&& !self.header_seen ==> self.dispatched.len() == 0
        &&& self.stage == Stage::Aborted ==> !self.header_seen
        &&& self.stage == Stage::Settling ==> self.settled < self.dispatched.len()
        &&& self.channel_closed() ==> self.settled == self.dispatched.len()
    }

    /// Whether the channel is closed: the barrier is passed.
    pub open spec fn channel_closed(self) -> bool {
        self.stage == Stage::Joining || self.stage == Stage::Finished
    }
}

/// The coordinator as it starts: reading, with nothing dispatched.
pub open spec fn initial() -> CoordinatorView {
    CoordinatorView {
        stage: Stage::Reading,
        header_seen: false,
        dispatched: Seq::empty(),
        settled: 0,
        delivered: 0,
    }
}

/// The coordinator of a session that could not begin.
pub open spec fn aborted() -> CoordinatorView {
    CoordinatorView { stage: Stage::Aborted, ..initial() }
}

/// What a line leads to while the input is being read.
pub open spec fn line_command(header_seen: bool, line: Seq<char>) -> CommandView {
    if !header_seen {
        CommandView::Skip(Skipped::Header)
    } else {
        match parse_line(line) {
            Ok(ParsedHopView::Unresolved) => CommandView::Skip(Skipped::Unresolved),
            Ok(ParsedHopView::Candidate(address)) => CommandView::Dispatch(address),
            Err(e) => CommandView::Skip(Skipped::Malformed(e)),
        }
    }
}

/// The counts after one more lookup has settled. A report that no lookup is
/// waiting for changes nothing.
pub open spec fn settle(state: CoordinatorView, delivered: bool) -> CoordinatorView {
    if state.settled < state.dispatched.len() {
        CoordinatorView {
            settled: state.settled + 1,
            delivered: if delivered {
                state.delivered + 1
            } else {
                state.delivered
            },
            ..state
        }
    } else {
        state
    }
}

/// The state that follows `state` on `event`.
pub open spec fn next_state(state: CoordinatorView, event: EventView) -> CoordinatorView {
    match state.stage {
        Stage::Reading => match event {
            EventView::Line(line) => CoordinatorView {
                header_seen: true,
                dispatched: match line_command(state.header_seen, line) {
                    CommandView::Dispatch(address) => state.dispatched.push(address),
                    _ => state.dispatched,
                },
                ..state
            },
            EventView::Unreadable => CoordinatorView { header_seen: true, ..state },
            EventView::InputEnded => CoordinatorView {
                stage: if state.settled == state.dispatched.len() {
                    Stage::Joining
                } else {
                    Stage::Settling
                },
                ..state
            },
            EventView::LookupSettled { delivered } => settle(state, delivered),
            EventView::RendererExited => state,
        },
        Stage::Settling => match event {
            EventView::LookupSettled { delivered } => {
                let counted = settle(state, delivered);
                CoordinatorView {
                    stage: if counted.settled == counted.dispatched.len() {
                        Stage::Joining
                    } else {
                        Stage::Settling
                    },
                    ..counted
                }
            },
            _ => state,
        },
        Stage::Joining => match event {
            EventView::RendererExited => CoordinatorView { stage: Stage::Finished, ..state },
            _ => state,
        },
        Stage::Finished => state,
        Stage::Aborted => state,
    }
}

/// What the coordinator in `state` asks for on `event`.
pub open spec fn command_on(state: CoordinatorView, event: EventView) -> CommandView {
    match state.stage {
        Stage::Reading => match event {
            EventView::Line(line) => line_command(state.header_seen, line),
            EventView::Unreadable => CommandView::Skip(
                if state.header_seen {
                    Skipped::Unreadable
                } else {
                    Skipped::Header
                },
            ),
            EventView::InputEnded => if state.settled == state.dispatched.len() {
                CommandView::CloseChannel
            } else {
                CommandView::Wait
            },
            _ => CommandView::Wait,
        },
        Stage::Settling => if next_state(state, event).stage == Stage::Joining {
            CommandView::CloseChannel
        } else {
            CommandView::Wait
        },
        Stage::Joining => match event {
            EventView::RendererExited => CommandView::Finish,
            _ => CommandView::Wait,
        },
        Stage::Finished => CommandView::Finish,
        Stage::Aborted => CommandView::Abort,
    }
}

/// The state reached from `state` after the events of `trace`, in order.
pub open spec fn run(state: CoordinatorView, trace: Seq<EventView>) -> CoordinatorView
    decreases trace.len(),
{
    if trace.len() == 0 {
        state
    } else {
        next_state(run(state, trace.drop_last()), trace.last())
    }
}

/// The lines that the input gave in the course of `trace`, in order. A line
/// that could not be read stands in it as an empty line.
pub open spec fn lines_of(trace: Seq<EventView>) -> Seq<Seq<char>>
    decreases trace.len(),
{
    if trace.len() == 0 {
        Seq::empty()
    } else {
        match trace.last() {
            EventView::Line(line) => lines_of(trace.drop_last()).push(line),
            EventView::Unreadable => lines_of(trace.drop_last()).push(Seq::empty()),
            _ => lines_of(trace.drop_last()),
        }
    }
}

/// The events of an input that gives `lines` and nothing else happens.
pub open spec fn line_events(lines: Seq<Seq<char>>) -> Seq<EventView> {
    lines.map_values(|line: Seq<char>| EventView::Line(line))
}

/// The addresses to look up for an input of `lines`: one for each line but
/// the first that names an address, in the order of the lines.
pub open spec fn planned(lines: Seq<Seq<char>>) -> Seq<Seq<char>>
    decreases lines.len(),
{
    if lines.len() <= 1 {
        Seq::empty()
    } else {
        match parse_line(lines.last()) {
            Ok(ParsedHopView::Candidate(address)) => planned(lines.drop_last()).push(address),
            _ => planned(lines.drop_last()),
        }
    }
}

/// How many lines of `lines`, the first left out, have a third token other
/// than `*` or none at all.
pub open spec fn unstarred_hops(lines: Seq<Seq<char>>) -> nat
    decreases lines.len(),
{
    if lines.len() <= 1 {
        0
    } else if is_starred(lines.last()) {
        unstarred_hops(lines.drop_last())
    } else {
        unstarred_hops(lines.drop_last()) + 1
    }
}

/// Every step keeps the coordinator well formed.
pub proof fn lemma_step_keeps_wf(state: CoordinatorView, event: EventView)
    requires
        state.wf(),
    ensures
        next_state(state, event).wf(),
{
}

/// Every state that a session reaches is well formed.
pub proof fn lemma_run_keeps_wf(trace: Seq<EventView>)
    ensures
        run(initial(), trace).wf(),
    decreases trace.len(),
{
    if trace.len() > 0 {
        lemma_run_keeps_wf(trace.drop_last());
        lemma_step_keeps_wf(run(initial(), trace.drop_last()), trace.last());
    }
}

/// A session that could not begin does no work: whatever it is told, it
/// stays as it is, with nothing read and nothing dispatched, and says again
/// that it has failed.
pub proof fn lemma_aborted_stays_aborted(trace: Seq<EventView>)
    ensures
        run(aborted(), trace) == aborted(),
        forall|event: EventView| command_on(aborted(), event) == CommandView::Abort,
    decreases trace.len(),
{
    if trace.len() > 0 {
        lemma_aborted_stays_aborted(trace.drop_last());
    }
}

/// A session that began ends well or not at all: it is never given up, and
/// it never says that it has failed.
pub proof fn lemma_started_never_aborts(trace: Seq<EventView>, event: EventView)
    ensures
        run(initial(), trace).stage != Stage::Aborted,
        command_on(run(initial(), trace), event) != CommandView::Abort,
    decreases trace.len(),
{
    if trace.len() > 0 {
        lemma_started_never_aborts(trace.drop_last(), trace.last());
    }
}

/// The barrier. The coordinator asks to close the channel only in a step
/// that finds the input ended and leaves no lookup in flight: every lookup
/// that was dispatched has settled, all of them. It asks so at most once,
/// since from then on the channel counts as closed, and a closed channel
/// stays closed.
pub proof fn lemma_channel_closes_behind_barrier(state: CoordinatorView, event: EventView)
    requires
        state.wf(),
    ensures
        command_on(state, event) is CloseChannel <==> !state.channel_closed() && next_state(
            state,
            event,
        ).channel_closed(),
        command_on(state, event) is CloseChannel ==> {
            &&& next_state(state, event).settled == next_state(state, event).dispatched.len()
            &&& next_state(state, event).dispatched == state.dispatched
            &&& state.stage == Stage::Reading ==> event is InputEnded
            &&& state.stage == Stage::Settling ==> event is LookupSettled
        },
        state.channel_closed() ==> next_state(state, event).channel_closed(),
        state.stage == Stage::Settling ==> next_state(state, event).stage != Stage::Reading,
{
}

/// While lookups are in flight after the input has ended, nothing but the
/// last of them to settle moves the coordinator on.
pub proof fn lemma_barrier_waits_for_all(state: CoordinatorView, event: EventView)
    requires
        state.wf(),
        state.stage == Stage::Settling,
    ensures
        next_state(state, event).stage == Stage::Joining <==> event is LookupSettled
            && state.settled + 1 == state.dispatched.len(),
        next_state(state, event).stage != Stage::Joining ==> next_state(state, event).stage
            == Stage::Settling,
{
}

/// Lookups are dispatched by lines alone, and only while the input is read:
/// a step that asks for a lookup adds its address to the list, and every
/// other step leaves the list as it is.
pub proof fn lemma_dispatch_adds_one(state: CoordinatorView, event: EventView)
    ensures
        command_on(state, event) matches CommandView::Dispatch(address) ==> {
            &&& state.stage == Stage::Reading
            &&& state.header_seen
            &&& event matches EventView::Line(line) && parse_line(line) == Ok::<
                ParsedHopView,
                HopError,
            >(ParsedHopView::Candidate(address))
            &&& next_state(state, event).dispatched == state.dispatched.push(address)
        },
        !(command_on(state, event) is Dispatch) ==> next_state(state, event).dispatched
            == state.dispatched,
{
}

/// A line whose third token is `*` leads to no lookup, in whatever state it
/// is read: the coordinator asks for none, and the list of dispatched
/// lookups stays as it is. No record can come of such a line, since records
/// come of lookups alone.
pub proof fn lemma_starred_line_dispatches_nothing(state: CoordinatorView, line: Seq<char>)
    requires
        is_starred(line),
    ensures
        parse_line(line) == Ok::<ParsedHopView, HopError>(ParsedHopView::Unresolved),
        !(command_on(state, EventView::Line(line)) is Dispatch),
        next_state(state, EventView::Line(line)).dispatched == state.dispatched,
        next_state(state, EventView::Line(line)).settled == state.settled,
        next_state(state, EventView::Line(line)).delivered == state.delivered,
{
}

/// An empty line has no token, so it is no hop line.
pub proof fn lemma_empty_line_is_no_hop()
    ensures
        parse_line(Seq::empty()) == Err::<ParsedHopView, HopError>(HopError::MissingAddress),
        !is_starred(Seq::empty()),
{
    lemma_token_is_maximal_word(Seq::empty(), 2);
}

/// No more lookups are planned than there are hop lines without a `*`.
pub proof fn lemma_planned_within_unstarred(lines: Seq<Seq<char>>)
    ensures
        planned(lines).len() <= unstarred_hops(lines),
    decreases lines.len(),
{
    if lines.len() > 1 {
        lemma_planned_within_unstarred(lines.drop_last());
    }
}

/// The plan only grows with the input: what is planned for the first lines
/// stays planned, in its order, when more lines follow.
pub proof fn lemma_planned_grows(lines: Seq<Seq<char>>)
    requires
        lines.len() > 0,
    ensures
        planned(lines.drop_last()).is_prefix_of(planned(lines)),
{
    if lines.len() == 1 {
        assert(lines.drop_last().len() == 0);
    }
}

/// What a session has dispatched is the start of the plan for the lines it
/// was given, and it has read the header if it was given any line. Lines that
/// come after the input was said to have ended are passed over, so the plan
/// may be longer.
pub proof fn lemma_dispatched_within_plan(trace: Seq<EventView>)
    ensures
        run(initial(), trace).dispatched.is_prefix_of(planned(lines_of(trace))),
        run(initial(), trace).stage == Stage::Reading ==> run(initial(), trace).dispatched
            == planned(lines_of(trace)) && (run(initial(), trace).header_seen <==> lines_of(
            trace,
        ).len() > 0),
    decreases trace.len(),
{
    if trace.len() > 0 {
        let before = trace.drop_last();
        let state = run(initial(), before);
        lemma_dispatched_within_plan(before);
        lemma_run_keeps_wf(before);
        lemma_channel_closes_behind_barrier(state, trace.last());
        let lines = lines_of(trace);
        match trace.last() {
            EventView::Line(line) => {
                assert(lines.drop_last() =~= lines_of(before));
                assert(lines.last() == line);
                lemma_planned_grows(lines);
            },
            EventView::Unreadable => {
                assert(lines.drop_last() =~= lines_of(before));
                assert(lines.last() == Seq::<char>::empty());
                lemma_empty_line_is_no_hop();
                lemma_planned_grows(lines);
            },
            _ => {},
        }
    }
}

/// While nothing but lines comes in, the coordinator dispatches the plan:
/// after the lines of `lines`, the lookups dispatched are exactly those
/// planned for them, in the order of the lines.
pub proof fn lemma_reading_dispatches_plan(lines: Seq<Seq<char>>)
    ensures
        run(initial(), line_events(lines)).stage == Stage::Reading,
        run(initial(), line_events(lines)).dispatched == planned(lines),
        run(initial(), line_events(lines)).settled == 0,
    decreases lines.len(),
{
    let trace = line_events(lines);
    lemma_lines_of_line_events(lines);
    lemma_dispatched_within_plan(trace);
    if lines.len() > 0 {
        assert(trace.drop_last() =~= line_events(lines.drop_last()));
        lemma_reading_dispatches_plan(lines.drop_last());
    }
}

/// The lines of an input that gives `lines` are `lines`.
pub proof fn lemma_lines_of_line_events(lines: Seq<Seq<char>>)
    ensures
        lines_of(line_events(lines)) == lines,
    decreases lines.len(),
{
    let trace = line_events(lines);
    if lines.len() > 0 {
        assert(trace.drop_last() =~= line_events(lines.drop_last()));
        lemma_lines_of_line_events(lines.drop_last());
        assert(lines_of(trace) =~= lines);
    } else {
        assert(lines_of(trace) =~= lines);
    }
}

/// The records delivered in a session are never more than the hop lines of
/// its input whose third token is not `*`. Lookups that failed account for
/// the difference, and so do lines that are no hop lines.
pub proof fn lemma_delivered_within_unstarred(trace: Seq<EventView>)
    ensures
        run(initial(), trace).delivered <= run(initial(), trace).settled <= run(
            initial(),
            trace,
        ).dispatched.len() <= planned(lines_of(trace)).len() <= unstarred_hops(lines_of(trace)),
{
    lemma_run_keeps_wf(trace);
    lemma_dispatched_within_plan(trace);
    lemma_planned_within_unstarred(lines_of(trace));
}

/// The contents of a sequence of texts, in order.
pub open spec fn texts(items: Seq<String>) -> Seq<Seq<char>> {
    items.map_values(|t: String| t@)
}

/// The coordinator's state machine.
#[derive(Debug)]
pub struct Coordinator {
    stage: Stage,
    header_seen: bool,
    dispatched: Vec<String>,
    settled: usize,
    delivered: usize,
}

impl View for Coordinator {
    type V = CoordinatorView;

    closed spec fn view(&self) -> CoordinatorView {
        CoordinatorView {
            stage: self.stage,
            header_seen: self.header_seen,
            dispatched: texts(self.dispatched@),
            settled: self.settled as nat,
            delivered: self.delivered as nat,
        }
    }
}

impl Coordinator {
    #[verifier::type_invariant]
    spec fn inv(self) -> bool {
        self@.wf()
    }

    /// Starts a session. With a terminal at hand, the first thing to do is
    /// to start the renderer on it. Without one the session is given up at
    /// once.
    pub fn start(terminal_ready: bool) -> (started: (Coordinator, Command))
        ensures
            terminal_ready ==> started.0@ == initial() && started.1@ == CommandView::StartRenderer,
            !terminal_ready ==> started.0@ == aborted() && started.1@ == CommandView::Abort,
    {
        let stage = if terminal_ready {
            Stage::Reading
        } else {
            Stage::Aborted
        };
        let command = if terminal_ready {
            Command::StartRenderer
        } else {
            Command::Abort
        };
        let coordinator = Coordinator {
            stage,
            header_seen: false,
            dispatched: Vec::new(),
            settled: 0,
            delivered: 0,
        };
        assert(texts(coordinator.dispatched@) =~= Seq::empty());
        (coordinator, command)
    }

    /// Takes in what happened; hands back the coordinator as it is then, and
    /// says what to do next.
    pub fn step(self, event: Event) -> (next: (Coordinator, Command))
        ensures
            next.0@ == next_state(self@, event@),
            next.1@ == command_on(self@, event@),
            next.0@.wf(),
    {
        proof {
            use_type_invariant(&self);
        }
        match self.stage {
            Stage::Reading => match event {
                Event::Line(line) => self.read_line(line),
                Event::Unreadable => {
                    let why = if self.header_seen {
                        Skipped::Unreadable
                    } else {
                        Skipped::Header
                    };
                    (Coordinator { header_seen: true, ..self }, Command::Skip(why))
                },
                Event::InputEnded => {
                    let stage = if self.settled == self.dispatched.len() {
                        Stage::Joining
                    } else {
                        Stage::Settling
                    };
                    let command = match stage {
                        Stage::Joining => Command::CloseChannel,
                        _ => Command::Wait,
                    };
                    (Coordinator { stage, ..self }, command)
                },
                Event::LookupSettled { delivered } => {
                    let (settled, delivered) = self.counts_after(delivered);
                    (Coordinator { settled, delivered, ..self }, Command::Wait)
                },
                Event::RendererExited => (self, Command::Wait),
            },
            Stage::Settling => match event {
                Event::LookupSettled { delivered } => {
                    let (settled, delivered) = self.counts_after(delivered);
                    if settled == self.dispatched.len() {
                        (
                            Coordinator { stage: Stage::Joining, settled, delivered, ..self },
                            Command::CloseChannel,
                        )
                    } else {
                        (Coordinator { settled, delivered, ..self }, Command::Wait)
                    }
                },
                _ => (self, Command::Wait),
            },
            Stage::Joining => match event {
                Event::RendererExited => (
                    Coordinator { stage: Stage::Finished, ..self },
                    Command::Finish,
                ),
                _ => (self, Command::Wait),
            },
            Stage::Finished => (self, Command::Finish),
            Stage::Aborted => (self, Command::Abort),
        }
    }

    /// Reads one line of the input while the coordinator is reading.
    fn read_line(self, line: String) -> (next: (Coordinator, Command))
        requires
            self@.stage == Stage::Reading,
        ensures
            next.0@ == next_state(self@, EventView::Line(line@)),
            next.1@ == line_command(self@.header_seen, line@),
    {
        proof {
            use_type_invariant(&self);
        }
        if !self.header_seen {
            (Coordinator { header_seen: true, ..self }, Command::Skip(Skipped::Header))
        } else {
            match parse_hop(line.as_str()) {
                Ok(ParsedHop::Unresolved) => (self, Command::Skip(Skipped::Unresolved)),
                Ok(ParsedHop::Candidate(address)) => {
                    let ghost before = self.dispatched@;
                    let mut dispatched = self.dispatched;
                    dispatched.push(address.clone());
                    assert(texts(before.push(address)) =~= texts(before).push(address@));
                    (
                        Coordinator {
                            stage: self.stage,
                            header_seen: self.header_seen,
                            dispatched,
                            settled: self.settled,
                            delivered: self.delivered,
                        },
                        Command::Dispatch(address),
                    )
                },
                Err(e) => (self, Command::Skip(Skipped::Malformed(e))),
            }
        }
    }

    /// The counts of settled and of delivered lookups once one more has
    /// settled.
    fn counts_after(&self, delivered: bool) -> (counts: (usize, usize))
        ensures
            counts.0 == settle(self@, delivered).settled,
            counts.1 == settle(self@, delivered).delivered,
    {
        proof {
            use_type_invariant(self);
        }
        if self.settled < self.dispatched.len() {
            let delivered = if delivered {
                self.delivered + 1
            } else {
                self.delivered
            };
            (self.settled + 1, delivered)
        } else {
            (self.settled, self.delivered)
        }
    }

    /// How far the session has come.
    pub fn stage(&self) -> (stage: Stage)
        ensures
            stage == self@.stage,
    {
        self.stage
    }

    /// The addresses of the lookups dispatched so far, in the order of their
    /// lines.
    pub fn dispatched(&self) -> (addresses: &Vec<String>)
        ensures
            texts(addresses@) == self@.dispatched,
    {
        &self.dispatched
    }

    /// How many lookups have settled.
    pub fn settled(&self) -> (count: usize)
        ensures
            count == self@.settled,
            count <= self@.dispatched.len(),
    {
        proof {
            use_type_invariant(self);
        }
        self.settled
    }

    /// How many lookups delivered a record.
    pub fn delivered(&self) -> (count: usize)
        ensures
            count == self@.delivered,
            count <= self@.settled,
    {
        proof {
            use_type_invariant(self);
        }
        self.delivered
    }

    /// How many lookups settled without a record: those that failed, which
    /// nothing else tells of.
    pub fn failed(&self) -> (count: usize)
        ensures
            count == self@.settled - self@.delivered,
    {
        proof {
            use_type_invariant(self);
        }
        self.settled - self.delivered
    }

    /// How many lookups are still in flight: dispatched and not yet settled.
    pub fn in_flight(&self) -> (count: usize)
        ensures
            count == self@.dispatched.len() - self@.settled,
    {
        proof {
            use_type_invariant(self);
        }
        self.dispatched.len() - self.settled
    }
}

} // verus!
