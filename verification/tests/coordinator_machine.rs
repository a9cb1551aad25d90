use traceroute_vis::coordinator::{Command, Coordinator, Event, Skipped, Stage};
use traceroute_vis::hop::HopError;

fn line(text: &str) -> Event {
    Event::Line(text.to_string())
}

fn dispatch(address: &str) -> Command {
    Command::Dispatch(address.to_string())
}

fn settled(delivered: bool) -> Event {
    Event::LookupSettled { delivered }
}

fn after(events: Vec<Event>) -> (Coordinator, Vec<Command>) {
    let (mut coordinator, _) = Coordinator::start(true);
    let mut commands = Vec::new();
    for event in events {
        let (next, command) = coordinator.step(event);
        coordinator = next;
        commands.push(command);
    }
    (coordinator, commands)
}

#[test]
fn the_session_starts_with_the_renderer() {
    let (coordinator, command) = Coordinator::start(true);
    assert_eq!(command, Command::StartRenderer);
    assert_eq!(coordinator.stage(), Stage::Reading);
    assert!(coordinator.dispatched().is_empty());
    assert_eq!(coordinator.settled(), 0);
    assert_eq!(coordinator.delivered(), 0);
    assert_eq!(coordinator.in_flight(), 0);
}

#[test]
fn without_a_terminal_the_session_is_given_up_before_any_work() {
    let (mut coordinator, command) = Coordinator::start(false);
    assert_eq!(command, Command::Abort);
    assert_eq!(coordinator.stage(), Stage::Aborted);
    let events = vec![
        line("header"),
        line("1 a (192.0.2.1)"),
        Event::Unreadable,
        Event::InputEnded,
        settled(true),
        Event::RendererExited,
    ];
    for event in events {
        let (next, command) = coordinator.step(event);
        assert_eq!(command, Command::Abort);
        assert_eq!(next.stage(), Stage::Aborted);
        assert!(next.dispatched().is_empty());
        assert_eq!(next.settled(), 0);
        assert_eq!(next.delivered(), 0);
        coordinator = next;
    }
}

#[test]
fn a_line_that_cannot_be_read_counts_as_a_line() {
    let (coordinator, commands) = after(vec![Event::Unreadable, line("1 a (192.0.2.1)")]);
    assert_eq!(commands, vec![Command::Skip(Skipped::Header), dispatch("192.0.2.1")]);
    assert_eq!(coordinator.dispatched(), &vec!["192.0.2.1"]);

    let (coordinator, commands) = after(vec![
        line("header"),
        Event::Unreadable,
        line("2 b (192.0.2.2)"),
        Event::InputEnded,
        Event::Unreadable,
    ]);
    assert_eq!(
        commands,
        vec![
            Command::Skip(Skipped::Header),
            Command::Skip(Skipped::Unreadable),
            dispatch("192.0.2.2"),
            Command::Wait,
            Command::Wait,
        ]
    );
    assert_eq!(coordinator.dispatched(), &vec!["192.0.2.2"]);
}

#[test]
fn the_first_line_is_passed_over_whatever_it_says() {
    let (coordinator, commands) = after(vec![line("1 r1 (10.0.0.1)")]);
    assert_eq!(commands, vec![Command::Skip(Skipped::Header)]);
    assert!(coordinator.dispatched().is_empty());
    let (_, commands) = after(vec![line("")]);
    assert_eq!(commands, vec![Command::Skip(Skipped::Header)]);
    let (_, commands) = after(vec![line("2 * * *")]);
    assert_eq!(commands, vec![Command::Skip(Skipped::Header)]);
}

#[test]
fn each_line_with_an_address_dispatches_one_lookup() {
    let (coordinator, commands) = after(vec![
        line("header"),
        line("1 a (192.0.2.1)"),
        line("2 b (192.0.2.2)"),
        line("3 c (192.0.2.1)"),
    ]);
    assert_eq!(
        commands,
        vec![
            Command::Skip(Skipped::Header),
            dispatch("192.0.2.1"),
            dispatch("192.0.2.2"),
            dispatch("192.0.2.1"),
        ]
    );
    assert_eq!(coordinator.dispatched(), &vec!["192.0.2.1", "192.0.2.2", "192.0.2.1"]);
    assert_eq!(coordinator.in_flight(), 3);
    assert_eq!(coordinator.stage(), Stage::Reading);
}

#[test]
fn a_line_that_is_no_hop_line_is_passed_over_and_the_run_goes_on() {
    let (coordinator, commands) = after(vec![
        line("header"),
        line(""),
        line("7 onlytwo"),
        line("8 host x"),
        line("9 r9 (198.51.100.9)"),
    ]);
    assert_eq!(
        commands,
        vec![
            Command::Skip(Skipped::Header),
            Command::Skip(Skipped::Malformed(HopError::MissingAddress)),
            Command::Skip(Skipped::Malformed(HopError::MissingAddress)),
            Command::Skip(Skipped::Malformed(HopError::BareAddress)),
            dispatch("198.51.100.9"),
        ]
    );
    assert_eq!(coordinator.dispatched(), &vec!["198.51.100.9"]);
}

#[test]
fn an_unanswered_hop_dispatches_nothing() {
    let (coordinator, commands) = after(vec![line("header"), line("2 * * *"), line("3 * * *")]);
    assert_eq!(
        commands,
        vec![
            Command::Skip(Skipped::Header),
            Command::Skip(Skipped::Unresolved),
            Command::Skip(Skipped::Unresolved),
        ]
    );
    assert!(coordinator.dispatched().is_empty());
    assert_eq!(coordinator.in_flight(), 0);
}

#[test]
fn with_nothing_in_flight_the_channel_closes_when_the_input_ends() {
    let (coordinator, commands) = after(vec![Event::InputEnded]);
    assert_eq!(commands, vec![Command::CloseChannel]);
    assert_eq!(coordinator.stage(), Stage::Joining);
    let (coordinator, commands) = after(vec![line("header"), line("2 * * *"), Event::InputEnded]);
    assert_eq!(commands[2], Command::CloseChannel);
    assert_eq!(coordinator.stage(), Stage::Joining);
}

#[test]
fn the_channel_closes_only_when_the_last_lookup_has_settled() {
    let (coordinator, commands) = after(vec![
        line("header"),
        line("1 a (192.0.2.1)"),
        line("2 b (192.0.2.2)"),
        line("3 c (192.0.2.3)"),
        Event::InputEnded,
    ]);
    assert_eq!(commands[4], Command::Wait);
    assert_eq!(coordinator.stage(), Stage::Settling);
    assert_eq!(coordinator.in_flight(), 3);

    let (coordinator, command) = coordinator.step(settled(true));
    assert_eq!(command, Command::Wait);
    assert_eq!(coordinator.stage(), Stage::Settling);
    assert_eq!(coordinator.in_flight(), 2);

    let (coordinator, command) = coordinator.step(settled(false));
    assert_eq!(command, Command::Wait);
    assert_eq!(coordinator.stage(), Stage::Settling);
    assert_eq!(coordinator.in_flight(), 1);

    let (coordinator, command) = coordinator.step(settled(false));
    assert_eq!(command, Command::CloseChannel);
    assert_eq!(coordinator.stage(), Stage::Joining);
    assert_eq!(coordinator.in_flight(), 0);
    assert_eq!(coordinator.settled(), 3);
    assert_eq!(coordinator.delivered(), 1);
    assert_eq!(coordinator.failed(), 2);
}

#[test]
fn lookups_may_settle_while_the_input_is_still_read() {
    let (coordinator, commands) = after(vec![
        line("header"),
        line("1 a (192.0.2.1)"),
        settled(true),
        line("2 b (192.0.2.2)"),
        settled(false),
        Event::InputEnded,
    ]);
    assert_eq!(
        commands,
        vec![
            Command::Skip(Skipped::Header),
            dispatch("192.0.2.1"),
            Command::Wait,
            dispatch("192.0.2.2"),
            Command::Wait,
            Command::CloseChannel,
        ]
    );
    assert_eq!(coordinator.stage(), Stage::Joining);
    assert_eq!(coordinator.settled(), 2);
    assert_eq!(coordinator.delivered(), 1);
}

#[test]
fn a_report_that_no_lookup_waits_for_changes_nothing() {
    let (coordinator, commands) = after(vec![settled(true), line("header"), settled(true)]);
    assert_eq!(commands, vec![Command::Wait, Command::Skip(Skipped::Header), Command::Wait]);
    assert_eq!(coordinator.settled(), 0);
    assert_eq!(coordinator.delivered(), 0);
    assert_eq!(coordinator.stage(), Stage::Reading);
}

#[test]
fn lines_after_the_end_of_the_input_are_passed_over() {
    let (coordinator, commands) = after(vec![
        line("header"),
        line("1 a (192.0.2.1)"),
        Event::InputEnded,
        line("2 b (192.0.2.2)"),
        Event::InputEnded,
    ]);
    assert_eq!(commands[2], Command::Wait);
    assert_eq!(commands[3], Command::Wait);
    assert_eq!(commands[4], Command::Wait);
    assert_eq!(coordinator.dispatched(), &vec!["192.0.2.1"]);
    assert_eq!(coordinator.stage(), Stage::Settling);
}

#[test]
fn the_renderer_cannot_end_the_session_before_the_channel_is_closed() {
    let (coordinator, commands) = after(vec![
        Event::RendererExited,
        line("header"),
        line("1 a (192.0.2.1)"),
        Event::RendererExited,
        Event::InputEnded,
        Event::RendererExited,
    ]);
    assert_eq!(commands[0], Command::Wait);
    assert_eq!(commands[3], Command::Wait);
    assert_eq!(commands[5], Command::Wait);
    assert_eq!(coordinator.stage(), Stage::Settling);
}

#[test]
fn the_session_finishes_when_the_renderer_has_ended() {
    let (coordinator, commands) = after(vec![
        line("header"),
        line("1 a (192.0.2.1)"),
        Event::InputEnded,
        settled(false),
    ]);
    assert_eq!(commands[3], Command::CloseChannel);
    let (coordinator, command) = coordinator.step(settled(true));
    assert_eq!(command, Command::Wait);
    assert_eq!(coordinator.settled(), 1);
    assert_eq!(coordinator.delivered(), 0);
    let (coordinator, command) = coordinator.step(line("2 b (192.0.2.2)"));
    assert_eq!(command, Command::Wait);
    let (coordinator, command) = coordinator.step(Event::RendererExited);
    assert_eq!(command, Command::Finish);
    assert_eq!(coordinator.stage(), Stage::Finished);
    assert_eq!(coordinator.dispatched(), &vec!["192.0.2.1"]);
}

#[test]
fn a_finished_session_stays_finished() {
    let (mut coordinator, _) = after(vec![Event::InputEnded, Event::RendererExited]);
    assert_eq!(coordinator.stage(), Stage::Finished);
    let events = vec![
        line("1 a (192.0.2.1)"),
        Event::InputEnded,
        settled(true),
        Event::RendererExited,
    ];
    for event in events {
        let (next, command) = coordinator.step(event);
        assert_eq!(command, Command::Finish);
        assert_eq!(next.stage(), Stage::Finished);
        assert!(next.dispatched().is_empty());
        assert_eq!(next.delivered(), 0);
        coordinator = next;
    }
}

#[test]
fn the_session_succeeds_though_every_lookup_failed() {
    let (coordinator, commands) = after(vec![
        line("header"),
        line("1 a (192.0.2.1)"),
        line("2 b (192.0.2.2)"),
        Event::InputEnded,
        settled(false),
        settled(false),
        Event::RendererExited,
    ]);
    assert_eq!(commands[5], Command::CloseChannel);
    assert_eq!(commands[6], Command::Finish);
    assert_eq!(coordinator.stage(), Stage::Finished);
    assert_eq!(coordinator.delivered(), 0);
}

#[test]
fn no_more_records_are_delivered_than_hop_lines_without_a_star() {
    let input = [
        "traceroute to example.org",
        "1 a (192.0.2.1)",
        "2 * * *",
        "3",
        "4 c (192.0.2.3)",
        "5 d x",
        "6 * * *",
        "7 e (192.0.2.5)",
    ];
    let unstarred = input[1..]
        .iter()
        .filter(|l| l.split_whitespace().nth(2) != Some("*"))
        .count();
    assert_eq!(unstarred, 5);
    let mut events: Vec<Event> = input.iter().map(|l| line(l)).collect();
    events.push(Event::InputEnded);
    events.push(settled(true));
    events.push(settled(true));
    events.push(settled(true));
    events.push(settled(true));
    let (coordinator, _) = after(events);
    assert_eq!(coordinator.dispatched().len(), 3);
    assert_eq!(coordinator.settled(), 3);
    assert_eq!(coordinator.delivered(), 3);
    assert!(coordinator.delivered() <= coordinator.settled());
    assert!(coordinator.settled() <= coordinator.dispatched().len());
    assert!(coordinator.dispatched().len() <= unstarred);
}
