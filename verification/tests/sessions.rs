use traceroute_vis::coordinator::{Command, Coordinator, Event, Skipped, Stage};
use traceroute_vis::hop::lookup_url;
use traceroute_vis::record::{record_of, Degrees, GeoRecord, LookupOutcome};
use traceroute_vis::renderer::{Directive, Key, Phase, Renderer, Signal};

const INPUT: [&str; 4] = ["header", "1 r1 (10.0.0.1)", "2 * * *", "3 r3 (8.8.8.8)"];

fn answer_for_8_8_8_8() -> GeoRecord {
    GeoRecord {
        ip: "8.8.8.8".to_string(),
        latitude: Degrees::from_bits(37.4_f64.to_bits()),
        longitude: Degrees::from_bits((-122.1_f64).to_bits()),
        org: None,
        subdivision: None,
        subdivision2: None,
        city: None,
        country: Some("US".to_string()),
    }
}

fn outcome_for(address: &str, private_hop_fails_with: LookupOutcome) -> LookupOutcome {
    if address == "8.8.8.8" {
        LookupOutcome::Responded { status: 200, body: Some(answer_for_8_8_8_8()) }
    } else {
        private_hop_fails_with
    }
}

fn read_input(lines: &[&str]) -> (Coordinator, Vec<Command>) {
    let (mut coordinator, first) = Coordinator::start(true);
    assert_eq!(first, Command::StartRenderer);
    let mut commands = Vec::new();
    for l in lines {
        let (next, command) = coordinator.step(Event::Line(l.to_string()));
        coordinator = next;
        commands.push(command);
    }
    (coordinator, commands)
}

fn whole_session(private_hop_fails_with: LookupOutcome, keys: Vec<Key>) -> (Coordinator, Renderer) {
    let (mut renderer, mut directive) = Renderer::start();
    assert_eq!(directive, Directive::Redraw);

    let (mut coordinator, commands) = read_input(&INPUT);
    let mut in_flight: Vec<String> = Vec::new();
    for command in commands {
        if let Command::Dispatch(address) = command {
            in_flight.push(address);
        }
    }
    let (next, command) = coordinator.step(Event::InputEnded);
    coordinator = next;
    assert_eq!(command, Command::Wait);

    let mut closed = false;
    while let Some(address) = in_flight.pop() {
        assert!(!closed);
        let sent = record_of(outcome_for(&address, private_hop_fails_with.clone()));
        let delivered = sent.is_some();
        if let Some(record) = sent {
            assert_ne!(directive, Directive::AwaitKey);
            let (next, d) = renderer.step(Signal::Record(record));
            renderer = next;
            directive = d;
            assert_eq!(directive, Directive::Redraw);
        }
        let (next, command) = coordinator.step(Event::LookupSettled { delivered });
        coordinator = next;
        closed = command == Command::CloseChannel;
    }
    assert!(closed);
    assert_eq!(coordinator.stage(), Stage::Joining);

    let (next, d) = renderer.step(Signal::ChannelClosed);
    renderer = next;
    directive = d;
    for key in keys {
        if directive != Directive::AwaitKey {
            break;
        }
        let (next, d) = renderer.step(Signal::KeyPressed(key));
        renderer = next;
        directive = d;
    }
    if directive == Directive::Exit {
        let (next, command) = coordinator.step(Event::RendererExited);
        coordinator = next;
        assert_eq!(command, Command::Finish);
    }
    (coordinator, renderer)
}

#[test]
fn two_lookups_are_dispatched_and_the_starred_hop_gives_none() {
    let (coordinator, commands) = read_input(&INPUT);
    assert_eq!(
        commands,
        vec![
            Command::Skip(Skipped::Header),
            Command::Dispatch("10.0.0.1".to_string()),
            Command::Skip(Skipped::Unresolved),
            Command::Dispatch("8.8.8.8".to_string()),
        ]
    );
    assert_eq!(coordinator.dispatched(), &vec!["10.0.0.1", "8.8.8.8"]);
    assert_eq!(coordinator.in_flight(), 2);
    let urls: Vec<String> = coordinator.dispatched().iter().map(|a| lookup_url(a)).collect();
    assert_eq!(
        urls,
        vec![
            "https://www.iplocate.io/api/lookup/10.0.0.1",
            "https://www.iplocate.io/api/lookup/8.8.8.8",
        ]
    );
}

#[test]
fn a_good_answer_delivers_one_record_with_its_country() {
    let outcome = outcome_for("8.8.8.8", LookupOutcome::TransportFailed);
    let record = record_of(outcome).expect("one record");
    assert_eq!(record.ip, "8.8.8.8");
    assert_eq!(f64::from_bits(record.latitude.to_bits()), 37.4);
    assert_eq!(f64::from_bits(record.longitude.to_bits()), -122.1);
    assert_eq!(record.country.as_deref(), Some("US"));
    assert!(record.org.is_none());
    assert!(record.subdivision.is_none());
    assert!(record.subdivision2.is_none());
    assert!(record.city.is_none());
}

#[test]
fn a_lookup_that_times_out_gives_no_record() {
    assert_eq!(record_of(outcome_for("10.0.0.1", LookupOutcome::TransportFailed)), None);
    let (coordinator, renderer) = whole_session(LookupOutcome::TransportFailed, vec![]);
    assert_eq!(coordinator.settled(), 2);
    assert_eq!(coordinator.delivered(), 1);
    assert_eq!(renderer.points(), &vec![answer_for_8_8_8_8()]);
}

#[test]
fn a_lookup_that_meets_a_server_error_gives_no_record() {
    let failure = LookupOutcome::Responded { status: 500, body: None };
    assert_eq!(record_of(outcome_for("10.0.0.1", failure.clone())), None);
    let (coordinator, renderer) = whole_session(failure, vec![]);
    assert_eq!(coordinator.settled(), 2);
    assert_eq!(coordinator.delivered(), 1);
    assert_eq!(renderer.points(), &vec![answer_for_8_8_8_8()]);

    let with_body = LookupOutcome::Responded { status: 500, body: Some(answer_for_8_8_8_8()) };
    let (coordinator, renderer) = whole_session(with_body, vec![]);
    assert_eq!(coordinator.delivered(), 1);
    assert_eq!(renderer.points().len(), 1);
}

#[test]
fn an_arrow_key_is_passed_over_and_the_quit_key_ends_the_session() {
    let (coordinator, renderer) = whole_session(LookupOutcome::TransportFailed, vec![Key::Left]);
    assert_eq!(renderer.phase(), Phase::AwaitingQuit);
    assert_eq!(coordinator.stage(), Stage::Joining);

    let (coordinator, renderer) =
        whole_session(LookupOutcome::TransportFailed, vec![Key::Left, Key::Char('q')]);
    assert_eq!(renderer.phase(), Phase::Terminated);
    assert_eq!(coordinator.stage(), Stage::Finished);
    assert_eq!(renderer.points(), &vec![answer_for_8_8_8_8()]);
}
