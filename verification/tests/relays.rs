use execution_processes::raw_logs::{RawFrame, RawLog, RawRelay};
use execution_processes::relay::{Inbound, Phase, Relay, RelayAction, RelayEvent};

fn shown<M: std::fmt::Debug>(actions: &[RelayAction<M>]) -> Vec<String> {
    actions.iter().map(|action| format!("{:?}", action)).collect()
}

fn run(started: (Relay, RelayAction<u8>), events: Vec<RelayEvent<u8>>) -> Vec<String> {
    let (mut relay, first) = started;
    let mut actions = vec![first];
    for event in events {
        assert!(relay.expects(&event));
        actions.push(relay.step(event));
    }
    shown(&actions)
}

#[test]
fn messages_are_relayed_in_order() {
    let actions = run(
        Relay::for_normalized_logs(true),
        vec![
            RelayEvent::Item(7),
            RelayEvent::Sent(true),
            RelayEvent::Received(Inbound::Other),
            RelayEvent::Item(8),
            RelayEvent::Sent(true),
            RelayEvent::StreamEnded,
            RelayEvent::Closed,
        ],
    );
    assert_eq!(
        actions,
        vec!["Wait", "Send(7)", "Wait", "Wait", "Send(8)", "Wait", "Close", "Stop"]
    );
}

#[test]
fn relay_leaves_when_either_side_is_done() {
    for reason in [
        RelayEvent::<u8>::StreamFailed,
        RelayEvent::StreamEnded,
        RelayEvent::Received(Inbound::Close),
        RelayEvent::Received(Inbound::Ended),
        RelayEvent::Received(Inbound::Failed),
    ] {
        let (mut relay, _) = Relay::for_normalized_logs::<u8>(true);
        assert!(matches!(relay.step(reason), RelayAction::Close));
        assert!(matches!(relay.phase, Phase::Closing));
    }
    let actions = run(
        Relay::for_normalized_logs(true),
        vec![RelayEvent::Item(1), RelayEvent::Sent(false), RelayEvent::Closed],
    );
    assert_eq!(actions, vec!["Wait", "Send(1)", "Close", "Stop"]);
}

#[test]
fn session_relay_does_not_close() {
    let actions = run(Relay::for_session(), vec![RelayEvent::Received(Inbound::Close)]);
    assert_eq!(actions, vec!["Wait", "Stop"]);
    let failed = run(Relay::for_session(), vec![RelayEvent::Item(1), RelayEvent::Sent(false)]);
    assert_eq!(failed, vec!["Wait", "Send(1)", "Stop"]);
}

#[test]
fn missing_stream_is_refused_cleanly() {
    for delivered in [true, false] {
        let actions = run(
            Relay::for_normalized_logs(false),
            vec![RelayEvent::Sent(delivered), RelayEvent::Closed],
        );
        assert_eq!(actions, vec!["SendFinished", "Close", "Stop"]);
        let (mut raw, first) = RawRelay::start(false);
        assert!(matches!(first, RelayAction::SendFinished));
        assert!(matches!(raw.step(RelayEvent::Sent(delivered)), RelayAction::Close));
        assert!(matches!(raw.step(RelayEvent::Closed), RelayAction::Stop));
    }
}

#[test]
fn relay_expects_what_it_asked_for() {
    let (mut relay, _) = Relay::for_normalized_logs::<u8>(true);
    assert!(relay.expects(&RelayEvent::Item(1)));
    assert!(!relay.expects::<u8>(&RelayEvent::Sent(true)));
    assert!(!relay.expects::<u8>(&RelayEvent::Closed));
    relay.step(RelayEvent::Item(1));
    assert!(relay.expects::<u8>(&RelayEvent::Sent(false)));
    assert!(!relay.expects(&RelayEvent::Item(2)));
    relay.step::<u8>(RelayEvent::Sent(false));
    assert!(relay.expects::<u8>(&RelayEvent::Closed));
    assert!(!relay.expects::<u8>(&RelayEvent::StreamEnded));
    relay.step::<u8>(RelayEvent::Closed);
    assert!(!relay.expects::<u8>(&RelayEvent::Closed));
    assert!(!relay.expects::<u8>(&RelayEvent::Received(Inbound::Close)));
}

#[test]
fn raw_entries_are_numbered() {
    let (mut relay, first) = RawRelay::start(true);
    assert!(matches!(first, RelayAction::Wait));
    let mut frames = Vec::new();
    for log in [
        RawLog::Stdout("a".to_string()),
        RawLog::Stderr("b".to_string()),
        RawLog::Finished,
        RawLog::Stdout("c".to_string()),
    ] {
        match relay.step(RelayEvent::Item(log)) {
            RelayAction::Send(frame) => frames.push(format!("{:?}", frame)),
            _ => panic!("a message is sent"),
        }
        assert!(matches!(relay.step(RelayEvent::Sent(true)), RelayAction::Wait));
    }
    assert_eq!(
        frames,
        vec![
            "AddStdout { index: 0, content: \"a\" }",
            "AddStderr { index: 1, content: \"b\" }",
            "Finished",
            "AddStdout { index: 2, content: \"c\" }",
        ]
    );
    assert!(matches!(relay.step(RelayEvent::StreamEnded), RelayAction::Close));
    assert!(matches!(relay.step(RelayEvent::Closed), RelayAction::Stop));
}

#[test]
fn raw_index_starts_over_behind_the_greatest() {
    let (mut relay, _) = RawRelay::start(true);
    relay.next_index = usize::MAX;
    assert!(matches!(
        relay.frame(RawLog::Stderr(String::new())),
        RawFrame::AddStderr { index: usize::MAX, .. }
    ));
    assert!(matches!(
        relay.frame(RawLog::Stdout(String::new())),
        RawFrame::AddStdout { index: 0, .. }
    ));
    assert_eq!(relay.next_index, 1);
}
