use streamwatch::event::{filter_detail, EventDetail, EventRef};
use streamwatch::identity::Identity;
use streamwatch::machine::{step, Action, Event, State, RETRY_DELAY_SECS};

fn ident(b: u8) -> Identity {
    Identity { bytes: vec![b; 20] }
}

fn evref(b: u8) -> EventRef {
    EventRef { id: vec![b; 32] }
}

fn detail(id: u8, from: u8, to: Option<u8>, mag: u8) -> EventDetail {
    EventDetail {
        id: vec![id; 32],
        originator: ident(from),
        recipient: to.map(ident),
        magnitude: vec![mag; 4],
    }
}

#[test]
fn retry_delay_is_five_seconds() {
    assert_eq!(RETRY_DELAY_SECS, 5);
}

#[test]
fn start_asks_for_a_connection() {
    let target = ident(1);
    assert_eq!(
        step(State::Idle, Event::Start, &target),
        (State::Connecting, Action::Connect)
    );
}

#[test]
fn connected_starts_streaming() {
    let target = ident(1);
    assert_eq!(
        step(State::Connecting, Event::Connected, &target),
        (State::Streaming, Action::PullNext)
    );
}

#[test]
fn connect_failure_retries_after_delay() {
    let target = ident(1);
    assert_eq!(
        step(State::Connecting, Event::ConnectFailed, &target),
        (State::Retrying, Action::Sleep)
    );
}

#[test]
fn subscribe_failure_retries_after_delay() {
    let target = ident(1);
    assert_eq!(
        step(State::Connecting, Event::SubscribeFailed, &target),
        (State::Retrying, Action::Sleep)
    );
}

#[test]
fn pull_failure_retries_after_delay() {
    let target = ident(1);
    assert_eq!(
        step(State::Streaming, Event::StreamEndedAbnormal, &target),
        (State::Retrying, Action::Sleep)
    );
}

#[test]
fn resolve_failure_retries_after_delay() {
    let target = ident(1);
    assert_eq!(
        step(State::Streaming, Event::ResolveFailed, &target),
        (State::Retrying, Action::Sleep)
    );
}

#[test]
fn elapsed_delay_reconnects() {
    let target = ident(1);
    assert_eq!(
        step(State::Retrying, Event::DelayElapsed, &target),
        (State::Connecting, Action::Connect)
    );
}

#[test]
fn clean_end_terminates_with_success() {
    let target = ident(1);
    assert_eq!(
        step(State::Streaming, Event::StreamEndedClean, &target),
        (State::Terminated, Action::Exit)
    );
}

#[test]
fn received_reference_is_resolved() {
    let target = ident(1);
    let (s, a) = step(State::Streaming, Event::RefReceived(evref(9)), &target);
    assert_eq!(s, State::Streaming);
    assert_eq!(a, Action::Resolve(evref(9)));
}

#[test]
fn missing_reference_is_skipped_silently() {
    let target = ident(1);
    assert_eq!(
        step(State::Streaming, Event::ResolveMissing, &target),
        (State::Streaming, Action::PullNext)
    );
}

#[test]
fn matching_detail_is_reported() {
    let target = ident(1);
    let (s, a) = step(
        State::Streaming,
        Event::Resolved(detail(9, 2, Some(1), 77)),
        &target,
    );
    assert_eq!(s, State::Streaming);
    match a {
        Action::Report(report) => {
            assert_eq!(report.event_id, vec![9u8; 32]);
            assert_eq!(report.originator, ident(2));
            assert_eq!(report.recipient, ident(1));
            assert_eq!(report.magnitude, vec![77u8; 4]);
        }
        other => panic!("expected a report, got {:?}", other),
    }
}

#[test]
fn non_matching_detail_is_discarded() {
    let target = ident(1);
    assert_eq!(
        step(State::Streaming, Event::Resolved(detail(9, 2, Some(3), 77)), &target),
        (State::Streaming, Action::PullNext)
    );
}

#[test]
fn detail_without_recipient_is_discarded() {
    let target = ident(1);
    assert_eq!(
        step(State::Streaming, Event::Resolved(detail(9, 2, None, 77)), &target),
        (State::Streaming, Action::PullNext)
    );
}

#[test]
fn filter_emits_exactly_one_report_for_a_match() {
    let target = ident(1);
    let r = filter_detail(detail(5, 2, Some(1), 42), &target);
    let report = r.expect("a matching detail owes one report");
    assert_eq!(report.event_id, vec![5u8; 32]);
    assert_eq!(report.originator, ident(2));
    assert_eq!(report.recipient, ident(1));
    assert_eq!(report.magnitude, vec![42u8; 4]);
}

#[test]
fn filter_emits_nothing_for_other_recipient() {
    let target = ident(1);
    assert_eq!(filter_detail(detail(5, 2, Some(4), 42), &target), None);
}

#[test]
fn filter_emits_nothing_for_absent_recipient() {
    let target = ident(1);
    assert_eq!(filter_detail(detail(5, 2, None, 42), &target), None);
}
