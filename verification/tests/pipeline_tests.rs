use streamwatch::attempt::{
    run_attempt, AttemptError, AttemptOutcome, AttemptScript, ResolveOutcome, ScriptItem,
    StreamEnd,
};
use streamwatch::event::{EventDetail, EventRef};
use streamwatch::identity::Identity;
use streamwatch::watch::run_watch;

fn ident(b: u8) -> Identity {
    Identity { bytes: vec![b; 20] }
}

fn evref(b: u8) -> EventRef {
    EventRef { id: vec![b; 32] }
}

fn detail(id: u8, from: u8, to: Option<u8>, mag: u8) -> EventDetail {
    EventDetail {
        id: vec![id; 32],
        originator: ident(from),
        recipient: to.map(ident),
        magnitude: vec![mag; 4],
    }
}

fn item(id: u8, outcome: ResolveOutcome) -> ScriptItem {
    ScriptItem { reference: evref(id), outcome }
}

fn clean_stream(items: Vec<ScriptItem>) -> AttemptScript {
    AttemptScript { connect_ok: true, subscribe_ok: true, items, end: StreamEnd::Clean }
}

#[test]
fn one_report_and_unbroken_pipeline() {
    // The stream yields a matching event, a missing reference, and a
    // non-matching event; exactly the first is reported and the pipeline
    // runs past the missing one to the clean end.
    let target = ident(1);
    let script = clean_stream(vec![
        item(10, ResolveOutcome::Resolved(detail(10, 2, Some(1), 50))),
        item(11, ResolveOutcome::Missing),
        item(12, ResolveOutcome::Resolved(detail(12, 2, Some(3), 60))),
    ]);
    let r = run_attempt(&script, &target);
    assert_eq!(r.outcome, AttemptOutcome::Terminated);
    assert_eq!(r.resolved, vec![evref(10), evref(11), evref(12)]);
    assert_eq!(r.reports.len(), 1);
    assert_eq!(r.reports[0].event_id, vec![10u8; 32]);
    assert_eq!(r.reports[0].originator, ident(2));
    assert_eq!(r.reports[0].recipient, ident(1));
    assert_eq!(r.reports[0].magnitude, vec![50u8; 4]);
}

#[test]
fn resolutions_follow_emission_order() {
    let target = ident(1);
    let script = clean_stream(vec![
        item(4, ResolveOutcome::Resolved(detail(4, 2, None, 1))),
        item(3, ResolveOutcome::Missing),
        item(2, ResolveOutcome::Resolved(detail(2, 2, Some(9), 1))),
        item(1, ResolveOutcome::Resolved(detail(1, 2, Some(1), 1))),
    ]);
    let r = run_attempt(&script, &target);
    assert_eq!(r.resolved, vec![evref(4), evref(3), evref(2), evref(1)]);
}

#[test]
fn missing_reference_changes_nothing_around_it() {
    let target = ident(1);
    let with_missing = clean_stream(vec![
        item(10, ResolveOutcome::Resolved(detail(10, 2, Some(1), 50))),
        item(11, ResolveOutcome::Missing),
        item(12, ResolveOutcome::Resolved(detail(12, 2, Some(1), 60))),
    ]);
    let without_missing = clean_stream(vec![
        item(10, ResolveOutcome::Resolved(detail(10, 2, Some(1), 50))),
        item(12, ResolveOutcome::Resolved(detail(12, 2, Some(1), 60))),
    ]);
    let a = run_attempt(&with_missing, &target);
    let b = run_attempt(&without_missing, &target);
    assert_eq!(a.reports, b.reports);
    assert_eq!(a.outcome, b.outcome);
    assert_eq!(a.reports.len(), 2);
}

#[test]
fn resolution_failure_ends_the_attempt() {
    let target = ident(1);
    let script = AttemptScript {
        connect_ok: true,
        subscribe_ok: true,
        items: vec![
            item(10, ResolveOutcome::Resolved(detail(10, 2, Some(1), 50))),
            item(11, ResolveOutcome::Failed),
            item(12, ResolveOutcome::Resolved(detail(12, 2, Some(1), 60))),
        ],
        end: StreamEnd::Clean,
    };
    let r = run_attempt(&script, &target);
    assert_eq!(r.outcome, AttemptOutcome::Failed(AttemptError::Resolution));
    // The failing resolution was issued; nothing after it was pulled.
    assert_eq!(r.resolved, vec![evref(10), evref(11)]);
    assert_eq!(r.reports.len(), 1);
}

#[test]
fn connect_failure_resolves_nothing() {
    let target = ident(1);
    let script = AttemptScript {
        connect_ok: false,
        subscribe_ok: true,
        items: vec![item(10, ResolveOutcome::Missing)],
        end: StreamEnd::Clean,
    };
    let r = run_attempt(&script, &target);
    assert_eq!(r.outcome, AttemptOutcome::Failed(AttemptError::Connection));
    assert!(r.resolved.is_empty());
    assert!(r.reports.is_empty());
}

#[test]
fn subscribe_failure_resolves_nothing() {
    let target = ident(1);
    let script = AttemptScript {
        connect_ok: true,
        subscribe_ok: false,
        items: vec![],
        end: StreamEnd::Clean,
    };
    let r = run_attempt(&script, &target);
    assert_eq!(r.outcome, AttemptOutcome::Failed(AttemptError::Subscription));
    assert!(r.resolved.is_empty());
    assert!(r.reports.is_empty());
}

#[test]
fn abnormal_end_fails_the_attempt() {
    let target = ident(1);
    let script = AttemptScript {
        connect_ok: true,
        subscribe_ok: true,
        items: vec![item(10, ResolveOutcome::Missing)],
        end: StreamEnd::Abnormal,
    };
    let r = run_attempt(&script, &target);
    assert_eq!(r.outcome, AttemptOutcome::Failed(AttemptError::Stream));
    assert_eq!(r.resolved, vec![evref(10)]);
}

#[test]
fn two_failures_then_streaming() {
    // The endpoint is unreachable on the first two attempts and reachable
    // on the third: two delays, then the stream is consumed to its clean
    // end.
    let target = ident(1);
    let unreachable = AttemptScript {
        connect_ok: false,
        subscribe_ok: true,
        items: vec![],
        end: StreamEnd::Clean,
    };
    let reachable = clean_stream(vec![item(
        10,
        ResolveOutcome::Resolved(detail(10, 2, Some(1), 50)),
    )]);
    let scripts = vec![
        unreachable,
        AttemptScript {
            connect_ok: false,
            subscribe_ok: true,
            items: vec![],
            end: StreamEnd::Clean,
        },
        reachable,
    ];
    let r = run_watch(&scripts, &target);
    assert!(r.terminated);
    assert_eq!(r.delays, 2);
    assert_eq!(r.attempts.len(), 3);
    assert_eq!(r.attempts[0].outcome, AttemptOutcome::Failed(AttemptError::Connection));
    assert_eq!(r.attempts[1].outcome, AttemptOutcome::Failed(AttemptError::Connection));
    assert_eq!(r.attempts[2].outcome, AttemptOutcome::Terminated);
    assert_eq!(r.attempts[2].reports.len(), 1);
}

#[test]
fn watch_without_success_keeps_retrying() {
    let target = ident(1);
    let scripts = vec![
        AttemptScript {
            connect_ok: true,
            subscribe_ok: true,
            items: vec![item(10, ResolveOutcome::Failed)],
            end: StreamEnd::Clean,
        },
        AttemptScript {
            connect_ok: true,
            subscribe_ok: true,
            items: vec![],
            end: StreamEnd::Abnormal,
        },
    ];
    let r = run_watch(&scripts, &target);
    assert!(!r.terminated);
    assert_eq!(r.delays, 2);
    assert_eq!(r.attempts.len(), 2);
    assert_eq!(r.attempts[0].outcome, AttemptOutcome::Failed(AttemptError::Resolution));
    assert_eq!(r.attempts[1].outcome, AttemptOutcome::Failed(AttemptError::Stream));
}

#[test]
fn watch_stops_at_first_clean_termination() {
    let target = ident(1);
    let scripts = vec![
        clean_stream(vec![]),
        AttemptScript {
            connect_ok: false,
            subscribe_ok: true,
            items: vec![],
            end: StreamEnd::Clean,
        },
    ];
    let r = run_watch(&scripts, &target);
    assert!(r.terminated);
    assert_eq!(r.delays, 0);
    assert_eq!(r.attempts.len(), 1);
    assert_eq!(r.attempts[0].outcome, AttemptOutcome::Terminated);
}
