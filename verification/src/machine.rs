//! The watch loop as an explicit finite state machine.
//!
//! One watch session moves through `Idle -> Connecting -> Streaming ->
//! (Terminated | Retrying -> Connecting)`. Every outside observation is an
//! [`Event`]; [`step`] answers with the next [`State`] and the [`Action`]
//! owed for it. The caller performs the action (connect, resolve, report,
//! sleep) and hands the outcome back as the next event.

use vstd::prelude::*;
use crate::event::{
    filter_detail, is_match, report_of, DetailModel, EventDetail, EventRef, Report, ReportModel,
};
use crate::identity::Identity;
use vstd::pervasive::unreached;

verus! {

/// Seconds waited between a failed attempt and the next connection attempt.
/// The retry policy is a constant delay with no cap on the attempt count.
pub const RETRY_DELAY_SECS: u64 = 5;

/// The phases of one watch session.
#[derive(Debug, PartialEq, Eq, Structural, Clone, Copy)]
pub enum State {
    /// Before the first connection attempt.
    Idle,
    /// A connection attempt is in progress.
    Connecting,
    /// A subscription is open and references are being pulled.
    Streaming,
    /// The last attempt failed; waiting out the fixed delay.
    Retrying,
    /// The remote signaled a clean end of stream; the session is over.
    Terminated,
}

/// What the outside world reported to the watch loop.
#[derive(Debug, PartialEq, Eq)]
pub enum Event {
    /// The session begins.
    Start,
    /// The connection handshake failed.
    ConnectFailed,
    /// The feed could not be opened over the new connection.
    SubscribeFailed,
    /// Connecting and subscribing both succeeded.
    Connected,
    /// The subscription yielded the next reference.
    RefReceived(EventRef),
    /// A resolution call returned the full detail.
    Resolved(EventDetail),
    /// A resolution call found the reference gone; not a failure.
    ResolveMissing,
    /// A resolution call failed for any other reason.
    ResolveFailed,
    /// The stream ended with the remote's clean end-of-stream signal.
    StreamEndedClean,
    /// The stream ended abnormally, or a pull failed.
    StreamEndedAbnormal,
    /// The retry delay has elapsed.
    DelayElapsed,
}

/// The mathematical value of an [`Event`].
pub enum EventModel {
    Start,
    ConnectFailed,
    SubscribeFailed,
    Connected,
    RefReceived(Seq<u8>),
    Resolved(DetailModel),
    ResolveMissing,
    ResolveFailed,
    StreamEndedClean,
    StreamEndedAbnormal,
    DelayElapsed,
}

impl View for Event {
    type V = EventModel;

    open spec fn view(&self) -> EventModel {
        match self {
            Event::Start => EventModel::Start,
            Event::ConnectFailed => EventModel::ConnectFailed,
            Event::SubscribeFailed => EventModel::SubscribeFailed,
            Event::Connected => EventModel::Connected,
            Event::RefReceived(r) => EventModel::RefReceived(r@),
            Event::Resolved(d) => EventModel::Resolved(d@),
            Event::ResolveMissing => EventModel::ResolveMissing,
            Event::ResolveFailed => EventModel::ResolveFailed,
            Event::StreamEndedClean => EventModel::StreamEndedClean,
            Event::StreamEndedAbnormal => EventModel::StreamEndedAbnormal,
            Event::DelayElapsed => EventModel::DelayElapsed,
        }
    }
}

/// What the watch loop asks its caller to do next.
#[derive(Debug, PartialEq, Eq)]
pub enum Action {
    /// Attempt a connection and open the feed.
    Connect,
    /// Pull the next reference from the subscription.
    PullNext,
    /// Resolve this reference to its full detail.
    Resolve(EventRef),
    /// Surface this record to the reporting sink, then pull the next
    /// reference.
    Report(Report),
    /// Wait the fixed retry delay.
    Sleep,
    /// End the session with success.
    Exit,
}

/// The mathematical value of an [`Action`].
pub enum ActionModel {
    Connect,
    PullNext,
    Resolve(Seq<u8>),
    Report(ReportModel),
    Sleep,
    Exit,
}

impl View for Action {
    type V = ActionModel;

    open spec fn view(&self) -> ActionModel {
        match self {
            Action::Connect => ActionModel::Connect,
            Action::PullNext => ActionModel::PullNext,
            Action::Resolve(r) => ActionModel::Resolve(r@),
            Action::Report(rep) => ActionModel::Report(rep@),
            Action::Sleep => ActionModel::Sleep,
            Action::Exit => ActionModel::Exit,
        }
    }
}

/// Which events can be observed in which state. The watch loop never sees
/// any other pairing: it alone decides which operation runs next, so every
/// event answers the action that asked for it.
pub open spec fn accepts(s: State, e: EventModel) -> bool {
    match s {
        State::Idle => e is Start,
        State::Connecting => e is Connected || e is ConnectFailed || e is SubscribeFailed,
        State::Streaming => e is RefReceived || e is Resolved || e is ResolveMissing
            || e is ResolveFailed || e is StreamEndedClean || e is StreamEndedAbnormal,
        State::Retrying => e is DelayElapsed,
        State::Terminated => false,
    }
}

/// The transition relation of the session, as a function: the state after
/// observing `e` in `s`.
pub open spec fn next_state(s: State, e: EventModel) -> State {
    match (s, e) {
        (State::Idle, EventModel::Start) => State::Connecting,
        (State::Connecting, EventModel::Connected) => State::Streaming,
        (State::Connecting, EventModel::ConnectFailed) => State::Retrying,
        (State::Connecting, EventModel::SubscribeFailed) => State::Retrying,
        (State::Streaming, EventModel::RefReceived(_)) => State::Streaming,
        (State::Streaming, EventModel::Resolved(_)) => State::Streaming,
        (State::Streaming, EventModel::ResolveMissing) => State::Streaming,
        (State::Streaming, EventModel::ResolveFailed) => State::Retrying,
        (State::Streaming, EventModel::StreamEndedClean) => State::Terminated,
        (State::Streaming, EventModel::StreamEndedAbnormal) => State::Retrying,
        (State::Retrying, EventModel::DelayElapsed) => State::Connecting,
        (_, _) => s,
    }
}

/// The action owed after observing `e` in `s`, for the watched identity
/// `target`.
pub open spec fn action_of(s: State, e: EventModel, target: Seq<u8>) -> ActionModel {
    match (s, e) {
        (State::Idle, EventModel::Start) => ActionModel::Connect,
        (State::Connecting, EventModel::Connected) => ActionModel::PullNext,
        (State::Connecting, EventModel::ConnectFailed) => ActionModel::Sleep,
        (State::Connecting, EventModel::SubscribeFailed) => ActionModel::Sleep,
        (State::Streaming, EventModel::RefReceived(r)) => ActionModel::Resolve(r),
        (State::Streaming, EventModel::Resolved(d)) => if is_match(d, target) {
            ActionModel::Report(report_of(d, target))
        } else {
            ActionModel::PullNext
        },
        (State::Streaming, EventModel::ResolveMissing) => ActionModel::PullNext,
        (State::Streaming, EventModel::ResolveFailed) => ActionModel::Sleep,
        (State::Streaming, EventModel::StreamEndedClean) => ActionModel::Exit,
        (State::Streaming, EventModel::StreamEndedAbnormal) => ActionModel::Sleep,
        (State::Retrying, EventModel::DelayElapsed) => ActionModel::Connect,
        (_, _) => ActionModel::PullNext,
    }
}

/// One step of the watch loop: observe `e` in state `s`, move to the next
/// state and answer the action owed. The result is exactly what the
/// transition relation and [`action_of`] prescribe.
pub fn step(s: State, e: Event, target: &Identity) -> (r: (State, Action))
    requires
        accepts(s, e@),
    ensures
        r.0 == next_state(s, e@),
        r.1@ == action_of(s, e@, target@),
{
    match (s, e) {
        (State::Idle, Event::Start) => (State::Connecting, Action::Connect),
        (State::Connecting, Event::Connected) => (State::Streaming, Action::PullNext),
        (State::Connecting, Event::ConnectFailed) => (State::Retrying, Action::Sleep),
        (State::Connecting, Event::SubscribeFailed) => (State::Retrying, Action::Sleep),
        (State::Streaming, Event::RefReceived(r)) => (State::Streaming, Action::Resolve(r)),
        (State::Streaming, Event::Resolved(d)) => {
            match filter_detail(d, target) {
                Option::Some(rep) => (State::Streaming, Action::Report(rep)),
                Option::None => (State::Streaming, Action::PullNext),
            }
        },
        (State::Streaming, Event::ResolveMissing) => (State::Streaming, Action::PullNext),
        (State::Streaming, Event::ResolveFailed) => (State::Retrying, Action::Sleep),
        (State::Streaming, Event::StreamEndedClean) => (State::Terminated, Action::Exit),
        (State::Streaming, Event::StreamEndedAbnormal) => (State::Retrying, Action::Sleep),
        (State::Retrying, Event::DelayElapsed) => (State::Connecting, Action::Connect),
        (_, _) => unreached(),
    }
}

/// The four points where an attempt can fail: the connect, the subscribe,
/// a pull (or any abnormal end of the stream), and a resolution.
pub open spec fn failure_event(s: State, e: EventModel) -> bool {
    ||| s == State::Connecting && (e is ConnectFailed || e is SubscribeFailed)
    ||| s == State::Streaming && (e is ResolveFailed || e is StreamEndedAbnormal)
}

/// Retry invariant: a failure at connect, subscribe, pull, or resolve time
/// moves the session to `Retrying` and asks for the fixed delay, and once
/// the delay has elapsed the session re-enters `Connecting` with a fresh
/// connection attempt. No other action is ever asked for on a failure, so
/// nothing of the failed attempt is carried into the next one.
pub proof fn lemma_retry_invariant(s: State, e: EventModel, target: Seq<u8>)
    requires
        failure_event(s, e),
    ensures
        next_state(s, e) == State::Retrying,
        action_of(s, e, target) is Sleep,
        next_state(State::Retrying, EventModel::DelayElapsed) == State::Connecting,
        action_of(State::Retrying, EventModel::DelayElapsed, target) is Connect,
{
}

/// Termination: a clean end-of-stream signal is the one transition into
/// `Terminated`, and it asks the caller to exit with success; an abnormal
/// end instead moves to `Retrying`.
pub proof fn lemma_termination(target: Seq<u8>)
    ensures
        next_state(State::Streaming, EventModel::StreamEndedClean) == State::Terminated,
        action_of(State::Streaming, EventModel::StreamEndedClean, target) is Exit,
        next_state(State::Streaming, EventModel::StreamEndedAbnormal) == State::Retrying,
        forall|s: State, e: EventModel|
            accepts(s, e) && next_state(s, e) == State::Terminated
                ==> s == State::Streaming && e is StreamEndedClean,
{
}

} // verus!
