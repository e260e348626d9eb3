//! One attempt: connect, subscribe, and consume the subscription.
//!
//! The outside world's behaviour during one attempt is written down as an
//! [`AttemptScript`]: whether connecting and subscribing succeed, what each
//! pulled reference resolves to, and how the stream ends. [`run_attempt`]
//! drives the state machine of [`crate::machine`] over the script and
//! returns exactly the resolutions issued, the reports emitted, and the
//! attempt's outcome. The laws of the pipeline are stated over the same
//! specification functions and proved below.

use vstd::prelude::*;
use crate::event::{is_match, report_of, DetailModel, EventDetail, EventRef, Report, ReportModel};
use crate::identity::Identity;
use crate::machine::{step, Action, Event, State};
use vstd::pervasive::unreached;

verus! {

/// What one resolution call answered for a pulled reference.
#[derive(Debug, PartialEq, Eq)]
pub enum ResolveOutcome {
    /// The full detail came back.
    Resolved(EventDetail),
    /// The reference no longer resolves; skipped silently.
    Missing,
    /// The call failed for any other reason; the attempt ends.
    Failed,
}

/// The mathematical value of a [`ResolveOutcome`].
pub enum OutcomeModel {
    Resolved(DetailModel),
    Missing,
    Failed,
}

/// One reference as the subscription emits it, with what resolving it
/// answers.
#[derive(Debug, PartialEq, Eq)]
pub struct ScriptItem {
    pub reference: EventRef,
    pub outcome: ResolveOutcome,
}

/// The mathematical value of a [`ScriptItem`].
pub struct ItemModel {
    pub reference: Seq<u8>,
    pub outcome: OutcomeModel,
}

impl View for ScriptItem {
    type V = ItemModel;

    open spec fn view(&self) -> ItemModel {
        ItemModel {
            reference: self.reference@,
            outcome: match &self.outcome {
                ResolveOutcome::Resolved(d) => OutcomeModel::Resolved(d@),
                ResolveOutcome::Missing => OutcomeModel::Missing,
                ResolveOutcome::Failed => OutcomeModel::Failed,
            },
        }
    }
}

/// How the subscription's sequence ends, once every scripted reference has
/// been consumed.
#[derive(Debug, PartialEq, Eq, Structural, Clone, Copy)]
pub enum StreamEnd {
    /// The remote signaled the clean, expected end of the stream.
    Clean,
    /// The stream broke off, or a pull failed.
    Abnormal,
}

/// The outside world's behaviour during one attempt.
#[derive(Debug, PartialEq, Eq)]
pub struct AttemptScript {
    /// Whether the connection handshake succeeds.
    pub connect_ok: bool,
    /// Whether opening the feed over the new connection succeeds.
    pub subscribe_ok: bool,
    /// The references the subscription emits, in order, with what resolving
    /// each answers. Items after a failing one are never reached.
    pub items: Vec<ScriptItem>,
    /// How the stream ends after the last reached item.
    pub end: StreamEnd,
}

/// The mathematical value of an [`AttemptScript`].
pub struct ScriptModel {
    pub connect_ok: bool,
    pub subscribe_ok: bool,
    pub items: Seq<ItemModel>,
    pub end: StreamEnd,
}

/// The values of a sequence of script items.
pub open spec fn items_view(v: Seq<ScriptItem>) -> Seq<ItemModel> {
    v.map_values(|it: ScriptItem| it@)
}

impl View for AttemptScript {
    type V = ScriptModel;

    open spec fn view(&self) -> ScriptModel {
        ScriptModel {
            connect_ok: self.connect_ok,
            subscribe_ok: self.subscribe_ok,
            items: items_view(self.items@),
            end: self.end,
        }
    }
}

/// The error classes that end an attempt.
#[derive(Debug, PartialEq, Eq, Structural, Clone, Copy)]
pub enum AttemptError {
    /// The connection handshake failed.
    Connection,
    /// The feed could not be opened.
    Subscription,
    /// The stream ended abnormally or a pull failed.
    Stream,
    /// A resolution call failed with other than a missing reference.
    Resolution,
}

/// How one attempt ended.
#[derive(Debug, PartialEq, Eq, Structural, Clone, Copy)]
pub enum AttemptOutcome {
    /// The stream ended cleanly; the session is over.
    Terminated,
    /// The attempt failed; the session retries after the fixed delay.
    Failed(AttemptError),
}

/// Everything one attempt did: the references it resolved, in the order the
/// resolutions were issued; the reports it emitted, in stream order; and how
/// it ended.
#[derive(Debug, PartialEq, Eq)]
pub struct AttemptResult {
    pub resolved: Vec<EventRef>,
    pub reports: Vec<Report>,
    pub outcome: AttemptOutcome,
}

/// The values of a sequence of references.
pub open spec fn refs_view(v: Seq<EventRef>) -> Seq<Seq<u8>> {
    v.map_values(|r: EventRef| r@)
}

/// The values of a sequence of reports.
pub open spec fn reports_view(v: Seq<Report>) -> Seq<ReportModel> {
    v.map_values(|p: Report| p@)
}

/// The mathematical value of an [`AttemptResult`].
pub struct AttemptResultModel {
    pub resolved: Seq<Seq<u8>>,
    pub reports: Seq<ReportModel>,
    pub outcome: AttemptOutcome,
}

impl View for AttemptResult {
    type V = AttemptResultModel;

    open spec fn view(&self) -> AttemptResultModel {
        AttemptResultModel {
            resolved: refs_view(self.resolved@),
            reports: reports_view(self.reports@),
            outcome: self.outcome,
        }
    }
}

/// Whether some scripted resolution fails.
pub open spec fn has_failed(items: Seq<ItemModel>) -> bool {
    exists|i: int| 0 <= i < items.len() && items[i].outcome is Failed
}

/// How many references the attempt pulls and resolves: all of them, or up to
/// and including the first whose resolution fails.
pub open spec fn processed_len(items: Seq<ItemModel>) -> int
    decreases items.len(),
{
    if items.len() == 0 {
        0
    } else if items.first().outcome is Failed {
        1
    } else {
        1 + processed_len(items.drop_first())
    }
}

/// The references of the items, in emission order.
pub open spec fn refs_of(items: Seq<ItemModel>) -> Seq<Seq<u8>> {
    items.map_values(|it: ItemModel| it.reference)
}

/// The reports one item owes: one for a resolved detail whose recipient is
/// the watched identity, none otherwise.
pub open spec fn item_reports(it: ItemModel, target: Seq<u8>) -> Seq<ReportModel> {
    match it.outcome {
        OutcomeModel::Resolved(d) => if is_match(d, target) {
            seq![report_of(d, target)]
        } else {
            Seq::empty()
        },
        OutcomeModel::Missing => Seq::empty(),
        OutcomeModel::Failed => Seq::empty(),
    }
}

/// The reports the whole attempt owes, in stream order: those of each item
/// before the first failing resolution.
pub open spec fn reports_of(items: Seq<ItemModel>, target: Seq<u8>) -> Seq<ReportModel>
    decreases items.len(),
{
    if items.len() == 0 {
        Seq::empty()
    } else if items.first().outcome is Failed {
        Seq::empty()
    } else {
        item_reports(items.first(), target) + reports_of(items.drop_first(), target)
    }
}

/// How an attempt with this script must end.
pub open spec fn attempt_outcome_of(s: ScriptModel) -> AttemptOutcome {
    if !s.connect_ok {
        AttemptOutcome::Failed(AttemptError::Connection)
    } else if !s.subscribe_ok {
        AttemptOutcome::Failed(AttemptError::Subscription)
    } else if has_failed(s.items) {
        AttemptOutcome::Failed(AttemptError::Resolution)
    } else if s.end is Clean {
        AttemptOutcome::Terminated
    } else {
        AttemptOutcome::Failed(AttemptError::Stream)
    }
}

/// Everything an attempt with this script must do: no resolutions and no
/// reports when the feed never opens; otherwise one resolution per emitted
/// reference up to and including the first failing one, in emission order,
/// and the reports owed for the items reached.
pub open spec fn attempt_model(s: ScriptModel, target: Seq<u8>) -> AttemptResultModel {
    if !s.connect_ok || !s.subscribe_ok {
        AttemptResultModel {
            resolved: Seq::empty(),
            reports: Seq::empty(),
            outcome: attempt_outcome_of(s),
        }
    } else {
        AttemptResultModel {
            resolved: refs_of(s.items.take(processed_len(s.items))),
            reports: reports_of(s.items, target),
            outcome: attempt_outcome_of(s),
        }
    }
}

proof fn lemma_has_failed_decompose(items: Seq<ItemModel>)
    requires
        items.len() > 0,
    ensures
        has_failed(items) == (items.first().outcome is Failed || has_failed(items.drop_first())),
{
    if items.first().outcome is Failed {
        assert(has_failed(items));
    }
    if has_failed(items.drop_first()) {
        let i = choose|i: int|
            0 <= i < items.drop_first().len() && items.drop_first()[i].outcome is Failed;
        assert(items[i + 1].outcome is Failed);
        assert(has_failed(items));
    }
    if has_failed(items) && !(items.first().outcome is Failed) {
        let i = choose|i: int| 0 <= i < items.len() && items[i].outcome is Failed;
        assert(items.drop_first()[i - 1].outcome is Failed);
        assert(has_failed(items.drop_first()));
    }
}

proof fn lemma_snoc(items: Seq<ItemModel>, x: ItemModel, target: Seq<u8>)
    requires
        !has_failed(items),
    ensures
        processed_len(items.push(x)) == items.len() + 1,
        reports_of(items.push(x), target) == reports_of(items, target) + item_reports(x, target),
    decreases items.len(),
{
    if items.len() == 0 {
        assert(items.push(x)[0] == x);
        assert(items.push(x).first() == x);
        assert(items.push(x).drop_first() =~= Seq::<ItemModel>::empty());
        assert(processed_len(items.push(x).drop_first()) == 0);
        if x.outcome is Failed {
            assert(reports_of(items.push(x), target) =~= reports_of(items, target) + item_reports(
                x,
                target,
            ));
        } else {
            assert(reports_of(items.push(x), target) == item_reports(x, target) + reports_of(
                items.push(x).drop_first(),
                target,
            ));
            assert(reports_of(items.push(x).drop_first(), target)
                == Seq::<ReportModel>::empty());
            assert(reports_of(items.push(x), target) =~= reports_of(items, target) + item_reports(
                x,
                target,
            ));
        }
    } else {
        assert(!(items.first().outcome is Failed));
        assert(items.push(x).first() == items.first());
        assert(items.push(x).drop_first() =~= items.drop_first().push(x));
        assert(!has_failed(items.drop_first())) by {
            lemma_has_failed_decompose(items);
        }
        lemma_snoc(items.drop_first(), x, target);
        assert(reports_of(items.push(x), target) =~= reports_of(items, target) + item_reports(
            x,
            target,
        ));
    }
}

proof fn lemma_no_fail_processed(items: Seq<ItemModel>)
    requires
        !has_failed(items),
    ensures
        processed_len(items) == items.len(),
    decreases items.len(),
{
    if items.len() > 0 {
        lemma_has_failed_decompose(items);
        lemma_no_fail_processed(items.drop_first());
    }
}

proof fn lemma_first_fail(items: Seq<ItemModel>, k: int, target: Seq<u8>)
    requires
        0 <= k < items.len(),
        items[k].outcome is Failed,
        !has_failed(items.take(k)),
    ensures
        processed_len(items) == k + 1,
        reports_of(items, target) == reports_of(items.take(k + 1), target),
    decreases k,
{
    if k == 0 {
        assert(items.take(1).first() == items.first());
    } else {
        assert(items.take(k)[0] == items[0]);
        assert(!(items.first().outcome is Failed));
        let rest = items.drop_first();
        assert(rest[k - 1].outcome is Failed);
        assert(rest.take(k - 1) =~= items.take(k).drop_first());
        assert(!has_failed(rest.take(k - 1))) by {
            lemma_has_failed_decompose(items.take(k));
        }
        lemma_first_fail(rest, k - 1, target);
        assert(items.take(k + 1).first() == items.first());
        assert(items.take(k + 1).drop_first() =~= rest.take(k));
    }
}

/// Ordering invariant: when no resolution fails, every emitted reference is
/// resolved, and the sequence of resolutions issued equals the sequence of
/// references emitted, element for element and in the same order. Together
/// with [`run_attempt`]'s contract this pins the resolve calls of an attempt
/// to the emission order, never reordered and never batched.
pub proof fn lemma_ordering(items: Seq<ItemModel>)
    requires
        !has_failed(items),
    ensures
        processed_len(items) == items.len(),
        refs_of(items.take(processed_len(items))) == refs_of(items),
        refs_of(items).len() == items.len(),
        forall|j: int| 0 <= j < items.len() ==> refs_of(items)[j] == items[j].reference,
{
    lemma_no_fail_processed(items);
    assert(items.take(items.len() as int) =~= items);
}

/// A missing reference is transparent: dropping it from the stream changes
/// neither the reports emitted (its neighbours' reports included) nor
/// whether the attempt fails — it is never reported and never triggers a
/// retry, and the references around it are processed as if it were absent.
pub proof fn lemma_notfound_transparent(items: Seq<ItemModel>, k: int, target: Seq<u8>)
    requires
        0 <= k < items.len(),
        items[k].outcome is Missing,
    ensures
        reports_of(items, target) == reports_of(items.remove(k), target),
        has_failed(items) == has_failed(items.remove(k)),
        has_failed(items.take(k)) ==> processed_len(items) == processed_len(items.remove(k)),
        !has_failed(items.take(k)) ==> processed_len(items) == processed_len(items.remove(k)) + 1,
        forall|connect_ok: bool, subscribe_ok: bool, end: StreamEnd|
            attempt_outcome_of(ScriptModel { connect_ok, subscribe_ok, items, end })
                == attempt_outcome_of(
                ScriptModel { connect_ok, subscribe_ok, items: items.remove(k), end },
            ),
    decreases k,
{
    let shorter = items.remove(k);
    if k == 0 {
        assert(shorter =~= items.drop_first());
        lemma_has_failed_decompose(items);
        assert(item_reports(items.first(), target) + reports_of(items.drop_first(), target)
            =~= reports_of(items.drop_first(), target));
        assert(!has_failed(items.take(0)));
        assert(processed_len(items) == 1 + processed_len(items.drop_first()));
    } else {
        assert(shorter[0] == items[0]);
        lemma_has_failed_decompose(items);
        lemma_has_failed_decompose(shorter);
        if items.first().outcome is Failed {
            assert(has_failed(items));
            assert(has_failed(shorter));
            assert(items.take(k)[0] == items[0]);
            assert(has_failed(items.take(k)));
            assert(processed_len(items) == 1);
            assert(processed_len(shorter) == 1);
        } else {
            assert(shorter.drop_first() =~= items.drop_first().remove(k - 1));
            assert(items.drop_first()[k - 1].outcome is Missing);
            lemma_notfound_transparent(items.drop_first(), k - 1, target);
            assert(shorter.first() == items.first());
            assert(items.take(k).first() == items.first());
            assert(items.take(k).drop_first() =~= items.drop_first().take(k - 1));
            lemma_has_failed_decompose(items.take(k));
            assert(has_failed(items.take(k)) == has_failed(items.drop_first().take(k - 1)));
            assert(processed_len(items) == 1 + processed_len(items.drop_first()));
            assert(processed_len(shorter) == 1 + processed_len(shorter.drop_first()));
        }
    }
}

/// Runs one attempt of the watch loop over a script, driving the state
/// machine: one `step` per observation, the `Resolve` actions recorded in
/// the order they are issued, the `Report` actions recorded in stream
/// order, and the outcome read off the final state.
pub fn run_attempt(script: &AttemptScript, target: &Identity) -> (r: AttemptResult)
    ensures
        r@ == attempt_model(script@, target@),
{
    let mut resolved: Vec<EventRef> = Vec::new();
    let mut reports: Vec<Report> = Vec::new();
    proof {
        assert(refs_view(resolved@) =~= Seq::<Seq<u8>>::empty());
        assert(reports_view(reports@) =~= Seq::<ReportModel>::empty());
    }
    if !script.connect_ok {
        let (_s, _a) = step(State::Connecting, Event::ConnectFailed, target);
        return AttemptResult {
            resolved,
            reports,
            outcome: AttemptOutcome::Failed(AttemptError::Connection),
        };
    }
    if !script.subscribe_ok {
        let (_s, _a) = step(State::Connecting, Event::SubscribeFailed, target);
        return AttemptResult {
            resolved,
            reports,
            outcome: AttemptOutcome::Failed(AttemptError::Subscription),
        };
    }
    let (mut state, _a) = step(State::Connecting, Event::Connected, target);
    let ghost items = script@.items;
    let mut i: usize = 0;
    let mut failed = false;
    while i < script.items.len() && !failed
        invariant
            i <= script.items.len(),
            items == items_view(script.items@),
            items.len() == script.items@.len(),
            !failed ==> state == State::Streaming,
            failed ==> state == State::Retrying,
            !failed ==> !has_failed(items.take(i as int)) && refs_view(resolved@) == refs_of(
                items.take(i as int),
            ) && reports_view(reports@) == reports_of(items.take(i as int), target@),
            failed ==> 1 <= i <= items.len() && items[i - 1].outcome is Failed && !has_failed(
                items.take(i - 1),
            ) && refs_view(resolved@) == refs_of(items.take(i as int)) && reports_view(reports@)
                == reports_of(items.take(i - 1), target@),
        decreases script.items.len() - i,
    {
        let item = &script.items[i];
        proof {
            assert(items[i as int] == script.items@[i as int]@);
        }
        let (s_r, a_r) = step(State::Streaming, Event::RefReceived(item.reference.clone()), target);
        state = s_r;
        match a_r {
            Action::Resolve(re) => {
                proof {
                    assert(refs_view(resolved@.push(re)) =~= refs_view(resolved@).push(re@));
                    assert(items.take(i + 1) =~= items.take(i as int).push(items[i as int]));
                    assert(refs_of(items.take(i as int).push(items[i as int])) =~= refs_of(
                        items.take(i as int),
                    ).push(items[i as int].reference));
                }
                resolved.push(re);
            },
            _ => unreached(),
        }
        proof {
            lemma_snoc(items.take(i as int), items[i as int], target@);
            assert(items.take(i + 1) =~= items.take(i as int).push(items[i as int]));
        }
        match &item.outcome {
            ResolveOutcome::Resolved(d) => {
                let (s_d, a_d) = step(State::Streaming, Event::Resolved(d.clone()), target);
                state = s_d;
                match a_d {
                    Action::Report(rep) => {
                        proof {
                            assert(reports_view(reports@.push(rep)) =~= reports_view(
                                reports@,
                            ).push(rep@));
                            assert(item_reports(items[i as int], target@) =~= seq![rep@]);
                            assert(reports_of(items.take(i as int), target@) + seq![rep@]
                                =~= reports_view(reports@).push(rep@));
                        }
                        reports.push(rep);
                    },
                    Action::PullNext => {
                        proof {
                            assert(reports_of(items.take(i as int), target@) + item_reports(
                                items[i as int],
                                target@,
                            ) =~= reports_of(items.take(i as int), target@));
                        }
                    },
                    _ => unreached(),
                }
            },
            ResolveOutcome::Missing => {
                let (s_m, _am) = step(State::Streaming, Event::ResolveMissing, target);
                state = s_m;
                proof {
                    assert(reports_of(items.take(i as int), target@) + item_reports(
                        items[i as int],
                        target@,
                    ) =~= reports_of(items.take(i as int), target@));
                }
            },
            ResolveOutcome::Failed => {
                let (s_f, _af) = step(State::Streaming, Event::ResolveFailed, target);
                state = s_f;
                failed = true;
            },
        }
        i = i + 1;
    }
    if failed {
        proof {
            lemma_first_fail(items, i - 1, target@);
            lemma_snoc(items.take(i - 1), items[i - 1], target@);
            assert(items.take(i as int) =~= items.take(i - 1).push(items[i - 1]));
            assert(reports_of(items.take(i - 1), target@) + item_reports(items[i - 1], target@)
                =~= reports_of(items.take(i - 1), target@));
            assert(has_failed(items));
        }
        let r = AttemptResult {
            resolved,
            reports,
            outcome: AttemptOutcome::Failed(AttemptError::Resolution),
        };
        proof {
            assert(r@.resolved =~= attempt_model(script@, target@).resolved);
        }
        return r;
    }
    proof {
        assert(items.take(items.len() as int) =~= items);
        assert(!has_failed(items));
        lemma_no_fail_processed(items);
    }
    match script.end {
        StreamEnd::Clean => {
            let (s_e, _ae) = step(State::Streaming, Event::StreamEndedClean, target);
            AttemptResult { resolved, reports, outcome: AttemptOutcome::Terminated }
        },
        StreamEnd::Abnormal => {
            let (s_e, _ae) = step(State::Streaming, Event::StreamEndedAbnormal, target);
            AttemptResult {
                resolved,
                reports,
                outcome: AttemptOutcome::Failed(AttemptError::Stream),
            }
        },
    }
}

} // verus!
