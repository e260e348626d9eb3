//! The outer resilience loop: one attempt after another, a fixed delay
//! between them, until an attempt ends with the clean end-of-stream signal.
//!
//! Each attempt starts from a clean slate: nothing of a failed attempt's
//! connection or subscription is carried over, only the decision to retry.
//! Retries are unbounded by design; [`run_watch`] is given the scripts of
//! finitely many attempts and stops early only when one of them terminates
//! cleanly.

use vstd::prelude::*;
use crate::attempt::{
    attempt_model, attempt_outcome_of, run_attempt, AttemptOutcome, AttemptResult, AttemptScript,
    ScriptModel,
};
use crate::identity::Identity;
use crate::machine::{step, Event, State};

verus! {

/// The values of a sequence of attempt scripts.
pub open spec fn scripts_view(v: Seq<AttemptScript>) -> Seq<ScriptModel> {
    v.map_values(|s: AttemptScript| s@)
}

/// Whether an attempt with this script terminates the session cleanly.
pub open spec fn is_success(s: ScriptModel) -> bool {
    attempt_outcome_of(s) == AttemptOutcome::Terminated
}

/// Whether any scripted attempt terminates the session cleanly.
pub open spec fn has_success(ss: Seq<ScriptModel>) -> bool {
    exists|i: int| 0 <= i < ss.len() && is_success(ss[i])
}

/// The index of the first cleanly terminating attempt, when one exists.
pub open spec fn first_success(ss: Seq<ScriptModel>) -> int
    decreases ss.len(),
{
    if ss.len() == 0 {
        0
    } else if is_success(ss.first()) {
        0
    } else {
        1 + first_success(ss.drop_first())
    }
}

proof fn lemma_first_success_at(ss: Seq<ScriptModel>, k: int)
    requires
        0 <= k < ss.len(),
        is_success(ss[k]),
        forall|j: int| 0 <= j < k ==> !is_success(ss[j]),
    ensures
        has_success(ss),
        first_success(ss) == k,
    decreases k,
{
    assert(has_success(ss));
    if k == 0 {
    } else {
        assert(ss.drop_first()[k - 1] == ss[k]);
        assert(forall|j: int| 0 <= j < k - 1 ==> ss.drop_first()[j] == ss[j + 1]);
        lemma_first_success_at(ss.drop_first(), k - 1);
    }
}

/// What the watch loop answered over finitely many scripted attempts: the
/// result of each attempt run, how often the fixed delay was waited, and
/// whether the session reached `Terminated`.
#[derive(Debug, PartialEq, Eq)]
pub struct WatchResult {
    pub attempts: Vec<AttemptResult>,
    pub delays: usize,
    pub terminated: bool,
}

/// Runs the watch loop over the given attempt scripts: attempts run one at
/// a time and in order; every failed attempt is followed by exactly one
/// fixed delay and a fresh connection attempt; the loop stops at the first
/// attempt that terminates cleanly, and otherwise runs all scripts and is
/// still retrying. Each attempt's result is exactly [`attempt_model`] of
/// its script: no state but the retry decision crosses from one attempt to
/// the next.
pub fn run_watch(scripts: &Vec<AttemptScript>, target: &Identity) -> (r: WatchResult)
    ensures
        forall|j: int|
            0 <= j < r.attempts@.len() ==> r.attempts@[j]@ == attempt_model(
                scripts_view(scripts@)[j],
                target@,
            ),
        r.terminated == has_success(scripts_view(scripts@)),
        !has_success(scripts_view(scripts@)) ==> r.attempts@.len() == scripts@.len() && r.delays
            == scripts@.len(),
        has_success(scripts_view(scripts@)) ==> r.attempts@.len() == first_success(
            scripts_view(scripts@),
        ) + 1 && r.delays == first_success(scripts_view(scripts@)),
{
    let ghost ss = scripts_view(scripts@);
    let (_s0, _a0) = step(State::Idle, Event::Start, target);
    let mut attempts: Vec<AttemptResult> = Vec::new();
    let mut delays: usize = 0;
    let mut terminated = false;
    let mut i: usize = 0;
    while i < scripts.len() && !terminated
        invariant
            i <= scripts.len(),
            ss == scripts_view(scripts@),
            ss.len() == scripts@.len(),
            attempts@.len() == i,
            forall|j: int| 0 <= j < i ==> attempts@[j]@ == attempt_model(ss[j], target@),
            !terminated ==> (forall|j: int| 0 <= j < i ==> !is_success(ss[j])) && delays == i,
            terminated ==> 1 <= i <= ss.len() && is_success(ss[i - 1]) && (forall|j: int|
                0 <= j < i - 1 ==> !is_success(ss[j])) && delays == i - 1,
        decreases scripts.len() - i,
    {
        let result = run_attempt(&scripts[i], target);
        proof {
            assert(ss[i as int] == scripts@[i as int]@);
        }
        let is_term = match result.outcome {
            AttemptOutcome::Terminated => true,
            AttemptOutcome::Failed(_) => false,
        };
        attempts.push(result);
        if is_term {
            terminated = true;
        } else {
            delays = delays + 1;
            let (_sr, _ar) = step(State::Retrying, Event::DelayElapsed, target);
        }
        i = i + 1;
    }
    proof {
        if terminated {
            lemma_first_success_at(ss, i - 1);
        } else {
            assert(!has_success(ss));
        }
    }
    WatchResult { attempts, delays, terminated }
}

} // verus!
