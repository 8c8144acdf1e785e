//! A countdown that defers a final action.
//!
//! [`Countdown`] holds a final action and a counter set to the number of
//! sub-actions that must complete first. Each completion drives the
//! counter down by one; the completion that takes the counter from one to
//! zero — and no other — receives the final action. The value itself is
//! sequential: callers who share it across workers put it behind a mutual
//! exclusion lock and call [`Countdown::complete_one`] once per finished
//! sub-action, whether that sub-action succeeded or failed.

use vstd::prelude::*;

verus! {

/// The abstract state of a countdown: how many completions are still
/// owed, and whether the final action is still armed (held, not yet
/// released).
pub struct CountdownState {
    pub counter: nat,
    pub armed: bool,
}

/// Whether the next completion releases the final action: exactly when it
/// takes the counter from one to zero while the action is still armed.
pub open spec fn releases_now(s: CountdownState) -> bool {
    s.armed && s.counter == 1
}

/// The state after one completion: the counter goes down by one (a
/// completion beyond the expected count leaves it clamped at zero), and
/// the action stays armed unless this completion released it.
pub open spec fn step(s: CountdownState) -> CountdownState {
    CountdownState {
        counter: if s.counter > 0 {
            (s.counter - 1) as nat
        } else {
            0 as nat
        },
        armed: s.armed && s.counter != 1,
    }
}

/// The state after `k` completions.
pub open spec fn after_steps(s: CountdownState, k: nat) -> CountdownState
    decreases k,
{
    if k == 0 {
        s
    } else {
        step(after_steps(s, (k - 1) as nat))
    }
}

/// The outcome of one sub-action, as its completion reports it. The
/// countdown counts a failed sub-action exactly like a successful one, so
/// a failure can never leave the counter stuck above zero.
pub enum SubOutcome {
    Completed,
    Failed,
}

/// The state after one completion per listed sub-action outcome, counted
/// off in the order the list gives.
pub open spec fn run_completions(s: CountdownState, outcomes: Seq<SubOutcome>) -> CountdownState
    decreases outcomes.len(),
{
    if outcomes.len() == 0 {
        s
    } else {
        run_completions(step(s), outcomes.drop_first())
    }
}

/// How many of the listed completions release the final action, counted
/// off in the order the list gives.
pub open spec fn releases_in(s: CountdownState, outcomes: Seq<SubOutcome>) -> nat
    decreases outcomes.len(),
{
    if outcomes.len() == 0 {
        0 as nat
    } else {
        (if releases_now(s) {
            1 as nat
        } else {
            0 as nat
        }) + releases_in(step(s), outcomes.drop_first())
    }
}

/// Once the final action is no longer armed, no later completion ever
/// releases anything.
pub proof fn lemma_no_release_once_unarmed(s: CountdownState, outcomes: Seq<SubOutcome>)
    requires
        !s.armed,
    ensures
        releases_in(s, outcomes) == 0,
    decreases outcomes.len(),
{
    if outcomes.len() > 0 {
        lemma_no_release_once_unarmed(step(s), outcomes.drop_first());
    }
}

/// Exactly-once release over a whole run: an armed countdown that owes
/// `n >= 1` completions releases its final action exactly once over any
/// run of at least `n` completions, whatever their outcomes and order of
/// arrival — and not at all while fewer than `n` have arrived.
pub proof fn lemma_one_release_in_any_run(s: CountdownState, outcomes: Seq<SubOutcome>)
    requires
        s.armed,
        1 <= s.counter,
    ensures
        releases_in(s, outcomes) == if s.counter <= outcomes.len() {
            1 as nat
        } else {
            0 as nat
        },
    decreases outcomes.len(),
{
    if outcomes.len() > 0 {
        if releases_now(s) {
            lemma_no_release_once_unarmed(step(s), outcomes.drop_first());
        } else {
            lemma_one_release_in_any_run(step(s), outcomes.drop_first());
        }
    }
}

/// After `k` completions, an armed countdown owes `counter - k` more
/// (never fewer than zero), and stays armed exactly until the countdown
/// is spent.
pub proof fn lemma_after_steps_characterized(s: CountdownState, k: nat)
    requires
        s.armed,
        1 <= s.counter,
    ensures
        after_steps(s, k).counter == if k <= s.counter {
            (s.counter - k) as nat
        } else {
            0 as nat
        },
        after_steps(s, k).armed == (k < s.counter),
    decreases k,
{
    if k > 0 {
        lemma_after_steps_characterized(s, (k - 1) as nat);
    }
}

/// Exactly-once release: on a countdown armed with `n >= 1` owed
/// completions, the `k`-th completion releases the final action exactly
/// when `k == n` — never before all `n` sub-actions are counted off,
/// never a second time, however the completions were interleaved to
/// arrive in this order.
pub proof fn lemma_exactly_once(s: CountdownState, n: nat, k: nat)
    requires
        s.armed,
        s.counter == n,
        1 <= n,
        1 <= k,
    ensures
        releases_now(after_steps(s, (k - 1) as nat)) <==> k == n,
{
    lemma_after_steps_characterized(s, (k - 1) as nat);
}

/// A run of completions moves the countdown by their number alone: no
/// outcome and no ordering is read along the way.
pub proof fn lemma_run_is_count(s: CountdownState, outcomes: Seq<SubOutcome>)
    ensures
        run_completions(s, outcomes) == after_steps(s, outcomes.len()),
    decreases outcomes.len(),
{
    if outcomes.len() > 0 {
        lemma_run_is_count(step(s), outcomes.drop_first());
        lemma_after_steps_shifts(s, (outcomes.len() - 1) as nat);
    }
}

/// Counting one completion first and `k` after is the same as counting
/// `k + 1` in a row.
proof fn lemma_after_steps_shifts(s: CountdownState, k: nat)
    ensures
        after_steps(step(s), k) == after_steps(s, k + 1),
    decreases k,
{
    if k == 0 {
        assert(after_steps(s, 1) == step(after_steps(s, 0)));
    } else {
        lemma_after_steps_shifts(s, (k - 1) as nat);
        assert(after_steps(step(s), k) == step(after_steps(step(s), (k - 1) as nat)));
        assert(after_steps(s, k + 1) == step(after_steps(s, (k + 1 - 1) as nat)));
    }
}

/// Order independence: two runs made of the same completions, arriving in
/// any two orders, leave the countdown in the same state.
pub proof fn lemma_order_independent(s: CountdownState, a: Seq<SubOutcome>, b: Seq<SubOutcome>)
    requires
        a.to_multiset() == b.to_multiset(),
    ensures
        run_completions(s, a) == run_completions(s, b),
{
    a.to_multiset_ensures();
    b.to_multiset_ensures();
    lemma_run_is_count(s, a);
    lemma_run_is_count(s, b);
}

/// No under-count on failure: a run in which some sub-action failed moves
/// the countdown exactly as the run in which that sub-action completed,
/// so a failure never blocks the final action from being released.
pub proof fn lemma_failure_still_counts(s: CountdownState, outcomes: Seq<SubOutcome>, i: int)
    requires
        0 <= i < outcomes.len(),
    ensures
        run_completions(s, outcomes) == run_completions(s, outcomes.update(i, SubOutcome::Completed)),
{
    lemma_run_is_count(s, outcomes);
    lemma_run_is_count(s, outcomes.update(i, SubOutcome::Completed));
}

/// A countdown that releases its final action to exactly one of the
/// completions that are counted off against it.
pub struct Countdown<F> {
    final_action: Option<F>,
    counter: usize,
}

impl<F> View for Countdown<F> {
    type V = CountdownState;

    closed spec fn view(&self) -> CountdownState {
        CountdownState { counter: self.counter as nat, armed: self.final_action is Some }
    }
}

impl<F> Countdown<F> {
    /// The final action still held by the countdown, if it has not been
    /// released yet.
    pub closed spec fn held(self) -> Option<F> {
        self.final_action
    }

    /// Builds a countdown that owes `count` completions before
    /// `final_action` is released. A count of zero is the degenerate
    /// case: no completion is owed, so the action is handed straight back
    /// to the caller, who runs it at once; the countdown then never
    /// releases anything.
    pub fn new(count: usize, final_action: F) -> (r: (Countdown<F>, Option<F>))
        ensures
            r.0@ == (CountdownState { counter: count as nat, armed: count > 0 }),
            count > 0 ==> r.0.held() == Some(final_action) && r.1 is None,
            count == 0 ==> r.0.held() is None && r.1 == Some(final_action),
    {
        if count == 0 {
            (Countdown { final_action: None, counter: 0 }, Some(final_action))
        } else {
            (Countdown { final_action: Some(final_action), counter: count }, None)
        }
    }

    /// Records that one sub-action has finished — successfully or not —
    /// and returns the final action exactly when this completion took the
    /// counter from one to zero. A completion beyond the expected count
    /// leaves the counter at zero and releases nothing, so the final
    /// action can never be released twice.
    pub fn complete_one(&mut self) -> (released: Option<F>)
        ensures
            final(self)@ == step(old(self)@),
            released is Some <==> releases_now(old(self)@),
            releases_now(old(self)@) ==> released == old(self).held() && final(self).held() is None,
            !releases_now(old(self)@) ==> released is None && final(self).held() == old(
                self,
            ).held(),
    {
        if self.counter > 0 {
            self.counter = self.counter - 1;
            if self.counter == 0 {
                return self.final_action.take();
            }
        }
        None
    }

    /// How many completions are still owed.
    pub fn remaining(&self) -> (r: usize)
        ensures
            r == self@.counter,
    {
        self.counter
    }

    /// Whether the final action is still held, waiting for the countdown.
    pub fn armed(&self) -> (r: bool)
        ensures
            r == self@.armed,
    {
        self.final_action.is_some()
    }
}

} // verus!
