//! A scope-bound deferred action: runs exactly once when the owning scope
//! ends, or earlier on an explicit request.

use vstd::prelude::*;

verus! {

/// Holds a nullary action and runs it exactly once when the value is
/// dropped, unless the caller has already triggered it by hand with
/// [`Defer::run_and_release`].
pub struct Defer<F: FnOnce()> {
    f: Option<F>,
}

impl<F: FnOnce()> Defer<F> {
    /// The action still waiting to run, if it has not been consumed yet.
    pub closed spec fn held(self) -> Option<F> {
        self.f
    }

    /// Wraps `f` so that it runs when the returned value goes out of scope.
    /// The action has not run yet when `new` returns: its side effects
    /// become observable only once the value is consumed, at scope exit or
    /// by an explicit [`Defer::run_and_release`].
    pub fn new(f: F) -> (d: Defer<F>)
        requires
            call_requires(f, ()),
        ensures
            d.held() == Some(f),
    {
        Defer { f: Some(f) }
    }

    /// Consumes and runs the held action now, if it is still present; a
    /// no-op if it was consumed before. Returns whether the action ran,
    /// so the consumption happens at most once over the value's lifetime.
    pub fn run_and_release(&mut self) -> (ran: bool)
        requires
            old(self).held() matches Some(g) ==> call_requires(g, ()),
        ensures
            final(self).held() is None,
            ran == (old(self).held() is Some),
            ran ==> call_ensures(old(self).held()->0, (), ()),
    {
        if let Some(f) = self.f.take() {
            f();
            true
        } else {
            false
        }
    }
}

impl<F: FnOnce()> Drop for Defer<F> {
    /// Rust runs this on every path out of the owning scope. The body only
    /// forwards to [`Defer::run_and_release`], whose verified contract
    /// shows the action is consumed at most once; its precondition holds
    /// here because [`Defer::new`] admits only actions whose precondition
    /// is met, and nothing changes the held action afterwards. A verified
    /// destructor must be free of unwinding, which cannot be shown of an
    /// arbitrary held action, so this forwarding call stands outside
    /// verification: the `no_unwind` promise below is part of that trust,
    /// holds whenever the action does not panic, and a panicking action
    /// propagates out of the scope, as the contract of `Defer` says.
    #[verifier::external_body]
    fn drop(&mut self)
        opens_invariants none
        no_unwind
    {
        let _ = self.run_and_release();
    }
}

} // verus!
