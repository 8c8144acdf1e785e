//! Deferred execution of cleanup actions.
//!
//! Two independent primitives are provided:
//!
//! * [`defer::Defer`] runs a stored action exactly once when the owning
//!   scope ends (or earlier, on an explicit request), in the style of Go's
//!   `defer` statement.
//! * [`countdown::Countdown`] defers a final action behind a countdown:
//!   the action is released to exactly one of the completions that drive
//!   the counter to zero, whatever order those completions arrive in.

pub mod countdown;
pub mod defer;
