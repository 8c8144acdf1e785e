use rdefer::countdown::Countdown;
use rdefer::defer::Defer;
use std::cell::Cell;

#[test]
fn test_defer() {
    let mut value: i32 = 0;
    {
        let _d = Defer::new(|| value = 1);
    }
    assert_eq!(value, 1);
}

#[test]
fn test_async_defer() {
    let value = Cell::new(0i32);
    let (mut countdown, now) = Countdown::new(2, || value.set(value.get() + 1));
    assert!(now.is_none());

    // The first submitted sub-action completes: it increments the value,
    // then its completion is counted off. The final action must not have
    // run yet, so the value cannot reach 3 before both sub-actions are in.
    value.set(value.get() + 1);
    if let Some(f) = countdown.complete_one() {
        f();
    }
    assert_eq!(value.get(), 1);

    // The second sub-action completes and takes the counter to zero: its
    // completion releases the final action, which increments once more.
    value.set(value.get() + 1);
    if let Some(f) = countdown.complete_one() {
        f();
    }
    assert_eq!(value.get(), 3);
}

#[test]
fn defer_runs_only_at_scope_exit() {
    let value = Cell::new(0u32);
    {
        let _d = Defer::new(|| value.set(1));
        assert_eq!(value.get(), 0);
    }
    assert_eq!(value.get(), 1);
}

#[test]
fn defer_manual_release_is_exactly_once() {
    let value = Cell::new(0u32);
    {
        let mut d = Defer::new(|| value.set(value.get() + 1));
        assert!(d.run_and_release());
        assert_eq!(value.get(), 1);
        assert!(!d.run_and_release());
        assert_eq!(value.get(), 1);
    }
    // The drop at the end of the block found the action already consumed
    // and ran nothing.
    assert_eq!(value.get(), 1);
}

#[test]
fn countdown_counts_down_by_one() {
    let (mut countdown, now) = Countdown::new(3, || ());
    assert!(now.is_none());
    assert_eq!(countdown.remaining(), 3);
    assert!(countdown.armed());
    assert!(countdown.complete_one().is_none());
    assert_eq!(countdown.remaining(), 2);
    assert!(countdown.armed());
    assert!(countdown.complete_one().is_none());
    assert_eq!(countdown.remaining(), 1);
    assert!(countdown.armed());
    assert!(countdown.complete_one().is_some());
    assert_eq!(countdown.remaining(), 0);
    assert!(!countdown.armed());
}

#[test]
fn countdown_releases_exactly_once_in_any_order() {
    let orders: [[usize; 3]; 6] = [
        [0, 1, 2],
        [0, 2, 1],
        [1, 0, 2],
        [1, 2, 0],
        [2, 0, 1],
        [2, 1, 0],
    ];
    let weights: [u32; 3] = [1, 10, 100];
    for order in orders {
        let value = Cell::new(0u32);
        let fired = Cell::new(0u32);
        let (mut countdown, now) = Countdown::new(3, || fired.set(fired.get() + 1));
        assert!(now.is_none());
        let mut releases: u32 = 0;
        for (step, idx) in order.iter().enumerate() {
            value.set(value.get() + weights[*idx]);
            if let Some(f) = countdown.complete_one() {
                f();
                releases += 1;
                // Only the third completion releases the final action,
                // whichever sub-action it belongs to.
                assert_eq!(step, 2);
            } else {
                assert_eq!(fired.get(), 0);
            }
        }
        assert_eq!(value.get(), 111);
        assert_eq!(fired.get(), 1);
        assert_eq!(releases, 1);
    }
}

#[test]
fn countdown_zero_hands_action_straight_back() {
    let fired = Cell::new(false);
    let (mut countdown, now) = Countdown::new(0, || fired.set(true));
    // Policy for a count of zero: no completion is owed, so the
    // constructor hands the final action straight back to the caller.
    let f = now.expect("a zero countdown returns the action at construction");
    assert!(!fired.get());
    f();
    assert!(fired.get());
    assert_eq!(countdown.remaining(), 0);
    assert!(!countdown.armed());
    assert!(countdown.complete_one().is_none());
}

#[test]
fn countdown_failure_still_counts() {
    let fired = Cell::new(false);
    let (mut countdown, now) = Countdown::new(2, || fired.set(true));
    assert!(now.is_none());

    // The first sub-action fails: its side effect never happens, but the
    // worker that ran it still counts the completion off.
    let failing: Result<(), &str> = Err("sub-action failed");
    assert!(failing.is_err());
    if let Some(f) = countdown.complete_one() {
        f();
    }
    assert!(!fired.get());
    assert_eq!(countdown.remaining(), 1);

    // The second sub-action succeeds, and the final action still fires:
    // the failure did not leave the counter stuck above zero.
    if let Some(f) = countdown.complete_one() {
        f();
    }
    assert!(fired.get());
}

#[test]
fn countdown_never_releases_twice() {
    let count = Cell::new(0u32);
    let (mut countdown, now) = Countdown::new(1, || count.set(count.get() + 1));
    assert!(now.is_none());
    if let Some(f) = countdown.complete_one() {
        f();
    }
    assert_eq!(count.get(), 1);
    // Completions beyond the expected count leave the counter clamped at
    // zero and release nothing.
    assert!(countdown.complete_one().is_none());
    assert!(countdown.complete_one().is_none());
    assert_eq!(countdown.remaining(), 0);
    assert_eq!(count.get(), 1);
}
