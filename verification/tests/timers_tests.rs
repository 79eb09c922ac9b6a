use zmq_core::timers::{Timer, Timers, TimersError};

#[test]
fn timers_new_has_live_tag() {
    let t = Timers::new();
    assert!(t.check_tag());
}

#[test]
fn timers_ids_count_up() {
    let mut t = Timers::new();
    assert_eq!(t.add_at(1000, 10), 1);
    assert_eq!(t.add_at(1000, 20), 2);
    assert_eq!(t.add_at(1000, 30), 3);
}

#[test]
fn timers_timeout_is_wait_for_the_first() {
    let mut t = Timers::new();
    assert_eq!(t.timeout_at(1000), -1);
    t.add_at(1000, 50);
    t.add_at(1000, 20);
    assert_eq!(t.timeout_at(1000), 20);
    assert_eq!(t.timeout_at(1015), 5);
    assert_eq!(t.timeout_at(1100), 0);
}

#[test]
fn timers_cancel_then_timeout_drops_it() {
    let mut t = Timers::new();
    let a = t.add_at(0, 10);
    let b = t.add_at(0, 30);
    assert_eq!(t.cancel(a), Ok(()));
    assert_eq!(t.cancel(a), Err(TimersError::AlreadyCancelled));
    assert_eq!(t.cancel(99), Err(TimersError::InvalidTimerId));
    assert_eq!(t.timeout_at(0), 30);
    // The cancelled timer is gone: cancelling it again finds nothing.
    assert_eq!(t.cancel(a), Err(TimersError::InvalidTimerId));
    assert_eq!(t.cancel(b), Ok(()));
    assert_eq!(t.timeout_at(0), -1);
}

#[test]
fn timers_execute_fires_due_live_timers_in_order() {
    let mut t = Timers::new();
    let a = t.add_at(0, 10);
    let b = t.add_at(0, 5);
    let c = t.add_at(0, 100);
    let d = t.add_at(0, 7);
    assert_eq!(t.cancel(d), Ok(()));
    let fired = t.execute_at(10);
    assert_eq!(fired, vec![Timer { timer_id: b, interval: 5 }, Timer { timer_id: a, interval: 10 }]);
    // Re-armed: b at 15, a at 20; c still at 100.
    assert_eq!(t.timeout_at(10), 5);
    let fired = t.execute_at(15);
    assert_eq!(fired, vec![Timer { timer_id: b, interval: 5 }]);
    // b falls due again at 20, the moment a was set for: it takes a's place.
    let fired = t.execute_at(100);
    assert_eq!(fired.iter().map(|x| x.timer_id).collect::<Vec<_>>(), vec![b, c]);
}

#[test]
fn timers_set_interval_and_reset() {
    let mut t = Timers::new();
    let a = t.add_at(0, 10);
    assert_eq!(t.set_interval_at(0, a, 40), Ok(()));
    assert_eq!(t.timeout_at(0), 40);
    assert_eq!(t.reset_at(30, a), Ok(()));
    assert_eq!(t.timeout_at(30), 40);
    assert_eq!(t.set_interval_at(0, 5, 1), Err(TimersError::InvalidTimerId));
    assert_eq!(t.reset_at(0, 5), Err(TimersError::InvalidTimerId));
}

#[test]
fn timers_same_moment_replaces() {
    let mut t = Timers::new();
    let a = t.add_at(0, 10);
    let b = t.add_at(5, 5);
    // Both fall due at 10: the later one took the place of the earlier.
    assert_eq!(t.cancel(a), Err(TimersError::InvalidTimerId));
    assert_eq!(t.execute_at(10), vec![Timer { timer_id: b, interval: 5 }]);
}

#[test]
fn timers_by_the_clock() {
    let mut t = Timers::new();
    let a = t.add(1_000_000);
    let w = t.timeout();
    assert!(w > 0 && w <= 1_000_000);
    assert!(t.execute().is_empty());
    assert_eq!(t.reset(a), Ok(()));
    assert_eq!(t.set_interval(a, 2_000_000), Ok(()));
    assert!(t.timeout() > 1_000_000);
}
