use game_of_life::clock::SimpleClock;

#[test]
fn gate_is_closed_until_the_interval_elapses() {
    let mut clock = SimpleClock::new_at(10, 100);
    assert!(!clock.should_update_at(100));
    assert!(!clock.should_update_at(105));
    // Exactly the interval is not enough: the elapsed time must strictly
    // exceed it.
    assert!(!clock.should_update_at(110));
    assert!(clock.should_update_at(111));
}

#[test]
fn gate_recloses_right_after_a_grant() {
    let mut clock = SimpleClock::new_at(10, 100);
    assert!(clock.should_update_at(150));
    // The interval restarted at the moment of the grant.
    assert!(!clock.should_update_at(150));
    assert!(!clock.should_update_at(160));
    assert!(clock.should_update_at(161));
}

#[test]
fn denied_queries_change_nothing() {
    let mut clock = SimpleClock::new_at(10, 100);
    assert!(!clock.should_update_at(105));
    assert!(!clock.should_update_at(107));
    // The interval still runs from construction time, not from the
    // denied queries.
    assert!(clock.should_update_at(111));
}

#[test]
fn paused_clock_never_grants() {
    let mut clock = SimpleClock::new_at(10, 100);
    assert!(!clock.is_paused());
    clock.toggle_pause();
    assert!(clock.is_paused());
    assert!(!clock.should_update_at(1_000_000));
    assert!(!clock.should_update_at(i64::MAX));
}

#[test]
fn unpausing_resumes_gating_from_the_last_grant() {
    let mut clock = SimpleClock::new_at(10, 100);
    assert!(clock.should_update_at(120));
    clock.toggle_pause();
    assert!(!clock.should_update_at(500));
    clock.toggle_pause();
    assert!(!clock.is_paused());
    // The interval is measured from the grant at 120, not from the
    // unpause moment: 131 exceeds it, 130 does not.
    let mut other = SimpleClock::new_at(10, 100);
    assert!(other.should_update_at(120));
    other.toggle_pause();
    other.toggle_pause();
    assert!(!other.should_update_at(130));
    assert!(clock.should_update_at(131));
}

#[test]
fn time_moving_backwards_grants_nothing() {
    let mut clock = SimpleClock::new_at(10, 1_000);
    assert!(!clock.should_update_at(500));
    assert!(!clock.should_update_at(i64::MIN));
    assert!(clock.should_update_at(1_011));
}

#[test]
fn wall_clock_gate_is_closed_at_construction() {
    // A day-long interval cannot have elapsed between construction and
    // the query.
    let mut clock = SimpleClock::new(86_400_000);
    assert!(!clock.should_update());
    assert!(!clock.is_paused());
}

#[test]
fn wall_clock_eventually_grants_with_zero_interval() {
    // With a zero interval the clock grants as soon as any measurable
    // time has elapsed.
    let mut clock = SimpleClock::new(0);
    let mut granted = false;
    for _ in 0..200_000_000u64 {
        if clock.should_update() {
            granted = true;
            break;
        }
    }
    assert!(granted);
}
