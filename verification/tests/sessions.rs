use odde::refresh::Debouncer;
use odde::session::SessionTracker;
use odde::session::IDLE_THRESHOLD_SECS;

fn names(list: &[&str]) -> Vec<String> {
    list.iter().map(|s| s.to_string()).collect()
}

#[test]
fn never_observed_identity_is_never_evicted() {
    let mut tracker = SessionTracker::new();
    let mut evicted_ever: Vec<String> = Vec::new();
    let mut t = 0u64;
    for _ in 0..10 {
        let due = tracker.cycle(Some(&names(&["alice"])), t, 10);
        evicted_ever.extend(due);
        t += 1000;
    }
    // bob never appeared in any login list, so he is never due.
    assert!(!evicted_ever.iter().any(|n| n == "bob"));
}

#[test]
fn continuously_present_identity_is_never_evicted() {
    let mut tracker = SessionTracker::new();
    let mut t = 0u64;
    for _ in 0..20 {
        let due = tracker.cycle(Some(&names(&["alice"])), t, 10);
        assert!(due.is_empty());
        t += 1_000_000;
    }
}

#[test]
fn idle_identity_evicted_once_past_threshold() {
    let mut tracker = SessionTracker::new();
    let due = tracker.cycle(Some(&names(&["alice"])), 0, 100);
    assert!(due.is_empty());

    // absent but not yet past the threshold
    let due = tracker.cycle(Some(&names(&[])), 100, 100);
    assert!(due.is_empty());

    // absent for threshold + 1: eviction fires
    let due = tracker.cycle(Some(&names(&[])), 101, 100);
    assert_eq!(due, vec!["alice".to_string()]);

    // destroy succeeded: the entry leaves the map, so eviction never
    // fires again for it
    tracker.remove_entry(&"alice".to_string());
    let due = tracker.cycle(Some(&names(&[])), 102, 100);
    assert!(due.is_empty());
}

#[test]
fn failed_eviction_is_retried_next_cycle() {
    let mut tracker = SessionTracker::new();
    tracker.cycle(Some(&names(&["alice"])), 0, 100);
    let due = tracker.cycle(Some(&names(&[])), 200, 100);
    assert_eq!(due, vec!["alice".to_string()]);
    // destroy failed: the entry stays, and the next cycle reports it again
    let due = tracker.cycle(Some(&names(&[])), 201, 100);
    assert_eq!(due, vec!["alice".to_string()]);
}

#[test]
fn unobtainable_login_list_skips_the_cycle() {
    let mut tracker = SessionTracker::new();
    tracker.cycle(Some(&names(&["alice"])), 0, 100);
    // the login list could not be fetched: nobody is evicted, nothing moves
    let due = tracker.cycle(None, 1_000_000, 100);
    assert!(due.is_empty());
    // alice is still tracked with her old stamp: she is due next cycle
    let due = tracker.cycle(Some(&names(&[])), 1_000_001, 100);
    assert_eq!(due, vec!["alice".to_string()]);
}

#[test]
fn reappearing_identity_gets_fresh_stamp() {
    let mut tracker = SessionTracker::new();
    tracker.cycle(Some(&names(&["alice"])), 0, 100);
    tracker.cycle(Some(&names(&["alice"])), 150, 100);
    // last seen at 150, so 200 is within the threshold again
    let due = tracker.cycle(Some(&names(&[])), 200, 100);
    assert!(due.is_empty());
}

#[test]
fn default_idle_threshold_is_ninety_minutes() {
    assert_eq!(IDLE_THRESHOLD_SECS, 90 * 60);
}

#[test]
fn burst_within_window_refreshes_once() {
    let mut debouncer = Debouncer::new(100);
    let mut fired = 0;
    for t in [1000u64, 1010, 1050, 1099, 1100] {
        if debouncer.on_signal(t) {
            fired += 1;
        }
    }
    assert_eq!(fired, 1);
}

#[test]
fn signals_spread_past_window_each_refresh() {
    let mut debouncer = Debouncer::new(100);
    assert!(debouncer.on_signal(1000));
    assert!(debouncer.on_signal(1101));
    assert!(debouncer.on_signal(1202));
}

#[test]
fn signal_exactly_at_window_edge_is_coalesced() {
    let mut debouncer = Debouncer::new(100);
    assert!(debouncer.on_signal(1000));
    // exactly window seconds later: not yet more than the window
    assert!(!debouncer.on_signal(1100));
    assert!(debouncer.on_signal(1101));
}
