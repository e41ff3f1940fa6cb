use gemini_live::model::HANDLE_DROP_AFTER;
use gemini_live::policy::{Backoff, ReconnectState};
use std::time::Duration;

#[test]
fn backoff_doubles_and_caps_then_resets() {
    let mut b = Backoff::new(300, 5000);
    assert_eq!(b.next_delay(), Duration::from_millis(300));
    assert_eq!(b.next_delay(), Duration::from_millis(600));
    assert_eq!(b.next_delay(), Duration::from_millis(1200));
    assert_eq!(b.next_delay(), Duration::from_millis(2400));
    assert_eq!(b.next_delay(), Duration::from_millis(4800));
    assert_eq!(b.next_delay(), Duration::from_millis(5000)); // capped
    b.reset();
    assert_eq!(b.next_delay(), Duration::from_millis(300));
}

#[test]
fn reconnect_state_drops_handle_after_n_failures() {
    let mut s = ReconnectState::new(HANDLE_DROP_AFTER);
    assert!(!s.on_failure());
    assert!(!s.on_failure());
    assert!(!s.on_failure());
    assert!(s.on_failure()); // 4th -> drop
    s.on_success();
    assert!(!s.on_failure()); // reset by success
}

#[test]
fn backoff_stays_at_its_maximum() {
    let mut b = Backoff::new(3000, 5000);
    assert_eq!(b.next_delay(), Duration::from_millis(3000));
    assert_eq!(b.next_delay(), Duration::from_millis(5000));
    assert_eq!(b.next_delay(), Duration::from_millis(5000));
}

#[test]
fn first_delay_may_exceed_the_maximum() {
    let mut b = Backoff::new(9000, 5000);
    assert_eq!(b.next_delay(), Duration::from_millis(9000));
    assert_eq!(b.next_delay(), Duration::from_millis(5000));
}

#[test]
fn reconnect_state_that_never_drops() {
    let mut s = ReconnectState::new(0);
    for _ in 0..20 {
        assert!(!s.on_failure());
    }
    assert_eq!(s.failures(), 20);
}

#[test]
fn every_failure_from_the_limit_on_drops() {
    let mut s = ReconnectState::new(2);
    assert!(!s.on_failure());
    assert!(s.on_failure());
    assert!(s.on_failure());
    assert_eq!(s.failures(), 3);
}
