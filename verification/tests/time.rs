//! Lengths of time.

use nudge::time::Duration;

#[test]
fn seconds_and_nanoseconds() {
    let d = Duration::new(3, 250_000_000);
    assert_eq!(d.as_secs(), 3);
    assert_eq!(d.subsec_nanos(), 250_000_000);
    assert_eq!(Duration::new(3, 2_000_000_001), Duration::new(5, 1));
    assert_eq!(Duration::from_millis(1500), Duration::new(1, 500_000_000));
    assert_eq!(Duration::from_secs(u64::MAX).as_secs(), u64::MAX);
}

#[test]
fn zero_is_zero() {
    assert!(Duration::from_secs(0).is_zero());
    assert!(!Duration::new(0, 1).is_zero());
}

#[test]
fn durations_are_ordered() {
    assert!(Duration::new(1, 999_999_999) < Duration::from_secs(2));
    assert!(Duration::from_secs(2) <= Duration::from_secs(2));
    assert!(Duration::from_millis(2001) > Duration::from_secs(2));
    assert_eq!(
        Duration::from_secs(2).max(Duration::from_secs(3)),
        Duration::from_secs(3)
    );
}

#[test]
fn differences_stop_at_zero() {
    let two = Duration::from_secs(2);
    let three = Duration::from_secs(3);
    assert_eq!(three.saturating_sub(two), Duration::from_secs(1));
    assert!(two.saturating_sub(three).is_zero());
    assert!(two.saturating_sub(two).is_zero());
}

#[test]
fn sums_stay_in_range() {
    let longest = Duration::new(u64::MAX, 999_999_999);
    assert_eq!(longest.checked_add(Duration::new(0, 1)), None);
    assert_eq!(
        longest.checked_add(Duration::from_secs(0)),
        Some(longest)
    );
    assert_eq!(
        Duration::from_millis(700).checked_add(Duration::from_millis(800)),
        Some(Duration::from_millis(1500))
    );
}
