use hornetmq::kernel::backoff::BackoffStrategy;
use hornetmq::kernel::retry::{next_retry_delay, should_retry};
use hornetmq::kernel::stall::is_stalled;

#[test]
fn should_retry_when_under_max() {
    assert!(should_retry(0, 3));
    assert!(should_retry(1, 3));
    assert!(should_retry(2, 3));
}

#[test]
fn should_not_retry_at_max() {
    assert!(!should_retry(3, 3));
}

#[test]
fn should_not_retry_over_max() {
    assert!(!should_retry(5, 3));
}

#[test]
fn should_not_retry_when_max_is_zero() {
    assert!(!should_retry(0, 0));
}

#[test]
fn no_strategy_means_immediate_retry() {
    assert_eq!(next_retry_delay(None, 1), 0);
    assert_eq!(next_retry_delay(None, 5), 0);
}

#[test]
fn fixed_strategy_delay() {
    let strategy = Some(BackoffStrategy::Fixed(2000));
    assert_eq!(next_retry_delay(strategy.as_ref(), 1), 2000);
    assert_eq!(next_retry_delay(strategy.as_ref(), 3), 2000);
}

#[test]
fn exponential_strategy_delay() {
    let strategy = Some(BackoffStrategy::Exponential { base: 500, max: 10_000 });
    assert_eq!(next_retry_delay(strategy.as_ref(), 1), 500);
    assert_eq!(next_retry_delay(strategy.as_ref(), 2), 1000);
    assert_eq!(next_retry_delay(strategy.as_ref(), 3), 2000);
}

#[test]
fn not_stalled_when_lock_still_valid() {
    assert!(!is_stalled(1000, 500));
}

#[test]
fn not_stalled_at_exact_expiry() {
    assert!(!is_stalled(1000, 1000));
}

#[test]
fn stalled_after_expiry() {
    assert!(is_stalled(1000, 1001));
}

#[test]
fn stalled_well_past_expiry() {
    assert!(is_stalled(1000, 999_999));
}
