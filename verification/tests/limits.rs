use std::time::Duration;

use governor::clock::{Clock, FakeRelativeClock};
use moonclient::limiter::{Bucket, LimitRule, RateLimitStrategy, RequestLimiter, TokenWait};
use moonclient::quota::{can_limit, create_limiter};
use moonclient::{InMemoryLimiter, TimeSpan};

fn nonzero(count: u32) -> std::num::NonZeroU32 {
    std::num::NonZeroU32::new(count).unwrap()
}

fn started(rules: &[LimitRule]) -> InMemoryLimiter {
    InMemoryLimiter::new(RateLimitStrategy::from_rules(&rules.to_vec()))
}

fn windows(buckets: &[Bucket]) -> Vec<u128> {
    buckets.iter().map(|bucket| bucket.window.as_millis()).collect()
}

#[test]
fn quota_of_one_second_is_the_preset() {
    for count in [1, 2, 3, 5, 7, 1000, u32::MAX] {
        let quota = create_limiter(count, TimeSpan::from_secs(1));
        let preset = governor::Quota::per_second(nonzero(count));
        assert_eq!(quota.burst, preset.burst_size().get());
        assert_eq!(
            Duration::from_nanos(quota.interval_nanos),
            preset.replenish_interval()
        );
    }
    assert_eq!(create_limiter(3, TimeSpan::from_secs(1)).interval_nanos, 333_333_333);
}

#[test]
fn quota_of_one_minute_is_the_preset() {
    for count in [1, 30, 90, 7, u32::MAX] {
        let quota = create_limiter(count, TimeSpan::from_secs(60));
        let preset = governor::Quota::per_minute(nonzero(count));
        assert_eq!(quota.burst, preset.burst_size().get());
        assert_eq!(
            Duration::from_nanos(quota.interval_nanos),
            preset.replenish_interval()
        );
    }
}

#[test]
fn quota_of_another_window_is_shared_out() {
    let quota = create_limiter(4, TimeSpan::from_secs(2));
    assert_eq!((quota.burst, quota.interval_nanos), (4, 500_000_000));
    let quota = create_limiter(3, TimeSpan::from_secs(10));
    assert_eq!((quota.burst, quota.interval_nanos), (3, 3_333_333_333));
    let quota = create_limiter(100, TimeSpan::from_secs(3600));
    assert_eq!((quota.burst, quota.interval_nanos), (100, 36_000_000_000));
}

#[test]
fn window_of_one_and_a_half_seconds_keeps_its_length() {
    let quota = create_limiter(3, TimeSpan::from_millis(1500));
    assert_eq!((quota.burst, quota.interval_nanos), (3, 500_000_000));
    let quota = create_limiter(2, TimeSpan::from_millis(60_500));
    assert_eq!((quota.burst, quota.interval_nanos), (2, 30_250_000_000));
}

#[test]
fn rules_that_leave_no_time_per_request_have_no_quota() {
    assert!(can_limit(1, TimeSpan::from_nanos(1)));
    assert!(!can_limit(2, TimeSpan::from_nanos(1)));
    assert!(!can_limit(0, TimeSpan::from_secs(1)));
    assert!(!can_limit(5, TimeSpan::from_secs(0)));
    assert!(can_limit(u32::MAX, TimeSpan::from_secs(1)));
}

#[test]
fn rules_beyond_any_interval_have_no_quota() {
    let just_fits = TimeSpan::from_nanos(u64::MAX);
    assert!(can_limit(1, just_fits));
    assert_eq!(create_limiter(1, just_fits).interval_nanos, u64::MAX);
    let too_long = TimeSpan::new(just_fits.as_secs(), just_fits.subsec() + 1);
    assert!(!can_limit(1, too_long));
    assert!(can_limit(2, too_long));
}

#[test]
fn wait_asks_every_bucket_once_and_in_order() {
    let limiter = started(&[(5, TimeSpan::from_secs(1)), (90, TimeSpan::from_secs(60))]);
    let listed = limiter.wait();
    let mut wait = TokenWait::new(limiter.wait());
    assert_eq!(wait.next_bucket(), Some(listed[0]));
    assert_eq!(wait.next_bucket(), Some(listed[1]));
    assert_eq!(wait.next_bucket(), None);
    assert_eq!(wait.next_bucket(), None);
    assert_eq!(TokenWait::new(Vec::new()).next_bucket(), None);
}

#[test]
fn waits_in_a_row_are_held_by_every_rule() {
    let rules = [(3, TimeSpan::from_millis(300)), (5, TimeSpan::from_secs(10))];
    let limiter = started(&rules);
    let clock = FakeRelativeClock::default();
    let running: Vec<_> = limiter
        .wait()
        .iter()
        .map(|bucket| {
            let quota = governor::Quota::with_period(Duration::from_nanos(bucket.quota.interval_nanos))
                .unwrap()
                .allow_burst(nonzero(bucket.quota.burst));
            (bucket.stamp, governor::RateLimiter::direct_with_clock(quota, clock.clone()))
        })
        .collect();
    let mut elapsed: u128 = 0;
    for k in 1..=9_u128 {
        let mut wait = TokenWait::new(limiter.wait());
        while let Some(bucket) = wait.next_bucket() {
            let (_, limiter) = running.iter().find(|(stamp, _)| *stamp == bucket.stamp).unwrap();
            while let Err(not_until) = limiter.check() {
                let pause = not_until.wait_time_from(clock.now());
                clock.advance(pause);
                elapsed += pause.as_nanos();
            }
        }
        for (count, window) in rules {
            let beyond = k.saturating_sub(count as u128);
            assert!(elapsed >= beyond * (window.as_nanos() / count as u128));
        }
    }
    assert_eq!(elapsed, 4 * 2_000_000_000);
}

#[test]
fn full_bucket_refills_within_its_window() {
    for (count, window) in [(3_u32, 1_000_u64), (7, 2_500), (90, 60_000)] {
        let quota = create_limiter(count, TimeSpan::from_millis(window));
        let refill = quota.interval_nanos as u128 * quota.burst as u128;
        let nanos = TimeSpan::from_millis(window).as_nanos();
        assert!(refill <= nanos && nanos - refill < count as u128);
    }
}

#[test]
fn limiter_without_rules_never_waits() {
    assert!(InMemoryLimiter::default().wait().is_empty());
}

#[test]
fn snapshot_lists_the_buckets_in_order() {
    let limiter = started(&[(5, TimeSpan::from_secs(1)), (90, TimeSpan::from_secs(60))]);
    let buckets = limiter.wait();
    assert_eq!(windows(&buckets), vec![1_000, 60_000]);
    assert_eq!(buckets[0].quota.burst, 5);
    assert_eq!(buckets[1].quota.burst, 90);
    assert_ne!(buckets[0].stamp, buckets[1].stamp);
}

#[test]
fn snapshot_outlives_later_changes() {
    let mut limiter = started(&[(5, TimeSpan::from_secs(1))]);
    let snapshot = limiter.wait();
    limiter.set_limits_bulk(Vec::new());
    assert_eq!(snapshot.len(), 1);
    assert!(limiter.wait().is_empty());
}

#[test]
fn set_rule_replaces_its_window_and_keeps_others() {
    let mut limiter = started(&[(5, TimeSpan::from_secs(1)), (90, TimeSpan::from_secs(60))]);
    let before = limiter.wait();
    limiter.set_limit(8, TimeSpan::from_secs(1));
    let after = limiter.wait();
    assert_eq!(after[0], before[1]);
    assert_eq!(windows(&after), vec![60_000, 1_000]);
    assert_eq!(after[1].quota.burst, 8);
    assert!(before.iter().all(|bucket| bucket.stamp != after[1].stamp));
}

#[test]
fn last_rule_for_a_window_counts() {
    let mut once = started(&[(90, TimeSpan::from_secs(60))]);
    once.set_limit(4, TimeSpan::from_secs(1));
    let mut twice = started(&[(90, TimeSpan::from_secs(60))]);
    twice.set_limit(9, TimeSpan::from_secs(1));
    twice.set_limit(4, TimeSpan::from_secs(1));
    let quotas = |limiter: &InMemoryLimiter| {
        limiter
            .wait()
            .iter()
            .map(|bucket| (bucket.window, bucket.quota))
            .collect::<Vec<_>>()
    };
    assert_eq!(quotas(&once), quotas(&twice));
}

#[test]
fn rule_of_no_requests_removes_its_window() {
    let mut limiter = started(&[(5, TimeSpan::from_secs(1)), (90, TimeSpan::from_secs(60))]);
    limiter.set_limit(0, TimeSpan::from_secs(1));
    assert_eq!(windows(&limiter.wait()), vec![60_000]);
    limiter.set_limit(7, TimeSpan::from_secs(0));
    assert_eq!(windows(&limiter.wait()), vec![60_000]);
}

#[test]
fn bulk_change_takes_the_rules_with_requests_and_window() {
    let mut limiter = started(&[(5, TimeSpan::from_secs(1))]);
    let old_stamp = limiter.wait()[0].stamp;
    limiter.set_limits_bulk(vec![
        (2, TimeSpan::from_secs(1)),
        (0, TimeSpan::from_secs(2)),
        (3, TimeSpan::from_secs(0)),
        (4, TimeSpan::from_secs(3)),
    ]);
    let buckets = limiter.wait();
    assert_eq!(windows(&buckets), vec![1_000, 3_000]);
    assert!(buckets.iter().all(|bucket| bucket.stamp != old_stamp));
}

#[test]
fn spans_of_time_are_exact() {
    let span = TimeSpan::new(2, 345_678_901);
    assert_eq!(span.as_secs(), 2);
    assert_eq!(span.subsec(), 345_678_901);
    assert_eq!(span.as_nanos(), 2_345_678_901);
    assert_eq!(span.as_millis(), 2_345);
    assert_eq!(TimeSpan::from_nanos(2_345_678_901), span);
    assert_eq!(TimeSpan::from_millis(1_500), TimeSpan::new(1, 500_000_000));
    assert!(TimeSpan::from_secs(0).is_zero());
    assert!(!TimeSpan::from_nanos(1).is_zero());
}
