use moonclient::diagnostics::Diagnostic;
use moonclient::limiter::RequestLimiter;
use moonclient::redis_limiter::{SlidingWindowLog, WaitStep, ADMISSION_SCRIPT};
use moonclient::{MoonError, RedisLimiter, TimeSpan};

fn explain(message: Diagnostic) -> String {
    let args: Vec<String> = message.args().into_iter().map(|(_, value)| value).collect();
    format!("{}: {}", message.key(), args.join(" "))
}

fn connected(key: String, limit: u32, window: TimeSpan) -> RedisLimiter {
    RedisLimiter::new(Ok(()), key, limit, window).unwrap()
}

#[test]
fn script_is_called_with_key_moment_window_and_limit() {
    let limiter = connected("moon:limit".to_string(), 10, TimeSpan::from_secs(1));
    let call = limiter.script_call(123_456);
    assert_eq!(call.key, "moon:limit");
    assert_eq!(call.now_ms, 123_456);
    assert_eq!(call.window_ms, 1_000);
    assert_eq!(call.limit, 10);
    assert!(ADMISSION_SCRIPT.contains("ZREMRANGEBYSCORE"));
    assert!(ADMISSION_SCRIPT.contains("redis.call('ZADD', key, now, ARGV[1] .. '-' .. twins)"));
}

#[test]
fn fractions_of_a_millisecond_do_not_count() {
    let limiter = connected("k".to_string(), 1, TimeSpan::from_nanos(2_999_999));
    assert_eq!(limiter.script_call(0).window_ms, 2);
}

#[test]
fn answer_of_zero_lets_the_request_through() {
    let limiter = connected("k".to_string(), 1, TimeSpan::from_secs(1));
    assert!(matches!(limiter.wait(Ok(0), explain), WaitStep::Proceed));
}

#[test]
fn any_other_answer_is_a_wait() {
    let limiter = connected("k".to_string(), 1, TimeSpan::from_secs(1));
    assert!(matches!(limiter.wait(Ok(250), explain), WaitStep::Sleep { millis: 250 }));
}

#[test]
fn failure_of_the_coordinator_is_a_network_error() {
    let limiter = connected("k".to_string(), 1, TimeSpan::from_secs(1));
    let step = limiter.wait(Err("connection refused".to_string()), explain);
    assert!(matches!(
        step,
        WaitStep::Fail(MoonError::Network(text)) if text == "redis-limit-error: connection refused"
    ));
}

#[test]
fn rules_of_a_shared_budget_do_not_change() {
    let mut limiter = connected("k".to_string(), 4, TimeSpan::from_secs(1));
    limiter.set_limit(9, TimeSpan::from_secs(1));
    limiter.set_limits_bulk(vec![(9, TimeSpan::from_secs(1))]);
    assert_eq!(limiter.script_call(0).limit, 4);
}

#[test]
fn requests_up_to_the_limit_go_through() {
    let mut log = SlidingWindowLog::new();
    assert_eq!(log.decide(1_000, 1_000, 2), 0);
    assert_eq!(log.decide(1_400, 1_000, 2), 0);
    assert_eq!(log.decide(1_500, 1_000, 2), 500);
    assert_eq!(log.decide(1_999, 1_000, 2), 1);
    assert_eq!(log.decide(2_000, 1_000, 2), 0);
    assert_eq!(log.decide(2_000 + 1, 1_000, 2), 399);
}

#[test]
fn waiting_as_told_gets_a_request_through() {
    let mut log = SlidingWindowLog::new();
    assert_eq!(log.decide(10, 300, 1), 0);
    let wait = log.decide(110, 300, 1);
    assert_eq!(wait, 200);
    assert_eq!(log.decide(110 + wait, 300, 1), 0);
}

#[test]
fn no_window_holds_more_than_the_limit() {
    let mut log = SlidingWindowLog::new();
    let mut sent = Vec::new();
    let mut now = 5;
    for step in 0..200_u64 {
        now += 1 + (step * 7) % 13;
        if log.decide(now, 50, 3) == 0 {
            sent.push(now);
        }
    }
    for at in &sent {
        let within = sent.iter().filter(|t| **t > at - at.min(&50) && *t <= at).count();
        assert!(within <= 3);
    }
    assert!(sent.len() > 20);
}

#[test]
fn budget_of_no_requests_waits_one_window_at_a_time() {
    let mut log = SlidingWindowLog::new();
    assert_eq!(log.decide(77, 400, 0), 400);
}

#[test]
fn failed_connection_is_a_configuration_error() {
    let refused = RedisLimiter::new(
        Err("no route to host".to_string()),
        "k".to_string(),
        1,
        TimeSpan::from_secs(1),
    );
    assert!(matches!(refused, Err(MoonError::Config(text)) if text == "no route to host"));
}

#[test]
fn endless_window_does_not_wrap_around() {
    let limiter = connected("k".to_string(), 1, TimeSpan::from_secs(u64::MAX));
    assert_eq!(limiter.script_call(0).window_ms, u64::MAX);
}

#[test]
fn requests_of_one_millisecond_count_one_by_one() {
    let mut log = SlidingWindowLog::new();
    assert_eq!(log.decide(5, 1_000, 2), 0);
    assert_eq!(log.decide(5, 1_000, 2), 0);
    assert_eq!(log.decide(5, 1_000, 2), 1_000);
    assert_eq!(log.decide(1_004, 1_000, 2), 1);
    assert_eq!(log.decide(1_005, 1_000, 2), 0);
    assert_eq!(log.decide(1_005, 1_000, 2), 0);
    assert_eq!(log.decide(1_005, 1_000, 2), 1_000);
}

#[test]
fn bursts_never_exceed_the_limit_of_any_window() {
    let mut log = SlidingWindowLog::new();
    let mut sent: Vec<u64> = Vec::new();
    let mut now = 100;
    for step in 0..300_u64 {
        now += if step % 5 == 0 { 7 } else { 0 };
        if log.decide(now, 50, 4) == 0 {
            sent.push(now);
        }
    }
    for end in 100..now + 60 {
        let within = sent.iter().filter(|t| end - 50 < **t && **t <= end).count();
        assert!(within <= 4);
    }
    assert!(sent.windows(2).any(|pair| pair[0] == pair[1]));
}
