//! Token bucket quotas: how many requests may burst, and how fast a spent one comes back.

use vstd::prelude::*;

use crate::time_span::TimeSpan;

verus! {

/// The two numbers that make a token bucket.
#[derive(Clone, Copy, Debug, PartialEq, Eq, Structural)]
pub struct BucketQuota {
    /// The number of tokens in a full bucket.
    pub burst: u32,
    /// The time after which one spent token is back, in nanoseconds.
    pub interval_nanos: u64,
}

/// The window of the per-second preset.
pub open spec fn is_one_second(window: TimeSpan) -> bool {
    window.secs() == 1 && window.subsec_nanos() == 0
}

/// The window of the per-minute preset.
pub open spec fn is_one_minute(window: TimeSpan) -> bool {
    window.secs() == 60 && window.subsec_nanos() == 0
}

/// The refill interval of `count` requests spread evenly over `window`: the share of one request
/// in whole nanoseconds.
pub open spec fn spread_interval(count: u32, window: TimeSpan) -> nat {
    window.nanos() / count as nat
}

/// The quota of `count` requests per `window`.
pub open spec fn quota_of(count: u32, window: TimeSpan) -> BucketQuota {
    BucketQuota { burst: count, interval_nanos: spread_interval(count, window) as u64 }
}

/// Whether a bucket for `count` requests per `window` can be made: there is at least one request,
/// and its share of the window fits a refill interval and is not rounded down to nothing. The two
/// presets are exempt from the last condition.
pub open spec fn quota_exists(count: u32, window: TimeSpan) -> bool {
    &&& count > 0
    &&& spread_interval(count, window) <= u64::MAX
    &&& spread_interval(count, window) > 0 || is_one_second(window) || is_one_minute(window)
}

/// A rule takes part in rate limiting when neither its count nor its window is zero.
pub open spec fn is_active_rule(count: u32, window: TimeSpan) -> bool {
    count > 0 && window.nanos() > 0
}

/// Calls [`governor::Quota::per_second`]: the quota bursts to `count` and refills one token every
/// `count`-th part of a second, in whole nanoseconds.
#[verifier::external_body]
fn per_second(count: u32) -> (quota: BucketQuota)
    requires
        count > 0,
    ensures
        quota.burst == count,
        quota.interval_nanos == 1_000_000_000int / count as int,
{
    let quota = governor::Quota::per_second(std::num::NonZeroU32::new(count).unwrap());
    BucketQuota {
        burst: quota.burst_size().get(),
        interval_nanos: quota.replenish_interval().as_nanos() as u64,
    }
}

/// Calls [`governor::Quota::per_minute`]: the quota bursts to `count` and refills one token every
/// `count`-th part of sixty seconds, in whole nanoseconds.
#[verifier::external_body]
fn per_minute(count: u32) -> (quota: BucketQuota)
    requires
        count > 0,
    ensures
        quota.burst == count,
        quota.interval_nanos == 60_000_000_000int / count as int,
{
    let quota = governor::Quota::per_minute(std::num::NonZeroU32::new(count).unwrap());
    BucketQuota {
        burst: quota.burst_size().get(),
        interval_nanos: quota.replenish_interval().as_nanos() as u64,
    }
}

/// Calls [`governor::Quota::with_period`]: a quota with one token that refills after
/// `interval_nanos`, or nothing for a zero interval.
#[verifier::external_body]
fn with_period(interval_nanos: u64) -> (quota: Option<BucketQuota>)
    ensures
        quota == (if interval_nanos == 0 {
            None
        } else {
            Some((BucketQuota { burst: 1, interval_nanos }))
        }),
{
    governor::Quota::with_period(std::time::Duration::from_nanos(interval_nanos)).map(
        |quota| BucketQuota {
            burst: quota.burst_size().get(),
            interval_nanos: quota.replenish_interval().as_nanos() as u64,
        },
    )
}

/// Calls [`governor::Quota::allow_burst`]: the same refill interval with another burst size.
#[verifier::external_body]
fn allow_burst(quota: BucketQuota, burst: u32) -> (widened: BucketQuota)
    requires
        quota.interval_nanos > 0,
        burst > 0,
    ensures
        widened.burst == burst,
        widened.interval_nanos == quota.interval_nanos,
{
    let period = std::time::Duration::from_nanos(quota.interval_nanos);
    let widened = governor::Quota::with_period(period).unwrap().allow_burst(
        std::num::NonZeroU32::new(burst).unwrap(),
    );
    BucketQuota {
        burst: widened.burst_size().get(),
        interval_nanos: widened.replenish_interval().as_nanos() as u64,
    }
}

/// The refill interval of `count` requests spread over `window`.
fn share_nanos(count: u32, window: TimeSpan) -> (interval: u128)
    requires
        count > 0,
    ensures
        interval == spread_interval(count, window),
{
    window.as_nanos() / (count as u128)
}

/// Whether [`create_limiter`] can make a bucket for `count` requests per `window`.
pub fn can_limit(count: u32, window: TimeSpan) -> (possible: bool)
    ensures
        possible == quota_exists(count, window),
{
    if count == 0 {
        return false;
    }
    let share: u128 = share_nanos(count, window);
    share <= u64::MAX as u128 && (share > 0 || (window.as_secs() == 1 && window.subsec() == 0) || (
    window.as_secs() == 60 && window.subsec() == 0))
}

/// The quota of a token bucket that lets `count` requests through per `window`.
///
/// Windows of exactly one second and exactly sixty seconds take the presets. Any other window,
/// 1.5 seconds for one, is shared out over its own length.
pub fn create_limiter(count: u32, window: TimeSpan) -> (quota: BucketQuota)
    requires
        quota_exists(count, window),
    ensures
        quota == quota_of(count, window),
{
    if window.as_secs() == 1 && window.subsec() == 0 {
        proof {
            assert(window.nanos() == 1_000_000_000);
            vstd::arithmetic::div_mod::lemma_div_is_ordered_by_denominator(
                1_000_000_000,
                1,
                count as int,
            );
        }
        per_second(count)
    } else if window.as_secs() == 60 && window.subsec() == 0 {
        proof {
            assert(window.nanos() == 60_000_000_000);
            vstd::arithmetic::div_mod::lemma_div_is_ordered_by_denominator(
                60_000_000_000,
                1,
                count as int,
            );
        }
        per_minute(count)
    } else {
        let single = with_period(share_nanos(count, window) as u64).unwrap();
        allow_burst(single, count)
    }
}

/// A full bucket refills within its window: `burst` tokens at one per interval never take longer
/// than the window, and fall short of it by less than one nanosecond per token.
pub proof fn law_full_refill_takes_one_window(count: u32, window: TimeSpan)
    requires
        quota_exists(count, window),
    ensures
        quota_of(count, window).burst * quota_of(count, window).interval_nanos <= window.nanos(),
        window.nanos() < quota_of(count, window).burst * quota_of(count, window).interval_nanos
            + count,
{
    let n = window.nanos();
    let c = count as nat;
    vstd::arithmetic::div_mod::lemma_fundamental_div_mod(n as int, c as int);
    vstd::arithmetic::div_mod::lemma_mod_bound(n as int, c as int);
}

/// The most tokens that a fresh bucket can have handed out after `elapsed` nanoseconds: those it
/// starts out with, and one for each interval that has passed.
pub open spec fn tokens_by(quota: BucketQuota, elapsed: nat) -> nat
    recommends
        quota.interval_nanos > 0,
{
    quota.burst as nat + elapsed / quota.interval_nanos as nat
}

/// The earliest moment at which a fresh bucket can hand out its `k`-th token, in nanoseconds.
pub open spec fn earliest_token(quota: BucketQuota, k: nat) -> nat {
    if k <= quota.burst {
        0
    } else {
        ((k - quota.burst) * quota.interval_nanos) as nat
    }
}

/// The `k`-th token of a fresh bucket is there from its earliest moment on, and not before.
pub proof fn law_tokens_come_one_per_interval(quota: BucketQuota, k: nat, elapsed: nat)
    requires
        quota.interval_nanos > 0,
    ensures
        k <= tokens_by(quota, elapsed) <==> elapsed >= earliest_token(quota, k),
{
    let interval = quota.interval_nanos as int;
    if k > quota.burst {
        let beyond = k - quota.burst;
        vstd::arithmetic::div_mod::lemma_fundamental_div_mod(elapsed as int, interval);
        vstd::arithmetic::div_mod::lemma_mod_bound(elapsed as int, interval);
        let passed = elapsed as int / interval;
        if beyond <= passed {
            vstd::arithmetic::mul::lemma_mul_inequality(beyond, passed, interval);
            assert(interval * passed == passed * interval) by (nonlinear_arith);
        } else {
            vstd::arithmetic::mul::lemma_mul_inequality(passed + 1, beyond, interval);
            assert((passed + 1) * interval == interval * passed + interval) by (nonlinear_arith);
        }
        assert(beyond * interval >= 0) by (nonlinear_arith)
            requires
                beyond > 0,
                interval > 0,
        ;
    }
}

/// A rule takes part in rate limiting exactly when it allows a request and its window has a length.
pub proof fn law_rule_is_active(count: u32, window: TimeSpan)
    ensures
        is_active_rule(count, window) <==> count > 0 && (window.secs() > 0 || window.subsec_nanos()
            > 0),
{
}

/// A rule can have a bucket exactly when it allows a request, its window is shorter than `count` times
/// the longest interval, and either leaves every request a nanosecond or is exactly one second or one
/// minute long.
pub proof fn law_which_rules_have_a_quota(count: u32, window: TimeSpan)
    ensures
        ({
            let length = window.secs() * 1_000_000_000 + window.subsec_nanos();
            quota_exists(count, window) <==> {
                &&& count > 0
                &&& length < count * 0x1_0000_0000_0000_0000
                &&& length >= count || (window.secs() == 1 && window.subsec_nanos() == 0) || (
                window.secs() == 60 && window.subsec_nanos() == 0)
            }
        }),
{
    let length = window.nanos() as int;
    if count > 0 {
        let c = count as int;
        let share = length / c;
        vstd::arithmetic::div_mod::lemma_fundamental_div_mod(length, c);
        vstd::arithmetic::div_mod::lemma_mod_bound(length, c);
        assert(share <= u64::MAX <==> length < c * 0x1_0000_0000_0000_0000) by (nonlinear_arith)
            requires
                length == c * share + length % c,
                0 <= length % c < c,
                c > 0,
        ;
        assert(share > 0 <==> length >= c) by (nonlinear_arith)
            requires
                length == c * share + length % c,
                0 <= length % c < c,
                c > 0,
                length >= 0,
        ;
    }
}

/// The quota of a rule bursts to its count, and gives a token back after the share of one request in
/// the window, to the nanosecond.
pub proof fn law_quota_is_what_the_rule_says(count: u32, window: TimeSpan)
    requires
        quota_exists(count, window),
    ensures
        ({
            let quota = quota_of(count, window);
            let length = window.secs() * 1_000_000_000 + window.subsec_nanos();
            &&& quota.burst == count
            &&& quota.interval_nanos * count <= length
            &&& length < (quota.interval_nanos + 1) * count
        }),
{
    let length = window.nanos() as int;
    let c = count as int;
    vstd::arithmetic::div_mod::lemma_fundamental_div_mod(length, c);
    vstd::arithmetic::div_mod::lemma_mod_bound(length, c);
    let share = length / c;
    assert(share * c <= length && length < (share + 1) * c) by (nonlinear_arith)
        requires
            length == c * share + length % c,
            0 <= length % c < c,
    ;
}

/// A fresh bucket hands out its burst at once, and from then on one token per interval.
pub proof fn law_tokens_after_the_burst(quota: BucketQuota, k: nat)
    ensures
        k <= quota.burst ==> earliest_token(quota, k) == 0,
        k >= quota.burst ==> earliest_token(quota, k + 1) == earliest_token(quota, k)
            + quota.interval_nanos,
{
    if k >= quota.burst {
        let beyond = k - quota.burst;
        let interval = quota.interval_nanos as int;
        assert(k + 1 - quota.burst == beyond + 1);
        assert((beyond + 1) * interval == beyond * interval + interval) by (nonlinear_arith);
        assert((k + 1 - quota.burst) * interval == beyond * interval + interval);
        assert(0 * interval == 0) by (nonlinear_arith);
        assert(beyond * interval >= 0) by (nonlinear_arith)
            requires
                beyond >= 0,
                interval >= 0,
        ;
    }
}

/// A bucket can be made exactly for the rules that have a quota, and it bursts to the count of its
/// rule and gives a token back after the share of one request.
pub proof fn law_buckets_follow_their_rule(
    count: u32,
    window: TimeSpan,
    possible: bool,
    quota: BucketQuota,
)
    requires
        call_ensures(can_limit, (count, window), possible),
        possible,
        call_ensures(create_limiter, (count, window), quota),
    ensures
        count > 0,
        quota.burst == count,
        quota.interval_nanos * count <= window.nanos() < (quota.interval_nanos + 1) * count,
{
    law_quota_is_what_the_rule_says(count, window);
}

} // verus!
