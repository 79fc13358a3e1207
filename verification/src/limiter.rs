//! Outbound traffic shaping: which token buckets are active, and how the rules for them change.
//!
//! A [`RequestLimiter`] holds rate limiting rules. [`InMemoryLimiter`] keeps one token bucket per
//! rule; [`RedisLimiter`](crate::redis_limiter::RedisLimiter) shares one budget between processes.

use vstd::prelude::*;

use crate::quota::{
    create_limiter, earliest_token, is_active_rule, law_tokens_come_one_per_interval, quota_exists,
    quota_of, spread_interval, tokens_by, BucketQuota,
};
use crate::time_span::TimeSpan;

verus! {

/// A rate limiting rule: at most this many requests per window.
pub type LimitRule = (u32, TimeSpan);

/// One active token bucket.
#[derive(Clone, Copy, Debug, PartialEq, Eq, Structural)]
pub struct Bucket {
    /// Tells this bucket from every other: the tokens spent from a bucket belong to its stamp.
    pub stamp: u64,
    /// The window of the rule that made the bucket.
    pub window: TimeSpan,
    /// The burst size and the refill interval.
    pub quota: BucketQuota,
}

/// The buckets whose window differs from `window`, in order.
pub open spec fn other_windows(buckets: Seq<Bucket>, window: TimeSpan) -> Seq<Bucket> {
    buckets.filter(|bucket: Bucket| bucket.window != window)
}

/// The stamp after `stamp`; the last one has none.
pub open spec fn stamp_after(stamp: u64) -> u64 {
    if stamp < u64::MAX {
        (stamp + 1) as u64
    } else {
        stamp
    }
}

/// The buckets once a rule is set: those with another window, in order, and last a fresh one for
/// the rule if it takes part in rate limiting.
pub open spec fn buckets_after_limit(
    buckets: Seq<Bucket>,
    stamp: u64,
    requests: u32,
    window: TimeSpan,
) -> Seq<Bucket> {
    if is_active_rule(requests, window) {
        other_windows(buckets, window).push(
            Bucket { stamp, window, quota: quota_of(requests, window) },
        )
    } else {
        other_windows(buckets, window)
    }
}

/// The next stamp once a rule is set: a fresh bucket takes one.
pub open spec fn stamp_after_limit(stamp: u64, requests: u32, window: TimeSpan) -> u64 {
    if is_active_rule(requests, window) {
        stamp_after(stamp)
    } else {
        stamp
    }
}

/// The rules of a list that take part in rate limiting, in order.
pub open spec fn active_rules(rules: Seq<LimitRule>) -> Seq<LimitRule> {
    rules.filter(|rule: LimitRule| is_active_rule(rule.0, rule.1))
}

/// Rules that were picked because they take part in rate limiting all take part: picking again
/// changes nothing.
pub proof fn law_active_rules_stay(rules: Seq<LimitRule>)
    ensures
        active_rules(active_rules(rules)) == active_rules(rules),
    decreases rules.len(),
{
    reveal(Seq::filter);
    let active = |rule: LimitRule| is_active_rule(rule.0, rule.1);
    if rules.len() > 0 {
        law_active_rules_stay(rules.drop_last());
        active_rules(rules.drop_last()).lemma_filter_push(rules.last(), active);
    }
}

/// The stamp that follows `count` freshly stamped buckets.
pub open spec fn stamp_after_many(stamp: u64, count: nat) -> u64
    decreases count,
{
    if count == 0 {
        stamp
    } else {
        stamp_after(stamp_after_many(stamp, (count - 1) as nat))
    }
}

/// One new bucket per rule, in order, stamped from `stamp` on.
pub open spec fn fresh_buckets(rules: Seq<LimitRule>, stamp: u64) -> Seq<Bucket> {
    Seq::new(
        rules.len(),
        |i: int|
            Bucket {
                stamp: stamp_after_many(stamp, i as nat),
                window: rules[i].1,
                quota: quota_of(rules[i].0, rules[i].1),
            },
    )
}

/// The active token buckets, in the order in which they are asked for a token.
#[derive(Debug)]
pub struct RateLimitStrategy {
    limiters: Vec<Bucket>,
    next_stamp: u64,
}

impl RateLimitStrategy {
    /// The active buckets.
    pub closed spec fn buckets(&self) -> Seq<Bucket> {
        self.limiters@
    }

    /// The stamp of the next bucket.
    pub closed spec fn next_stamp(&self) -> u64 {
        self.next_stamp
    }

    /// While stamps last, every active bucket has one that was handed out, and no two share one.
    pub open spec fn wf(&self) -> bool {
        self.next_stamp() < u64::MAX ==> {
            &&& forall|i: int|
                0 <= i < self.buckets().len() ==> (#[trigger] self.buckets()[i]).stamp
                    < self.next_stamp()
            &&& forall|i: int, j: int|
                0 <= i < j < self.buckets().len() ==> (#[trigger] self.buckets()[i]).stamp != (
                #[trigger] self.buckets()[j]).stamp
        }
    }

    /// A strategy with one fresh bucket per rule, in order.
    pub fn from_rules(rules: &Vec<LimitRule>) -> (strategy: RateLimitStrategy)
        requires
            forall|i: int|
                0 <= i < rules.len() ==> quota_exists((#[trigger] rules[i]).0, rules[i].1),
        ensures
            strategy.wf(),
            strategy.buckets() == fresh_buckets(rules@, 0),
            strategy.next_stamp() == stamp_after_many(0, rules@.len()),
    {
        let mut strategy = RateLimitStrategy { limiters: Vec::new(), next_stamp: 0 };
        for i in 0..rules.len()
            invariant
                forall|i: int|
                    0 <= i < rules.len() ==> quota_exists((#[trigger] rules[i]).0, rules[i].1),
                strategy.wf(),
                strategy.buckets() == fresh_buckets(rules@.take(i as int), 0),
                strategy.next_stamp() == stamp_after_many(0, i as nat),
        {
            let (count, window) = rules[i];
            strategy.start(count, window);
            assert(strategy.buckets() =~= fresh_buckets(rules@.take(i + 1), 0));
        }
        assert(rules@.take(rules.len() as int) =~= rules@);
        strategy
    }

    /// Adds a fresh bucket for a rule.
    fn start(&mut self, count: u32, window: TimeSpan)
        requires
            old(self).wf(),
            quota_exists(count, window),
        ensures
            final(self).wf(),
            final(self).buckets() == old(self).buckets().push(
                (Bucket {
                    stamp: old(self).next_stamp(),
                    window,
                    quota: quota_of(count, window),
                }),
            ),
            final(self).next_stamp() == stamp_after(old(self).next_stamp()),
    {
        let quota = create_limiter(count, window);
        self.limiters.push(Bucket { stamp: self.next_stamp, window, quota });
        if self.next_stamp < u64::MAX {
            self.next_stamp = self.next_stamp + 1;
        }
        proof {
            let before = old(self).buckets();
            assert forall|i: int| 0 <= i < before.len() implies self.buckets()[i]
                == #[trigger] before[i] by {}
        }
    }

    /// Drops every bucket with the given window.
    fn evict(&mut self, window: TimeSpan)
        requires
            old(self).wf(),
        ensures
            final(self).wf(),
            final(self).buckets() == other_windows(old(self).buckets(), window),
            final(self).next_stamp() == old(self).next_stamp(),
    {
        let mut kept: Vec<Bucket> = Vec::new();
        let ghost all = self.limiters@;
        let ghost differs = |bucket: Bucket| bucket.window != window;
        for i in 0..self.limiters.len()
            invariant
                all == self.limiters@,
                differs == (|bucket: Bucket| bucket.window != window),
                kept@ == all.take(i as int).filter(differs),
        {
            let bucket = self.limiters[i];
            proof {
                assert(all.take(i + 1) =~= all.take(i as int).push(bucket));
                all.take(i as int).lemma_filter_push(bucket, differs);
            }
            if bucket.window != window {
                kept.push(bucket);
            }
        }
        proof {
            assert(all.take(all.len() as int) =~= all);
            assert(all == self.buckets());
            if self.next_stamp < u64::MAX {
                lemma_filter_keeps_stamps(all, differs, self.next_stamp);
            }
        }
        self.limiters = kept;
    }
}

/// Dropping buckets keeps the rest distinct.
proof fn lemma_filter_keeps_stamps(buckets: Seq<Bucket>, keep: spec_fn(Bucket) -> bool, next: u64)
    requires
        forall|i: int| 0 <= i < buckets.len() ==> (#[trigger] buckets[i]).stamp < next,
        forall|i: int, j: int|
            0 <= i < j < buckets.len() ==> (#[trigger] buckets[i]).stamp != (
            #[trigger] buckets[j]).stamp,
    ensures
        forall|i: int|
            0 <= i < buckets.filter(keep).len() ==> (#[trigger] buckets.filter(keep)[i]).stamp
                < next,
        forall|i: int, j: int|
            0 <= i < j < buckets.filter(keep).len() ==> (#[trigger] buckets.filter(keep)[i]).stamp
                != (#[trigger] buckets.filter(keep)[j]).stamp,
        forall|i: int|
            0 <= i < buckets.filter(keep).len() ==> buckets.contains(
                #[trigger] buckets.filter(keep)[i],
            ),
    decreases buckets.len(),
{
    reveal(Seq::filter);
    if buckets.len() > 0 {
        let shorter = buckets.drop_last();
        lemma_filter_keeps_stamps(shorter, keep, next);
        assert forall|i: int| 0 <= i < buckets.filter(keep).len() implies buckets.contains(
            #[trigger] buckets.filter(keep)[i],
        ) by {
            if i < shorter.filter(keep).len() {
                let k = choose|k: int|
                    0 <= k < shorter.len() && shorter[k] == shorter.filter(keep)[i];
                assert(buckets[k] == buckets.filter(keep)[i]);
            } else {
                assert(buckets[buckets.len() - 1] == buckets.filter(keep)[i]);
            }
        }
        assert forall|i: int, j: int|
            0 <= i < j < buckets.filter(keep).len() implies (#[trigger] buckets.filter(
            keep,
        )[i]).stamp != (#[trigger] buckets.filter(keep)[j]).stamp by {
            if j == shorter.filter(keep).len() {
                assert(shorter.contains(shorter.filter(keep)[i]));
                let k = choose|k: int|
                    0 <= k < shorter.len() && shorter[k] == shorter.filter(keep)[i];
                assert(buckets[k].stamp != buckets[buckets.len() - 1].stamp);
            } else {
                assert(shorter.filter(keep)[i].stamp != shorter.filter(keep)[j].stamp);
            }
        }
    }
}

impl Default for RateLimitStrategy {
    /// A strategy without any bucket.
    fn default() -> (strategy: RateLimitStrategy)
        ensures
            strategy.wf(),
            strategy.buckets() == Seq::<Bucket>::empty(),
            strategy.next_stamp() == 0,
    {
        RateLimitStrategy { limiters: Vec::new(), next_stamp: 0 }
    }
}

/// Throttles outbound requests by rules that can change while requests are under way.
///
/// A limiter that cannot change its rules keeps the two methods as they are given here: they do
/// nothing.
pub trait RequestLimiter: Sized {
    /// Whether the limiter can put this rule into effect.
    open spec fn accepts_rule(requests: u32, window: TimeSpan) -> bool {
        true
    }

    /// Puts one rule into effect, in place of any other with the same window.
    fn set_limit(&mut self, requests: u32, window: TimeSpan)
        requires
            Self::accepts_rule(requests, window),
        default_ensures
            *final(self) == *old(self),
    {
    }

    /// Puts a whole set of rules into effect, in place of all others.
    fn set_limits_bulk(&mut self, limits: Vec<LimitRule>)
        requires
            forall|i: int|
                0 <= i < limits.len() ==> Self::accepts_rule((#[trigger] limits[i]).0, limits[i].1),
        default_ensures
            *final(self) == *old(self),
    {
    }
}

/// A rate limiter whose token buckets live in this process.
#[derive(Debug)]
pub struct InMemoryLimiter {
    strategy: RateLimitStrategy,
}

impl InMemoryLimiter {
    #[verifier::type_invariant]
    spec fn stamps_are_sound(self) -> bool {
        self.strategy.wf()
    }

    /// The active buckets, in the order in which they are asked for a token.
    pub closed spec fn buckets(&self) -> Seq<Bucket> {
        self.strategy.buckets()
    }

    /// The stamp of the next bucket.
    pub closed spec fn next_stamp(&self) -> u64 {
        self.strategy.next_stamp()
    }

    /// A limiter that starts out with the buckets of `strategy`.
    pub fn new(strategy: RateLimitStrategy) -> (limiter: InMemoryLimiter)
        requires
            strategy.wf(),
        ensures
            limiter.buckets() == strategy.buckets(),
            limiter.next_stamp() == strategy.next_stamp(),
    {
        InMemoryLimiter { strategy }
    }

    /// The buckets that a request has to take one token from, in order, before it is sent.
    ///
    /// The list is a snapshot: rules that change while a request waits do not affect it. While
    /// stamps last, no two buckets of the list share one.
    pub fn wait(&self) -> (buckets: Vec<Bucket>)
        ensures
            buckets@ == self.buckets(),
            self.next_stamp() < u64::MAX ==> forall|i: int, j: int|
                0 <= i < j < buckets.len() ==> (#[trigger] buckets[i]).stamp != (
                #[trigger] buckets[j]).stamp,
    {
        proof {
            use_type_invariant(self);
        }
        let mut buckets: Vec<Bucket> = Vec::new();
        for i in 0..self.strategy.limiters.len()
            invariant
                buckets@ == self.strategy.limiters@.take(i as int),
        {
            buckets.push(self.strategy.limiters[i]);
        }
        assert(buckets@ =~= self.buckets());
        buckets
    }
}

/// The wait of one request: it takes one token from each bucket of a snapshot, in order.
#[derive(Debug)]
pub struct TokenWait {
    buckets: Vec<Bucket>,
    asked: usize,
}

impl TokenWait {
    #[verifier::type_invariant]
    spec fn asks_listed_buckets(self) -> bool {
        self.asked <= self.buckets.len()
    }

    /// The buckets of the snapshot.
    pub closed spec fn listed(&self) -> Seq<Bucket> {
        self.buckets@
    }

    /// The buckets that were asked for a token so far.
    pub closed spec fn asked(&self) -> Seq<Bucket> {
        self.buckets@.take(self.asked as int)
    }

    /// The wait for one token from each of the buckets. Without any bucket it is over at once.
    pub fn new(buckets: Vec<Bucket>) -> (wait: TokenWait)
        ensures
            wait.listed() == buckets@,
            wait.asked() == Seq::<Bucket>::empty(),
            buckets@.len() == 0 ==> wait.asked() == wait.listed(),
    {
        let wait = TokenWait { buckets, asked: 0 };
        assert(wait.asked() =~= Seq::<Bucket>::empty());
        wait
    }

    /// The bucket to take the next token from, once the one before has given its token. There is
    /// none when each has been asked: then the request may be sent.
    pub fn next_bucket(&mut self) -> (bucket: Option<Bucket>)
        ensures
            final(self).listed() == old(self).listed(),
            bucket is None <==> old(self).asked() == old(self).listed(),
            final(self).asked() == match bucket {
                Some(bucket) => old(self).asked().push(bucket),
                None => old(self).asked(),
            },
            final(self).asked().is_prefix_of(final(self).listed()),
    {
        proof {
            use_type_invariant(&*self);
            let all = self.buckets@;
            assert(all.take(all.len() as int) =~= all);
            if self.asked < all.len() {
                assert(all.take(self.asked as int).len() < all.len());
                assert(all.take(self.asked + 1) =~= all.take(self.asked as int).push(
                    all[self.asked as int],
                ));
            }
        }
        if self.asked < self.buckets.len() {
            let bucket = self.buckets[self.asked];
            self.asked = self.asked + 1;
            Some(bucket)
        } else {
            None
        }
    }
}

impl Default for InMemoryLimiter {
    /// A limiter without any bucket: it never makes a request wait.
    fn default() -> (limiter: InMemoryLimiter)
        ensures
            limiter.buckets() == Seq::<Bucket>::empty(),
            limiter.next_stamp() == 0,
    {
        InMemoryLimiter::new(RateLimitStrategy::default())
    }
}

impl RequestLimiter for InMemoryLimiter {
    open spec fn accepts_rule(requests: u32, window: TimeSpan) -> bool {
        is_active_rule(requests, window) ==> quota_exists(requests, window)
    }

    /// Drops every bucket with this window. If neither number is zero, a fresh bucket for the rule
    /// comes last. Buckets with another window keep their stamp, and with it the tokens spent.
    fn set_limit(&mut self, requests: u32, window: TimeSpan)
        ensures
            final(self).buckets() == buckets_after_limit(
                old(self).buckets(),
                old(self).next_stamp(),
                requests,
                window,
            ),
            final(self).next_stamp() == stamp_after_limit(
                old(self).next_stamp(),
                requests,
                window,
            ),
    {
        proof {
            use_type_invariant(&*self);
        }
        let mut strategy = RateLimitStrategy::default();
        std::mem::swap(&mut strategy, &mut self.strategy);
        strategy.evict(window);
        if requests > 0 && !window.is_zero() {
            strategy.start(requests, window);
        }
        self.strategy = strategy;
    }

    /// Drops every bucket and starts a fresh one for each rule in which neither number is zero.
    fn set_limits_bulk(&mut self, limits: Vec<LimitRule>)
        ensures
            final(self).buckets() == fresh_buckets(
                active_rules(limits@),
                old(self).next_stamp(),
            ),
            final(self).next_stamp() == stamp_after_many(
                old(self).next_stamp(),
                active_rules(limits@).len(),
            ),
    {
        let ghost start = self.strategy.next_stamp();
        let ghost active = |rule: LimitRule| is_active_rule(rule.0, rule.1);
        let mut strategy = RateLimitStrategy {
            limiters: Vec::new(),
            next_stamp: self.strategy.next_stamp,
        };
        for i in 0..limits.len()
            invariant
                active == (|rule: LimitRule| is_active_rule(rule.0, rule.1)),
                forall|i: int|
                    0 <= i < limits.len() ==> Self::accepts_rule(
                        (#[trigger] limits[i]).0,
                        limits[i].1,
                    ),
                strategy.wf(),
                strategy.buckets() == fresh_buckets(limits@.take(i as int).filter(active), start),
                strategy.next_stamp() == stamp_after_many(
                    start,
                    limits@.take(i as int).filter(active).len(),
                ),
        {
            let (count, window) = limits[i];
            let ghost before = limits@.take(i as int);
            proof {
                assert(limits@.take(i + 1) =~= before.push(limits[i as int]));
                before.lemma_filter_push(limits[i as int], active);
            }
            if count > 0 && !window.is_zero() {
                strategy.start(count, window);
                assert(strategy.buckets() =~= fresh_buckets(
                    before.filter(active).push((count, window)),
                    start,
                ));
            }
        }
        assert(limits@.take(limits.len() as int) =~= limits@);
        self.strategy = strategy;
    }
}

proof fn lemma_other_windows(buckets: Seq<Bucket>, window: TimeSpan)
    ensures
        forall|i: int|
            0 <= i < other_windows(buckets, window).len() ==> (#[trigger] other_windows(
                buckets,
                window,
            )[i]).window != window,
        other_windows(other_windows(buckets, window), window) == other_windows(buckets, window),
    decreases buckets.len(),
{
    reveal(Seq::filter);
    let differs = |bucket: Bucket| bucket.window != window;
    if buckets.len() > 0 {
        let shorter = buckets.drop_last();
        lemma_other_windows(shorter, window);
        if differs(buckets.last()) {
            shorter.filter(differs).lemma_filter_push(buckets.last(), differs);
        }
    }
}

/// Setting a rule leaves at most one bucket with its window, the fresh one: none if the rule takes
/// no part in rate limiting, which is how a rule is removed.
pub proof fn law_limit_replaces_same_window(
    buckets: Seq<Bucket>,
    stamp: u64,
    requests: u32,
    window: TimeSpan,
    i: int,
)
    requires
        0 <= i < buckets_after_limit(buckets, stamp, requests, window).len(),
    ensures
        buckets_after_limit(buckets, stamp, requests, window)[i].window == window <==> (
        is_active_rule(requests, window) && i == buckets_after_limit(
            buckets,
            stamp,
            requests,
            window,
        ).len() - 1),
{
    lemma_other_windows(buckets, window);
    let kept = other_windows(buckets, window);
    if i < kept.len() {
        assert(kept[i].window != window);
    }
}

/// Setting a rule leaves the buckets of other windows alone: they keep their order and their
/// stamps.
pub proof fn law_limit_keeps_other_windows(
    buckets: Seq<Bucket>,
    stamp: u64,
    requests: u32,
    window: TimeSpan,
)
    ensures
        other_windows(buckets_after_limit(buckets, stamp, requests, window), window)
            == other_windows(buckets, window),
{
    lemma_other_windows(buckets, window);
    if is_active_rule(requests, window) {
        let differs = |bucket: Bucket| bucket.window != window;
        let fresh = Bucket { stamp, window, quota: quota_of(requests, window) };
        other_windows(buckets, window).lemma_filter_push(fresh, differs);
    }
}

/// The last of two rules for the same window counts: the first leaves no trace.
pub proof fn law_last_limit_counts(
    buckets: Seq<Bucket>,
    first_stamp: u64,
    first: u32,
    second_stamp: u64,
    second: u32,
    window: TimeSpan,
)
    ensures
        buckets_after_limit(
            buckets_after_limit(buckets, first_stamp, first, window),
            second_stamp,
            second,
            window,
        ) == buckets_after_limit(buckets, second_stamp, second, window),
{
    law_limit_keeps_other_windows(buckets, first_stamp, first, window);
}

/// While stamps last, a fresh bucket never takes over the tokens of another: its stamp is one that
/// no active bucket has.
pub proof fn law_fresh_stamp_is_new(strategy: &RateLimitStrategy, i: int)
    requires
        strategy.wf(),
        strategy.next_stamp() < u64::MAX,
        0 <= i < strategy.buckets().len(),
    ensures
        strategy.buckets()[i].stamp != strategy.next_stamp(),
{
}

/// A bulk change takes over every rule with a count and a window, in order, and no other.
pub proof fn law_bulk_takes_active_rules(rules: Seq<LimitRule>, stamp: u64, i: int)
    requires
        0 <= i < fresh_buckets(active_rules(rules), stamp).len(),
    ensures
        fresh_buckets(active_rules(rules), stamp).len() == active_rules(rules).len(),
        is_active_rule(active_rules(rules)[i].0, active_rules(rules)[i].1),
        rules.contains(active_rules(rules)[i]),
        fresh_buckets(active_rules(rules), stamp)[i].window == active_rules(rules)[i].1,
        fresh_buckets(active_rules(rules), stamp)[i].quota == quota_of(
            active_rules(rules)[i].0,
            active_rules(rules)[i].1,
        ),
{
    let active = |rule: LimitRule| is_active_rule(rule.0, rule.1);
    rules.lemma_filter_pred(active, i);
    rules.lemma_filter_contains_rev(active, active_rules(rules)[i]);
}

/// What comes of waits in a row, from the moment on at which the buckets were fresh and while no rule
/// changes. Wait `k` gets its token from bucket `i` at the moment `tokens[k][i]`, by which the bucket
/// has handed out one token to each wait so far, and is over at the moment `ends[k]`. Moments are
/// in nanoseconds.
pub open spec fn is_wait_history(
    buckets: Seq<Bucket>,
    tokens: Seq<Seq<nat>>,
    ends: Seq<nat>,
) -> bool {
    &&& tokens.len() == ends.len()
    &&& forall|k: int| 0 <= k < tokens.len() ==> (#[trigger] tokens[k]).len() == buckets.len()
    &&& forall|k: int, i: int|
        0 <= k < tokens.len() && 0 <= i < buckets.len() ==> {
            &&& #[trigger] tokens[k][i] <= ends[k]
            &&& buckets[i].quota.interval_nanos > 0 ==> k + 1 <= tokens_by(
                buckets[i].quota,
                tokens[k][i],
            )
        }
}

/// The `k`-th wait in a row is over no earlier than any bucket can have handed out `k` tokens: every
/// bucket is charged for every wait, not only the first or the tightest.
pub proof fn law_wait_is_held_by_every_bucket(
    buckets: Seq<Bucket>,
    tokens: Seq<Seq<nat>>,
    ends: Seq<nat>,
    k: nat,
    i: int,
)
    requires
        is_wait_history(buckets, tokens, ends),
        1 <= k <= ends.len(),
        0 <= i < buckets.len(),
    ensures
        ends[k - 1] >= earliest_token(buckets[i].quota, k),
{
    let quota = buckets[i].quota;
    let moment = tokens[k - 1][i];
    assert(moment <= ends[k - 1]);
    if quota.interval_nanos > 0 {
        law_tokens_come_one_per_interval(quota, k, moment);
    } else {
        assert((k - quota.burst) * quota.interval_nanos == 0) by (nonlinear_arith)
            requires
                quota.interval_nanos == 0,
        ;
    }
}

/// Under rules of `count` requests per `window`, the `k`-th wait in a row is over no earlier than
/// `k - count` shares of each window.
pub proof fn law_wait_follows_every_rule(
    rules: Seq<LimitRule>,
    stamp: u64,
    tokens: Seq<Seq<nat>>,
    ends: Seq<nat>,
    k: nat,
    i: int,
)
    requires
        is_wait_history(fresh_buckets(rules, stamp), tokens, ends),
        1 <= k <= ends.len(),
        0 <= i < rules.len(),
        quota_exists(rules[i].0, rules[i].1),
    ensures
        k > rules[i].0 ==> ends[k - 1] >= (k - rules[i].0) * spread_interval(
            rules[i].0,
            rules[i].1,
        ),
{
    law_wait_is_held_by_every_bucket(fresh_buckets(rules, stamp), tokens, ends, k, i);
    if k > rules[i].0 {
        let interval = spread_interval(rules[i].0, rules[i].1);
        assert((k - rules[i].0) * interval >= 0) by (nonlinear_arith)
            requires
                k > rules[i].0,
        ;
    }
}

/// `picked` holds the items of `all` at these positions, in their order.
pub open spec fn is_selection<A>(all: Seq<A>, picked: Seq<A>, positions: Seq<int>) -> bool {
    &&& positions.len() == picked.len()
    &&& forall|i: int, j: int|
        0 <= i < j < positions.len() ==> #[trigger] positions[i] < #[trigger] positions[j]
    &&& forall|k: int|
        0 <= k < positions.len() ==> 0 <= #[trigger] positions[k] < all.len() && picked[k]
            == all[positions[k]]
}

/// What a filter picks out of a list, and from where.
pub(crate) proof fn lemma_filter_selects<A>(all: Seq<A>, keep: spec_fn(A) -> bool) -> (positions:
    Seq<int>)
    ensures
        is_selection(all, all.filter(keep), positions),
        forall|j: int|
            #[trigger] positions.contains(j) <==> 0 <= j < all.len() && keep(all[j]),
    decreases all.len(),
{
    reveal(Seq::filter);
    if all.len() == 0 {
        let positions = Seq::<int>::empty();
        assert(forall|j: int| !positions.contains(j));
        positions
    } else {
        let shorter = all.drop_last();
        let before = lemma_filter_selects(shorter, keep);
        let last = all.len() - 1;
        if keep(all.last()) {
            let positions = before.push(last);
            assert(is_selection(all, all.filter(keep), positions)) by {
                assert forall|i: int, j: int| 0 <= i < j < positions.len() implies #[trigger]
                    positions[i] < #[trigger] positions[j] by {
                    if j == before.len() {
                        assert(before[i] < shorter.len());
                    }
                }
                assert forall|k: int| 0 <= k < positions.len() implies 0
                    <= #[trigger] positions[k] < all.len() && all.filter(keep)[k]
                    == all[positions[k]] by {
                    if k < before.len() {
                        assert(0 <= before[k] < shorter.len());
                    }
                }
            }
            assert forall|j: int| #[trigger] positions.contains(j) <==> 0 <= j < all.len() && keep(
                all[j],
            ) by {
                if j == last {
                    assert(positions[before.len() as int] == j);
                } else {
                    assert(positions.contains(j) <==> before.contains(j)) by {
                        if positions.contains(j) {
                            let k = choose|k: int| 0 <= k < positions.len() && positions[k] == j;
                            assert(before[k] == j);
                        }
                        if before.contains(j) {
                            let k = choose|k: int| 0 <= k < before.len() && before[k] == j;
                            assert(positions[k] == j);
                        }
                    }
                }
            }
            positions
        } else {
            assert(is_selection(all, all.filter(keep), before)) by {
                assert forall|k: int| 0 <= k < before.len() implies 0
                    <= #[trigger] before[k] < all.len() && all.filter(keep)[k]
                    == all[before[k]] by {
                    assert(0 <= before[k] < shorter.len());
                }
            }
            assert forall|j: int| #[trigger] before.contains(j) <==> 0 <= j < all.len() && keep(
                all[j],
            ) by {
                if before.contains(j) {
                    let k = choose|k: int| 0 <= k < before.len() && before[k] == j;
                    assert(before[k] < shorter.len());
                }
            }
            before
        }
    }
}

/// What a rule does to the buckets: those with another window, every one of them and no other, stay
/// as they are and in their order. If the rule allows a request and its window has a length, one
/// bucket comes last, with the rule's window and count and the stamp that was due.
pub proof fn law_limit_change_is_exact(
    buckets: Seq<Bucket>,
    stamp: u64,
    requests: u32,
    window: TimeSpan,
) -> (positions: Seq<int>)
    ensures
        ({
            let after = buckets_after_limit(buckets, stamp, requests, window);
            let active = requests > 0 && window.secs() + window.subsec_nanos() > 0;
            let kept = if active {
                after.drop_last()
            } else {
                after
            };
            &&& active ==> after.len() > 0 && after.last().window == window && after.last().stamp
                == stamp && after.last().quota.burst == requests && after.last().quota == quota_of(
                requests,
                window,
            )
            &&& is_selection(buckets, kept, positions)
            &&& forall|j: int|
                #[trigger] positions.contains(j) <==> 0 <= j < buckets.len() && buckets[j].window
                    != window
        }),
{
    let differs = |bucket: Bucket| bucket.window != window;
    let positions = lemma_filter_selects(buckets, differs);
    let after = buckets_after_limit(buckets, stamp, requests, window);
    if is_active_rule(requests, window) {
        assert(after.drop_last() =~= other_windows(buckets, window));
    }
    positions
}

/// What a bulk change does: every rule that allows a request and has a window with a length gets its
/// bucket, with its window and its count, in the order of the rules, and nothing else does.
pub proof fn law_bulk_change_is_exact(rules: Seq<LimitRule>, stamp: u64) -> (positions: Seq<int>)
    ensures
        ({
            let buckets = fresh_buckets(active_rules(rules), stamp);
            &&& positions.len() == buckets.len()
            &&& forall|i: int, j: int|
                0 <= i < j < positions.len() ==> #[trigger] positions[i] < #[trigger] positions[j]
            &&& forall|k: int|
                0 <= k < positions.len() ==> {
                    &&& 0 <= #[trigger] positions[k] < rules.len()
                    &&& buckets[k].window == rules[positions[k]].1
                    &&& buckets[k].quota.burst == rules[positions[k]].0
                    &&& buckets[k].quota == quota_of(rules[positions[k]].0, rules[positions[k]].1)
                }
            &&& forall|j: int|
                #[trigger] positions.contains(j) <==> 0 <= j < rules.len() && rules[j].0 > 0
                    && rules[j].1.secs() + rules[j].1.subsec_nanos() > 0
        }),
{
    let active = |rule: LimitRule| is_active_rule(rule.0, rule.1);
    let positions = lemma_filter_selects(rules, active);
    assert forall|j: int|
        #[trigger] positions.contains(j) <==> 0 <= j < rules.len() && rules[j].0 > 0
            && rules[j].1.secs() + rules[j].1.subsec_nanos() > 0 by {
        if 0 <= j < rules.len() {
            assert(active(rules[j]) <==> is_active_rule(rules[j].0, rules[j].1));
        }
    }
    positions
}

/// Every rule of a bulk change that allows a request and has a window with a length has its bucket
/// afterwards, and the rules that have none are the others: together they are as many as the rules.
pub proof fn law_bulk_change_drops_nothing(
    rules: Seq<LimitRule>,
    ignored: Seq<LimitRule>,
    stamp: u64,
)
    requires
        ignored == rules.filter(|rule: LimitRule| !is_active_rule(rule.0, rule.1)),
    ensures
        ({
            let buckets = fresh_buckets(active_rules(rules), stamp);
            &&& buckets.len() + ignored.len() == rules.len()
            &&& forall|j: int|
                0 <= j < rules.len() && (#[trigger] rules[j]).0 > 0 && rules[j].1.secs()
                    + rules[j].1.subsec_nanos() > 0 ==> exists|k: int|
                    0 <= k < buckets.len() && (#[trigger] buckets[k]).window == rules[j].1
                        && buckets[k].quota.burst == rules[j].0
            &&& forall|i: int|
                0 <= i < ignored.len() ==> rules.contains(#[trigger] ignored[i]) && (ignored[i].0
                    == 0 || ignored[i].1.secs() + ignored[i].1.subsec_nanos() == 0)
        }),
{
    let active = |rule: LimitRule| is_active_rule(rule.0, rule.1);
    let idle = |rule: LimitRule| !is_active_rule(rule.0, rule.1);
    let buckets = fresh_buckets(active_rules(rules), stamp);
    lemma_filters_split(rules, active, idle);
    let positions = law_bulk_change_is_exact(rules, stamp);
    assert forall|j: int|
        0 <= j < rules.len() && (#[trigger] rules[j]).0 > 0 && rules[j].1.secs()
            + rules[j].1.subsec_nanos() > 0 implies exists|k: int|
        0 <= k < buckets.len() && (#[trigger] buckets[k]).window == rules[j].1
            && buckets[k].quota.burst == rules[j].0 by {
        assert(positions.contains(j));
        let k = choose|k: int| 0 <= k < positions.len() && positions[k] == j;
        assert(buckets[k].window == rules[positions[k]].1);
    }
    let skipped = lemma_filter_selects(rules, idle);
    assert forall|i: int| 0 <= i < ignored.len() implies rules.contains(#[trigger] ignored[i]) && (
    ignored[i].0 == 0 || ignored[i].1.secs() + ignored[i].1.subsec_nanos() == 0) by {
        assert(ignored[i] == rules[skipped[i]]);
        assert(skipped.contains(skipped[i]));
        assert(idle(rules[skipped[i]]));
    }
}

proof fn lemma_filters_split<A>(all: Seq<A>, one: spec_fn(A) -> bool, other: spec_fn(A) -> bool)
    requires
        forall|item: A| #[trigger] one(item) <==> !other(item),
    ensures
        all.filter(one).len() + all.filter(other).len() == all.len(),
    decreases all.len(),
{
    reveal(Seq::filter);
    if all.len() > 0 {
        lemma_filters_split(all.drop_last(), one, other);
        assert(one(all.last()) <==> !other(all.last()));
    }
}

/// Stamps count up by one, and stop at the last.
pub proof fn law_stamps_count_up(stamp: u64, count: nat, requests: u32, window: TimeSpan)
    ensures
        stamp < u64::MAX ==> stamp_after(stamp) == stamp + 1,
        stamp_after(u64::MAX) == u64::MAX,
        stamp + count <= u64::MAX ==> stamp_after_many(stamp, count) == stamp + count,
        stamp_after_many(stamp, count) >= stamp,
        stamp_after_limit(stamp, requests, window) == if requests > 0 && window.secs()
            + window.subsec_nanos() > 0 {
            stamp_after(stamp)
        } else {
            stamp
        },
    decreases count,
{
    if count > 0 {
        law_stamps_count_up(stamp, (count - 1) as nat, requests, window);
    }
}

/// The buckets of a bulk change have a stamp each, counted up from the one that was due.
pub proof fn law_bulk_stamps_are_fresh(rules: Seq<LimitRule>, stamp: u64, i: int)
    requires
        0 <= i < rules.len(),
        stamp + rules.len() <= u64::MAX,
    ensures
        fresh_buckets(rules, stamp).len() == rules.len(),
        fresh_buckets(rules, stamp)[i].stamp == stamp + i,
        fresh_buckets(rules, stamp)[i].window == rules[i].1,
        fresh_buckets(rules, stamp)[i].quota.burst == rules[i].0,
{
    law_stamps_count_up(stamp, i as nat, 0, rules[i].1);
}

/// A limiter with token buckets can take every rule but those that take part in rate limiting and
/// leave no room for a bucket.
pub proof fn law_which_rules_are_accepted(requests: u32, window: TimeSpan)
    ensures
        InMemoryLimiter::accepts_rule(requests, window) <==> (requests > 0 && window.secs()
            + window.subsec_nanos() > 0 ==> quota_exists(requests, window)),
{
}

/// After a bulk change of a limiter every rule that allows a request and has a window with a length
/// has its bucket, in the order of the rules, and there is no other bucket.
pub proof fn law_bulk_change_leaves_every_rule(
    limiter: &mut InMemoryLimiter,
    limits: Vec<LimitRule>,
) -> (positions: Seq<int>)
    requires
        call_ensures(InMemoryLimiter::set_limits_bulk, (limiter, limits), ()),
    ensures
        positions.len() == final(limiter).buckets().len(),
        forall|i: int, j: int|
            0 <= i < j < positions.len() ==> #[trigger] positions[i] < #[trigger] positions[j],
        forall|k: int|
            0 <= k < positions.len() ==> 0 <= #[trigger] positions[k] < limits.len()
                && final(limiter).buckets()[k].window == limits@[positions[k]].1
                && final(limiter).buckets()[k].quota.burst == limits@[positions[k]].0,
        forall|j: int|
            #[trigger] positions.contains(j) <==> 0 <= j < limits.len() && limits@[j].0 > 0
                && limits@[j].1.secs() + limits@[j].1.subsec_nanos() > 0,
{
    law_bulk_change_is_exact(limits@, limiter.next_stamp())
}

/// After a rule was set on a limiter its buckets for other windows are all there, in their order, and
/// the last bucket is the one for the rule if it allows a request and its window has a length.
pub proof fn law_set_limit_leaves_other_windows(
    limiter: &mut InMemoryLimiter,
    requests: u32,
    window: TimeSpan,
) -> (positions: Seq<int>)
    requires
        call_ensures(InMemoryLimiter::set_limit, (limiter, requests, window), ()),
    ensures
        ({
            let before = old(limiter).buckets();
            let after = final(limiter).buckets();
            let active = requests > 0 && window.secs() + window.subsec_nanos() > 0;
            &&& active ==> after.len() > 0 && after.last().window == window
                && after.last().quota.burst == requests
            &&& is_selection(
                before,
                if active {
                    after.drop_last()
                } else {
                    after
                },
                positions,
            )
            &&& forall|j: int|
                #[trigger] positions.contains(j) <==> 0 <= j < before.len() && before[j].window
                    != window
        }),
{
    law_limit_change_is_exact(limiter.buckets(), limiter.next_stamp(), requests, window)
}

/// A wait asks the buckets of its list one after the other and is over when each was asked.
pub proof fn law_wait_asks_in_order(wait: &mut TokenWait, bucket: Option<Bucket>)
    requires
        call_ensures(TokenWait::next_bucket, (wait,), bucket),
        old(wait).asked().is_prefix_of(old(wait).listed()),
    ensures
        old(wait).asked().len() < old(wait).listed().len() <==> bucket is Some,
        bucket matches Some(b) ==> b == old(wait).listed()[old(wait).asked().len() as int]
            && final(wait).asked().len() == old(wait).asked().len() + 1,
{
    let asked = wait.asked();
    let listed = wait.listed();
    if asked.len() == listed.len() {
        assert(asked =~= listed);
    }
    if let Some(b) = bucket {
        assert(asked.push(b)[asked.len() as int] == b);
    }
}

} // verus!
