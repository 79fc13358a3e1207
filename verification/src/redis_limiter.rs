//! Rate limiting shared between processes through a Redis coordinator.
//!
//! The coordinator keeps a log of the moments at which requests were let through, and applies
//! [`ADMISSION_SCRIPT`] to it atomically. [`SlidingWindowLog`] is a log that follows the same rule.
//! That the two agree is seen by reading them side by side: the script is text to this library.
//! [`RedisLimiter`] says what to ask the coordinator and what its answer means.

use vstd::multiset::Multiset;
use vstd::prelude::*;

use crate::diagnostics::Diagnostic;
use crate::error::MoonError;
use crate::limiter::RequestLimiter;
use crate::time_span::TimeSpan;

verus! {

/// The script that the coordinator runs for each request. Its key names the log; its arguments
/// are the present moment, the window, both in milliseconds, and the limit. It answers 0 when the
/// request may be sent, and otherwise the milliseconds to wait before asking again.
pub const ADMISSION_SCRIPT: &'static str = "
local key = KEYS[1]
local now = tonumber(ARGV[1])
local window = tonumber(ARGV[2])
local limit = tonumber(ARGV[3])
local clear_before = now - window

-- Evict stale entries falling outside the active sliding window
redis.call('ZREMRANGEBYSCORE', key, '-inf', clear_before)

-- Retrieve current request count within the window
local amount = redis.call('ZCARD', key)

if amount < limit then
    -- Quota available: record request and permit immediate dispatch (0 ms wait).
    -- Requests of one millisecond are told apart by how many of them came before.
    local twins = redis.call('ZCOUNT', key, now, now)
    redis.call('ZADD', key, now, ARGV[1] .. '-' .. twins)
    return 0
else
    -- Limit reached: compute time remaining until earliest slot is liberated
    local oldest = redis.call('ZRANGE', key, 0, 0, 'WITHSCORES')
    if #oldest > 0 then
        local oldest_score = tonumber(oldest[2])
        local wait_time = (oldest_score + window) - now
        return wait_time
    end
    return window
end
";

/// What the script is called with.
#[derive(Debug)]
pub struct ScriptCall {
    /// The key of the log.
    pub key: String,
    /// The present moment, in milliseconds.
    pub now_ms: u64,
    /// The window, in milliseconds.
    pub window_ms: u64,
    /// The number of requests per window.
    pub limit: u32,
}

/// What to do about an answer of the coordinator.
#[derive(Debug)]
pub enum WaitStep {
    /// Send the request.
    Proceed,
    /// Sleep for this many milliseconds, then ask again.
    Sleep { millis: u64 },
    /// Give up.
    Fail(MoonError),
}

/// A rate limiter that shares one budget between processes. Its rules do not change.
#[derive(Debug)]
pub struct RedisLimiter {
    limit_key: String,
    limit: u32,
    window_ms: u64,
}

impl RedisLimiter {
    /// The key of the log.
    pub closed spec fn key(&self) -> Seq<char> {
        self.limit_key@
    }

    /// The number of requests per window.
    pub closed spec fn limit(&self) -> u32 {
        self.limit
    }

    /// The window, in milliseconds.
    pub closed spec fn window_ms(&self) -> nat {
        self.window_ms as nat
    }

    /// A limiter for `limit` requests per `window`, counted under `limit_key`, once the attempt to
    /// connect to the coordinator has come to an end. If it failed, the result is
    /// [`MoonError::Config`] with the text of the failure. The window counts in whole milliseconds,
    /// at most `u64::MAX` of them.
    pub fn new(
        connected: Result<(), String>,
        limit_key: String,
        limit: u32,
        window: TimeSpan,
    ) -> (limiter: Result<RedisLimiter, MoonError>)
        ensures
            match connected {
                Ok(_) => limiter matches Ok(limiter) && {
                    &&& limiter.key() == limit_key@
                    &&& limiter.limit() == limit
                    &&& limiter.window_ms() == if window.millis() <= u64::MAX {
                        window.millis()
                    } else {
                        u64::MAX as nat
                    }
                },
                Err(text) => limiter == Err::<RedisLimiter, MoonError>(MoonError::Config(text)),
            },
    {
        match connected {
            Ok(_) => {
                let millis: u128 = window.as_millis();
                let window_ms: u64 = if millis <= u64::MAX as u128 {
                    millis as u64
                } else {
                    u64::MAX
                };
                Ok(RedisLimiter { limit_key, limit, window_ms })
            },
            Err(text) => Err(MoonError::Config(text)),
        }
    }

    /// What to ask the coordinator for a request at the moment `now_ms`.
    pub fn script_call(&self, now_ms: u64) -> (call: ScriptCall)
        ensures
            call.key@ == self.key(),
            call.now_ms == now_ms,
            call.window_ms == self.window_ms(),
            call.limit == self.limit(),
    {
        ScriptCall {
            key: self.limit_key.clone(),
            now_ms,
            window_ms: self.window_ms,
            limit: self.limit,
        }
    }

    /// What the coordinator's reply means for the request that waits: go on, wait and ask again,
    /// or give up with [`MoonError::Network`] and what `translate` makes of the failure.
    pub fn wait<F: FnOnce(Diagnostic) -> String>(&self, reply: Result<u64, String>, translate: F) -> (
    step: WaitStep)
        requires
            reply matches Err(error) ==> translate.requires(
                (Diagnostic::RedisLimitError { error },),
            ),
        ensures
            match reply {
                Ok(millis) => step == (if millis == 0 {
                    WaitStep::Proceed
                } else {
                    WaitStep::Sleep { millis }
                }),
                Err(error) => step matches WaitStep::Fail(MoonError::Network(text))
                    && translate.ensures((Diagnostic::RedisLimitError { error },), text),
            },
    {
        match reply {
            Ok(millis) => if millis == 0 {
                WaitStep::Proceed
            } else {
                WaitStep::Sleep { millis }
            },
            Err(error) => WaitStep::Fail(
                MoonError::Network(translate(Diagnostic::RedisLimitError { error })),
            ),
        }
    }
}

impl RequestLimiter for RedisLimiter {

}

/// Moments and windows up to here, in milliseconds, are exact in the coordinator's arithmetic.
pub const EXACT_MILLIS: u64 = 0x20_0000_0000_0000;

/// Picks the moments that are younger than `window` at the moment `now`.
pub open spec fn is_live(now: u64, window: u64) -> spec_fn(u64) -> bool {
    |moment: u64| moment + window > now
}

/// The moments of a log that are younger than `window` at the moment `now`.
pub open spec fn live_moments(log: Multiset<u64>, now: u64, window: u64) -> Multiset<u64> {
    log.filter(is_live(now, window))
}

/// Whether a request at the moment `now` is let through.
pub open spec fn is_admitted(log: Multiset<u64>, now: u64, window: u64, limit: u32) -> bool {
    live_moments(log, now, window).len() < limit
}

/// The log once a request at the moment `now` was decided.
pub open spec fn log_after(
    log: Multiset<u64>,
    now: u64,
    window: u64,
    limit: u32,
) -> Multiset<u64> {
    if is_admitted(log, now, window, limit) {
        live_moments(log, now, window).insert(now)
    } else {
        live_moments(log, now, window)
    }
}

/// `moment` is the earliest of the log.
pub open spec fn is_earliest(log: Multiset<u64>, moment: u64) -> bool {
    log.contains(moment) && forall|other: u64| #[trigger] log.contains(other) ==> moment <= other
}

/// The answer to a request at the moment `now`: nothing to wait for if it is let through;
/// otherwise the time until the earliest live moment leaves the window, or the whole window if
/// there is none.
pub open spec fn is_answer(
    log: Multiset<u64>,
    now: u64,
    window: u64,
    limit: u32,
    wait: u64,
) -> bool {
    let live = live_moments(log, now, window);
    if is_admitted(log, now, window, limit) {
        wait == 0
    } else if live.len() == 0 {
        wait == window
    } else {
        exists|oldest: u64| #[trigger] is_earliest(live, oldest) && wait == oldest + window - now
    }
}

/// The moments at which requests were let through, one for each request.
#[derive(Debug)]
pub struct SlidingWindowLog {
    moments: Vec<u64>,
}

impl View for SlidingWindowLog {
    type V = Multiset<u64>;

    closed spec fn view(&self) -> Multiset<u64> {
        self.moments@.to_multiset()
    }
}

spec fn is_ascending(moments: Seq<u64>) -> bool {
    forall|i: int, j: int| 0 <= i < j < moments.len() ==> moments[i] <= moments[j]
}

proof fn lemma_first_is_earliest(moments: Seq<u64>)
    requires
        is_ascending(moments),
        moments.len() > 0,
    ensures
        is_earliest(moments.to_multiset(), moments[0]),
{
    moments.to_multiset_ensures();
    assert(moments.contains(moments[0]));
    assert forall|other: u64| #[trigger] moments.to_multiset().contains(other) implies moments[0]
        <= other by {
        assert(moments.contains(other));
    }
}

proof fn lemma_filter_counts(moments: Seq<u64>, keep: spec_fn(u64) -> bool)
    ensures
        moments.filter(keep).to_multiset() == moments.to_multiset().filter(keep),
    decreases moments.len(),
{
    broadcast use vstd::multiset::group_multiset_axioms;

    if moments.len() == 0 {
        reveal(Seq::filter);
        moments.to_multiset_ensures();
        assert(moments.filter(keep) =~= moments);
        assert(moments.to_multiset().len() == 0);
        assert(moments.to_multiset().filter(keep) =~= moments.to_multiset());
    } else {
        let shorter = moments.drop_last();
        let last = moments.last();
        lemma_filter_counts(shorter, keep);
        assert(moments =~= shorter.push(last));
        shorter.lemma_filter_push(last, keep);
        shorter.to_multiset_ensures();
        shorter.filter(keep).to_multiset_ensures();
        assert(shorter.push(last).to_multiset() == shorter.to_multiset().insert(last));
        if keep(last) {
            assert(shorter.filter(keep).push(last).to_multiset() == shorter.filter(
                keep,
            ).to_multiset().insert(last));
        }
        assert(moments.filter(keep).to_multiset() =~= moments.to_multiset().filter(keep));
    }
}

impl SlidingWindowLog {
    #[verifier::type_invariant]
    spec fn moments_are_sound(self) -> bool {
        &&& is_ascending(self.moments@)
        &&& forall|i: int| 0 <= i < self.moments.len() ==> self.moments[i] <= EXACT_MILLIS
    }

    /// An empty log.
    pub fn new() -> (log: SlidingWindowLog)
        ensures
            log@ == Multiset::<u64>::empty(),
    {
        let log = SlidingWindowLog { moments: Vec::new() };
        proof {
            broadcast use vstd::multiset::group_multiset_axioms;

            log.moments@.to_multiset_ensures();
            assert(log@ =~= Multiset::<u64>::empty());
        }
        log
    }

    /// Decides a request at the moment `now` under `limit` requests per `window`, and records it
    /// if it is let through. The result is 0 in that case, and otherwise the time to wait.
    pub fn decide(&mut self, now: u64, window: u64, limit: u32) -> (wait: u64)
        requires
            now <= EXACT_MILLIS,
            window <= EXACT_MILLIS,
        ensures
            final(self)@ == log_after(old(self)@, now, window, limit),
            is_answer(old(self)@, now, window, limit, wait),
    {
        proof {
            use_type_invariant(&*self);
        }
        let ghost before = self.moments@;
        let ghost keep = is_live(now, window);
        let mut live: Vec<u64> = Vec::new();
        for i in 0..self.moments.len()
            invariant
                now <= EXACT_MILLIS,
                window <= EXACT_MILLIS,
                keep == is_live(now, window),
                before == self.moments@,
                is_ascending(before),
                forall|k: int| 0 <= k < before.len() ==> before[k] <= EXACT_MILLIS,
                is_ascending(live@),
                live@ == before.take(i as int).filter(keep),
                forall|k: int| 0 <= k < live.len() ==> #[trigger] live@[k] <= EXACT_MILLIS,
                forall|k: int| 0 <= k < live.len() ==> #[trigger] live@[k] + window > now,
                forall|k: int, m: int|
                    0 <= k < live.len() && i <= m < before.len() ==> #[trigger] live@[k]
                        <= #[trigger] before[m],
        {
            let moment: u64 = self.moments[i];
            proof {
                assert(before.take(i + 1) =~= before.take(i as int).push(moment));
                before.take(i as int).lemma_filter_push(moment, keep);
            }
            if moment + window > now {
                live.push(moment);
            }
        }
        proof {
            assert(before.take(before.len() as int) =~= before);
            lemma_filter_counts(before, keep);
            live@.to_multiset_ensures();
        }
        let amount: u64 = live.len() as u64;
        if amount < limit as u64 {
            self.moments = record(live, now);
            0
        } else {
            let wait: u64 = if live.len() > 0 {
                proof {
                    lemma_first_is_earliest(live@);
                }
                live[0] + window - now
            } else {
                window
            };
            self.moments = live;
            wait
        }
    }
}

/// Adds a moment to an ascending list.
fn record(moments: Vec<u64>, now: u64) -> (recorded: Vec<u64>)
    requires
        is_ascending(moments@),
        now <= EXACT_MILLIS,
        forall|k: int| 0 <= k < moments.len() ==> moments[k] <= EXACT_MILLIS,
    ensures
        is_ascending(recorded@),
        recorded@.to_multiset() == moments@.to_multiset().insert(now),
        forall|k: int| 0 <= k < recorded.len() ==> recorded[k] <= EXACT_MILLIS,
{
    let mut recorded = moments;
    let mut at: usize = recorded.len();
    while at > 0 && recorded[at - 1] > now
        invariant
            at <= recorded.len(),
            recorded@ == moments@,
            is_ascending(moments@),
            forall|k: int| at <= k < moments.len() ==> moments[k] >= now,
        decreases at,
    {
        at = at - 1;
    }
    recorded.insert(at, now);
    proof {
        vstd::seq_lib::to_multiset_insert(moments@, at as int, now);
    }
    recorded
}

/// The moments of the requests that are let through, in order, when requests are made at the
/// moments `requests` and the log starts out empty.
pub open spec fn admitted_moments(requests: Seq<u64>, window: u64, limit: u32) -> Seq<u64>
    decreases requests.len(),
{
    if requests.len() == 0 {
        Seq::empty()
    } else {
        let earlier = admitted_moments(requests.drop_last(), window, limit);
        if is_admitted(
            log_of_requests(requests.drop_last(), window, limit),
            requests.last(),
            window,
            limit,
        ) {
            earlier.push(requests.last())
        } else {
            earlier
        }
    }
}

/// The log after requests at the moments `requests`, started from an empty one.
pub open spec fn log_of_requests(requests: Seq<u64>, window: u64, limit: u32) -> Multiset<u64>
    decreases requests.len(),
{
    if requests.len() == 0 {
        Multiset::empty()
    } else {
        log_after(
            log_of_requests(requests.drop_last(), window, limit),
            requests.last(),
            window,
            limit,
        )
    }
}

/// Picks the moments within the span of one window that ends with `end`.
pub open spec fn is_within(window: u64, end: int) -> spec_fn(u64) -> bool {
    |moment: u64| end - window < moment && moment <= end
}

/// The number of requests that are let through within the span of one window that ends with `end`.
pub open spec fn admitted_within(requests: Seq<u64>, window: u64, limit: u32, end: int) -> nat {
    admitted_moments(requests, window, limit).filter(is_within(window, end)).len()
}

proof fn lemma_part_is_smaller(part: Multiset<u64>, whole: Multiset<u64>)
    requires
        part.subset_of(whole),
    ensures
        part.len() <= whole.len(),
{
    broadcast use vstd::multiset::group_multiset_axioms;

    assert(whole.sub(part).len() == whole.len() - part.len());
}

/// The log holds exactly the admitted moments that are still inside the window of the latest
/// request.
proof fn lemma_log_holds_recent(requests: Seq<u64>, window: u64, limit: u32)
    requires
        forall|i: int, j: int| 0 <= i <= j < requests.len() ==> requests[i] <= requests[j],
        window > 0,
    ensures
        requests.len() > 0 ==> log_of_requests(requests, window, limit) == live_moments(
            admitted_moments(requests, window, limit).to_multiset(),
            requests.last(),
            window,
        ),
        requests.len() == 0 ==> admitted_moments(requests, window, limit).to_multiset()
            == Multiset::<u64>::empty(),
    decreases requests.len(),
{
    broadcast use vstd::multiset::group_multiset_axioms;

    let all = admitted_moments(requests, window, limit);
    if requests.len() == 0 {
        all.to_multiset_ensures();
        assert(all.to_multiset() =~= Multiset::<u64>::empty());
    } else {
        let before = requests.drop_last();
        let now = requests.last();
        assert forall|i: int, j: int| 0 <= i <= j < before.len() implies before[i]
            <= before[j] by {
            assert(requests[i] <= requests[j]);
        }
        lemma_log_holds_recent(before, window, limit);
        if before.len() > 0 {
            assert(requests[requests.len() - 2] <= requests[requests.len() - 1]);
            assert(before.last() <= now);
        }
        let earlier = admitted_moments(before, window, limit);
        let log = log_of_requests(before, window, limit);
        assert(live_moments(log, now, window) =~= live_moments(
            earlier.to_multiset(),
            now,
            window,
        ));
        earlier.to_multiset_ensures();
        assert(earlier.push(now).to_multiset() == earlier.to_multiset().insert(now));
        assert(log_of_requests(requests, window, limit) =~= live_moments(
            all.to_multiset(),
            now,
            window,
        ));
    }
}

/// While the clock does not run backwards, at most `limit` requests are let through within any span
/// as long as the window, wherever it ends, and however many of them fall into one millisecond.
pub proof fn law_window_never_exceeds_limit(
    requests: Seq<u64>,
    window: u64,
    limit: u32,
    end: int,
)
    requires
        forall|i: int, j: int| 0 <= i <= j < requests.len() ==> requests[i] <= requests[j],
    ensures
        admitted_within(requests, window, limit, end) <= limit,
    decreases requests.len(),
{
    broadcast use vstd::multiset::group_multiset_axioms;

    let all = admitted_moments(requests, window, limit);
    let inside = is_within(window, end);
    if requests.len() == 0 {
        reveal(Seq::filter);
    } else {
        let before = requests.drop_last();
        let now = requests.last();
        assert forall|i: int, j: int| 0 <= i <= j < before.len() implies before[i]
            <= before[j] by {
            assert(requests[i] <= requests[j]);
        }
        law_window_never_exceeds_limit(before, window, limit, end);
        let earlier = admitted_moments(before, window, limit);
        let log = log_of_requests(before, window, limit);
        earlier.lemma_filter_push(now, inside);
        if is_admitted(log, now, window, limit) && inside(now) {
            lemma_log_holds_recent(before, window, limit);
            lemma_filter_counts(all, inside);
            all.filter(inside).to_multiset_ensures();
            earlier.to_multiset_ensures();
            assert(all.to_multiset() == earlier.to_multiset().insert(now));
            if before.len() > 0 {
                assert(requests[requests.len() - 2] <= requests[requests.len() - 1]);
                assert(before.last() <= now);
            }
            let live = live_moments(log, now, window);
            let counted = all.to_multiset().filter(inside);
            assert forall|m: u64| counted.count(m) <= live.insert(now).count(m) by {
                if inside(m) {
                    assert(is_live(now, window)(m));
                }
            }
            lemma_part_is_smaller(counted, live.insert(now));
        }
    }
}

/// The answer is 0, which lets the request proceed, exactly when the request is let through and
/// recorded.
pub proof fn law_zero_means_admitted(
    log: Multiset<u64>,
    now: u64,
    window: u64,
    limit: u32,
    wait: u64,
)
    requires
        window > 0,
        is_answer(log, now, window, limit, wait),
    ensures
        wait == 0 <==> is_admitted(log, now, window, limit),
        wait == 0 ==> log_after(log, now, window, limit).count(now) == live_moments(
            log,
            now,
            window,
        ).count(now) + 1,
{
    broadcast use vstd::multiset::group_multiset_axioms;

}

/// The log never holds more moments than the limit, whatever the clock does.
pub proof fn law_log_never_exceeds_limit(log: Multiset<u64>, now: u64, window: u64, limit: u32)
    requires
        log.len() <= limit,
    ensures
        log_after(log, now, window, limit).len() <= limit,
{
    broadcast use vstd::multiset::group_multiset_axioms;

    lemma_part_is_smaller(live_moments(log, now, window), log);
}

/// The wait of a refused request is exact: asked again at any earlier moment, with nothing else
/// going on, the answer is a refusal still; at the end of the wait the request is let through.
pub proof fn law_wait_is_exact(
    log: Multiset<u64>,
    now: u64,
    window: u64,
    limit: u32,
    wait: u64,
    later: u64,
)
    requires
        log.len() <= limit,
        limit > 0,
        !is_admitted(log, now, window, limit),
        is_answer(log, now, window, limit, wait),
        now <= later <= now + wait,
    ensures
        wait > 0,
        is_admitted(log_after(log, now, window, limit), later, window, limit) <==> later == now
            + wait,
{
    broadcast use vstd::multiset::group_multiset_axioms;

    let live = live_moments(log, now, window);
    lemma_part_is_smaller(live, log);
    let oldest = choose|oldest: u64| #[trigger]
        is_earliest(live, oldest) && wait == oldest + window - now;
    assert(live.count(oldest) > 0);
    let still = live_moments(live, later, window);
    if later < now + wait {
        assert forall|t: u64| still.count(t) == live.count(t) by {
            if live.count(t) > 0 {
                assert(live.contains(t));
                assert(oldest <= t);
            }
        }
        assert(still =~= live);
    } else {
        lemma_part_is_smaller(still, live.remove(oldest));
    }
}

/// A request is let through exactly when fewer than `limit` of the recorded moments, counted one by
/// one, are younger than the window.
pub proof fn law_admission_counts_every_request(
    moments: Seq<u64>,
    now: u64,
    window: u64,
    limit: u32,
)
    ensures
        is_admitted(moments.to_multiset(), now, window, limit) <==> moments.filter(
            |moment: u64| moment + window > now,
        ).len() < limit,
{
    lemma_filter_counts(moments, is_live(now, window));
    moments.filter(is_live(now, window)).to_multiset_ensures();
    assert(is_live(now, window) =~= (|moment: u64| moment + window > now));
}

/// What a decision does to the log: moments that are out of the window go, all others stay, and the
/// moment of the request comes in once if it is let through.
pub proof fn law_log_is_exact(log: Multiset<u64>, now: u64, window: u64, limit: u32, moment: u64)
    ensures
        log_after(log, now, window, limit).count(moment) == (if moment + window > now {
            log.count(moment)
        } else {
            0
        }) + (if moment == now && is_admitted(log, now, window, limit) {
            1nat
        } else {
            0nat
        }),
{
    broadcast use vstd::multiset::group_multiset_axioms;

}

/// A refused request waits exactly until the oldest moment that is still in the window leaves it.
pub proof fn law_wait_ends_with_the_oldest(
    log: Multiset<u64>,
    now: u64,
    window: u64,
    limit: u32,
    wait: u64,
    moment: u64,
)
    requires
        !is_admitted(log, now, window, limit),
        is_answer(log, now, window, limit, wait),
        log.count(moment) > 0,
        moment + window > now,
    ensures
        now + wait <= moment + window,
        exists|oldest: u64|
            #[trigger] log.count(oldest) > 0 && oldest + window > now && now + wait == oldest
                + window,
{
    broadcast use vstd::multiset::group_multiset_axioms;

    let live = live_moments(log, now, window);
    assert(live.count(moment) > 0);
    assert(live.contains(moment));
    let oldest = choose|oldest: u64| #[trigger]
        is_earliest(live, oldest) && wait == oldest + window - now;
    assert(live.count(oldest) > 0);
    assert(log.count(oldest) > 0);
}

/// A limiter asks the coordinator for what it was made for: its key, its limit, its window in whole
/// milliseconds, and the moment it is given. One that could not be connected is a configuration error
/// in the words of the failure.
pub proof fn law_limiter_asks_what_it_was_made_for(
    key: String,
    limit: u32,
    window: TimeSpan,
    limiter: RedisLimiter,
    now_ms: u64,
    call: ScriptCall,
    failure: String,
    refused: Result<RedisLimiter, MoonError>,
)
    requires
        call_ensures(
            RedisLimiter::new,
            (Ok::<(), String>(()), key, limit, window),
            Ok::<RedisLimiter, MoonError>(limiter),
        ),
        call_ensures(RedisLimiter::script_call, (&limiter, now_ms), call),
        call_ensures(
            RedisLimiter::new,
            (Err::<(), String>(failure), key, limit, window),
            refused,
        ),
    ensures
        call.key@ == key@,
        call.limit == limit,
        call.now_ms == now_ms,
        window.nanos() / 1_000_000 <= u64::MAX ==> call.window_ms == window.nanos() / 1_000_000,
        window.nanos() / 1_000_000 > u64::MAX ==> call.window_ms == u64::MAX,
        refused == Err::<RedisLimiter, MoonError>(MoonError::Config(failure)),
{
}

/// An answer of 0 lets the request through, any other is the time to wait, and a failure is a network
/// error in the words that were made of it.
pub proof fn law_answers_mean_what_they_say<F: FnOnce(Diagnostic) -> String>(
    limiter: RedisLimiter,
    millis: u64,
    error: String,
    translate: F,
    answered: WaitStep,
    failed: WaitStep,
)
    requires
        call_ensures(RedisLimiter::wait::<F>, (&limiter, Ok::<u64, String>(millis), translate), answered),
        call_ensures(RedisLimiter::wait::<F>, (&limiter, Err::<u64, String>(error), translate), failed),
    ensures
        answered is Proceed <==> millis == 0,
        millis > 0 ==> answered == (WaitStep::Sleep { millis }),
        failed matches WaitStep::Fail(MoonError::Network(text)) && translate.ensures(
            (Diagnostic::RedisLimitError { error },),
            text,
        ),
{
}

/// A request is answered with 0 exactly when fewer than `limit` recorded moments are in the window,
/// and is recorded then; otherwise nothing is recorded.
pub proof fn law_decision_is_exact(
    log: &mut SlidingWindowLog,
    moments: Seq<u64>,
    now: u64,
    window: u64,
    limit: u32,
    wait: u64,
)
    requires
        call_ensures(SlidingWindowLog::decide, (log, now, window, limit), wait),
        old(log)@ == moments.to_multiset(),
        window > 0,
    ensures
        ({
            let live = moments.filter(|moment: u64| moment + window > now);
            &&& wait == 0 <==> live.len() < limit
            &&& final(log)@.len() == if live.len() < limit {
                live.len() + 1
            } else {
                live.len()
            }
        }),
{
    broadcast use vstd::multiset::group_multiset_axioms;

    law_admission_counts_every_request(moments, now, window, limit);
    law_zero_means_admitted(log@, now, window, limit, wait);
    lemma_filter_counts(moments, is_live(now, window));
    moments.filter(is_live(now, window)).to_multiset_ensures();
    assert(is_live(now, window) =~= (|moment: u64| moment + window > now));
}

} // verus!
