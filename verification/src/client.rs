//! The client, its builder, and the choice of how a request is retried.

use std::borrow::Cow;
use vstd::prelude::*;

use crate::diagnostics::Diagnostic;
use crate::endpoint::{
    base_url_of, build_url, extended_url, has_room, is_extension, parse_base_url, parsed_url,
};
use crate::error::MoonError;
use crate::exchange::{
    new_exchange, Attempt, Download, DownloadAction, Exchange, ExchangeAction, ExchangeEvent,
    RequestSettings,
};
use crate::limiter::{
    active_rules, buckets_after_limit, fresh_buckets, is_selection, law_active_rules_stay,
    lemma_filter_selects, stamp_after_limit, stamp_after_many, Bucket, InMemoryLimiter, LimitRule, RateLimitStrategy, RequestLimiter,
};
use crate::quota::{can_limit, is_active_rule, quota_exists, quota_of};
use crate::segment::segment_texts;
use crate::text::{law_trimmed_end, trim_end, trimmed_end, trimmed_len};
use crate::time_span::TimeSpan;

verus! {

/// The base URL of a client that is given none.
pub const DEFAULT_API_URL: &'static str = "https://test.api.io";

/// The application name of a client that is given none.
pub const DEFAULT_APP_NAME: &'static str = "moonclient";

/// The most bytes of a successful body that are read, 16 MiB, unless a client is told otherwise.
pub const DEFAULT_MAX_RESPONSE_SIZE: usize = 16_777_216;

/// Where a client's rate limiting comes from.
#[derive(Debug)]
pub enum ActiveLimiter<L> {
    /// Token buckets in this process.
    InMemory(InMemoryLimiter),
    /// A limiter that the caller supplied.
    Custom(L),
}

impl<L: RequestLimiter> ActiveLimiter<L> {
    /// Whether the limiter can put this rule into effect.
    pub open spec fn accepts(self, requests: u32, window: TimeSpan) -> bool {
        match self {
            ActiveLimiter::InMemory(_) => InMemoryLimiter::accepts_rule(requests, window),
            ActiveLimiter::Custom(_) => L::accepts_rule(requests, window),
        }
    }
}

/// What a request waits for before it is sent.
#[derive(Debug)]
pub enum Gate {
    /// One token from each of these buckets, in order.
    Buckets(Vec<Bucket>),
    /// The limiter that the caller supplied.
    Custom,
}

/// The state of a client.
pub struct ClientState<H, L> {
    /// The text that the base URL was parsed from.
    pub base_text: Seq<char>,
    /// The base URL, as it is written out.
    pub base_url: Seq<char>,
    /// The value of the `User-Agent` header.
    pub user_agent: Seq<char>,
    /// How long a request may take, if there is a limit.
    pub timeout: Option<TimeSpan>,
    /// Where rate limiting comes from.
    pub limiter: ActiveLimiter<L>,
    /// The most bytes of a successful body that are read.
    pub max_response_size: usize,
    /// How often a request is retried.
    pub max_retries: u32,
    /// The hook.
    pub hook: H,
}

/// An HTTP client with rate limiting, retries, a timeout, and a hook `H` around every request.
///
/// The limiter is one of token buckets in this process, or one of type `L` that the caller
/// supplied.
#[derive(Debug)]
pub struct MoonClient<H, L = InMemoryLimiter> {
    base_text: String,
    base_url: String,
    user_agent: String,
    timeout: Option<TimeSpan>,
    limiter: ActiveLimiter<L>,
    max_response_size: usize,
    max_retries: u32,
    hook: H,
}

impl<H, L> View for MoonClient<H, L> {
    type V = ClientState<H, L>;

    closed spec fn view(&self) -> ClientState<H, L> {
        ClientState {
            base_text: self.base_text@,
            base_url: self.base_url@,
            user_agent: self.user_agent@,
            timeout: self.timeout,
            limiter: self.limiter,
            max_response_size: self.max_response_size,
            max_retries: self.max_retries,
            hook: self.hook,
        }
    }
}

impl<H> MoonClient<H, InMemoryLimiter> {
    /// Starts building a client with a hook.
    pub fn builder(hook: H) -> (builder: MoonClientBuilder<H, InMemoryLimiter>)
        ensures
            builder@.is_default(hook),
    {
        MoonClientBuilder::new(hook)
    }
}

impl<H, L: RequestLimiter> MoonClient<H, L> {
    /// The base URL, as it is written out.
    pub fn base_url(&self) -> (url: &str)
        ensures
            url@ == self@.base_url,
    {
        self.base_url.as_str()
    }

    /// The text that the base URL was parsed from.
    pub fn base_text(&self) -> (text: &str)
        ensures
            text@ == self@.base_text,
    {
        self.base_text.as_str()
    }

    /// Appends path segments to the base URL, as [`build_url`](crate::endpoint::build_url) does.
    pub fn build_url<F: FnOnce(Diagnostic) -> String>(
        &self,
        segments: &Vec<Cow<'_, str>>,
        translate: F,
    ) -> (endpoint: Result<String, MoonError>)
        requires
            translate.requires((Diagnostic::InvalidMacroBaseUrl,)),
        ensures
            endpoint is Ok <==> (base_url_of(self@.base_text) matches Some(parsed) && has_room(
                parsed,
                segment_texts(segments@),
            )),
            match endpoint {
                Ok(url) => {
                    &&& extended_url(self@.base_text, segment_texts(segments@)) == Some(url@)
                    &&& base_url_of(self@.base_text) matches Some(parsed) && is_extension(
                        parsed,
                        segment_texts(segments@),
                        url@,
                    )
                },
                Err(error) => error matches MoonError::Config(text) && translate.ensures(
                    (Diagnostic::InvalidMacroBaseUrl,),
                    text,
                ),
            },
    {
        build_url(self.base_text.as_str(), segments, translate)
    }

    /// The most bytes of a successful body that are read.
    pub fn max_response_size(&self) -> (bytes: usize)
        ensures
            bytes == self@.max_response_size,
    {
        self.max_response_size
    }

    /// Sets the most bytes of a successful body that are read, for all requests from now on.
    pub fn set_max_response_size(&mut self, bytes: usize)
        ensures
            final(self)@ == (ClientState { max_response_size: bytes, ..old(self)@ }),
    {
        self.max_response_size = bytes;
    }

    /// The hook.
    pub fn hook(&self) -> (hook: &H)
        ensures
            *hook == self@.hook,
    {
        &self.hook
    }

    /// The value of the `User-Agent` header.
    pub fn user_agent(&self) -> (agent: &str)
        ensures
            agent@ == self@.user_agent,
    {
        self.user_agent.as_str()
    }

    /// How often a request is retried after a transient failure.
    pub fn max_retries(&self) -> (retries: u32)
        ensures
            retries == self@.max_retries,
    {
        self.max_retries
    }

    /// Sets how long requests may take from now on. With `None` they may take forever.
    pub fn set_timeout(&mut self, timeout: Option<TimeSpan>)
        ensures
            final(self)@ == (ClientState { timeout, ..old(self)@ }),
    {
        self.timeout = timeout;
    }

    /// What the client adds to a request that is made now.
    pub fn request_settings(&self) -> (settings: RequestSettings)
        ensures
            settings.user_agent@ == self@.user_agent,
            settings.timeout == self@.timeout,
            settings.body_limit == self@.max_response_size,
    {
        RequestSettings {
            user_agent: self.user_agent.clone(),
            timeout: self.timeout,
            body_limit: self.max_response_size,
        }
    }

    /// Where rate limiting comes from.
    pub fn limiter(&self) -> (limiter: &ActiveLimiter<L>)
        ensures
            *limiter == self@.limiter,
    {
        &self.limiter
    }

    /// Puts a rate limiting rule into effect, in place of any other with the same window. A rule
    /// of no requests, or with an empty window, only removes.
    pub fn set_limit(&mut self, requests: u32, window: TimeSpan)
        requires
            old(self)@.limiter.accepts(requests, window),
        ensures
            final(self)@ == (ClientState { limiter: final(self)@.limiter, ..old(self)@ }),
            match (old(self)@.limiter, final(self)@.limiter) {
                (ActiveLimiter::InMemory(before), ActiveLimiter::InMemory(after)) => {
                    &&& after.buckets() == buckets_after_limit(
                        before.buckets(),
                        before.next_stamp(),
                        requests,
                        window,
                    )
                    &&& after.next_stamp() == stamp_after_limit(
                        before.next_stamp(),
                        requests,
                        window,
                    )
                },
                (ActiveLimiter::Custom(before), ActiveLimiter::Custom(after)) => exists|
                    limiter: &mut L,
                |
                    *limiter == before && *final(limiter) == after && #[trigger] call_ensures(
                        L::set_limit,
                        (limiter, requests, window),
                        (),
                    ),
                _ => false,
            },
    {
        match &mut self.limiter {
            ActiveLimiter::InMemory(limiter) => limiter.set_limit(requests, window),
            ActiveLimiter::Custom(limiter) => limiter.set_limit(requests, window),
        }
    }

    /// Limits the requests per second.
    pub fn set_requests_per_second(&mut self, rps: u32)
        requires
            old(self)@.limiter is Custom ==> L::accepts_rule(rps, TimeSpan::whole_secs(1)),
        ensures
            final(self)@ == (ClientState { limiter: final(self)@.limiter, ..old(self)@ }),
            match (old(self)@.limiter, final(self)@.limiter) {
                (ActiveLimiter::InMemory(before), ActiveLimiter::InMemory(after)) => {
                    &&& after.buckets() == buckets_after_limit(
                        before.buckets(),
                        before.next_stamp(),
                        rps,
                        TimeSpan::whole_secs(1),
                    )
                    &&& after.next_stamp() == stamp_after_limit(
                        before.next_stamp(),
                        rps,
                        TimeSpan::whole_secs(1),
                    )
                },
                (ActiveLimiter::Custom(before), ActiveLimiter::Custom(after)) => exists|
                    limiter: &mut L,
                |
                    *limiter == before && *final(limiter) == after && #[trigger] call_ensures(
                        L::set_limit,
                        (limiter, rps, TimeSpan::whole_secs(1)),
                        (),
                    ),
                _ => false,
            },
    {
        self.set_limit(rps, TimeSpan::from_secs(1));
    }

    /// Limits the requests per minute.
    pub fn set_requests_per_minute(&mut self, rpm: u32)
        requires
            old(self)@.limiter is Custom ==> L::accepts_rule(rpm, TimeSpan::whole_secs(60)),
        ensures
            final(self)@ == (ClientState { limiter: final(self)@.limiter, ..old(self)@ }),
            match (old(self)@.limiter, final(self)@.limiter) {
                (ActiveLimiter::InMemory(before), ActiveLimiter::InMemory(after)) => {
                    &&& after.buckets() == buckets_after_limit(
                        before.buckets(),
                        before.next_stamp(),
                        rpm,
                        TimeSpan::whole_secs(60),
                    )
                    &&& after.next_stamp() == stamp_after_limit(
                        before.next_stamp(),
                        rpm,
                        TimeSpan::whole_secs(60),
                    )
                },
                (ActiveLimiter::Custom(before), ActiveLimiter::Custom(after)) => exists|
                    limiter: &mut L,
                |
                    *limiter == before && *final(limiter) == after && #[trigger] call_ensures(
                        L::set_limit,
                        (limiter, rpm, TimeSpan::whole_secs(60)),
                        (),
                    ),
                _ => false,
            },
    {
        self.set_limit(rpm, TimeSpan::from_secs(60));
    }

    /// Puts a whole set of rules into effect, in place of all others. Rules that take no part in rate
    /// limiting, because they allow no requests or have an empty window, are skipped: the limiter is
    /// not told of them, and the result lists them.
    pub fn set_limits_bulk(&mut self, limits: Vec<LimitRule>) -> (ignored: Vec<LimitRule>)
        requires
            forall|i: int|
                0 <= i < limits.len() && is_active_rule((#[trigger] limits[i]).0, limits[i].1)
                    ==> old(self)@.limiter.accepts(limits[i].0, limits[i].1),
        ensures
            ignored@ == limits@.filter(|rule: LimitRule| !is_active_rule(rule.0, rule.1)),
            final(self)@ == (ClientState { limiter: final(self)@.limiter, ..old(self)@ }),
            match (old(self)@.limiter, final(self)@.limiter) {
                (ActiveLimiter::InMemory(before), ActiveLimiter::InMemory(after)) => {
                    &&& after.buckets() == fresh_buckets(
                        active_rules(limits@),
                        before.next_stamp(),
                    )
                    &&& after.next_stamp() == stamp_after_many(
                        before.next_stamp(),
                        active_rules(limits@).len(),
                    )
                },
                (ActiveLimiter::Custom(before), ActiveLimiter::Custom(after)) => exists|
                    limiter: &mut L,
                    handed: Vec<LimitRule>,
                |
                    handed@ == active_rules(limits@) && *limiter == before && *final(limiter)
                        == after && #[trigger] call_ensures(
                        L::set_limits_bulk,
                        (limiter, handed),
                        (),
                    ),
                _ => false,
            },
    {
        let ghost idle = |rule: LimitRule| !is_active_rule(rule.0, rule.1);
        let ghost active = |rule: LimitRule| is_active_rule(rule.0, rule.1);
        let mut ignored: Vec<LimitRule> = Vec::new();
        let mut handed: Vec<LimitRule> = Vec::new();
        for i in 0..limits.len()
            invariant
                idle == (|rule: LimitRule| !is_active_rule(rule.0, rule.1)),
                active == (|rule: LimitRule| is_active_rule(rule.0, rule.1)),
                ignored@ == limits@.take(i as int).filter(idle),
                handed@ == limits@.take(i as int).filter(active),
                forall|k: int|
                    0 <= k < handed.len() ==> limits@.contains(#[trigger] handed@[k])
                        && is_active_rule(handed@[k].0, handed@[k].1),
        {
            let (count, window) = limits[i];
            proof {
                assert(limits@.take(i + 1) =~= limits@.take(i as int).push(limits[i as int]));
                limits@.take(i as int).lemma_filter_push(limits[i as int], idle);
                limits@.take(i as int).lemma_filter_push(limits[i as int], active);
                assert(limits@.contains(limits@[i as int]));
            }
            if count == 0 || window.is_zero() {
                ignored.push((count, window));
            } else {
                handed.push((count, window));
            }
        }
        proof {
            assert(limits@.take(limits.len() as int) =~= limits@);
            law_active_rules_stay(limits@);
            assert forall|k: int| 0 <= k < handed.len() implies self@.limiter.accepts(
                (#[trigger] handed@[k]).0,
                handed@[k].1,
            ) by {
                let i = choose|i: int| 0 <= i < limits.len() && limits@[i] == handed@[k];
                assert(is_active_rule(limits[i].0, limits[i].1));
            }
        }
        match &mut self.limiter {
            ActiveLimiter::InMemory(limiter) => limiter.set_limits_bulk(handed),
            ActiveLimiter::Custom(limiter) => limiter.set_limits_bulk(handed),
        }
        ignored
    }

    /// What a request that is made now has to wait for.
    pub fn wait_for_limits(&self) -> (gate: Gate)
        ensures
            match (self@.limiter, gate) {
                (ActiveLimiter::InMemory(limiter), Gate::Buckets(buckets)) => buckets@
                    == limiter.buckets(),
                (ActiveLimiter::Custom(_), Gate::Custom) => true,
                _ => false,
            },
    {
        match &self.limiter {
            ActiveLimiter::InMemory(limiter) => Gate::Buckets(limiter.wait()),
            ActiveLimiter::Custom(_) => Gate::Custom,
        }
    }

    /// Starts a request. `replayable` says whether a copy of it could be put aside.
    pub fn execute(&self, replayable: bool) -> (started: (Exchange, ExchangeAction))
        ensures
            started.0 == new_exchange(replayable),
            started.1 == ExchangeAction::Prepare(Attempt::First),
    {
        Exchange::begin(replayable)
    }

    /// Goes on with a request after an event. The settings are those of the client at the time.
    pub fn proceed(&self, exchange: Exchange, event: ExchangeEvent) -> (next: (
        Exchange,
        ExchangeAction,
    ))
        requires
            exchange.awaits(event),
        ensures
            next.0 == exchange.after(event),
            exists|settings: RequestSettings|
                settings.user_agent@ == self@.user_agent && settings.timeout == self@.timeout
                    && settings.body_limit == self@.max_response_size
                    && #[trigger] exchange.is_next(event, settings, next.1),
    {
        exchange.step(event, &self.request_settings())
    }

    /// Starts a request for binary content.
    pub fn download(&self) -> (started: (Download, DownloadAction))
        ensures
            started.0 == Download::Waiting,
            started.1 matches DownloadAction::Wait { user_agent, timeout } && user_agent@
                == self@.user_agent && timeout == self@.timeout,
    {
        Download::begin(&self.request_settings())
    }
}

/// What a builder was told.
pub struct ClientSettings<H, L> {
    /// The base URL as it was given.
    pub base_url: Seq<char>,
    /// The value of the `User-Agent` header.
    pub user_agent: Seq<char>,
    /// The rate limiting rules.
    pub limits: Seq<LimitRule>,
    /// How often a request is retried.
    pub max_retries: u32,
    /// How long a request may take, if there is a limit.
    pub timeout: Option<TimeSpan>,
    /// A limiter to use in place of the rules.
    pub custom_limiter: Option<L>,
    /// The most bytes of a successful body that are read.
    pub max_response_size: usize,
    /// The hook.
    pub hook: H,
}

/// Picks the rules for windows other than this one.
pub open spec fn has_other_window(window: TimeSpan) -> spec_fn(LimitRule) -> bool {
    |rule: LimitRule| rule.1 != window
}

/// The rules of a list for other windows, in order.
pub open spec fn other_rules(limits: Seq<LimitRule>, window: TimeSpan) -> Seq<LimitRule> {
    limits.filter(has_other_window(window))
}

/// The rules of a list once one is added: those for other windows, in order, and last the new one
/// if it takes part in rate limiting.
pub open spec fn limits_after(
    limits: Seq<LimitRule>,
    requests: u32,
    window: TimeSpan,
) -> Seq<LimitRule> {
    if is_active_rule(requests, window) {
        other_rules(limits, window).push((requests, window))
    } else {
        other_rules(limits, window)
    }
}

/// A list of rules that all take part in rate limiting, with at most one for each window.
pub open spec fn limits_are_sound(limits: Seq<LimitRule>) -> bool {
    &&& forall|i: int|
        0 <= i < limits.len() ==> is_active_rule((#[trigger] limits[i]).0, limits[i].1)
    &&& forall|i: int, j: int|
        0 <= i < j < limits.len() ==> (#[trigger] limits[i]).1 != (#[trigger] limits[j]).1
}

impl<H, L> ClientSettings<H, L> {
    /// The settings of a fresh builder: 5 requests per second and 90 per minute, three retries,
    /// and 60 seconds for a request.
    pub open spec fn is_default(self, hook: H) -> bool {
        &&& self.base_url == DEFAULT_API_URL@
        &&& self.user_agent == DEFAULT_APP_NAME@
        &&& self.limits == seq![(5u32, TimeSpan::whole_secs(1)), (90u32, TimeSpan::whole_secs(60))]
        &&& self.max_retries == 3
        &&& self.timeout == Some(TimeSpan::whole_secs(60))
        &&& self.custom_limiter is None
        &&& self.max_response_size == DEFAULT_MAX_RESPONSE_SIZE
        &&& self.hook == hook
    }

    /// Whether the base URL, without its trailing slashes, can be the base of endpoint addresses.
    pub open spec fn has_base_url(self) -> bool {
        base_url_of(trimmed_end(self.base_url, '/')) is Some
    }

    /// Whether each rule can have a token bucket, if token buckets are what is used.
    pub open spec fn has_quotas(self) -> bool {
        self.custom_limiter is None ==> forall|i: int|
            0 <= i < self.limits.len() ==> quota_exists((#[trigger] self.limits[i]).0, self.limits[i].1)
    }

    /// The client has the state that these settings ask for.
    pub open spec fn is_built_as(self, client: ClientState<H, L>) -> bool {
        &&& client.base_text == trimmed_end(self.base_url, '/')
        &&& base_url_of(client.base_text) == Some(client.base_url)
        &&& client.user_agent == self.user_agent
        &&& client.timeout == self.timeout
        &&& client.max_response_size == self.max_response_size
        &&& client.max_retries == self.max_retries
        &&& client.hook == self.hook
        &&& match self.custom_limiter {
            Some(limiter) => client.limiter == ActiveLimiter::Custom(limiter),
            None => client.limiter matches ActiveLimiter::InMemory(limiter) && limiter.buckets()
                == fresh_buckets(self.limits, 0) && limiter.next_stamp() == stamp_after_many(
                0,
                self.limits.len(),
            ),
        }
    }
}

/// Builds a [`MoonClient`].
#[derive(Debug)]
pub struct MoonClientBuilder<H, L = InMemoryLimiter> {
    base_url: String,
    user_agent: String,
    limits: Vec<LimitRule>,
    max_retries: u32,
    timeout: Option<TimeSpan>,
    custom_limiter: Option<L>,
    max_response_size: usize,
    hook: H,
}

impl<H, L> View for MoonClientBuilder<H, L> {
    type V = ClientSettings<H, L>;

    closed spec fn view(&self) -> ClientSettings<H, L> {
        ClientSettings {
            base_url: self.base_url@,
            user_agent: self.user_agent@,
            limits: self.limits@,
            max_retries: self.max_retries,
            timeout: self.timeout,
            custom_limiter: self.custom_limiter,
            max_response_size: self.max_response_size,
            hook: self.hook,
        }
    }
}

impl<H, L> MoonClientBuilder<H, L> {
    #[verifier::type_invariant]
    spec fn limits_hold(self) -> bool {
        limits_are_sound(self.limits@)
    }

    /// A builder with default settings.
    pub fn new(hook: H) -> (builder: MoonClientBuilder<H, L>)
        ensures
            builder@.is_default(hook),
            limits_are_sound(builder@.limits),
    {
        let mut limits: Vec<LimitRule> = Vec::new();
        limits.push((5, TimeSpan::from_secs(1)));
        limits.push((90, TimeSpan::from_secs(60)));
        assert(limits@ =~= seq![(5u32, TimeSpan::whole_secs(1)), (90u32, TimeSpan::whole_secs(60))]);
        MoonClientBuilder {
            base_url: DEFAULT_API_URL.to_owned(),
            user_agent: DEFAULT_APP_NAME.to_owned(),
            limits,
            max_retries: 3,
            timeout: Some(TimeSpan::from_secs(60)),
            custom_limiter: None,
            max_response_size: DEFAULT_MAX_RESPONSE_SIZE,
            hook,
        }
    }

    /// Sets the base URL. Its trailing slashes make no difference.
    pub fn with_base_url(self, base_url: String) -> (builder: MoonClientBuilder<H, L>)
        ensures
            builder@ == (ClientSettings { base_url: base_url@, ..self@ }),
    {
        proof {
            use_type_invariant(&self);
        }
        MoonClientBuilder { base_url, ..self }
    }

    /// Sets the application name, which becomes the `User-Agent` header.
    pub fn with_app_name(self, app_name: String) -> (builder: MoonClientBuilder<H, L>)
        ensures
            builder@ == (ClientSettings { user_agent: app_name@, ..self@ }),
    {
        proof {
            use_type_invariant(&self);
        }
        MoonClientBuilder { user_agent: app_name, ..self }
    }

    /// Sets how often a request is retried after a transient failure.
    pub fn with_max_retries(self, retries: u32) -> (builder: MoonClientBuilder<H, L>)
        ensures
            builder@ == (ClientSettings { max_retries: retries, ..self@ }),
    {
        proof {
            use_type_invariant(&self);
        }
        MoonClientBuilder { max_retries: retries, ..self }
    }

    /// Sets how long a request may take.
    pub fn with_timeout(self, timeout: TimeSpan) -> (builder: MoonClientBuilder<H, L>)
        ensures
            builder@ == (ClientSettings { timeout: Some(timeout), ..self@ }),
    {
        proof {
            use_type_invariant(&self);
        }
        MoonClientBuilder { timeout: Some(timeout), ..self }
    }

    /// Lets requests take forever.
    pub fn with_infinite_timeout(self) -> (builder: MoonClientBuilder<H, L>)
        ensures
            builder@ == (ClientSettings { timeout: None, ..self@ }),
    {
        proof {
            use_type_invariant(&self);
        }
        MoonClientBuilder { timeout: None, ..self }
    }

    /// Drops all rate limiting rules.
    pub fn clear_limits(self) -> (builder: MoonClientBuilder<H, L>)
        ensures
            builder@ == (ClientSettings { limits: Seq::<LimitRule>::empty(), ..self@ }),
    {
        MoonClientBuilder { limits: Vec::new(), ..self }
    }

    /// Adds a rate limiting rule, in place of any other with the same window. A rule of no
    /// requests, or with an empty window, only removes.
    pub fn add_limit(self, requests: u32, window: TimeSpan) -> (builder: MoonClientBuilder<H, L>)
        ensures
            builder@ == (ClientSettings {
                limits: limits_after(self@.limits, requests, window),
                ..self@
            }),
    {
        let ghost differs = has_other_window(window);
        let mut limits: Vec<LimitRule> = Vec::new();
        for i in 0..self.limits.len()
            invariant
                differs == has_other_window(window),
                limits@ == self.limits@.take(i as int).filter(differs),
        {
            let rule = self.limits[i];
            proof {
                assert(self.limits@.take(i + 1) =~= self.limits@.take(i as int).push(rule));
                self.limits@.take(i as int).lemma_filter_push(rule, differs);
            }
            if rule.1 != window {
                limits.push(rule);
            }
        }
        assert(self.limits@.take(self.limits.len() as int) =~= self.limits@);
        if requests > 0 && !window.is_zero() {
            limits.push((requests, window));
        }
        proof {
            assert(limits@ =~= limits_after(self@.limits, requests, window));
            use_type_invariant(&self);
            law_added_limits_are_sound(self.limits@, requests, window);
        }
        MoonClientBuilder { limits, ..self }
    }

    /// Limits the requests per second.
    pub fn requests_per_second(self, rps: u32) -> (builder: MoonClientBuilder<H, L>)
        ensures
            builder@ == (ClientSettings {
                limits: limits_after(self@.limits, rps, TimeSpan::whole_secs(1)),
                ..self@
            }),
    {
        self.add_limit(rps, TimeSpan::from_secs(1))
    }

    /// Limits the requests per minute.
    pub fn requests_per_minute(self, rpm: u32) -> (builder: MoonClientBuilder<H, L>)
        ensures
            builder@ == (ClientSettings {
                limits: limits_after(self@.limits, rpm, TimeSpan::whole_secs(60)),
                ..self@
            }),
    {
        self.add_limit(rpm, TimeSpan::from_secs(60))
    }

    /// Supplies a limiter. The client uses it in place of token buckets of its own, whatever the
    /// rules are.
    pub fn with_custom_limiter<M: RequestLimiter>(self, limiter: M) -> (builder: MoonClientBuilder<
        H,
        M,
    >)
        ensures
            builder@ == (ClientSettings {
                base_url: self@.base_url,
                user_agent: self@.user_agent,
                limits: self@.limits,
                max_retries: self@.max_retries,
                timeout: self@.timeout,
                custom_limiter: Some(limiter),
                max_response_size: self@.max_response_size,
                hook: self@.hook,
            }),
    {
        proof {
            use_type_invariant(&self);
        }
        MoonClientBuilder {
            base_url: self.base_url,
            user_agent: self.user_agent,
            limits: self.limits,
            max_retries: self.max_retries,
            timeout: self.timeout,
            custom_limiter: Some(limiter),
            max_response_size: self.max_response_size,
            hook: self.hook,
        }
    }

    /// Sets the most bytes of a successful body that are read.
    pub fn with_max_response_size(self, bytes: usize) -> (builder: MoonClientBuilder<H, L>)
        ensures
            builder@ == (ClientSettings { max_response_size: bytes, ..self@ }),
    {
        proof {
            use_type_invariant(&self);
        }
        MoonClientBuilder { max_response_size: bytes, ..self }
    }
}

impl<H, L: RequestLimiter> MoonClientBuilder<H, L> {
    /// Whether every rule can have a token bucket.
    fn can_limit_all(&self) -> (possible: bool)
        ensures
            possible <==> forall|i: int|
                0 <= i < self@.limits.len() ==> quota_exists(
                    (#[trigger] self@.limits[i]).0,
                    self@.limits[i].1,
                ),
    {
        for i in 0..self.limits.len()
            invariant
                forall|k: int|
                    0 <= k < i ==> quota_exists((#[trigger] self@.limits[k]).0, self@.limits[k].1),
        {
            if !can_limit(self.limits[i].0, self.limits[i].1) {
                assert(!quota_exists(self@.limits[i as int].0, self@.limits[i as int].1));
                return false;
            }
        }
        true
    }

    /// Builds the client. A supplied limiter is used if there is one, token buckets for the rules
    /// otherwise.
    pub fn build(self) -> (client: MoonClient<H, L>)
        requires
            self@.has_base_url(),
            self@.has_quotas(),
        ensures
            self@.is_built_as(client@),
            limits_are_sound(self@.limits),
    {
        let base_text = trim_end(self.base_url.as_str(), '/');
        let base_url = parse_base_url(base_text.as_str()).unwrap();
        proof {
            use_type_invariant(&self);
            assert(self@.limits == self.limits@);
        }
        let limiter = match self.custom_limiter {
            Some(custom) => ActiveLimiter::Custom(custom),
            None => ActiveLimiter::InMemory(
                InMemoryLimiter::new(RateLimitStrategy::from_rules(&self.limits)),
            ),
        };
        MoonClient {
            base_text,
            base_url,
            user_agent: self.user_agent,
            timeout: self.timeout,
            limiter,
            max_response_size: self.max_response_size,
            max_retries: self.max_retries,
            hook: self.hook,
        }
    }

    /// Builds the client if its settings make one, and says what is wrong with them otherwise. The
    /// base URL is looked at first.
    pub fn try_build(self) -> (client: Result<MoonClient<H, L>, Diagnostic>)
        ensures
            client is Ok <==> self@.has_base_url() && self@.has_quotas(),
            match client {
                Ok(client) => self@.is_built_as(client@),
                Err(reason) => reason == if self@.has_base_url() {
                    Diagnostic::InvalidPeriod
                } else {
                    Diagnostic::InvalidBaseUrl
                },
            },
    {
        if parse_base_url(trim_end(self.base_url.as_str(), '/').as_str()).is_none() {
            return Err(Diagnostic::InvalidBaseUrl);
        }
        if self.custom_limiter.is_none() && !self.can_limit_all() {
            return Err(Diagnostic::InvalidPeriod);
        }
        Ok(self.build())
    }
}

/// How a request goes out.
#[derive(Clone, Copy, Debug, PartialEq, Eq, Structural)]
pub enum RetryRoute {
    /// Once, as it is.
    PassThrough,
    /// With retries after transient failures.
    Retried,
}

/// Chooses how a request goes out. One that cannot be cloned, such as an upload that streams its
/// body, cannot be sent again: it goes out once instead of failing.
pub fn retry_route(cloneable: bool) -> (route: RetryRoute)
    ensures
        route == if cloneable {
            RetryRoute::Retried
        } else {
            RetryRoute::PassThrough
        },
{
    if cloneable {
        RetryRoute::Retried
    } else {
        RetryRoute::PassThrough
    }
}

/// The directory to create before a file is written: the one that is to hold the file, if the path
/// names one and it is not there yet.
pub fn directory_to_create<P>(parent: Option<P>, is_there: bool) -> (directory: Option<P>)
    ensures
        directory == if is_there {
            None
        } else {
            parent
        },
{
    if is_there {
        None
    } else {
        parent
    }
}

proof fn lemma_other_rules(limits: Seq<LimitRule>, window: TimeSpan)
    requires
        limits_are_sound(limits),
    ensures
        limits_are_sound(other_rules(limits, window)),
        forall|i: int|
            0 <= i < other_rules(limits, window).len() ==> (#[trigger] other_rules(
                limits,
                window,
            )[i]).1 != window && limits.contains(other_rules(limits, window)[i]),
        other_rules(other_rules(limits, window), window) == other_rules(limits, window),
    decreases limits.len(),
{
    reveal(Seq::filter);
    let differs = has_other_window(window);
    if limits.len() > 0 {
        let shorter = limits.drop_last();
        assert forall|i: int, j: int| 0 <= i < j < shorter.len() implies (#[trigger] shorter[i]).1
            != (#[trigger] shorter[j]).1 by {
            assert(limits[i].1 != limits[j].1);
        }
        assert forall|i: int| 0 <= i < shorter.len() implies is_active_rule(
            (#[trigger] shorter[i]).0,
            shorter[i].1,
        ) by {
            assert(is_active_rule(limits[i].0, limits[i].1));
        }
        lemma_other_rules(shorter, window);
        let kept = other_rules(limits, window);
        let fewer = other_rules(shorter, window);
        assert forall|i: int| 0 <= i < kept.len() implies (#[trigger] kept[i]).1 != window
            && limits.contains(kept[i]) by {
            if i < fewer.len() {
                assert(shorter.contains(fewer[i]));
                let k = choose|k: int| 0 <= k < shorter.len() && shorter[k] == fewer[i];
                assert(limits[k] == kept[i]);
            } else {
                assert(limits[limits.len() - 1] == kept[i]);
            }
        }
        assert forall|i: int, j: int| 0 <= i < j < kept.len() implies (#[trigger] kept[i]).1 != (
        #[trigger] kept[j]).1 by {
            if j == fewer.len() {
                assert(shorter.contains(fewer[i]));
                let k = choose|k: int| 0 <= k < shorter.len() && shorter[k] == fewer[i];
                assert(limits[k].1 != limits[limits.len() - 1].1);
            } else {
                assert(fewer[i].1 != fewer[j].1);
            }
        }
        assert forall|i: int| 0 <= i < kept.len() implies is_active_rule(
            (#[trigger] kept[i]).0,
            kept[i].1,
        ) by {
            assert(limits.contains(kept[i]));
            let k = choose|k: int| 0 <= k < limits.len() && limits[k] == kept[i];
            assert(is_active_rule(limits[k].0, limits[k].1));
        }
        if differs(limits.last()) {
            fewer.lemma_filter_push(limits.last(), differs);
        }
    }
}

/// Adding a rule keeps a list of rules sound: every rule in it takes part in rate limiting, and no
/// two share a window.
pub proof fn law_added_limits_are_sound(limits: Seq<LimitRule>, requests: u32, window: TimeSpan)
    requires
        limits_are_sound(limits),
    ensures
        limits_are_sound(limits_after(limits, requests, window)),
{
    lemma_other_rules(limits, window);
    let kept = other_rules(limits, window);
    let after = limits_after(limits, requests, window);
    assert forall|i: int, j: int| 0 <= i < j < after.len() implies (#[trigger] after[i]).1 != (
    #[trigger] after[j]).1 by {
        if j < kept.len() {
            assert(kept[i].1 != kept[j].1);
        } else {
            assert(kept[i].1 != window);
        }
    }
    assert forall|i: int| 0 <= i < after.len() implies is_active_rule(
        (#[trigger] after[i]).0,
        after[i].1,
    ) by {
        if i < kept.len() {
            assert(is_active_rule(kept[i].0, kept[i].1));
        }
    }
}

/// The last of two rules for the same window counts: the first leaves no trace.
pub proof fn law_last_added_limit_counts(
    limits: Seq<LimitRule>,
    first: u32,
    second: u32,
    window: TimeSpan,
)
    requires
        limits_are_sound(limits),
    ensures
        limits_after(limits_after(limits, first, window), second, window) == limits_after(
            limits,
            second,
            window,
        ),
{
    lemma_other_rules(limits, window);
    if is_active_rule(first, window) {
        other_rules(limits, window).lemma_filter_push(
            (first, window),
            has_other_window(window),
        );
    }
}

/// Slashes at the end of a base URL make no difference to the client.
pub proof fn law_trailing_slashes_are_stripped<H, L>(
    settings: ClientSettings<H, L>,
    client: ClientState<H, L>,
)
    ensures
        ({
            let slashed = ClientSettings { base_url: settings.base_url.push('/'), ..settings };
            &&& slashed.has_base_url() == settings.has_base_url()
            &&& slashed.is_built_as(client) == settings.is_built_as(client)
        }),
{
    let slashed = settings.base_url.push('/');
    assert(slashed.drop_last() =~= settings.base_url);
    law_trimmed_end(settings.base_url, '/');
    assert(trimmed_len(slashed, '/') == trimmed_len(settings.base_url, '/'));
    assert(trimmed_end(slashed, '/') =~= trimmed_end(settings.base_url, '/'));
}

/// Endpoint addresses can always be built on the base of a client, as far as a URL can count: the text
/// that the client keeps is that of its base URL.
pub proof fn law_built_base_takes_segments<H, L>(
    settings: ClientSettings<H, L>,
    client: ClientState<H, L>,
    segments: Seq<Seq<char>>,
)
    requires
        settings.is_built_as(client),
        has_room(client.base_url, segments),
    ensures
        base_url_of(client.base_text) matches Some(parsed) && has_room(parsed, segments),
{
}

/// Rate limiting of a freshly built client follows the rules of its builder one by one: bucket `i`
/// has the window and the count of rule `i`.
pub proof fn law_built_buckets_follow_rules<H, L>(
    settings: ClientSettings<H, L>,
    client: ClientState<H, L>,
    i: int,
)
    requires
        settings.is_built_as(client),
        settings.custom_limiter is None,
        0 <= i < settings.limits.len(),
    ensures
        client.limiter matches ActiveLimiter::InMemory(limiter) && {
            &&& limiter.buckets().len() == settings.limits.len()
            &&& limiter.buckets()[i].window == settings.limits[i].1
            &&& limiter.buckets()[i].quota == quota_of(settings.limits[i].0, settings.limits[i].1)
        },
{
}

/// What adding a rule does to a list: the rules for other windows, every one of them and no other,
/// stay as they are and in their order. If the new one allows a request and its window has a length,
/// it comes last.
pub proof fn law_added_limit_is_exact(
    limits: Seq<LimitRule>,
    requests: u32,
    window: TimeSpan,
) -> (positions: Seq<int>)
    ensures
        ({
            let after = limits_after(limits, requests, window);
            let active = requests > 0 && window.secs() + window.subsec_nanos() > 0;
            let kept = if active {
                after.drop_last()
            } else {
                after
            };
            &&& active ==> after.len() > 0 && after.last() == (requests, window)
            &&& is_selection(limits, kept, positions)
            &&& forall|j: int|
                #[trigger] positions.contains(j) <==> 0 <= j < limits.len() && limits[j].1 != window
        }),
{
    let positions = lemma_filter_selects(limits, has_other_window(window));
    let after = limits_after(limits, requests, window);
    if is_active_rule(requests, window) {
        assert(after.drop_last() =~= other_rules(limits, window));
    }
    positions
}

/// In a sound list every rule allows a request and has a window with a length, and no two rules have
/// the same window. Every such list is sound.
pub proof fn law_what_makes_limits_sound(limits: Seq<LimitRule>)
    ensures
        limits_are_sound(limits) <==> {
            &&& forall|i: int|
                0 <= i < limits.len() ==> (#[trigger] limits[i]).0 > 0 && limits[i].1.secs()
                    + limits[i].1.subsec_nanos() > 0
            &&& forall|i: int, j: int|
                0 <= i < limits.len() && 0 <= j < limits.len() && i != j ==> (#[trigger] limits[i]).1
                    != (#[trigger] limits[j]).1
        },
{
    if limits_are_sound(limits) {
        assert forall|i: int, j: int|
            0 <= i < limits.len() && 0 <= j < limits.len() && i != j implies (#[trigger] limits[i]).1
            != (#[trigger] limits[j]).1 by {
            if i < j {
                assert(limits[i].1 != limits[j].1);
            } else {
                assert(limits[j].1 != limits[i].1);
            }
        }
    }
}

/// A fresh builder is set to `https://test.api.io`, the name `moonclient`, 5 requests per second and
/// 90 per minute, three retries, 60 seconds and 16 MiB.
pub proof fn law_defaults<H, L>(settings: ClientSettings<H, L>, hook: H)
    requires
        settings.is_default(hook),
    ensures
        settings.base_url == "https://test.api.io"@,
        settings.user_agent == "moonclient"@,
        settings.limits.len() == 2,
        settings.limits[0].0 == 5,
        settings.limits[0].1.secs() == 1,
        settings.limits[0].1.subsec_nanos() == 0,
        settings.limits[1].0 == 90,
        settings.limits[1].1.secs() == 60,
        settings.limits[1].1.subsec_nanos() == 0,
        settings.max_retries == 3,
        settings.timeout matches Some(timeout) && timeout.secs() == 60 && timeout.subsec_nanos()
            == 0,
        settings.custom_limiter is None,
        settings.max_response_size == 16 * 1024 * 1024,
        settings.hook == hook,
{
    TimeSpan::law_whole_secs(1);
    TimeSpan::law_whole_secs(60);
}

/// A client has the settings of its builder, each unchanged. Its base is the given text without the
/// slashes at its end, and nothing else is dropped from it.
pub proof fn law_client_keeps_the_settings<H, L>(
    settings: ClientSettings<H, L>,
    client: ClientState<H, L>,
)
    requires
        settings.is_built_as(client),
    ensures
        client.user_agent == settings.user_agent,
        client.timeout == settings.timeout,
        client.max_response_size == settings.max_response_size,
        client.max_retries == settings.max_retries,
        client.hook == settings.hook,
        client.base_text.is_prefix_of(settings.base_url),
        client.base_text.len() > 0 ==> client.base_text.last() != '/',
        forall|i: int|
            client.base_text.len() <= i < settings.base_url.len() ==> settings.base_url[i] == '/',
        parsed_url(client.base_text) == Some(client.base_url),
        settings.custom_limiter matches Some(limiter) ==> client.limiter == ActiveLimiter::Custom(
            limiter,
        ),
        settings.custom_limiter is None ==> (client.limiter matches ActiveLimiter::InMemory(limiter)
            && limiter.buckets().len() == settings.limits.len()),
{
    law_trimmed_end(settings.base_url, '/');
}

/// Settings make a client exactly when the base, without the slashes at its end, parses to a URL that
/// can have a path, and every rule can have a bucket or a limiter is supplied.
pub proof fn law_which_settings_make_a_client<H, L>(settings: ClientSettings<H, L>, base: Seq<char>)
    requires
        base.is_prefix_of(settings.base_url),
        base.len() > 0 ==> base.last() != '/',
        forall|i: int| base.len() <= i < settings.base_url.len() ==> settings.base_url[i] == '/',
    ensures
        settings.has_base_url() <==> base_url_of(base) is Some,
        settings.has_quotas() <==> settings.custom_limiter is Some || forall|i: int|
            0 <= i < settings.limits.len() ==> quota_exists(
                (#[trigger] settings.limits[i]).0,
                settings.limits[i].1,
            ),
{
    let trimmed = trimmed_end(settings.base_url, '/');
    law_trimmed_end(settings.base_url, '/');
    if base.len() < trimmed.len() {
        assert(trimmed.last() == settings.base_url[trimmed.len() - 1]);
    }
    if trimmed.len() < base.len() {
        assert(base.last() == settings.base_url[base.len() - 1]);
    }
    assert(base =~= trimmed);
}

/// A request goes out with retries exactly if it can be cloned.
pub proof fn law_only_cloneable_requests_are_retried(cloneable: bool, route: RetryRoute)
    requires
        call_ensures(retry_route, (cloneable,), route),
    ensures
        route == RetryRoute::Retried <==> cloneable,
{
}

/// A directory is created exactly if a path names one that is not there, and it is that one.
pub proof fn law_missing_directories_are_created<P>(
    parent: Option<P>,
    is_there: bool,
    directory: Option<P>,
)
    requires
        call_ensures(directory_to_create::<P>, (parent, is_there), directory),
    ensures
        directory is Some <==> parent is Some && !is_there,
        directory is Some ==> directory == parent,
{
}

/// What a builder is told reaches every request of the client it makes.
pub proof fn law_settings_reach_every_request<H, L: RequestLimiter>(
    builder: MoonClientBuilder<H, L>,
    client: MoonClient<H, L>,
    settings: RequestSettings,
    agent: &str,
    retries: u32,
    size: usize,
)
    requires
        call_ensures(
            MoonClientBuilder::<H, L>::try_build,
            (builder,),
            Ok::<MoonClient<H, L>, Diagnostic>(client),
        ),
        call_ensures(MoonClient::<H, L>::request_settings, (&client,), settings),
        call_ensures(MoonClient::<H, L>::user_agent, (&client,), agent),
        call_ensures(MoonClient::<H, L>::max_retries, (&client,), retries),
        call_ensures(MoonClient::<H, L>::max_response_size, (&client,), size),
    ensures
        settings.user_agent@ == builder@.user_agent,
        settings.timeout == builder@.timeout,
        settings.body_limit == builder@.max_response_size,
        agent@ == builder@.user_agent,
        retries == builder@.max_retries,
        size == builder@.max_response_size,
{
}

/// Each setter of a builder sets what it is named after to what it is given, and leaves the rest.
pub proof fn law_setters_set_one_thing<H, L>(
    builder: MoonClientBuilder<H, L>,
    text: String,
    number: u32,
    span: TimeSpan,
    size: usize,
    based: MoonClientBuilder<H, L>,
    named: MoonClientBuilder<H, L>,
    retried: MoonClientBuilder<H, L>,
    timed: MoonClientBuilder<H, L>,
    untimed: MoonClientBuilder<H, L>,
    cleared: MoonClientBuilder<H, L>,
    sized: MoonClientBuilder<H, L>,
)
    requires
        call_ensures(MoonClientBuilder::<H, L>::with_base_url, (builder, text), based),
        call_ensures(MoonClientBuilder::<H, L>::with_app_name, (builder, text), named),
        call_ensures(MoonClientBuilder::<H, L>::with_max_retries, (builder, number), retried),
        call_ensures(MoonClientBuilder::<H, L>::with_timeout, (builder, span), timed),
        call_ensures(MoonClientBuilder::<H, L>::with_infinite_timeout, (builder,), untimed),
        call_ensures(MoonClientBuilder::<H, L>::clear_limits, (builder,), cleared),
        call_ensures(MoonClientBuilder::<H, L>::with_max_response_size, (builder, size), sized),
    ensures
        based@.base_url == text@ && based@.user_agent == builder@.user_agent,
        named@.user_agent == text@ && named@.base_url == builder@.base_url,
        retried@.max_retries == number && retried@.timeout == builder@.timeout,
        timed@.timeout == Some(span) && timed@.max_retries == builder@.max_retries,
        untimed@.timeout is None && untimed@.limits == builder@.limits,
        cleared@.limits.len() == 0 && cleared@.timeout == builder@.timeout,
        sized@.max_response_size == size && sized@.limits == builder@.limits,
{
}

/// What a running client is set to holds for every request from then on, and nothing else changes.
pub proof fn law_settings_change_on_the_fly<H, L: RequestLimiter>(
    timed: &mut MoonClient<H, L>,
    sized: &mut MoonClient<H, L>,
    timeout: Option<TimeSpan>,
    bytes: usize,
    after_timed: RequestSettings,
    after_sized: RequestSettings,
)
    requires
        call_ensures(MoonClient::<H, L>::set_timeout, (timed, timeout), ()),
        call_ensures(MoonClient::<H, L>::request_settings, (final(timed),), after_timed),
        call_ensures(MoonClient::<H, L>::set_max_response_size, (sized, bytes), ()),
        call_ensures(MoonClient::<H, L>::request_settings, (final(sized),), after_sized),
    ensures
        after_timed.timeout == timeout,
        after_timed.user_agent@ == old(timed)@.user_agent,
        after_timed.body_limit == old(timed)@.max_response_size,
        after_sized.body_limit == bytes,
        after_sized.timeout == old(sized)@.timeout,
        after_sized.user_agent@ == old(sized)@.user_agent,
        final(timed)@.limiter == old(timed)@.limiter,
        final(sized)@.limiter == old(sized)@.limiter,
{
}

} // verus!
