use std::time::Duration;

use governor::clock::{Clock, FakeRelativeClock};
use moonclient::client::{
    directory_to_create, retry_route, ActiveLimiter, Gate, MoonClient, MoonClientBuilder,
    RetryRoute, DEFAULT_API_URL, DEFAULT_APP_NAME, DEFAULT_MAX_RESPONSE_SIZE,
};
use moonclient::diagnostics::Diagnostic;
use moonclient::exchange::{DownloadAction, ExchangeAction, ExchangeEvent};
use moonclient::limiter::{Bucket, LimitRule};
use moonclient::response::DEFAULT_BODY_LIMIT;
use moonclient::endpoint::parse_base_url;
use moonclient::{InMemoryLimiter, IntoSegment, RedisLimiter, RequestLimiter, TimeSpan};

#[derive(Debug, PartialEq)]
struct Hook(u8);

/// A limiter that remembers what it was told.
#[derive(Debug, PartialEq)]
struct Recorder {
    rules: Vec<LimitRule>,
    bulks: usize,
}

impl RequestLimiter for Recorder {
    fn set_limit(&mut self, requests: u32, window: TimeSpan) {
        self.rules.push((requests, window));
    }

    fn set_limits_bulk(&mut self, limits: Vec<LimitRule>) {
        self.rules = limits;
        self.bulks += 1;
    }
}

fn buckets(gate: Gate) -> Vec<Bucket> {
    match gate {
        Gate::Buckets(buckets) => buckets,
        Gate::Custom => panic!("a supplied limiter"),
    }
}

fn shape(client: &MoonClient<Hook>) -> Vec<(u32, u64, u64)> {
    buckets(client.wait_for_limits())
        .iter()
        .map(|b| (b.quota.burst, b.quota.interval_nanos, b.window.as_secs()))
        .collect()
}

#[test]
fn it_test_client_rate_limiting_ok() {
    let client = MoonClient::builder(Hook(1))
        .with_base_url("https://jsonplaceholder.typicode.com".to_string())
        .requests_per_second(2)
        .try_build()
        .unwrap();
    let clock = FakeRelativeClock::default();
    let limiters: Vec<_> = buckets(client.wait_for_limits())
        .iter()
        .map(|bucket| {
            governor::RateLimiter::direct_with_clock(
                governor::Quota::with_period(Duration::from_nanos(bucket.quota.interval_nanos))
                    .unwrap()
                    .allow_burst(std::num::NonZeroU32::new(bucket.quota.burst).unwrap()),
                clock.clone(),
            )
        })
        .collect();

    let mut elapsed = Duration::ZERO;
    for _ in 0..3 {
        for limiter in &limiters {
            while let Err(not_until) = limiter.check() {
                let wait = not_until.wait_time_from(clock.now());
                clock.advance(wait);
                elapsed += wait;
            }
        }
    }

    assert!(
        elapsed >= Duration::from_millis(500),
        "Rate limiter throttling should delay execution. Elapsed duration: {:?}",
        elapsed
    );
}

#[test]
fn fresh_builder_has_the_default_settings() {
    let client = MoonClient::builder(Hook(7)).try_build().unwrap();
    assert_eq!(DEFAULT_API_URL, "https://test.api.io");
    assert_eq!(client.base_url(), "https://test.api.io/");
    assert_eq!(client.user_agent(), DEFAULT_APP_NAME);
    assert_eq!(client.user_agent(), "moonclient");
    assert_eq!(client.max_response_size(), DEFAULT_MAX_RESPONSE_SIZE);
    assert_eq!(client.max_response_size(), 16 * 1024 * 1024);
    assert_eq!(DEFAULT_MAX_RESPONSE_SIZE, DEFAULT_BODY_LIMIT);
    assert_eq!(client.max_retries(), 3);
    assert_eq!(client.hook(), &Hook(7));
    assert_eq!(client.request_settings().timeout, Some(TimeSpan::from_secs(60)));
    assert_eq!(
        shape(&client),
        vec![(5, 200_000_000, 1), (90, 666_666_666, 60)]
    );
}

#[test]
fn builder_takes_every_setting() {
    let client = MoonClientBuilder::<Hook, InMemoryLimiter>::new(Hook(1))
        .with_base_url("https://shikimori.one/api///".to_string())
        .with_app_name("MyProductionApp/1.0".to_string())
        .with_max_retries(9)
        .with_timeout(TimeSpan::from_millis(1500))
        .with_max_response_size(1024)
        .clear_limits()
        .add_limit(10, TimeSpan::from_secs(5))
        .requests_per_minute(30)
        .try_build()
        .unwrap();
    assert_eq!(client.base_url(), "https://shikimori.one/api");
    assert_eq!(client.base_text(), "https://shikimori.one/api");
    assert_eq!(client.user_agent(), "MyProductionApp/1.0");
    assert_eq!(client.max_retries(), 9);
    let settings = client.request_settings();
    assert_eq!(settings.user_agent, "MyProductionApp/1.0");
    assert_eq!(settings.timeout, Some(TimeSpan::from_millis(1500)));
    assert_eq!(settings.body_limit, 1024);
    assert_eq!(
        shape(&client),
        vec![(10, 500_000_000, 5), (30, 2_000_000_000, 60)]
    );
}

#[test]
fn infinite_timeout_is_no_timeout() {
    let client = MoonClient::builder(Hook(1))
        .with_infinite_timeout()
        .try_build()
        .unwrap();
    assert_eq!(client.request_settings().timeout, None);
}

#[test]
fn added_rule_replaces_the_one_for_its_window() {
    let client = MoonClient::builder(Hook(1))
        .requests_per_second(2)
        .try_build()
        .unwrap();
    assert_eq!(
        shape(&client),
        vec![(90, 666_666_666, 60), (2, 500_000_000, 1)]
    );
    let client = MoonClient::builder(Hook(1))
        .requests_per_second(2)
        .requests_per_second(4)
        .try_build()
        .unwrap();
    assert_eq!(
        shape(&client),
        vec![(90, 666_666_666, 60), (4, 250_000_000, 1)]
    );
}

#[test]
fn rule_without_requests_or_window_only_removes() {
    let client = MoonClient::builder(Hook(1))
        .requests_per_second(0)
        .add_limit(3, TimeSpan::from_secs(0))
        .try_build()
        .unwrap();
    assert_eq!(shape(&client), vec![(90, 666_666_666, 60)]);
}

#[test]
fn unusable_base_url_is_reported_before_unusable_rules() {
    for base in ["mailto:a@b.c", "data:,x", "nowhere", ""] {
        let refused = MoonClient::builder(Hook(1))
            .with_base_url(base.to_string())
            .add_limit(2, TimeSpan::from_nanos(1))
            .try_build();
        assert!(matches!(refused, Err(Diagnostic::InvalidBaseUrl)));
    }
    let refused = MoonClient::builder(Hook(1))
        .add_limit(2, TimeSpan::from_nanos(1))
        .try_build();
    assert!(matches!(refused, Err(Diagnostic::InvalidPeriod)));
}

#[test]
fn base_url_as_it_stands_makes_a_client() {
    let client = MoonClient::builder(Hook(1))
        .with_base_url("https://site.com/v1/".to_string())
        .build();
    assert_eq!(client.base_url(), "https://site.com/v1");
}

#[test]
fn supplied_limiter_is_preferred() {
    let client = MoonClient::builder(Hook(1))
        .add_limit(2, TimeSpan::from_nanos(1))
        .with_custom_limiter(
            RedisLimiter::new(Ok(()), "limits".to_string(), 5, TimeSpan::from_secs(1)).unwrap(),
        )
        .try_build()
        .unwrap();
    assert!(matches!(client.wait_for_limits(), Gate::Custom));
}

#[test]
fn supplied_limiter_is_told_of_new_rules() {
    let mut client = MoonClient::builder(Hook(1))
        .with_custom_limiter(Recorder {
            rules: Vec::new(),
            bulks: 0,
        })
        .try_build()
        .unwrap();
    client.set_limit(3, TimeSpan::from_millis(250));
    client.set_requests_per_second(8);
    client.set_requests_per_minute(100);
    assert_eq!(
        client.limiter_ref(),
        &Recorder {
            rules: vec![
                (3, TimeSpan::from_millis(250)),
                (8, TimeSpan::from_secs(1)),
                (100, TimeSpan::from_secs(60)),
            ],
            bulks: 0,
        }
    );
    let ignored = client.set_limits_bulk(vec![
        (5, TimeSpan::from_secs(1)),
        (0, TimeSpan::from_secs(2)),
        (7, TimeSpan::from_secs(0)),
    ]);
    assert_eq!(ignored, vec![(0, TimeSpan::from_secs(2)), (7, TimeSpan::from_secs(0))]);
    assert_eq!(
        client.limiter_ref(),
        &Recorder {
            rules: vec![(5, TimeSpan::from_secs(1))],
            bulks: 1,
        }
    );
}

trait LimiterRef {
    fn limiter_ref(&self) -> &Recorder;
}

impl LimiterRef for MoonClient<Hook, Recorder> {
    fn limiter_ref(&self) -> &Recorder {
        match self.limiter() {
            ActiveLimiter::Custom(recorder) => recorder,
            ActiveLimiter::InMemory(_) => panic!("token buckets"),
        }
    }
}

#[test]
fn rules_of_a_client_change_one_at_a_time() {
    let mut client = MoonClient::builder(Hook(1)).try_build().unwrap();
    let before = buckets(client.wait_for_limits());
    client.set_requests_per_second(10);
    let after = buckets(client.wait_for_limits());
    assert_eq!(after[0], before[1]);
    assert_eq!(after[1].quota.burst, 10);
    assert_eq!(after[1].quota.interval_nanos, 100_000_000);
    assert_ne!(after[1].stamp, before[0].stamp);
    client.set_requests_per_minute(0);
    assert_eq!(buckets(client.wait_for_limits()), vec![after[1]]);
}

#[test]
fn rules_of_a_client_change_in_bulk() {
    let mut client = MoonClient::builder(Hook(1)).try_build().unwrap();
    let stamps: Vec<u64> = buckets(client.wait_for_limits())
        .iter()
        .map(|b| b.stamp)
        .collect();
    let ignored = client.set_limits_bulk(vec![
        (0, TimeSpan::from_secs(9)),
        (4, TimeSpan::from_secs(2)),
        (3, TimeSpan::from_secs(0)),
    ]);
    assert_eq!(
        ignored,
        vec![(0, TimeSpan::from_secs(9)), (3, TimeSpan::from_secs(0))]
    );
    assert_eq!(shape(&client), vec![(4, 500_000_000, 2)]);
    assert!(!stamps.contains(&buckets(client.wait_for_limits())[0].stamp));
    assert!(client.set_limits_bulk(Vec::new()).is_empty());
    assert!(shape(&client).is_empty());
}

#[test]
fn settings_change_while_requests_are_under_way() {
    let mut client = MoonClient::builder(Hook(1)).try_build().unwrap();
    client.set_timeout(Some(TimeSpan::from_secs(15)));
    client.set_max_response_size(32 * 1024 * 1024);
    assert_eq!(client.max_response_size(), 32 * 1024 * 1024);

    let (exchange, _) = client.execute(true);
    let (exchange, action) = client.proceed(exchange, ExchangeEvent::Prepared(Ok(())));
    assert!(matches!(
        action,
        ExchangeAction::Wait { user_agent, timeout: Some(timeout) }
            if user_agent == "moonclient" && timeout == TimeSpan::from_secs(15)
    ));
    let (exchange, _) = client.proceed(exchange, ExchangeEvent::Admitted(Ok(())));
    let (exchange, _) = client.proceed(exchange, ExchangeEvent::Answered(Ok(())));
    client.set_max_response_size(10);
    let (_, action) = client.proceed(exchange, ExchangeEvent::Inspected(Ok(200)));
    assert!(matches!(action, ExchangeAction::Extract { body_limit: 10 }));

    client.set_timeout(None);
    let (_, action) = client.download();
    assert!(matches!(
        action,
        DownloadAction::Wait { user_agent, timeout: None } if user_agent == "moonclient"
    ));
}

#[test]
fn only_cloneable_requests_are_retried() {
    assert_eq!(retry_route(true), RetryRoute::Retried);
    assert_eq!(retry_route(false), RetryRoute::PassThrough);
}

#[test]
fn missing_directory_is_to_be_created() {
    assert_eq!(directory_to_create(Some("downloads"), false), Some("downloads"));
    assert_eq!(directory_to_create(Some("downloads"), true), None);
    assert_eq!(directory_to_create(None::<&str>, false), None);
}

#[test]
fn addresses_are_built_on_the_base_of_the_client() {
    let client = MoonClient::builder(Hook(1))
        .with_base_url("HTTPS://Site.com/v1//".to_string())
        .try_build()
        .unwrap();
    let parts = vec!["users".to_segment(), 7_u32.to_segment()];
    let url = client.build_url(&parts, |m| m.key().to_string()).unwrap();
    assert_eq!(client.base_url(), "https://site.com/v1");
    assert_eq!(url, "https://site.com/v1/users/7");
}

#[test]
fn base_that_does_not_parse_twice_takes_segments() {
    let label: String = (0..1000_u32)
        .map(|i| char::from_u32(0x4e00 + 20 * i).unwrap())
        .collect();
    let client = MoonClient::builder(Hook(1))
        .with_base_url(format!("http://{}/", label))
        .try_build()
        .unwrap();
    assert_eq!(parse_base_url(client.base_url()), None);
    let parts = vec!["users".to_segment()];
    let url = client.build_url(&parts, |m| m.key().to_string()).unwrap();
    assert_eq!(url, format!("{}users", client.base_url()));
}

#[test]
fn base_of_another_scheme_takes_segments() {
    let client = MoonClient::builder(Hook(1))
        .with_base_url("ftp://files.site.com/pub".to_string())
        .try_build()
        .unwrap();
    let parts = vec!["a.txt".to_segment()];
    let url = client.build_url(&parts, |m| m.key().to_string()).unwrap();
    assert_eq!(url, "ftp://files.site.com/pub/a.txt");
}
