use moonclient::error::SendFailure;
use moonclient::exchange::{
    Attempt, Download, DownloadAction, DownloadEvent, Exchange, ExchangeAction, ExchangeEvent,
    Phase, RequestSettings,
};
use moonclient::status::status_text;
use moonclient::{MoonError, TimeSpan};

fn settings() -> RequestSettings {
    RequestSettings {
        user_agent: "agent/1".to_string(),
        timeout: Some(TimeSpan::from_secs(3)),
        body_limit: 77,
    }
}

/// Takes one attempt as far as the post-request hook.
fn until_answered(exchange: Exchange) -> Exchange {
    let (exchange, action) = exchange.step(ExchangeEvent::Prepared(Ok(())), &settings());
    assert!(matches!(action, ExchangeAction::Wait { user_agent, timeout: Some(_) } if user_agent == "agent/1"));
    let (exchange, action) = exchange.step(ExchangeEvent::Admitted(Ok(())), &settings());
    assert!(matches!(action, ExchangeAction::Send));
    let (exchange, action) = exchange.step(ExchangeEvent::Answered(Ok(())), &settings());
    assert!(matches!(action, ExchangeAction::Inspect));
    exchange
}

#[test]
fn accepted_request_goes_through_every_stage_once() {
    let (exchange, action) = Exchange::begin(true);
    assert!(matches!(action, ExchangeAction::Prepare(Attempt::First)));
    let exchange = until_answered(exchange);
    let (exchange, action) = exchange.step(ExchangeEvent::Inspected(Ok(200)), &settings());
    assert!(matches!(action, ExchangeAction::Extract { body_limit: 77 }));
    assert_eq!(exchange.phase, Phase::Closed);
}

#[test]
fn refreshed_session_replays_the_request_once() {
    let exchange = until_answered(Exchange::begin(true).0);
    let (exchange, action) = exchange.step(ExchangeEvent::Inspected(Ok(401)), &settings());
    assert!(matches!(action, ExchangeAction::Refresh));
    let (exchange, action) = exchange.step(ExchangeEvent::Refreshed(Ok(true)), &settings());
    assert!(matches!(action, ExchangeAction::Prepare(Attempt::Replay)));
    let exchange = until_answered(exchange);
    let (exchange, action) = exchange.step(ExchangeEvent::Inspected(Ok(401)), &settings());
    assert!(matches!(action, ExchangeAction::Extract { .. }));
    assert_eq!(exchange.phase, Phase::Closed);
    assert_eq!(exchange.attempt, Attempt::Replay);
}

#[test]
fn refusal_is_handed_on_without_a_fresh_session() {
    let exchange = until_answered(Exchange::begin(true).0);
    let (exchange, _) = exchange.step(ExchangeEvent::Inspected(Ok(401)), &settings());
    let (exchange, action) = exchange.step(ExchangeEvent::Refreshed(Ok(false)), &settings());
    assert!(matches!(action, ExchangeAction::Extract { .. }));
    assert_eq!(exchange.attempt, Attempt::First);
}

#[test]
fn refusal_is_handed_on_without_a_copy_of_the_request() {
    let exchange = until_answered(Exchange::begin(false).0);
    let (exchange, _) = exchange.step(ExchangeEvent::Inspected(Ok(401)), &settings());
    let (exchange, action) = exchange.step(ExchangeEvent::Refreshed(Ok(true)), &settings());
    assert!(matches!(action, ExchangeAction::Extract { .. }));
    assert_eq!(exchange.phase, Phase::Closed);
}

#[test]
fn other_error_statuses_are_not_recovered() {
    for status in [400, 402, 403, 500] {
        let exchange = until_answered(Exchange::begin(true).0);
        let (_, action) = exchange.step(ExchangeEvent::Inspected(Ok(status)), &settings());
        assert!(matches!(action, ExchangeAction::Extract { .. }));
    }
}

#[test]
fn failures_end_an_exchange() {
    let start = Exchange::begin(true).0;
    let (closed, action) =
        start.step(ExchangeEvent::Prepared(Err("no key".to_string())), &settings());
    assert!(matches!(action, ExchangeAction::Fail(MoonError::Middleware(text)) if text == "no key"));
    assert_eq!(closed.phase, Phase::Closed);

    let (waiting, _) = start.step(ExchangeEvent::Prepared(Ok(())), &settings());
    let (_, action) = waiting.step(
        ExchangeEvent::Admitted(Err(MoonError::Network("redis".to_string()))),
        &settings(),
    );
    assert!(matches!(action, ExchangeAction::Fail(MoonError::Network(text)) if text == "redis"));

    let (sending, _) = waiting.step(ExchangeEvent::Admitted(Ok(())), &settings());
    let (_, action) = sending.step(
        ExchangeEvent::Answered(Err(SendFailure::Transport("reset".to_string()))),
        &settings(),
    );
    assert!(matches!(action, ExchangeAction::Fail(MoonError::Network(text)) if text == "reset"));
    let (_, action) = sending.step(
        ExchangeEvent::Answered(Err(SendFailure::Pipeline("retries".to_string()))),
        &settings(),
    );
    assert!(matches!(action, ExchangeAction::Fail(MoonError::Middleware(text)) if text == "retries"));

    let inspecting = until_answered(start);
    let (_, action) =
        inspecting.step(ExchangeEvent::Inspected(Err("odd".to_string())), &settings());
    assert!(matches!(action, ExchangeAction::Fail(MoonError::Middleware(text)) if text == "odd"));

    let (refreshing, _) = inspecting.step(ExchangeEvent::Inspected(Ok(401)), &settings());
    let (_, action) =
        refreshing.step(ExchangeEvent::Refreshed(Err("store".to_string())), &settings());
    assert!(matches!(action, ExchangeAction::Fail(MoonError::Middleware(text)) if text == "store"));
}

#[test]
fn download_reads_the_body_of_anything_but_an_error() {
    for status in [200, 206, 304, 399] {
        let (download, action) = Download::begin(&settings());
        assert!(matches!(action, DownloadAction::Wait { user_agent, timeout: Some(_) } if user_agent == "agent/1"));
        let (download, action) = download.step(DownloadEvent::Admitted(Ok(())));
        assert!(matches!(action, DownloadAction::Send));
        let (download, action) = download.step(DownloadEvent::Answered(Ok(status)));
        assert!(matches!(action, DownloadAction::ReadBody));
        assert_eq!(download, Download::Closed);
    }
}

#[test]
fn download_reports_error_statuses_in_words() {
    for (status, text) in [
        (404, "404 Not Found"),
        (400, "400 Bad Request"),
        (503, "503 Service Unavailable"),
        (599, "599 <unknown status code>"),
    ] {
        let (download, _) = Download::begin(&settings());
        let (download, _) = download.step(DownloadEvent::Admitted(Ok(())));
        let (_, action) = download.step(DownloadEvent::Answered(Ok(status)));
        assert!(matches!(
            action,
            DownloadAction::Fail(MoonError::ApiError { code, message })
                if code == status && message == text
        ));
    }
}

#[test]
fn download_fails_with_limiter_and_transport() {
    let (download, _) = Download::begin(&settings());
    let (closed, action) = download.step(DownloadEvent::Admitted(Err(MoonError::Unknown)));
    assert!(matches!(action, DownloadAction::Fail(MoonError::Unknown)));
    assert_eq!(closed, Download::Closed);
    let (download, _) = download.step(DownloadEvent::Admitted(Ok(())));
    let (_, action) = download.step(DownloadEvent::Answered(Err(SendFailure::Transport(
        "timeout".to_string(),
    ))));
    assert!(matches!(action, DownloadAction::Fail(MoonError::Network(text)) if text == "timeout"));
}

#[test]
fn statuses_are_written_like_the_http_crate_writes_them() {
    for code in 100..1000 {
        let status = http::StatusCode::from_u16(code).unwrap();
        assert_eq!(status_text(code), status.to_string());
    }
    assert_eq!(status_text(99), "99 <unknown status code>");
    assert_eq!(status_text(1000), "1000 <unknown status code>");
}
