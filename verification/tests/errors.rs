use moonclient::diagnostics::Diagnostic;
use moonclient::error::{ApiErrorResponse, ApiErrors, FieldErrors, SendFailure};
use moonclient::MoonError;

fn strings(texts: &[&str]) -> Vec<String> {
    texts.iter().map(|text| text.to_string()).collect()
}

fn transport_error() -> reqwest::Error {
    reqwest::Proxy::all("::not a proxy::").unwrap_err()
}

fn told(error: &MoonError) -> (String, Vec<(String, String)>) {
    let message = error.diagnostic();
    let args = message
        .args()
        .into_iter()
        .map(|(name, value)| (name.to_string(), value))
        .collect();
    (message.key().to_string(), args)
}

fn pairs(args: &[(&str, &str)]) -> Vec<(String, String)> {
    args.iter()
        .map(|(name, value)| (name.to_string(), value.to_string()))
        .collect()
}

#[test]
fn transport_errors_become_network_errors() {
    let text = transport_error().to_string();
    assert!(!text.is_empty());
    assert!(matches!(MoonError::from(transport_error()), MoonError::Network(got) if got == text));
}

#[test]
fn pipeline_errors_become_middleware_errors() {
    let error = reqwest_middleware::Error::from(transport_error());
    let text = error.to_string();
    assert!(matches!(MoonError::from(error), MoonError::Middleware(got) if got == text));
}

#[test]
fn input_and_output_errors_are_kept() {
    let error = std::io::Error::new(std::io::ErrorKind::NotFound, "no such log");
    let error = MoonError::from(error);
    assert!(matches!(&error, MoonError::Io(kept) if kept.kind() == std::io::ErrorKind::NotFound));
    assert_eq!(told(&error), ("err-io".to_string(), pairs(&[("error", "no such log")])));
}

#[test]
fn codec_errors_are_kept() {
    let text = serde_json::from_str::<u32>("{").unwrap_err().to_string();
    let error = MoonError::from(serde_json::from_str::<u32>("{").unwrap_err());
    assert!(matches!(&error, MoonError::Parse(_)));
    assert_eq!(told(&error), ("err-parse".to_string(), pairs(&[("error", &text)])));
}

#[test]
fn send_failures_tell_transport_from_pipeline() {
    let text = || "x".to_string();
    assert!(matches!(SendFailure::Transport(text()).into_error(), MoonError::Network(t) if t == "x"));
    assert!(matches!(SendFailure::Pipeline(text()).into_error(), MoonError::Middleware(t) if t == "x"));
}

#[test]
fn every_error_has_its_message() {
    let text = || "why".to_string();
    let why = pairs(&[("error", "why")]);
    for (error, key) in [
        (MoonError::Middleware(text()), "err-middleware"),
        (MoonError::Network(text()), "err-network"),
        (MoonError::Config(text()), "err-config"),
        (MoonError::Unauthorized(text()), "err-unauthorized"),
        (MoonError::ValidationError(text()), "err-validation-error"),
    ] {
        assert_eq!(told(&error), (key.to_string(), why.clone()));
    }
    assert_eq!(
        told(&MoonError::ApiError { code: 503, message: "busy".to_string() }),
        ("err-api-error".to_string(), pairs(&[("code", "503"), ("message", "busy")]))
    );
    assert_eq!(
        told(&MoonError::ResponseDecode { error_message: text(), raw: "<x>".to_string() }),
        ("err-response-decode".to_string(), pairs(&[("error", "why"), ("raw", "<x>")]))
    );
    assert_eq!(told(&MoonError::Unknown), ("err-unknown".to_string(), Vec::new()));
    assert_eq!(
        told(&MoonError::ApiValidation(ApiErrors::Messages(strings(&["a", "b"])))),
        ("err-api-validation".to_string(), pairs(&[("error", "a; b")]))
    );
}

#[test]
fn messages_without_an_error_behind_them_have_keys() {
    assert_eq!(Diagnostic::InvalidBaseUrl.key(), "expect-invalid-base-url");
    assert_eq!(Diagnostic::InvalidMacroBaseUrl.key(), "expect-invalid-macro-base-url");
    assert_eq!(Diagnostic::InvalidPeriod.key(), "expect-invalid-period-calculation");
    let failed = Diagnostic::RedisLimitError { error: "down".to_string() };
    assert_eq!(failed.key(), "redis-limit-error");
    assert_eq!(failed.args(), vec![("error", "down".to_string())]);
    assert!(Diagnostic::InvalidPeriod.args().is_empty());
}

#[test]
fn message_list_is_joined() {
    assert_eq!(ApiErrors::Messages(strings(&["too short", "taken"])).to_text(), "too short; taken");
    assert_eq!(ApiErrors::Messages(Vec::new()).to_text(), "");
}

#[test]
fn field_errors_are_listed_by_field() {
    let mut fields = FieldErrors::new();
    fields.insert("name".to_string(), strings(&["too short", "taken"]));
    assert_eq!(ApiErrors::Fields(fields.clone()).to_text(), "name: too short; taken");
    fields.insert("age".to_string(), strings(&["negative"]));
    let text = ApiErrors::Fields(fields).to_text();
    assert!(text == "name: too short; taken, age: negative" || text == "age: negative, name: too short; taken");
}

#[test]
fn field_is_listed_once() {
    let mut fields = FieldErrors::new();
    fields.insert("name".to_string(), strings(&["old"]));
    fields.insert("name".to_string(), strings(&["new"]));
    assert_eq!(fields.to_text(), "name: new");
}

#[test]
fn field_reports_are_equal_in_any_order() {
    let mut first = FieldErrors::new();
    first.insert("a".to_string(), strings(&["1"]));
    first.insert("b".to_string(), strings(&["2", "3"]));
    let mut second = FieldErrors::new();
    second.insert("b".to_string(), strings(&["2", "3"]));
    second.insert("a".to_string(), strings(&["1"]));
    assert!(first.same_as(&second));
    assert!(ApiErrors::Fields(first.clone()) == ApiErrors::Fields(second));
    let mut third = first.clone();
    third.insert("b".to_string(), strings(&["3", "2"]));
    assert!(ApiErrors::Fields(first) != ApiErrors::Fields(third));
}

#[test]
fn reports_are_equal_only_in_the_same_form() {
    let list = || ApiErrors::Messages(strings(&["x"]));
    assert!(list() == list());
    assert!(list() == list().clone());
    assert!(list() != ApiErrors::Messages(strings(&["x", "y"])));
    assert!(list() != ApiErrors::Fields(FieldErrors::new()));
    let envelope = ApiErrorResponse { errors: list() };
    assert_eq!(envelope.errors.to_text(), "x");
}
