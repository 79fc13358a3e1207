use std::borrow::Cow;

use moonclient::diagnostics::Diagnostic;
use moonclient::endpoint::parse_base_url;
use moonclient::{build_url, IntoSegment, MoonError};

fn key(message: Diagnostic) -> String {
    message.key().to_string()
}

fn segments<'a>(parts: &[&'a str]) -> Vec<Cow<'a, str>> {
    parts.iter().map(|part| Cow::Borrowed(*part)).collect()
}

#[test]
fn it_test_into_segment_conversions_ok() {
    let string_owned = "test_route".to_string();
    let string_ref = "test_route";
    let int_u32 = 42_u32;
    let int_i32 = -42_i32;

    assert_eq!(string_owned.to_segment(), "test_route");
    assert_eq!(string_ref.to_segment(), "test_route");
    assert_eq!(int_u32.to_segment(), "42");
    assert_eq!(int_i32.to_segment(), "-42");
}

#[test]
fn it_test_url_macro_building_ok() {
    let base_url = parse_base_url("https://test.api.io/v1").unwrap();

    let target_id = 999_i32;
    let category = "comments";

    let parts = vec!["target".to_segment(), category.to_segment(), target_id.to_segment()];
    let computed_url = build_url(&base_url, &parts, key).unwrap();

    assert_eq!(
        computed_url.as_str(),
        "https://test.api.io/v1/target/comments/999"
    );
}

#[test]
fn integers_at_their_limits_become_segments() {
    assert_eq!(i64::MIN.to_segment(), "-9223372036854775808");
    assert_eq!(i64::MAX.to_segment(), "9223372036854775807");
    assert_eq!(u64::MAX.to_segment(), "18446744073709551615");
    assert_eq!(i32::MIN.to_segment(), "-2147483648");
    assert_eq!(0_u32.to_segment(), "0");
    assert_eq!((&&7_u64).to_segment(), "7");
}

#[test]
fn user_action_is_appended_to_versioned_base() {
    let parts = vec!["users".to_segment(), 1007_u32.to_segment(), "deactivate".to_segment()];
    let url = build_url("https://api.site.com/api/v2", &parts, key).unwrap();
    assert_eq!(url, "https://api.site.com/api/v2/users/1007/deactivate");
}

#[test]
fn base_without_path_takes_segments() {
    let url = build_url("https://api.site.com", &segments(&["search"]), key).unwrap();
    assert_eq!(url, "https://api.site.com/search");
}

#[test]
fn trailing_slash_of_base_gives_no_double_slash() {
    let plain = build_url("https://api.site.com/v2", &segments(&["users"]), key).unwrap();
    let slashed = build_url("https://api.site.com/v2/", &segments(&["users"]), key).unwrap();
    assert_eq!(plain, "https://api.site.com/v2/users");
    assert_eq!(slashed, plain);
}

#[test]
fn segments_can_be_appended_in_turn() {
    let first = build_url("https://api.site.com/v2", &segments(&["users"]), key).unwrap();
    let second = build_url(&first, &segments(&["7", "posts"]), key).unwrap();
    let at_once =
        build_url("https://api.site.com/v2", &segments(&["users", "7", "posts"]), key).unwrap();
    assert_eq!(second, at_once);
}

#[test]
fn slash_inside_a_segment_is_encoded() {
    let url = build_url("https://api.site.com", &segments(&["a/b c?"]), key).unwrap();
    assert_eq!(url, "https://api.site.com/a%2Fb%20c%3F");
}

#[test]
fn segments_never_leave_the_host() {
    let url = build_url("https://api.site.com/v1", &segments(&["//other.com", "@x"]), key).unwrap();
    assert!(url.starts_with("https://api.site.com/"));
}

#[test]
fn base_that_carries_no_path_is_a_configuration_error() {
    let refused = build_url("mailto:someone@site.com", &segments(&["users"]), key);
    assert!(matches!(refused, Err(MoonError::Config(text)) if text == "expect-invalid-macro-base-url"));
    let refused = build_url("no url at all", &segments(&["users"]), key);
    assert!(matches!(refused, Err(MoonError::Config(_))));
}

#[test]
fn base_urls_are_parsed_and_checked() {
    assert_eq!(
        parse_base_url("HTTPS://Test.Api.IO").as_deref(),
        Some("https://test.api.io/")
    );
    assert_eq!(
        parse_base_url("http://test.api.io:80/v1").as_deref(),
        Some("http://test.api.io/v1")
    );
    assert_eq!(parse_base_url("data:text/plain,hello"), None);
    assert_eq!(parse_base_url("/relative"), None);
    assert_eq!(parse_base_url(""), None);
}

#[test]
fn text_segments_are_borrowed() {
    let owned = "test_route".to_string();
    assert!(matches!("test_route".to_segment(), Cow::Borrowed("test_route")));
    assert!(matches!(owned.to_segment(), Cow::Borrowed("test_route")));
    assert!(matches!((&owned).to_segment(), Cow::Borrowed("test_route")));
    assert!(matches!(7_u32.to_segment(), Cow::Owned(_)));
}

#[test]
fn solid_segments_bring_in_no_double_slash() {
    for part in ["a/b", "//", "ü", "%2e%2e", ".", "..", "a b"] {
        let url = build_url("https://api.site.com/v1/", &segments(&[part, "end"]), key).unwrap();
        assert!(!url["https://".len()..].contains("//"), "{}", url);
        assert!(url.starts_with("https://api.site.com/v1/"));
        assert!(url.ends_with("/end"));
    }
}

#[test]
fn address_beyond_what_a_url_can_count_is_a_configuration_error() {
    let long = "a".repeat(1_000_000);
    let parts = vec![Cow::Borrowed(long.as_str()); 400];
    let refused = build_url("https://api.site.com", &parts, key);
    assert!(matches!(refused, Err(MoonError::Config(text)) if text == "expect-invalid-macro-base-url"));
    let taken = build_url("https://api.site.com", &parts[..2].to_vec(), key).unwrap();
    assert_eq!(taken.len(), "https://api.site.com".len() + 2 * 1_000_001);
}
