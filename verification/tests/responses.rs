use moonclient::response::{
    read_response_text_bounded, BodyBuffer, BodyPlan, FromResponse, Json, Raw, Xml,
    DEFAULT_BODY_LIMIT, DEFAULT_ERROR_BODY_LIMIT,
};
use moonclient::MoonError;

fn parse(text: &String) -> Result<u32, String> {
    serde_json::from_str::<u32>(text).map_err(|error| error.to_string())
}

#[test]
fn limits_are_what_they_are_said_to_be() {
    assert_eq!(DEFAULT_ERROR_BODY_LIMIT, 64 * 1024);
    assert_eq!(DEFAULT_BODY_LIMIT, 16 * 1024 * 1024);
}

#[test]
fn short_body_is_read_whole() {
    let chunks = vec![Ok(b"hel".to_vec()), Ok(Vec::new()), Ok(b"lo".to_vec())];
    assert_eq!(read_response_text_bounded(chunks, 100).unwrap(), "hello");
    assert_eq!(read_response_text_bounded(Vec::new(), 100).unwrap(), "");
}

#[test]
fn body_that_just_fits_is_read_whole() {
    let chunks = vec![Ok(b"abc".to_vec()), Ok(b"def".to_vec())];
    assert_eq!(read_response_text_bounded(chunks, 6).unwrap(), "abcdef");
}

#[test]
fn long_body_is_cut_at_the_limit() {
    let chunks = vec![Ok(b"abc".to_vec()), Ok(b"def".to_vec()), Ok(b"ghi".to_vec())];
    assert_eq!(read_response_text_bounded(chunks, 5).unwrap(), "abcde");
    let chunks = vec![Ok(b"abc".to_vec())];
    assert_eq!(read_response_text_bounded(chunks, 0).unwrap(), "");
}

#[test]
fn failure_behind_the_limit_is_not_met() {
    let chunks = vec![Ok(b"abcdef".to_vec()), Err("reset".to_string())];
    assert_eq!(read_response_text_bounded(chunks, 5).unwrap(), "abcde");
}

#[test]
fn failure_before_the_limit_is_a_network_error() {
    let chunks = vec![Ok(b"abcde".to_vec()), Err("reset".to_string())];
    assert!(matches!(
        read_response_text_bounded(chunks, 5),
        Err(MoonError::Network(text)) if text == "reset"
    ));
}

#[test]
fn bytes_that_are_no_text_are_replaced() {
    let chunks = vec![Ok(vec![b'a', 0xff, b'b']), Ok("ü".as_bytes().to_vec())];
    assert_eq!(
        read_response_text_bounded(chunks, 100).unwrap(),
        "a\u{fffd}bü"
    );
}

#[test]
fn buffer_wants_chunks_until_one_does_not_fit() {
    let mut buffer = BodyBuffer::new(4);
    assert!(buffer.push_chunk(b"ab"));
    assert!(buffer.push_chunk(b"cd"));
    assert!(!buffer.push_chunk(b"e"));
    assert!(!buffer.push_chunk(b""));
    assert_eq!(buffer.into_text(), "abcd");
}

#[test]
fn cutting_a_stream_differently_changes_nothing() {
    let whole = b"0123456789".to_vec();
    for cut in 0..=whole.len() {
        let chunks = vec![Ok(whole[..cut].to_vec()), Ok(whole[cut..].to_vec())];
        assert_eq!(read_response_text_bounded(chunks, 7).unwrap(), "0123456");
    }
}

#[test]
fn json_is_decoded_on_success() {
    let out = Json::<u32>::from_response(200, "42".to_string(), parse);
    assert!(matches!(out, Ok(Json(42))));
}

#[test]
fn undecodable_json_keeps_the_body() {
    let out = Json::<u32>::from_response(201, "<html>".to_string(), parse);
    assert!(matches!(
        out,
        Err(MoonError::ResponseDecode { error_message, raw })
            if raw == "<html>" && error_message == "expected value at line 1 column 1"
    ));
}

#[test]
fn xml_is_decoded_like_json() {
    let out = Xml::<u32>::from_response(204, "7".to_string(), parse);
    assert!(matches!(out, Ok(Xml(7))));
    let out = Xml::<u32>::from_response(200, "x".to_string(), |_| Err("bad tag".to_string()));
    assert!(matches!(
        out,
        Err(MoonError::ResponseDecode { error_message, raw }) if error_message == "bad tag" && raw == "x"
    ));
}

#[test]
fn raw_response_is_handed_on() {
    let out = Raw::<&str>::from_response(206, String::new(), |_| "response");
    assert!(matches!(out, Ok(Raw("response"))));
}

#[test]
fn nothing_is_extracted_from_success_and_redirection() {
    for status in [200, 204, 299, 301, 304, 399] {
        assert!(<()>::from_response(status, String::new(), |_| ()).is_ok());
    }
}

#[test]
fn only_the_empty_extractor_accepts_redirections() {
    assert!(matches!(
        Json::<u32>::from_response(304, "1".to_string(), parse),
        Err(MoonError::ApiError { code: 304, .. })
    ));
    assert!(matches!(
        Raw::<u8>::from_response(302, String::new(), |_| 1),
        Err(MoonError::ApiError { code: 302, .. })
    ));
}

#[test]
fn error_status_becomes_an_api_error_with_the_body() {
    let body = || "{\"error\":\"gone\"}".to_string();
    for status in [400, 401, 404, 422, 500, 599, 199, 100] {
        assert!(matches!(
            Json::<u32>::from_response(status, body(), |_| panic!("decoded an error")),
            Err(MoonError::ApiError { code, message }) if code == status && message == body()
        ));
        assert!(matches!(
            <()>::from_response(status, body(), |_| panic!("accepted an error")),
            Err(MoonError::ApiError { code, message }) if code == status && message == body()
        ));
        assert!(matches!(
            Xml::<u32>::from_response(status, body(), |_| panic!("decoded an error")),
            Err(MoonError::ApiError { .. })
        ));
        assert!(matches!(
            Raw::<u32>::from_response(status, body(), |_| panic!("accepted an error")),
            Err(MoonError::ApiError { .. })
        ));
    }
}

#[test]
fn bodies_are_read_under_the_limit_for_them() {
    assert_eq!(Json::<u8>::body_plan(200, 99), BodyPlan::Read { limit: 99 });
    assert_eq!(Xml::<u8>::body_plan(200, 99), BodyPlan::Read { limit: 99 });
    assert_eq!(Raw::<u8>::body_plan(200, 99), BodyPlan::Skip);
    assert_eq!(<()>::body_plan(302, 99), BodyPlan::Skip);
    assert_eq!(Json::<u8>::body_plan(500, 99), BodyPlan::Read { limit: 65_536 });
    assert_eq!(<()>::body_plan(404, 99), BodyPlan::Read { limit: 65_536 });
    assert_eq!(Raw::<u8>::body_plan(302, 99), BodyPlan::Read { limit: 65_536 });
    assert_eq!(Xml::<u8>::body_plan(401, 99), BodyPlan::Read { limit: 65_536 });
}
