//! Decoding: the query-string record, the form record, and the JSON body
//! classification.

use webcore::failure::DecodeFailure;
use webcore::failure::failure_status;
use webcore::json::decode_json_submission;
use webcore::json::is_json_content_type;
use webcore::numeric::i32_to_string;
use webcore::numeric::parse_i32_bytes;
use webcore::query::decode_form_submission;
use webcore::query::decode_query_params;

#[test]
fn query_decode_basic() {
    let p = decode_query_params(b"foo=1&bar=x").unwrap();
    assert_eq!(p.foo, 1);
    assert_eq!(p.bar, "x");
    assert_eq!(p.third, None);
}

#[test]
fn query_decode_ignores_unknown_keys() {
    let p = decode_query_params(b"baz=zzz&foo=7&extra=1&bar=hello&more=&another").unwrap();
    assert_eq!(p.foo, 7);
    assert_eq!(p.bar, "hello");
    assert_eq!(p.third, None);
}

#[test]
fn query_decode_optional_third() {
    let p = decode_query_params(b"foo=-5&bar=hello+world&third=42").unwrap();
    assert_eq!(p.foo, -5);
    assert_eq!(p.bar, "hello world");
    assert_eq!(p.third, Some(42));
}

#[test]
fn query_decode_percent_escapes() {
    let p = decode_query_params(b"foo=1&bar=a%20b%2Bc%C3%A9").unwrap();
    assert_eq!(p.bar, "a b+c\u{e9}");
}

#[test]
fn query_decode_missing_required_field() {
    assert_eq!(
        decode_query_params(b"bar=x").map(|_| ()),
        Err(DecodeFailure::BodyDeserializationError)
    );
    assert_eq!(
        decode_query_params(b"foo=1").map(|_| ()),
        Err(DecodeFailure::BodyDeserializationError)
    );
    assert_eq!(
        decode_query_params(b"").map(|_| ()),
        Err(DecodeFailure::BodyDeserializationError)
    );
}

#[test]
fn query_decode_non_integer_foo() {
    assert_eq!(
        decode_query_params(b"foo=abc&bar=x").map(|_| ()),
        Err(DecodeFailure::BodyDeserializationError)
    );
    assert_eq!(
        decode_query_params(b"foo=2147483648&bar=x").map(|_| ()),
        Err(DecodeFailure::BodyDeserializationError)
    );
}

#[test]
fn query_decode_extreme_integers() {
    let p = decode_query_params(b"foo=-2147483648&bar=x").unwrap();
    assert_eq!(p.foo, i32::MIN);
    let p = decode_query_params(b"foo=2147483647&bar=x").unwrap();
    assert_eq!(p.foo, i32::MAX);
}

#[test]
fn query_decode_duplicate_key_rejected() {
    assert_eq!(
        decode_query_params(b"foo=1&foo=2&bar=x").map(|_| ()),
        Err(DecodeFailure::BodyDeserializationError)
    );
}

#[test]
fn parse_i32_forms() {
    assert_eq!(parse_i32_bytes(b"0"), Some(0));
    assert_eq!(parse_i32_bytes(b"-0"), Some(0));
    assert_eq!(parse_i32_bytes(b"+7"), Some(7));
    assert_eq!(parse_i32_bytes(b"007"), Some(7));
    assert_eq!(parse_i32_bytes(b""), None);
    assert_eq!(parse_i32_bytes(b"-"), None);
    assert_eq!(parse_i32_bytes(b"1x"), None);
    assert_eq!(parse_i32_bytes(b"2147483648"), None);
    assert_eq!(parse_i32_bytes(b"-2147483648"), Some(i32::MIN));
}

#[test]
fn int_to_text() {
    assert_eq!(i32_to_string(2), "2");
    assert_eq!(i32_to_string(0), "0");
    assert_eq!(i32_to_string(-123), "-123");
    assert_eq!(i32_to_string(i32::MIN), "-2147483648");
    assert_eq!(i32_to_string(i32::MAX), "2147483647");
}

#[test]
fn form_decode_basic() {
    let s = decode_form_submission(b"name=alice&email=a%40b.com").unwrap();
    assert_eq!(s.name, "alice");
    assert_eq!(s.email, "a@b.com");
}

#[test]
fn form_decode_missing_field() {
    assert_eq!(
        decode_form_submission(b"name=alice").map(|_| ()),
        Err(DecodeFailure::BodyDeserializationError)
    );
}

#[test]
fn json_without_content_type_is_missing_content_type() {
    let body = br#"{"name":"alice","email":"a@b.com"}"#;
    let r = decode_json_submission(None, Some(body)).map(|_| ());
    assert_eq!(r, Err(DecodeFailure::MissingContentType));
    let r = decode_json_submission(Some(b"text/plain"), Some(body)).map(|_| ());
    assert_eq!(r, Err(DecodeFailure::MissingContentType));
}

#[test]
fn json_bad_syntax_is_syntax_error() {
    let r = decode_json_submission(Some(b"application/json"), Some(b"{not json")).map(|_| ());
    assert_eq!(r, Err(DecodeFailure::BodySyntaxError));
    let r = decode_json_submission(Some(b"application/json"), Some(b"")).map(|_| ());
    assert_eq!(r, Err(DecodeFailure::BodySyntaxError));
}

#[test]
fn json_wrong_shape_is_deserialization_error() {
    let r = decode_json_submission(
        Some(b"application/json"),
        Some(br#"{"name":1,"email":"a@b.com"}"#),
    )
    .map(|_| ());
    assert_eq!(r, Err(DecodeFailure::BodyDeserializationError));
    let r = decode_json_submission(Some(b"application/json"), Some(br#"{"name":"alice"}"#))
        .map(|_| ());
    assert_eq!(r, Err(DecodeFailure::BodyDeserializationError));
    let r = decode_json_submission(Some(b"application/json"), Some(b"[1,2,3]")).map(|_| ());
    assert_eq!(r, Err(DecodeFailure::BodyDeserializationError));
}

#[test]
fn json_non_string_fields_are_shape_errors() {
    let r = decode_json_submission(
        Some(b"application/json"),
        Some(br#"{"name":{"x":1},"email":"a@b.com"}"#),
    )
    .map(|_| ());
    assert_eq!(r, Err(DecodeFailure::BodyDeserializationError));
    let r = decode_json_submission(
        Some(b"application/json"),
        Some(br#"{"name":"alice","email":null}"#),
    )
    .map(|_| ());
    assert_eq!(r, Err(DecodeFailure::BodyDeserializationError));
}

#[test]
fn json_missing_body_is_read_error() {
    let r = decode_json_submission(Some(b"application/json"), None).map(|_| ());
    assert_eq!(r, Err(DecodeFailure::BodyReadError));
}

#[test]
fn json_happy_path() {
    let s = decode_json_submission(
        Some(b"application/json; charset=utf-8"),
        Some(br#"{"name":"alice","email":"a@b.com","extra":true}"#),
    )
    .unwrap();
    assert_eq!(s.name, "alice");
    assert_eq!(s.email, "a@b.com");
}

#[test]
fn json_content_type_forms() {
    assert!(is_json_content_type(b"application/json"));
    assert!(is_json_content_type(b"Application/JSON"));
    assert!(is_json_content_type(b"application/json; charset=utf-8"));
    assert!(is_json_content_type(b" application/json ; q=1"));
    assert!(is_json_content_type(b"application/vnd.api+json"));
    assert!(!is_json_content_type(b"text/html"));
    assert!(!is_json_content_type(b"application/jsonp"));
    assert!(!is_json_content_type(b""));
}

#[test]
fn failure_statuses_are_client_errors() {
    let all = [
        DecodeFailure::MissingContentType,
        DecodeFailure::BodyDeserializationError,
        DecodeFailure::BodySyntaxError,
        DecodeFailure::BodyReadError,
        DecodeFailure::Other,
    ];
    for f in all {
        let s = failure_status(f);
        assert!((400..500).contains(&s));
    }
    assert_eq!(failure_status(DecodeFailure::MissingContentType), 415);
    assert_eq!(failure_status(DecodeFailure::BodyDeserializationError), 422);
    assert_eq!(failure_status(DecodeFailure::BodySyntaxError), 400);
}
