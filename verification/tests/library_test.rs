//! Tests of the request building, header parsing and response decoding that
//! the clients share, on concrete values.

use demografix::blocking::{BlockingDemografix, BlockingTransport};
use demografix::client::{
    agify_batch_from_response, build_query, decode_parsed, decode_response,
    genderize_from_response, nationalize_from_response, parse_quota, prepare_request,
    validate_api_key, validate_batch_size, AGIFY_BASE, GENDERIZE_BASE, USER_AGENT,
};
use demografix::json::parse_json;
use demografix::text::{
    decimal_string, eq_ignore_ascii_case_str, is_blank_str, parse_i64_str, trim_str,
};
use demografix::{Error, JsonNumber, JsonValue, RawResponse, Request};
use std::sync::Mutex;

fn headers(limit: &str, remaining: &str, reset: &str) -> Vec<(String, String)> {
    vec![
        ("x-rate-limit-limit".to_string(), limit.to_string()),
        ("x-rate-limit-remaining".to_string(), remaining.to_string()),
        ("x-rate-limit-reset".to_string(), reset.to_string()),
    ]
}

fn fixture_headers() -> Vec<(String, String)> {
    headers("25000", "24987", "1314000")
}

fn response(status: u16, body: &str) -> RawResponse {
    RawResponse {
        status,
        headers: fixture_headers(),
        body: body.to_string(),
    }
}

/// A stub that records the request and answers with a canned response, or
/// fails the test when it must not be called.
struct Stub {
    status: u16,
    body: String,
    expect_call: bool,
    captured: Mutex<Option<Request>>,
}

impl Stub {
    fn new(status: u16, body: &str, expect_call: bool) -> Self {
        Stub {
            status,
            body: body.to_string(),
            expect_call,
            captured: Mutex::new(None),
        }
    }
}

impl BlockingTransport for Stub {
    fn execute(&self, request: Request) -> Result<RawResponse, Error> {
        assert!(self.expect_call, "transport was called but no HTTP call was expected");
        *self.captured.lock().unwrap() = Some(request);
        Ok(response(self.status, &self.body))
    }
}

struct Shared(std::sync::Arc<Stub>);

impl BlockingTransport for Shared {
    fn execute(&self, request: Request) -> Result<RawResponse, Error> {
        self.0.execute(request)
    }
}

fn query_of(names: &[&str], key: Option<&str>) -> Vec<(String, String)> {
    let stub = std::sync::Arc::new(Stub::new(200, "[]", true));
    let client = BlockingDemografix::with_transport(Shared(std::sync::Arc::clone(&stub)), key);
    let _ = client.agify_batch(names, None);
    let captured = stub.captured.lock().unwrap().clone().expect("transport was called");
    captured.query
}

#[test]
fn genderize_single_reads_all_quota_fields() {
    let r = genderize_from_response(&response(
        200,
        r#"{ "count": 1352696, "name": "peter", "gender": "male", "probability": 1.0 }"#,
    ))
    .unwrap();
    assert_eq!(r.name, "peter");
    assert_eq!(r.gender.as_deref(), Some("male"));
    assert_eq!(r.count, 1352696);
    assert_eq!(r.country_id, None);
    assert_eq!(r.quota.limit, 25000);
    assert_eq!(r.quota.remaining, 24987);
    assert_eq!(r.quota.reset, 1314000);
}

#[test]
fn agify_single_through_blocking_client() {
    let client = BlockingDemografix::with_transport(
        Stub::new(200, r#"{ "count": 311558, "name": "michael", "age": 57 }"#, true),
        Some("test-key"),
    );
    let r = client.agify("michael", None).unwrap();
    assert_eq!(r.name, "michael");
    assert_eq!(r.age, Some(57));
    assert_eq!(r.count, 311558);
    assert_eq!(r.quota.remaining, 24987);
}

#[test]
fn null_predictions_are_success() {
    let g = genderize_from_response(&response(
        200,
        r#"{ "name": "xÿz", "gender": null, "probability": 0.0, "count": 0 }"#,
    ))
    .unwrap();
    assert_eq!(g.gender, None);
    assert_eq!(g.probability.text.parse::<f64>().unwrap(), 0.0);
    assert_eq!(g.count, 0);
    let n = nationalize_from_response(&response(
        200,
        r#"{ "name": "xÿz", "country": [], "count": 0 }"#,
    ))
    .unwrap();
    assert!(n.country.is_empty());
    assert_eq!(n.count, 0);
}

#[test]
fn nationalize_probabilities_are_carried() {
    let n = nationalize_from_response(&response(
        200,
        r#"{ "count": 100783, "name": "nguyen",
            "country": [ { "country_id": "VN", "probability": 0.891132 },
                         { "country_id": "MO", "probability": 0.019031 } ] }"#,
    ))
    .unwrap();
    assert_eq!(n.name, "nguyen");
    assert_eq!(n.country[0].probability.text.parse::<f64>().unwrap(), 0.891132);
    assert_eq!(n.country[1].country_id, "MO");
    assert_eq!(n.count, 100783);
}

#[test]
fn batch_query_repeats_name_and_sends_key() {
    let q = query_of(&["a", "b", "c"], Some("test-key"));
    let names: Vec<&str> = q
        .iter()
        .filter(|(k, _)| k == "name[]")
        .map(|(_, v)| v.as_str())
        .collect();
    assert_eq!(names, vec!["a", "b", "c"]);
    assert!(q.iter().all(|(k, _)| k != "name"));
    assert!(q.iter().any(|(k, v)| k == "apikey" && v == "test-key"));
}

#[test]
fn build_query_layout() {
    let single = build_query(&["kim"], Some("US"), Some("k"));
    assert_eq!(
        single,
        vec![
            ("name".to_string(), "kim".to_string()),
            ("country_id".to_string(), "US".to_string()),
            ("apikey".to_string(), "k".to_string()),
        ]
    );
    let none = build_query(&[], None, None);
    assert!(none.is_empty());
    let batch = build_query(&["a", "b"], None, None);
    assert_eq!(
        batch,
        vec![
            ("name[]".to_string(), "a".to_string()),
            ("name[]".to_string(), "b".to_string()),
        ]
    );
}

#[test]
fn prepared_request_carries_url_and_user_agent() {
    let r = prepare_request(GENDERIZE_BASE, &["peter"], None, None).unwrap();
    assert_eq!(r.url, "https://api.genderize.io/");
    assert_eq!(r.user_agent, USER_AGENT);
    assert_eq!(r.query, vec![("name".to_string(), "peter".to_string())]);
    let r = prepare_request(AGIFY_BASE, &["a"], None, Some("key")).unwrap();
    assert_eq!(r.url, "https://api.agify.io/");
}

#[test]
fn empty_and_blank_keys_are_rejected_without_http() {
    for key in ["", "   ", "\t\n"] {
        let client = BlockingDemografix::with_transport(Stub::new(200, "", false), Some(key));
        let err = client.genderize("peter", None).unwrap_err();
        match &err {
            Error::Validation {
                status,
                message,
                quota,
            } => {
                assert_eq!(*status, 0);
                assert_eq!(message, "api_key is required");
                assert!(quota.is_none());
            }
            other => panic!("expected ValidationError, got {other:?}"),
        }
        assert_eq!(err.status(), None);
    }
    assert!(validate_api_key(None).is_ok());
    assert!(validate_api_key(Some(" k ")).is_ok());
}

#[test]
fn batch_limit_message_and_boundary() {
    let ten = vec!["n"; 10];
    assert!(validate_batch_size(&ten).is_ok());
    let eleven = vec!["n"; 11];
    let err = validate_batch_size(&eleven).unwrap_err();
    assert_eq!(err.message(), "batch of 11 names exceeds the maximum of 10");
    assert_eq!(err.quota(), None);
    let client = BlockingDemografix::with_transport(Stub::new(200, "", false), Some("k"));
    assert!(matches!(
        client.nationalize_batch(&eleven),
        Err(Error::Validation { status: 0, .. })
    ));
}

#[test]
fn quota_headers_are_case_insensitive_and_trimmed() {
    let hs = vec![
        ("X-Rate-Limit-Limit".to_string(), " 100 ".to_string()),
        ("X-RATE-LIMIT-REMAINING".to_string(), "+7".to_string()),
        ("x-rate-limit-reset".to_string(), "-3".to_string()),
    ];
    let q = parse_quota(&hs).unwrap();
    assert_eq!((q.limit, q.remaining, q.reset), (100, 7, -3));
    assert!(parse_quota(&headers("1", "2", "abc")).is_none());
    assert!(parse_quota(&headers("1", "2", "99999999999999999999")).is_none());
    assert!(parse_quota(&fixture_headers()[..2].to_vec()).is_none());
    // The first header of a name decides, even when a later one would parse.
    let mut dup = headers("x", "2", "3");
    dup.push(("x-rate-limit-limit".to_string(), "5".to_string()));
    assert!(parse_quota(&dup).is_none());
}

#[test]
fn status_codes_map_to_typed_errors() {
    let q = || parse_quota(&fixture_headers());
    let m = || "m".to_string();
    assert!(matches!(Error::from_status(401, m(), q()), Error::Auth { status: 401, .. }));
    assert!(matches!(Error::from_status(402, m(), q()), Error::Subscription { .. }));
    assert!(matches!(Error::from_status(422, m(), q()), Error::Validation { .. }));
    assert!(matches!(Error::from_status(429, m(), q()), Error::RateLimit { .. }));
    assert!(matches!(
        Error::from_status(429, m(), None),
        Error::Transport { status: Some(429), quota: None, .. }
    ));
    assert!(matches!(Error::from_status(500, m(), None), Error::Api { status: 500, .. }));
    assert_eq!(Error::from_status(0, m(), None).status(), None);
    assert_eq!(Error::from_status(503, m(), q()).quota().unwrap().remaining, 24987);
}

#[test]
fn error_display_text() {
    let e = Error::from_status(401, "Invalid API key".to_string(), None);
    assert_eq!(e.display_text(), "Invalid API key (status 401)");
    let e = Error::Transport {
        message: "timeout".to_string(),
        status: None,
        quota: None,
    };
    assert_eq!(e.display_text(), "timeout");
}

#[test]
fn error_body_without_message_names_the_status() {
    let err = genderize_from_response(&response(500, r#"{ "oops": 1 }"#)).unwrap_err();
    match err {
        Error::Api {
            status,
            message,
            quota,
        } => {
            assert_eq!(status, 500);
            assert_eq!(message, "request failed with status 500");
            assert_eq!(quota.unwrap().limit, 25000);
        }
        other => panic!("expected ApiError, got {other:?}"),
    }
}

#[test]
fn success_without_quota_headers_is_transport() {
    let r = RawResponse {
        status: 200,
        headers: vec![],
        body: r#"{ "count": 1, "name": "a", "age": 3 }"#.to_string(),
    };
    let err = decode_response(&r).unwrap_err();
    assert_eq!(err.message(), "response is missing rate-limit headers");
    assert_eq!(err.status(), Some(200));
    assert_eq!(err.quota(), None);
}

/// What serde_json reports when it reads `json` as a `T`.
fn serde_error<T: serde::de::DeserializeOwned + std::fmt::Debug>(json: &str) -> String {
    let value: serde_json::Value = serde_json::from_str(json).unwrap();
    serde_json::from_value::<T>(value).unwrap_err().to_string()
}

fn body_error(status: u16, body: &str) -> String {
    genderize_from_response(&response(status, body))
        .unwrap_err()
        .message()
        .to_string()
}

#[test]
fn wrong_shape_success_is_transport_with_quota() {
    let err = genderize_from_response(&response(200, r#"{ "gender": "male" }"#)).unwrap_err();
    assert_eq!(err.message(), "failed to parse response body: missing field `name`");
    assert_eq!(err.status(), Some(200));
    assert_eq!(err.quota().unwrap().remaining, 24987);
    assert_eq!(
        body_error(200, r#""peter""#),
        "failed to parse response body: invalid type: string \"peter\", expected struct GenderizePrediction"
    );
    assert_eq!(
        body_error(200, r#"{ "name": "a", "probability": 0.5, "count": 1.5 }"#),
        format!("failed to parse response body: {}", serde_error::<i64>("1.5"))
    );
    assert_eq!(
        body_error(200, r#"{ "name": "a", "probability": 0.5, "count": 1.5 }"#),
        "failed to parse response body: invalid type: floating point `1.5`, expected i64"
    );
}

#[test]
fn type_errors_read_as_serde_writes_them() {
    // Members are read in key order, so `count` is met before `name`.
    assert_eq!(
        body_error(200, r#"{ "name": 5, "count": "x\"y", "probability": 1 }"#),
        format!("failed to parse response body: {}", serde_error::<i64>(r#""x\"y""#))
    );
    assert_eq!(
        body_error(200, r#"{ "name": 5, "count": 1, "probability": 1 }"#),
        format!("failed to parse response body: {}", serde_error::<String>("5"))
    );
    assert_eq!(
        body_error(200, r#"{ "name": "a", "count": 1, "probability": "p" }"#),
        format!("failed to parse response body: {}", serde_error::<f64>(r#""p""#))
    );
    assert_eq!(
        body_error(200, r#"{ "name": "a", "count": 9223372036854775808, "probability": 1 }"#),
        format!(
            "failed to parse response body: {}",
            serde_error::<i64>("9223372036854775808")
        )
    );
    assert_eq!(
        body_error(200, r#"{ "name": "a", "count": 1, "probability": 1, "gender": [true] }"#),
        format!("failed to parse response body: {}", serde_error::<Option<String>>("[true]"))
    );
    assert_eq!(
        body_error(200, r#"{ "name": "a", "count": 1, "probability": 1, "gender": false }"#),
        "failed to parse response body: invalid type: boolean `false`, expected a string"
    );
    let err = nationalize_from_response(&response(
        200,
        r#"{ "name": "a", "count": 1, "country": {} }"#,
    ))
    .unwrap_err();
    assert_eq!(
        err.message(),
        format!(
            "failed to parse response body: {}",
            serde_error::<Vec<String>>("{}")
        )
    );
}

#[test]
fn non_json_body_is_transport_whatever_the_status() {
    for status in [200u16, 401, 502] {
        let err = decode_response(&response(status, "<html>nope</html>")).unwrap_err();
        match err {
            Error::Transport {
                message,
                status: s,
                quota,
            } => {
                assert!(message.starts_with("response body is not valid JSON: "));
                assert_eq!(s, Some(status));
                assert_eq!(quota.unwrap().reset, 1314000);
            }
            other => panic!("expected TransportError, got {other:?}"),
        }
    }
}

#[test]
fn batch_keeps_response_order() {
    let b = agify_batch_from_response(&response(
        200,
        r#"[ { "count": 1, "name": "c", "age": 30 }, { "count": 2, "name": "a", "age": null },
            { "count": 3, "name": "b", "age": 10 } ]"#,
    ))
    .unwrap();
    let names: Vec<&str> = b.results.iter().map(|p| p.name.as_str()).collect();
    assert_eq!(names, vec!["c", "a", "b"]);
    assert_eq!(b.results[1].age, None);
    let err = agify_batch_from_response(&response(200, r#"{ "name": "a" }"#)).unwrap_err();
    assert_eq!(
        err.message(),
        format!("failed to parse response body: {}", serde_error::<Vec<String>>(r#"{ "name": "a" }"#))
    );
}

#[test]
fn parse_json_reads_the_document() {
    match parse_json(r#"{ "b": [1, 2.5, "x", null, true], "a": -7 }"#).unwrap() {
        JsonValue::Object(members) => {
            let a = members.iter().find(|(k, _)| k == "a").unwrap();
            assert!(matches!(&a.1, JsonValue::Number(JsonNumber { integer: Some(-7), .. })));
            let b = members.iter().find(|(k, _)| k == "b").unwrap();
            match &b.1 {
                JsonValue::Array(items) => {
                    assert_eq!(items.len(), 5);
                    assert!(matches!(&items[1], JsonValue::Number(n) if n.integer.is_none() && n.float && n.text == "2.5" && n.description == "floating point `2.5`"));
                    assert!(matches!(&items[2], JsonValue::Str(s) if s == "x"));
                    assert!(matches!(items[3], JsonValue::Null));
                    assert!(matches!(items[4], JsonValue::Bool(true)));
                }
                other => panic!("expected an array, got {other:?}"),
            }
        }
        other => panic!("expected an object, got {other:?}"),
    }
    assert!(parse_json("nope").is_err());
    assert!(parse_json("").is_err());
}

#[test]
fn decode_parsed_on_a_built_document() {
    let doc = JsonValue::Object(vec![(
        "error".to_string(),
        JsonValue::Str("Request limit reached".to_string()),
    )]);
    let err = decode_parsed(429, &fixture_headers(), Ok(doc)).unwrap_err();
    match err {
        Error::RateLimit { message, quota, .. } => {
            assert_eq!(message, "Request limit reached");
            assert_eq!(quota.limit, 25000);
        }
        other => panic!("expected RateLimitError, got {other:?}"),
    }
    let err = decode_parsed(200, &fixture_headers(), Err("eof".to_string())).unwrap_err();
    assert_eq!(err.message(), "response body is not valid JSON: eof");
    let (v, q) = decode_parsed(204, &fixture_headers(), Ok(JsonValue::Null)).unwrap();
    assert!(matches!(v, JsonValue::Null));
    assert_eq!(q.remaining, 24987);
}

#[test]
fn text_helpers() {
    assert_eq!(trim_str("\u{3000} a b \t"), "a b");
    assert_eq!(trim_str("   "), "");
    assert!(is_blank_str(""));
    assert!(is_blank_str(" \u{a0}\n"));
    assert!(!is_blank_str(" x "));
    assert!(eq_ignore_ascii_case_str("X-Rate", "x-rATE"));
    assert!(!eq_ignore_ascii_case_str("x-rate", "x-rat"));
    assert!(!eq_ignore_ascii_case_str("É", "é"));
    assert_eq!(parse_i64_str("-9223372036854775808"), Some(i64::MIN));
    assert_eq!(parse_i64_str("9223372036854775807"), Some(i64::MAX));
    assert_eq!(parse_i64_str("9223372036854775808"), None);
    assert_eq!(parse_i64_str("+"), None);
    assert_eq!(parse_i64_str("-"), None);
    assert_eq!(parse_i64_str(""), None);
    assert_eq!(parse_i64_str("1 2"), None);
    assert_eq!(parse_i64_str("007"), Some(7));
    assert_eq!(decimal_string(0), "0");
    assert_eq!(decimal_string(1314000), "1314000");
    assert_eq!(decimal_string(u64::MAX), u64::MAX.to_string());
}

#[test]
fn records_may_be_written_as_arrays() {
    let g = genderize_from_response(&response(200, r#"["peter", "male", 1.0, 5]"#)).unwrap();
    assert_eq!(g.name, "peter");
    assert_eq!(g.gender.as_deref(), Some("male"));
    assert_eq!(g.count, 5);
    assert_eq!(g.country_id, None);
    let g = genderize_from_response(&response(200, r#"["kim", null, 0.94, 7, "US"]"#)).unwrap();
    assert_eq!(g.country_id.as_deref(), Some("US"));
    let err = genderize_from_response(&response(200, r#"["peter", "male", 1.0]"#)).unwrap_err();
    assert_eq!(
        err.message(),
        "failed to parse response body: invalid length 3, expected struct GenderizePrediction with 5 elements"
    );
    let err = genderize_from_response(&response(200, r#"["a", null, 1, 2, null, 9]"#)).unwrap_err();
    assert_eq!(
        err.message(),
        "failed to parse response body: invalid length 6, expected fewer elements in array"
    );
    let n = nationalize_from_response(&response(200, r#"["nguyen", [["VN", 0.9]], 3]"#)).unwrap();
    assert_eq!(n.country[0].country_id, "VN");
    assert_eq!(n.count, 3);
    let a = agify_batch_from_response(&response(200, r#"[["michael", 57, 311558]]"#)).unwrap();
    assert_eq!(a.results[0].age, Some(57));
}

#[test]
fn batch_size_is_checked_before_the_key() {
    let eleven = vec!["n"; 11];
    let err = prepare_request(GENDERIZE_BASE, &eleven, None, Some(" ")).unwrap_err();
    assert_eq!(err.message(), "batch of 11 names exceeds the maximum of 10");
}
