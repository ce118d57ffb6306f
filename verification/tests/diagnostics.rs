use pie::diagnostics::{
    add_diagnostic, extract_message, is_secret_key, json_type, normalize_parsed_http_error,
    normalize_provider_http_error, raw_stop_reason_diagnostic, redact_json_value, truncate_chars,
    try_normalize_provider_http_error, try_redact_json_value, MAX_ERROR_BODY_CHARS,
};
use pie::json::Json;
use pie::message::{AssistantMessage, StopReason, Usage};
use pie::redact::{redact_text, try_redact_text, REDACTED};

fn at<'a>(value: &'a Json, path: &[&str]) -> &'a Json {
    let mut here = value;
    for name in path {
        here = here.get(name).expect("member");
    }
    here
}

fn text_at<'a>(value: &'a Json, path: &[&str]) -> &'a str {
    at(value, path).as_str().expect("text")
}

fn parse(text: &str) -> Json {
    Json::parse(text).expect("JSON")
}

#[test]
fn plain_object_body_is_preserved_and_redacted() {
    let normalized = normalize_provider_http_error(
        "anthropic",
        400,
        r#"{"error":{"message":"bad request","token":"secret"},"api_key":"sk-test","safe":"ok"}"#,
    );

    assert_eq!(normalized.message, "HTTP 400 Bad Request: bad request");
    let data = normalized.diagnostic.get("data").unwrap();
    assert_eq!(text_at(data, &["body", "api_key"]), REDACTED);
    assert_eq!(text_at(data, &["body", "error", "token"]), REDACTED);
    assert_eq!(text_at(data, &["body", "safe"]), "ok");
    assert_eq!(text_at(data, &["bodyType"]), "object");
}

#[test]
fn arrays_and_scalars_are_previews_not_error_bodies() {
    let array = normalize_provider_http_error("provider", 502, r#"[{"message":"x"}]"#);
    let array_data = array.diagnostic.get("data").unwrap();
    assert!(array_data.get("body").is_none());
    assert_eq!(text_at(array_data, &["bodyType"]), "array");

    let scalar = normalize_provider_http_error("provider", 502, r#""bad""#);
    let scalar_data = scalar.diagnostic.get("data").unwrap();
    assert!(scalar_data.get("body").is_none());
    assert_eq!(text_at(scalar_data, &["bodyType"]), "string");
}

#[test]
fn huge_text_body_is_capped() {
    let huge = "x".repeat(MAX_ERROR_BODY_CHARS + 10);
    let normalized = normalize_provider_http_error("provider", 502, &huge);
    let data = normalized.diagnostic.get("data").unwrap();
    assert_eq!(at(data, &["bodyTruncated"]), &Json::Bool(true));
    assert!(text_at(data, &["bodyPreview"]).ends_with("..."));
    assert_eq!(
        text_at(data, &["bodyPreview"]).chars().count(),
        MAX_ERROR_BODY_CHARS + 3
    );
}

#[test]
fn an_empty_body_has_no_preview() {
    let normalized = normalize_provider_http_error("provider", 503, "  \n");
    assert_eq!(
        normalized.message,
        "HTTP 503 Service Unavailable: provider request failed"
    );
    let data = normalized.diagnostic.get("data").unwrap();
    assert_eq!(text_at(data, &["bodyType"]), "empty");
    assert!(data.get("bodyPreview").is_none());
    assert_eq!(at(data, &["status"]), &Json::number(503));
    assert_eq!(text_at(&normalized.diagnostic, &["kind"]), "provider_http_error");
}

#[test]
fn a_text_body_is_its_own_message() {
    let normalized = normalize_provider_http_error("p", 500, " upstream broke ");
    assert_eq!(
        normalized.message,
        "HTTP 500 Internal Server Error: upstream broke"
    );
    // A status without a standing phrase.
    let odd = normalize_provider_http_error("p", 599, "x");
    assert_eq!(odd.message, "HTTP 599 <unknown status code>: x");
}

#[test]
fn a_parsed_body_needs_no_text() {
    let normalized = normalize_parsed_http_error(
        "p",
        418,
        "418 I'm a teapot",
        "ignored",
        false,
        Some(parse(r#"{"message":"short and stout"}"#)),
    );
    assert_eq!(
        normalized.message,
        "HTTP 418 I'm a teapot: short and stout"
    );
}

#[test]
fn bearer_tokens_are_replaced() {
    assert_eq!(
        redact_text("send Bearer abc, then bearer xyz."),
        format!("send Bearer {REDACTED}, then bearer {REDACTED}")
    );
    assert_eq!(redact_text("no secrets"), "no secrets");
    assert_eq!(redact_text("Bearer \"and then ten"), "Bearer \"and then ten");
    // What follows an empty token is passed over, as far as a replacement would reach.
    assert_eq!(redact_text("Bearer  Bearer tok"), "Bearer  Bearer tok");
    assert_eq!(
        redact_text("Bearer  0123456789 Bearer tok"),
        format!("Bearer  0123456789 Bearer {REDACTED}")
    );
    // Nothing stands behind the marker, and the search leaves the text.
    assert_eq!(try_redact_text("Bearer "), None);
    assert!(try_normalize_provider_http_error("p", 400, "Bearer ").is_none());
    assert!(try_normalize_provider_http_error("p", 400, "fine").is_some());
}

#[test]
fn secret_names() {
    for name in ["api_key", "API-Key", "authorization", "access_token", "password"] {
        assert!(is_secret_key(name), "{name}");
    }
    for name in ["safe", "message", "monkey"] {
        assert!(!is_secret_key(name), "{name}");
    }
}

#[test]
fn secrets_are_redacted_at_every_depth() {
    let value = parse(r#"{"a":[{"token":{"x":1}},"Bearer abc"],"n":1.5,"b":null}"#);
    let redacted = redact_json_value(value);
    assert_eq!(
        redacted.compact(),
        format!(r#"{{"a":[{{"token":"{REDACTED}"}},"Bearer {REDACTED}"],"b":null,"n":1.5}}"#)
    );
    assert!(try_redact_json_value(&parse(r#"["Bearer "]"#)).is_none());
}

#[test]
fn messages_are_found_where_providers_put_them() {
    let found = |text: &str| extract_message(&parse(text));
    assert_eq!(
        found(r#"{"error":{"message":"a"},"message":"b"}"#).as_deref(),
        Some("a")
    );
    assert_eq!(found(r#"{"message":"b"}"#).as_deref(), Some("b"));
    assert_eq!(found(r#"{"other":1}"#), None);
}

#[test]
fn json_types_have_names() {
    let name = |text: &str| json_type(&parse(text)).to_string();
    assert_eq!(name("null"), "null");
    assert_eq!(name("true"), "boolean");
    assert_eq!(name("1"), "number");
    assert_eq!(name("\"x\""), "string");
    assert_eq!(name("[]"), "array");
    assert_eq!(name("{}"), "object");
}

#[test]
fn truncation_counts_characters() {
    assert_eq!(truncate_chars("äöü", 3), ("äöü".to_string(), false));
    assert_eq!(truncate_chars("äöüx", 3), ("äöü...".to_string(), true));
    assert_eq!(truncate_chars("x", 0), ("...".to_string(), true));
}

#[test]
fn stop_reasons_are_kept_as_diagnostics() {
    let diagnostic = raw_stop_reason_diagnostic("p", "weird");
    assert_eq!(text_at(&diagnostic, &["kind"]), "provider_raw_stop_reason");
    assert_eq!(text_at(&diagnostic, &["message"]), "p raw stop reason: weird");
    assert_eq!(text_at(&diagnostic, &["data", "rawStopReason"]), "weird");
    let mut message = AssistantMessage {
        content: vec![],
        api: "a".into(),
        provider: "p".into(),
        model: "m".into(),
        response_model: None,
        response_id: None,
        diagnostics: None,
        usage: Usage::default(),
        stop_reason: StopReason::Stop,
        error_message: None,
        timestamp: 0,
    };
    add_diagnostic(&mut message, diagnostic.clone());
    add_diagnostic(&mut message, Json::Null);
    assert_eq!(message.diagnostics, Some(vec![diagnostic, Json::Null]));
}

#[test]
fn json_text_is_read_and_written() {
    assert!(Json::parse("{").is_none());
    let value = parse(r#"{"b":[1,2],"a":"x\n"}"#);
    assert_eq!(value.compact(), r#"{"a":"x\n","b":[1,2]}"#);
    assert_eq!(
        value.pretty(),
        "{\n  \"a\": \"x\\n\",\n  \"b\": [\n    1,\n    2\n  ]\n}"
    );
    assert_eq!(value.to_value(), serde_json::from_str::<serde_json::Value>(r#"{"a":"x\n","b":[1,2]}"#).unwrap());
    assert_eq!(value.get_str("a"), Some("x\n"));
    assert_eq!(value.get_str("b"), None);
    assert_eq!(value.get("c"), None);
    // Of two members with one name the later counts.
    let twice = Json::Object(vec![
        ("a".to_string(), Json::Bool(false)),
        ("b".to_string(), Json::Null),
        ("a".to_string(), Json::Bool(true)),
    ]);
    assert_eq!(twice.compact(), r#"{"a":true,"b":null}"#);
    assert_eq!(twice.get("a"), Some(&Json::Bool(true)));
}
