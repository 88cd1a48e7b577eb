use ramparts_proxy::client::JavelinClient;
use ramparts_proxy::config::ProxyConfig;
use ramparts_proxy::guard::ValidationCacheEntry;
use ramparts_proxy::json::{Json, JsonNumber};
use ramparts_proxy::service::{
    apply_policy, create_success_response, extract_request_id, is_jsonrpc_request, ValidationResult,
    ValidationService,
};

fn text(s: &str) -> Json {
    Json::Str(s.to_string())
}

fn obj(members: Vec<(&str, Json)>) -> Json {
    Json::Object(members.into_iter().map(|(k, v)| (k.to_string(), v)).collect())
}

fn service(fail_open: bool) -> ValidationService {
    let mut config = ProxyConfig::default();
    config.javelin.api_key = "test-key-123".to_string();
    config.javelin.fail_open = fail_open;
    ValidationService::new(JavelinClient::with_config("k".to_string(), "http://g".to_string(), 5), config)
}

fn entry(allowed: bool, confidence: Option<(&str, i64)>) -> ValidationCacheEntry {
    ValidationCacheEntry {
        allowed,
        reason: None,
        confidence: confidence.map(|(t, m)| JsonNumber { text: t.to_string(), micros: m }),
        timestamp: 0,
    }
}

fn error_code(envelope: &Json) -> Option<i64> {
    match envelope.get("error").and_then(|e| e.get("code")) {
        Some(Json::Number(n)) => Some(n.micros / 1_000_000),
        _ => None,
    }
}

#[test]
fn test_validation_service_helpers() {
    let request = obj(vec![("id", text("test-123")), ("method", text("call_tool"))]);
    assert_eq!(extract_request_id(&request), Some(text("test-123")));
    assert!(is_jsonrpc_request(&obj(vec![("id", text("test")), ("jsonrpc", text("2.0"))])));
    assert!(!is_jsonrpc_request(&obj(vec![("method", text("test"))])));
    let response = create_success_response(Some(text("test-123")), obj(vec![("result", text("success"))]));
    assert_eq!(response.get("jsonrpc"), Some(&text("2.0")));
    assert_eq!(response.get("id"), Some(&text("test-123")));
    assert_eq!(response.get("result").and_then(|r| r.get("result")), Some(&text("success")));
}

#[test]
fn policy_on_guard_decisions() {
    let r = apply_policy(Ok(entry(true, None)), false, "id".to_string(), "t".to_string());
    assert!(r.allowed);
    assert_eq!(r.reason.as_deref(), Some("Request approved by Guard"));
    assert_eq!(r.confidence.as_ref().map(|c| c.micros), Some(900_000));
    let r = apply_policy(Ok(entry(true, Some(("0.92", 920_000)))), false, "id".to_string(), "t".to_string());
    assert_eq!(r.confidence.as_ref().map(|c| c.text.as_str()), Some("0.92"));
    let r = apply_policy(Ok(entry(false, None)), true, "id".to_string(), "t".to_string());
    assert!(!r.allowed);
    assert_eq!(r.reason.as_deref(), Some("Request blocked by Guard"));
    assert_eq!(r.confidence.as_ref().map(|c| c.micros), Some(100_000));
    assert_eq!(r.request_id, "id");
    assert_eq!(r.timestamp, "t");
}

#[test]
fn fail_open_and_fail_closed_are_exclusive() {
    for msg in ["connection refused", "timeout", ""] {
        let open = apply_policy(Err(msg.to_string()), true, String::new(), String::new());
        assert!(open.allowed);
        assert_eq!(open.reason.unwrap(), format!("Validation service unavailable, failing open: {msg}"));
        assert_eq!(open.confidence.as_ref().map(|c| c.micros), Some(0));
        let closed = apply_policy(Err(msg.to_string()), false, String::new(), String::new());
        assert!(!closed.allowed);
        assert_eq!(closed.reason.unwrap(), format!("Validation service unavailable, failing closed: {msg}"));
    }
}

#[test]
fn scenario_guard_http_error_fail_closed() {
    let svc = service(false);
    let request = obj(vec![("id", Json::Number(JsonNumber { text: "42".to_string(), micros: 42_000_000 })), ("jsonrpc", text("2.0"))]);
    let outcome = Err(JavelinClient::guard_status_error("500 Internal Server Error"));
    let verdict = svc.validate_request(Err(JavelinClient::guard_status_error("500 Internal Server Error")));
    assert!(!verdict.allowed);
    assert!(verdict.reason.as_deref().unwrap().starts_with("Validation service unavailable, failing closed: "));
    assert_eq!(verdict.request_id.len(), 36);
    match svc.validate_and_handle(&request, outcome) {
        Ok(_) => panic!("a failing Guard must block under fail-closed"),
        Err(envelope) => {
            assert_eq!(error_code(&envelope), Some(-32600));
            assert_eq!(envelope.get("id"), request.get("id"));
            assert_eq!(envelope.get("jsonrpc"), Some(&text("2.0")));
        }
    }
}

#[test]
fn validate_and_handle_admits_allowed() {
    let svc = service(true);
    let request = obj(vec![("id", text("a"))]);
    let r = svc.validate_and_handle(&request, Ok(entry(true, None))).ok().unwrap();
    assert!(r.allowed);
}

#[test]
fn envelopes_keep_the_request_id() {
    let svc = service(true);
    let result = ValidationResult {
        allowed: false,
        reason: Some("r".to_string()),
        confidence: None,
        request_id: "rid".to_string(),
        timestamp: "ts".to_string(),
    };
    for id in [text("abc"), Json::Null, Json::Number(JsonNumber { text: "7".to_string(), micros: 7_000_000 })] {
        let request = obj(vec![("id", id.duplicate()), ("method", text("m"))]);
        let blocked = svc.create_blocked_response(&request, &result);
        assert_eq!(blocked.get("id"), Some(&id));
        let data = blocked.get("error").and_then(|e| e.get("data")).unwrap();
        assert_eq!(data.get("reason"), Some(&text("r")));
        assert_eq!(data.get("confidence"), Some(&Json::Null));
        assert_eq!(data.get("request_id"), Some(&text("rid")));
        assert_eq!(data.get("blocked_by"), Some(&text("ramparts-proxy")));
        let failed = svc.create_error_response(&request, "boom");
        assert_eq!(failed.get("id"), Some(&id));
        assert_eq!(error_code(&failed), Some(-32603));
        let data = failed.get("error").and_then(|e| e.get("data")).unwrap();
        assert_eq!(data.get("error"), Some(&text("boom")));
        let stamp = data.get("timestamp").and_then(|t| t.as_str()).unwrap();
        assert!(chrono::DateTime::parse_from_rfc3339(stamp).is_ok());
    }
    let no_id = obj(vec![("method", text("m"))]);
    assert_eq!(svc.create_blocked_response(&no_id, &result).get("id"), Some(&Json::Null));
    let at = ValidationService::error_response_at(&no_id, "x", "2024-01-01T00:00:00+00:00");
    let data = at.get("error").and_then(|e| e.get("data")).unwrap();
    assert_eq!(data.get("timestamp"), Some(&text("2024-01-01T00:00:00+00:00")));
    assert_eq!(at.get("error").and_then(|e| e.get("message")), Some(&text("Internal validation error")));
}

#[test]
fn response_verdicts_say_response() {
    let svc = service(true);
    let r = svc.validate_response(Ok(entry(false, None)));
    assert_eq!(r.reason.as_deref(), Some("Response blocked by Guard"));
    let r = svc.validate_response(Err("x".to_string()));
    assert_eq!(r.reason.as_deref(), Some("Validation service unavailable, failing open: x"));
}
