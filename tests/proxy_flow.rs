use ramparts_proxy::cache::{after_wait, completion, Lookup};
use ramparts_proxy::client::JavelinClient;
use ramparts_proxy::config::ProxyConfig;
use ramparts_proxy::guard::ValidationCacheEntry;
use ramparts_proxy::json::Json;
use ramparts_proxy::proxy_flow::{proxy_step, ProxyAction, ProxyEvent, ProxyState};
use ramparts_proxy::service::ValidationService;

fn text(s: &str) -> Json {
    Json::Str(s.to_string())
}

fn obj(members: Vec<(&str, Json)>) -> Json {
    Json::Object(members.into_iter().map(|(k, v)| (k.to_string(), v)).collect())
}

fn service(fail_open: bool) -> ValidationService {
    let mut config = ProxyConfig::default();
    config.javelin.fail_open = fail_open;
    ValidationService::new(JavelinClient::with_config("k".to_string(), "http://g".to_string(), 5), config)
}

fn verdict(allowed: bool) -> Result<ValidationCacheEntry, String> {
    Ok(ValidationCacheEntry { allowed, reason: None, confidence: None, timestamp: 0 })
}

fn code(body: &Json) -> Option<i64> {
    match body.get("error").and_then(|e| e.get("code")) {
        Some(Json::Number(n)) => Some(n.micros / 1_000_000),
        _ => None,
    }
}

#[test]
fn admitted_request_is_forwarded_then_its_response_checked() {
    let svc = service(false);
    let req = obj(vec![("id", text("r1"))]);
    let (s, a) = proxy_step(&svc, &req, "srv", ProxyState::Received, ProxyEvent::Start);
    assert!(matches!(a, ProxyAction::ValidateRequest));
    let (s, a) = proxy_step(&svc, &req, "srv", s, ProxyEvent::RequestChecked { outcome: verdict(true) });
    assert!(matches!(a, ProxyAction::Forward));
    let upstream = obj(vec![("result", text("ok"))]);
    let (s, a) = proxy_step(&svc, &req, "srv", s, ProxyEvent::Forwarded { result: Ok(upstream.clone()) });
    match a {
        ProxyAction::ValidateResponse { response } => assert_eq!(response, upstream),
        _ => panic!("the response is checked next"),
    }
    let (s, a) = proxy_step(&svc, &req, "srv", s, ProxyEvent::ResponseChecked { outcome: verdict(true) });
    assert!(matches!(s, ProxyState::Emitted));
    match a {
        ProxyAction::Emit { body } => assert_eq!(body, upstream),
        _ => panic!("the upstream body is emitted"),
    }
}

#[test]
fn blocked_request_is_never_forwarded() {
    let svc = service(false);
    let req = obj(vec![("id", text("r2"))]);
    let (s, a) = proxy_step(&svc, &req, "srv", ProxyState::ValidatingRequest, ProxyEvent::RequestChecked {
        outcome: Err("down".to_string()),
    });
    assert!(matches!(s, ProxyState::Emitted));
    match a {
        ProxyAction::Emit { body } => {
            assert_eq!(code(&body), Some(-32600));
            assert_eq!(body.get("id"), Some(&text("r2")));
        }
        _ => panic!("a blocked envelope is emitted"),
    }
    let (_, a) = proxy_step(&svc, &req, "srv", ProxyState::Emitted, ProxyEvent::Forwarded { result: Ok(Json::Null) });
    assert!(matches!(a, ProxyAction::Nothing));
}

#[test]
fn upstream_failure_and_blocked_response() {
    let svc = service(true);
    let req = obj(vec![("id", text("r3"))]);
    let (_, a) = proxy_step(&svc, &req, "srv", ProxyState::Forwarding, ProxyEvent::Forwarded {
        result: Err("refused".to_string()),
    });
    match a {
        ProxyAction::Emit { body } => {
            assert_eq!(code(&body), Some(-32603));
            let data = body.get("error").and_then(|e| e.get("data")).unwrap();
            assert_eq!(data.get("error"), Some(&text("Failed to forward request to target srv: refused")));
        }
        _ => panic!("an error envelope is emitted"),
    }
    let response = obj(vec![("id", text("up")), ("result", text("secret"))]);
    let state = ProxyState::ValidatingResponse { response: response.clone() };
    let (_, a) = proxy_step(&svc, &req, "srv", state, ProxyEvent::ResponseChecked { outcome: verdict(false) });
    match a {
        ProxyAction::Emit { body } => {
            assert_eq!(code(&body), Some(-32600));
            assert_eq!(body.get("id"), Some(&text("up")));
            let reason = body.get("error").and_then(|e| e.get("data")).and_then(|d| d.get("reason")).unwrap();
            assert_eq!(reason, &text("Response blocked by Guard"));
        }
        _ => panic!("a blocked envelope on the response is emitted"),
    }
}

#[test]
fn only_decisions_are_cached_or_published() {
    let c = completion(Lookup::Publish, true);
    assert!(c.store && c.publish && c.release);
    let c = completion(Lookup::Publish, false);
    assert!(!c.store && !c.publish && c.release);
    let c = completion(Lookup::Await, true);
    assert!(c.store && !c.publish && !c.release);
    let c = completion(Lookup::Compute, false);
    assert!(!c.store);
    let c = completion(Lookup::Bypass, true);
    assert!(!c.store && !c.publish && !c.release);
}

#[test]
fn waiters_without_a_decision_ask_themselves() {
    let e = ValidationCacheEntry { allowed: true, reason: None, confidence: None, timestamp: 9 };
    assert_eq!(after_wait(Some(e)).ok().map(|e| e.timestamp), Some(9));
    assert_eq!(after_wait(None).err(), Some(Lookup::Compute));
}
