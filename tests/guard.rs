use ramparts_proxy::client::JavelinClient;
use ramparts_proxy::guard::ValidationCacheEntry;
use ramparts_proxy::json::{Json, JsonNumber};

fn text(s: &str) -> Json {
    Json::Str(s.to_string())
}

fn num(t: &str, micros: i64) -> Json {
    Json::Number(JsonNumber { text: t.to_string(), micros })
}

fn obj(members: Vec<(&str, Json)>) -> Json {
    Json::Object(members.into_iter().map(|(k, v)| (k.to_string(), v)).collect())
}

fn parse(body_text: &str, body: Option<&Json>) -> ValidationCacheEntry {
    JavelinClient::parse_guard_response(body_text, body, 7)
}

fn conf(e: &ValidationCacheEntry) -> Option<(String, i64)> {
    e.confidence.as_ref().map(|n| (n.text.clone(), n.micros))
}

#[test]
fn scenario_categorical_threat() {
    let body = obj(vec![
        ("categories", obj(vec![("prompt_injection", text("true"))])),
        ("category_scores", obj(vec![("prompt_injection", num("0.87", 870_000))])),
    ]);
    let e = parse("{}", Some(&body));
    assert!(!e.allowed);
    assert_eq!(e.reason.as_deref(), Some("Threats detected: prompt_injection"));
    assert_eq!(conf(&e), Some(("0.87".to_string(), 870_000)));
    assert_eq!(e.timestamp, 7);
}

#[test]
fn scenario_safe_form() {
    let body = obj(vec![("confidence", num("0.92", 920_000)), ("safe", Json::Bool(true))]);
    let e = parse("{}", Some(&body));
    assert!(e.allowed);
    assert_eq!(conf(&e), Some(("0.92".to_string(), 920_000)));
    assert_eq!(e.reason, None);
}

#[test]
fn categorical_takes_greatest_flagged_score() {
    let body = obj(vec![
        ("categories", obj(vec![("a", Json::Bool(true)), ("b", text("false")), ("c", text("true"))])),
        ("category_scores", obj(vec![("a", num("0.4", 400_000)), ("b", num("0.99", 990_000)), ("c", num("0.6", 600_000))])),
    ]);
    let e = parse("{}", Some(&body));
    assert!(!e.allowed);
    assert_eq!(e.reason.as_deref(), Some("Threats detected: a, c"));
    assert_eq!(conf(&e), Some(("0.6".to_string(), 600_000)));
}

#[test]
fn categorical_without_threats() {
    let with_scores = obj(vec![
        ("categories", obj(vec![("a", Json::Bool(false))])),
        ("category_scores", obj(vec![("a", num("0.2", 200_000))])),
    ]);
    let e = parse("{}", Some(&with_scores));
    assert!(e.allowed);
    assert_eq!(e.reason.as_deref(), Some("No threats detected"));
    assert_eq!(conf(&e), Some(("0.0".to_string(), 0)));
    let without_scores = obj(vec![("categories", obj(vec![("a", text("yes"))]))]);
    let e = parse("{}", Some(&without_scores));
    assert!(e.allowed);
    assert_eq!(conf(&e), None);
}

#[test]
fn allowed_form() {
    let body = obj(vec![("allowed", Json::Bool(false)), ("reason", text("nope"))]);
    let e = parse("{}", Some(&body));
    assert!(!e.allowed);
    assert_eq!(e.reason.as_deref(), Some("nope"));
    assert_eq!(conf(&e), None);
}

#[test]
fn result_form_reads_any_case() {
    let body = obj(vec![("result", text("SAFE"))]);
    let e = parse("{}", Some(&body));
    assert!(e.allowed);
    assert_eq!(e.reason.as_deref(), Some("Guard result: SAFE"));
    let body = obj(vec![("confidence", num("0.3", 300_000)), ("result", text("Denied"))]);
    let e = parse("{}", Some(&body));
    assert!(!e.allowed);
    assert_eq!(conf(&e), Some(("0.3".to_string(), 300_000)));
    assert!(JavelinClient::result_allows("allowed"));
    assert!(!JavelinClient::result_allows("ALLOWED"));
}

#[test]
fn bare_boolean_body() {
    let e = parse("true", Some(&Json::Bool(true)));
    assert!(e.allowed);
    assert_eq!(conf(&e), Some(("0.9".to_string(), 900_000)));
    assert_eq!(e.reason.as_deref(), Some("Boolean response from Guard API"));
    let e = parse("false", Some(&Json::Bool(false)));
    assert!(!e.allowed);
    assert_eq!(conf(&e), Some(("0.1".to_string(), 100_000)));
}

#[test]
fn plain_text_bodies() {
    let e = parse("Request APPROVED", None);
    assert!(e.allowed);
    assert_eq!(e.reason.as_deref(), Some("Guard text response: Request APPROVED"));
    assert_eq!(conf(&e), Some(("0.7".to_string(), 700_000)));
    let e = parse("Rejected", None);
    assert!(!e.allowed);
    let e = parse("zzz", None);
    assert!(e.allowed);
    assert_eq!(e.reason.as_deref(), Some("Unknown Guard response: zzz"));
    assert_eq!(conf(&e), Some(("0.5".to_string(), 500_000)));
    // a JSON value of no known shape is read as text
    let e = parse("[1]", Some(&Json::Array(vec![num("1", 1_000_000)])));
    assert_eq!(e.reason.as_deref(), Some("Unknown Guard response: [1]"));
    let long = "q".repeat(300);
    let e = parse(&long, None);
    assert_eq!(e.reason, Some(format!("Unknown Guard response: {}", "q".repeat(200))));
    let e = JavelinClient::plain_text_entry("X", "unsafe", 3);
    assert!(e.allowed, "\"unsafe\" holds \"safe\"");
    assert_eq!(e.timestamp, 3);
}

#[test]
fn status_error_message() {
    assert_eq!(JavelinClient::guard_status_error("500 Internal Server Error"), "Guard API error: 500 Internal Server Error");
}
