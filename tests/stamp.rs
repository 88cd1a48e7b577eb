use ramparts_proxy::json::Json;
use ramparts_proxy::service::{validation_report, ValidationResult};
use ramparts_proxy::stamp::{new_request_id, now_rfc3339};

#[test]
fn request_ids_are_hyphenated_version_four() {
    let a = new_request_id().unwrap();
    let b = new_request_id().unwrap();
    assert_ne!(a, b);
    assert_eq!(a.len(), 36);
    let c: Vec<char> = a.chars().collect();
    for (i, ch) in c.iter().enumerate() {
        if [8, 13, 18, 23].contains(&i) {
            assert_eq!(*ch, '-');
        } else {
            assert!(ch.is_ascii_hexdigit() && !ch.is_ascii_uppercase());
        }
    }
    assert_eq!(c[14], '4');
    assert!("89ab".contains(c[19]));
}

#[test]
fn timestamps_are_rfc3339_utc() {
    let t = now_rfc3339().unwrap();
    assert!(t.ends_with("+00:00"));
    assert_eq!(&t[10..11], "T");
    assert!(chrono::DateTime::parse_from_rfc3339(&t).is_ok());
}

#[test]
fn validate_endpoint_report() {
    let r = ValidationResult {
        allowed: false,
        reason: Some("no".to_string()),
        confidence: None,
        request_id: "id".to_string(),
        timestamp: "ts".to_string(),
    };
    let j = validation_report(&r);
    assert_eq!(j.get("valid"), Some(&Json::Bool(false)));
    assert_eq!(j.get("reason"), Some(&Json::Str("no".to_string())));
    assert_eq!(j.get("confidence"), Some(&Json::Null));
    assert_eq!(j.get("request_id"), Some(&Json::Str("id".to_string())));
    assert_eq!(j.get("timestamp"), Some(&Json::Str("ts".to_string())));
}
