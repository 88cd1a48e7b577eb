use ramparts_proxy::forward::{forward_headers, is_forwarded_header, target_url, upstream_result};
use ramparts_proxy::json::Json;

#[test]
fn target_urls() {
    assert_eq!(target_url("http://a:1/mcp"), "http://a:1/mcp");
    assert_eq!(target_url("https://b"), "https://b");
    assert_eq!(target_url("localhost:9000"), "http://localhost:9000");
    assert_eq!(target_url("ftp://c"), "http://ftp://c");
}

#[test]
fn only_authorization_and_x_headers_pass() {
    let headers: Vec<(String, String)> = [
        ("Authorization", "Bearer t"),
        ("cookie", "c"),
        ("X-API-KEY", "k"),
        ("content-type", "text/plain"),
        ("x-trace", "1"),
        ("Host", "h"),
    ]
    .iter()
    .map(|(k, v)| (k.to_string(), v.to_string()))
    .collect();
    let kept = forward_headers(&headers);
    let names: Vec<&str> = kept.iter().map(|(k, _)| k.as_str()).collect();
    assert_eq!(names, vec!["Authorization", "X-API-KEY", "x-trace"]);
    assert!(is_forwarded_header("AUTHORIZATION"));
    assert!(!is_forwarded_header("xauth"));
}

#[test]
fn upstream_outcomes() {
    assert_eq!(
        upstream_result(false, "502 Bad Gateway", Ok(Json::Null)),
        Err("Target server returned error status: 502 Bad Gateway".to_string())
    );
    assert_eq!(upstream_result(true, "200 OK", Ok(Json::Bool(true))), Ok(Json::Bool(true)));
    assert_eq!(
        upstream_result(true, "200 OK", Err("eof".to_string())),
        Err("Failed to parse JSON response from target: eof".to_string())
    );
}
