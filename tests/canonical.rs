use ramparts_proxy::cache::{CacheConfig, ValidationCache};
use ramparts_proxy::client::JavelinClient;
use ramparts_proxy::compact::to_compact;
use ramparts_proxy::json::{Json, JsonNumber};
use ramparts_proxy::utf8::truncate_utf8;
use sha2::Digest;

fn text(s: &str) -> Json {
    Json::Str(s.to_string())
}

fn obj(members: Vec<(&str, Json)>) -> Json {
    Json::Object(members.into_iter().map(|(k, v)| (k.to_string(), v)).collect())
}

fn call(name: &str, args: Json) -> Json {
    obj(vec![("params", obj(vec![("arguments", args), ("name", text(name))]))])
}

#[test]
fn test_optimized_request_formatting() {
    let read_request = call("read_file", obj(vec![("path", text("/home/user/document.txt"))]));
    let formatted = JavelinClient::format_request_for_guard(&read_request);
    assert_eq!(formatted, "read file /home/user/document.txt");

    let write_request = call(
        "write_file",
        obj(vec![
            ("content", text("This is a very long content that should be truncated after 50 characters to avoid overwhelming the security system")),
            ("path", text("/home/user/output.txt")),
        ]),
    );
    let formatted = JavelinClient::format_request_for_guard(&write_request);
    assert!(formatted.starts_with("write file /home/user/output.txt with content:"));
    assert!(formatted.contains("This is a very long content that should be trunca"));

    let cmd_request = call("execute_command", obj(vec![("command", text("ls -la"))]));
    let formatted = JavelinClient::format_request_for_guard(&cmd_request);
    assert_eq!(formatted, "execute command: ls -la");

    let db_request = call("database_query", obj(vec![("query", text("SELECT * FROM users"))]));
    let formatted = JavelinClient::format_request_for_guard(&db_request);
    assert_eq!(formatted, "run database query: SELECT * FROM users");

    let net_request = call("network_request", obj(vec![("url", text("https://api.example.com/data"))]));
    let formatted = JavelinClient::format_request_for_guard(&net_request);
    assert_eq!(formatted, "make network request to: https://api.example.com/data");

    let unknown_request = call("unknown_tool", obj(vec![("param1", text("value1"))]));
    let formatted = JavelinClient::format_request_for_guard(&unknown_request);
    assert!(formatted.starts_with("use tool unknown_tool with arguments:"));
}

#[test]
fn test_extract_tool_info() {
    let request = call("read_file", obj(vec![("path", text("/test/file.txt"))]));
    let result = JavelinClient::extract_tool_info(&request);
    assert!(result.is_some());
    let (name, args) = result.unwrap();
    assert_eq!(name, "read_file");
    assert_eq!(args.get("path").unwrap().as_str().unwrap(), "/test/file.txt");

    let invalid_request = obj(vec![("method", text("call_tool"))]);
    assert!(JavelinClient::extract_tool_info(&invalid_request).is_none());

    let no_name_request = obj(vec![("params", obj(vec![("arguments", obj(vec![("path", text("/test/file.txt"))]))]))]);
    assert!(JavelinClient::extract_tool_info(&no_name_request).is_none());
}

#[test]
fn test_format_helpers() {
    let args = obj(vec![
        ("command", text("echo hello")),
        ("path", text("/test/file.txt")),
        ("url", text("https://example.com")),
    ]);
    assert_eq!(JavelinClient::format_with_path("read file", &args), "read file /test/file.txt");
    assert_eq!(JavelinClient::format_with_field("execute command", "command", &args), "execute command: echo hello");
    assert_eq!(JavelinClient::format_with_field("make request to", "url", &args), "make request to: https://example.com");
    let empty_args = obj(vec![]);
    assert_eq!(JavelinClient::format_with_path("read file", &empty_args), "read file");
}

#[test]
fn scenario_read_file_utterance() {
    let req = call("read_file", obj(vec![("path", text("/home/user/doc.txt"))]));
    assert_eq!(JavelinClient::format_request_for_guard(&req), "read file /home/user/doc.txt");
}

#[test]
fn scenario_execute_command_utterance() {
    let req = call("execute_command", obj(vec![("command", text("ls -la"))]));
    assert_eq!(JavelinClient::format_request_for_guard(&req), "execute command: ls -la");
}

#[test]
fn aliases_share_templates() {
    let args = obj(vec![("path", text("/a"))]);
    assert_eq!(JavelinClient::format_tool_request("file_read", &args), "read file /a");
    assert_eq!(JavelinClient::format_tool_request("file_delete", &args), "delete file /a");
    assert_eq!(JavelinClient::format_tool_request("delete_file", &obj(vec![])), "delete file");
    let cmd = obj(vec![("command", text("id"))]);
    assert_eq!(JavelinClient::format_tool_request("run_command", &cmd), "execute command: id");
    assert_eq!(JavelinClient::format_tool_request("shell_exec", &cmd), "execute command: id");
    assert_eq!(JavelinClient::format_tool_request("shell_exec", &obj(vec![])), "execute command");
    let q = obj(vec![("query", text("DROP"))]);
    assert_eq!(JavelinClient::format_tool_request("sql_query", &q), "run database query: DROP");
    let u = obj(vec![("url", text("http://x"))]);
    assert_eq!(JavelinClient::format_tool_request("http_request", &u), "make network request to: http://x");
    assert_eq!(JavelinClient::format_tool_request("http_request", &obj(vec![])), "make network request to");
}

#[test]
fn write_file_variants() {
    let no_path = obj(vec![("content", text("x"))]);
    assert_eq!(JavelinClient::format_tool_request("file_write", &no_path), "write file with content");
    let no_content = obj(vec![("path", text("/p"))]);
    assert_eq!(JavelinClient::format_tool_request("write_file", &no_content), "write file /p with content: data");
    let long = "a".repeat(60);
    let with = obj(vec![("content", text(&long)), ("path", text("/p"))]);
    assert_eq!(
        JavelinClient::format_tool_request("write_file", &with),
        format!("write file /p with content: {}", "a".repeat(50))
    );
}

#[test]
fn preview_never_splits_a_character() {
    // 49 ASCII bytes, then a two-byte character that would end at byte 51.
    let content = format!("{}é tail", "b".repeat(49));
    let cut = truncate_utf8(&content, 50);
    assert_eq!(cut, "b".repeat(49));
    assert!(std::str::from_utf8(cut.as_bytes()).is_ok());
    let exact = format!("{}é", "b".repeat(48));
    assert_eq!(truncate_utf8(&exact, 50), exact);
    assert_eq!(truncate_utf8("", 50), "");
    assert_eq!(truncate_utf8("日本語", 7), "日本");
}

#[test]
fn generic_tool_renders_compact_json() {
    let args = obj(vec![
        ("a", Json::Number(JsonNumber { text: "1".to_string(), micros: 1_000_000 })),
        ("b", Json::Array(vec![Json::Bool(true), Json::Null, text("q\"\\\n\u{1}")])),
    ]);
    assert_eq!(
        JavelinClient::format_tool_request("other", &args),
        "use tool other with arguments: {\"a\":1,\"b\":[true,null,\"q\\\"\\\\\\n\\u0001\"]}"
    );
}

#[test]
fn malformed_requests_fall_back_to_perform_action() {
    let no_params = obj(vec![("method", text("x"))]);
    assert_eq!(JavelinClient::format_request_for_guard(&no_params), "perform action: {\"method\":\"x\"}");
    let args_not_object = obj(vec![("params", obj(vec![("arguments", text("s")), ("name", text("read_file"))]))]);
    assert_eq!(
        JavelinClient::format_request_for_guard(&args_not_object),
        "perform action: {\"params\":{\"arguments\":\"s\",\"name\":\"read_file\"}}"
    );
}

#[test]
fn compact_rendering_matches_serde_json() {
    let v = obj(vec![("k", Json::Array(vec![text("tab\there"), Json::Bool(false)])), ("z", Json::Null)]);
    let ours = to_compact(&v);
    let mut m = serde_json::Map::new();
    m.insert(
        "k".to_string(),
        serde_json::Value::Array(vec![serde_json::Value::String("tab\there".to_string()), serde_json::Value::Bool(false)]),
    );
    m.insert("z".to_string(), serde_json::Value::Null);
    let theirs = serde_json::to_string(&serde_json::Value::Object(m)).unwrap();
    assert_eq!(ours, theirs);
    assert_eq!(ours, "{\"k\":[\"tab\\there\",false],\"z\":null}");
}

#[test]
fn utterance_is_deterministic_and_ignores_member_order() {
    let a = call("read_file", obj(vec![("mode", text("r")), ("path", text("/x"))]));
    let b = call("read_file", obj(vec![("path", text("/x")), ("mode", text("r"))]));
    assert_eq!(JavelinClient::format_request_for_guard(&a), JavelinClient::format_request_for_guard(&a.duplicate()));
    assert_eq!(JavelinClient::format_request_for_guard(&a), JavelinClient::format_request_for_guard(&b));
}

#[test]
fn cache_key_is_stable_and_hashed() {
    let cache = ValidationCache::new(CacheConfig::default());
    let req = call("read_file", obj(vec![("path", text("/x"))]));
    let k1 = cache.generate_cache_key(&req);
    let k2 = cache.generate_cache_key(&req.duplicate());
    assert_eq!(k1, k2);
    let compact = to_compact(&req);
    let expected = format!("req_{:x}", sha2::Sha256::digest(compact.as_bytes()));
    assert_eq!(k1, expected);
    assert_eq!(k1.len(), 4 + 64);
    let plain = ValidationCache::new(CacheConfig { hash_sensitive_data: false, ..CacheConfig::default() });
    assert_eq!(plain.generate_cache_key(&req), format!("req_{}", compact));
}

#[test]
fn member_order_never_changes_the_utterance() {
    let ab = call("other", obj(vec![("a", text("1")), ("b", text("2"))]));
    let ba = call("other", obj(vec![("b", text("2")), ("a", text("1"))]));
    assert_eq!(JavelinClient::format_request_for_guard(&ab), JavelinClient::format_request_for_guard(&ba));
    assert_eq!(
        JavelinClient::format_request_for_guard(&ba),
        "use tool other with arguments: {\"a\":\"1\",\"b\":\"2\"}"
    );
    let nested = obj(vec![("z", obj(vec![("y", Json::Null), ("x", Json::Bool(true))])), ("m", text("é"))]);
    assert_eq!(
        JavelinClient::format_request_for_guard(&nested),
        "perform action: {\"m\":\"é\",\"z\":{\"x\":true,\"y\":null}}"
    );
    let cache = ValidationCache::new(CacheConfig::default());
    assert_eq!(cache.generate_cache_key(&ab), cache.generate_cache_key(&ba));
}

#[test]
fn sorted_rendering_matches_serde_json_for_unsorted_input() {
    let v = obj(vec![("zeta", Json::Null), ("Alpha", text("x")), ("alpha", Json::Array(vec![])), ("", Json::Bool(false))]);
    let mut m = serde_json::Map::new();
    m.insert("zeta".to_string(), serde_json::Value::Null);
    m.insert("Alpha".to_string(), serde_json::Value::String("x".to_string()));
    m.insert("alpha".to_string(), serde_json::Value::Array(vec![]));
    m.insert("".to_string(), serde_json::Value::Bool(false));
    assert_eq!(to_compact(&v), serde_json::to_string(&serde_json::Value::Object(m)).unwrap());
}
