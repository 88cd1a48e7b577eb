use ramparts_proxy::json::Json;
use ramparts_proxy::mcp::{
    create_proxy_tool, create_validate_tool, generate_proxy_instructions, plan_tool_call, proxied_text,
    proxied_tool_name, proxy_tools, tool_call_admitted, validate_tool_content, ToolCall, INVALID_PARAMS,
    METHOD_NOT_FOUND,
};

fn text(s: &str) -> Json {
    Json::Str(s.to_string())
}

fn obj(members: Vec<(&str, Json)>) -> Json {
    Json::Object(members.into_iter().map(|(k, v)| (k.to_string(), v)).collect())
}

#[test]
fn tool_schemas() {
    let v = create_validate_tool();
    assert_eq!(v.name, "validate");
    assert_eq!(v.input_schema.get("type"), Some(&text("object")));
    assert_eq!(v.input_schema.get("required"), Some(&Json::Array(vec![text("request")])));
    let request = v.input_schema.get("properties").and_then(|p| p.get("request")).unwrap();
    assert_eq!(request.get("type"), Some(&text("object")));
    let p = create_proxy_tool();
    assert_eq!(p.name, "proxy");
    assert_eq!(p.input_schema.get("required"), Some(&Json::Array(vec![text("target"), text("request")])));
    let target = p.input_schema.get("properties").and_then(|p| p.get("target")).unwrap();
    assert_eq!(target.get("type"), Some(&text("string")));
    let names: Vec<String> = proxy_tools().into_iter().map(|t| t.name).collect();
    assert_eq!(names, vec!["validate".to_string(), "proxy".to_string()]);
    assert!(generate_proxy_instructions().contains("**Available Tools:**"));
}

#[test]
fn reading_tool_calls() {
    let req = obj(vec![("name", text("read_file"))]);
    match plan_tool_call("validate", Some(&obj(vec![("request", req.clone())]))) {
        Ok(ToolCall::Validate { request }) => assert_eq!(request, req),
        _ => panic!("validate with a request"),
    }
    let e = plan_tool_call("validate", None).err().unwrap();
    assert_eq!((e.code, e.message.as_str()), (INVALID_PARAMS, "Missing 'request' parameter"));
    let e = plan_tool_call("proxy", None).err().unwrap();
    assert_eq!(e.message, "Missing arguments");
    let e = plan_tool_call("proxy", Some(&obj(vec![("request", req.clone())]))).err().unwrap();
    assert_eq!(e.message, "Missing 'target' parameter");
    let e = plan_tool_call("proxy", Some(&obj(vec![("target", text("t"))]))).err().unwrap();
    assert_eq!(e.message, "Missing 'request' parameter");
    match plan_tool_call("proxy", Some(&obj(vec![("request", req.clone()), ("target", text("srv"))]))) {
        Ok(ToolCall::Proxy { target, request }) => {
            assert_eq!(target, "srv");
            assert_eq!(request, req);
        }
        _ => panic!("proxy with target and request"),
    }
    assert_eq!(plan_tool_call("other", None).err().unwrap().code, METHOD_NOT_FOUND);
}

#[test]
fn tool_call_results() {
    let c = validate_tool_content(true, "now");
    assert_eq!(c.get("valid"), Some(&Json::Bool(true)));
    assert_eq!(c.get("timestamp"), Some(&text("now")));
    assert_eq!(c.get("validated_by"), Some(&text("Javelin Guardrails")));
    assert!(tool_call_admitted(Ok(true), false));
    assert!(!tool_call_admitted(Ok(false), true));
    assert!(tool_call_admitted(Err("down".to_string()), true));
    assert!(!tool_call_admitted(Err("down".to_string()), false));
    assert_eq!(
        proxied_text("srv", "read_file"),
        "Request proxied to srv with tool read_file (validated by Javelin Guardrails)"
    );
    assert_eq!(proxied_tool_name(&obj(vec![("name", text("read_file"))])).ok(), Some("read_file".to_string()));
    assert_eq!(proxied_tool_name(&obj(vec![])).err().map(|e| e.code), Some(INVALID_PARAMS));
}
