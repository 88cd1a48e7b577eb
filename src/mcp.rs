use vstd::prelude::*;
use crate::json::{field, str_field, Json, JsonValue};

verus! {

/// A tool that the gateway's MCP endpoint offers.
#[derive(Debug, Clone)]
pub struct McpTool {
    pub name: String,
    pub description: String,
    pub input_schema: Json,
}

/// A JSON-RPC error that a tool call ends in.
#[derive(Debug, Clone, PartialEq, Eq)]
pub struct McpError {
    pub code: i64,
    pub message: String,
}

pub const INVALID_PARAMS: i64 = -32602;

pub const METHOD_NOT_FOUND: i64 = -32601;

/// What a tool call asks for, once its arguments are read.
#[derive(Debug, Clone)]
pub enum ToolCall {
    /// Validate `request`.
    Validate { request: Json },
    /// Validate `request`, then pass it to `target`.
    Proxy { target: String, request: Json },
}

/// A property of an input schema: `{"type": kind, "description": description}`.
pub open spec fn property(kind: Seq<char>, description: Seq<char>) -> JsonValue {
    JsonValue::Object(seq![("type"@, JsonValue::Str(kind)), ("description"@, JsonValue::Str(description))])
}

pub open spec fn validate_schema() -> JsonValue {
    JsonValue::Object(
        seq![
            ("type"@, JsonValue::Str("object"@)),
            (
                "properties"@,
                JsonValue::Object(
                    seq![("request"@, property("object"@, "The MCP request to validate"@))],
                ),
            ),
            ("required"@, JsonValue::Array(seq![JsonValue::Str("request"@)])),
        ],
    )
}

pub open spec fn proxy_schema() -> JsonValue {
    JsonValue::Object(
        seq![
            ("type"@, JsonValue::Str("object"@)),
            (
                "properties"@,
                JsonValue::Object(
                    seq![
                        ("target"@, property("string"@, "Target MCP server identifier"@)),
                        ("request"@, property("object"@, "The MCP request to proxy"@)),
                    ],
                ),
            ),
            (
                "required"@,
                JsonValue::Array(seq![JsonValue::Str("target"@), JsonValue::Str("request"@)]),
            ),
        ],
    )
}

fn text_json(s: &str) -> (r: Json)
    ensures
        r@ == JsonValue::Str(s@),
{
    Json::Str(String::from_str(s))
}

fn member(key: &str, value: Json) -> (r: (String, Json))
    ensures
        r.0@ == key@,
        r.1 == value,
{
    (String::from_str(key), value)
}

fn property_json(kind: &str, description: &str) -> (r: Json)
    ensures
        r@ == property(kind@, description@),
{
    let a = member("type", text_json(kind));
    let b = member("description", text_json(description));
    let ghost want = seq![(a.0@, a.1@), (b.0@, b.1@)];
    let r = Json::Object(vec![a, b]);
    assert(r@->Object_0 =~= want);
    r
}

/// The `validate` tool.
pub fn create_validate_tool() -> (r: McpTool)
    ensures
        r.name@ == "validate"@,
        r.input_schema@ == validate_schema(),
{
    let properties = {
        let a = member("request", property_json("object", "The MCP request to validate"));
        let ghost want = seq![(a.0@, a.1@)];
        let p = Json::Object(vec![a]);
        assert(p@->Object_0 =~= want);
        p
    };
    let required = {
        let x = text_json("request");
        let ghost want = seq![x@];
        let q = Json::Array(vec![x]);
        assert(q@->Array_0 =~= want);
        q
    };
    let a = member("type", text_json("object"));
    let b = member("properties", properties);
    let c = member("required", required);
    let ghost want = seq![(a.0@, a.1@), (b.0@, b.1@), (c.0@, c.1@)];
    let schema = Json::Object(vec![a, b, c]);
    assert(schema@->Object_0 =~= want);
    McpTool {
        name: String::from_str("validate"),
        description: String::from_str("Validate a request against Javelin Guardrails"),
        input_schema: schema,
    }
}

/// The `proxy` tool.
pub fn create_proxy_tool() -> (r: McpTool)
    ensures
        r.name@ == "proxy"@,
        r.input_schema@ == proxy_schema(),
{
    let properties = {
        let a = member("target", property_json("string", "Target MCP server identifier"));
        let b = member("request", property_json("object", "The MCP request to proxy"));
        let ghost want = seq![(a.0@, a.1@), (b.0@, b.1@)];
        let p = Json::Object(vec![a, b]);
        assert(p@->Object_0 =~= want);
        p
    };
    let required = {
        let x = text_json("target");
        let y = text_json("request");
        let ghost want = seq![x@, y@];
        let q = Json::Array(vec![x, y]);
        assert(q@->Array_0 =~= want);
        q
    };
    let a = member("type", text_json("object"));
    let b = member("properties", properties);
    let c = member("required", required);
    let ghost want = seq![(a.0@, a.1@), (b.0@, b.1@), (c.0@, c.1@)];
    let schema = Json::Object(vec![a, b, c]);
    assert(schema@->Object_0 =~= want);
    McpTool {
        name: String::from_str("proxy"),
        description: String::from_str("Proxy a validated request to a target MCP server"),
        input_schema: schema,
    }
}

/// The tools the endpoint offers, `validate` first.
pub fn proxy_tools() -> (r: Vec<McpTool>)
    ensures
        r@.len() == 2,
        r@[0].name@ == "validate"@,
        r@[1].name@ == "proxy"@,
{
    vec![create_validate_tool(), create_proxy_tool()]
}

/// The instructions the endpoint gives its clients.
pub fn generate_proxy_instructions() -> (r: String)
    ensures
        r@ == PROXY_INSTRUCTIONS@,
{
    String::from_str(PROXY_INSTRUCTIONS)
}

pub const PROXY_INSTRUCTIONS: &'static str = "
This is a Ramparts MCP Proxy with Javelin Guardrails integration.

**Available Tools:**
1. **validate** - Validate any MCP request against Javelin Guardrails security policies
2. **proxy** - Validate and proxy requests to target MCP servers

**Security Features:**
- All requests are validated against Javelin Guardrails
- Malicious or policy-violating requests are blocked
- Transparent proxying maintains MCP protocol compatibility
- Configurable fail-open/fail-closed behavior

**Usage:**
1. Use `validate` to check if a request would pass security policies
2. Use `proxy` to validate and forward requests to target MCP servers

**Licensing:**
This proxy component requires a valid Javelin API key and uses proprietary licensing.
";

/// How a call of tool `name` with `arguments` is read: `validate` needs a `request` argument,
/// `proxy` a string `target` and a `request`; any other tool is unknown.
pub open spec fn tool_call_plan(name: Seq<char>, arguments: Option<JsonValue>) -> Result<
    (bool, Seq<char>, JsonValue),
    (int, Seq<char>),
> {
    if name == "validate"@ {
        match arguments {
            Some(a) => match field(a, "request"@) {
                Some(req) => Ok((false, Seq::empty(), req)),
                None => Err((INVALID_PARAMS as int, "Missing 'request' parameter"@)),
            },
            None => Err((INVALID_PARAMS as int, "Missing 'request' parameter"@)),
        }
    } else if name == "proxy"@ {
        match arguments {
            None => Err((INVALID_PARAMS as int, "Missing arguments"@)),
            Some(a) => match str_field(a, "target"@) {
                None => Err((INVALID_PARAMS as int, "Missing 'target' parameter"@)),
                Some(t) => match field(a, "request"@) {
                    None => Err((INVALID_PARAMS as int, "Missing 'request' parameter"@)),
                    Some(req) => Ok((true, t, req)),
                },
            },
        }
    } else {
        Err((METHOD_NOT_FOUND as int, "Method not found"@))
    }
}

pub open spec fn plan_view(r: Result<ToolCall, McpError>) -> Result<
    (bool, Seq<char>, JsonValue),
    (int, Seq<char>),
> {
    match r {
        Ok(ToolCall::Validate { request }) => Ok((false, Seq::empty(), request@)),
        Ok(ToolCall::Proxy { target, request }) => Ok((true, target@, request@)),
        Err(e) => Err((e.code as int, e.message@)),
    }
}

fn invalid_params(message: &str) -> (r: McpError)
    ensures
        r.code == INVALID_PARAMS,
        r.message@ == message@,
{
    McpError { code: INVALID_PARAMS, message: String::from_str(message) }
}

/// Reads a call of tool `name` with `arguments`.
pub fn plan_tool_call(name: &str, arguments: Option<&Json>) -> (r: Result<ToolCall, McpError>)
    ensures
        plan_view(r) == tool_call_plan(
            name@,
            match arguments {
                Some(a) => Some(a@),
                None => None,
            },
        ),
{
    if crate::json::str_eq(name, "validate") {
        match arguments {
            Some(a) => match a.get("request") {
                Some(req) => Ok(ToolCall::Validate { request: req.duplicate() }),
                None => Err(invalid_params("Missing 'request' parameter")),
            },
            None => Err(invalid_params("Missing 'request' parameter")),
        }
    } else if crate::json::str_eq(name, "proxy") {
        match arguments {
            None => Err(invalid_params("Missing arguments")),
            Some(a) => match a.get_str("target") {
                None => Err(invalid_params("Missing 'target' parameter")),
                Some(t) => match a.get("request") {
                    None => Err(invalid_params("Missing 'request' parameter")),
                    Some(req) => Ok(ToolCall::Proxy { target: String::from_str(t), request: req.duplicate() }),
                },
            },
        }
    } else {
        Err(McpError { code: METHOD_NOT_FOUND, message: String::from_str("Method not found") })
    }
}

/// What the `proxy` tool reports when the Guard blocks the request.
pub const BLOCKED_TEXT: &'static str = "Request blocked by Javelin Guardrails";

/// The name of the tool that a proxied request calls: its `name` member, a string.
pub fn proxied_tool_name(request: &Json) -> (r: Result<String, McpError>)
    ensures
        r matches Ok(n) ==> str_field(request@, "name"@) == Some(n@),
        r matches Err(e) ==> str_field(request@, "name"@) is None && e.code == INVALID_PARAMS,
{
    match request.get_str("name") {
        Some(n) => Ok(String::from_str(n)),
        None => Err(invalid_params("Invalid tool request: missing string member `name`")),
    }
}

/// What the `validate` tool answers: `{"valid", "timestamp", "validated_by"}`.
pub fn validate_tool_content(valid: bool, timestamp: &str) -> (r: Json)
    ensures
        r@ == JsonValue::Object(
            seq![
                ("valid"@, JsonValue::Bool(valid)),
                ("timestamp"@, JsonValue::Str(timestamp@)),
                ("validated_by"@, JsonValue::Str("Javelin Guardrails"@)),
            ],
        ),
{
    let a = member("valid", Json::Bool(valid));
    let b = member("timestamp", text_json(timestamp));
    let c = member("validated_by", text_json("Javelin Guardrails"));
    let ghost want = seq![(a.0@, a.1@), (b.0@, b.1@), (c.0@, c.1@)];
    let r = Json::Object(vec![a, b, c]);
    assert(r@->Object_0 =~= want);
    r
}

/// Whether a tool call may go on: the Guard's answer when there is one, the fail-open policy
/// when the Guard could not be asked.
pub fn tool_call_admitted(outcome: Result<bool, String>, fail_open: bool) -> (r: bool)
    ensures
        r == match outcome {
            Ok(v) => v,
            Err(_) => fail_open,
        },
{
    match outcome {
        Ok(v) => v,
        Err(_) => fail_open,
    }
}

/// What the `proxy` tool reports once the request is passed on.
pub fn proxied_text(target: &str, tool_name: &str) -> (r: String)
    ensures
        r@ == "Request proxied to "@ + target@ + " with tool "@ + tool_name@
            + " (validated by Javelin Guardrails)"@,
{
    let mut out = String::from_str("Request proxied to ");
    out.append(target);
    out.append(" with tool ");
    out.append(tool_name);
    out.append(" (validated by Javelin Guardrails)");
    out
}

} // verus!
