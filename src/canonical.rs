use vstd::prelude::*;
use crate::client::JavelinClient;
use crate::compact::{compact, to_compact};
use crate::json::{field, str_eq, str_field, Json, JsonValue};
use crate::compact::lemma_compact_ignores_member_order;
use crate::order::{distinct_member_keys, lemma_same_members_same_lookup};
use crate::utf8::{fitting, lemma_fitting, truncate_utf8, utf8_len};

verus! {

/// Largest number of bytes of written content that an utterance shows.
pub const PREVIEW_BYTES: usize = 50;

/// `action`, followed by the `path` argument when there is one.
pub open spec fn with_path(action: Seq<char>, args: JsonValue) -> Seq<char> {
    match str_field(args, "path"@) {
        Some(p) => action + " "@ + p,
        None => action,
    }
}

/// `action: value` for the string argument `key`, or `action` alone.
pub open spec fn with_field(action: Seq<char>, key: Seq<char>, args: JsonValue) -> Seq<char> {
    match str_field(args, key) {
        Some(v) => action + ": "@ + v,
        None => action,
    }
}

/// What a write shows of its content: at most `PREVIEW_BYTES` bytes of whole characters.
pub open spec fn preview_of(args: JsonValue) -> Seq<char> {
    match str_field(args, "content"@) {
        Some(c) => fitting(c, PREVIEW_BYTES as nat),
        None => "data"@,
    }
}

pub open spec fn write_text(args: JsonValue) -> Seq<char> {
    match str_field(args, "path"@) {
        Some(p) => "write file "@ + p + " with content: "@ + preview_of(args),
        None => "write file with content"@,
    }
}

/// The utterance for a call of tool `name` with arguments `args`.
pub open spec fn tool_text(name: Seq<char>, args: JsonValue) -> Seq<char> {
    if name == "read_file"@ || name == "file_read"@ {
        with_path("read file"@, args)
    } else if name == "write_file"@ || name == "file_write"@ {
        write_text(args)
    } else if name == "delete_file"@ || name == "file_delete"@ {
        with_path("delete file"@, args)
    } else if name == "execute_command"@ || name == "run_command"@ || name == "shell_exec"@ {
        with_field("execute command"@, "command"@, args)
    } else if name == "database_query"@ || name == "sql_query"@ {
        with_field("run database query"@, "query"@, args)
    } else if name == "network_request"@ || name == "http_request"@ {
        with_field("make network request to"@, "url"@, args)
    } else {
        "use tool "@ + name + " with arguments: "@ + compact(args)
    }
}

/// The tool name and the argument object of a tool call: `params.name` must be a string
/// and `params.arguments` an object.
pub open spec fn tool_call(req: JsonValue) -> Option<(Seq<char>, JsonValue)> {
    match field(req, "params"@) {
        Some(params) => match (str_field(params, "name"@), field(params, "arguments"@)) {
            (Some(name), Some(args)) => if args is Object {
                Some((name, args))
            } else {
                None
            },
            _ => None,
        },
        None => None,
    }
}

/// The natural-language utterance that the Guard is asked about.
pub open spec fn canonical_text(req: JsonValue) -> Seq<char> {
    match tool_call(req) {
        Some((name, args)) => tool_text(name, args),
        None => "perform action: "@ + compact(req),
    }
}

/// The utterance is a function of the request's content: equal requests, such as a request and
/// its copy, get the same utterance.
pub proof fn lemma_canonical_deterministic(a: JsonValue, b: JsonValue)
    requires
        a == b,
    ensures
        canonical_text(a) == canonical_text(b),
{
}

/// Whether two values have the same members under every key.
pub open spec fn same_members(a: JsonValue, b: JsonValue) -> bool {
    forall|k: Seq<char>| #[trigger] field(a, k) == field(b, k)
}

/// Whether the utterance for tool `name` comes from a template that reads arguments by name.
pub open spec fn named_tool(name: Seq<char>) -> bool {
    ||| name == "read_file"@
    ||| name == "file_read"@
    ||| name == "write_file"@
    ||| name == "file_write"@
    ||| name == "delete_file"@
    ||| name == "file_delete"@
    ||| name == "execute_command"@
    ||| name == "run_command"@
    ||| name == "shell_exec"@
    ||| name == "database_query"@
    ||| name == "sql_query"@
    ||| name == "network_request"@
    ||| name == "http_request"@
}

/// For a tool with a template, the order in which the arguments' members come does not change
/// the utterance: only what each name holds counts.
pub proof fn lemma_member_order_irrelevant(name: Seq<char>, a: JsonValue, b: JsonValue)
    requires
        named_tool(name),
        same_members(a, b),
    ensures
        tool_text(name, a) == tool_text(name, b),
{
    assert(field(a, "path"@) == field(b, "path"@));
    assert(field(a, "content"@) == field(b, "content"@));
    assert(field(a, "command"@) == field(b, "command"@));
    assert(field(a, "query"@) == field(b, "query"@));
    assert(field(a, "url"@) == field(b, "url"@));
}

/// The order in which a tool call's arguments were written never changes its utterance: two
/// argument objects that hold the same members, each key once, give the same utterance for
/// every tool.
pub proof fn lemma_utterance_ignores_member_order(
    name: Seq<char>,
    a: Seq<(Seq<char>, JsonValue)>,
    b: Seq<(Seq<char>, JsonValue)>,
)
    requires
        distinct_member_keys(a),
        distinct_member_keys(b),
        forall|x: (Seq<char>, JsonValue)| #[trigger] a.contains(x) <==> b.contains(x),
    ensures
        tool_text(name, JsonValue::Object(a)) == tool_text(name, JsonValue::Object(b)),
{
    lemma_compact_ignores_member_order(a, b);
    lemma_same_members_same_lookup(a, b, "path"@);
    lemma_same_members_same_lookup(a, b, "content"@);
    lemma_same_members_same_lookup(a, b, "command"@);
    lemma_same_members_same_lookup(a, b, "query"@);
    lemma_same_members_same_lookup(a, b, "url"@);
}

/// The content shown for a write is a run of whole leading characters of the content, so it is
/// valid text; it takes at most `PREVIEW_BYTES` bytes, and no longer such run does.
pub proof fn lemma_preview_fits(content: Seq<char>)
    ensures
        ({
            let p = fitting(content, PREVIEW_BYTES as nat);
            &&& p == content.subrange(0, p.len() as int)
            &&& utf8_len(p) <= PREVIEW_BYTES
            &&& p.len() < content.len() ==> utf8_len(content.subrange(0, p.len() as int + 1)) > PREVIEW_BYTES
        }),
{
    lemma_fitting(content, PREVIEW_BYTES as nat);
}

fn concat2(a: &str, b: &str) -> (r: String)
    ensures
        r@ == a@ + b@,
{
    let mut out = String::from_str(a);
    out.append(b);
    out
}

fn concat3(a: &str, b: &str, c: &str) -> (r: String)
    ensures
        r@ == a@ + b@ + c@,
{
    let mut out = String::from_str(a);
    out.append(b);
    out.append(c);
    out
}

impl JavelinClient {
    /// The tool name and arguments of a tool call.
    pub fn extract_tool_info(content: &Json) -> (r: Option<(&str, &Json)>)
        ensures
            r matches Some((n, a)) ==> tool_call(content@) == Some((n@, a@)),
            r is None ==> tool_call(content@) is None,
    {
        let params = match content.get("params") {
            Some(p) => p,
            None => return None,
        };
        let name = match params.get_str("name") {
            Some(n) => n,
            None => return None,
        };
        let args = match params.get("arguments") {
            Some(a) => a,
            None => return None,
        };
        match args {
            Json::Object(_) => Some((name, args)),
            _ => None,
        }
    }

    /// `action`, followed by the `path` argument when there is one.
    pub fn format_with_path(action: &str, args: &Json) -> (r: String)
        ensures
            r@ == with_path(action@, args@),
    {
        match args.get_str("path") {
            Some(p) => concat3(action, " ", p),
            None => String::from_str(action),
        }
    }

    /// `action: value` for the string argument `field`, or `action` alone.
    pub fn format_with_field(action: &str, field: &str, args: &Json) -> (r: String)
        ensures
            r@ == with_field(action@, field@, args@),
    {
        match args.get_str(field) {
            Some(v) => concat3(action, ": ", v),
            None => String::from_str(action),
        }
    }

    fn format_write(args: &Json) -> (r: String)
        ensures
            r@ == write_text(args@),
    {
        match args.get_str("path") {
            Some(path) => {
                let preview = match args.get_str("content") {
                    Some(c) => truncate_utf8(c, PREVIEW_BYTES),
                    None => "data",
                };
                let mut out = concat3("write file ", path, " with content: ");
                out.append(preview);
                out
            },
            None => String::from_str("write file with content"),
        }
    }

    /// The utterance for a call of tool `tool_name` with arguments `args`.
    pub fn format_tool_request(tool_name: &str, args: &Json) -> (r: String)
        ensures
            r@ == tool_text(tool_name@, args@),
    {
        let n = tool_name;
        if str_eq(n, "read_file") || str_eq(n, "file_read") {
            Self::format_with_path("read file", args)
        } else if str_eq(n, "write_file") || str_eq(n, "file_write") {
            Self::format_write(args)
        } else if str_eq(n, "delete_file") || str_eq(n, "file_delete") {
            Self::format_with_path("delete file", args)
        } else if str_eq(n, "execute_command") || str_eq(n, "run_command") || str_eq(n, "shell_exec") {
            Self::format_with_field("execute command", "command", args)
        } else if str_eq(n, "database_query") || str_eq(n, "sql_query") {
            Self::format_with_field("run database query", "query", args)
        } else if str_eq(n, "network_request") || str_eq(n, "http_request") {
            Self::format_with_field("make network request to", "url", args)
        } else {
            let mut out = concat3("use tool ", n, " with arguments: ");
            let rendered = to_compact(args);
            out.append(rendered.as_str());
            out
        }
    }

    /// The natural-language utterance for a request.
    pub fn format_request_for_guard(content: &Json) -> (r: String)
        ensures
            r@ == canonical_text(content@),
    {
        match Self::extract_tool_info(content) {
            Some((name, args)) => Self::format_tool_request(name, args),
            None => {
                let rendered = to_compact(content);
                concat2("perform action: ", rendered.as_str())
            },
        }
    }
}

} // verus!
