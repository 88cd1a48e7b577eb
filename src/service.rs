use vstd::prelude::*;
use crate::client::JavelinClient;
use crate::config::ProxyConfig;
use crate::guard::{opt_score, opt_text, score, Decision, Score, ValidationCacheEntry};
use crate::json::{field, lookup, str_eq, str_field, Json, JsonNumber, JsonValue};
use crate::stamp::{new_request_id, now_rfc3339, rfc3339_utc, uuid_form};
use crate::text::{replace_all, replace_text};

verus! {

/// The service's verdict on one request, tagged with a fresh id and the time it was made.
#[derive(Debug, Clone)]
pub struct ValidationResult {
    pub allowed: bool,
    pub reason: Option<String>,
    pub confidence: Option<JsonNumber>,
    pub request_id: String,
    pub timestamp: String,
}

impl ValidationResult {
    pub open spec fn decision(&self) -> Decision {
        Decision { allowed: self.allowed, reason: opt_text(self.reason), confidence: opt_score(self.confidence) }
    }
}

/// A JSON-RPC error as the gateway reports it.
#[derive(Debug, Clone)]
pub struct ValidationError {
    pub code: i32,
    pub message: String,
    pub data: Option<Json>,
}

/// The name the gateway signs its envelopes with.
pub const PRODUCT: &'static str = "ramparts-proxy";

pub open spec fn outcome_view(o: Result<ValidationCacheEntry, String>) -> Result<Decision, Seq<char>> {
    match o {
        Ok(e) => Ok(e.decision()),
        Err(m) => Err(m@),
    }
}

/// The verdict that the service makes of what the Guard client gave: a decision keeps its
/// confidence (0.9 for an approval, 0.1 for a block when it has none); an error lets the
/// request pass exactly when `fail_open` holds, with confidence zero.
pub open spec fn policy_decision(outcome: Result<Decision, Seq<char>>, fail_open: bool) -> Decision {
    match outcome {
        Ok(d) => if d.allowed {
            Decision {
                allowed: true,
                reason: Some("Request approved by Guard"@),
                confidence: Some(
                    match d.confidence {
                        Some(c) => c,
                        None => ("0.9"@, 900000),
                    },
                ),
            }
        } else {
            Decision {
                allowed: false,
                reason: Some("Request blocked by Guard"@),
                confidence: Some(
                    match d.confidence {
                        Some(c) => c,
                        None => ("0.1"@, 100000),
                    },
                ),
            }
        },
        Err(e) => Decision {
            allowed: fail_open,
            reason: Some(
                if fail_open {
                    "Validation service unavailable, failing open: "@ + e
                } else {
                    "Validation service unavailable, failing closed: "@ + e
                },
            ),
            confidence: Some(("0.0"@, 0)),
        },
    }
}

/// When the Guard cannot be asked, every verdict passes under fail-open and none passes
/// under fail-closed.
pub proof fn lemma_fail_policy_exclusive(error: Seq<char>, fail_open: bool)
    ensures
        policy_decision(Err(error), fail_open).allowed == fail_open,
{
}

/// The decision as a response reports it: "Request" put as "Response" in the reason.
pub open spec fn response_decision(d: Decision) -> Decision {
    Decision {
        allowed: d.allowed,
        reason: match d.reason {
            Some(r) => Some(replace_all(r, "Request"@, "Response"@)),
            None => None,
        },
        confidence: d.confidence,
    }
}

/// The `id` of a request, or null when it has none.
pub open spec fn id_of(req: JsonValue) -> JsonValue {
    match field(req, "id"@) {
        Some(v) => v,
        None => JsonValue::Null,
    }
}

pub open spec fn text_or_null(o: Option<Seq<char>>) -> JsonValue {
    match o {
        Some(s) => JsonValue::Str(s),
        None => JsonValue::Null,
    }
}

pub open spec fn score_or_null(o: Option<Score>) -> JsonValue {
    match o {
        Some(s) => JsonValue::Number { text: s.0, micros: s.1 },
        None => JsonValue::Null,
    }
}

/// A JSON-RPC 2.0 error envelope that answers `req`.
pub open spec fn envelope(req: JsonValue, error: JsonValue) -> JsonValue {
    JsonValue::Object(seq![("jsonrpc"@, JsonValue::Str("2.0"@)), ("id"@, id_of(req)), ("error"@, error)])
}

/// The error object of a blocked request (code -32600).
pub open spec fn blocked_error(d: Decision, request_id: Seq<char>, timestamp: Seq<char>) -> JsonValue {
    JsonValue::Object(
        seq![
            ("code"@, JsonValue::Number { text: "-32600"@, micros: -32600000000 }),
            ("message"@, JsonValue::Str("Request blocked by Guard"@)),
            (
                "data"@,
                JsonValue::Object(
                    seq![
                        ("reason"@, text_or_null(d.reason)),
                        ("confidence"@, score_or_null(d.confidence)),
                        ("request_id"@, JsonValue::Str(request_id)),
                        ("timestamp"@, JsonValue::Str(timestamp)),
                        ("blocked_by"@, JsonValue::Str(PRODUCT@)),
                    ],
                ),
            ),
        ],
    )
}

/// The error object of a failure inside the gateway (code -32603).
pub open spec fn internal_error(message: Seq<char>, timestamp: Seq<char>) -> JsonValue {
    JsonValue::Object(
        seq![
            ("code"@, JsonValue::Number { text: "-32603"@, micros: -32603000000 }),
            ("message"@, JsonValue::Str("Internal validation error"@)),
            (
                "data"@,
                JsonValue::Object(
                    seq![
                        ("error"@, JsonValue::Str(message)),
                        ("timestamp"@, JsonValue::Str(timestamp)),
                        ("service"@, JsonValue::Str(PRODUCT@)),
                    ],
                ),
            ),
        ],
    )
}

pub open spec fn blocked_envelope(req: JsonValue, r: ValidationResult) -> JsonValue {
    envelope(req, blocked_error(r.decision(), r.request_id@, r.timestamp@))
}

/// Every envelope answers with the request's own `id`, or null when it has none.
pub proof fn lemma_envelope_keeps_id(req: JsonValue, error: JsonValue)
    ensures
        field(envelope(req, error), "id"@) == Some(id_of(req)),
{
    reveal_strlit("jsonrpc");
    reveal_strlit("id");
    let ms = seq![("jsonrpc"@, JsonValue::Str("2.0"@)), ("id"@, id_of(req)), ("error"@, error)];
    assert(ms[0].0 != "id"@) by {
        assert(ms[0].0[0] != "id"@[0]);
    }
    assert(ms.drop_first()[0] == ("id"@, id_of(req)));
    assert(lookup(ms.drop_first(), "id"@) == Some(id_of(req)));
    assert(lookup(ms, "id"@) == lookup(ms.drop_first(), "id"@));
    assert(envelope(req, error) == JsonValue::Object(ms));
}

fn text_json(s: &str) -> (r: Json)
    ensures
        r@ == JsonValue::Str(s@),
{
    Json::Str(String::from_str(s))
}

fn text_or_null_json(o: &Option<String>) -> (r: Json)
    ensures
        r@ == text_or_null(opt_text(*o)),
{
    match o {
        Some(s) => Json::Str(s.clone()),
        None => Json::Null,
    }
}

fn score_or_null_json(o: &Option<JsonNumber>) -> (r: Json)
    ensures
        r@ == score_or_null(opt_score(*o)),
{
    match o {
        Some(n) => Json::Number(n.duplicate()),
        None => Json::Null,
    }
}

fn member(key: &str, value: Json) -> (r: (String, Json))
    ensures
        r.0@ == key@,
        r.1 == value,
{
    (String::from_str(key), value)
}

fn object3(a: (String, Json), b: (String, Json), c: (String, Json)) -> (r: Json)
    ensures
        r@ == JsonValue::Object(seq![(a.0@, a.1@), (b.0@, b.1@), (c.0@, c.1@)]),
{
    let r = Json::Object(vec![a, b, c]);
    assert(r@->Object_0 =~= seq![(a.0@, a.1@), (b.0@, b.1@), (c.0@, c.1@)]);
    r
}

fn object5(a: (String, Json), b: (String, Json), c: (String, Json), d: (String, Json), e: (
    String,
    Json,
)) -> (r: Json)
    ensures
        r@ == JsonValue::Object(
            seq![(a.0@, a.1@), (b.0@, b.1@), (c.0@, c.1@), (d.0@, d.1@), (e.0@, e.1@)],
        ),
{
    let r = Json::Object(vec![a, b, c, d, e]);
    assert(r@->Object_0 =~= seq![(a.0@, a.1@), (b.0@, b.1@), (c.0@, c.1@), (d.0@, d.1@), (e.0@, e.1@)]);
    r
}

/// The `id` of a request, copied, or null when it has none.
fn id_json(req: &Json) -> (r: Json)
    ensures
        r@ == id_of(req@),
{
    match req.get("id") {
        Some(v) => v.duplicate(),
        None => Json::Null,
    }
}

/// The envelope answering `req` with `error`.
fn envelope_json(req: &Json, error: Json) -> (r: Json)
    ensures
        r@ == envelope(req@, error@),
{
    object3(member("jsonrpc", text_json("2.0")), member("id", id_json(req)), member("error", error))
}

/// What the `/validate` endpoint answers for a verdict.
pub open spec fn verdict_report(r: ValidationResult) -> JsonValue {
    JsonValue::Object(
        seq![
            ("valid"@, JsonValue::Bool(r.allowed)),
            ("reason"@, text_or_null(opt_text(r.reason))),
            ("confidence"@, score_or_null(opt_score(r.confidence))),
            ("request_id"@, JsonValue::Str(r.request_id@)),
            ("timestamp"@, JsonValue::Str(r.timestamp@)),
        ],
    )
}

/// The body of a reply to `/validate`: whether the verdict admits the request, with its reason,
/// confidence, request id and timestamp.
pub fn validation_report(result: &ValidationResult) -> (r: Json)
    ensures
        r@ == verdict_report(*result),
{
    object5(
        member("valid", Json::Bool(result.allowed)),
        member("reason", text_or_null_json(&result.reason)),
        member("confidence", score_or_null_json(&result.confidence)),
        member("request_id", Json::Str(result.request_id.clone())),
        member("timestamp", Json::Str(result.timestamp.clone())),
    )
}

/// The `id` of a JSON-RPC request.
pub fn extract_request_id(request: &Json) -> (r: Option<Json>)
    ensures
        r matches Some(v) ==> field(request@, "id"@) == Some(v@),
        r is None ==> field(request@, "id"@) is None,
{
    match request.get("id") {
        Some(v) => Some(v.duplicate()),
        None => None,
    }
}

/// Whether a value says it is JSON-RPC 2.0.
pub fn is_jsonrpc_request(request: &Json) -> (r: bool)
    ensures
        r == (str_field(request@, "jsonrpc"@) == Some("2.0"@)),
{
    match request.get_str("jsonrpc") {
        Some(v) => str_eq(v, "2.0"),
        None => false,
    }
}

pub open spec fn id_or_null(id: Option<Json>) -> JsonValue {
    match id {
        Some(v) => v@,
        None => JsonValue::Null,
    }
}

/// A JSON-RPC 2.0 success response.
pub fn create_success_response(request_id: Option<Json>, result: Json) -> (r: Json)
    ensures
        r@ == JsonValue::Object(
            seq![
                ("jsonrpc"@, JsonValue::Str("2.0"@)),
                ("id"@, id_or_null(request_id)),
                ("result"@, result@),
            ],
        ),
{
    let ghost idv = id_or_null(request_id);
    let id = match request_id {
        Some(v) => v,
        None => Json::Null,
    };
    assert(id@ == idv);
    let ghost rv = result@;
    let r = object3(member("jsonrpc", text_json("2.0")), member("id", id), member("result", result));
    assert(r@ == JsonValue::Object(seq![("jsonrpc"@, JsonValue::Str("2.0"@)), ("id"@, idv), ("result"@, rv)]));
    r
}

/// `s`, or the empty text when there is none.
fn or_empty(s: Option<String>) -> (r: String)
    ensures
        s matches Some(x) ==> r == x,
        s is None ==> r@.len() == 0,
{
    match s {
        Some(x) => x,
        None => String::new(),
    }
}

/// Applies the fail-open / fail-closed policy to what the Guard client gave.
pub fn apply_policy(
    outcome: Result<ValidationCacheEntry, String>,
    fail_open: bool,
    request_id: String,
    timestamp: String,
) -> (r: ValidationResult)
    ensures
        r.decision() == policy_decision(outcome_view(outcome), fail_open),
        r.request_id == request_id,
        r.timestamp == timestamp,
{
    match outcome {
        Ok(entry) => {
            if entry.allowed {
                let confidence = match entry.confidence {
                    Some(c) => c,
                    None => score("0.9", 900000),
                };
                ValidationResult {
                    allowed: true,
                    reason: Some(String::from_str("Request approved by Guard")),
                    confidence: Some(confidence),
                    request_id,
                    timestamp,
                }
            } else {
                let confidence = match entry.confidence {
                    Some(c) => c,
                    None => score("0.1", 100000),
                };
                ValidationResult {
                    allowed: false,
                    reason: Some(String::from_str("Request blocked by Guard")),
                    confidence: Some(confidence),
                    request_id,
                    timestamp,
                }
            }
        },
        Err(e) => {
            let mut reason = if fail_open {
                String::from_str("Validation service unavailable, failing open: ")
            } else {
                String::from_str("Validation service unavailable, failing closed: ")
            };
            reason.append(e.as_str());
            ValidationResult {
                allowed: fail_open,
                reason: Some(reason),
                confidence: Some(score("0.0", 0)),
                request_id,
                timestamp,
            }
        },
    }
}

/// Validates requests: turns what the Guard client gave into verdicts and envelopes.
pub struct ValidationService {
    pub javelin_client: JavelinClient,
    pub config: ProxyConfig,
}

impl ValidationService {
    pub fn new(javelin_client: JavelinClient, config: ProxyConfig) -> (r: ValidationService)
        ensures
            r.javelin_client == javelin_client,
            r.config == config,
    {
        ValidationService { javelin_client, config }
    }

    /// The verdict on a request, given what the Guard client gave for it; the verdict gets a
    /// fresh hyphenated id and the current time, each left empty when the random source or the
    /// clock fails.
    pub fn validate_request(&self, outcome: Result<ValidationCacheEntry, String>) -> (r:
        ValidationResult)
        ensures
            r.decision() == policy_decision(outcome_view(outcome), self.config.javelin.fail_open),
            r.request_id@.len() == 0 || uuid_form(r.request_id@),
            r.timestamp@.len() == 0 || rfc3339_utc(r.timestamp@),
    {
        let request_id = or_empty(new_request_id());
        let timestamp = or_empty(now_rfc3339());
        apply_policy(outcome, self.config.javelin.fail_open, request_id, timestamp)
    }

    /// The verdict on a response: as for a request, with "Request" put as "Response" in the
    /// reason.
    pub fn validate_response(&self, outcome: Result<ValidationCacheEntry, String>) -> (r:
        ValidationResult)
        ensures
            r.decision() == response_decision(
                policy_decision(outcome_view(outcome), self.config.javelin.fail_open),
            ),
    {
        let result = self.validate_request(outcome);
        Self::as_response(result)
    }

    /// A verdict as a response reports it.
    pub fn as_response(result: ValidationResult) -> (r: ValidationResult)
        ensures
            r.decision() == response_decision(result.decision()),
            r.request_id == result.request_id,
            r.timestamp == result.timestamp,
    {
        let reason = match &result.reason {
            Some(text) => Some(replace_text(text.as_str(), "Request", "Response")),
            None => None,
        };
        ValidationResult {
            allowed: result.allowed,
            reason,
            confidence: result.confidence,
            request_id: result.request_id,
            timestamp: result.timestamp,
        }
    }

    /// The JSON-RPC envelope for a blocked request.
    pub fn create_blocked_response(&self, original_request: &Json, validation_result: &ValidationResult) -> (r:
        Json)
        ensures
            r@ == blocked_envelope(original_request@, *validation_result),
    {
        let data = object5(
            member("reason", text_or_null_json(&validation_result.reason)),
            member("confidence", score_or_null_json(&validation_result.confidence)),
            member("request_id", Json::Str(validation_result.request_id.clone())),
            member("timestamp", Json::Str(validation_result.timestamp.clone())),
            member("blocked_by", text_json(PRODUCT)),
        );
        let error = object3(
            member("code", Json::Number(score("-32600", -32600000000))),
            member("message", text_json("Request blocked by Guard")),
            member("data", data),
        );
        envelope_json(original_request, error)
    }

    /// The JSON-RPC envelope for a failure inside the gateway, stamped `timestamp`.
    pub fn error_response_at(original_request: &Json, error_message: &str, timestamp: &str) -> (r:
        Json)
        ensures
            r@ == envelope(original_request@, internal_error(error_message@, timestamp@)),
    {
        let data = object3(
            member("error", text_json(error_message)),
            member("timestamp", text_json(timestamp)),
            member("service", text_json(PRODUCT)),
        );
        let error = object3(
            member("code", Json::Number(score("-32603", -32603000000))),
            member("message", text_json("Internal validation error")),
            member("data", data),
        );
        envelope_json(original_request, error)
    }

    /// The JSON-RPC envelope for a failure inside the gateway, stamped with the current time.
    pub fn create_error_response(&self, original_request: &Json, error_message: &str) -> (r: Json)
        ensures
            exists|t: Seq<char>|
                (t.len() == 0 || rfc3339_utc(t)) && r@ == envelope(
                    original_request@,
                    internal_error(error_message@, t),
                ),
    {
        let timestamp = or_empty(now_rfc3339());
        let r = Self::error_response_at(original_request, error_message, timestamp.as_str());
        assert(r@ == envelope(original_request@, internal_error(error_message@, timestamp@)));
        r
    }

    /// The verdict when it admits the request; the blocked envelope otherwise.
    pub fn validate_and_handle(&self, request: &Json, outcome: Result<ValidationCacheEntry, String>) -> (r:
        Result<ValidationResult, Json>)
        ensures
            r matches Ok(v) ==> v.allowed && v.decision() == policy_decision(
                outcome_view(outcome),
                self.config.javelin.fail_open,
            ),
            r matches Err(e) ==> exists|v: ValidationResult|
                !v.allowed && v.decision() == policy_decision(
                    outcome_view(outcome),
                    self.config.javelin.fail_open,
                ) && e@ == blocked_envelope(request@, v),
            r is Ok <==> policy_decision(outcome_view(outcome), self.config.javelin.fail_open).allowed,
    {
        let result = self.validate_request(outcome);
        if result.allowed {
            Ok(result)
        } else {
            let e = self.create_blocked_response(request, &result);
            Err(e)
        }
    }
}

} // verus!
