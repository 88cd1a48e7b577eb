use vstd::prelude::*;
use crate::canonical::canonical_text;
use crate::json::{Json, JsonValue};

verus! {

/// Where the Guard service is reached, and with which key.
#[derive(Debug, Clone)]
pub struct JavelinClient {
    pub api_key: String,
    pub base_url: String,
    pub timeout_secs: u64,
}

/// The Guard service used when no other is named.
pub const DEFAULT_BASE_URL: &'static str = "https://api.getjavelin.com";

/// The body of a Guard call for a request: `{"text": <utterance>}`.
pub open spec fn guard_body(request: JsonValue) -> JsonValue {
    JsonValue::Object(seq![("text"@, JsonValue::Str(canonical_text(request)))])
}

impl JavelinClient {
    /// A client with a ten second timeout; without a base URL it uses the default service.
    pub fn new(api_key: String, base_url: Option<String>) -> (r: JavelinClient)
        ensures
            r.api_key == api_key,
            r.base_url@ == match base_url {
                Some(u) => u@,
                None => DEFAULT_BASE_URL@,
            },
            r.timeout_secs == 10,
    {
        let base_url = match base_url {
            Some(u) => u,
            None => String::from_str(DEFAULT_BASE_URL),
        };
        JavelinClient { api_key, base_url, timeout_secs: 10 }
    }

    /// A client with the given service and timeout.
    pub fn with_config(api_key: String, base_url: String, timeout_secs: u64) -> (r: JavelinClient)
        ensures
            r.api_key == api_key,
            r.base_url == base_url,
            r.timeout_secs == timeout_secs,
    {
        JavelinClient { api_key, base_url, timeout_secs }
    }

    /// Where Guard calls are posted.
    pub fn predict_url(&self) -> (r: String)
        ensures
            r@ == self.base_url@ + "/v1/internal/guard/predict"@,
    {
        let mut out = self.base_url.clone();
        out.append("/v1/internal/guard/predict");
        out
    }

    /// Where the Guard's health is asked.
    pub fn health_url(&self) -> (r: String)
        ensures
            r@ == self.base_url@ + "/v1/health"@,
    {
        let mut out = self.base_url.clone();
        out.append("/v1/health");
        out
    }

    /// The body of the Guard call for `request`.
    pub fn guard_request_body(request: &Json) -> (r: Json)
        ensures
            r@ == guard_body(request@),
    {
        let text = Self::format_request_for_guard(request);
        let key = String::from_str("text");
        let value = Json::Str(text);
        assert(value@ == JsonValue::Str(canonical_text(request@)));
        let members = vec![(key, value)];
        assert(members@[0].0@ == "text"@);
        let r = Json::Object(members);
        assert(r@->Object_0 =~= seq![("text"@, JsonValue::Str(canonical_text(request@)))]);
        r
    }
}

} // verus!
