use vstd::prelude::*;
use crate::client::JavelinClient;
use crate::json::{bool_field, field, str_eq, str_field, view_opt, Json, JsonNumber, JsonValue};
use crate::text::{contains, lower_of, lowercase, text_contains};
use crate::utf8::{fitting, truncate_utf8};

verus! {

/// A Guard decision on one utterance, as it is kept in the cache.
#[derive(Debug, Clone)]
pub struct ValidationCacheEntry {
    pub allowed: bool,
    pub reason: Option<String>,
    pub confidence: Option<JsonNumber>,
    /// When it was produced, in milliseconds of the caller's monotonic clock.
    pub timestamp: u64,
}

/// A score: the text it is written with and its value in millionths.
pub type Score = (Seq<char>, int);

/// The mathematical form of a decision, without its time.
pub struct Decision {
    pub allowed: bool,
    pub reason: Option<Seq<char>>,
    pub confidence: Option<Score>,
}

pub open spec fn score_of(n: JsonNumber) -> Score {
    (n.text@, n.micros as int)
}

pub open spec fn opt_score(n: Option<JsonNumber>) -> Option<Score> {
    match n {
        Some(x) => Some(score_of(x)),
        None => None,
    }
}

pub open spec fn opt_text(s: Option<String>) -> Option<Seq<char>> {
    match s {
        Some(x) => Some(x@),
        None => None,
    }
}

impl ValidationCacheEntry {
    pub open spec fn decision(&self) -> Decision {
        Decision { allowed: self.allowed, reason: opt_text(self.reason), confidence: opt_score(self.confidence) }
    }
}

/// How many bytes of a reply of unknown shape its reason quotes.
pub const UNKNOWN_REPLY_BYTES: usize = 200;

/// Whether a category value flags a threat: `true` or the string `"true"`.
pub open spec fn truthy(v: JsonValue) -> bool {
    v == JsonValue::Bool(true) || v == JsonValue::Str("true"@)
}

/// The names of the flagged categories, in order.
pub open spec fn threat_names(ms: Seq<(Seq<char>, JsonValue)>) -> Seq<Seq<char>>
    decreases ms.len(),
{
    if ms.len() == 0 {
        seq![]
    } else if truthy(ms.last().1) {
        threat_names(ms.drop_last()).push(ms.last().0)
    } else {
        threat_names(ms.drop_last())
    }
}

/// Names separated by `", "`.
pub open spec fn join(names: Seq<Seq<char>>) -> Seq<char>
    decreases names.len(),
{
    if names.len() == 0 {
        seq![]
    } else if names.len() == 1 {
        names[0]
    } else {
        join(names.drop_last()) + ", "@ + names.last()
    }
}

pub open spec fn zero_score() -> Score {
    ("0.0"@, 0)
}

/// The greatest score among the flagged categories that have a numeric score, and zero when
/// none has; on a tie the first one stays.
pub open spec fn best_score(ms: Seq<(Seq<char>, JsonValue)>, scores: JsonValue) -> Score
    decreases ms.len(),
{
    if ms.len() == 0 {
        zero_score()
    } else {
        let prev = best_score(ms.drop_last(), scores);
        match field(scores, ms.last().0) {
            Some(JsonValue::Number { text, micros }) => if truthy(ms.last().1) && micros > prev.1 {
                (text, micros)
            } else {
                prev
            },
            _ => prev,
        }
    }
}

/// The decision for the categorical form of a reply.
pub open spec fn categorical(body: JsonValue, ms: Seq<(Seq<char>, JsonValue)>) -> Decision {
    let names = threat_names(ms);
    Decision {
        allowed: names.len() == 0,
        reason: Some(
            if names.len() == 0 {
                "No threats detected"@
            } else {
                "Threats detected: "@ + join(names)
            },
        ),
        confidence: match field(body, "category_scores"@) {
            Some(JsonValue::Object(s)) => Some(best_score(ms, JsonValue::Object(s))),
            _ => None,
        },
    }
}

/// The numeric member `key`, if it is there and is a number.
pub open spec fn number_field(body: JsonValue, key: Seq<char>) -> Option<Score> {
    match field(body, key) {
        Some(JsonValue::Number { text, micros }) => Some((text, micros)),
        _ => None,
    }
}

pub open spec fn allow_words(lower: Seq<char>) -> bool {
    contains(lower, "safe"@) || contains(lower, "allow"@) || contains(lower, "ok"@) || contains(
        lower,
        "approved"@,
    )
}

pub open spec fn block_words(lower: Seq<char>) -> bool {
    contains(lower, "unsafe"@) || contains(lower, "block"@) || contains(lower, "deny"@) || contains(
        lower,
        "reject"@,
    )
}

/// The decision for a reply that is read as plain text, given its lowercase form.
pub open spec fn plain_text(text: Seq<char>, lower: Seq<char>) -> Decision {
    if allow_words(lower) || block_words(lower) {
        Decision {
            allowed: allow_words(lower),
            reason: Some("Guard text response: "@ + text),
            confidence: Some(("0.7"@, 700000)),
        }
    } else {
        Decision {
            allowed: true,
            reason: Some("Unknown Guard response: "@ + fitting(text, UNKNOWN_REPLY_BYTES as nat)),
            confidence: Some(("0.5"@, 500000)),
        }
    }
}

/// The decision for a Guard reply with body `text`, which parses as the JSON value `parsed`
/// when it is JSON. The forms are tried in order and the first that fits decides.
pub open spec fn guard_decision(text: Seq<char>, parsed: Option<JsonValue>) -> Decision {
    match parsed {
        Some(body) => if field(body, "categories"@) matches Some(JsonValue::Object(_)) {
            categorical(body, field(body, "categories"@)->0->Object_0)
        } else if bool_field(body, "safe"@) is Some {
            Decision {
                allowed: bool_field(body, "safe"@)->0,
                reason: str_field(body, "reason"@),
                confidence: number_field(body, "confidence"@),
            }
        } else if bool_field(body, "allowed"@) is Some {
            Decision {
                allowed: bool_field(body, "allowed"@)->0,
                reason: str_field(body, "reason"@),
                confidence: number_field(body, "confidence"@),
            }
        } else if str_field(body, "result"@) is Some {
            let result = str_field(body, "result"@)->0;
            Decision {
                allowed: contains(lower_of(result), "safe"@) || contains(lower_of(result), "allow"@),
                reason: Some("Guard result: "@ + result),
                confidence: number_field(body, "confidence"@),
            }
        } else if body is Bool {
            let b = body->Bool_0;
            Decision {
                allowed: b,
                reason: Some("Boolean response from Guard API"@),
                confidence: Some(if b { ("0.9"@, 900000) } else { ("0.1"@, 100000) }),
            }
        } else {
            plain_text(text, lower_of(text))
        },
        None => plain_text(text, lower_of(text)),
    }
}

/// A number written as `text`, worth `micros` millionths.
pub fn score(text: &str, micros: i64) -> (r: JsonNumber)
    ensures
        r.text@ == text@,
        r.micros == micros,
{
    JsonNumber { text: String::from_str(text), micros }
}

fn concat2(a: &str, b: &str) -> (r: String)
    ensures
        r@ == a@ + b@,
{
    let mut out = String::from_str(a);
    out.append(b);
    out
}

/// The numeric member `key` of `body`.
fn number_member(body: &Json, key: &str) -> (r: Option<JsonNumber>)
    ensures
        opt_score(r) == number_field(body@, key@),
{
    match body.get(key) {
        Some(Json::Number(n)) => Some(n.duplicate()),
        _ => None,
    }
}

/// The string member `key` of `body`, copied.
fn string_member(body: &Json, key: &str) -> (r: Option<String>)
    ensures
        opt_text(r) == str_field(body@, key@),
{
    match body.get_str(key) {
        Some(s) => Some(String::from_str(s)),
        None => None,
    }
}

impl JavelinClient {
    /// Whether a `result` member, given in lowercase, reads as an approval.
    pub fn result_allows(lowered: &str) -> (r: bool)
        ensures
            r == (contains(lowered@, "safe"@) || contains(lowered@, "allow"@)),
    {
        text_contains(lowered, "safe") || text_contains(lowered, "allow")
    }

    /// The decision for a reply read as plain text, given the text and its lowercase form.
    pub fn plain_text_entry(text: &str, lowered: &str, now: u64) -> (r: ValidationCacheEntry)
        ensures
            r.decision() == plain_text(text@, lowered@),
            r.timestamp == now,
    {
        let allowed = text_contains(lowered, "safe") || text_contains(lowered, "allow")
            || text_contains(lowered, "ok") || text_contains(lowered, "approved");
        let blocked = text_contains(lowered, "unsafe") || text_contains(lowered, "block")
            || text_contains(lowered, "deny") || text_contains(lowered, "reject");
        if allowed || blocked {
            ValidationCacheEntry {
                allowed,
                reason: Some(concat2("Guard text response: ", text)),
                confidence: Some(score("0.7", 700000)),
                timestamp: now,
            }
        } else {
            ValidationCacheEntry {
                allowed: true,
                reason: Some(concat2("Unknown Guard response: ", truncate_utf8(text, UNKNOWN_REPLY_BYTES))),
                confidence: Some(score("0.5", 500000)),
                timestamp: now,
            }
        }
    }

    /// `best`, or the score of category `name` when it is flagged and greater.
    fn better_score(best: JsonNumber, flagged: bool, scores: &Json, name: &str) -> (r: JsonNumber)
        ensures
            score_of(r) == (match field(scores@, name@) {
                Some(JsonValue::Number { text, micros }) => if flagged && micros > best.micros {
                    (text, micros)
                } else {
                    score_of(best)
                },
                _ => score_of(best),
            }),
    {
        match scores.get(name) {
            Some(Json::Number(n)) => {
                if flagged && n.micros > best.micros {
                    n.duplicate()
                } else {
                    best
                }
            },
            _ => best,
        }
    }

    /// The decision for the categorical form; `categories` is the `categories` object of
    /// `body`.
    fn categorical_entry(body: &Json, categories: &Json, now: u64) -> (r: ValidationCacheEntry)
        requires
            categories@ is Object,
            field(body@, "categories"@) == Some(categories@),
        ensures
            r.decision() == categorical(body@, categories@->Object_0),
            r.timestamp == now,
    {
        let null = Json::Null;
        let scores: &Json = match body.get("category_scores") {
            Some(s) => s,
            None => &null,
        };
        let ms = match categories {
            Json::Object(ms) => ms,
            _ => {
                assert(false);
                return Self::plain_text_entry("", "", now);
            },
        };
        let ghost all = categories@->Object_0;
        assert(all.subrange(0, 0) =~= Seq::<(Seq<char>, JsonValue)>::empty());
        let mut names = String::new();
        let mut count: usize = 0;
        let mut best = score("0.0", 0);
        let mut i: usize = 0;
        while i < ms.len()
            invariant
                *categories == Json::Object(*ms),
                all == categories@->Object_0,
                all.len() == ms@.len(),
                forall|k: int| 0 <= k < all.len() ==> #[trigger] all[k] == (ms@[k].0@, ms@[k].1@),
                i <= ms@.len(),
                count <= i,
                count == threat_names(all.subrange(0, i as int)).len(),
                names@ == join(threat_names(all.subrange(0, i as int))),
                score_of(best) == best_score(all.subrange(0, i as int), scores@),
            decreases ms.len() - i,
        {
            let ghost prev = all.subrange(0, i as int);
            let ghost next = all.subrange(0, i + 1);
            assert(next.drop_last() =~= prev);
            assert(next.last() == all[i as int]);
            let flagged = match &ms[i].1 {
                Json::Bool(b) => *b,
                Json::Str(s) => str_eq(s.as_str(), "true"),
                _ => false,
            };
            assert(flagged == truthy(all[i as int].1));
            if flagged {
                proof {
                    let ns = threat_names(prev);
                    assert(threat_names(next) == ns.push(all[i as int].0));
                    assert(ns.push(all[i as int].0).drop_last() =~= ns);
                }
                if count > 0 {
                    names.append(", ");
                }
                names.append(ms[i].0.as_str());
                count = count + 1;
            }
            best = Self::better_score(best, flagged, scores, ms[i].0.as_str());
            i = i + 1;
        }
        assert(all.subrange(0, ms@.len() as int) =~= all);
        let reason = if count == 0 {
            String::from_str("No threats detected")
        } else {
            concat2("Threats detected: ", names.as_str())
        };
        let confidence = match scores {
            Json::Object(_) => Some(best),
            _ => None,
        };
        ValidationCacheEntry { allowed: count == 0, reason: Some(reason), confidence, timestamp: now }
    }

    /// Reads a Guard reply. `response_text` is the body; `parsed` is its JSON value when the
    /// body is JSON. `now` stamps the result.
    pub fn parse_guard_response(response_text: &str, parsed: Option<&Json>, now: u64) -> (r:
        ValidationCacheEntry)
        ensures
            r.decision() == guard_decision(response_text@, view_opt(parsed)),
            r.timestamp == now,
    {
        match parsed {
            Some(body) => {
                match body.get("categories") {
                    Some(c) => {
                        match c {
                            Json::Object(_) => {
                                return Self::categorical_entry(body, c, now);
                            },
                            _ => {},
                        }
                    },
                    None => {},
                }
                match body.get_bool("safe") {
                    Some(safe) => {
                        return ValidationCacheEntry {
                            allowed: safe,
                            reason: string_member(body, "reason"),
                            confidence: number_member(body, "confidence"),
                            timestamp: now,
                        };
                    },
                    None => {},
                }
                match body.get_bool("allowed") {
                    Some(allowed) => {
                        return ValidationCacheEntry {
                            allowed,
                            reason: string_member(body, "reason"),
                            confidence: number_member(body, "confidence"),
                            timestamp: now,
                        };
                    },
                    None => {},
                }
                match body.get_str("result") {
                    Some(result) => {
                        let lowered = lowercase(result);
                        return ValidationCacheEntry {
                            allowed: Self::result_allows(lowered.as_str()),
                            reason: Some(concat2("Guard result: ", result)),
                            confidence: number_member(body, "confidence"),
                            timestamp: now,
                        };
                    },
                    None => {},
                }
                match body {
                    Json::Bool(b) => {
                        let confidence = if *b {
                            score("0.9", 900000)
                        } else {
                            score("0.1", 100000)
                        };
                        return ValidationCacheEntry {
                            allowed: *b,
                            reason: Some(String::from_str("Boolean response from Guard API")),
                            confidence: Some(confidence),
                            timestamp: now,
                        };
                    },
                    _ => {},
                }
            },
            None => {},
        }
        let lowered = lowercase(response_text);
        Self::plain_text_entry(response_text, lowered.as_str(), now)
    }

    /// The error for a Guard reply whose status is outside 2xx: the Guard is taken as
    /// unavailable and the fail-open / fail-closed policy decides.
    pub fn guard_status_error(status: &str) -> (r: String)
        ensures
            r@ == "Guard API error: "@ + status@,
    {
        concat2("Guard API error: ", status)
    }
}

} // verus!
