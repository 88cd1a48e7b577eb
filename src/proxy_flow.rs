use vstd::prelude::*;
use crate::guard::ValidationCacheEntry;
use crate::json::{Json, JsonValue};
use crate::service::{
    blocked_envelope, envelope, internal_error, outcome_view, policy_decision, response_decision,
    ValidationResult, ValidationService,
};
use crate::stamp::rfc3339_utc;

verus! {

/// Where a proxied request stands: it is validated, then forwarded, then its response is
/// validated, then an answer is emitted.
#[derive(Debug, Clone)]
pub enum ProxyState {
    Received,
    ValidatingRequest,
    Forwarding,
    ValidatingResponse { response: Json },
    Emitted,
}

/// What happened outside since the last step.
#[derive(Debug)]
pub enum ProxyEvent {
    /// The request came in.
    Start,
    /// What the Guard client gave for the request.
    RequestChecked { outcome: Result<ValidationCacheEntry, String> },
    /// What the upstream server answered, or why it could not be reached.
    Forwarded { result: Result<Json, String> },
    /// What the Guard client gave for the upstream response.
    ResponseChecked { outcome: Result<ValidationCacheEntry, String> },
}

/// What the caller does next.
#[derive(Debug, Clone)]
pub enum ProxyAction {
    /// Ask the Guard about the request.
    ValidateRequest,
    /// Send the request to the target.
    Forward,
    /// Ask the Guard about this upstream response.
    ValidateResponse { response: Json },
    /// Answer the client with this body; the flow is over.
    Emit { body: Json },
    /// The event does not belong to this state: nothing to do.
    Nothing,
}

/// The message of a failed forward.
pub open spec fn forward_failure(target: Seq<char>, error: Seq<char>) -> Seq<char> {
    "Failed to forward request to target "@ + target + ": "@ + error
}

/// The message of a failed forward.
pub fn forward_failure_text(target: &str, error: &str) -> (r: String)
    ensures
        r@ == forward_failure(target@, error@),
{
    let mut out = String::from_str("Failed to forward request to target ");
    out.append(target);
    out.append(": ");
    out.append(error);
    out
}

/// One step of proxying `request` to `target`: validation comes before forwarding, and
/// forwarding before validation of the response.
pub fn proxy_step(
    service: &ValidationService,
    request: &Json,
    target: &str,
    state: ProxyState,
    event: ProxyEvent,
) -> (r: (ProxyState, ProxyAction))
    ensures
        match (state, event) {
            (ProxyState::Received, ProxyEvent::Start) => r.0 is ValidatingRequest && r.1 is ValidateRequest,
            (ProxyState::ValidatingRequest, ProxyEvent::RequestChecked { outcome }) => {
                let d = policy_decision(outcome_view(outcome), service.config.javelin.fail_open);
                if d.allowed {
                    r.0 is Forwarding && r.1 is Forward
                } else {
                    r.0 is Emitted && exists|v: ValidationResult|
                        v.decision() == d && #[trigger] blocked_envelope(request@, v) == (
                        r.1->Emit_body)@ && r.1 is Emit
                }
            },
            (ProxyState::Forwarding, ProxyEvent::Forwarded { result }) => match result {
                Ok(resp) => r.0 is ValidatingResponse && (r.0->ValidatingResponse_response)@ == resp@
                    && r.1 is ValidateResponse && (r.1->ValidateResponse_response)@ == resp@,
                Err(e) => r.0 is Emitted && r.1 is Emit && exists|t: Seq<char>|
                    (t.len() == 0 || rfc3339_utc(t)) && #[trigger] envelope(
                        request@,
                        internal_error(forward_failure(target@, e@), t),
                    ) == (r.1->Emit_body)@,
            },
            (ProxyState::ValidatingResponse { response }, ProxyEvent::ResponseChecked { outcome }) => {
                let d = policy_decision(outcome_view(outcome), service.config.javelin.fail_open);
                r.0 is Emitted && r.1 is Emit && if d.allowed {
                    (r.1->Emit_body)@ == response@
                } else {
                    exists|v: ValidationResult|
                        v.decision() == response_decision(d) && #[trigger] blocked_envelope(
                            response@,
                            v,
                        ) == (r.1->Emit_body)@
                }
            },
            _ => r.1 is Nothing,
        },
{
    match (state, event) {
        (ProxyState::Received, ProxyEvent::Start) => (ProxyState::ValidatingRequest, ProxyAction::ValidateRequest),
        (ProxyState::ValidatingRequest, ProxyEvent::RequestChecked { outcome }) => {
            match service.validate_and_handle(request, outcome) {
                Ok(_) => (ProxyState::Forwarding, ProxyAction::Forward),
                Err(blocked) => (ProxyState::Emitted, ProxyAction::Emit { body: blocked }),
            }
        },
        (ProxyState::Forwarding, ProxyEvent::Forwarded { result }) => match result {
            Ok(resp) => {
                let sent = resp.duplicate();
                (ProxyState::ValidatingResponse { response: resp }, ProxyAction::ValidateResponse { response: sent })
            },
            Err(e) => {
                let message = forward_failure_text(target, e.as_str());
                let body = service.create_error_response(request, message.as_str());
                (ProxyState::Emitted, ProxyAction::Emit { body })
            },
        },
        (ProxyState::ValidatingResponse { response }, ProxyEvent::ResponseChecked { outcome }) => {
            let verdict = service.validate_response(outcome);
            if verdict.allowed {
                (ProxyState::Emitted, ProxyAction::Emit { body: response })
            } else {
                let body = service.create_blocked_response(&response, &verdict);
                (ProxyState::Emitted, ProxyAction::Emit { body })
            }
        },
        (s, _) => (s, ProxyAction::Nothing),
    }
}

} // verus!
