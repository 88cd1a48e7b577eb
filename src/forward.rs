use vstd::prelude::*;
use crate::json::Json;
use crate::text::{lower_of, lowercase, starts_with, text_starts_with};

verus! {

/// The URL a proxied request goes to: a target that names its scheme is taken as it is, any
/// other is taken as a host reached over plain HTTP.
pub open spec fn target_url_of(target: Seq<char>) -> Seq<char> {
    if starts_with(target, "http://"@) || starts_with(target, "https://"@) {
        target
    } else {
        "http://"@ + target
    }
}

/// The URL a proxied request goes to.
pub fn target_url(target: &str) -> (r: String)
    ensures
        r@ == target_url_of(target@),
{
    if text_starts_with(target, "http://") || text_starts_with(target, "https://") {
        String::from_str(target)
    } else {
        let mut out = String::from_str("http://");
        out.append(target);
        out
    }
}

/// Whether a header, by its lowercase name, is passed on upstream: `authorization` and the
/// `x-` headers are, no other is.
pub open spec fn forwarded_name(lowered: Seq<char>) -> bool {
    starts_with(lowered, "authorization"@) || starts_with(lowered, "x-"@)
}

/// Whether a header, by its lowercase name, is passed on upstream.
pub fn is_forwarded_lowercase(lowered: &str) -> (r: bool)
    ensures
        r == forwarded_name(lowered@),
{
    text_starts_with(lowered, "authorization") || text_starts_with(lowered, "x-")
}

/// Whether the header `name` is passed on upstream, whatever the case of its letters.
pub fn is_forwarded_header(name: &str) -> (r: bool)
    ensures
        r == forwarded_name(lower_of(name@)),
{
    let lowered = lowercase(name);
    is_forwarded_lowercase(lowered.as_str())
}

pub type Header = (String, String);

/// The headers of `hs` that are passed on, in their order.
pub open spec fn forwarded(hs: Seq<Header>) -> Seq<Header>
    decreases hs.len(),
{
    if hs.len() == 0 {
        seq![]
    } else if forwarded_name(lower_of(hs.last().0@)) {
        forwarded(hs.drop_last()).push(hs.last())
    } else {
        forwarded(hs.drop_last())
    }
}

/// The inbound headers that are passed on upstream, in their order.
pub fn forward_headers(headers: &Vec<Header>) -> (r: Vec<Header>)
    ensures
        r@ == forwarded(headers@),
{
    let mut out: Vec<Header> = Vec::new();
    let mut i: usize = 0;
    proof {
        assert(headers@.subrange(0, 0) =~= Seq::<Header>::empty());
    }
    while i < headers.len()
        invariant
            i <= headers@.len(),
            out@ == forwarded(headers@.subrange(0, i as int)),
        decreases headers.len() - i,
    {
        proof {
            let next = headers@.subrange(0, i + 1);
            assert(next.drop_last() =~= headers@.subrange(0, i as int));
            assert(next.last() == headers@[i as int]);
        }
        if is_forwarded_header(headers[i].0.as_str()) {
            out.push((headers[i].0.clone(), headers[i].1.clone()));
        }
        i = i + 1;
    }
    proof {
        assert(headers@.subrange(0, headers@.len() as int) =~= headers@);
    }
    out
}

/// Only `Authorization` and `X-` headers, in any case, ever go upstream, and each of them does.
pub proof fn lemma_forwarded_whitelist(hs: Seq<Header>)
    ensures
        forall|i: int|
            0 <= i < forwarded(hs).len() ==> forwarded_name(lower_of(#[trigger] forwarded(hs)[i].0@)),
        forall|i: int|
            0 <= i < hs.len() && forwarded_name(lower_of(hs[i].0@)) ==> forwarded(hs).contains(
                #[trigger] hs[i],
            ),
    decreases hs.len(),
{
    if hs.len() > 0 {
        let init = hs.drop_last();
        lemma_forwarded_whitelist(init);
        assert forall|i: int|
            0 <= i < hs.len() && forwarded_name(lower_of(hs[i].0@)) implies forwarded(hs).contains(
            #[trigger] hs[i],
        ) by {
            if i < hs.len() - 1 {
                assert(init[i] == hs[i]);
                let j = choose|j: int| 0 <= j < forwarded(init).len() && forwarded(init)[j] == init[i];
                if forwarded_name(lower_of(hs.last().0@)) {
                    assert(forwarded(hs)[j] == hs[i]);
                }
            } else {
                assert(forwarded(hs).last() == hs[i]);
            }
        }
    }
}

/// What the upstream reply comes to: its JSON body when the status is 2xx and the body
/// parses, an error message otherwise.
pub fn upstream_result(success: bool, status: &str, body: Result<Json, String>) -> (r: Result<
    Json,
    String,
>)
    ensures
        !success ==> (r matches Err(m) && m@ == "Target server returned error status: "@ + status@),
        success ==> match body {
            Ok(j) => r == Ok::<Json, String>(j),
            Err(e) => (r matches Err(m) && m@ == "Failed to parse JSON response from target: "@ + e@),
        },
{
    if !success {
        let mut m = String::from_str("Target server returned error status: ");
        m.append(status);
        return Err(m);
    }
    match body {
        Ok(j) => Ok(j),
        Err(e) => {
            let mut m = String::from_str("Failed to parse JSON response from target: ");
            m.append(e.as_str());
            Err(m)
        },
    }
}

} // verus!
