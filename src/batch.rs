use vstd::prelude::*;
use crate::guard::ValidationCacheEntry;
use crate::json::{str_eq, Json};

verus! {

/// Requests to validate together, each under an id of the caller's.
pub struct BatchValidationRequest {
    pub requests: Vec<(String, Json)>,
}

/// The decisions on a batch, each under the id of its request.
pub struct BatchValidationResponse {
    pub results: Vec<(String, ValidationCacheEntry)>,
}

/// Whether the request at `i` was found in the cache; `hits` may be shorter than the batch.
pub open spec fn is_hit(hits: Seq<Option<ValidationCacheEntry>>, i: int) -> bool {
    i < hits.len() && hits[i] is Some
}

/// The positions, below `n`, of the requests found in the cache, in order.
pub open spec fn hit_positions(hits: Seq<Option<ValidationCacheEntry>>, n: int) -> Seq<int>
    decreases n,
{
    if n <= 0 {
        seq![]
    } else if is_hit(hits, n - 1) {
        hit_positions(hits, n - 1).push(n - 1)
    } else {
        hit_positions(hits, n - 1)
    }
}

/// The positions, below `n`, of the requests not found in the cache, in order.
pub open spec fn miss_positions(hits: Seq<Option<ValidationCacheEntry>>, n: int) -> Seq<int>
    decreases n,
{
    if n <= 0 {
        seq![]
    } else if !is_hit(hits, n - 1) {
        miss_positions(hits, n - 1).push(n - 1)
    } else {
        miss_positions(hits, n - 1)
    }
}

/// Splits a batch by what the cache held for each request (`hits[i]` for request `i`): the
/// cached decisions under their ids, and the requests still to be asked about, both in batch
/// order.
pub fn split_batch(batch: BatchValidationRequest, hits: Vec<Option<ValidationCacheEntry>>) -> (r: (
    Vec<(String, ValidationCacheEntry)>,
    Vec<(String, Json)>,
))
    ensures
        r.0@.len() == hit_positions(hits@, batch.requests@.len() as int).len(),
        forall|k: int|
            0 <= k < r.0@.len() ==> {
                let i = hit_positions(hits@, batch.requests@.len() as int)[k];
                &&& (#[trigger] r.0@[k]).0 == batch.requests@[i].0
                &&& Some(r.0@[k].1) == hits@[i]
            },
        r.1@ == miss_positions(hits@, batch.requests@.len() as int).map_values(
            |i: int| batch.requests@[i],
        ),
{
    let ghost r0 = batch.requests@;
    let ghost h0 = hits@;
    let mut reqs = batch.requests;
    let mut hs = hits;
    let n = reqs.len();
    let mut cached: Vec<(String, ValidationCacheEntry)> = Vec::new();
    let mut uncached: Vec<(String, Json)> = Vec::new();
    let mut i: usize = 0;
    while i < n
        invariant
            n == r0.len(),
            i <= n,
            reqs@ == r0.subrange(i as int, n as int),
            hs@ == if i <= h0.len() {
                h0.subrange(i as int, h0.len() as int)
            } else {
                Seq::empty()
            },
            cached@.len() == hit_positions(h0, i as int).len(),
            forall|k: int|
                0 <= k < cached@.len() ==> {
                    let j = hit_positions(h0, i as int)[k];
                    &&& (#[trigger] cached@[k]).0 == r0[j].0
                    &&& Some(cached@[k].1) == h0[j]
                },
            uncached@ == miss_positions(h0, i as int).map_values(|j: int| r0[j]),
        decreases n - i,
    {
        let (id, req) = reqs.remove(0);
        let hit = if hs.len() > 0 {
            hs.remove(0)
        } else {
            None
        };
        assert(hit == if is_hit(h0, i as int) { h0[i as int] } else { None::<ValidationCacheEntry> });
        let ghost before_c = cached@;
        let ghost before_u = uncached@;
        match hit {
            Some(e) => {
                cached.push((id, e));
                proof {
                    assert(hit_positions(h0, i + 1) == hit_positions(h0, i as int).push(i as int));
                    assert forall|k: int| 0 <= k < cached@.len() implies {
                        let j = hit_positions(h0, i + 1)[k];
                        &&& (#[trigger] cached@[k]).0 == r0[j].0
                        &&& Some(cached@[k].1) == h0[j]
                    } by {
                        if k < before_c.len() {
                            assert(cached@[k] == before_c[k]);
                        }
                    }
                    assert(miss_positions(h0, i + 1) == miss_positions(h0, i as int));
                }
            },
            None => {
                uncached.push((id, req));
                proof {
                    assert(miss_positions(h0, i + 1) == miss_positions(h0, i as int).push(i as int));
                    assert(uncached@ =~= miss_positions(h0, i + 1).map_values(|j: int| r0[j]));
                    assert(hit_positions(h0, i + 1) == hit_positions(h0, i as int));
                }
            },
        }
        proof {
            assert(reqs@ =~= r0.subrange(i + 1, n as int));
            if i + 1 <= h0.len() {
                assert(hs@ =~= h0.subrange(i + 1, h0.len() as int));
            } else {
                assert(hs@ =~= Seq::<Option<ValidationCacheEntry>>::empty());
            }
        }
        i = i + 1;
    }
    (cached, uncached)
}

/// The position of the first request with id `id`, if any.
pub fn position_of_id(requests: &Vec<(String, Json)>, id: &str) -> (r: Option<usize>)
    ensures
        r matches Some(i) ==> i < requests@.len() && requests@[i as int].0@ == id@ && forall|k: int|
            0 <= k < i ==> (#[trigger] requests@[k]).0@ != id@,
        r is None ==> forall|k: int| 0 <= k < requests@.len() ==> (#[trigger] requests@[k]).0@ != id@,
{
    let mut i: usize = 0;
    while i < requests.len()
        invariant
            i <= requests@.len(),
            forall|k: int| 0 <= k < i ==> (#[trigger] requests@[k]).0@ != id@,
        decreases requests.len() - i,
    {
        if str_eq(requests[i].0.as_str(), id) {
            return Some(i);
        }
        i = i + 1;
    }
    None
}

/// The answer to a batch: the cached decisions, then the ones the Guard gave.
pub fn merge_batch(
    cached: Vec<(String, ValidationCacheEntry)>,
    computed: Vec<(String, ValidationCacheEntry)>,
) -> (r: BatchValidationResponse)
    ensures
        r.results@ == cached@ + computed@,
{
    let mut results = cached;
    let mut rest = computed;
    results.append(&mut rest);
    BatchValidationResponse { results }
}

} // verus!
