use vstd::prelude::*;
use crate::compact::{compact, to_compact};
use crate::config::ProxyBehavior;
use crate::guard::ValidationCacheEntry;
use crate::json::{str_eq, Json, JsonValue};

verus! {

/// How the validation cache is set up.
pub struct CacheConfig {
    /// Whether decisions are cached at all; when not, every request asks the Guard.
    pub enabled: bool,
    pub max_entries: u64,
    /// How long an entry stays fresh, in seconds.
    pub ttl_seconds: u64,
    pub enable_deduplication: bool,
    /// Key entries by a digest of the request rather than by its text.
    pub hash_sensitive_data: bool,
}

impl Default for CacheConfig {
    fn default() -> (r: CacheConfig)
        ensures
            r.enabled,
            r.max_entries == 10_000,
            r.ttl_seconds == 300,
            r.enable_deduplication,
            r.hash_sensitive_data,
    {
        CacheConfig {
            enabled: true,
            max_entries: 10_000,
            ttl_seconds: 300,
            enable_deduplication: true,
            hash_sensitive_data: true,
        }
    }
}

impl CacheConfig {
    /// The cache the gateway's behavior settings ask for: on or off, and its time to live.
    pub fn from_behavior(behavior: &ProxyBehavior) -> (r: CacheConfig)
        ensures
            r.enabled == behavior.cache_validations,
            r.ttl_seconds == behavior.cache_ttl_seconds,
            r.max_entries == 10_000,
            r.enable_deduplication,
            r.hash_sensitive_data,
    {
        CacheConfig {
            enabled: behavior.cache_validations,
            max_entries: 10_000,
            ttl_seconds: behavior.cache_ttl_seconds,
            enable_deduplication: true,
            hash_sensitive_data: true,
        }
    }
}

/// What the cache holds at a moment.
#[derive(Debug)]
pub struct CacheStats {
    pub entries: u64,
    pub pending_requests: usize,
    pub max_capacity: u64,
    pub ttl_seconds: u64,
}

/// The lowercase hexadecimal SHA-256 digest of the UTF-8 bytes of a text.
pub uninterp spec fn sha256_hex(text: Seq<char>) -> Seq<char>;

/// Relies on sha2's `Digest::digest` for `Sha256`, written out by generic-array's `LowerHex`
/// (two lowercase digits per byte): the digest of the UTF-8 bytes of `text`.
#[verifier::external_body]
fn digest_hex(text: &str) -> (r: String)
    ensures
        r@ == sha256_hex(text@),
        r@.len() == 64,
{
    format!("{:x}", <sha2::Sha256 as sha2::Digest>::digest(text.as_bytes()))
}

/// The cache key of a request: `req_` and the digest of its compact JSON text, or the text
/// itself when digests are off.
pub open spec fn cache_key(request: JsonValue, hashed: bool) -> Seq<char> {
    if hashed {
        "req_"@ + sha256_hex(compact(request))
    } else {
        "req_"@ + compact(request)
    }
}

/// The cache key of a request, given the digest of its compact text when digests are on.
pub fn key_from_text(text: &str, digest: Option<&str>) -> (r: String)
    ensures
        r@ == "req_"@ + match digest {
            Some(d) => d@,
            None => text@,
        },
{
    let mut out = String::from_str("req_");
    match digest {
        Some(d) => out.append(d),
        None => out.append(text),
    }
    out
}

/// What a caller of the cache does next for a request.
#[derive(Debug, Clone, Copy, PartialEq, Eq)]
pub enum Lookup {
    /// Serve the cached decision.
    Hit,
    /// Another caller is asking the Guard: wait for what it publishes.
    Await,
    /// Ask the Guard, then cache and publish the decision, then `finish`.
    Publish,
    /// Ask the Guard and cache the decision; callers are not coalesced.
    Compute,
    /// Ask the Guard and keep nothing: the cache is off.
    Bypass,
}

/// What to do once a Guard call made for a lookup is over.
#[derive(Debug, Clone, Copy, PartialEq, Eq)]
pub struct Completion {
    /// Put the decision into the store.
    pub store: bool,
    /// Hand the decision to the callers that wait for it.
    pub publish: bool,
    /// Give up the key's slot (`finish`).
    pub release: bool,
}

/// What to do once the Guard call that `step` asked for is over: only a decision is stored or
/// handed to waiting callers, never an error; with the cache off nothing is stored; the
/// publisher gives up its slot whatever came of the call, and waiting callers that get nothing
/// make their own call.
pub fn completion(step: Lookup, succeeded: bool) -> (r: Completion)
    ensures
        r.store == (succeeded && (step == Lookup::Publish || step == Lookup::Compute || step
            == Lookup::Await)),
        r.publish == (succeeded && step == Lookup::Publish),
        r.release == (step == Lookup::Publish),
{
    let caches = match step {
        Lookup::Publish => true,
        Lookup::Compute => true,
        Lookup::Await => true,
        _ => false,
    };
    let publishes = match step {
        Lookup::Publish => true,
        _ => false,
    };
    Completion { store: succeeded && caches, publish: succeeded && publishes, release: publishes }
}

/// What a caller that waited on a publisher does next: with the published decision it is done;
/// when the publisher went away without one, it asks the Guard itself and caches what it gets,
/// without claiming the key.
pub fn after_wait(published: Option<ValidationCacheEntry>) -> (r: Result<ValidationCacheEntry, Lookup>)
    ensures
        published matches Some(e) ==> r == Ok::<ValidationCacheEntry, Lookup>(e),
        published is None ==> r == Err::<ValidationCacheEntry, Lookup>(Lookup::Compute),
{
    match published {
        Some(e) => Ok(e),
        None => Err(Lookup::Compute),
    }
}

/// The validation cache's bookkeeping: its settings and the keys whose Guard call is under
/// way. The entries themselves live in a concurrent store beside it.
pub struct ValidationCache {
    pub config: CacheConfig,
    pub pending: PendingSlots,
}

impl ValidationCache {
    pub open spec fn pending(&self) -> Set<Seq<char>> {
        self.pending.contents()
    }

    pub fn new(config: CacheConfig) -> (r: ValidationCache)
        ensures
            r.config == config,
            r.pending() == Set::<Seq<char>>::empty(),
    {
        ValidationCache { config, pending: PendingSlots::new() }
    }

    /// The key under which a request's decision is cached.
    pub fn generate_cache_key(&self, request: &Json) -> (r: String)
        ensures
            r@ == cache_key(request@, self.config.hash_sensitive_data),
            self.config.hash_sensitive_data ==> r@.len() == 68,
    {
        let text = to_compact(request);
        if self.config.hash_sensitive_data {
            let digest = digest_hex(text.as_str());
            proof {
                reveal_strlit("req_");
            }
            key_from_text(text.as_str(), Some(digest.as_str()))
        } else {
            key_from_text(text.as_str(), None)
        }
    }

    /// Whether a cached entry may still be served at `now` (milliseconds).
    pub fn entry_is_fresh(&self, entry: &ValidationCacheEntry, now: u64) -> (r: bool)
        ensures
            r == fresh(entry.timestamp as int, now as int, self.config.ttl_seconds * 1000),
    {
        is_fresh_secs(entry.timestamp, now, self.config.ttl_seconds)
    }

    /// What to do for the request keyed `key`, given what the store holds for it at `now`.
    pub fn begin(&mut self, key: &str, cached: Option<&ValidationCacheEntry>, now: u64) -> (r: Lookup)
        ensures
            final(self).config == old(self).config,
            r == (if !old(self).config.enabled {
                Lookup::Bypass
            } else if cached matches Some(e) && fresh(
                e.timestamp as int,
                now as int,
                old(self).config.ttl_seconds * 1000,
            ) {
                Lookup::Hit
            } else if !old(self).config.enable_deduplication {
                Lookup::Compute
            } else if old(self).pending().contains(key@) {
                Lookup::Await
            } else {
                Lookup::Publish
            }),
            final(self).pending() == (if r == Lookup::Publish {
                old(self).pending().insert(key@)
            } else {
                old(self).pending()
            }),
    {
        if !self.config.enabled {
            return Lookup::Bypass;
        }
        match cached {
            Some(e) => {
                if self.entry_is_fresh(e, now) {
                    return Lookup::Hit;
                }
            },
            None => {},
        }
        if !self.config.enable_deduplication {
            return Lookup::Compute;
        }
        if self.pending.try_claim(key) {
            Lookup::Publish
        } else {
            Lookup::Await
        }
    }

    /// The Guard call for `key` is over, whatever came of it.
    pub fn finish(&mut self, key: &str)
        ensures
            final(self).config == old(self).config,
            final(self).pending() == old(self).pending().remove(key@),
    {
        self.pending.release(key);
    }

    /// Forgets every call under way.
    pub fn clear(&mut self)
        ensures
            final(self).config == old(self).config,
            final(self).pending() == Set::<Seq<char>>::empty(),
    {
        self.pending = PendingSlots::new();
    }

    /// The cache's statistics, given how many entries the store holds.
    pub fn stats(&self, entries: u64) -> (r: CacheStats)
        ensures
            r.entries == entries,
            r.pending_requests == self.pending().len(),
            r.max_capacity == self.config.max_entries,
            r.ttl_seconds == self.config.ttl_seconds,
    {
        CacheStats {
            entries,
            pending_requests: self.pending.len(),
            max_capacity: self.config.max_entries,
            ttl_seconds: self.config.ttl_seconds,
        }
    }
}

/// Whether an entry made at `timestamp` is fresh at `now`, with a time to live in seconds.
pub fn is_fresh_secs(timestamp: u64, now: u64, ttl_seconds: u64) -> (r: bool)
    ensures
        r == fresh(timestamp as int, now as int, ttl_seconds * 1000),
{
    (now as u128) < (timestamp as u128) + (ttl_seconds as u128) * 1000
}

/// A request's cache key depends on its content alone: a request and its copy, in this
/// process or another, share one key.
pub proof fn lemma_cache_key_stable(a: JsonValue, b: JsonValue, hashed: bool)
    requires
        a == b,
    ensures
        cache_key(a, hashed) == cache_key(b, hashed),
{
}

/// Whether an entry made at `timestamp` is still fresh at `now` (both in milliseconds).
pub open spec fn fresh(timestamp: int, now: int, ttl_ms: int) -> bool {
    now < timestamp + ttl_ms
}

/// Whether an entry made at `timestamp` is still fresh at `now`.
pub fn is_fresh(timestamp: u64, now: u64, ttl_ms: u64) -> (r: bool)
    ensures
        r == fresh(timestamp as int, now as int, ttl_ms as int),
{
    now < timestamp || now - timestamp < ttl_ms
}

/// An entry made at `t0` is served until `ttl_ms` have gone by and never after.
pub proof fn lemma_ttl(t0: int, t: int, ttl_ms: int)
    requires
        t0 <= t,
    ensures
        fresh(t0, t, ttl_ms) <==> t - t0 < ttl_ms,
{
}

/// The keys whose Guard call is under way.
pub struct PendingSlots {
    keys: Vec<String>,
}

impl PendingSlots {
    pub closed spec fn contents(&self) -> Set<Seq<char>> {
        Set::new(|k: Seq<char>| exists|i: int| 0 <= i < self.keys@.len() && self.keys@[i]@ == k)
    }

    /// Each key is held once.
    #[verifier::type_invariant]
    spec fn keys_distinct(&self) -> bool {
        forall|i: int, j: int|
            0 <= i < j < self.keys@.len() ==> (#[trigger] self.keys@[i])@ != (#[trigger] self.keys@[j])@
    }

    pub fn new() -> (r: PendingSlots)
        ensures
            r.contents() == Set::<Seq<char>>::empty(),
    {
        let r = PendingSlots { keys: Vec::new() };
        assert(r.contents() =~= Set::<Seq<char>>::empty());
        r
    }

    fn position(&self, key: &str) -> (r: Option<usize>)
        ensures
            r matches Some(i) ==> i < self.keys@.len() && self.keys@[i as int]@ == key@,
            r is None ==> !self.contents().contains(key@),
    {
        let mut i: usize = 0;
        while i < self.keys.len()
            invariant
                i <= self.keys@.len(),
                forall|j: int| 0 <= j < i ==> self.keys@[j]@ != key@,
            decreases self.keys.len() - i,
        {
            if str_eq(self.keys[i].as_str(), key) {
                return Some(i);
            }
            i = i + 1;
        }
        None
    }

    /// Whether a Guard call for `key` is under way.
    pub fn is_pending(&self, key: &str) -> (r: bool)
        ensures
            r == self.contents().contains(key@),
    {
        self.position(key).is_some()
    }

    /// Claims `key` for the caller: it succeeds when no call for `key` is under way, and the
    /// key is under way afterwards either way.
    pub fn try_claim(&mut self, key: &str) -> (r: bool)
        ensures
            r == !old(self).contents().contains(key@),
            final(self).contents() == old(self).contents().insert(key@),
    {
        match self.position(key) {
            Some(_) => {
                assert(self.contents() =~= self.contents().insert(key@));
                false
            },
            None => {
                let ghost before = self.contents();
                let ghost old_keys = self.keys@;
                proof {
                    use_type_invariant(&*self);
                }
                let mut keys: Vec<String> = Vec::new();
                std::mem::swap(&mut keys, &mut self.keys);
                keys.push(String::from_str(key));
                proof {
                    assert forall|a: int, b: int|
                        0 <= a < b < keys@.len() implies (#[trigger] keys@[a])@ != (#[trigger] keys@[b])@ by {
                        if b == old_keys.len() {
                            assert(keys@[a] == old_keys[a]);
                        } else {
                            assert(keys@[a] == old_keys[a] && keys@[b] == old_keys[b]);
                        }
                    }
                }
                self.keys = keys;
                assert(self.keys@ == old_keys.push(self.keys@[old_keys.len() as int]));
                assert forall|k: Seq<char>| #[trigger] self.contents().contains(k) == before.insert(
                    key@,
                ).contains(k) by {
                    if self.contents().contains(k) {
                        let i = choose|i: int| 0 <= i < self.keys@.len() && self.keys@[i]@ == k;
                        if i < old_keys.len() {
                            assert(old_keys[i]@ == k);
                        }
                    }
                    if before.contains(k) {
                        let i = choose|i: int| 0 <= i < old_keys.len() && old_keys[i]@ == k;
                        assert(self.keys@[i]@ == k);
                    }
                    if k == key@ {
                        assert(self.keys@[old_keys.len() as int]@ == k);
                    }
                }
                assert(self.contents() =~= before.insert(key@));
                true
            },
        }
    }

    /// Ends the call for `key`.
    pub fn release(&mut self, key: &str)
        ensures
            final(self).contents() == old(self).contents().remove(key@),
    {
        proof {
            use_type_invariant(&*self);
        }
        let ghost before = self.contents();
        let mut kept: Vec<String> = Vec::new();
        let mut i: usize = 0;
        while i < self.keys.len()
            invariant
                i <= self.keys@.len(),
                forall|a: int, b: int|
                    0 <= a < b < self.keys@.len() ==> (#[trigger] self.keys@[a])@ != (#[trigger] self.keys@[b])@,
                forall|a: int, b: int|
                    0 <= a < b < kept@.len() ==> (#[trigger] kept@[a])@ != (#[trigger] kept@[b])@,
                forall|j: int| 0 <= j < kept@.len() ==> (#[trigger] kept@[j])@ != key@,
                forall|j: int|
                    0 <= j < kept@.len() ==> exists|m: int| 0 <= m < i && self.keys@[m]@ == (#[trigger] kept@[j])@,
                forall|m: int|
                    0 <= m < i && self.keys@[m]@ != key@ ==> exists|j: int|
                        0 <= j < kept@.len() && (#[trigger] kept@[j])@ == self.keys@[m]@,
            decreases self.keys.len() - i,
        {
            let ghost old_kept = kept@;
            if !str_eq(self.keys[i].as_str(), key) {
                proof {
                    assert forall|j: int| 0 <= j < old_kept.len() implies (#[trigger] old_kept[j])@ != self.keys@[i as int]@ by {
                        let m = choose|m: int| 0 <= m < i && self.keys@[m]@ == (#[trigger] old_kept[j])@;
                        assert(self.keys@[m]@ != self.keys@[i as int]@);
                    }
                }
                kept.push(self.keys[i].clone());
                assert(kept@[kept@.len() - 1]@ == self.keys@[i as int]@);
            }
            assert forall|m: int|
                0 <= m < i + 1 && self.keys@[m]@ != key@ implies exists|j: int|
                    0 <= j < kept@.len() && (#[trigger] kept@[j])@ == self.keys@[m]@ by {
                if m < i {
                    let j = choose|j: int| 0 <= j < old_kept.len() && (#[trigger] old_kept[j])@ == self.keys@[m]@;
                    assert(kept@[j] == old_kept[j]);
                } else {
                    assert(kept@[kept@.len() - 1]@ == self.keys@[i as int]@);
                }
            }
            assert forall|j: int|
                0 <= j < kept@.len() implies exists|m: int| 0 <= m < i + 1 && self.keys@[m]@ == (#[trigger] kept@[j])@ by {
                if j < old_kept.len() {
                    assert(kept@[j] == old_kept[j]);
                    let m = choose|m: int| 0 <= m < i && self.keys@[m]@ == (#[trigger] old_kept[j])@;
                    assert(self.keys@[m]@ == kept@[j]@);
                } else {
                    assert(self.keys@[i as int]@ == kept@[j]@);
                }
            }
            i = i + 1;
        }
        let ghost old_keys = self.keys@;
        self.keys = kept;
        assert(self.contents() =~= before.remove(key@)) by {
            assert forall|k: Seq<char>| self.contents().contains(k) <==> before.remove(key@).contains(k) by {
                if self.contents().contains(k) {
                    let j = choose|j: int| 0 <= j < kept@.len() && kept@[j]@ == k;
                    assert(kept@[j]@ == k);
                }
                if before.remove(key@).contains(k) {
                    let m = choose|m: int| 0 <= m < old_keys.len() && old_keys[m]@ == k;
                    assert(old_keys[m]@ == k);
                }
            }
        }
    }

    /// How many calls are under way.
    pub fn len(&self) -> (r: usize)
        ensures
            r == self.contents().len(),
    {
        proof {
            use_type_invariant(self);
            let views = self.keys@.map_values(|s: String| s@);
            assert(views.no_duplicates()) by {
                assert forall|a: int, b: int| 0 <= a < views.len() && 0 <= b < views.len() && a != b implies views[a]
                    != views[b] by {
                    if a < b {
                        assert(self.keys@[a]@ != self.keys@[b]@);
                    } else {
                        assert(self.keys@[b]@ != self.keys@[a]@);
                    }
                }
            }
            views.unique_seq_to_set();
            assert(views.to_set() =~= self.contents()) by {
                assert forall|k: Seq<char>| views.to_set().contains(k) <==> self.contents().contains(k) by {
                    if self.contents().contains(k) {
                        let i = choose|i: int| 0 <= i < self.keys@.len() && self.keys@[i]@ == k;
                        assert(views[i] == k);
                    }
                    if views.to_set().contains(k) {
                        let i = choose|i: int| 0 <= i < views.len() && views[i] == k;
                        assert(self.keys@[i]@ == k);
                    }
                }
            }
        }
        self.keys.len()
    }
}

/// How many of `n` claims in a row on `key` succeed, each one a `try_claim` on a registry that
/// starts out holding `pending`.
pub open spec fn claims_won(pending: Set<Seq<char>>, key: Seq<char>, n: nat) -> nat
    decreases n,
{
    if n == 0 {
        0
    } else {
        (if pending.contains(key) { 0nat } else { 1nat }) + claims_won(pending.insert(key), key, (n - 1) as nat)
    }
}

/// However many claims on one key come in while its call is under way, at most one wins: the
/// Guard is asked once.
pub proof fn lemma_single_flight(pending: Set<Seq<char>>, key: Seq<char>, n: nat)
    ensures
        claims_won(pending, key, n) <= 1,
        pending.contains(key) ==> claims_won(pending, key, n) == 0,
    decreases n,
{
    if n > 0 {
        lemma_single_flight(pending.insert(key), key, (n - 1) as nat);
        assert(pending.insert(key).insert(key) =~= pending.insert(key));
    }
}

} // verus!
