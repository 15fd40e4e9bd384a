//! Model cache: recently used models kept in an LRU cache (the `lru` crate),
//! within a bound on the number of models and on the memory they take.

use crate::common::error::Error;
use crate::common::utils::{decimal, u64_to_decimal};
use lru::LruCache;
use std::num::NonZeroUsize;
use vstd::prelude::*;
use vstd::string::StringExecFns;

verus! {

/// `lru::LruCache`, the recency-ordered map that holds the cached models.
#[verifier::external_type_specification]
#[verifier::external_body]
#[verifier::reject_recursive_types(K)]
#[verifier::reject_recursive_types(V)]
#[verifier::reject_recursive_types(S)]
pub struct ExLruCache<K, V, S>(LruCache<K, V, S>);

/// `lru::DefaultHasher`, the hash builder of an `LruCache`, carried opaquely.
#[verifier::external_type_specification]
#[verifier::external_body]
pub struct ExLruHasher(lru::DefaultHasher);

/// Warm-up state of a cached model.
#[derive(Debug, Clone, Copy, PartialEq, Eq, Structural)]
pub enum WarmupState {
    Cold,
    Warming,
    Hot,
    Cooling,
}

/// Cached model with metadata
#[derive(Debug)]
pub struct CachedModel {
    model_id: String,
    data: Vec<u8>,
    size_mb: u32,
    load_time_ms: u64,
    last_accessed_ms: u64,
    access_count: u64,
    warmup_state: WarmupState,
}

/// The value of a cached model.
pub struct CachedModelView {
    pub model_id: Seq<char>,
    pub data: Seq<u8>,
    pub size_mb: u32,
    pub load_time_ms: u64,
    pub last_accessed_ms: u64,
    pub access_count: u64,
    pub warmup_state: WarmupState,
}

impl View for CachedModel {
    type V = CachedModelView;

    closed spec fn view(&self) -> CachedModelView {
        CachedModelView {
            model_id: self.model_id@,
            data: self.data@,
            size_mb: self.size_mb,
            load_time_ms: self.load_time_ms,
            last_accessed_ms: self.last_accessed_ms,
            access_count: self.access_count,
            warmup_state: self.warmup_state,
        }
    }
}

impl Clone for CachedModel {
    fn clone(&self) -> (r: Self)
        ensures
            r@ == self@,
    {
        CachedModel {
            model_id: self.model_id.clone(),
            data: self.data.clone(),
            size_mb: self.size_mb,
            load_time_ms: self.load_time_ms,
            last_accessed_ms: self.last_accessed_ms,
            access_count: self.access_count,
            warmup_state: self.warmup_state,
        }
    }
}

impl CachedModel {
    /// The model's identifier.
    pub fn model_id(&self) -> (r: &String)
        ensures
            r@ == self@.model_id,
    {
        &self.model_id
    }

    /// The model's data.
    pub fn data(&self) -> (r: &Vec<u8>)
        ensures
            r@ == self@.data,
    {
        &self.data
    }

    /// Size in whole megabytes.
    pub fn size_mb(&self) -> (r: u32)
        ensures
            r == self@.size_mb,
    {
        self.size_mb
    }

    /// Clock reading (ms) when the model was stored.
    pub fn load_time_ms(&self) -> (r: u64)
        ensures
            r == self@.load_time_ms,
    {
        self.load_time_ms
    }

    /// Clock reading (ms) of the last cache hit on the model.
    pub fn last_accessed_ms(&self) -> (r: u64)
        ensures
            r == self@.last_accessed_ms,
    {
        self.last_accessed_ms
    }

    /// Number of cache hits on the model.
    pub fn access_count(&self) -> (r: u64)
        ensures
            r == self@.access_count,
    {
        self.access_count
    }

    /// Warm-up state.
    pub fn warmup_state(&self) -> (r: WarmupState)
        ensures
            r == self@.warmup_state,
    {
        self.warmup_state
    }
}

/// The entries of an LRU cache of models, least recently used first, each a
/// key and the view of its model.
pub uninterp spec fn lru_entries(cache: LruCache<String, CachedModel>) -> Seq<(Seq<char>, CachedModelView)>;

/// The capacity an LRU cache of models was created with.
pub uninterp spec fn lru_capacity(cache: LruCache<String, CachedModel>) -> nat;

/// No key occurs twice.
pub open spec fn distinct_keys(s: Seq<(Seq<char>, CachedModelView)>) -> bool {
    forall|i: int, j: int| 0 <= i < j < s.len() ==> s[i].0 != s[j].0
}

/// What every LRU cache satisfies: distinct keys, at most `cap` entries.
pub open spec fn lru_valid(s: Seq<(Seq<char>, CachedModelView)>, cap: nat) -> bool {
    &&& distinct_keys(s)
    &&& s.len() <= cap
    &&& cap > 0
}

/// Whether `k` is a key of `s`.
pub open spec fn has_key(s: Seq<(Seq<char>, CachedModelView)>, k: Seq<char>) -> bool {
    exists|i: int| 0 <= i < s.len() && s[i].0 == k
}

/// The position of key `k` in `s` (meaningful when `has_key(s, k)`).
pub open spec fn key_index(s: Seq<(Seq<char>, CachedModelView)>, k: Seq<char>) -> int {
    choose|i: int| 0 <= i < s.len() && s[i].0 == k
}

/// `LruCache::new`: an empty cache that holds at most `cap` entries.
#[verifier::external_body]
fn lru_new(cap: usize) -> (r: LruCache<String, CachedModel>)
    requires
        cap > 0,
    ensures
        lru_entries(r) == Seq::<(Seq<char>, CachedModelView)>::empty(),
        lru_capacity(r) == cap,
{
    LruCache::new(NonZeroUsize::new(cap).unwrap())
}

/// `LruCache::len`: the number of entries.
#[verifier::external_body]
fn lru_len(cache: &LruCache<String, CachedModel>) -> (r: usize)
    ensures
        r == lru_entries(*cache).len(),
{
    cache.len()
}

/// `LruCache::contains`: whether the key is present; the order is unchanged.
#[verifier::external_body]
fn lru_contains(cache: &LruCache<String, CachedModel>, key: &str) -> (r: bool)
    ensures
        r == has_key(lru_entries(*cache), key@),
{
    cache.contains(key)
}

/// `LruCache::put`: an existing key gets the new value and becomes the most
/// recently used, its old value is returned; a new key is added as the most
/// recently used, after the least recently used entry was dropped if the
/// cache was full.
#[verifier::external_body]
fn lru_put(cache: &mut LruCache<String, CachedModel>, key: String, value: CachedModel) -> (r: Option<
    CachedModel,
>)
    requires
        lru_valid(lru_entries(*old(cache)), lru_capacity(*old(cache))),
    ensures
        lru_capacity(*final(cache)) == lru_capacity(*old(cache)),
        lru_valid(lru_entries(*final(cache)), lru_capacity(*final(cache))),
        ({
            let s = lru_entries(*old(cache));
            let t = lru_entries(*final(cache));
            if has_key(s, key@) {
                let i = key_index(s, key@);
                &&& r matches Some(v) && v@ == s[i].1
                &&& t == s.remove(i).push((key@, value@))
            } else if s.len() == lru_capacity(*old(cache)) {
                &&& r is None
                &&& t == s.subrange(1, s.len() as int).push((key@, value@))
            } else {
                &&& r is None
                &&& t == s.push((key@, value@))
            }
        }),
{
    cache.put(key, value)
}

/// `LruCache::get_mut`, handing out a copy of the value: a present key
/// becomes the most recently used and its value is returned; otherwise the
/// cache is unchanged.
#[verifier::external_body]
fn lru_get_mut(cache: &mut LruCache<String, CachedModel>, key: &str) -> (r: Option<CachedModel>)
    requires
        lru_valid(lru_entries(*old(cache)), lru_capacity(*old(cache))),
    ensures
        lru_capacity(*final(cache)) == lru_capacity(*old(cache)),
        lru_valid(lru_entries(*final(cache)), lru_capacity(*final(cache))),
        ({
            let s = lru_entries(*old(cache));
            let t = lru_entries(*final(cache));
            if has_key(s, key@) {
                let i = key_index(s, key@);
                &&& r matches Some(v) && v@ == s[i].1
                &&& t == s.remove(i).push(s[i])
            } else {
                &&& r is None
                &&& t == s
            }
        }),
{
    cache.get_mut(key).map(|m| m.clone())
}

/// `LruCache::pop`: removes a present key and returns its value.
#[verifier::external_body]
fn lru_pop(cache: &mut LruCache<String, CachedModel>, key: &str) -> (r: Option<CachedModel>)
    requires
        lru_valid(lru_entries(*old(cache)), lru_capacity(*old(cache))),
    ensures
        lru_capacity(*final(cache)) == lru_capacity(*old(cache)),
        lru_valid(lru_entries(*final(cache)), lru_capacity(*final(cache))),
        ({
            let s = lru_entries(*old(cache));
            let t = lru_entries(*final(cache));
            if has_key(s, key@) {
                let i = key_index(s, key@);
                &&& r matches Some(v) && v@ == s[i].1
                &&& t == s.remove(i)
            } else {
                &&& r is None
                &&& t == s
            }
        }),
{
    cache.pop(key)
}

/// `LruCache::pop_lru`: removes and returns the least recently used entry.
#[verifier::external_body]
fn lru_pop_lru(cache: &mut LruCache<String, CachedModel>) -> (r: Option<(String, CachedModel)>)
    requires
        lru_valid(lru_entries(*old(cache)), lru_capacity(*old(cache))),
    ensures
        lru_capacity(*final(cache)) == lru_capacity(*old(cache)),
        lru_valid(lru_entries(*final(cache)), lru_capacity(*final(cache))),
        ({
            let s = lru_entries(*old(cache));
            let t = lru_entries(*final(cache));
            if s.len() == 0 {
                &&& r is None
                &&& t == s
            } else {
                &&& r matches Some(p) && p.0@ == s[0].0 && p.1@ == s[0].1
                &&& t == s.subrange(1, s.len() as int)
            }
        }),
{
    cache.pop_lru()
}

/// `LruCache::iter`, copied out: the entries, most recently used first.
#[verifier::external_body]
fn lru_snapshot(cache: &LruCache<String, CachedModel>) -> (r: Vec<CachedModel>)
    ensures
        r@.len() == lru_entries(*cache).len(),
        forall|i: int|
            0 <= i < r@.len() ==> #[trigger] r@[i]@ == lru_entries(*cache)[lru_entries(*cache).len() - 1
                - i].1,
{
    cache.iter().map(|(_, m)| m.clone()).collect()
}


/// Advanced model cache: a bounded LRU cache of models with memory accounting
/// and hit/miss counters.
pub struct ModelCache {
    cache_size_mb: u32,
    max_models: u32,
    lru_cache: LruCache<String, CachedModel>,
    total_requests: u64,
    cache_hits: u64,
    cache_misses: u64,
    evictions: u64,
    current_usage_mb: u32,
}

/// The capacity of the LRU cache for a model limit: the limit itself, or ten
/// when the limit is zero.
pub open spec fn lru_capacity_for(max_models: u32) -> nat {
    if max_models > 0 { max_models as nat } else { 10 }
}

/// `a + b`, or the largest value when that overflows.
pub open spec fn saturating_add_u64(a: u64, b: u64) -> u64 {
    if a + b <= u64::MAX { (a + b) as u64 } else { u64::MAX }
}

/// `a + b`, or the largest value when that overflows.
pub open spec fn saturating_add_u32(a: u32, b: u32) -> u32 {
    if a + b <= u32::MAX { (a + b) as u32 } else { u32::MAX }
}

/// `a - b`, or zero when that is negative.
pub open spec fn saturating_sub_u32(a: u32, b: u32) -> u32 {
    if a >= b { (a - b) as u32 } else { 0 }
}

/// The message of the error returned when eviction could not free enough.
pub open spec fn eviction_shortfall_message(needed: nat, freed: nat) -> Seq<char> {
    "Could not free enough memory: needed "@ + decimal(needed) + "MB, freed "@ + decimal(freed) + "MB"@
}

/// The result of evicting the models named in `order`, in that order, from
/// `s` until `freed` reaches `needed`: the remaining entries and the
/// megabytes freed. A name that is not cached is skipped.
pub open spec fn evict_in_order(
    s: Seq<(Seq<char>, CachedModelView)>,
    order: Seq<Seq<char>>,
    needed: nat,
    freed: nat,
) -> (Seq<(Seq<char>, CachedModelView)>, nat)
    decreases order.len(),
{
    if order.len() == 0 || freed >= needed {
        (s, freed)
    } else if has_key(s, order[0]) {
        let i = key_index(s, order[0]);
        evict_in_order(s.remove(i), order.subrange(1, order.len() as int), needed, freed + s[i].1.size_mb as nat)
    } else {
        evict_in_order(s, order.subrange(1, order.len() as int), needed, freed)
    }
}

impl ModelCache {
    /// The cached models, least recently used first.
    pub closed spec fn entries(&self) -> Seq<(Seq<char>, CachedModelView)> {
        lru_entries(self.lru_cache)
    }

    /// Most models held at once.
    pub closed spec fn spec_max_models(&self) -> u32 {
        self.max_models
    }

    /// Memory budget in megabytes.
    pub closed spec fn spec_cache_size_mb(&self) -> u32 {
        self.cache_size_mb
    }

    /// Megabytes accounted to cached models.
    pub closed spec fn spec_usage_mb(&self) -> u32 {
        self.current_usage_mb
    }

    /// Lookups made, hits among them, misses among them, and evictions.
    pub closed spec fn spec_counters(&self) -> (u64, u64, u64, u64) {
        (self.total_requests, self.cache_hits, self.cache_misses, self.evictions)
    }

    /// The LRU cache satisfies its invariant and was created with the
    /// capacity for the model limit.
    pub closed spec fn wf(&self) -> bool {
        &&& lru_valid(lru_entries(self.lru_cache), lru_capacity(self.lru_cache))
        &&& lru_capacity(self.lru_cache) == lru_capacity_for(self.max_models)
    }

    /// Creates an empty cache with a memory budget of `cache_size_mb` and room
    /// for `max_models` models (ten when `max_models` is zero).
    pub fn new(cache_size_mb: u32, max_models: u32) -> (r: Self)
        ensures
            r.wf(),
            r.entries() == Seq::<(Seq<char>, CachedModelView)>::empty(),
            r.spec_max_models() == max_models,
            r.spec_cache_size_mb() == cache_size_mb,
            r.spec_usage_mb() == 0,
            r.spec_counters() == (0u64, 0u64, 0u64, 0u64),
    {
        let cap: usize = if max_models > 0 { max_models as usize } else { 10 };
        ModelCache {
            cache_size_mb,
            max_models,
            lru_cache: lru_new(cap),
            total_requests: 0,
            cache_hits: 0,
            cache_misses: 0,
            evictions: 0,
            current_usage_mb: 0,
        }
    }

    /// Number of cached models.
    pub fn len(&self) -> (r: usize)
        ensures
            r == self.entries().len(),
    {
        lru_len(&self.lru_cache)
    }

    /// Whether the model is cached; the recency order is unchanged.
    pub fn contains_model(&self, model_id: &str) -> (r: bool)
        ensures
            r == has_key(self.entries(), model_id@),
    {
        lru_contains(&self.lru_cache, model_id)
    }

    /// Most models held at once, as configured.
    pub fn max_models(&self) -> (r: u32)
        ensures
            r == self.spec_max_models(),
    {
        self.max_models
    }

    /// Megabytes accounted to cached models.
    pub fn memory_usage_mb(&self) -> (r: u32)
        ensures
            r == self.spec_usage_mb(),
    {
        self.current_usage_mb
    }

    /// Lookups made, hits, misses and evictions so far.
    pub fn counters(&self) -> (r: (u64, u64, u64, u64))
        ensures
            r == self.spec_counters(),
    {
        (self.total_requests, self.cache_hits, self.cache_misses, self.evictions)
    }

    /// The cached models, most recently used first.
    pub fn models(&self) -> (r: Vec<CachedModel>)
        ensures
            r@.len() == self.entries().len(),
            forall|i: int|
                0 <= i < r@.len() ==> #[trigger] r@[i]@ == self.entries()[self.entries().len() - 1 - i].1,
    {
        lru_snapshot(&self.lru_cache)
    }

    /// Whether `size_mb` more megabytes fit in the memory budget.
    pub fn can_allocate(&self, size_mb: u32) -> (r: bool)
        ensures
            r == (self.spec_usage_mb() + size_mb <= self.spec_cache_size_mb()),
    {
        (self.current_usage_mb as u64) + (size_mb as u64) <= self.cache_size_mb as u64
    }

    /// Get model from cache with access tracking: a hit makes the model the
    /// most recently used, stamps it with `now_ms` and counts the access.
    pub fn get_model(&mut self, model_id: &str, now_ms: u64) -> (r: Option<CachedModel>)
        requires
            old(self).wf(),
        ensures
            final(self).wf(),
            final(self).spec_max_models() == old(self).spec_max_models(),
            final(self).spec_cache_size_mb() == old(self).spec_cache_size_mb(),
            final(self).spec_usage_mb() == old(self).spec_usage_mb(),
            ({
                let s = old(self).entries();
                let (total, hits, misses, evictions) = old(self).spec_counters();
                if has_key(s, model_id@) {
                    let i = key_index(s, model_id@);
                    let m = s[i].1;
                    let touched = CachedModelView {
                        last_accessed_ms: now_ms,
                        access_count: saturating_add_u64(m.access_count, 1),
                        ..m
                    };
                    &&& r matches Some(v) && v@ == touched
                    &&& final(self).entries() == s.remove(i).push((model_id@, touched))
                    &&& final(self).spec_counters() == (saturating_add_u64(total, 1),
                        saturating_add_u64(hits, 1), misses, evictions)
                } else {
                    &&& r is None
                    &&& final(self).entries() == s
                    &&& final(self).spec_counters() == (saturating_add_u64(total, 1), hits,
                        saturating_add_u64(misses, 1), evictions)
                }
            }),
    {
        self.total_requests = self.total_requests.saturating_add(1);
        let ghost s = lru_entries(self.lru_cache);
        match lru_get_mut(&mut self.lru_cache, model_id) {
            Some(mut model) => {
                proof {
                    let i = key_index(s, model_id@);
                    assert(s[i].0 == model_id@);
                }
                model.last_accessed_ms = now_ms;
                model.access_count = model.access_count.saturating_add(1);
                let key = String::from_str(model_id);
                let ghost promoted = lru_entries(self.lru_cache);
                proof {
                    let i = key_index(s, model_id@);
                    assert(promoted.last().0 == model_id@);
                    assert(has_key(promoted, model_id@));
                    let j = key_index(promoted, model_id@);
                    assert(j == promoted.len() - 1);
                }
                let copy = model.clone();
                let _ = lru_put(&mut self.lru_cache, key, copy);
                proof {
                    let i = key_index(s, model_id@);
                    let j = key_index(promoted, model_id@);
                    assert(promoted.remove(j) =~= s.remove(i));
                }
                self.cache_hits = self.cache_hits.saturating_add(1);
                Some(model)
            },
            None => {
                self.cache_misses = self.cache_misses.saturating_add(1);
                None
            },
        }
    }
}

/// `s` with `(k, v)` put in: a present key is moved to the most recently
/// used end with the new value, a new key is added there.
pub open spec fn put_entry(s: Seq<(Seq<char>, CachedModelView)>, k: Seq<char>, v: CachedModelView) -> Seq<
    (Seq<char>, CachedModelView),
> {
    if has_key(s, k) {
        s.remove(key_index(s, k)).push((k, v))
    } else {
        s.push((k, v))
    }
}

/// `u - freed`, or zero when that is negative.
pub open spec fn released(u: u32, freed: nat) -> u32 {
    if u >= freed { (u - freed) as u32 } else { 0 }
}

/// The view of a freshly stored model.
pub open spec fn stored_view(k: Seq<char>, data: Seq<u8>, now_ms: u64) -> CachedModelView {
    CachedModelView {
        model_id: k,
        data,
        size_mb: (data.len() / (1024 * 1024)) as u32,
        load_time_ms: now_ms,
        last_accessed_ms: now_ms,
        access_count: 0,
        warmup_state: WarmupState::Hot,
    }
}

impl ModelCache {
    /// Evicts the models named in `eviction_order`, in that order, until at
    /// least `needed_mb` megabytes were freed; names of models that are not
    /// cached are skipped. Fails with a memory error, after evicting every
    /// named model, when that frees less than `needed_mb`.
    pub fn perform_intelligent_eviction(&mut self, needed_mb: u32, eviction_order: &Vec<String>) -> (r:
        Result<(), Error>)
        requires
            old(self).wf(),
        ensures
            final(self).wf(),
            final(self).spec_max_models() == old(self).spec_max_models(),
            final(self).spec_cache_size_mb() == old(self).spec_cache_size_mb(),
            final(self).spec_counters() == old(self).spec_counters(),
            ({
                let order = Seq::new(eviction_order@.len(), |i: int| eviction_order@[i]@);
                let (t, freed) = evict_in_order(old(self).entries(), order, needed_mb as nat, 0);
                &&& final(self).entries() == t
                &&& final(self).spec_usage_mb() == released(old(self).spec_usage_mb(), freed)
                &&& (freed >= needed_mb ==> r is Ok)
                &&& (freed < needed_mb ==> (r matches Err(Error::Memory(m)) && m@
                    == eviction_shortfall_message(needed_mb as nat, freed)))
            }),
    {
        let ghost order = Seq::new(eviction_order@.len(), |i: int| eviction_order@[i]@);
        let ghost goal = evict_in_order(self.entries(), order, needed_mb as nat, 0);
        let ghost u0 = self.current_usage_mb;
        let mut freed: u64 = 0;
        let mut k: usize = 0;
        let n = eviction_order.len();
        proof {
            assert(order.subrange(0, n as int) =~= order);
        }
        while k < n
            invariant_except_break
                k <= n,
                n == eviction_order@.len(),
                order == Seq::new(eviction_order@.len(), |i: int| eviction_order@[i]@),
                self.wf(),
                self.max_models == old(self).max_models,
                self.cache_size_mb == old(self).cache_size_mb,
                self.spec_counters() == old(self).spec_counters(),
                freed <= 2 * (u32::MAX as int),
                evict_in_order(self.entries(), order.subrange(k as int, n as int), needed_mb as nat,
                    freed as nat) == goal,
                self.current_usage_mb == released(u0, freed as nat),
            ensures
                self.wf(),
                self.max_models == old(self).max_models,
                self.cache_size_mb == old(self).cache_size_mb,
                self.spec_counters() == old(self).spec_counters(),
                freed <= 2 * (u32::MAX as int),
                goal == (self.entries(), freed as nat),
                self.current_usage_mb == released(u0, freed as nat),
            decreases n - k,
        {
            if freed >= needed_mb as u64 {
                proof {
                    assert(goal == (self.entries(), freed as nat));
                }
                break;
            }
            let ghost s = self.entries();
            let ghost rest = order.subrange(k as int, n as int);
            proof {
                assert(rest[0] == eviction_order@[k as int]@);
                assert(rest.subrange(1, rest.len() as int) =~= order.subrange(k + 1, n as int));
            }
            match lru_pop(&mut self.lru_cache, eviction_order[k].as_str()) {
                Some(model) => {
                    let size = model.size_mb;
                    freed = freed + size as u64;
                    self.current_usage_mb = self.current_usage_mb.saturating_sub(size);
                },
                None => {},
            }
            k = k + 1;
        }
        proof {
            if k == n {
                assert(order.subrange(k as int, n as int).len() == 0);
            }
        }
        if freed < needed_mb as u64 {
            let mut message = String::from_str("Could not free enough memory: needed ");
            let needed_text = u64_to_decimal(needed_mb as u64);
            message.append(needed_text.as_str());
            message.append("MB, freed ");
            let freed_text = u64_to_decimal(freed);
            message.append(freed_text.as_str());
            message.append("MB");
            return Err(Error::Memory(message));
        }
        Ok(())
    }
}

/// The entries after making room for one more model under the model limit:
/// the least recently used entry goes when the cache is at the limit.
pub open spec fn trimmed(s: Seq<(Seq<char>, CachedModelView)>, max_models: u32) -> Seq<(Seq<char>, CachedModelView)> {
    if s.len() >= max_models && s.len() > 0 {
        s.subrange(1, s.len() as int)
    } else {
        s
    }
}

impl ModelCache {
    /// Store model in cache. When its size does not fit in the memory
    /// budget, the models named in `eviction_order` are evicted first (see
    /// `perform_intelligent_eviction`), and a failure there is returned. Then
    /// the least recently used model is dropped if the cache holds
    /// `max_models` models, and the new model is put in as the most recently
    /// used, hot, stamped `now_ms`, with its size in whole megabytes.
    pub fn store_model(&mut self, model_id: String, data: Vec<u8>, now_ms: u64, eviction_order: &Vec<String>) -> (r:
        Result<(), Error>)
        requires
            old(self).wf(),
            old(self).spec_max_models() > 0,
        ensures
            final(self).wf(),
            final(self).spec_max_models() == old(self).spec_max_models(),
            final(self).spec_cache_size_mb() == old(self).spec_cache_size_mb(),
            ({
                let size = (data@.len() / (1024 * 1024)) as u32;
                let fits = old(self).spec_usage_mb() + size <= old(self).spec_cache_size_mb();
                let order = Seq::new(eviction_order@.len(), |i: int| eviction_order@[i]@);
                let (s1, freed) = if fits {
                    (old(self).entries(), 0nat)
                } else {
                    evict_in_order(old(self).entries(), order, size as nat, 0)
                };
                let u1 = released(old(self).spec_usage_mb(), freed);
                let s2 = trimmed(s1, old(self).spec_max_models());
                let u2 = if s2.len() < s1.len() { saturating_sub_u32(u1, s1[0].1.size_mb) } else { u1 };
                let (total, hits, misses, evictions) = old(self).spec_counters();
                if !fits && freed < size {
                    &&& r matches Err(Error::Memory(m))
                    &&& m@ == eviction_shortfall_message(size as nat, freed)
                    &&& final(self).entries() == s1
                    &&& final(self).spec_usage_mb() == u1
                    &&& final(self).spec_counters() == old(self).spec_counters()
                } else {
                    &&& r is Ok
                    &&& final(self).entries() == put_entry(s2, model_id@, stored_view(model_id@, data@, now_ms))
                    &&& final(self).spec_usage_mb() == saturating_add_u32(u2, size)
                    &&& final(self).spec_counters() == (total, hits, misses, if s2.len() < s1.len() {
                        saturating_add_u64(evictions, 1)
                    } else {
                        evictions
                    })
                }
            }),
    {
        let size_mb = (data.len() / (1024 * 1024)) as u32;
        if !self.can_allocate(size_mb) {
            match self.perform_intelligent_eviction(size_mb, eviction_order) {
                Ok(()) => {},
                Err(e) => {
                    return Err(e);
                },
            }
        }
        let ghost s1 = self.entries();
        let ghost u1 = self.current_usage_mb;
        let ghost e1 = self.evictions;
        let cached_model = CachedModel {
            model_id: model_id.clone(),
            data,
            size_mb,
            load_time_ms: now_ms,
            last_accessed_ms: now_ms,
            access_count: 0,
            warmup_state: WarmupState::Hot,
        };
        let max = self.max_models as usize;
        proof {
            assert(s1.len() <= lru_capacity(self.lru_cache));
        }
        while lru_len(&self.lru_cache) >= max
            invariant
                self.wf(),
                max == self.max_models,
                self.max_models > 0,
                self.max_models == old(self).max_models,
                self.cache_size_mb == old(self).cache_size_mb,
                self.total_requests == old(self).total_requests,
                self.cache_hits == old(self).cache_hits,
                self.cache_misses == old(self).cache_misses,
                s1.len() <= max,
                (self.entries() == s1 && self.current_usage_mb == u1 && self.evictions == e1) || (
                s1.len() >= max && s1.len() > 0 && self.entries() == s1.subrange(1, s1.len() as int)
                    && self.current_usage_mb == saturating_sub_u32(u1, s1[0].1.size_mb)
                    && self.evictions == saturating_add_u64(e1, 1)),
            decreases self.entries().len(),
        {
            let ghost before = self.entries();
            proof {
                assert(before.len() <= max);
                assert(before == s1);
            }
            match lru_pop_lru(&mut self.lru_cache) {
                Some((_evicted_id, evicted_model)) => {
                    self.current_usage_mb = self.current_usage_mb.saturating_sub(evicted_model.size_mb);
                    self.evictions = self.evictions.saturating_add(1);
                },
                None => {},
            }
        }
        proof {
            assert(self.entries() == trimmed(s1, self.max_models));
        }
        let _ = lru_put(&mut self.lru_cache, model_id, cached_model);
        self.current_usage_mb = self.current_usage_mb.saturating_add(size_mb);
        Ok(())
    }
}

/// The cache never holds more models than its limit (ten when the limit is
/// zero), and no model twice.
pub proof fn lemma_model_limit(c: ModelCache)
    requires
        c.wf(),
    ensures
        c.entries().len() <= lru_capacity_for(c.spec_max_models()),
        distinct_keys(c.entries()),
{
}

/// What a store puts in is what a lookup of the same model finds: after
/// `put_entry`, the key is present, its value is the stored one, and it is
/// the most recently used entry.
pub proof fn lemma_stored_model_is_found(s: Seq<(Seq<char>, CachedModelView)>, k: Seq<char>, v: CachedModelView)
    requires
        distinct_keys(s),
    ensures
        has_key(put_entry(s, k, v), k),
        key_index(put_entry(s, k, v), k) == put_entry(s, k, v).len() - 1,
        put_entry(s, k, v)[key_index(put_entry(s, k, v), k)].1 == v,
        distinct_keys(put_entry(s, k, v)),
{
    let t = put_entry(s, k, v);
    let last = t.len() - 1;
    assert(t[last].0 == k);
    if has_key(s, k) {
        let i = key_index(s, k);
        assert forall|a: int, b: int| 0 <= a < b < t.len() implies t[a].0 != t[b].0 by {
            if b == last {
                let ia = if a < i { a } else { a + 1 };
                assert(t[a] == s[ia]);
                assert(s[i].0 == k);
            } else {
                let ia = if a < i { a } else { a + 1 };
                let ib = if b < i { b } else { b + 1 };
                assert(t[a] == s[ia] && t[b] == s[ib]);
            }
        }
    } else {
        assert forall|a: int, b: int| 0 <= a < b < t.len() implies t[a].0 != t[b].0 by {
            if b == last {
                assert(t[a] == s[a]);
            }
        }
    }
    let j = key_index(t, k);
    assert(0 <= j < t.len() && t[j].0 == k);
    if j != last {
        assert(t[j].0 == t[last].0);
    }
}

} // verus!
