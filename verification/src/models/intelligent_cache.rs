//! Storage bookkeeping of the intelligent model cache: which models are
//! held, their sizes, the access order and access counts, and the choice of
//! the model to evict.
//!
//! Times are milliseconds since the Unix epoch, supplied by the caller.

use vstd::prelude::*;
use crate::common::error::{Error, error_kind};
use crate::common::utils::{str_eq, string_eq_str};
use vstd::string::StringExecFns;

verus! {

/// Eviction algorithms available
#[derive(Debug, Clone, Copy, PartialEq, Eq, Structural)]
pub enum EvictionAlgorithm {
    LRU,
    LFU,
    AdaptiveLRU,
    PredictiveLRU,
    HybridScore,
}

/// Cached model representation
#[derive(Debug)]
pub struct CachedModel {
    pub model_id: String,
    pub size_mb: u32,
    pub load_time_ms: u64,
    pub last_accessed_ms: u64,
    pub access_count: u64,
    pub frequency: u32,
    pub data: Vec<u8>,
}

/// Abstract view of a cached model.
pub struct ModelView {
    pub id: Seq<char>,
    pub size_mb: u32,
    pub load_time_ms: u64,
    pub last_accessed_ms: u64,
    pub access_count: u64,
    pub frequency: u32,
    pub data: Seq<u8>,
}

/// View of a cached model.
pub open spec fn mview(m: CachedModel) -> ModelView {
    ModelView {
        id: m.model_id@,
        size_mb: m.size_mb,
        load_time_ms: m.load_time_ms,
        last_accessed_ms: m.last_accessed_ms,
        access_count: m.access_count,
        frequency: m.frequency,
        data: m.data@,
    }
}

/// Cache statistics and metrics
#[derive(Debug, Clone, Copy)]
pub struct CacheStats {
    pub total_requests: u64,
    pub cache_hits: u64,
    pub cache_misses: u64,
    pub evictions: u64,
}

/// Cache storage management
pub struct CacheStorage {
    models: Vec<CachedModel>,
    size_mb: u64,
    access_order: Vec<String>,
    max_size_mb: u64,
    max_models: usize,
    stats: CacheStats,
}

/// Position of the model with identifier `id`, if cached.
pub open spec fn model_index(ms: Seq<ModelView>, id: Seq<char>) -> Option<int> {
    if exists|i: int| 0 <= i < ms.len() && ms[i].id == id {
        Some(choose|i: int| 0 <= i < ms.len() && ms[i].id == id)
    } else {
        None
    }
}

/// Models have distinct identifiers.
pub open spec fn distinct_models(ms: Seq<ModelView>) -> bool {
    forall|i: int, j: int| 0 <= i < ms.len() && 0 <= j < ms.len() && i != j ==> ms[i].id != ms[j].id
}

/// Whether a model with identifier `id` is cached.
pub open spec fn holds(ms: Seq<ModelView>, id: Seq<char>) -> bool {
    exists|i: int| 0 <= i < ms.len() && ms[i].id == id
}

/// The adaptive eviction score of a model at `now` (lower is evicted
/// first), scaled to whole numbers: `60 * size - 100 * minutes idle`, i.e.
/// `6000 * (size / 100 - minutes / 60)`, where the whole minutes idle are
/// rounded toward zero (negative when the last access lies ahead of `now`).
pub open spec fn adaptive_score(m: ModelView, now: u64) -> int {
    let minutes: int = if now >= m.last_accessed_ms { (now - m.last_accessed_ms) / 60_000 } else {
        -((m.last_accessed_ms - now) / 60_000) };
    60 * m.size_mb - 100 * minutes
}

/// Whole minutes from the last access `last` to `now`, rounded toward zero
/// (negative when the access lies ahead of `now`): `adaptive_score` charges
/// 100 per minute of this.
proof fn lemma_idle_minutes_ordered(l1: u64, l2: u64, now: u64)
    requires
        l1 <= l2,
    ensures
        (if now >= l2 { (now - l2) / 60_000 } else { -((l2 - now) / 60_000) })
            <= (if now >= l1 { (now - l1) / 60_000 } else { -((l1 - now) / 60_000) }),
        l2 <= now && l1 + 60_000 <= l2 ==> (now - l2) / 60_000 + 1 <= (now - l1) / 60_000,
{
    if now >= l2 {
        vstd::arithmetic::div_mod::lemma_div_is_ordered(now - l2, now - l1, 60_000);
        if l1 + 60_000 <= l2 {
            let x: int = now - l2;
            vstd::arithmetic::div_mod::lemma_fundamental_div_mod(x, 60_000);
            vstd::arithmetic::div_mod::lemma_fundamental_div_mod_converse_div(x + 60_000, 60_000, x / 60_000 + 1, x % 60_000);
            vstd::arithmetic::div_mod::lemma_div_is_ordered(x + 60_000, now - l1, 60_000);
        }
    } else if now >= l1 {
    } else {
        vstd::arithmetic::div_mod::lemma_div_is_ordered(l1 - now, l2 - now, 60_000);
    }
}

/// Longer idle time never raises the adaptive score: of two models of equal
/// size, the one accessed earlier scores no higher, and strictly lower when
/// it was accessed at least a whole minute earlier (both before `now`).
pub proof fn lemma_idle_models_score_lower(m1: ModelView, m2: ModelView, now: u64)
    requires
        m1.size_mb == m2.size_mb,
        m1.last_accessed_ms <= m2.last_accessed_ms,
    ensures
        adaptive_score(m1, now) <= adaptive_score(m2, now),
        m2.last_accessed_ms <= now && m1.last_accessed_ms + 60_000 <= m2.last_accessed_ms
            ==> adaptive_score(m1, now) < adaptive_score(m2, now),
{
    lemma_idle_minutes_ordered(m1.last_accessed_ms, m2.last_accessed_ms, now);
}

/// Size protects a model in adaptive eviction: of two models last accessed
/// at the same time, the larger scores at least as high (so is evicted no
/// sooner), 60 points per megabyte.
pub proof fn lemma_larger_models_score_higher(m1: ModelView, m2: ModelView, now: u64)
    requires
        m1.last_accessed_ms == m2.last_accessed_ms,
        m1.size_mb <= m2.size_mb,
    ensures
        adaptive_score(m2, now) == adaptive_score(m1, now) + 60 * (m2.size_mb - m1.size_mb),
{
}

/// The LFU choice exists for every non-empty set of models and has the
/// lowest access frequency of all, ahead of every model with that
/// frequency.
pub proof fn lemma_lfu_choice_least_frequent(ms: Seq<ModelView>)
    requires
        ms.len() > 0,
    ensures
        0 <= lfu_position(ms) < ms.len(),
        forall|j: int| 0 <= j < ms.len() ==> ms[lfu_position(ms)].frequency <= #[trigger] ms[j].frequency,
        forall|j: int| 0 <= j < lfu_position(ms) ==> ms[lfu_position(ms)].frequency < #[trigger] ms[j].frequency,
{
    let p = lemma_first_min_frequency_exists(ms, ms.len() as int);
    lemma_lfu_position(ms, p);
}

/// A first model of lowest frequency among the first `n` models.
proof fn lemma_first_min_frequency_exists(ms: Seq<ModelView>, n: int) -> (p: int)
    requires
        0 < n <= ms.len(),
    ensures
        0 <= p < n,
        forall|j: int| 0 <= j < n ==> ms[p].frequency <= #[trigger] ms[j].frequency,
        forall|j: int| 0 <= j < p ==> ms[p].frequency < #[trigger] ms[j].frequency,
        n == ms.len() ==> first_min_frequency(ms, p),
    decreases n,
{
    if n == 1 {
        0
    } else {
        let q = lemma_first_min_frequency_exists(ms, n - 1);
        if ms[n - 1].frequency < ms[q].frequency {
            n - 1
        } else {
            q
        }
    }
}

/// Adaptive eviction never prefers a recently used model to an idle one of
/// the same size: no cached model of the chosen model's size was last
/// accessed a whole minute or more before it (when the chosen model's last
/// access is not ahead of `now`).
pub proof fn lemma_adaptive_choice_is_least_recent_of_its_size(ms: Seq<ModelView>, order: Seq<Seq<char>>, now: u64, k: int)
    requires
        first_min_score(ms, order, now, k),
    ensures
        forall|j: int| 0 <= j < order.len()
            && (#[trigger] ms[model_index(ms, order[j]).unwrap()]).size_mb == ms[model_index(ms, order[k]).unwrap()].size_mb
            && ms[model_index(ms, order[k]).unwrap()].last_accessed_ms <= now
            ==> ms[model_index(ms, order[j]).unwrap()].last_accessed_ms + 60_000
                > ms[model_index(ms, order[k]).unwrap()].last_accessed_ms,
{
    let c = ms[model_index(ms, order[k]).unwrap()];
    assert forall|j: int| 0 <= j < order.len()
        && (#[trigger] ms[model_index(ms, order[j]).unwrap()]).size_mb == c.size_mb
        && c.last_accessed_ms <= now
        implies ms[model_index(ms, order[j]).unwrap()].last_accessed_ms + 60_000 > c.last_accessed_ms by {
        let o = ms[model_index(ms, order[j]).unwrap()];
        if o.last_accessed_ms + 60_000 <= c.last_accessed_ms {
            lemma_idle_models_score_lower(o, c, now);
            assert(order_score(ms, order, k, now) <= order_score(ms, order, j, now));
            assert(false);
        }
    }
}

proof fn lemma_model_index(ms: Seq<ModelView>, id: Seq<char>, i: int)
    requires
        distinct_models(ms),
        0 <= i < ms.len(),
        ms[i].id == id,
    ensures
        model_index(ms, id) == Some(i),
{
}

proof fn lemma_first_occurrence(order: Seq<Seq<char>>, id: Seq<char>, pos: int)
    requires
        0 <= pos < order.len(),
        order[pos] == id,
        forall|j: int| 0 <= j < pos ==> order[j] != id,
    ensures
        touch(order, id) == order.remove(pos).push(id),
{
    let c = choose|i: int| 0 <= i < order.len() && order[i] == id && forall|j: int| 0 <= j < i ==> order[j] != id;
    assert(c == pos) by {
        if c < pos { assert(order[c] != id); }
        if c > pos { assert(order[pos] != id); }
    }
}

/// The order with every occurrence of `id` removed.
pub open spec fn without_id(order: Seq<Seq<char>>, id: Seq<char>) -> Seq<Seq<char>>
    decreases order.len(),
{
    if order.len() == 0 {
        order
    } else {
        let rest = without_id(order.drop_last(), id);
        if order.last() == id { rest } else { rest.push(order.last()) }
    }
}

/// The order after an access to `id`: its first occurrence moves to the back.
pub open spec fn touch(order: Seq<Seq<char>>, id: Seq<char>) -> Seq<Seq<char>> {
    if exists|i: int| 0 <= i < order.len() && order[i] == id {
        let i = choose|i: int| 0 <= i < order.len() && order[i] == id && forall|j: int| 0 <= j < i ==> order[j] != id;
        order.remove(i).push(id)
    } else {
        order.push(id)
    }
}

/// `id` is the first identifier of `ranking` that names a cached model.
pub open spec fn first_ranked(ms: Seq<ModelView>, ranking: Seq<Seq<char>>, id: Seq<char>) -> bool {
    exists|j: int| 0 <= j < ranking.len() && ranking[j] == id && holds(ms, id)
        && forall|i: int| 0 <= i < j ==> !holds(ms, #[trigger] ranking[i])
}

/// No identifier of `ranking` names a cached model.
pub open spec fn none_ranked(ms: Seq<ModelView>, ranking: Seq<Seq<char>>) -> bool {
    forall|i: int| 0 <= i < ranking.len() ==> !holds(ms, #[trigger] ranking[i])
}

/// The identifiers of a list of strings.
pub open spec fn ids_of(v: Seq<String>) -> Seq<Seq<char>> {
    v.map_values(|x: String| x@)
}

/// A model that `put` stored is the one `get` finds under its identifier,
/// with the stored data.
pub proof fn lemma_put_then_get(ms: Seq<ModelView>, id: Seq<char>, stored: ModelView)
    requires
        holds(ms, id),
        ms[model_index(ms, id).unwrap()] == stored,
    ensures
        model_index(ms, id) matches Some(i) && 0 <= i < ms.len() && ms[i].id == id && ms[i].data == stored.data,
{
}

/// Total size in MB of the models.
pub open spec fn sum_sizes(ms: Seq<ModelView>) -> nat
    decreases ms.len(),
{
    if ms.len() == 0 { 0 } else { sum_sizes(ms.drop_last()) + ms.last().size_mb as nat }
}

/// `a - b`, or 0 when `b` is larger.
pub open spec fn sub_or_zero(a: u64, b: nat) -> u64 {
    if a >= b { (a - b) as u64 } else { 0 }
}

/// `a + b`, or `u64::MAX` when the sum does not fit.
pub open spec fn add_or_max(a: u64, b: nat) -> u64 {
    if a + b <= u64::MAX { (a + b) as u64 } else { u64::MAX }
}

/// `kept` and `kept_size` are what is left of the models `ms` and the
/// accounted size `size` after evicting some of the models: every kept model
/// was there before, identifiers stay distinct, and the evicted models'
/// sizes are released (down to 0).
pub open spec fn pruned(ms: Seq<ModelView>, size: u64, kept: Seq<ModelView>, kept_size: u64) -> bool {
    &&& distinct_models(kept)
    &&& kept.len() <= ms.len()
    &&& (forall|k: int| 0 <= k < kept.len() ==> ms.contains(#[trigger] kept[k]))
    &&& sum_sizes(kept) <= sum_sizes(ms)
    &&& kept_size == sub_or_zero(size, (sum_sizes(ms) - sum_sizes(kept)) as nat)
}

/// Removing a model releases its size from the total.
proof fn lemma_sum_sizes_remove(ms: Seq<ModelView>, i: int)
    requires
        0 <= i < ms.len(),
    ensures
        sum_sizes(ms.remove(i)) + ms[i].size_mb == sum_sizes(ms),
    decreases ms.len(),
{
    if i == ms.len() - 1 {
        assert(ms.remove(i) =~= ms.drop_last());
    } else {
        lemma_sum_sizes_remove(ms.drop_last(), i);
        assert(ms.remove(i).drop_last() =~= ms.drop_last().remove(i));
        assert(ms.remove(i).last() == ms.last());
    }
}

/// Position `i` holds the first of the models with the lowest access
/// frequency.
pub open spec fn first_min_frequency(ms: Seq<ModelView>, i: int) -> bool {
    &&& 0 <= i < ms.len()
    &&& forall|j: int| 0 <= j < ms.len() ==> ms[i].frequency <= #[trigger] ms[j].frequency
    &&& forall|j: int| 0 <= j < i ==> ms[i].frequency < #[trigger] ms[j].frequency
}

/// The position of the LFU choice: the first model with the lowest access
/// frequency.
pub open spec fn lfu_position(ms: Seq<ModelView>) -> int {
    choose|i: int| first_min_frequency(ms, i)
}

/// The adaptive score, at `now`, of the model named at position `k` of the
/// access order.
pub open spec fn order_score(ms: Seq<ModelView>, order: Seq<Seq<char>>, k: int, now: u64) -> int {
    adaptive_score(ms[model_index(ms, order[k]).unwrap()], now)
}

/// Position `k` of the access order names the first of the models with the
/// lowest adaptive score at `now`.
pub open spec fn first_min_score(ms: Seq<ModelView>, order: Seq<Seq<char>>, now: u64, k: int) -> bool {
    &&& 0 <= k < order.len()
    &&& forall|j: int| 0 <= j < order.len() ==> order_score(ms, order, k, now) <= #[trigger] order_score(ms, order, j, now)
    &&& forall|j: int| 0 <= j < k ==> order_score(ms, order, k, now) < #[trigger] order_score(ms, order, j, now)
}

/// The position in the access order of the adaptive choice at `now`.
pub open spec fn adaptive_position(ms: Seq<ModelView>, order: Seq<Seq<char>>, now: u64) -> int {
    choose|k: int| first_min_score(ms, order, now, k)
}

/// The first identifier of `ranking` that names a cached model.
pub open spec fn ranked_choice(ms: Seq<ModelView>, ranking: Seq<Seq<char>>) -> Seq<char> {
    choose|id: Seq<char>| first_ranked(ms, ranking, id)
}

/// The model that `algorithm` evicts from the models `ms` with access order
/// `order` at `now`, given the caller's `ranking` for the prediction-based
/// algorithms; `None` when it chooses none.
pub open spec fn eviction_choice(ms: Seq<ModelView>, order: Seq<Seq<char>>, algorithm: EvictionAlgorithm, now: u64,
    ranking: Seq<Seq<char>>) -> Option<Seq<char>> {
    match algorithm {
        EvictionAlgorithm::LRU => if order.len() > 0 { Some(order[0]) } else { None },
        EvictionAlgorithm::LFU => if ms.len() > 0 { Some(ms[lfu_position(ms)].id) } else { None },
        EvictionAlgorithm::AdaptiveLRU => if order.len() > 0 { Some(order[adaptive_position(ms, order, now)]) } else { None },
        EvictionAlgorithm::PredictiveLRU => if !none_ranked(ms, ranking) {
            Some(ranked_choice(ms, ranking))
        } else if order.len() > 0 {
            Some(order[0])
        } else {
            None
        },
        EvictionAlgorithm::HybridScore => if !none_ranked(ms, ranking) { Some(ranked_choice(ms, ranking)) } else { None },
    }
}

/// The bookkeeping of the storage: models, access order, accounted size and
/// eviction count.
pub struct StoreView {
    pub models: Seq<ModelView>,
    pub order: Seq<Seq<char>>,
    pub size_mb: u64,
    pub evictions: u64,
}

/// The storage after evicting the model `id`: it leaves the models and the
/// access order, its size is released (down to 0) and the eviction is
/// counted; nothing changes when it is not cached.
pub open spec fn evict_step(st: StoreView, id: Seq<char>) -> StoreView {
    match model_index(st.models, id) {
        Some(i) => StoreView {
            models: st.models.remove(i),
            order: without_id(st.order, id),
            size_mb: sub_or_zero(st.size_mb, st.models[i].size_mb as nat),
            evictions: add_or_max(st.evictions, 1),
        },
        None => st,
    }
}

/// Whether a model of `size_mb` does not fit: the size budget would be
/// exceeded or every model slot is taken.
pub open spec fn lacks_room(st: StoreView, size_mb: u32, max_size_mb: u64, max_models: usize) -> bool {
    st.size_mb + size_mb > max_size_mb || st.models.len() >= max_models
}

/// The eviction run that makes room for a model of `size_mb`: while it
/// does not fit, the model that `eviction_choice` picks is evicted. The
/// result is the storage left and whether the run ended with room (`false`
/// when the algorithm chose no model while room was still lacking).
pub open spec fn run_eviction(st: StoreView, size_mb: u32, max_size_mb: u64, max_models: usize,
    algorithm: EvictionAlgorithm, now: u64, ranking: Seq<Seq<char>>) -> (StoreView, bool)
    decreases st.models.len(),
{
    if !lacks_room(st, size_mb, max_size_mb, max_models) {
        (st, true)
    } else {
        match eviction_choice(st.models, st.order, algorithm, now, ranking) {
            None => (st, false),
            Some(id) => if model_index(st.models, id) is Some {
                run_eviction(evict_step(st, id), size_mb, max_size_mb, max_models, algorithm, now, ranking)
            } else {
                (st, true)
            },
        }
    }
}

proof fn lemma_lfu_position(ms: Seq<ModelView>, i: int)
    requires
        first_min_frequency(ms, i),
    ensures
        lfu_position(ms) == i,
{
    let c = lfu_position(ms);
    assert(first_min_frequency(ms, c));
    if c < i {
        assert(ms[i].frequency < ms[c].frequency);
    } else if c > i {
        assert(ms[c].frequency < ms[i].frequency);
    }
}

proof fn lemma_adaptive_position(ms: Seq<ModelView>, order: Seq<Seq<char>>, now: u64, k: int)
    requires
        first_min_score(ms, order, now, k),
    ensures
        adaptive_position(ms, order, now) == k,
{
    let c = adaptive_position(ms, order, now);
    assert(first_min_score(ms, order, now, c));
    if c < k {
        assert(order_score(ms, order, k, now) < order_score(ms, order, c, now));
    } else if c > k {
        assert(order_score(ms, order, c, now) < order_score(ms, order, k, now));
    }
}

proof fn lemma_ranked_choice(ms: Seq<ModelView>, ranking: Seq<Seq<char>>, id: Seq<char>)
    requires
        first_ranked(ms, ranking, id),
    ensures
        ranked_choice(ms, ranking) == id,
{
    let c = ranked_choice(ms, ranking);
    assert(first_ranked(ms, ranking, c));
    let j1 = choose|j: int| 0 <= j < ranking.len() && ranking[j] == id && holds(ms, id)
        && forall|i: int| 0 <= i < j ==> !holds(ms, #[trigger] ranking[i]);
    let j2 = choose|j: int| 0 <= j < ranking.len() && ranking[j] == c && holds(ms, c)
        && forall|i: int| 0 <= i < j ==> !holds(ms, #[trigger] ranking[i]);
    if j1 < j2 {
        assert(!holds(ms, ranking[j1]));
    } else if j2 < j1 {
        assert(!holds(ms, ranking[j2]));
    }
}

fn copy_string(s: &String) -> (r: String)
    ensures
        r@ == s@,
{
    s.clone()
}

fn copy_bytes(v: &Vec<u8>) -> (r: Vec<u8>)
    ensures
        r@ == v@,
{
    let mut out: Vec<u8> = Vec::new();
    for i in 0..v.len()
        invariant
            out@ == v@.subrange(0, i as int),
    {
        out.push(v[i]);
    }
    proof { assert(v@.subrange(0, v@.len() as int) =~= v@); }
    out
}

impl CacheStorage {
    /// The cached models.
    pub closed spec fn spec_models(&self) -> Seq<ModelView> {
        self.models@.map_values(|m: CachedModel| mview(m))
    }

    /// Total size in MB, as accounted.
    pub closed spec fn spec_size_mb(&self) -> u64 {
        self.size_mb
    }

    /// Access order, least recent first (an identifier may occur more than once).
    pub closed spec fn spec_order(&self) -> Seq<Seq<char>> {
        self.access_order@.map_values(|s: String| s@)
    }

    /// Maximum total size in MB.
    pub closed spec fn spec_max_size_mb(&self) -> u64 {
        self.max_size_mb
    }

    /// Maximum number of models.
    pub closed spec fn spec_max_models(&self) -> usize {
        self.max_models
    }

    /// Statistics.
    pub closed spec fn spec_stats(&self) -> CacheStats {
        self.stats
    }

    /// The bookkeeping: models, access order, accounted size and evictions.
    pub open spec fn store_view(&self) -> StoreView {
        StoreView {
            models: self.spec_models(),
            order: self.spec_order(),
            size_mb: self.spec_size_mb(),
            evictions: self.spec_stats().evictions,
        }
    }

    /// Models have distinct identifiers, every identifier in the access
    /// order belongs to a cached model, and every cached model is in the
    /// access order.
    pub closed spec fn wf(&self) -> bool {
        &&& distinct_models(self.spec_models())
        &&& forall|k: int| 0 <= k < self.spec_order().len() ==> holds(self.spec_models(), #[trigger] self.spec_order()[k])
        &&& forall|k: int| 0 <= k < self.spec_models().len() ==> self.spec_order().contains(#[trigger] self.spec_models()[k].id)
    }

    /// An empty cache with the given limits.
    pub fn new(max_size_mb: u64, max_models: usize) -> (r: Self)
        ensures
            r.wf(),
            r.spec_models() == Seq::<ModelView>::empty(),
            r.spec_order() == Seq::<Seq<char>>::empty(),
            r.spec_size_mb() == 0,
            r.spec_max_size_mb() == max_size_mb,
            r.spec_max_models() == max_models,
            r.spec_stats() == (CacheStats { total_requests: 0, cache_hits: 0, cache_misses: 0, evictions: 0 }),
    {
        let r = CacheStorage {
            models: Vec::new(),
            size_mb: 0,
            access_order: Vec::new(),
            max_size_mb,
            max_models,
            stats: CacheStats { total_requests: 0, cache_hits: 0, cache_misses: 0, evictions: 0 },
        };
        assert(r.spec_models() =~= Seq::<ModelView>::empty());
        assert(r.spec_order() =~= Seq::<Seq<char>>::empty());
        r
    }

    fn find(&self, id: &str) -> (r: Option<usize>)
        requires
            self.wf(),
        ensures
            r matches Some(i) ==> i < self.models@.len() && model_index(self.spec_models(), id@) == Some(i as int),
            r is None ==> !holds(self.spec_models(), id@) && model_index(self.spec_models(), id@) is None,
    {
        let n = self.models.len();
        for i in 0..n
            invariant
                n == self.models@.len(),
                self.wf(),
                forall|j: int| 0 <= j < i ==> self.spec_models()[j].id != id@,
        {
            if string_eq_str(&self.models[i].model_id, id) {
                proof { lemma_model_index(self.spec_models(), id@, i as int); }
                return Some(i);
            }
        }
        None
    }

    /// Check if a model is cached
    pub fn contains(&self, model_id: &str) -> (r: bool)
        requires
            self.wf(),
        ensures
            r == holds(self.spec_models(), model_id@),
    {
        self.find(model_id).is_some()
    }

    /// Number of cached models.
    pub fn len(&self) -> (r: usize)
        ensures
            r == self.spec_models().len(),
    {
        self.models.len()
    }

    /// Total accounted size in MB.
    pub fn size_mb(&self) -> (r: u64)
        ensures
            r == self.spec_size_mb(),
    {
        self.size_mb
    }

    /// Statistics.
    pub fn stats(&self) -> (r: CacheStats)
        ensures
            r == self.spec_stats(),
    {
        self.stats
    }

    /// Whether storing a model of `size_mb` needs an eviction first: the
    /// size budget would be exceeded or the model slots are all taken.
    pub fn needs_room(&self, size_mb: u32) -> (r: bool)
        ensures
            r == (self.spec_size_mb() + size_mb > self.spec_max_size_mb() || self.spec_models().len() >= self.spec_max_models()),
    {
        (self.size_mb as u128) + (size_mb as u128) > self.max_size_mb as u128 || self.models.len() >= self.max_models
    }

    /// The least recently used model: the front of the access order.
    pub fn lru_candidate(&self) -> (r: Option<String>)
        ensures
            self.spec_order().len() == 0 ==> r is None,
            self.spec_order().len() > 0 ==> (r matches Some(s) && s@ == self.spec_order()[0]),
    {
        if self.access_order.len() == 0 {
            None
        } else {
            Some(copy_string(&self.access_order[0]))
        }
    }

    /// A least frequently used model: one whose access frequency is minimal
    /// (the first such in storage order).
    pub fn lfu_candidate(&self) -> (r: Option<String>)
        ensures
            self.spec_models().len() == 0 ==> r is None,
            self.spec_models().len() > 0 ==> (r matches Some(s) && exists|i: int| 0 <= i < self.spec_models().len()
                && #[trigger] self.spec_models()[i].id == s@
                && (forall|j: int| 0 <= j < self.spec_models().len() ==> self.spec_models()[i].frequency <= #[trigger] self.spec_models()[j].frequency)
                && forall|j: int| 0 <= j < i ==> self.spec_models()[i].frequency < #[trigger] self.spec_models()[j].frequency),
            self.spec_models().len() > 0 ==> r is Some && r->0@ == self.spec_models()[lfu_position(self.spec_models())].id,
    {
        let n = self.models.len();
        if n == 0 {
            return None;
        }
        let mut best: usize = 0;
        for i in 1..n
            invariant
                n == self.models@.len(),
                best < n,
                best < i,
                forall|j: int| 0 <= j < i ==> self.spec_models()[best as int].frequency <= #[trigger] self.spec_models()[j].frequency,
                forall|j: int| 0 <= j < best ==> self.spec_models()[best as int].frequency < #[trigger] self.spec_models()[j].frequency,
        {
            if self.models[i].frequency < self.models[best].frequency {
                best = i;
            }
        }
        let r = copy_string(&self.models[best].model_id);
        assert(self.spec_models()[best as int].id == r@);
        proof { lemma_lfu_position(self.spec_models(), best as int); }
        Some(r)
    }

    /// The adaptive choice at `now_ms`: the cached model, in access order,
    /// with the lowest adaptive score (the first such).
    pub fn adaptive_candidate(&self, now_ms: u64) -> (r: Option<String>)
        requires
            self.wf(),
        ensures
            self.spec_order().len() == 0 ==> r is None,
            self.spec_order().len() > 0 ==> (r matches Some(s) && exists|k: int| 0 <= k < self.spec_order().len()
                && #[trigger] self.spec_order()[k] == s@
                && forall|j: int| 0 <= j < self.spec_order().len() ==>
                    adaptive_score(self.spec_models()[model_index(self.spec_models(), self.spec_order()[k]).unwrap()], now_ms)
                    <= adaptive_score(self.spec_models()[model_index(self.spec_models(), #[trigger] self.spec_order()[j]).unwrap()], now_ms)
                && forall|j: int| 0 <= j < k ==>
                    adaptive_score(self.spec_models()[model_index(self.spec_models(), self.spec_order()[k]).unwrap()], now_ms)
                    < adaptive_score(self.spec_models()[model_index(self.spec_models(), #[trigger] self.spec_order()[j]).unwrap()], now_ms)),
            self.spec_order().len() > 0 ==> r is Some
                && r->0@ == self.spec_order()[adaptive_position(self.spec_models(), self.spec_order(), now_ms)],
    {
        let n = self.access_order.len();
        if n == 0 {
            return None;
        }
        let mut best: usize = 0;
        let mut best_score: i128 = self.score_of(0, now_ms);
        for k in 1..n
            invariant
                self.wf(),
                n == self.access_order@.len(),
                best < n,
                best < k,
                best_score == adaptive_score(self.spec_models()[model_index(self.spec_models(), self.spec_order()[best as int]).unwrap()], now_ms),
                forall|j: int| 0 <= j < k ==>
                    best_score <= adaptive_score(self.spec_models()[model_index(self.spec_models(), #[trigger] self.spec_order()[j]).unwrap()], now_ms),
                forall|j: int| 0 <= j < best ==>
                    best_score < adaptive_score(self.spec_models()[model_index(self.spec_models(), #[trigger] self.spec_order()[j]).unwrap()], now_ms),
        {
            let s = self.score_of(k, now_ms);
            if s < best_score {
                best = k;
                best_score = s;
            }
        }
        let r = copy_string(&self.access_order[best]);
        assert(self.spec_order()[best as int] == r@);
        assert(forall|j: int| 0 <= j < best ==>
            best_score < adaptive_score(self.spec_models()[model_index(self.spec_models(), #[trigger] self.spec_order()[j]).unwrap()], now_ms));
        proof {
            let ms = self.spec_models();
            let order = self.spec_order();
            assert forall|j: int| 0 <= j < order.len() implies
                order_score(ms, order, best as int, now_ms) <= #[trigger] order_score(ms, order, j, now_ms) by {
                assert(best_score <= adaptive_score(ms[model_index(ms, order[j]).unwrap()], now_ms));
            }
            assert forall|j: int| 0 <= j < best implies
                order_score(ms, order, best as int, now_ms) < #[trigger] order_score(ms, order, j, now_ms) by {
                assert(best_score < adaptive_score(ms[model_index(ms, order[j]).unwrap()], now_ms));
            }
            lemma_adaptive_position(ms, order, now_ms, best as int);
        }
        Some(r)
    }

    fn score_of(&self, k: usize, now_ms: u64) -> (r: i128)
        requires
            self.wf(),
            k < self.access_order@.len(),
        ensures
            r == adaptive_score(self.spec_models()[model_index(self.spec_models(), self.spec_order()[k as int]).unwrap()], now_ms),
    {
        assert(holds(self.spec_models(), self.spec_order()[k as int]));
        let i = self.find(self.access_order[k].as_str()).unwrap();
        let m = &self.models[i];
        let minutes: i128 = if now_ms >= m.last_accessed_ms {
            ((now_ms - m.last_accessed_ms) / 60_000) as i128
        } else {
            -(((m.last_accessed_ms - now_ms) / 60_000) as i128)
        };
        60 * (m.size_mb as i128) - 100 * minutes
    }

    /// Evict the model with identifier `id`: it leaves the storage, every
    /// occurrence of it leaves the access order, its size is released and the
    /// eviction is counted. Returns the released size, or `None` (and no
    /// change) when the model is not cached.
    pub fn evict(&mut self, id: &str) -> (r: Option<u32>)
        requires
            old(self).wf(),
        ensures
            final(self).store_view() == evict_step(old(self).store_view(), id@),
            final(self).spec_stats().total_requests == old(self).spec_stats().total_requests,
            final(self).spec_stats().cache_hits == old(self).spec_stats().cache_hits,
            final(self).spec_stats().cache_misses == old(self).spec_stats().cache_misses,
            final(self).wf(),
            final(self).spec_max_size_mb() == old(self).spec_max_size_mb(),
            final(self).spec_max_models() == old(self).spec_max_models(),
            match model_index(old(self).spec_models(), id@) {
                Some(i) => {
                    &&& r == Some(old(self).spec_models()[i].size_mb)
                    &&& final(self).spec_models() == old(self).spec_models().remove(i)
                    &&& final(self).spec_order() == without_id(old(self).spec_order(), id@)
                    &&& final(self).spec_size_mb() == (if old(self).spec_size_mb() >= old(self).spec_models()[i].size_mb {
                        (old(self).spec_size_mb() - old(self).spec_models()[i].size_mb) as u64 } else { 0 })
                    &&& final(self).spec_stats() == (CacheStats { evictions: old(self).spec_stats().evictions.saturating_add(1),
                        ..old(self).spec_stats() })
                },
                None => r is None && final(self).spec_models() == old(self).spec_models()
                    && final(self).spec_order() == old(self).spec_order()
                    && final(self).spec_size_mb() == old(self).spec_size_mb()
                    && final(self).spec_stats() == old(self).spec_stats(),
            },
    {
        let ghost old_order = self.spec_order();
        match self.find(id) {
            None => None,
            Some(i) => {
                let ghost ms = self.spec_models();
                let m = self.models.remove(i);
                proof {
                    assert(self.spec_models() =~= ms.remove(i as int));
                }
                self.size_mb = if self.size_mb >= m.size_mb as u64 { self.size_mb - m.size_mb as u64 } else { 0 };
                self.remove_from_order(id);
                self.stats.evictions = self.stats.evictions.saturating_add(1);
                proof {
                    assert forall|a: int, b: int| 0 <= a < self.spec_models().len() && 0 <= b < self.spec_models().len() && a != b
                        implies self.spec_models()[a].id != self.spec_models()[b].id by {
                        let a2 = if a < i as int { a } else { a + 1 };
                        let b2 = if b < i as int { b } else { b + 1 };
                        assert(self.spec_models()[a] == ms[a2]);
                        assert(self.spec_models()[b] == ms[b2]);
                    }
                    assert forall|k: int| 0 <= k < self.spec_order().len() implies holds(self.spec_models(), #[trigger] self.spec_order()[k]) by {
                        let oid = self.spec_order()[k];
                        assert(oid != id@);
                        assert(old_order.contains(oid));
                        let j = choose|j: int| 0 <= j < old_order.len() && old_order[j] == oid;
                        assert(old(self).spec_order()[j] == oid);
                        assert(holds(ms, oid));
                        let w = choose|w: int| 0 <= w < ms.len() && ms[w].id == oid;
                        assert(w != i as int);
                        let w2 = if w < i as int { w } else { w - 1 };
                        assert(self.spec_models()[w2] == ms[w]);
                    }
                }
                Some(m.size_mb)
            },
        }
    }

    fn remove_from_order(&mut self, id: &str)
        ensures
            final(self).spec_order() == without_id(old(self).spec_order(), id@),
            forall|k: int| 0 <= k < final(self).spec_order().len() ==> (#[trigger] final(self).spec_order()[k]) != id@
                && old(self).spec_order().contains(final(self).spec_order()[k]),
            forall|x: Seq<char>| #[trigger] old(self).spec_order().contains(x) && x != id@ ==> final(self).spec_order().contains(x),
            final(self).models == old(self).models,
            final(self).size_mb == old(self).size_mb,
            final(self).stats == old(self).stats,
            final(self).max_size_mb == old(self).max_size_mb,
            final(self).max_models == old(self).max_models,
    {
        let ghost order = self.spec_order();
        let n = self.access_order.len();
        let mut kept: Vec<String> = Vec::new();
        for i in 0..n
            invariant
                n == self.access_order@.len(),
                order == self.spec_order(),
                kept@.map_values(|s: String| s@) == without_id(order.subrange(0, i as int), id@),
                forall|k: int| 0 <= k < kept@.len() ==> (#[trigger] kept@[k])@ != id@ && order.contains(kept@[k]@),
                forall|j: int| 0 <= j < i && #[trigger] order[j] != id@ ==> kept@.map_values(|s: String| s@).contains(order[j]),
        {
            proof {
                let s = order.subrange(0, i as int + 1);
                assert(s.drop_last() =~= order.subrange(0, i as int));
            }
            if !string_eq_str(&self.access_order[i], id) {
                let c = copy_string(&self.access_order[i]);
                proof { assert(order[i as int] == c@); }
                let ghost before = kept@.map_values(|s: String| s@);
                kept.push(c);
                assert(kept@.map_values(|s: String| s@) =~= without_id(order.subrange(0, i as int), id@).push(c@));
                proof {
                    assert(kept@.map_values(|s: String| s@) =~= before.push(c@));
                    assert forall|j: int| 0 <= j < i + 1 && #[trigger] order[j] != id@ implies
                        kept@.map_values(|s: String| s@).contains(order[j]) by {
                        if j < i {
                            let w = choose|w: int| 0 <= w < before.len() && before[w] == order[j];
                            assert(kept@.map_values(|s: String| s@)[w] == order[j]);
                        } else {
                            assert(kept@.map_values(|s: String| s@)[before.len() as int] == order[j]);
                        }
                    }
                }
            }
        }
        proof {
            assert(order.subrange(0, n as int) =~= order);
            assert forall|x: Seq<char>| #[trigger] order.contains(x) && x != id@ implies
                kept@.map_values(|s: String| s@).contains(x) by {
                let j = choose|j: int| 0 <= j < order.len() && order[j] == x;
                assert(order[j] != id@);
            }
        }
        self.access_order = kept;
    }

    /// Store a model at time `now_ms` without evicting: it replaces a model
    /// with the same identifier, its size is added to the accounted size,
    /// it goes to the back of the access order with one access counted.
    pub fn insert(&mut self, model_id: String, data: Vec<u8>, size_mb: u32, now_ms: u64)
        requires
            old(self).wf(),
        ensures
            final(self).wf(),
            final(self).spec_max_size_mb() == old(self).spec_max_size_mb(),
            final(self).spec_max_models() == old(self).spec_max_models(),
            final(self).spec_stats() == old(self).spec_stats(),
            final(self).spec_size_mb() == old(self).spec_size_mb().saturating_add(size_mb as u64),
            final(self).spec_order() == old(self).spec_order().push(model_id@),
            ({
                let fresh = ModelView { id: model_id@, size_mb, load_time_ms: now_ms, last_accessed_ms: now_ms, access_count: 1,
                    frequency: 1, data: data@ };
                match model_index(old(self).spec_models(), model_id@) {
                    Some(i) => final(self).spec_models() == old(self).spec_models().update(i, fresh),
                    None => final(self).spec_models() == old(self).spec_models().push(fresh),
                }
            }),
    {
        let found = self.find(model_id.as_str());
        let key = copy_string(&model_id);
        let m = CachedModel {
            model_id,
            size_mb,
            load_time_ms: now_ms,
            last_accessed_ms: now_ms,
            access_count: 1,
            frequency: 1,
            data,
        };
        let ghost ms = self.spec_models();
        let ghost mv = mview(m);
        match found {
            Some(i) => {
                self.models.set(i, m);
                proof {
                    assert(self.spec_models() =~= ms.update(i as int, mv));
                    assert forall|a: int, b: int| 0 <= a < self.spec_models().len() && 0 <= b < self.spec_models().len() && a != b
                        implies self.spec_models()[a].id != self.spec_models()[b].id by {
                        assert(self.spec_models()[a].id == ms[a].id);
                        assert(self.spec_models()[b].id == ms[b].id);
                    }
                }
            },
            None => {
                self.models.push(m);
                proof {
                    assert(self.spec_models() =~= ms.push(mv));
                }
            },
        }
        self.size_mb = self.size_mb.saturating_add(size_mb as u64);
        let ghost order = self.spec_order();
        self.access_order.push(key);
        proof {
            assert(self.spec_order() =~= order.push(mv.id));
            assert forall|k: int| 0 <= k < self.spec_order().len() implies holds(self.spec_models(), #[trigger] self.spec_order()[k]) by {
                if k < order.len() {
                    let oid = order[k];
                    assert(old(self).spec_order()[k] == oid);
                    assert(holds(ms, oid));
                    let w = choose|w: int| 0 <= w < ms.len() && ms[w].id == oid;
                    assert(self.spec_models()[w].id == oid);
                } else {
                    match found {
                        Some(i) => { assert(self.spec_models()[i as int].id == mv.id); },
                        None => { assert(self.spec_models()[ms.len() as int].id == mv.id); },
                    }
                }
            }
            assert(self.spec_order()[order.len() as int] == mv.id);
            assert forall|k: int| 0 <= k < self.spec_models().len() implies
                self.spec_order().contains(#[trigger] self.spec_models()[k].id) by {
                if self.spec_models()[k].id != mv.id {
                    assert(self.spec_models()[k] == ms[k]);
                    assert(order.contains(ms[k].id));
                    let j = choose|j: int| 0 <= j < order.len() && order[j] == ms[k].id;
                    assert(self.spec_order()[j] == ms[k].id);
                }
            }
        }
    }

    /// Get a model's data at time `now_ms`. A hit counts the access (count,
    /// frequency, time), moves the model to the back of the access order and
    /// returns a copy of its data; a miss is counted and returns `None`.
    #[verifier::rlimit(30)]
    pub fn get(&mut self, model_id: &str, now_ms: u64) -> (r: Option<Vec<u8>>)
        requires
            old(self).wf(),
        ensures
            final(self).wf(),
            final(self).spec_max_size_mb() == old(self).spec_max_size_mb(),
            final(self).spec_max_models() == old(self).spec_max_models(),
            final(self).spec_size_mb() == old(self).spec_size_mb(),
            final(self).spec_stats().total_requests == old(self).spec_stats().total_requests.saturating_add(1),
            final(self).spec_stats().evictions == old(self).spec_stats().evictions,
            match model_index(old(self).spec_models(), model_id@) {
                Some(i) => {
                    let m = old(self).spec_models()[i];
                    &&& r matches Some(d) && d@ == m.data
                    &&& final(self).spec_models() == old(self).spec_models().update(i, ModelView {
                        last_accessed_ms: now_ms,
                        access_count: m.access_count.saturating_add(1),
                        frequency: m.frequency.saturating_add(1),
                        ..m
                    })
                    &&& final(self).spec_order() == touch(old(self).spec_order(), model_id@)
                    &&& final(self).spec_stats().cache_hits == old(self).spec_stats().cache_hits.saturating_add(1)
                    &&& final(self).spec_stats().cache_misses == old(self).spec_stats().cache_misses
                },
                None => {
                    &&& r is None
                    &&& final(self).spec_models() == old(self).spec_models()
                    &&& final(self).spec_order() == old(self).spec_order()
                    &&& final(self).spec_stats().cache_misses == old(self).spec_stats().cache_misses.saturating_add(1)
                    &&& final(self).spec_stats().cache_hits == old(self).spec_stats().cache_hits
                },
            },
    {
        let ghost old_order = self.spec_order();
        let found = self.find(model_id);
        self.stats.total_requests = self.stats.total_requests.saturating_add(1);
        match found {
            None => {
                self.stats.cache_misses = self.stats.cache_misses.saturating_add(1);
                None
            },
            Some(i) => {
                let ghost ms = self.spec_models();
                let data = copy_bytes(&self.models[i].data);
                let mut m = self.models.remove(i);
                m.last_accessed_ms = now_ms;
                m.access_count = m.access_count.saturating_add(1);
                m.frequency = m.frequency.saturating_add(1);
                let ghost mv = mview(m);
                self.models.insert(i, m);
                proof {
                    assert(self.spec_models() =~= ms.update(i as int, mv));
                    assert forall|a: int, b: int| 0 <= a < self.spec_models().len() && 0 <= b < self.spec_models().len() && a != b
                        implies self.spec_models()[a].id != self.spec_models()[b].id by {
                        assert(self.spec_models()[a].id == ms[a].id);
                        assert(self.spec_models()[b].id == ms[b].id);
                    }
                }
                self.touch_order(model_id);
                proof {
                    assert forall|k: int| 0 <= k < self.spec_order().len() implies holds(self.spec_models(), #[trigger] self.spec_order()[k]) by {
                        let oid = self.spec_order()[k];
                        if oid != model_id@ {
                            assert(old_order.contains(oid));
                            let j = choose|j: int| 0 <= j < old_order.len() && old_order[j] == oid;
                            assert(old(self).spec_order()[j] == oid);
                        }
                        assert(holds(ms, oid));
                        let w = choose|w: int| 0 <= w < ms.len() && ms[w].id == oid;
                        assert(self.spec_models()[w].id == oid);
                    }
                    assert forall|k: int| 0 <= k < self.spec_models().len() implies
                        self.spec_order().contains(#[trigger] self.spec_models()[k].id) by {
                        assert(self.spec_models()[k].id == ms[k].id);
                        assert(old_order.contains(ms[k].id));
                    }
                }
                self.stats.cache_hits = self.stats.cache_hits.saturating_add(1);
                Some(data)
            },
        }
    }

    #[verifier::rlimit(40)]
    fn touch_order(&mut self, id: &str)
        ensures
            final(self).spec_order() == touch(old(self).spec_order(), id@),
            forall|k: int| 0 <= k < final(self).spec_order().len() ==>
                (#[trigger] final(self).spec_order()[k] == id@ || old(self).spec_order().contains(final(self).spec_order()[k])),
            forall|x: Seq<char>| #[trigger] old(self).spec_order().contains(x) ==> final(self).spec_order().contains(x),
            final(self).spec_order().contains(id@),
            final(self).models == old(self).models,
            final(self).size_mb == old(self).size_mb,
            final(self).stats == old(self).stats,
            final(self).max_size_mb == old(self).max_size_mb,
            final(self).max_models == old(self).max_models,
    {
        let ghost order = self.spec_order();
        let n = self.access_order.len();
        let mut pos: usize = 0;
        while pos < n && !string_eq_str(&self.access_order[pos], id)
            invariant
                n == self.access_order@.len(),
                order == self.spec_order(),
                pos <= n,
                forall|j: int| 0 <= j < pos ==> order[j] != id@,
            decreases n - pos,
        {
            pos = pos + 1;
        }
        if pos < n {
            let removed = self.access_order.remove(pos);
            proof {
                lemma_first_occurrence(order, id@, pos as int);
                assert(removed@ == id@);
            }
            self.access_order.push(removed);
            proof {
                assert(self.spec_order() =~= order.remove(pos as int).push(id@));
                assert forall|k: int| 0 <= k < self.spec_order().len() implies
                    (#[trigger] self.spec_order()[k] == id@ || order.contains(self.spec_order()[k])) by {
                    if k < pos as int { assert(self.spec_order()[k] == order[k]); }
                    else if k < n - 1 { assert(self.spec_order()[k] == order[k + 1]); }
                }
                assert(self.spec_order()[n - 1] == id@);
                assert forall|x: Seq<char>| #[trigger] order.contains(x) implies self.spec_order().contains(x) by {
                    let j = choose|j: int| 0 <= j < order.len() && order[j] == x;
                    if j < pos { assert(self.spec_order()[j] == x); }
                    else if j > pos { assert(self.spec_order()[j - 1] == x); }
                    else { assert(self.spec_order()[n - 1] == x); }
                }
            }
        } else {
            let s = String::from_str(id);
            self.access_order.push(s);
            proof {
                assert(!exists|i: int| 0 <= i < order.len() && order[i] == id@);
                assert(self.spec_order() =~= order.push(id@));
                assert forall|k: int| 0 <= k < self.spec_order().len() implies
                    (#[trigger] self.spec_order()[k] == id@ || order.contains(self.spec_order()[k])) by {
                    if k < order.len() { assert(self.spec_order()[k] == order[k]); }
                }
                assert(self.spec_order()[order.len() as int] == id@);
                assert forall|x: Seq<char>| #[trigger] order.contains(x) implies self.spec_order().contains(x) by {
                    let j = choose|j: int| 0 <= j < order.len() && order[j] == x;
                    assert(self.spec_order()[j] == x);
                }
            }
        }
    }

    /// The first identifier of `ranking` that names a cached model.
    pub fn ranked_candidate(&self, ranking: &Vec<String>) -> (r: Option<String>)
        requires
            self.wf(),
        ensures
            r is Some ==> first_ranked(self.spec_models(), ids_of(ranking@), r->0@),
            r is Some ==> r->0@ == ranked_choice(self.spec_models(), ids_of(ranking@)),
            r is None ==> none_ranked(self.spec_models(), ids_of(ranking@)),
    {
        let n = ranking.len();
        for j in 0..n
            invariant
                n == ranking@.len(),
                self.wf(),
                forall|i: int| 0 <= i < j ==> !holds(self.spec_models(), #[trigger] ids_of(ranking@)[i]),
        {
            if self.contains(ranking[j].as_str()) {
                let s = copy_string(&ranking[j]);
                assert(ids_of(ranking@)[j as int] == s@);
                proof { lemma_ranked_choice(self.spec_models(), ids_of(ranking@), s@); }
                return Some(s);
            }
        }
        None
    }

    /// The model the algorithm evicts next at `now_ms`.
    ///
    /// LRU, LFU and the adaptive algorithm rank the cached models themselves.
    /// The prediction-based algorithms follow `ranking`, the caller's order
    /// of preference computed from usage predictions: the first ranked model
    /// that is cached is chosen; failing one, PredictiveLRU falls back to the
    /// least recently used model and HybridScore chooses none.
    pub fn select_eviction_candidate(&self, algorithm: EvictionAlgorithm, now_ms: u64, ranking: &Vec<String>) -> (r: Option<String>)
        requires
            self.wf(),
        ensures
            r matches Some(s) ==> holds(self.spec_models(), s@),
            (algorithm == EvictionAlgorithm::LRU && self.spec_order().len() > 0) ==> (r matches Some(s) && s@ == self.spec_order()[0]),
            (algorithm == EvictionAlgorithm::LFU && self.spec_models().len() > 0) ==> r is Some,
            (algorithm == EvictionAlgorithm::AdaptiveLRU && self.spec_order().len() > 0) ==> r is Some,
            (algorithm == EvictionAlgorithm::PredictiveLRU || algorithm == EvictionAlgorithm::HybridScore)
                && !none_ranked(self.spec_models(), ids_of(ranking@))
                ==> r is Some && first_ranked(self.spec_models(), ids_of(ranking@), r->0@),
            algorithm == EvictionAlgorithm::HybridScore && none_ranked(self.spec_models(), ids_of(ranking@)) ==> r is None,
            algorithm == EvictionAlgorithm::PredictiveLRU && none_ranked(self.spec_models(), ids_of(ranking@))
                ==> (if self.spec_order().len() > 0 { r is Some && r->0@ == self.spec_order()[0] } else { r is None }),
            (algorithm == EvictionAlgorithm::LRU || algorithm == EvictionAlgorithm::AdaptiveLRU) && self.spec_order().len() == 0 ==> r is None,
            algorithm == EvictionAlgorithm::LFU && self.spec_models().len() == 0 ==> r is None,
            (r is Some) == (eviction_choice(self.spec_models(), self.spec_order(), algorithm, now_ms, ids_of(ranking@)) is Some),
            r is Some ==> r->0@ == eviction_choice(self.spec_models(), self.spec_order(), algorithm, now_ms, ids_of(ranking@))->0,
    {
        match algorithm {
            EvictionAlgorithm::LRU => {
                let r = self.lru_candidate();
                proof {
                    if self.spec_order().len() > 0 {
                        assert(holds(self.spec_models(), self.spec_order()[0]));
                    }
                }
                r
            },
            EvictionAlgorithm::LFU => self.lfu_candidate(),
            EvictionAlgorithm::AdaptiveLRU => self.adaptive_candidate(now_ms),
            EvictionAlgorithm::PredictiveLRU => {
                let ranked = self.ranked_candidate(ranking);
                match ranked {
                    Some(s) => Some(s),
                    None => {
                        let r = self.lru_candidate();
                        proof {
                            if self.spec_order().len() > 0 {
                                assert(holds(self.spec_models(), self.spec_order()[0]));
                            }
                        }
                        r
                    },
                }
            },
            EvictionAlgorithm::HybridScore => self.ranked_candidate(ranking),
        }
    }

    /// Store a model at time `now_ms`, evicting first.
    ///
    /// While the model would not fit (size budget or model slots), the model
    /// chosen by `algorithm` (with `ranking` for the prediction-based
    /// algorithms, see `select_eviction_candidate` and `eviction_choice`) is
    /// evicted, each eviction counted and its size released, exactly as
    /// `run_eviction` describes; nothing is evicted when the model fits from
    /// the start. When no model is chosen the store fails with an
    /// internal error and the new model is not stored: for every algorithm
    /// but HybridScore that happens only once the storage is empty.
    /// Otherwise the model is inserted as by `insert` into storage that had
    /// room for it.
    pub fn put(&mut self, model_id: String, data: Vec<u8>, size_mb: u32, algorithm: EvictionAlgorithm, now_ms: u64,
        ranking: &Vec<String>)
        -> (r: Result<(), Error>)
        requires
            old(self).wf(),
        ensures
            ({
                let res = run_eviction(old(self).store_view(), size_mb, old(self).spec_max_size_mb(),
                    old(self).spec_max_models(), algorithm, now_ms, ids_of(ranking@));
                let fresh = ModelView { id: model_id@, size_mb, load_time_ms: now_ms, last_accessed_ms: now_ms,
                    access_count: 1, frequency: 1, data: data@ };
                match r {
                    Ok(_) => {
                        &&& res.1
                        &&& final(self).spec_models() == match model_index(res.0.models, model_id@) {
                            Some(i) => res.0.models.update(i, fresh),
                            None => res.0.models.push(fresh),
                        }
                        &&& final(self).spec_order() == res.0.order.push(model_id@)
                        &&& final(self).spec_size_mb() == add_or_max(res.0.size_mb, size_mb as nat)
                        &&& final(self).spec_stats().evictions == res.0.evictions
                    },
                    Err(_) => !res.1 && final(self).store_view() == res.0,
                }
            }),
            final(self).spec_stats().cache_hits == old(self).spec_stats().cache_hits,
            final(self).spec_stats().cache_misses == old(self).spec_stats().cache_misses,
            final(self).wf(),
            final(self).spec_max_size_mb() == old(self).spec_max_size_mb(),
            final(self).spec_max_models() == old(self).spec_max_models(),
            final(self).spec_stats().total_requests == old(self).spec_stats().total_requests,
            final(self).spec_stats().evictions >= old(self).spec_stats().evictions,
            forall|k: int| 0 <= k < final(self).spec_models().len() && final(self).spec_models()[k].id != model_id@
                ==> old(self).spec_models().contains(#[trigger] final(self).spec_models()[k]),
            match r {
                Ok(_) => holds(final(self).spec_models(), model_id@)
                    && final(self).spec_models()[model_index(final(self).spec_models(), model_id@).unwrap()]
                        == (ModelView { id: model_id@, size_mb, load_time_ms: now_ms, last_accessed_ms: now_ms, access_count: 1, frequency: 1, data: data@ })
                    && final(self).spec_order().last() == model_id@
                    && exists|kept: Seq<ModelView>, kept_size: u64| {
                        &&& #[trigger] pruned(old(self).spec_models(), old(self).spec_size_mb(), kept, kept_size)
                        &&& kept_size + size_mb <= old(self).spec_max_size_mb()
                        &&& kept.len() < old(self).spec_max_models()
                        &&& (old(self).spec_size_mb() + size_mb <= old(self).spec_max_size_mb()
                            && old(self).spec_models().len() < old(self).spec_max_models()
                            ==> kept == old(self).spec_models() && kept_size == old(self).spec_size_mb())
                        &&& final(self).spec_size_mb() == kept_size + size_mb
                        &&& final(self).spec_stats().evictions
                            == add_or_max(old(self).spec_stats().evictions, (old(self).spec_models().len() - kept.len()) as nat)
                        &&& final(self).spec_models() == match model_index(kept, model_id@) {
                            Some(i) => kept.update(i, ModelView { id: model_id@, size_mb, load_time_ms: now_ms, last_accessed_ms: now_ms,
                                access_count: 1, frequency: 1, data: data@ }),
                            None => kept.push(ModelView { id: model_id@, size_mb, load_time_ms: now_ms, last_accessed_ms: now_ms,
                                access_count: 1, frequency: 1, data: data@ }),
                        }
                    },
                Err(e) => error_kind(e) == 12
                    && pruned(old(self).spec_models(), old(self).spec_size_mb(), final(self).spec_models(), final(self).spec_size_mb())
                    && final(self).spec_stats().evictions
                        == add_or_max(old(self).spec_stats().evictions,
                            (old(self).spec_models().len() - final(self).spec_models().len()) as nat)
                    && (algorithm != EvictionAlgorithm::HybridScore ==> final(self).spec_models().len() == 0)
                    && (!holds(final(self).spec_models(), model_id@) || holds(old(self).spec_models(), model_id@))
                    && (final(self).spec_size_mb() + size_mb > final(self).spec_max_size_mb()
                        || final(self).spec_models().len() >= final(self).spec_max_models())
                    && ((algorithm == EvictionAlgorithm::LRU || algorithm == EvictionAlgorithm::AdaptiveLRU)
                        ==> final(self).spec_order().len() == 0)
                    && (algorithm == EvictionAlgorithm::LFU ==> final(self).spec_models().len() == 0)
                    && (algorithm == EvictionAlgorithm::PredictiveLRU ==> final(self).spec_order().len() == 0
                        && none_ranked(final(self).spec_models(), ids_of(ranking@)))
                    && (algorithm == EvictionAlgorithm::HybridScore ==> none_ranked(final(self).spec_models(), ids_of(ranking@))),
            },
    {
        while self.needs_room(size_mb)
            invariant
                self.wf(),
                self.max_size_mb == old(self).max_size_mb,
                self.max_models == old(self).max_models,
                self.stats.total_requests == old(self).stats.total_requests,
                self.stats.evictions >= old(self).stats.evictions,
                forall|k: int| 0 <= k < self.spec_models().len() ==> old(self).spec_models().contains(#[trigger] self.spec_models()[k]),
                pruned(old(self).spec_models(), old(self).spec_size_mb(), self.spec_models(), self.spec_size_mb()),
                self.stats.evictions == add_or_max(old(self).stats.evictions,
                    (old(self).spec_models().len() - self.spec_models().len()) as nat),
                old(self).spec_size_mb() + size_mb <= old(self).spec_max_size_mb()
                    && old(self).spec_models().len() < old(self).spec_max_models()
                    ==> self.spec_models() == old(self).spec_models() && self.spec_size_mb() == old(self).spec_size_mb(),
                run_eviction(self.store_view(), size_mb, old(self).spec_max_size_mb(), old(self).spec_max_models(),
                    algorithm, now_ms, ids_of(ranking@)) == run_eviction(old(self).store_view(), size_mb,
                    old(self).spec_max_size_mb(), old(self).spec_max_models(), algorithm, now_ms, ids_of(ranking@)),
                self.stats.cache_hits == old(self).stats.cache_hits,
                self.stats.cache_misses == old(self).stats.cache_misses,
            ensures
                run_eviction(old(self).store_view(), size_mb, old(self).spec_max_size_mb(), old(self).spec_max_models(),
                    algorithm, now_ms, ids_of(ranking@)) == (self.store_view(), true),
                self.stats.cache_hits == old(self).stats.cache_hits,
                self.stats.cache_misses == old(self).stats.cache_misses,
                self.wf(),
                self.max_size_mb == old(self).max_size_mb,
                self.max_models == old(self).max_models,
                self.stats.total_requests == old(self).stats.total_requests,
                forall|k: int| 0 <= k < self.spec_models().len() ==> old(self).spec_models().contains(#[trigger] self.spec_models()[k]),
                pruned(old(self).spec_models(), old(self).spec_size_mb(), self.spec_models(), self.spec_size_mb()),
                self.stats.evictions == add_or_max(old(self).stats.evictions,
                    (old(self).spec_models().len() - self.spec_models().len()) as nat),
                self.size_mb + size_mb <= self.max_size_mb,
                self.models@.len() < self.max_models,
                old(self).spec_size_mb() + size_mb <= old(self).spec_max_size_mb()
                    && old(self).spec_models().len() < old(self).spec_max_models()
                    ==> self.spec_models() == old(self).spec_models() && self.spec_size_mb() == old(self).spec_size_mb(),
            decreases self.models@.len(),
        {
            let candidate = self.select_eviction_candidate(algorithm, now_ms, ranking);
            match candidate {
                None => {
                    let in_store = self.contains(model_id.as_str());
                    proof {
                        if in_store {
                            let w = choose|w: int| 0 <= w < self.spec_models().len() && self.spec_models()[w].id == model_id@;
                            assert(old(self).spec_models().contains(self.spec_models()[w]));
                        }
                        if algorithm != EvictionAlgorithm::HybridScore && self.spec_models().len() > 0 {
                            assert(self.spec_order().contains(self.spec_models()[0].id));
                        }
                    }
                    return Err(Error::Internal(String::from_str("No models to evict")));
                },
                Some(victim) => {
                    let ghost before = self.spec_models();
                    let ghost before_size = self.spec_size_mb();
                    let ghost before_evictions = self.stats.evictions;
                    let released = self.evict(victim.as_str());
                    proof {
                        let i = model_index(before, victim@).unwrap();
                        let om = old(self).spec_models();
                        let s_i = before[i].size_mb;
                        lemma_sum_sizes_remove(before, i);
                        assert(self.spec_models() =~= before.remove(i));
                        assert(sum_sizes(self.spec_models()) + s_i == sum_sizes(before));
                        let r0 = (sum_sizes(om) - sum_sizes(before)) as nat;
                        assert(self.spec_size_mb() == sub_or_zero(old(self).spec_size_mb(), (r0 + s_i) as nat));
                        assert(self.stats.evictions == add_or_max(old(self).stats.evictions,
                            (om.len() - self.spec_models().len()) as nat));
                        assert forall|k: int| 0 <= k < self.spec_models().len() implies
                            old(self).spec_models().contains(#[trigger] self.spec_models()[k]) by {
                            let k2 = if k < i { k } else { k + 1 };
                            assert(self.spec_models()[k] == before[k2]);
                            assert(old(self).spec_models().contains(before[k2]));
                        }
                    }
                    if released.is_none() {
                        break;
                    }
                },
            }
        }
        let ghost before = self.spec_models();
        self.insert(model_id, data, size_mb, now_ms);
        proof {
            let fresh = self.spec_models()[model_index(self.spec_models(), model_id@).unwrap()];
            match model_index(before, model_id@) {
                Some(i) => {
                    assert(self.spec_models()[i].id == model_id@);
                    lemma_model_index(self.spec_models(), model_id@, i);
                    assert forall|k: int| 0 <= k < self.spec_models().len() && self.spec_models()[k].id != model_id@ implies
                        old(self).spec_models().contains(#[trigger] self.spec_models()[k]) by {
                        assert(self.spec_models()[k] == before[k]);
                        assert(old(self).spec_models().contains(before[k]));
                    }
                },
                None => {
                    let j = before.len() as int;
                    assert(self.spec_models()[j].id == model_id@);
                    lemma_model_index(self.spec_models(), model_id@, j);
                    assert forall|k: int| 0 <= k < self.spec_models().len() && self.spec_models()[k].id != model_id@ implies
                        old(self).spec_models().contains(#[trigger] self.spec_models()[k]) by {
                        assert(self.spec_models()[k] == before[k]);
                        assert(old(self).spec_models().contains(before[k]));
                    }
                },
            }
        }
        Ok(())
    }

    /// Clear all cached models
    pub fn clear(&mut self)
        ensures
            final(self).wf(),
            final(self).spec_models() == Seq::<ModelView>::empty(),
            final(self).spec_order() == Seq::<Seq<char>>::empty(),
            final(self).spec_size_mb() == 0,
            final(self).spec_max_size_mb() == old(self).spec_max_size_mb(),
            final(self).spec_max_models() == old(self).spec_max_models(),
            final(self).spec_stats() == old(self).spec_stats(),
    {
        self.models = Vec::new();
        self.size_mb = 0;
        self.access_order = Vec::new();
        assert(self.spec_models() =~= Seq::<ModelView>::empty());
        assert(self.spec_order() =~= Seq::<Seq<char>>::empty());
    }
}

} // verus!
