//! In-memory part of the persistent offline queue: priority scoring, the
//! priority-ordered request list, expiry, retry accounting and health.
//!
//! Storage on disk and the network sync belong to the caller; this module
//! decides what the queue holds.

use vstd::prelude::*;
use crate::common::types::Priority;
use crate::common::metrics::HealthLevel;
use crate::common::utils::str_eq;

verus! {

/// What the priority score of a request depends on, taken from its context.
#[derive(Debug, Clone, Copy)]
pub struct PriorityContext {
    pub priority: Priority,
    pub max_latency_ms: Option<u64>,
    pub require_local: bool,
}

/// Request stored in the queue
#[derive(Debug, Clone)]
pub struct QueuedRequest<R> {
    pub id: String,
    pub request: R,
    pub queued_at_ms: u64,
    pub retry_count: u32,
    pub priority_score: i32,
    pub expires_at_ms: Option<u64>,
}

/// Queue statistics for monitoring
#[derive(Debug, Clone, Copy)]
pub struct QueueStats {
    pub total_enqueued: u64,
    pub total_dequeued: u64,
    pub total_failed: u64,
    pub total_expired: u64,
    pub sync_attempts: u32,
    pub sync_successes: u32,
}

/// Errors of the queue.
#[derive(Debug, Clone, Copy, PartialEq, Eq, Structural)]
pub enum QueueError {
    /// The queue holds its maximum number of requests.
    Full,
}

/// Priority contribution of the request's priority level.
pub open spec fn priority_bonus(p: Priority) -> int {
    match p {
        Priority::Critical => 40,
        Priority::High => 25,
        Priority::Normal => 0,
        Priority::Low => -15,
    }
}

/// Priority contribution of the method.
pub open spec fn method_bonus(method: Seq<char>) -> int {
    if method == "completion"@ { 10 }
    else if method == "chat"@ { 5 }
    else if method == "embedding"@ { -5 }
    else { 0 }
}

/// Priority score of a request: 50, plus the priority level's bonus,
/// 20 for a latency bound under 1 s or 10 under 5 s, 15 when it must run
/// locally, plus the method's bonus.
pub open spec fn priority_score_spec(method: Seq<char>, ctx: Option<PriorityContext>) -> int {
    let context_part = match ctx {
        Some(c) => priority_bonus(c.priority)
            + (match c.max_latency_ms {
                Some(l) => if l < 1000 { 20int } else if l < 5000 { 10int } else { 0int },
                None => 0int,
            })
            + (if c.require_local { 15int } else { 0int }),
        None => 0,
    };
    50 + context_part + method_bonus(method)
}

/// The priority level orders requests: with the same method, latency bound
/// and locality, a Critical request scores 15 above a High one, a High one
/// 25 above a Normal one, and a Normal one 15 above a Low one; a Normal
/// request without latency bound or locality scores as one without context.
pub proof fn lemma_priority_levels_order_scores(method: Seq<char>, max_latency_ms: Option<u64>, require_local: bool)
    ensures
        priority_score_spec(method, Some(PriorityContext { priority: Priority::Critical, max_latency_ms, require_local }))
            == priority_score_spec(method, Some(PriorityContext { priority: Priority::High, max_latency_ms, require_local })) + 15,
        priority_score_spec(method, Some(PriorityContext { priority: Priority::High, max_latency_ms, require_local }))
            == priority_score_spec(method, Some(PriorityContext { priority: Priority::Normal, max_latency_ms, require_local })) + 25,
        priority_score_spec(method, Some(PriorityContext { priority: Priority::Normal, max_latency_ms, require_local }))
            == priority_score_spec(method, Some(PriorityContext { priority: Priority::Low, max_latency_ms, require_local })) + 15,
        priority_score_spec(method, Some(PriorityContext { priority: Priority::Normal, max_latency_ms: None, require_local: false }))
            == priority_score_spec(method, None),
{
}

/// The method orders requests of the same context: a completion scores 10
/// above a request of another method, a chat 5 above it, and an embedding 5
/// below it.
pub proof fn lemma_methods_order_scores(ctx: Option<PriorityContext>, other: Seq<char>)
    requires
        other != "completion"@,
        other != "chat"@,
        other != "embedding"@,
    ensures
        priority_score_spec("completion"@, ctx) == priority_score_spec(other, ctx) + 10,
        priority_score_spec("chat"@, ctx) == priority_score_spec(other, ctx) + 5,
        priority_score_spec("embedding"@, ctx) == priority_score_spec(other, ctx) - 5,
{
    reveal_strlit("completion");
    reveal_strlit("chat");
    reveal_strlit("embedding");
    assert("completion"@ != "chat"@) by { assert("completion"@.len() != "chat"@.len()); }
    assert("completion"@ != "embedding"@) by { assert("completion"@[0] != "embedding"@[0]); }
    assert("chat"@ != "embedding"@) by { assert("chat"@.len() != "embedding"@.len()); }
}

/// Calculate the priority score for a request.
pub fn calculate_priority_score(method: &str, ctx: Option<PriorityContext>) -> (r: i32)
    ensures
        r == priority_score_spec(method@, ctx),
{
    let mut score: i32 = 50;
    match ctx {
        Some(c) => {
            score = score + match c.priority {
                Priority::Critical => 40,
                Priority::High => 25,
                Priority::Normal => 0,
                Priority::Low => -15,
            };
            match c.max_latency_ms {
                Some(l) => {
                    if l < 1000 {
                        score = score + 20;
                    } else if l < 5000 {
                        score = score + 10;
                    }
                },
                None => {},
            }
            if c.require_local {
                score = score + 15;
            }
        },
        None => {},
    }
    let bonus: i32 = if str_eq(method, "completion") { 10 }
        else if str_eq(method, "chat") { 5 }
        else if str_eq(method, "embedding") { -5 }
        else { 0 };
    score + bonus
}

/// Backoff before re-sending a request that failed `retry_count` times:
/// one second doubled per retry (at most ten doublings), capped at 30 s.
pub open spec fn sync_backoff_spec(retry_count: u32) -> u64 {
    let e: nat = if retry_count <= 10 { retry_count as nat } else { 10 };
    let d = 1000 * vstd::arithmetic::power2::pow2(e);
    if d <= 30_000 { d as u64 } else { 30_000 }
}

/// The sync backoff starts at one second and doubles with each further
/// failure until it reaches its 30 s cap, where it stays.
pub proof fn lemma_sync_backoff_doubles(retry_count: u32)
    requires
        retry_count < u32::MAX,
    ensures
        sync_backoff_spec(0) == 1000,
        sync_backoff_spec((retry_count + 1) as u32) == if 2 * sync_backoff_spec(retry_count) <= 30_000 {
            2 * sync_backoff_spec(retry_count)
        } else {
            30_000
        },
{
    vstd::arithmetic::power2::lemma2_to64();
}

/// Backoff before re-sending a request that failed `retry_count` times.
pub fn sync_backoff_ms(retry_count: u32) -> (r: u64)
    ensures
        r == sync_backoff_spec(retry_count),
{
    let e: u32 = if retry_count <= 10 { retry_count } else { 10 };
    let mut p: u64 = 1;
    let mut i: u32 = 0;
    proof { vstd::arithmetic::power2::lemma2_to64(); }
    while i < e
        invariant
            i <= e <= 10,
            p == vstd::arithmetic::power2::pow2(i as nat),
            p <= 1024,
        decreases e - i,
    {
        proof {
            vstd::arithmetic::power2::lemma_pow2_unfold((i + 1) as nat);
            vstd::arithmetic::power2::lemma_pow2_strictly_increases(i as nat, 10);
            vstd::arithmetic::power2::lemma2_to64();
        }
        p = p * 2;
        i = i + 1;
    }
    let d: u64 = 1000 * p;
    if d <= 30_000 { d } else { 30_000 }
}

/// Health of a queue holding `size` of at most `max` requests: critical
/// above 95% usage, degraded above 80%, healthy otherwise.
pub open spec fn queue_health_spec(size: u32, max: u32) -> HealthLevel {
    if 100 * size > 95 * max {
        HealthLevel::Critical
    } else if 100 * size > 80 * max {
        HealthLevel::Degraded
    } else {
        HealthLevel::Healthy
    }
}

/// A fuller queue is never healthier: if a queue is critical, so is every
/// fuller one of the same capacity, and if it is healthy, so is every
/// emptier one.
pub proof fn lemma_queue_health_monotone(s1: u32, s2: u32, max: u32)
    requires
        s1 <= s2,
    ensures
        queue_health_spec(s1, max) == HealthLevel::Critical ==> queue_health_spec(s2, max) == HealthLevel::Critical,
        queue_health_spec(s2, max) == HealthLevel::Healthy ==> queue_health_spec(s1, max) == HealthLevel::Healthy,
        queue_health_spec(0, max) == HealthLevel::Healthy,
{
}

/// Health level of a queue from its usage.
pub fn queue_health(size: u32, max: u32) -> (r: HealthLevel)
    ensures
        r == queue_health_spec(size, max),
{
    if 100 * (size as u64) > 95 * (max as u64) {
        HealthLevel::Critical
    } else if 100 * (size as u64) > 80 * (max as u64) {
        HealthLevel::Degraded
    } else {
        HealthLevel::Healthy
    }
}

/// Abstract view of a queued request: identifier, score, retries, expiry.
pub struct QueuedView {
    pub id: Seq<char>,
    pub priority_score: i32,
    pub retry_count: u32,
    pub expires_at_ms: Option<u64>,
    pub queued_at_ms: u64,
}

/// View of a queued request.
pub open spec fn qview<R>(q: QueuedRequest<R>) -> QueuedView {
    QueuedView {
        id: q.id@,
        priority_score: q.priority_score,
        retry_count: q.retry_count,
        expires_at_ms: q.expires_at_ms,
        queued_at_ms: q.queued_at_ms,
    }
}

/// Requests are in non-increasing order of priority score.
pub open spec fn priority_ordered(s: Seq<QueuedView>) -> bool {
    forall|i: int, j: int| 0 <= i < j < s.len() ==> s[i].priority_score >= s[j].priority_score
}

/// Where a request with score `score` is inserted: before the first request
/// with a strictly lower score, or at the end.
pub open spec fn insert_position(s: Seq<QueuedView>, score: i32) -> int {
    if exists|i: int| 0 <= i < s.len() && s[i].priority_score < score {
        choose|i: int| 0 <= i < s.len() && s[i].priority_score < score
            && forall|j: int| 0 <= j < i ==> s[j].priority_score >= score
    } else {
        s.len() as int
    }
}

/// Whether a request has expired at `now`.
pub open spec fn expired_at(q: QueuedView, now: u64) -> bool {
    q.expires_at_ms matches Some(e) && now > e
}

/// The requests still live at `now`, in order.
pub open spec fn live_requests(s: Seq<QueuedView>, now: u64) -> Seq<QueuedView>
    decreases s.len(),
{
    if s.len() == 0 {
        s
    } else {
        let rest = live_requests(s.drop_last(), now);
        if expired_at(s.last(), now) { rest } else { rest.push(s.last()) }
    }
}

/// The in-memory queue of requests, highest priority first.
pub struct MemoryQueue<R> {
    requests: Vec<QueuedRequest<R>>,
    max_queue_size: u32,
    stats: QueueStats,
}

impl<R> MemoryQueue<R> {
    /// The queued requests, front first.
    pub closed spec fn spec_requests(&self) -> Seq<QueuedView> {
        self.requests@.map_values(|q: QueuedRequest<R>| qview(q))
    }

    /// The queued payloads, front first.
    pub closed spec fn spec_payloads(&self) -> Seq<R> {
        self.requests@.map_values(|q: QueuedRequest<R>| q.request)
    }

    /// Maximum number of requests.
    pub closed spec fn spec_max_size(&self) -> u32 {
        self.max_queue_size
    }

    /// Statistics.
    pub closed spec fn spec_stats(&self) -> QueueStats {
        self.stats
    }

    /// The queue is ordered by priority and within its maximum size.
    pub closed spec fn wf(&self) -> bool {
        &&& priority_ordered(self.spec_requests())
        &&& self.requests@.len() <= self.max_queue_size
    }

    /// An empty queue holding at most `max_queue_size` requests.
    pub fn new(max_queue_size: u32) -> (r: Self)
        ensures
            r.wf(),
            r.spec_requests() == Seq::<QueuedView>::empty(),
            r.spec_max_size() == max_queue_size,
            r.spec_stats().total_enqueued == 0,
            r.spec_stats().total_dequeued == 0,
    {
        let r = MemoryQueue {
            requests: Vec::new(),
            max_queue_size,
            stats: QueueStats {
                total_enqueued: 0,
                total_dequeued: 0,
                total_failed: 0,
                total_expired: 0,
                sync_attempts: 0,
                sync_successes: 0,
            },
        };
        assert(r.spec_requests() =~= Seq::<QueuedView>::empty());
        r
    }

    /// Number of queued requests.
    pub fn len(&self) -> (r: usize)
        ensures
            r == self.spec_requests().len(),
    {
        self.requests.len()
    }

    /// Queue statistics.
    pub fn stats(&self) -> (r: QueueStats)
        ensures
            r == self.spec_stats(),
    {
        self.stats
    }

    fn insert_ordered(&mut self, q: QueuedRequest<R>)
        requires
            old(self).wf(),
            old(self).requests@.len() < old(self).max_queue_size,
        ensures
            final(self).wf(),
            final(self).max_queue_size == old(self).max_queue_size,
            final(self).stats == old(self).stats,
            final(self).spec_requests() == old(self).spec_requests().insert(
                insert_position(old(self).spec_requests(), q.priority_score), qview(q)),
    {
        let ghost base = self.spec_requests();
        let n = self.requests.len();
        let mut pos: usize = 0;
        while pos < n && self.requests[pos].priority_score >= q.priority_score
            invariant
                n == self.requests@.len(),
                base == self.spec_requests(),
                pos <= n,
                forall|j: int| 0 <= j < pos ==> base[j].priority_score >= q.priority_score,
            decreases n - pos,
        {
            pos = pos + 1;
        }
        proof { lemma_insert_position(base, q.priority_score, pos as int); }
        let ghost qv = qview(q);
        self.requests.insert(pos, q);
        proof {
            assert(self.spec_requests() =~= base.insert(pos as int, qv));
            lemma_insert_keeps_order(base, pos as int, qv);
        }
    }

    /// Drop the requests expired at `now_ms`; returns how many were dropped.
    pub fn cleanup_expired(&mut self, now_ms: u64) -> (r: usize)
        requires
            old(self).wf(),
        ensures
            final(self).wf(),
            final(self).spec_requests() == live_requests(old(self).spec_requests(), now_ms),
            r == old(self).spec_requests().len() - final(self).spec_requests().len(),
            final(self).spec_max_size() == old(self).spec_max_size(),
            final(self).spec_stats() == (QueueStats {
                total_expired: old(self).spec_stats().total_expired.saturating_add(r as u64),
                ..old(self).spec_stats()
            }),
    {
        let mut rest: Vec<QueuedRequest<R>> = Vec::new();
        std::mem::swap(&mut rest, &mut self.requests);
        let ghost olds = rest@.map_values(|q: QueuedRequest<R>| qview(q));
        let n = rest.len();
        let mut kept: Vec<QueuedRequest<R>> = Vec::new();
        let mut dropped: usize = 0;
        let mut i: usize = 0;
        while i < n
            invariant
                n == olds.len(),
                rest@.len() == n - i,
                forall|k: int| 0 <= k < n - i ==> qview(#[trigger] rest@[k]) == olds[i + k],
                kept@.map_values(|q: QueuedRequest<R>| qview(q)) == live_requests(olds.subrange(0, i as int), now_ms),
                dropped + kept@.len() == i,
            decreases n - i,
        {
            let ghost prev = rest@;
            let q = rest.remove(0);
            proof {
                let s = olds.subrange(0, i as int + 1);
                assert(s.drop_last() =~= olds.subrange(0, i as int));
                assert(qview(q) == olds[i as int]);
                assert forall|k: int| 0 <= k < n - (i + 1) implies qview(#[trigger] rest@[k]) == olds[(i + 1) + k] by {
                    assert(rest@[k] == prev[k + 1]);
                }
            }
            let expired = match q.expires_at_ms {
                Some(e) => now_ms > e,
                None => false,
            };
            if expired {
                dropped = dropped + 1;
            } else {
                kept.push(q);
                assert(kept@.map_values(|q: QueuedRequest<R>| qview(q)) =~=
                    live_requests(olds.subrange(0, i as int), now_ms).push(qview(q)));
            }
            i = i + 1;
        }
        proof {
            assert(olds.subrange(0, n as int) =~= olds);
            lemma_live_ordered(olds, now_ms);
            lemma_live_len(olds, now_ms);
        }
        self.requests = kept;
        self.stats.total_expired = self.stats.total_expired.saturating_add(dropped as u64);
        dropped
    }

    /// Add a request, before the first queued request of strictly lower
    /// priority score (so equal scores keep arrival order). A full queue is
    /// first cleaned of requests expired at `now_ms`; if it is still full the
    /// request is refused. Returns the queue length before the insertion.
    pub fn enqueue(&mut self, id: String, request: R, priority_score: i32, expires_at_ms: Option<u64>, now_ms: u64)
        -> (r: Result<usize, QueueError>)
        requires
            old(self).wf(),
        ensures
            final(self).wf(),
            final(self).spec_max_size() == old(self).spec_max_size(),
            ({
                let base = enqueue_base(old(self).spec_requests(), old(self).spec_max_size(), now_ms);
                let q = QueuedView { id: id@, priority_score, retry_count: 0, expires_at_ms, queued_at_ms: now_ms };
                if base.len() >= old(self).spec_max_size() {
                    &&& r == Err::<usize, QueueError>(QueueError::Full)
                    &&& final(self).spec_requests() == base
                } else {
                    &&& r matches Ok(n) && n == base.len()
                    &&& final(self).spec_requests() == base.insert(insert_position(base, priority_score), q)
                    &&& final(self).spec_stats().total_enqueued == old(self).spec_stats().total_enqueued.saturating_add(1)
                }
            }),
    {
        let ghost base0 = enqueue_base(self.spec_requests(), self.max_queue_size, now_ms);
        if self.requests.len() >= self.max_queue_size as usize {
            self.cleanup_expired(now_ms);
            if self.requests.len() >= self.max_queue_size as usize {
                return Err(QueueError::Full);
            }
        }
        let ghost base = self.spec_requests();
        assert(base == base0);
        let ghost qv = QueuedView { id: id@, priority_score, retry_count: 0, expires_at_ms, queued_at_ms: now_ms };
        let n = self.requests.len();
        let q = QueuedRequest { id, request, queued_at_ms: now_ms, retry_count: 0, priority_score, expires_at_ms };
        assert(qview(q) == qv);
        self.insert_ordered(q);
        assert(self.spec_requests() == base.insert(insert_position(base, priority_score), qv));
        self.stats.total_enqueued = self.stats.total_enqueued.saturating_add(1);
        assert(self.spec_requests() == base.insert(insert_position(base, priority_score), qv));
        Ok(n)
    }

    /// Remove and return the front request: the highest priority score, the
    /// earliest queued among equals.
    pub fn dequeue(&mut self) -> (r: Option<QueuedRequest<R>>)
        requires
            old(self).wf(),
        ensures
            final(self).wf(),
            final(self).spec_max_size() == old(self).spec_max_size(),
            old(self).spec_requests().len() == 0 ==> r is None && final(self).spec_requests() == old(self).spec_requests(),
            old(self).spec_requests().len() > 0 ==> (r matches Some(q)
                && qview(q) == old(self).spec_requests()[0]
                && (forall|k: int| 0 <= k < old(self).spec_requests().len()
                    ==> q.priority_score >= #[trigger] old(self).spec_requests()[k].priority_score)
                && q.request == old(self).spec_payloads()[0]
                && final(self).spec_requests() == old(self).spec_requests().drop_first()
                && final(self).spec_payloads() == old(self).spec_payloads().drop_first()
                && final(self).spec_stats().total_dequeued == old(self).spec_stats().total_dequeued.saturating_add(1)),
    {
        if self.requests.len() == 0 {
            return None;
        }
        let q = self.requests.remove(0);
        proof {
            assert(self.spec_requests() =~= old(self).spec_requests().drop_first());
            assert(self.spec_payloads() =~= old(self).spec_payloads().drop_first());
        }
        self.stats.total_dequeued = self.stats.total_dequeued.saturating_add(1);
        Some(q)
    }

    /// Record a failed sync of the request with identifier `id`: its retry
    /// count grows, and once it exceeds `max_retries` the request leaves the
    /// queue. Returns whether the request was dropped.
    #[verifier::rlimit(50)]
    pub fn record_sync_failure(&mut self, id: &str, max_retries: u32) -> (r: bool)
        requires
            old(self).wf(),
        ensures
            final(self).wf(),
            final(self).spec_max_size() == old(self).spec_max_size(),
            ({
                let s = old(self).spec_requests();
                match first_with_id(s, id@) {
                    Some(i) => {
                        let c = s[i].retry_count.saturating_add(1);
                        if c > max_retries {
                            &&& r
                            &&& final(self).spec_requests() == s.remove(i)
                        } else {
                            &&& !r
                            &&& final(self).spec_requests() == s.update(i, QueuedView { retry_count: c, ..s[i] })
                        }
                    },
                    None => !r && final(self).spec_requests() == s,
                }
            }),
    {
        let ghost s = self.spec_requests();
        match self.find_index(id) {
            Some(i) => {
                let c = self.requests[i].retry_count.saturating_add(1);
                if c > max_retries {
                    self.requests.remove(i);
                    proof {
                        assert(self.spec_requests() =~= s.remove(i as int));
                        lemma_remove_keeps_order(s, i as int);
                    }
                    self.stats.total_failed = self.stats.total_failed.saturating_add(1);
                    true
                } else {
                    self.set_retry_count(i, c);
                    false
                }
            },
            None => false,
        }
    }

    /// Remove the request with identifier `id` (after a successful sync);
    /// returns whether it was queued.
    pub fn remove(&mut self, id: &str) -> (r: bool)
        requires
            old(self).wf(),
        ensures
            final(self).wf(),
            final(self).spec_max_size() == old(self).spec_max_size(),
            match first_with_id(old(self).spec_requests(), id@) {
                Some(i) => r && final(self).spec_requests() == old(self).spec_requests().remove(i),
                None => !r && final(self).spec_requests() == old(self).spec_requests(),
            },
    {
        let ghost s = self.spec_requests();
        match self.find_index(id) {
            Some(i) => {
                self.requests.remove(i);
                proof {
                    assert(self.spec_requests() =~= s.remove(i as int));
                    lemma_remove_keeps_order(s, i as int);
                }
                true
            },
            None => false,
        }
    }

    fn set_retry_count(&mut self, i: usize, c: u32)
        requires
            old(self).wf(),
            i < old(self).requests@.len(),
        ensures
            final(self).wf(),
            final(self).max_queue_size == old(self).max_queue_size,
            final(self).stats == old(self).stats,
            final(self).spec_requests() == old(self).spec_requests().update(i as int,
                QueuedView { retry_count: c, ..old(self).spec_requests()[i as int] }),
    {
        let ghost s = self.spec_requests();
        let mut q = self.requests.remove(i);
        q.retry_count = c;
        self.requests.insert(i, q);
        proof {
            assert(self.spec_requests() =~= s.update(i as int, QueuedView { retry_count: c, ..s[i as int] }));
        }
    }

    fn find_index(&self, id: &str) -> (r: Option<usize>)
        ensures
            r matches Some(k) ==> k < self.requests@.len() && first_with_id(self.spec_requests(), id@) == Some(k as int),
            r is None ==> first_with_id(self.spec_requests(), id@) is None,
    {
        let n = self.requests.len();
        let ghost s = self.spec_requests();
        let mut i: usize = 0;
        while i < n
            invariant
                n == self.requests@.len(),
                s == self.spec_requests(),
                forall|j: int| 0 <= j < i ==> s[j].id != id@,
            decreases n - i,
        {
            if crate::common::utils::string_eq_str(&self.requests[i].id, id) {
                proof { lemma_first_with_id(s, id@, i as int); }
                return Some(i);
            }
            i = i + 1;
        }
        proof {
            assert(!exists|j: int| 0 <= j < s.len() && s[j].id == id@);
        }
        None
    }

    /// Health level from the queue's usage.
    pub fn health_level(&self) -> (r: HealthLevel)
        requires
            self.wf(),
        ensures
            r == queue_health_spec(self.spec_requests().len() as u32, self.spec_max_size()),
    {
        queue_health(self.requests.len() as u32, self.max_queue_size)
    }

    /// Count a sync round: `succeeded` tells whether it completed.
    pub fn record_sync_round(&mut self, succeeded: bool)
        ensures
            final(self).spec_requests() == old(self).spec_requests(),
            final(self).spec_payloads() == old(self).spec_payloads(),
            final(self).spec_max_size() == old(self).spec_max_size(),
            final(self).wf() == old(self).wf(),
            final(self).spec_stats().sync_attempts == old(self).spec_stats().sync_attempts.saturating_add(1),
            final(self).spec_stats().sync_successes == if succeeded {
                old(self).spec_stats().sync_successes.saturating_add(1)
            } else {
                old(self).spec_stats().sync_successes
            },
    {
        self.stats.sync_attempts = self.stats.sync_attempts.saturating_add(1);
        if succeeded {
            self.stats.sync_successes = self.stats.sync_successes.saturating_add(1);
        }
    }
}

/// The requests an insertion works on: a full queue is first cleaned of
/// the requests expired at `now`.
pub open spec fn enqueue_base(s: Seq<QueuedView>, max: u32, now: u64) -> Seq<QueuedView> {
    if s.len() >= max { live_requests(s, now) } else { s }
}

/// Position of the first request with identifier `id`, if any.
pub open spec fn first_with_id(s: Seq<QueuedView>, id: Seq<char>) -> Option<int> {
    if exists|i: int| 0 <= i < s.len() && s[i].id == id {
        Some(choose|i: int| 0 <= i < s.len() && s[i].id == id && forall|j: int| 0 <= j < i ==> s[j].id != id)
    } else {
        None
    }
}

proof fn lemma_first_with_id(s: Seq<QueuedView>, id: Seq<char>, i: int)
    requires
        0 <= i < s.len(),
        s[i].id == id,
        forall|j: int| 0 <= j < i ==> s[j].id != id,
    ensures
        first_with_id(s, id) == Some(i),
{
    let c = choose|k: int| 0 <= k < s.len() && s[k].id == id && forall|j: int| 0 <= j < k ==> s[j].id != id;
    assert(c == i) by {
        if c < i { assert(s[c].id != id); }
        if c > i { assert(s[i].id != id); }
    }
}

proof fn lemma_insert_position(base: Seq<QueuedView>, score: i32, pos: int)
    requires
        0 <= pos <= base.len(),
        forall|j: int| 0 <= j < pos ==> base[j].priority_score >= score,
        pos < base.len() ==> base[pos].priority_score < score,
    ensures
        insert_position(base, score) == pos,
{
    if pos < base.len() {
        let c = choose|i: int| 0 <= i < base.len() && base[i].priority_score < score
            && forall|j: int| 0 <= j < i ==> base[j].priority_score >= score;
        assert(c == pos) by {
            if c < pos { assert(base[c].priority_score >= score); }
            if c > pos { assert(base[pos].priority_score >= score); }
        }
    } else {
        assert(!exists|i: int| 0 <= i < base.len() && base[i].priority_score < score);
    }
}

proof fn lemma_insert_keeps_order(base: Seq<QueuedView>, pos: int, q: QueuedView)
    requires
        priority_ordered(base),
        0 <= pos <= base.len(),
        forall|j: int| 0 <= j < pos ==> base[j].priority_score >= q.priority_score,
        pos < base.len() ==> base[pos].priority_score < q.priority_score,
    ensures
        priority_ordered(base.insert(pos, q)),
{
    let s = base.insert(pos, q);
    assert forall|i: int, j: int| 0 <= i < j < s.len() implies s[i].priority_score >= s[j].priority_score by {
        if i < pos && j < pos {
        } else if i < pos && j == pos {
        } else if i < pos {
            assert(s[j] == base[j - 1]);
        } else if i == pos {
            assert(s[j] == base[j - 1]);
        } else {
            assert(s[i] == base[i - 1]);
            assert(s[j] == base[j - 1]);
        }
    }
}

proof fn lemma_remove_keeps_order(s: Seq<QueuedView>, i: int)
    requires
        priority_ordered(s),
        0 <= i < s.len(),
    ensures
        priority_ordered(s.remove(i)),
{
    let t = s.remove(i);
    assert forall|a: int, b: int| 0 <= a < b < t.len() implies t[a].priority_score >= t[b].priority_score by {
        if a < i && b >= i {
            assert(t[b] == s[b + 1]);
        } else if a >= i {
            assert(t[a] == s[a + 1]);
            assert(t[b] == s[b + 1]);
        }
    }
}

/// A well-formed queue is in priority order: a request never stands behind
/// one with a lower priority score.
pub proof fn lemma_queue_ordered<R>(q: MemoryQueue<R>)
    requires
        q.wf(),
    ensures
        priority_ordered(q.spec_requests()),
{
}

/// The first position at or after `k` holding a score below `score`, when
/// none before `k` does and one exists.
proof fn lemma_first_lower(s: Seq<QueuedView>, score: i32, k: int) -> (p: int)
    requires
        0 <= k <= s.len(),
        forall|j: int| 0 <= j < k ==> #[trigger] s[j].priority_score >= score,
        exists|i: int| k <= i < s.len() && #[trigger] s[i].priority_score < score,
    ensures
        k <= p < s.len(),
        s[p].priority_score < score,
        forall|j: int| 0 <= j < p ==> #[trigger] s[j].priority_score >= score,
    decreases s.len() - k,
{
    if s[k].priority_score < score {
        k
    } else {
        lemma_first_lower(s, score, k + 1)
    }
}

/// A new request goes behind every queued request of the same or a higher
/// priority score and ahead of every one with a lower score, so requests of
/// equal score leave in the order they arrived.
pub proof fn lemma_insert_keeps_arrival_order(s: Seq<QueuedView>, score: i32)
    requires
        priority_ordered(s),
    ensures
        0 <= insert_position(s, score) <= s.len(),
        forall|j: int| 0 <= j < s.len() && #[trigger] s[j].priority_score >= score ==> j < insert_position(s, score),
        forall|j: int| 0 <= j < s.len() && j >= insert_position(s, score) ==> #[trigger] s[j].priority_score < score,
{
    if exists|i: int| 0 <= i < s.len() && #[trigger] s[i].priority_score < score {
        let p = lemma_first_lower(s, score, 0);
        lemma_insert_position(s, score, p);
        assert forall|j: int| 0 <= j < s.len() && j >= p implies #[trigger] s[j].priority_score < score by {
            if j > p {
                assert(s[p].priority_score >= s[j].priority_score);
            }
        }
    } else {
        lemma_insert_position(s, score, s.len() as int);
    }
}

/// Dropping expired requests keeps the survivors in priority order.
pub proof fn lemma_live_ordered(s: Seq<QueuedView>, now: u64)
    requires
        priority_ordered(s),
    ensures
        priority_ordered(live_requests(s, now)),
        forall|k: int| #![trigger live_requests(s, now)[k]] 0 <= k < live_requests(s, now).len() ==>
            exists|m: int| #![trigger s[m]] 0 <= m < s.len() && live_requests(s, now)[k] == s[m],
    decreases s.len(),
{
    if s.len() > 0 {
        let p = s.drop_last();
        assert(priority_ordered(p));
        lemma_live_ordered(p, now);
        let rest = live_requests(p, now);
        if !expired_at(s.last(), now) {
            let t = rest.push(s.last());
            assert forall|k: int| #![trigger t[k]] 0 <= k < t.len() implies exists|m: int| #![trigger s[m]] 0 <= m < s.len() && t[k] == s[m] by {
                if k == t.len() - 1 {
                    assert(t[k] == s[s.len() - 1]);
                } else {
                    let m = choose|m: int| #![trigger p[m]] 0 <= m < p.len() && rest[k] == p[m];
                    assert(t[k] == s[m]);
                }
            }
            assert forall|i: int, j: int| 0 <= i < j < t.len() implies t[i].priority_score >= t[j].priority_score by {
                if j == t.len() - 1 {
                    let m = choose|m: int| #![trigger p[m]] 0 <= m < p.len() && rest[i] == p[m];
                    assert(t[i] == s[m]);
                    assert(t[j] == s[s.len() - 1]);
                }
            }
        } else {
            assert forall|k: int| #![trigger rest[k]] 0 <= k < rest.len() implies exists|m: int| #![trigger s[m]] 0 <= m < s.len() && rest[k] == s[m] by {
                let m = choose|m: int| #![trigger p[m]] 0 <= m < p.len() && rest[k] == p[m];
                assert(rest[k] == s[m]);
            }
        }
    }
}

proof fn lemma_live_len(s: Seq<QueuedView>, now: u64)
    ensures
        live_requests(s, now).len() <= s.len(),
    decreases s.len(),
{
    if s.len() > 0 {
        lemma_live_len(s.drop_last(), now);
    }
}

} // verus!
