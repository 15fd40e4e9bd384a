//! Resource pooling for the gateway: a bounded pool of reusable connections,
//! its statistics, and the errors of pooled and resilient operations.

use crate::pipeline_guard::recovery_engine::{
    as_map, find_key, has_key_in, index_in, keys_distinct, lemma_index_unique, lemma_push_new,
    lemma_remove_at, lemma_update_value,
};
use vstd::prelude::*;
use vstd::string::StringExecFns;

verus! {

/// Connection pool errors
#[derive(Debug, Clone, Copy, PartialEq, Eq, Structural)]
pub enum PoolError {
    AcquisitionFailed,
    NoConnectionsAvailable,
    PoolFull,
}

impl PoolError {
    /// The message shown for the error.
    pub fn message(&self) -> (r: &'static str)
        ensures
            r@ == pool_error_message(*self),
    {
        match self {
            PoolError::AcquisitionFailed => "Failed to acquire connection",
            PoolError::NoConnectionsAvailable => "No connections available",
            PoolError::PoolFull => "Pool is at maximum capacity",
        }
    }
}

/// The message of each pool error.
pub open spec fn pool_error_message(e: PoolError) -> Seq<char> {
    match e {
        PoolError::AcquisitionFailed => "Failed to acquire connection"@,
        PoolError::NoConnectionsAvailable => "No connections available"@,
        PoolError::PoolFull => "Pool is at maximum capacity"@,
    }
}

/// Pool statistics
#[derive(Debug, Clone, Copy, PartialEq, Eq, Structural)]
pub struct PoolStats {
    pub total_connections: usize,
    pub available_connections: usize,
    pub active_connections: usize,
    pub max_size: usize,
}

/// Resilience operation errors
#[derive(Debug, Clone)]
pub enum ResilienceError<E> {
    Timeout,
    MaxRetriesExceeded(String),
    OperationFailed(E),
}

/// An entry of the TTL cache.
#[derive(Debug, Clone)]
pub struct CacheEntry<V> {
    pub value: V,
    pub created_at_ms: u64,
    pub last_accessed_ms: u64,
    pub access_count: u64,
}

/// Cache performance statistics
#[derive(Debug, Clone, Copy, PartialEq, Eq, Structural)]
pub struct CacheStats {
    pub hits: u64,
    pub misses: u64,
    pub size: usize,
    pub max_size: usize,
}

/// Whether an entry created at `created` is still fresh at `now`.
pub open spec fn fresh(created: u64, now: u64, ttl: u64) -> bool {
    (if now >= created { (now - created) as int } else { 0int }) < ttl
}

/// High-performance cache with TTL and least-recently-used eviction, keyed
/// by text. Times are milliseconds on the caller's clock.
pub struct PerformanceCache<V> {
    data: Vec<(String, CacheEntry<V>)>,
    ttl_ms: u64,
    max_size: usize,
    hits: u64,
    misses: u64,
}

impl<V> PerformanceCache<V> {
    closed spec fn table(&self) -> Seq<(Seq<char>, CacheEntry<V>)> {
        Seq::new(self.data@.len(), |i: int| (self.data@[i].0@, self.data@[i].1))
    }

    /// The entries by key.
    pub closed spec fn entries(&self) -> Map<Seq<char>, CacheEntry<V>> {
        as_map(self.table())
    }

    /// Time to live of an entry, in milliseconds.
    pub closed spec fn ttl(&self) -> u64 {
        self.ttl_ms
    }

    /// Number of entries above which a put evicts first.
    pub closed spec fn capacity(&self) -> usize {
        self.max_size
    }

    /// Lookups that found a fresh entry, and lookups that did not.
    pub closed spec fn counters(&self) -> (u64, u64) {
        (self.hits, self.misses)
    }

    /// No key is stored twice.
    pub closed spec fn wf(&self) -> bool {
        keys_distinct(self.table())
    }

    /// An empty cache whose entries live `ttl_ms` and which holds about
    /// `max_size` entries.
    pub fn new(ttl_ms: u64, max_size: usize) -> (r: Self)
        ensures
            r.wf(),
            r.entries() == Map::<Seq<char>, CacheEntry<V>>::empty(),
            r.ttl() == ttl_ms,
            r.capacity() == max_size,
            r.counters() == (0u64, 0u64),
    {
        let r = PerformanceCache { data: Vec::new(), ttl_ms, max_size, hits: 0, misses: 0 };
        proof {
            assert(r.entries() =~= Map::<Seq<char>, CacheEntry<V>>::empty());
        }
        r
    }
}

impl<V: Clone> PerformanceCache<V> {
    /// Get value from cache at time `now_ms`: a fresh entry is stamped,
    /// counted and its value returned; an expired one is removed. Hits and
    /// misses are counted (saturating).
    pub fn get(&mut self, key: &str, now_ms: u64) -> (r: Option<V>)
        requires
            old(self).wf(),
        ensures
            final(self).wf(),
            final(self).ttl() == old(self).ttl(),
            final(self).capacity() == old(self).capacity(),
            ({
                let m = old(self).entries();
                let (hits, misses) = old(self).counters();
                if m.contains_key(key@) && fresh(m[key@].created_at_ms, now_ms, old(self).ttl()) {
                    let e = m[key@];
                    &&& r matches Some(v) && cloned::<V>(e.value, v)
                    &&& final(self).entries() == m.insert(key@, CacheEntry {
                        last_accessed_ms: now_ms,
                        access_count: if e.access_count < u64::MAX { (e.access_count + 1) as u64 } else { u64::MAX },
                        ..e
                    })
                    &&& final(self).counters() == (if hits < u64::MAX { (hits + 1) as u64 } else { u64::MAX }, misses)
                } else {
                    &&& r is None
                    &&& final(self).entries() == m.remove(key@)
                    &&& final(self).counters() == (hits, if misses < u64::MAX { (misses + 1) as u64 } else { u64::MAX })
                }
            }),
    {
        let ghost s = self.table();
        match find_key(&self.data, key) {
            Some(i) => {
                proof {
                    assert(s[i as int].0 == key@);
                    lemma_index_unique(s, i as int);
                }
                let created = self.data[i].1.created_at_ms;
                let age = now_ms.saturating_sub(created);
                if age < self.ttl_ms {
                    let (k, mut entry) = self.data.remove(i);
                    entry.last_accessed_ms = now_ms;
                    entry.access_count = entry.access_count.saturating_add(1);
                    let value = entry.value.clone();
                    let ghost updated = entry;
                    self.data.insert(i, (k, entry));
                    proof {
                        assert(self.table() =~= s.update(i as int, (s[i as int].0, updated)));
                        lemma_update_value(s, i as int, updated);
                    }
                    self.hits = self.hits.saturating_add(1);
                    return Some(value);
                } else {
                    let _ = self.data.remove(i);
                    proof {
                        lemma_remove_at(s, i as int);
                        assert(self.table() =~= s.remove(i as int));
                    }
                }
            },
            None => {
                proof {
                    assert(!has_key_in(s, key@)) by {
                        if has_key_in(s, key@) {
                            let j = index_in(s, key@);
                            assert(s[j].0 == self.data@[j].0@);
                        }
                    }
                    assert(as_map(s).remove(key@) =~= as_map(s));
                }
            },
        }
        self.misses = self.misses.saturating_add(1);
        None
    }
}

impl<V> PerformanceCache<V> {
    /// The position of the entry used longest ago, strictly before `now`:
    /// the first such entry with the smallest last-access time.
    fn oldest_before(&self, now_ms: u64) -> (r: Option<usize>)
        ensures
            r matches Some(i) ==> {
                &&& i < self.data@.len()
                &&& self.data@[i as int].1.last_accessed_ms < now_ms
                &&& forall|j: int| 0 <= j < self.data@.len() ==> self.data@[j].1.last_accessed_ms >= self.data@[i as int].1.last_accessed_ms
                &&& forall|j: int| 0 <= j < i ==> self.data@[j].1.last_accessed_ms > self.data@[i as int].1.last_accessed_ms
            },
            r is None ==> forall|j: int| 0 <= j < self.data@.len() ==> self.data@[j].1.last_accessed_ms >= now_ms,
    {
        let mut best: Option<usize> = None;
        let mut oldest = now_ms;
        let mut i: usize = 0;
        while i < self.data.len()
            invariant
                i <= self.data@.len(),
                best matches Some(b) ==> b < i && oldest == self.data@[b as int].1.last_accessed_ms && oldest < now_ms
                    && forall|j: int| 0 <= j < b ==> self.data@[j].1.last_accessed_ms > oldest,
                best is None ==> oldest == now_ms,
                forall|j: int| 0 <= j < i ==> self.data@[j].1.last_accessed_ms >= oldest,
            decreases self.data@.len() - i,
        {
            if self.data[i].1.last_accessed_ms < oldest {
                oldest = self.data[i].1.last_accessed_ms;
                best = Some(i);
            }
            i = i + 1;
        }
        best
    }

    /// Put value in cache at time `now_ms`. When the cache holds
    /// `max_size` entries or more, the entry used longest ago (strictly
    /// before `now_ms`; the first stored among equals) is evicted first.
    /// The new entry replaces any entry with the same key.
    pub fn put(&mut self, key: String, value: V, now_ms: u64)
        requires
            old(self).wf(),
        ensures
            final(self).wf(),
            final(self).ttl() == old(self).ttl(),
            final(self).capacity() == old(self).capacity(),
            final(self).counters() == old(self).counters(),
            final(self).entries().contains_key(key@),
            final(self).entries()[key@] == (CacheEntry { value, created_at_ms: now_ms, last_accessed_ms: now_ms, access_count: 1 }),
            old(self).entries().len() < old(self).capacity() ==> final(self).entries() == old(self).entries().insert(key@,
                CacheEntry { value, created_at_ms: now_ms, last_accessed_ms: now_ms, access_count: 1 }),
            forall|k: Seq<char>| #[trigger] final(self).entries().contains_key(k) && k != key@ ==> old(self).entries().contains_key(k)
                && final(self).entries()[k] == old(self).entries()[k],
            old(self).entries().len() >= old(self).capacity() ==> {
                let m = old(self).entries();
                let e = CacheEntry { value, created_at_ms: now_ms, last_accessed_ms: now_ms, access_count: 1 };
                ||| (exists|victim: Seq<char>| {
                    &&& #[trigger] m.contains_key(victim)
                    &&& m[victim].last_accessed_ms < now_ms
                    &&& (forall|k: Seq<char>| #[trigger] m.contains_key(k) ==> m[k].last_accessed_ms >= m[victim].last_accessed_ms)
                    &&& final(self).entries() == m.remove(victim).insert(key@, e)
                })
                ||| ((forall|k: Seq<char>| #[trigger] m.contains_key(k) ==> m[k].last_accessed_ms >= now_ms)
                    && final(self).entries() == m.insert(key@, e))
            },
    {
        let entry = CacheEntry { value, created_at_ms: now_ms, last_accessed_ms: now_ms, access_count: 1 };
        let ghost e = entry;
        let ghost m0 = self.entries();
        proof {
            lemma_table_map_len(self.table());
        }
        if self.data.len() >= self.max_size {
            match self.oldest_before(now_ms) {
                Some(i) => {
                    let ghost s = self.table();
                    proof {
                        lemma_index_unique(s, i as int);
                        assert forall|k: Seq<char>| #[trigger] m0.contains_key(k) implies m0[k].last_accessed_ms >= m0[s[i as int].0].last_accessed_ms by {
                            let j = index_in(s, k);
                            assert(s[j].1 == self.data@[j].1);
                        }
                    }
                    let _ = self.data.remove(i);
                    proof {
                        lemma_remove_at(s, i as int);
                        assert(self.table() =~= s.remove(i as int));
                    }
                },
                None => {
                    proof {
                        let s = self.table();
                        assert forall|k: Seq<char>| #[trigger] m0.contains_key(k) implies m0[k].last_accessed_ms >= now_ms by {
                            let j = index_in(s, k);
                            assert(s[j].1 == self.data@[j].1);
                        }
                    }
                },
            }
        }
        let ghost m1 = self.entries();
        let ghost s = self.table();
        match find_key(&self.data, key.as_str()) {
            Some(i) => {
                proof {
                    assert(s[i as int].0 == key@);
                    lemma_index_unique(s, i as int);
                }
                self.data.set(i, (key, entry));
                proof {
                    lemma_update_value(s, i as int, e);
                    assert(self.table() =~= s.update(i as int, (s[i as int].0, e)));
                }
            },
            None => {
                proof {
                    assert(!has_key_in(s, key@)) by {
                        if has_key_in(s, key@) {
                            let j = index_in(s, key@);
                            assert(s[j].0 == self.data@[j].0@);
                        }
                    }
                }
                let ghost k = key@;
                self.data.push((key, entry));
                proof {
                    lemma_push_new(s, k, e);
                    assert(self.table() =~= s.push((k, e)));
                }
            },
        }
    }

    /// Clear expired entries: only those still fresh at `now_ms` remain.
    pub fn clear_expired(&mut self, now_ms: u64)
        requires
            old(self).wf(),
        ensures
            final(self).wf(),
            final(self).ttl() == old(self).ttl(),
            final(self).capacity() == old(self).capacity(),
            final(self).counters() == old(self).counters(),
            forall|k: Seq<char>| #[trigger] final(self).entries().contains_key(k) <==> (old(self).entries().contains_key(k)
                && fresh(old(self).entries()[k].created_at_ms, now_ms, old(self).ttl())),
            forall|k: Seq<char>| #[trigger] final(self).entries().contains_key(k) ==> final(self).entries()[k] == old(self).entries()[k],
    {
        let ghost m0 = self.entries();
        let mut i: usize = 0;
        while i < self.data.len()
            invariant
                self.wf(),
                self.ttl_ms == old(self).ttl_ms,
                self.max_size == old(self).max_size,
                self.hits == old(self).hits,
                self.misses == old(self).misses,
                i <= self.data@.len(),
                forall|j: int| 0 <= j < i ==> fresh(#[trigger] self.table()[j].1.created_at_ms, now_ms, self.ttl_ms),
                forall|k: Seq<char>| #[trigger] self.entries().contains_key(k) ==> m0.contains_key(k) && self.entries()[k] == m0[k],
                forall|k: Seq<char>| m0.contains_key(k) && fresh(m0[k].created_at_ms, now_ms, self.ttl_ms) ==> #[trigger] self.entries().contains_key(k),
            decreases self.data@.len() - i,
        {
            let ghost s = self.table();
            let age = now_ms.saturating_sub(self.data[i].1.created_at_ms);
            if age < self.ttl_ms {
                i = i + 1;
            } else {
                let ghost cur = self.entries();
                proof {
                    lemma_index_unique(s, i as int);
                    assert(cur[s[i as int].0] == s[i as int].1);
                }
                let _ = self.data.remove(i);
                proof {
                    lemma_remove_at(s, i as int);
                    assert(self.table() =~= s.remove(i as int));
                    assert(self.entries() == cur.remove(s[i as int].0));
                    assert forall|k: Seq<char>| m0.contains_key(k) && fresh(m0[k].created_at_ms, now_ms, self.ttl_ms) implies
                        #[trigger] self.entries().contains_key(k) by {
                        assert(cur.contains_key(k));
                        if k == s[i as int].0 {
                            assert(cur[k] == m0[k]);
                        }
                    }
                    assert forall|j: int| 0 <= j < i implies fresh(#[trigger] self.table()[j].1.created_at_ms, now_ms, self.ttl_ms) by {
                        assert(self.table()[j] == s[j]);
                    }
                }
            }
        }
        proof {
            assert forall|k: Seq<char>| #[trigger] self.entries().contains_key(k) implies fresh(m0[k].created_at_ms, now_ms, self.ttl_ms) by {
                let j = index_in(self.table(), k);
                lemma_index_unique(self.table(), j);
            }
        }
    }

    /// Get cache statistics
    pub fn stats(&self) -> (r: CacheStats)
        requires
            self.wf(),
        ensures
            r.hits == self.counters().0,
            r.misses == self.counters().1,
            r.size == self.entries().len(),
            r.max_size == self.capacity(),
    {
        proof {
            lemma_table_map_len(self.table());
        }
        CacheStats { hits: self.hits, misses: self.misses, size: self.data.len(), max_size: self.max_size }
    }
}

/// A table with distinct keys has as many entries as its map.
proof fn lemma_table_map_len<T>(s: Seq<(Seq<char>, T)>)
    requires
        keys_distinct(s),
    ensures
        as_map(s).dom().finite(),
        as_map(s).len() == s.len(),
    decreases s.len(),
{
    if s.len() == 0 {
        assert(as_map(s) =~= Map::<Seq<char>, T>::empty());
    } else {
        let t = s.drop_last();
        assert(keys_distinct(t));
        lemma_table_map_len(t);
        assert(!has_key_in(t, s.last().0)) by {
            if has_key_in(t, s.last().0) {
                let j = index_in(t, s.last().0);
                assert(t[j] == s[j]);
            }
        }
        lemma_push_new(t, s.last().0, s.last().1);
        assert(t.push(s.last()) =~= s);
    }
}

/// Connection pool for resource management.
///
/// Idle connections are handed out last-in, first-out; a connection that is
/// handed back joins the idle ones again.
pub struct ConnectionPool<T> {
    pool: Vec<T>,
    max_size: usize,
    active_connections: usize,
}

impl<T> ConnectionPool<T> {
    /// The idle connections, the most recently returned last.
    pub closed spec fn idle(&self) -> Seq<T> {
        self.pool@
    }

    /// The number of connections handed out and not yet returned.
    pub closed spec fn active(&self) -> nat {
        self.active_connections as nat
    }

    /// The capacity the pool was created with.
    pub closed spec fn capacity(&self) -> nat {
        self.max_size as nat
    }

    /// Creates an empty pool that accepts up to `max_size` idle connections.
    pub fn new(max_size: usize) -> (r: Self)
        ensures
            r.idle() == Seq::<T>::empty(),
            r.active() == 0,
            r.capacity() == max_size,
    {
        ConnectionPool { pool: Vec::new(), max_size, active_connections: 0 }
    }

    /// Takes the most recently added idle connection, or fails with
    /// `NoConnectionsAvailable` when none is idle.
    pub fn acquire(&mut self) -> (r: Result<T, PoolError>)
        requires
            old(self).active() < usize::MAX,
        ensures
            final(self).capacity() == old(self).capacity(),
            old(self).idle().len() == 0 ==> {
                &&& r == Err::<T, PoolError>(PoolError::NoConnectionsAvailable)
                &&& final(self).idle() == old(self).idle()
                &&& final(self).active() == old(self).active()
            },
            old(self).idle().len() > 0 ==> {
                &&& r == Ok::<T, PoolError>(old(self).idle().last())
                &&& final(self).idle() == old(self).idle().drop_last()
                &&& final(self).active() == old(self).active() + 1
            },
    {
        match self.pool.pop() {
            Some(connection) => {
                self.active_connections = self.active_connections + 1;
                Ok(connection)
            },
            None => Err(PoolError::NoConnectionsAvailable),
        }
    }

    /// Hands a connection back: it becomes idle again and stops counting as
    /// active.
    pub fn release(&mut self, connection: T)
        ensures
            final(self).idle() == old(self).idle().push(connection),
            final(self).active() == if old(self).active() > 0 {
                old(self).active() - 1
            } else {
                0
            },
            final(self).capacity() == old(self).capacity(),
    {
        self.pool.push(connection);
        if self.active_connections > 0 {
            self.active_connections = self.active_connections - 1;
        }
    }

    /// Adds a new idle connection while fewer than `max_size` are idle;
    /// otherwise fails with `PoolFull` and leaves the pool unchanged.
    pub fn add_connection(&mut self, connection: T) -> (r: Result<(), PoolError>)
        ensures
            final(self).active() == old(self).active(),
            final(self).capacity() == old(self).capacity(),
            old(self).idle().len() < old(self).capacity() ==> {
                &&& r is Ok
                &&& final(self).idle() == old(self).idle().push(connection)
            },
            old(self).idle().len() >= old(self).capacity() ==> {
                &&& r == Err::<(), PoolError>(PoolError::PoolFull)
                &&& final(self).idle() == old(self).idle()
            },
    {
        if self.pool.len() < self.max_size {
            self.pool.push(connection);
            Ok(())
        } else {
            Err(PoolError::PoolFull)
        }
    }

    /// Pool statistics: idle and active connections and their sum.
    pub fn stats(&self) -> (r: PoolStats)
        requires
            self.idle().len() + self.active() <= usize::MAX,
        ensures
            r.available_connections == self.idle().len(),
            r.active_connections == self.active(),
            r.total_connections == self.idle().len() + self.active(),
            r.max_size == self.capacity(),
    {
        let available = self.pool.len();
        PoolStats {
            total_connections: available + self.active_connections,
            available_connections: available,
            active_connections: self.active_connections,
            max_size: self.max_size,
        }
    }
}

/// A value stored under a key is what a lookup of that key finds at any
/// time before the TTL has run out: the entry `put` leaves is fresh until
/// then, and holds the stored value.
pub proof fn lemma_put_then_get<V>(cache: PerformanceCache<V>, key: Seq<char>, value: V, stored_ms: u64, later_ms: u64)
    requires
        cache.entries().contains_key(key),
        cache.entries()[key] == (CacheEntry { value, created_at_ms: stored_ms, last_accessed_ms: stored_ms, access_count: 1 }),
        stored_ms <= later_ms,
        later_ms - stored_ms < cache.ttl(),
    ensures
        cache.entries().contains_key(key),
        fresh(cache.entries()[key].created_at_ms, later_ms, cache.ttl()),
        cache.entries()[key].value == value,
{
}

/// A connection that is handed back is the next one handed out, and the
/// pool's idle and active counts return to what they were.
pub proof fn lemma_release_then_acquire<T>(
    before: ConnectionPool<T>,
    released: ConnectionPool<T>,
    c: T,
)
    requires
        released.idle() == before.idle().push(c),
        released.active() == (if before.active() > 0 { before.active() - 1 } else { 0 }),
    ensures
        released.idle().len() > 0,
        released.idle().last() == c,
        released.idle().drop_last() == before.idle(),
{
    assert(released.idle().drop_last() =~= before.idle());
}

} // verus!
