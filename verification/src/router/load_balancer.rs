//! Distribution of requests over cloud endpoints.
//!
//! Health is tracked per endpoint URL: every endpoint with a given URL sees
//! the same health record, and an update for a URL applies to all of them.

use crate::common::config::{CloudEndpoint, LoadBalancingAlgorithm};
use crate::common::utils::string_eq_str;
use vstd::prelude::*;

verus! {

/// Health record of an endpoint.
#[derive(Debug, Clone, Copy, PartialEq, Eq, Structural)]
pub struct EndpointHealth {
    pub is_healthy: bool,
    pub failure_count: u32,
    pub active_connections: u32,
}

/// The record every endpoint starts with: healthy, no failures, idle.
pub open spec fn fresh_health() -> EndpointHealth {
    EndpointHealth { is_healthy: true, failure_count: 0, active_connections: 0 }
}

/// What the balancer decided for a request.
#[derive(Debug, Clone, PartialEq, Eq)]
pub enum EndpointSelection {
    /// No endpoint is configured.
    NoEndpoint,
    /// Send the request to the endpoint at this index.
    Endpoint(usize),
    /// Health-based balancing: send the request to the candidate (indices of
    /// the healthy endpoints, in configuration order) with the best health
    /// score, or to `fallback` when there is no candidate.
    BestScored { candidates: Vec<usize>, fallback: usize },
}

/// Load balancer for distributing requests across multiple endpoints
pub struct LoadBalancer {
    algorithm: LoadBalancingAlgorithm,
    endpoints: Vec<CloudEndpoint>,
    round_robin_counter: usize,
    health: Vec<EndpointHealth>,
}

/// The index of the healthy endpoint with the fewest active connections
/// (below `u32::MAX`), the first one among equals; 0 when there is none.
pub open spec fn least_connections_index(health: Seq<EndpointHealth>) -> int {
    least_connections_from(health, 0, u32::MAX as int, 0)
}

/// Scan of `health` from position `i`, with `best` chosen so far and `min`
/// its connection count (`u32::MAX` while nothing was chosen).
pub open spec fn least_connections_from(health: Seq<EndpointHealth>, i: int, min: int, best: int) -> int
    decreases health.len() - i,
{
    if i >= health.len() || i < 0 {
        best
    } else if health[i].is_healthy && (health[i].active_connections as int) < min {
        least_connections_from(health, i + 1, health[i].active_connections as int, i)
    } else {
        least_connections_from(health, i + 1, min, best)
    }
}

/// The indices of the healthy endpoints, in order, among the first `n`.
pub open spec fn healthy_prefix(health: Seq<EndpointHealth>, n: int) -> Seq<usize>
    decreases n,
{
    if n <= 0 {
        Seq::empty()
    } else if health[n - 1].is_healthy {
        healthy_prefix(health, n - 1).push((n - 1) as usize)
    } else {
        healthy_prefix(health, n - 1)
    }
}

/// The indices of the healthy endpoints, in order.
pub open spec fn healthy_indices(health: Seq<EndpointHealth>) -> Seq<usize> {
    healthy_prefix(health, health.len() as int)
}

/// The record after a health report: a healthy report clears the failure
/// count, an unhealthy one adds a failure (saturating).
pub open spec fn reported(h: EndpointHealth, is_healthy: bool) -> EndpointHealth {
    EndpointHealth {
        is_healthy,
        failure_count: if is_healthy {
            0
        } else if h.failure_count < u32::MAX {
            (h.failure_count + 1) as u32
        } else {
            u32::MAX
        },
        active_connections: h.active_connections,
    }
}

/// The record with one more active connection (saturating).
pub open spec fn started(h: EndpointHealth) -> EndpointHealth {
    EndpointHealth {
        active_connections: if h.active_connections < u32::MAX {
            (h.active_connections + 1) as u32
        } else {
            u32::MAX
        },
        ..h
    }
}

/// The record with one fewer active connection (not below zero).
pub open spec fn ended(h: EndpointHealth) -> EndpointHealth {
    EndpointHealth {
        active_connections: if h.active_connections > 0 {
            (h.active_connections - 1) as u32
        } else {
            0
        },
        ..h
    }
}

impl LoadBalancer {
    /// The balancing algorithm.
    pub closed spec fn spec_algorithm(&self) -> LoadBalancingAlgorithm {
        self.algorithm
    }

    /// The URLs of the configured endpoints, in order.
    pub closed spec fn urls(&self) -> Seq<Seq<char>> {
        Seq::new(self.endpoints@.len(), |i: int| self.endpoints@[i].url@)
    }

    /// The health record of each endpoint, in order.
    pub closed spec fn health(&self) -> Seq<EndpointHealth> {
        self.health@
    }

    /// The round-robin counter.
    pub closed spec fn counter(&self) -> usize {
        self.round_robin_counter
    }

    /// One health record per endpoint.
    pub closed spec fn wf(&self) -> bool {
        self.health@.len() == self.endpoints@.len()
    }

    /// Creates a balancer over the given endpoints, all healthy and idle.
    pub fn new(algorithm: LoadBalancingAlgorithm, endpoints: Vec<CloudEndpoint>) -> (r: Self)
        ensures
            r.wf(),
            r.spec_algorithm() == algorithm,
            r.urls() == Seq::new(endpoints@.len(), |i: int| endpoints@[i].url@),
            r.health() == Seq::new(endpoints@.len(), |i: int| fresh_health()),
            r.counter() == 0,
    {
        let n = endpoints.len();
        let mut health: Vec<EndpointHealth> = Vec::new();
        let mut i: usize = 0;
        while i < n
            invariant
                i <= n,
                health@ == Seq::new(i as nat, |k: int| fresh_health()),
            decreases n - i,
        {
            health.push(EndpointHealth { is_healthy: true, failure_count: 0, active_connections: 0 });
            i = i + 1;
        }
        let r = LoadBalancer { algorithm, endpoints, round_robin_counter: 0, health };
        proof {
            assert(r.urls() =~= Seq::new(endpoints@.len(), |i: int| endpoints@[i].url@));
        }
        r
    }

    /// The endpoint at `index`.
    pub fn endpoint(&self, index: usize) -> (r: &CloudEndpoint)
        requires
            index < self.urls().len(),
        ensures
            r.url@ == self.urls()[index as int],
    {
        &self.endpoints[index]
    }

    /// Select the endpoint for a request.
    ///
    /// Round robin (weighted round robin treats every endpoint alike) takes
    /// the counter modulo the number of endpoints and advances the counter,
    /// wrapping at `usize::MAX`. Least connections takes the healthy endpoint
    /// with the fewest active connections, the first among equals, or the
    /// first endpoint when none qualifies. Health-based balancing hands the
    /// healthy endpoints to the caller, who weighs their response times.
    pub fn select_endpoint(&mut self) -> (r: EndpointSelection)
        requires
            old(self).wf(),
        ensures
            final(self).wf(),
            final(self).urls() == old(self).urls(),
            final(self).health() == old(self).health(),
            final(self).spec_algorithm() == old(self).spec_algorithm(),
            old(self).urls().len() == 0 ==> r == EndpointSelection::NoEndpoint && final(self).counter()
                == old(self).counter(),
            old(self).urls().len() > 0 ==> match old(self).spec_algorithm() {
                LoadBalancingAlgorithm::RoundRobin | LoadBalancingAlgorithm::WeightedRoundRobin => {
                    &&& r == EndpointSelection::Endpoint(
                        (old(self).counter() as int % old(self).urls().len() as int) as usize,
                    )
                    &&& final(self).counter() == (if old(self).counter() < usize::MAX {
                        (old(self).counter() + 1) as usize
                    } else {
                        0usize
                    })
                },
                LoadBalancingAlgorithm::LeastConnections => {
                    &&& r == EndpointSelection::Endpoint(
                        least_connections_index(old(self).health()) as usize,
                    )
                    &&& final(self).counter() == old(self).counter()
                },
                LoadBalancingAlgorithm::HealthBased => {
                    &&& r matches EndpointSelection::BestScored { candidates, fallback }
                    &&& candidates@ == healthy_indices(old(self).health())
                    &&& fallback == 0
                    &&& final(self).counter() == old(self).counter()
                },
            },
    {
        let n = self.endpoints.len();
        if n == 0 {
            return EndpointSelection::NoEndpoint;
        }
        proof {
            assert(self.urls().len() == n);
        }
        match self.algorithm {
            LoadBalancingAlgorithm::RoundRobin | LoadBalancingAlgorithm::WeightedRoundRobin => {
                let index = self.round_robin_counter % n;
                self.round_robin_counter = self.round_robin_counter.wrapping_add(1);
                EndpointSelection::Endpoint(index)
            },
            LoadBalancingAlgorithm::LeastConnections => {
                EndpointSelection::Endpoint(self.least_connections())
            },
            LoadBalancingAlgorithm::HealthBased => {
                EndpointSelection::BestScored { candidates: self.healthy_endpoints(), fallback: 0 }
            },
        }
    }

    fn least_connections(&self) -> (r: usize)
        requires
            self.wf(),
            self.health().len() > 0,
        ensures
            r as int == least_connections_index(self.health()),
            r < self.health().len(),
    {
        let mut best: usize = 0;
        let mut min: u32 = u32::MAX;
        let mut i: usize = 0;
        while i < self.health.len()
            invariant
                i <= self.health@.len(),
                best < self.health@.len(),
                least_connections_from(self.health@, i as int, min as int, best as int)
                    == least_connections_index(self.health@),
            decreases self.health@.len() - i,
        {
            let h = self.health[i];
            if h.is_healthy && h.active_connections < min {
                min = h.active_connections;
                best = i;
            }
            i = i + 1;
        }
        best
    }

    /// The indices of the healthy endpoints, in configuration order.
    pub fn healthy_endpoints(&self) -> (r: Vec<usize>)
        ensures
            r@ == healthy_indices(self.health()),
    {
        let mut out: Vec<usize> = Vec::new();
        let mut i: usize = 0;
        while i < self.health.len()
            invariant
                i <= self.health@.len(),
                out@ == healthy_prefix(self.health@, i as int),
            decreases self.health@.len() - i,
        {
            if self.health[i].is_healthy {
                out.push(i);
            }
            i = i + 1;
        }
        out
    }

    /// The health record of the endpoint at `index`.
    pub fn health_of(&self, index: usize) -> (r: EndpointHealth)
        requires
            index < self.health().len(),
        ensures
            r == self.health()[index as int],
    {
        self.health[index]
    }

    /// Applies update `kind` (see `apply_update`) to the record of every
    /// endpoint whose URL is `url`.
    fn update_where_url(&mut self, url: &str, kind: u8)
        requires
            old(self).wf(),
            kind < 4,
        ensures
            final(self).wf(),
            final(self).urls() == old(self).urls(),
            final(self).counter() == old(self).counter(),
            final(self).spec_algorithm() == old(self).spec_algorithm(),
            forall|i: int|
                0 <= i < old(self).health().len() ==> #[trigger] final(self).health()[i] == if old(
                    self,
                ).urls()[i] == url@ {
                    apply_update(old(self).health()[i], kind)
                } else {
                    old(self).health()[i]
                },
    {
        let n = self.health.len();
        let ghost urls = self.urls();
        let ghost before = self.health@;
        let ghost counter = self.round_robin_counter;
        let ghost algorithm = self.algorithm;
        let mut i: usize = 0;
        while i < n
            invariant
                self.round_robin_counter == counter,
                self.algorithm == algorithm,
                n == self.health@.len(),
                n == self.endpoints@.len(),
                i <= n,
                self.urls() == urls,
                before.len() == n,
                kind < 4,
                forall|k: int|
                    0 <= k < n ==> #[trigger] self.health@[k] == if k < i && urls[k] == url@ {
                        apply_update(before[k], kind)
                    } else {
                        before[k]
                    },
            decreases n - i,
        {
            if string_eq_str(&self.endpoints[i].url, url) {
                let h = self.health[i];
                let updated = if kind == 0 {
                    EndpointHealth {
                        is_healthy: true,
                        failure_count: 0,
                        active_connections: h.active_connections,
                    }
                } else if kind == 1 {
                    EndpointHealth {
                        is_healthy: false,
                        failure_count: if h.failure_count < u32::MAX {
                            h.failure_count + 1
                        } else {
                            u32::MAX
                        },
                        active_connections: h.active_connections,
                    }
                } else if kind == 2 {
                    EndpointHealth {
                        active_connections: if h.active_connections < u32::MAX {
                            h.active_connections + 1
                        } else {
                            u32::MAX
                        },
                        ..h
                    }
                } else {
                    EndpointHealth {
                        active_connections: if h.active_connections > 0 {
                            h.active_connections - 1
                        } else {
                            0
                        },
                        ..h
                    }
                };
                self.health.set(i, updated);
            }
            i = i + 1;
        }
    }

    /// Records a health report for every endpoint with this URL; URLs that no
    /// endpoint has are ignored.
    pub fn update_endpoint_health(&mut self, url: &str, is_healthy: bool)
        requires
            old(self).wf(),
        ensures
            final(self).wf(),
            final(self).urls() == old(self).urls(),
            final(self).counter() == old(self).counter(),
            final(self).spec_algorithm() == old(self).spec_algorithm(),
            forall|i: int|
                0 <= i < old(self).health().len() ==> #[trigger] final(self).health()[i] == if old(
                    self,
                ).urls()[i] == url@ {
                    reported(old(self).health()[i], is_healthy)
                } else {
                    old(self).health()[i]
                },
    {
        let kind: u8 = if is_healthy { 0 } else { 1 };
        self.update_where_url(url, kind);
    }

    /// Marks the start of a connection to the endpoints with this URL.
    pub fn connection_started(&mut self, url: &str)
        requires
            old(self).wf(),
        ensures
            final(self).wf(),
            final(self).urls() == old(self).urls(),
            final(self).counter() == old(self).counter(),
            final(self).spec_algorithm() == old(self).spec_algorithm(),
            forall|i: int|
                0 <= i < old(self).health().len() ==> #[trigger] final(self).health()[i] == if old(
                    self,
                ).urls()[i] == url@ {
                    started(old(self).health()[i])
                } else {
                    old(self).health()[i]
                },
    {
        self.update_where_url(url, 2);
    }

    /// Marks the end of a connection to the endpoints with this URL.
    pub fn connection_ended(&mut self, url: &str)
        requires
            old(self).wf(),
        ensures
            final(self).wf(),
            final(self).urls() == old(self).urls(),
            final(self).counter() == old(self).counter(),
            final(self).spec_algorithm() == old(self).spec_algorithm(),
            forall|i: int|
                0 <= i < old(self).health().len() ==> #[trigger] final(self).health()[i] == if old(
                    self,
                ).urls()[i] == url@ {
                    ended(old(self).health()[i])
                } else {
                    old(self).health()[i]
                },
    {
        self.update_where_url(url, 3);
    }
}

/// Round robin is fair: among `n` consecutive picks over `n` endpoints,
/// starting from any counter value, no endpoint is picked twice (so each is
/// picked once).
pub proof fn lemma_round_robin_distinct(counter: int, n: int, k1: int, k2: int)
    requires
        n > 0,
        counter >= 0,
        0 <= k1 < k2 < n,
    ensures
        (counter + k1) % n != (counter + k2) % n,
{
    let a = counter + k1;
    let b = counter + k2;
    if a % n == b % n {
        assert(a == (a / n) * n + a % n) by (nonlinear_arith)
            requires n > 0, a >= 0;
        assert(b == (b / n) * n + b % n) by (nonlinear_arith)
            requires n > 0, b >= 0;
        assert(b - a == (b / n - a / n) * n) by (nonlinear_arith)
            requires a == (a / n) * n + a % n, b == (b / n) * n + b % n, a % n == b % n;
        assert(0 < b - a < n);
        assert(false) by (nonlinear_arith)
            requires b - a == (b / n - a / n) * n, 0 < b - a < n, n > 0;
    }
}

/// The record after one of the updates: a healthy report, an unhealthy
/// report, a connection start, a connection end.
pub open spec fn apply_update(h: EndpointHealth, kind: u8) -> EndpointHealth {
    if kind == 0 {
        reported(h, true)
    } else if kind == 1 {
        reported(h, false)
    } else if kind == 2 {
        started(h)
    } else {
        ended(h)
    }
}


/// The scan keeps the fewest-connections choice among what it has seen.
proof fn lemma_least_connections_from(health: Seq<EndpointHealth>, i: int, min: int, best: int)
    requires
        0 <= i <= health.len(),
        0 <= min <= u32::MAX,
        min < u32::MAX ==> 0 <= best < i && health[best].is_healthy && health[best].active_connections == min
            && (forall|j: int| 0 <= j < best && #[trigger] health[j].is_healthy ==> health[j].active_connections > min),
        forall|j: int| 0 <= j < i && #[trigger] health[j].is_healthy ==> health[j].active_connections >= min,
        min == u32::MAX ==> best == 0,
    ensures
        ({
            let r = least_connections_from(health, i, min, best);
            &&& (exists|j: int| 0 <= j < health.len() && health[j].is_healthy && health[j].active_connections < u32::MAX)
                    || min < u32::MAX
                ==> {
                    &&& 0 <= r < health.len()
                    &&& health[r].is_healthy
                    &&& forall|j: int| 0 <= j < health.len() && #[trigger] health[j].is_healthy
                        ==> health[r].active_connections <= health[j].active_connections
                    &&& forall|j: int| 0 <= j < r && #[trigger] health[j].is_healthy
                        ==> health[r].active_connections < health[j].active_connections
                }
            &&& (forall|j: int| 0 <= j < health.len() && #[trigger] health[j].is_healthy
                    ==> health[j].active_connections == u32::MAX) && min == u32::MAX ==> r == 0
        }),
    decreases health.len() - i,
{
    if i < health.len() {
        if health[i].is_healthy && (health[i].active_connections as int) < min {
            lemma_least_connections_from(health, i + 1, health[i].active_connections as int, i);
        } else {
            lemma_least_connections_from(health, i + 1, min, best);
        }
    }
}

/// Least-connections balancing sends a request to a healthy endpoint with
/// the fewest active connections, the first such in configuration order,
/// whenever some healthy endpoint is below the connection counter's maximum.
pub proof fn lemma_least_connections_choice(health: Seq<EndpointHealth>)
    requires
        exists|j: int| 0 <= j < health.len() && health[j].is_healthy && health[j].active_connections < u32::MAX,
    ensures
        0 <= least_connections_index(health) < health.len(),
        health[least_connections_index(health)].is_healthy,
        forall|j: int| 0 <= j < health.len() && #[trigger] health[j].is_healthy
            ==> health[least_connections_index(health)].active_connections <= health[j].active_connections,
        forall|j: int| 0 <= j < least_connections_index(health) && #[trigger] health[j].is_healthy
            ==> health[least_connections_index(health)].active_connections < health[j].active_connections,
{
    lemma_least_connections_from(health, 0, u32::MAX as int, 0);
}

/// A connection that starts and then ends leaves the endpoint's record as
/// it was (below the counter's maximum); a healthy report clears the
/// failure count and an unhealthy one adds one.
pub proof fn lemma_connection_round_trip(h: EndpointHealth)
    requires
        h.active_connections < u32::MAX,
        h.failure_count < u32::MAX,
    ensures
        ended(started(h)) == h,
        started(h).active_connections == h.active_connections + 1,
        reported(h, true).failure_count == 0 && reported(h, true).is_healthy,
        reported(h, false).failure_count == h.failure_count + 1 && !reported(h, false).is_healthy,
{
}

} // verus!
