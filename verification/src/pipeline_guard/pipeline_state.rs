//! Pipeline state management and tracking.
//!
//! Components are kept in a list with distinct identifiers.

use vstd::prelude::*;
use crate::common::metrics::HealthLevel;
use crate::common::utils::{current_timestamp_ms, string_eq_str};

verus! {

/// Status of a pipeline component
#[derive(Debug, Clone, Copy, PartialEq, Eq, Structural)]
pub enum ComponentStatus {
    Healthy,
    Degraded,
    Failed,
    Unknown,
}

/// Overall pipeline status
#[derive(Debug, Clone, Copy, PartialEq, Eq, Structural)]
pub enum PipelineStatus {
    /// All components healthy
    Healthy,
    /// Some components degraded but operational
    Degraded,
    /// Critical components failed
    Critical,
    /// Multiple components failed
    Failed,
}

/// The status a health check reports.
pub open spec fn status_from(healthy: bool) -> ComponentStatus {
    if healthy { ComponentStatus::Healthy } else { ComponentStatus::Failed }
}

impl ComponentStatus {
    /// Healthy for a passing check, failed otherwise.
    pub fn from_health(healthy: bool) -> (r: Self)
        ensures
            r == status_from(healthy),
    {
        if healthy { ComponentStatus::Healthy } else { ComponentStatus::Failed }
    }
}

/// Tracked information about one component.
#[derive(Debug, Clone)]
pub struct ComponentInfo {
    pub id: String,
    pub status: ComponentStatus,
    /// Time of the last health check (ms since the Unix epoch).
    pub last_health_check_ms: u64,
    /// Time the status last changed (ms since the Unix epoch).
    pub last_status_change_ms: u64,
    pub consecutive_failures: u32,
    pub total_failures: u64,
}

/// Abstract view of a component: identifier, status, check and status-change
/// times and failure counters.
pub struct ComponentView {
    pub id: Seq<char>,
    pub status: ComponentStatus,
    pub last_health_check_ms: u64,
    pub last_status_change_ms: u64,
    pub consecutive_failures: u32,
    pub total_failures: u64,
}

impl View for ComponentInfo {
    type V = ComponentView;

    open spec fn view(&self) -> ComponentView {
        ComponentView {
            id: self.id@,
            status: self.status,
            last_health_check_ms: self.last_health_check_ms,
            last_status_change_ms: self.last_status_change_ms,
            consecutive_failures: self.consecutive_failures,
            total_failures: self.total_failures,
        }
    }
}

/// The component after a health check at `now` (ms): the status follows the
/// check and the check time is `now`, as is the status-change time when the
/// status changes; every failed check adds one to the consecutive and to the
/// total failure count (saturating at the counters' maximum), and a passed
/// check clears the consecutive count.
pub open spec fn after_health_check(c: ComponentView, healthy: bool, now: u64) -> ComponentView {
    let changed = if status_from(healthy) != c.status { now } else { c.last_status_change_ms };
    if !healthy {
        ComponentView {
            status: status_from(healthy),
            last_health_check_ms: now,
            last_status_change_ms: changed,
            consecutive_failures: c.consecutive_failures.saturating_add(1),
            total_failures: c.total_failures.saturating_add(1),
            ..c
        }
    } else {
        ComponentView {
            status: status_from(healthy),
            last_health_check_ms: now,
            last_status_change_ms: changed,
            consecutive_failures: 0,
            ..c
        }
    }
}

/// A new component created at `now` (ms): unknown status, no failures.
pub open spec fn fresh_component(id: Seq<char>, now: u64) -> ComponentView {
    ComponentView {
        id,
        status: ComponentStatus::Unknown,
        last_health_check_ms: now,
        last_status_change_ms: now,
        consecutive_failures: 0,
        total_failures: 0,
    }
}

/// The component after `k` health checks with the same outcome at `now`.
pub open spec fn after_checks(c: ComponentView, healthy: bool, k: nat, now: u64) -> ComponentView
    decreases k,
{
    if k == 0 { c } else { after_health_check(after_checks(c, healthy, (k - 1) as nat, now), healthy, now) }
}

/// A component that fails `k` checks in a row is failed with `k` more
/// consecutive and `k` more total failures (while the counters have room),
/// and the next passed check makes it healthy with no consecutive failures,
/// keeping the total.
pub proof fn lemma_consecutive_failed_checks(c: ComponentView, k: nat, now: u64)
    requires
        k >= 1,
        c.consecutive_failures + k <= u32::MAX,
        c.total_failures + k <= u64::MAX,
    ensures
        after_checks(c, false, k, now).id == c.id,
        after_checks(c, false, k, now).status == ComponentStatus::Failed,
        after_checks(c, false, k, now).consecutive_failures == c.consecutive_failures + k,
        after_checks(c, false, k, now).total_failures == c.total_failures + k,
        after_health_check(after_checks(c, false, k, now), true, now).status == ComponentStatus::Healthy,
        after_health_check(after_checks(c, false, k, now), true, now).consecutive_failures == 0,
        after_health_check(after_checks(c, false, k, now), true, now).total_failures == c.total_failures + k,
    decreases k,
{
    let prev = after_checks(c, false, (k - 1) as nat, now);
    if k > 1 {
        lemma_consecutive_failed_checks(c, (k - 1) as nat, now);
    } else {
        assert(prev == c);
    }
    assert(prev.consecutive_failures + 1 <= u32::MAX);
    assert(prev.total_failures + 1 <= u64::MAX);
    assert(prev.consecutive_failures.saturating_add(1) == prev.consecutive_failures + 1);
    assert(prev.total_failures.saturating_add(1) == prev.total_failures + 1);
    assert(after_checks(c, false, k, now) == after_health_check(prev, false, now));
}

impl ComponentInfo {
    /// A new component at `now_ms`, with unknown status and no failures.
    pub fn new_at(id: String, now_ms: u64) -> (r: Self)
        ensures
            r@ == fresh_component(id@, now_ms),
    {
        ComponentInfo {
            id,
            status: ComponentStatus::Unknown,
            last_health_check_ms: now_ms,
            last_status_change_ms: now_ms,
            consecutive_failures: 0,
            total_failures: 0,
        }
    }

    /// A new component stamped with the current clock reading, with unknown
    /// status and no failures.
    pub fn new(id: String) -> (r: Self)
        ensures
            exists|now: u64| r@ == #[trigger] fresh_component(id@, now),
    {
        let now = current_timestamp_ms();
        Self::new_at(id, now)
    }

    /// Apply the result of a health check made at `now_ms`.
    pub fn update_health_at(&mut self, healthy: bool, now_ms: u64)
        ensures
            final(self)@ == after_health_check(old(self)@, healthy, now_ms),
    {
        let new_status = ComponentStatus::from_health(healthy);
        if new_status != self.status {
            self.last_status_change_ms = now_ms;
        }
        if !healthy {
            self.consecutive_failures = self.consecutive_failures.saturating_add(1);
            self.total_failures = self.total_failures.saturating_add(1);
        } else {
            self.consecutive_failures = 0;
        }
        self.status = new_status;
        self.last_health_check_ms = now_ms;
    }

    /// Apply the result of a health check made now (the clock's reading).
    pub fn update_health(&mut self, healthy: bool)
        ensures
            exists|now: u64| final(self)@ == #[trigger] after_health_check(old(self)@, healthy, now),
    {
        let now = current_timestamp_ms();
        self.update_health_at(healthy, now);
    }
}

/// The components with `c` added, replacing a component with the same
/// identifier in place.
pub open spec fn with_component(cs: Seq<ComponentView>, c: ComponentView) -> Seq<ComponentView> {
    match index_of_id(cs, c.id) {
        Some(i) => cs.update(i, c),
        None => cs.push(c),
    }
}

/// The components after a health check of the component `id` at `now`;
/// unchanged when no component has that identifier.
pub open spec fn checked(cs: Seq<ComponentView>, id: Seq<char>, healthy: bool, now: u64) -> Seq<ComponentView> {
    match index_of_id(cs, id) {
        Some(i) => cs.update(i, after_health_check(cs[i], healthy, now)),
        None => cs,
    }
}

/// Identifiers in a list of components.
pub open spec fn ids_of(cs: Seq<ComponentView>) -> Seq<Seq<char>> {
    cs.map_values(|c: ComponentView| c.id)
}

/// Components have distinct identifiers.
pub open spec fn distinct_ids(cs: Seq<ComponentView>) -> bool {
    forall|i: int, j: int| 0 <= i < cs.len() && 0 <= j < cs.len() && i != j ==> cs[i].id != cs[j].id
}

/// Number of components in a given status.
pub open spec fn count_status(cs: Seq<ComponentView>, st: ComponentStatus) -> nat
    decreases cs.len(),
{
    if cs.len() == 0 { 0 } else { count_status(cs.drop_last(), st) + if cs.last().status == st { 1nat } else { 0nat } }
}

/// Overall pipeline health: healthy without components; critical when more
/// than half have failed; degraded when more than 30% are failed, degraded
/// or unknown; healthy otherwise.
pub open spec fn pipeline_health(cs: Seq<ComponentView>) -> HealthLevel {
    let total = cs.len();
    let failed = count_status(cs, ComponentStatus::Failed);
    let troubled = failed + count_status(cs, ComponentStatus::Degraded) + count_status(cs, ComponentStatus::Unknown);
    if total == 0 {
        HealthLevel::Healthy
    } else if 2 * failed > total {
        HealthLevel::Critical
    } else if 10 * troubled > 3 * total {
        HealthLevel::Degraded
    } else {
        HealthLevel::Healthy
    }
}

/// A pipeline whose components are all healthy is healthy; one with more
/// than half of its components failed is critical, and only such a one; and
/// with no more than 30% of components failed, degraded or unknown it is
/// healthy.
pub proof fn lemma_pipeline_health_levels(cs: Seq<ComponentView>)
    ensures
        count_status(cs, ComponentStatus::Healthy) == cs.len() ==> pipeline_health(cs) == HealthLevel::Healthy,
        2 * count_status(cs, ComponentStatus::Failed) > cs.len() ==> pipeline_health(cs) == HealthLevel::Critical,
        pipeline_health(cs) == HealthLevel::Critical ==> 2 * count_status(cs, ComponentStatus::Failed) > cs.len(),
        10 * (cs.len() - count_status(cs, ComponentStatus::Healthy)) <= 3 * cs.len()
            ==> pipeline_health(cs) == HealthLevel::Healthy,
{
    lemma_counts_partition(cs);
}

/// Pipeline status matching a health level.
pub open spec fn status_of_health(h: HealthLevel) -> PipelineStatus {
    match h {
        HealthLevel::Healthy => PipelineStatus::Healthy,
        HealthLevel::Degraded => PipelineStatus::Degraded,
        HealthLevel::Critical => PipelineStatus::Critical,
        HealthLevel::Unknown => PipelineStatus::Degraded,
    }
}

/// Pipeline summary information
#[derive(Debug, Clone)]
pub struct PipelineSummary {
    pub total_components: usize,
    pub healthy_components: usize,
    pub degraded_components: usize,
    pub failed_components: usize,
    pub overall_status: PipelineStatus,
}

/// Pipeline state tracking
#[derive(Debug, Clone)]
pub struct PipelineState {
    components: Vec<ComponentInfo>,
}

proof fn lemma_count_le(cs: Seq<ComponentView>, st: ComponentStatus)
    ensures
        count_status(cs, st) <= cs.len(),
    decreases cs.len(),
{
    if cs.len() > 0 {
        lemma_count_le(cs.drop_last(), st);
    }
}

/// Every component has exactly one status: the healthy, degraded, failed
/// and unknown counts add up to the number of components.
pub proof fn lemma_counts_partition(cs: Seq<ComponentView>)
    ensures
        count_status(cs, ComponentStatus::Healthy) + count_status(cs, ComponentStatus::Degraded)
            + count_status(cs, ComponentStatus::Failed) + count_status(cs, ComponentStatus::Unknown) == cs.len(),
    decreases cs.len(),
{
    if cs.len() > 0 {
        lemma_counts_partition(cs.drop_last());
    }
}

impl PipelineState {
    /// Tracked components, in insertion order.
    pub closed spec fn spec_components(&self) -> Seq<ComponentView> {
        self.components@.map_values(|c: ComponentInfo| c@)
    }

    /// Identifiers are distinct.
    pub closed spec fn wf(&self) -> bool {
        distinct_ids(self.spec_components())
    }

    /// Create a new pipeline state with no components.
    pub fn new() -> (r: Self)
        ensures
            r.wf(),
            r.spec_components() == Seq::<ComponentView>::empty(),
    {
        let r = PipelineState { components: Vec::new() };
        assert(r.spec_components() =~= Seq::<ComponentView>::empty());
        r
    }

    fn find(&self, component_id: &str) -> (r: Option<usize>)
        ensures
            match r {
                Some(i) => i < self.spec_components().len() && self.spec_components()[i as int].id == component_id@,
                None => forall|j: int| 0 <= j < self.spec_components().len() ==> self.spec_components()[j].id != component_id@,
            },
    {
        let n = self.components.len();
        for i in 0..n
            invariant
                n == self.components@.len(),
                forall|j: int| 0 <= j < i ==> self.spec_components()[j].id != component_id@,
        {
            if string_eq_str(&self.components[i].id, component_id) {
                return Some(i);
            }
        }
        None
    }

    /// Add a component to tracking at `now_ms`; an already tracked component
    /// with the same identifier is replaced by a fresh entry.
    pub fn add_component_at(&mut self, component_id: String, now_ms: u64)
        requires
            old(self).wf(),
        ensures
            final(self).wf(),
            final(self).spec_components() == with_component(old(self).spec_components(),
                fresh_component(component_id@, now_ms)),
    {
        let found = self.find(component_id.as_str());
        let info = ComponentInfo::new_at(component_id, now_ms);
        proof { lemma_index_of_id(old(self).spec_components(), info@.id); }
        match found {
            Some(i) => {
                self.components.set(i, info);
                assert(self.spec_components() =~= old(self).spec_components().update(i as int, info@));
            },
            None => {
                self.components.push(info);
                assert(self.spec_components() =~= old(self).spec_components().push(info@));
            },
        }
    }

    /// Add a component to tracking, stamped with the current clock reading;
    /// an already tracked component with the same identifier is replaced by
    /// a fresh entry.
    pub fn add_component(&mut self, component_id: String)
        requires
            old(self).wf(),
        ensures
            final(self).wf(),
            exists|now: u64| final(self).spec_components() == with_component(old(self).spec_components(),
                #[trigger] fresh_component(component_id@, now)),
    {
        let now = current_timestamp_ms();
        self.add_component_at(component_id, now);
    }

    /// Remove a component from tracking.
    pub fn remove_component(&mut self, component_id: &str)
        requires
            old(self).wf(),
        ensures
            final(self).wf(),
            match index_of_id(old(self).spec_components(), component_id@) {
                Some(i) => final(self).spec_components() == old(self).spec_components().remove(i),
                None => final(self).spec_components() == old(self).spec_components(),
            },
    {
        let found = self.find(component_id);
        proof { lemma_index_of_id(old(self).spec_components(), component_id@); }
        match found {
            Some(i) => {
                self.components.remove(i);
                assert(self.spec_components() =~= old(self).spec_components().remove(i as int));
            },
            None => {},
        }
    }

    /// Update a component's health with a check made at `now_ms`; unknown
    /// identifiers are ignored.
    pub fn update_component_health_at(&mut self, component_id: &str, healthy: bool, now_ms: u64)
        requires
            old(self).wf(),
        ensures
            final(self).wf(),
            final(self).spec_components() == checked(old(self).spec_components(), component_id@, healthy, now_ms),
    {
        let found = self.find(component_id);
        proof { lemma_index_of_id(old(self).spec_components(), component_id@); }
        match found {
            Some(i) => {
                let mut c = copy_info(&self.components[i]);
                c.update_health_at(healthy, now_ms);
                self.components.set(i, c);
                assert(self.spec_components() =~= old(self).spec_components().update(i as int,
                    after_health_check(old(self).spec_components()[i as int], healthy, now_ms)));
            },
            None => {},
        }
    }

    /// Update a component's health with a check made now (the clock's
    /// reading); unknown identifiers are ignored.
    pub fn update_component_health(&mut self, component_id: &str, healthy: bool)
        requires
            old(self).wf(),
        ensures
            final(self).wf(),
            exists|now: u64| final(self).spec_components() == #[trigger] checked(old(self).spec_components(),
                component_id@, healthy, now),
    {
        let now = current_timestamp_ms();
        self.update_component_health_at(component_id, healthy, now);
    }

    /// Reset component failure counters.
    pub fn reset_component_failures(&mut self, component_id: &str)
        requires
            old(self).wf(),
        ensures
            final(self).wf(),
            match index_of_id(old(self).spec_components(), component_id@) {
                Some(i) => final(self).spec_components() == old(self).spec_components().update(i,
                    ComponentView { consecutive_failures: 0, total_failures: 0, ..old(self).spec_components()[i] }),
                None => final(self).spec_components() == old(self).spec_components(),
            },
    {
        let found = self.find(component_id);
        proof { lemma_index_of_id(old(self).spec_components(), component_id@); }
        match found {
            Some(i) => {
                let mut c = copy_info(&self.components[i]);
                c.consecutive_failures = 0;
                c.total_failures = 0;
                self.components.set(i, c);
                assert(self.spec_components() =~= old(self).spec_components().update(i as int,
                    ComponentView { consecutive_failures: 0, total_failures: 0, ..old(self).spec_components()[i as int] }));
            },
            None => {},
        }
    }

    fn count(&self, st: ComponentStatus) -> (r: usize)
        ensures
            r == count_status(self.spec_components(), st),
    {
        let n = self.components.len();
        let mut k: usize = 0;
        for i in 0..n
            invariant
                n == self.components@.len(),
                k == count_status(self.spec_components().subrange(0, i as int), st),
                k <= i,
        {
            proof {
                let s = self.spec_components().subrange(0, i as int + 1);
                assert(s.drop_last() =~= self.spec_components().subrange(0, i as int));
            }
            if self.components[i].status == st {
                k = k + 1;
            }
        }
        proof {
            assert(self.spec_components().subrange(0, n as int) =~= self.spec_components());
        }
        k
    }

    /// Get overall pipeline health
    pub fn get_overall_health(&self) -> (r: HealthLevel)
        ensures
            r == pipeline_health(self.spec_components()),
    {
        let total = self.components.len();
        if total == 0 {
            return HealthLevel::Healthy;
        }
        let failed = self.count(ComponentStatus::Failed);
        let degraded = self.count(ComponentStatus::Degraded);
        let unknown = self.count(ComponentStatus::Unknown);
        proof { lemma_counts_partition(self.spec_components()); }
        let troubled = failed + degraded + unknown;
        if 2 * (failed as u128) > total as u128 {
            HealthLevel::Critical
        } else if 10 * (troubled as u128) > 3 * (total as u128) {
            HealthLevel::Degraded
        } else {
            HealthLevel::Healthy
        }
    }

    /// Get pipeline status
    pub fn get_pipeline_status(&self) -> (r: PipelineStatus)
        ensures
            r == status_of_health(pipeline_health(self.spec_components())),
    {
        match self.get_overall_health() {
            HealthLevel::Healthy => PipelineStatus::Healthy,
            HealthLevel::Degraded => PipelineStatus::Degraded,
            HealthLevel::Critical => PipelineStatus::Critical,
            HealthLevel::Unknown => PipelineStatus::Degraded,
        }
    }

    /// Get component count
    pub fn component_count(&self) -> (r: usize)
        ensures
            r == self.spec_components().len(),
    {
        self.components.len()
    }

    /// Get healthy component count
    pub fn healthy_component_count(&self) -> (r: usize)
        ensures
            r == count_status(self.spec_components(), ComponentStatus::Healthy),
    {
        self.count(ComponentStatus::Healthy)
    }

    /// Get failed component count
    pub fn failed_component_count(&self) -> (r: usize)
        ensures
            r == count_status(self.spec_components(), ComponentStatus::Failed),
    {
        self.count(ComponentStatus::Failed)
    }

    /// Get degraded component count
    pub fn degraded_component_count(&self) -> (r: usize)
        ensures
            r == count_status(self.spec_components(), ComponentStatus::Degraded),
    {
        self.count(ComponentStatus::Degraded)
    }

    /// All registered components.
    pub fn get_all_components(&self) -> (r: &Vec<ComponentInfo>)
        ensures
            r@.map_values(|c: ComponentInfo| c@) == self.spec_components(),
    {
        &self.components
    }

    /// Get component by ID
    pub fn get_component(&self, component_id: &str) -> (r: Option<&ComponentInfo>)
        requires
            self.wf(),
        ensures
            match index_of_id(self.spec_components(), component_id@) {
                Some(i) => r matches Some(c) && c@ == self.spec_components()[i],
                None => r is None,
            },
    {
        let found = self.find(component_id);
        proof { lemma_index_of_id(self.spec_components(), component_id@); }
        match found {
            Some(i) => Some(&self.components[i]),
            None => None,
        }
    }

    /// Identifiers of the components in a given status, in order.
    pub fn get_components_by_status(&self, status: ComponentStatus) -> (r: Vec<String>)
        ensures
            r@.map_values(|s: String| s@) == ids_with(self.spec_components(), |c: ComponentView| c.status == status),
    {
        let n = self.components.len();
        let mut out: Vec<String> = Vec::new();
        for i in 0..n
            invariant
                n == self.components@.len(),
                out@.map_values(|s: String| s@) == ids_with(self.spec_components().subrange(0, i as int),
                    |c: ComponentView| c.status == status),
        {
            proof {
                let s = self.spec_components().subrange(0, i as int + 1);
                assert(s.drop_last() =~= self.spec_components().subrange(0, i as int));
            }
            if self.components[i].status == status {
                let id = self.components[i].id.clone();
                out.push(id);
                assert(out@.map_values(|s: String| s@) =~= ids_with(self.spec_components().subrange(0, i as int),
                    |c: ComponentView| c.status == status).push(id@));
            }
        }
        proof {
            assert(self.spec_components().subrange(0, n as int) =~= self.spec_components());
        }
        out
    }

    /// Identifiers of the components with at least `failure_threshold`
    /// consecutive failures, in order.
    pub fn get_problematic_components(&self, failure_threshold: u32) -> (r: Vec<String>)
        ensures
            r@.map_values(|s: String| s@) == ids_with(self.spec_components(),
                |c: ComponentView| c.consecutive_failures >= failure_threshold),
    {
        let n = self.components.len();
        let mut out: Vec<String> = Vec::new();
        for i in 0..n
            invariant
                n == self.components@.len(),
                out@.map_values(|s: String| s@) == ids_with(self.spec_components().subrange(0, i as int),
                    |c: ComponentView| c.consecutive_failures >= failure_threshold),
        {
            proof {
                let s = self.spec_components().subrange(0, i as int + 1);
                assert(s.drop_last() =~= self.spec_components().subrange(0, i as int));
            }
            if self.components[i].consecutive_failures >= failure_threshold {
                let id = self.components[i].id.clone();
                out.push(id);
                assert(out@.map_values(|s: String| s@) =~= ids_with(self.spec_components().subrange(0, i as int),
                    |c: ComponentView| c.consecutive_failures >= failure_threshold).push(id@));
            }
        }
        proof {
            assert(self.spec_components().subrange(0, n as int) =~= self.spec_components());
        }
        out
    }

    /// Get pipeline summary
    pub fn get_summary(&self) -> (r: PipelineSummary)
        ensures
            r.total_components == self.spec_components().len(),
            r.healthy_components == count_status(self.spec_components(), ComponentStatus::Healthy),
            r.degraded_components == count_status(self.spec_components(), ComponentStatus::Degraded),
            r.failed_components == count_status(self.spec_components(), ComponentStatus::Failed),
            r.overall_status == status_of_health(pipeline_health(self.spec_components())),
    {
        PipelineSummary {
            total_components: self.component_count(),
            healthy_components: self.healthy_component_count(),
            degraded_components: self.degraded_component_count(),
            failed_components: self.failed_component_count(),
            overall_status: self.get_pipeline_status(),
        }
    }
}

/// Identifiers of the components that satisfy `p`, in order.
pub open spec fn ids_with(cs: Seq<ComponentView>, p: spec_fn(ComponentView) -> bool) -> Seq<Seq<char>>
    decreases cs.len(),
{
    if cs.len() == 0 {
        Seq::empty()
    } else {
        let rest = ids_with(cs.drop_last(), p);
        if p(cs.last()) { rest.push(cs.last().id) } else { rest }
    }
}

/// Position of the component with identifier `id`, if any.
pub open spec fn index_of_id(cs: Seq<ComponentView>, id: Seq<char>) -> Option<int> {
    if exists|i: int| 0 <= i < cs.len() && cs[i].id == id {
        Some(choose|i: int| 0 <= i < cs.len() && cs[i].id == id)
    } else {
        None
    }
}

proof fn lemma_index_of_id(cs: Seq<ComponentView>, id: Seq<char>)
    requires
        distinct_ids(cs),
    ensures
        forall|i: int| 0 <= i < cs.len() && cs[i].id == id ==> index_of_id(cs, id) == Some(i),
        index_of_id(cs, id) is None ==> forall|i: int| 0 <= i < cs.len() ==> cs[i].id != id,
{
}

fn copy_info(c: &ComponentInfo) -> (r: ComponentInfo)
    ensures
        r@ == c@,
{
    ComponentInfo {
        id: c.id.clone(),
        status: c.status,
        last_health_check_ms: c.last_health_check_ms,
        last_status_change_ms: c.last_status_change_ms,
        consecutive_failures: c.consecutive_failures,
        total_failures: c.total_failures,
    }
}

} // verus!
