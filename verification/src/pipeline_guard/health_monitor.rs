//! The consecutive-failure part of component health monitoring: each
//! unhealthy report adds to a component's run of failures, a healthy report
//! ends the run, and a run that reaches the threshold marks the component
//! unhealthy whatever its metrics say.

use crate::common::utils::{decimal, u64_to_decimal};
use crate::pipeline_guard::recovery_engine::{
    as_map, find_key, has_key_in, index_in, keys_distinct, lemma_index_unique, lemma_push_new,
    lemma_remove_at, lemma_update_value,
};
use vstd::prelude::*;
use vstd::string::StringExecFns;

verus! {

/// Consecutive health-check failures per component.
pub struct FailureTracker {
    consecutive_failure_threshold: u32,
    component_failures: Vec<(String, u32)>,
}

/// The message of the assessment made when a component reached the
/// threshold.
pub open spec fn consecutive_failure_message(count: nat) -> Seq<char> {
    "Component failed "@ + decimal(count) + " consecutive health checks"@
}

impl FailureTracker {
    closed spec fn table(&self) -> Seq<(Seq<char>, u32)> {
        Seq::new(
            self.component_failures@.len(),
            |i: int| (self.component_failures@[i].0@, self.component_failures@[i].1),
        )
    }

    /// The current run of failures of each component that has one.
    pub closed spec fn failures(&self) -> Map<Seq<char>, u32> {
        as_map(self.table())
    }

    /// Failures in a row that mark a component unhealthy.
    pub closed spec fn threshold(&self) -> u32 {
        self.consecutive_failure_threshold
    }

    /// No component is listed twice.
    pub closed spec fn wf(&self) -> bool {
        keys_distinct(self.table())
    }

    /// A tracker with no failures recorded.
    pub fn new(consecutive_failure_threshold: u32) -> (r: Self)
        ensures
            r.wf(),
            r.failures() == Map::<Seq<char>, u32>::empty(),
            r.threshold() == consecutive_failure_threshold,
    {
        let r = FailureTracker { consecutive_failure_threshold, component_failures: Vec::new() };
        proof {
            assert(r.failures() =~= Map::<Seq<char>, u32>::empty());
        }
        r
    }

    /// Records a health check. An unhealthy check adds one to the
    /// component's run of failures (saturating) and returns the new count
    /// when it reached the threshold; a healthy check ends the run.
    pub fn record_check(&mut self, component_id: &str, is_healthy: bool) -> (r: Option<u32>)
        requires
            old(self).wf(),
        ensures
            final(self).wf(),
            final(self).threshold() == old(self).threshold(),
            is_healthy ==> r is None && final(self).failures() == old(self).failures().remove(
                component_id@,
            ),
            !is_healthy ==> {
                let before = if old(self).failures().contains_key(component_id@) {
                    old(self).failures()[component_id@]
                } else {
                    0u32
                };
                let count = if before < u32::MAX { (before + 1) as u32 } else { u32::MAX };
                &&& final(self).failures() == old(self).failures().insert(component_id@, count)
                &&& r == if count >= old(self).threshold() { Some(count) } else { None::<u32> }
            },
    {
        let ghost s = self.table();
        match find_key(&self.component_failures, component_id) {
            Some(i) => {
                proof {
                    assert(s[i as int].0 == component_id@);
                    lemma_index_unique(s, i as int);
                }
                if is_healthy {
                    let _ = self.component_failures.remove(i);
                    proof {
                        lemma_remove_at(s, i as int);
                        assert(self.table() =~= s.remove(i as int));
                    }
                    None
                } else {
                    let before = self.component_failures[i].1;
                    let count = before.saturating_add(1);
                    let key = String::from_str(component_id);
                    self.component_failures.set(i, (key, count));
                    proof {
                        lemma_update_value(s, i as int, count);
                        assert(self.table() =~= s.update(i as int, (s[i as int].0, count)));
                    }
                    if count >= self.consecutive_failure_threshold {
                        Some(count)
                    } else {
                        None
                    }
                }
            },
            None => {
                proof {
                    assert(!has_key_in(s, component_id@)) by {
                        if has_key_in(s, component_id@) {
                            let j = index_in(s, component_id@);
                            assert(s[j].0 == self.component_failures@[j].0@);
                        }
                    }
                }
                if is_healthy {
                    proof {
                        assert(as_map(s).remove(component_id@) =~= as_map(s));
                    }
                    None
                } else {
                    let key = String::from_str(component_id);
                    self.component_failures.push((key, 1));
                    proof {
                        lemma_push_new(s, component_id@, 1u32);
                        assert(self.table() =~= s.push((component_id@, 1u32)));
                    }
                    if 1 >= self.consecutive_failure_threshold {
                        Some(1)
                    } else {
                        None
                    }
                }
            },
        }
    }

    /// Changes the threshold; the recorded runs are kept.
    pub fn set_threshold(&mut self, consecutive_failure_threshold: u32)
        requires
            old(self).wf(),
        ensures
            final(self).wf(),
            final(self).threshold() == consecutive_failure_threshold,
            final(self).failures() == old(self).failures(),
    {
        self.consecutive_failure_threshold = consecutive_failure_threshold;
    }

    /// Reset failure count for a component.
    pub fn reset_failure_count(&mut self, component_id: &str)
        requires
            old(self).wf(),
        ensures
            final(self).wf(),
            final(self).threshold() == old(self).threshold(),
            final(self).failures() == old(self).failures().remove(component_id@),
    {
        let ghost s = self.table();
        match find_key(&self.component_failures, component_id) {
            Some(i) => {
                proof {
                    assert(s[i as int].0 == component_id@);
                }
                let _ = self.component_failures.remove(i);
                proof {
                    lemma_remove_at(s, i as int);
                    assert(self.table() =~= s.remove(i as int));
                }
            },
            None => {
                proof {
                    assert(!has_key_in(s, component_id@)) by {
                        if has_key_in(s, component_id@) {
                            let j = index_in(s, component_id@);
                            assert(s[j].0 == self.component_failures@[j].0@);
                        }
                    }
                    assert(as_map(s).remove(component_id@) =~= as_map(s));
                }
            },
        }
    }

    /// The failure counts of all components with failures recorded.
    pub fn get_failure_counts(&self) -> (r: &Vec<(String, u32)>)
        requires
            self.wf(),
        ensures
            as_map(Seq::new(r@.len(), |i: int| (r@[i].0@, r@[i].1))) == self.failures(),
            keys_distinct(Seq::new(r@.len(), |i: int| (r@[i].0@, r@[i].1))),
    {
        assert(Seq::new(self.component_failures@.len(), |i: int| (self.component_failures@[i].0@, self.component_failures@[i].1))
            == self.table());
        &self.component_failures
    }

    /// The component's current run of failures (0 when it has none).
    pub fn failure_count(&self, component_id: &str) -> (r: u32)
        requires
            self.wf(),
        ensures
            r == if self.failures().contains_key(component_id@) {
                self.failures()[component_id@]
            } else {
                0
            },
    {
        let ghost s = self.table();
        match find_key(&self.component_failures, component_id) {
            Some(i) => {
                proof {
                    assert(s[i as int].0 == component_id@);
                    lemma_index_unique(s, i as int);
                }
                self.component_failures[i].1
            },
            None => {
                proof {
                    assert(!has_key_in(s, component_id@)) by {
                        if has_key_in(s, component_id@) {
                            let j = index_in(s, component_id@);
                            assert(s[j].0 == self.component_failures@[j].0@);
                        }
                    }
                }
                0
            },
        }
    }
}

/// The reason given when a component reached the failure threshold.
pub fn consecutive_failure_reason(count: u32) -> (r: String)
    ensures
        r@ == consecutive_failure_message(count as nat),
{
    let mut message = String::from_str("Component failed ");
    let digits = u64_to_decimal(count as u64);
    message.append(digits.as_str());
    message.append(" consecutive health checks");
    message
}

} // verus!
