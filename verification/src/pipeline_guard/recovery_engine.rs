//! Bookkeeping of the recovery engine: the recovery strategies registered
//! per component, the history of recovery attempts, and the statistics
//! derived from it. Running a strategy against a component is left to the
//! caller, who reports each attempt back.

use crate::common::error::Error;
use crate::common::utils::string_eq_str;
use vstd::prelude::*;
use vstd::string::StringExecFns;

verus! {

/// Recovery strategy for different types of failures
#[derive(Debug)]
pub enum RecoveryStrategy {
    /// Simple restart attempt
    Restart,
    /// Graceful restart with state preservation
    GracefulRestart,
    /// Circuit breaker pattern
    CircuitBreaker { timeout_seconds: u64 },
    /// Fallback to backup component
    Fallback { backup_component_id: String },
    /// Custom recovery procedure
    Custom { procedure_name: String },
}

impl Clone for RecoveryStrategy {
    fn clone(&self) -> (r: Self)
        ensures
            r == *self,
    {
        match self {
            RecoveryStrategy::Restart => RecoveryStrategy::Restart,
            RecoveryStrategy::GracefulRestart => RecoveryStrategy::GracefulRestart,
            RecoveryStrategy::CircuitBreaker { timeout_seconds } => RecoveryStrategy::CircuitBreaker {
                timeout_seconds: *timeout_seconds,
            },
            RecoveryStrategy::Fallback { backup_component_id } => RecoveryStrategy::Fallback {
                backup_component_id: backup_component_id.clone(),
            },
            RecoveryStrategy::Custom { procedure_name } => RecoveryStrategy::Custom {
                procedure_name: procedure_name.clone(),
            },
        }
    }
}

/// Recovery attempt result
#[derive(Debug)]
pub struct RecoveryResult {
    pub success: bool,
    pub strategy_used: RecoveryStrategy,
    pub duration_ms: u64,
    pub error_message: Option<String>,
}

impl Clone for RecoveryResult {
    fn clone(&self) -> (r: Self)
        ensures
            r == *self,
    {
        RecoveryResult {
            success: self.success,
            strategy_used: self.strategy_used.clone(),
            duration_ms: self.duration_ms,
            error_message: match &self.error_message {
                Some(m) => Some(m.clone()),
                None => None,
            },
        }
    }
}

// ---------------------------------------------------------------------------
// Tables keyed by component id
// ---------------------------------------------------------------------------

/// Whether `k` is a key of the table `s`.
pub open spec fn has_key_in<T>(s: Seq<(Seq<char>, T)>, k: Seq<char>) -> bool {
    exists|i: int| 0 <= i < s.len() && s[i].0 == k
}

/// The position of key `k` in `s` (meaningful when `has_key_in(s, k)`).
pub open spec fn index_in<T>(s: Seq<(Seq<char>, T)>, k: Seq<char>) -> int {
    choose|i: int| 0 <= i < s.len() && s[i].0 == k
}

/// No key occurs twice in `s`.
pub open spec fn keys_distinct<T>(s: Seq<(Seq<char>, T)>) -> bool {
    forall|i: int, j: int| 0 <= i < j < s.len() ==> s[i].0 != s[j].0
}

/// The table `s` as a map from keys to values.
pub open spec fn as_map<T>(s: Seq<(Seq<char>, T)>) -> Map<Seq<char>, T> {
    Map::new(|k: Seq<char>| has_key_in(s, k), |k: Seq<char>| s[index_in(s, k)].1)
}

pub(crate) proof fn lemma_index_unique<T>(s: Seq<(Seq<char>, T)>, i: int)
    requires
        keys_distinct(s),
        0 <= i < s.len(),
    ensures
        has_key_in(s, s[i].0),
        index_in(s, s[i].0) == i,
{
    let j = index_in(s, s[i].0);
    if j != i {
        if j < i {
            assert(s[j].0 != s[i].0);
        } else {
            assert(s[i].0 != s[j].0);
        }
    }
}

pub(crate) proof fn lemma_update_value<T>(s: Seq<(Seq<char>, T)>, i: int, v: T)
    requires
        keys_distinct(s),
        0 <= i < s.len(),
    ensures
        keys_distinct(s.update(i, (s[i].0, v))),
        as_map(s.update(i, (s[i].0, v))) == as_map(s).insert(s[i].0, v),
{
    let t = s.update(i, (s[i].0, v));
    assert(keys_distinct(t));
    lemma_index_unique(t, i);
    assert forall|k: Seq<char>| #[trigger] as_map(t).contains_key(k) <==> as_map(s).insert(s[i].0, v).contains_key(k) by {
        if has_key_in(s, k) {
            let j = index_in(s, k);
            assert(t[j].0 == k);
        }
        if has_key_in(t, k) {
            let j = index_in(t, k);
            assert(s[j].0 == k);
        }
    }
    assert forall|k: Seq<char>| #[trigger] as_map(t).contains_key(k) implies as_map(t)[k] == as_map(s).insert(s[i].0, v)[k] by {
        if k != s[i].0 {
            let j = index_in(t, k);
            assert(s[j].0 == k);
            lemma_index_unique(s, j);
            lemma_index_unique(t, j);
        }
    }
    assert(as_map(t) =~= as_map(s).insert(s[i].0, v));
}

pub(crate) proof fn lemma_push_new<T>(s: Seq<(Seq<char>, T)>, k: Seq<char>, v: T)
    requires
        keys_distinct(s),
        !has_key_in(s, k),
    ensures
        keys_distinct(s.push((k, v))),
        as_map(s.push((k, v))) == as_map(s).insert(k, v),
{
    let t = s.push((k, v));
    assert forall|a: int, b: int| 0 <= a < b < t.len() implies t[a].0 != t[b].0 by {
        if b == s.len() {
            assert(t[a] == s[a]);
        }
    }
    lemma_index_unique(t, s.len() as int);
    assert forall|q: Seq<char>| #[trigger] as_map(t).contains_key(q) <==> as_map(s).insert(k, v).contains_key(q) by {
        if has_key_in(s, q) {
            let j = index_in(s, q);
            assert(t[j].0 == q);
        }
        if has_key_in(t, q) && q != k {
            let j = index_in(t, q);
            assert(j < s.len());
            assert(s[j].0 == q);
        }
    }
    assert forall|q: Seq<char>| #[trigger] as_map(t).contains_key(q) implies as_map(t)[q] == as_map(s).insert(k, v)[q] by {
        if q != k {
            let j = index_in(t, q);
            assert(j < s.len());
            assert(s[j].0 == q);
            lemma_index_unique(s, j);
            lemma_index_unique(t, j);
        }
    }
    assert(as_map(t) =~= as_map(s).insert(k, v));
}

pub(crate) proof fn lemma_remove_at<T>(s: Seq<(Seq<char>, T)>, i: int)
    requires
        keys_distinct(s),
        0 <= i < s.len(),
    ensures
        keys_distinct(s.remove(i)),
        as_map(s.remove(i)) == as_map(s).remove(s[i].0),
{
    let t = s.remove(i);
    assert forall|a: int, b: int| 0 <= a < b < t.len() implies t[a].0 != t[b].0 by {
        let ia = if a < i { a } else { a + 1 };
        let ib = if b < i { b } else { b + 1 };
        assert(t[a] == s[ia] && t[b] == s[ib]);
    }
    assert forall|q: Seq<char>| #[trigger] as_map(t).contains_key(q) <==> as_map(s).remove(s[i].0).contains_key(q) by {
        if has_key_in(t, q) {
            let j = index_in(t, q);
            let js = if j < i { j } else { j + 1 };
            assert(s[js].0 == q);
            assert(q != s[i].0);
        }
        if has_key_in(s, q) && q != s[i].0 {
            let j = index_in(s, q);
            assert(j != i);
            let jt = if j < i { j } else { j - 1 };
            assert(t[jt].0 == q);
        }
    }
    assert forall|q: Seq<char>| #[trigger] as_map(t).contains_key(q) implies as_map(t)[q] == as_map(s).remove(s[i].0)[q] by {
        let j = index_in(t, q);
        let js = if j < i { j } else { j + 1 };
        assert(t[j] == s[js]);
        lemma_index_unique(s, js);
        lemma_index_unique(t, j);
    }
    assert(as_map(t) =~= as_map(s).remove(s[i].0));
}

/// The position of `key` in a table, if present.
pub(crate) fn find_key<T>(table: &Vec<(String, T)>, key: &str) -> (r: Option<usize>)
    ensures
        r matches Some(i) ==> i < table@.len() && table@[i as int].0@ == key@,
        r is None ==> forall|j: int| 0 <= j < table@.len() ==> #[trigger] table@[j].0@ != key@,
{
    let mut i: usize = 0;
    while i < table.len()
        invariant
            i <= table@.len(),
            forall|j: int| 0 <= j < i ==> #[trigger] table@[j].0@ != key@,
        decreases table@.len() - i,
    {
        if string_eq_str(&table[i].0, key) {
            return Some(i);
        }
        i = i + 1;
    }
    None
}

// ---------------------------------------------------------------------------
// The engine
// ---------------------------------------------------------------------------

/// The number of successful attempts in `h`.
pub open spec fn successes(h: Seq<RecoveryResult>) -> nat
    decreases h.len(),
{
    if h.len() == 0 {
        0
    } else {
        successes(h.drop_last()) + if h.last().success { 1nat } else { 0nat }
    }
}

/// No component has more successful recovery attempts than attempts.
pub proof fn lemma_successes_bounded(h: Seq<RecoveryResult>)
    ensures
        successes(h) <= h.len(),
    decreases h.len(),
{
    if h.len() > 0 {
        lemma_successes_bounded(h.drop_last());
    }
}

/// The message of the error returned when every strategy failed.
pub open spec fn all_failed_message(component_id: Seq<char>) -> Seq<char> {
    "All recovery strategies failed for component: "@ + component_id
}

/// Component recovery engine
pub struct RecoveryEngine {
    recovery_strategies: Vec<(String, Vec<RecoveryStrategy>)>,
    recovery_history: Vec<(String, Vec<RecoveryResult>)>,
}

impl RecoveryEngine {
    closed spec fn strategy_table(&self) -> Seq<(Seq<char>, Seq<RecoveryStrategy>)> {
        Seq::new(self.recovery_strategies@.len(), |i: int| (self.recovery_strategies@[i].0@, self.recovery_strategies@[i].1@))
    }

    closed spec fn history_table(&self) -> Seq<(Seq<char>, Seq<RecoveryResult>)> {
        Seq::new(self.recovery_history@.len(), |i: int| (self.recovery_history@[i].0@, self.recovery_history@[i].1@))
    }

    /// The strategies registered per component.
    pub closed spec fn strategies(&self) -> Map<Seq<char>, Seq<RecoveryStrategy>> {
        as_map(self.strategy_table())
    }

    /// The recovery attempts recorded per component, oldest first.
    pub closed spec fn history(&self) -> Map<Seq<char>, Seq<RecoveryResult>> {
        as_map(self.history_table())
    }

    /// The components with a recorded history, in the order they first
    /// appeared.
    pub closed spec fn history_order(&self) -> Seq<Seq<char>> {
        Seq::new(self.recovery_history@.len(), |i: int| self.recovery_history@[i].0@)
    }

    /// No component appears twice in either table.
    pub closed spec fn wf(&self) -> bool {
        &&& keys_distinct(self.strategy_table())
        &&& keys_distinct(self.history_table())
    }

    /// Create a new recovery engine
    pub fn new() -> (r: Self)
        ensures
            r.wf(),
            r.strategies() == Map::<Seq<char>, Seq<RecoveryStrategy>>::empty(),
            r.history() == Map::<Seq<char>, Seq<RecoveryResult>>::empty(),
            r.history_order() == Seq::<Seq<char>>::empty(),
    {
        let r = RecoveryEngine { recovery_strategies: Vec::new(), recovery_history: Vec::new() };
        proof {
            assert(r.history_order() =~= Seq::<Seq<char>>::empty());
            assert(r.strategies() =~= Map::<Seq<char>, Seq<RecoveryStrategy>>::empty());
            assert(r.history() =~= Map::<Seq<char>, Seq<RecoveryResult>>::empty());
        }
        r
    }

    /// Register recovery strategies for a component, replacing any that were
    /// registered before.
    pub fn register_strategies(&mut self, component_id: &str, strategies: Vec<RecoveryStrategy>)
        requires
            old(self).wf(),
        ensures
            final(self).wf(),
            final(self).strategies() == old(self).strategies().insert(component_id@, strategies@),
            final(self).history() == old(self).history(),
            final(self).history_order() == old(self).history_order(),
    {
        let ghost s = self.strategy_table();
        let ghost v = strategies@;
        match find_key(&self.recovery_strategies, component_id) {
            Some(i) => {
                proof {
                    assert(s[i as int].0 == component_id@);
                }
                let key = String::from_str(component_id);
                self.recovery_strategies.set(i, (key, strategies));
                proof {
                    lemma_update_value(s, i as int, v);
                    assert(self.strategy_table() =~= s.update(i as int, (s[i as int].0, v)));
                }
            },
            None => {
                proof {
                    assert(!has_key_in(s, component_id@)) by {
                        if has_key_in(s, component_id@) {
                            let j = index_in(s, component_id@);
                            assert(s[j].0 == self.recovery_strategies@[j].0@);
                        }
                    }
                }
                let key = String::from_str(component_id);
                self.recovery_strategies.push((key, strategies));
                proof {
                    lemma_push_new(s, component_id@, v);
                    assert(self.strategy_table() =~= s.push((component_id@, v)));
                }
            },
        }
    }

    /// The strategies to try for a component, in order: those registered for
    /// it, or a single restart when none were registered.
    pub fn strategies_for(&self, component_id: &str) -> (r: Vec<RecoveryStrategy>)
        requires
            self.wf(),
        ensures
            self.strategies().contains_key(component_id@) ==> r@ == self.strategies()[component_id@],
            !self.strategies().contains_key(component_id@) ==> r@ == seq![RecoveryStrategy::Restart],
    {
        let ghost s = self.strategy_table();
        match find_key(&self.recovery_strategies, component_id) {
            Some(i) => {
                proof {
                    assert(s[i as int].0 == component_id@);
                    lemma_index_unique(s, i as int);
                }
                let registered = &self.recovery_strategies[i].1;
                let mut out: Vec<RecoveryStrategy> = Vec::new();
                let mut j: usize = 0;
                while j < registered.len()
                    invariant
                        j <= registered@.len(),
                        out@ == registered@.subrange(0, j as int),
                    decreases registered@.len() - j,
                {
                    out.push(registered[j].clone());
                    proof {
                        assert(out@ =~= registered@.subrange(0, j + 1));
                    }
                    j = j + 1;
                }
                proof {
                    assert(registered@.subrange(0, registered@.len() as int) =~= registered@);
                }
                out
            },
            None => {
                proof {
                    assert(!has_key_in(s, component_id@)) by {
                        if has_key_in(s, component_id@) {
                            let j = index_in(s, component_id@);
                            assert(s[j].0 == self.recovery_strategies@[j].0@);
                        }
                    }
                }
                let mut out: Vec<RecoveryStrategy> = Vec::new();
                out.push(RecoveryStrategy::Restart);
                out
            },
        }
    }

    /// Records a recovery attempt at the end of the component's history.
    pub fn record_result(&mut self, component_id: &str, result: RecoveryResult)
        requires
            old(self).wf(),
        ensures
            final(self).wf(),
            final(self).strategies() == old(self).strategies(),
            final(self).history() == old(self).history().insert(
                component_id@,
                if old(self).history().contains_key(component_id@) {
                    old(self).history()[component_id@].push(result)
                } else {
                    seq![result]
                },
            ),
            old(self).history().contains_key(component_id@) ==> final(self).history_order()
                == old(self).history_order(),
            !old(self).history().contains_key(component_id@) ==> final(self).history_order()
                == old(self).history_order().push(component_id@),
    {
        let ghost s = self.history_table();
        let ghost r = result;
        match find_key(&self.recovery_history, component_id) {
            Some(i) => {
                proof {
                    assert(s[i as int].0 == component_id@);
                    lemma_index_unique(s, i as int);
                }
                let mut entry = self.recovery_history.remove(i);
                let ghost before = entry.1@;
                entry.1.push(result);
                self.recovery_history.insert(i, entry);
                proof {
                    lemma_update_value(s, i as int, before.push(r));
                    assert(self.history_table() =~= s.update(i as int, (s[i as int].0, before.push(r))));
                    assert(self.history_order() =~= old(self).history_order());
                }
            },
            None => {
                proof {
                    assert(!has_key_in(s, component_id@)) by {
                        if has_key_in(s, component_id@) {
                            let j = index_in(s, component_id@);
                            assert(s[j].0 == self.recovery_history@[j].0@);
                        }
                    }
                }
                let key = String::from_str(component_id);
                let mut results: Vec<RecoveryResult> = Vec::new();
                results.push(result);
                self.recovery_history.push((key, results));
                proof {
                    lemma_push_new(s, component_id@, seq![r]);
                    assert(self.history_table() =~= s.push((component_id@, seq![r])));
                    assert(self.history_order() =~= old(self).history_order().push(component_id@));
                }
            },
        }
    }

    /// Whether the component's most recent recovery attempt succeeded (false
    /// when it has no recorded attempt).
    pub fn last_attempt_succeeded(&self, component_id: &str) -> (r: bool)
        requires
            self.wf(),
        ensures
            r == (self.history().contains_key(component_id@) && self.history()[component_id@].len() > 0
                && self.history()[component_id@].last().success),
    {
        let ghost s = self.history_table();
        match find_key(&self.recovery_history, component_id) {
            Some(i) => {
                proof {
                    assert(s[i as int].0 == component_id@);
                    lemma_index_unique(s, i as int);
                }
                let h = &self.recovery_history[i].1;
                h.len() > 0 && h[h.len() - 1].success
            },
            None => {
                proof {
                    assert(!has_key_in(s, component_id@)) by {
                        if has_key_in(s, component_id@) {
                            let j = index_in(s, component_id@);
                            assert(s[j].0 == self.recovery_history@[j].0@);
                        }
                    }
                }
                false
            },
        }
    }

    /// Get recovery history for a component (empty when it has none).
    pub fn get_recovery_history(&self, component_id: &str) -> (r: Vec<RecoveryResult>)
        requires
            self.wf(),
        ensures
            self.history().contains_key(component_id@) ==> r@ == self.history()[component_id@],
            !self.history().contains_key(component_id@) ==> r@.len() == 0,
    {
        let ghost s = self.history_table();
        match find_key(&self.recovery_history, component_id) {
            Some(i) => {
                proof {
                    assert(s[i as int].0 == component_id@);
                    lemma_index_unique(s, i as int);
                }
                let h = &self.recovery_history[i].1;
                let mut out: Vec<RecoveryResult> = Vec::new();
                let mut j: usize = 0;
                while j < h.len()
                    invariant
                        j <= h@.len(),
                        out@ == h@.subrange(0, j as int),
                    decreases h@.len() - j,
                {
                    out.push(h[j].clone());
                    proof {
                        assert(out@ =~= h@.subrange(0, j + 1));
                    }
                    j = j + 1;
                }
                proof {
                    assert(h@.subrange(0, h@.len() as int) =~= h@);
                }
                out
            },
            None => {
                proof {
                    assert(!has_key_in(s, component_id@)) by {
                        if has_key_in(s, component_id@) {
                            let j = index_in(s, component_id@);
                            assert(s[j].0 == self.recovery_history@[j].0@);
                        }
                    }
                }
                Vec::new()
            },
        }
    }

    /// Get recovery statistics: for each component with a history, in the
    /// order they first appeared, the number of successful attempts and the
    /// number of attempts.
    pub fn get_recovery_stats(&self) -> (r: Vec<(String, (u32, u32))>)
        requires
            self.wf(),
        ensures
            r@.len() == self.history_order().len(),
            forall|i: int|
                0 <= i < r@.len() ==> {
                    let id = self.history_order()[i];
                    &&& (#[trigger] r@[i]).0@ == id
                    &&& r@[i].1.0 == successes(self.history()[id]) as u32
                    &&& r@[i].1.1 == self.history()[id].len() as u32
                },
    {
        let ghost s = self.history_table();
        let mut out: Vec<(String, (u32, u32))> = Vec::new();
        let mut i: usize = 0;
        while i < self.recovery_history.len()
            invariant
                i <= self.recovery_history@.len(),
                s == self.history_table(),
                keys_distinct(s),
                out@.len() == i,
                forall|k: int|
                    0 <= k < i ==> {
                        &&& (#[trigger] out@[k]).0@ == s[k].0
                        &&& out@[k].1.0 == successes(s[k].1) as u32
                        &&& out@[k].1.1 == s[k].1.len() as u32
                    },
            decreases self.recovery_history@.len() - i,
        {
            let results = &self.recovery_history[i].1;
            let mut ok: u64 = 0;
            let mut j: usize = 0;
            while j < results.len()
                invariant
                    j <= results@.len(),
                    ok == successes(results@.subrange(0, j as int)),
                    ok <= j,
                decreases results@.len() - j,
            {
                proof {
                    assert(results@.subrange(0, j + 1).drop_last() =~= results@.subrange(0, j as int));
                }
                if results[j].success {
                    ok = ok + 1;
                }
                j = j + 1;
            }
            proof {
                assert(results@.subrange(0, results@.len() as int) =~= results@);
            }
            let name = self.recovery_history[i].0.clone();
            out.push((name, (ok as u32, results.len() as u32)));
            i = i + 1;
        }
        proof {
            assert forall|k: int| 0 <= k < out@.len() implies self.history()[self.history_order()[k]] == s[k].1 by {
                lemma_index_unique(s, k);
            }
        }
        out
    }

    /// Clear recovery history for a component.
    pub fn clear_history(&mut self, component_id: &str)
        requires
            old(self).wf(),
        ensures
            final(self).wf(),
            final(self).strategies() == old(self).strategies(),
            final(self).history() == old(self).history().remove(component_id@),
    {
        let ghost s = self.history_table();
        match find_key(&self.recovery_history, component_id) {
            Some(i) => {
                proof {
                    assert(s[i as int].0 == component_id@);
                }
                let _ = self.recovery_history.remove(i);
                proof {
                    lemma_remove_at(s, i as int);
                    assert(self.history_table() =~= s.remove(i as int));
                }
            },
            None => {
                proof {
                    assert(!has_key_in(s, component_id@)) by {
                        if has_key_in(s, component_id@) {
                            let j = index_in(s, component_id@);
                            assert(s[j].0 == self.recovery_history@[j].0@);
                        }
                    }
                    assert(as_map(s).remove(component_id@) =~= as_map(s));
                }
            },
        }
    }
}

/// The decision in a recovery run after some strategies were tried.
#[derive(Debug)]
pub enum RecoveryStep {
    /// The last strategy tried succeeded: the component is recovered.
    Recovered,
    /// Try this strategy next.
    TryNext(RecoveryStrategy),
    /// Every strategy failed.
    GiveUp,
}

/// What a recovery run does after `tried` of the `strategies` were tried,
/// the last of them (if any) with outcome `succeeded`: stop at a success,
/// otherwise try the next strategy in order, and give up when none is left.
pub fn next_recovery_step(strategies: &Vec<RecoveryStrategy>, tried: usize, succeeded: bool) -> (r: RecoveryStep)
    ensures
        succeeded ==> r is Recovered,
        !succeeded && tried < strategies@.len() ==> r == RecoveryStep::TryNext(strategies@[tried as int]),
        !succeeded && tried >= strategies@.len() ==> r is GiveUp,
{
    if succeeded {
        RecoveryStep::Recovered
    } else if tried < strategies.len() {
        RecoveryStep::TryNext(strategies[tried].clone())
    } else {
        RecoveryStep::GiveUp
    }
}

/// The error returned when every strategy tried for a component failed.
pub fn all_strategies_failed(component_id: &str) -> (r: Error)
    ensures
        r matches Error::Internal(m) && m@ == all_failed_message(component_id@),
{
    let mut message = String::from_str("All recovery strategies failed for component: ");
    message.append(component_id);
    Error::Internal(message)
}

} // verus!
