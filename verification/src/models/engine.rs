//! Decisions of the model engine when it loads a model: which format a file
//! extension names, which loaded models are unloaded to make room, and when
//! the model limit refuses another model.

use crate::common::error::Error;
use crate::common::types::ModelFormat;
use crate::common::utils::str_eq;
use vstd::prelude::*;
use vstd::string::StringExecFns;

verus! {

/// The lower-case form of a text (`str::to_lowercase`).
pub uninterp spec fn unicode_lowercase(s: Seq<char>) -> Seq<char>;

/// The lower-case form of an ASCII character.
pub open spec fn ascii_lower(c: char) -> char {
    if 'A' <= c <= 'Z' {
        ((c as u32) + 32) as char
    } else {
        c
    }
}

/// The lower-case form of a text (`str::to_lowercase`): a text made only of
/// ASCII characters is lowered character by character, `A`-`Z` to `a`-`z`.
pub open spec fn lowercase(s: Seq<char>) -> Seq<char> {
    if forall|i: int| 0 <= i < s.len() ==> (#[trigger] s[i] as u32) < 128 {
        Seq::new(s.len(), |i: int| ascii_lower(s[i]))
    } else {
        unicode_lowercase(s)
    }
}

/// `str::to_lowercase`. A text made only of ASCII characters is lowered
/// character by character, `A`-`Z` to `a`-`z`.
#[verifier::external_body]
fn to_lowercase(s: &str) -> (r: String)
    ensures
        r@ == unicode_lowercase(s@),
        r@ == lowercase(s@),
{
    s.to_lowercase()
}

/// The model format named by a file extension, already lower-cased.
pub open spec fn format_for_extension(ext: Seq<char>) -> ModelFormat {
    if ext == "ggml"@ || ext == "bin"@ {
        ModelFormat::GGML
    } else if ext == "onnx"@ {
        ModelFormat::ONNX
    } else if ext == "tflite"@ {
        ModelFormat::TensorFlowLite
    } else {
        ModelFormat::GGML
    }
}

/// Detect model format from a file's extension, compared without regard to
/// case: `ggml` and `bin` are GGML, `onnx` is ONNX, `tflite` is TensorFlow
/// Lite, and anything else, or no extension, is taken as GGML.
pub fn detect_model_format(extension: Option<&str>) -> (r: ModelFormat)
    ensures
        r == match extension {
            Some(ext) => format_for_extension(lowercase(ext@)),
            None => ModelFormat::GGML,
        },
{
    match extension {
        Some(ext) => {
            let lower = to_lowercase(ext);
            let l = lower.as_str();
            if str_eq(l, "ggml") || str_eq(l, "bin") {
                ModelFormat::GGML
            } else if str_eq(l, "onnx") {
                ModelFormat::ONNX
            } else if str_eq(l, "tflite") {
                ModelFormat::TensorFlowLite
            } else {
                ModelFormat::GGML
            }
        },
        None => ModelFormat::GGML,
    }
}

/// A loaded model as the engine accounts it.
#[derive(Debug)]
pub struct ModelUsage {
    pub id: String,
    pub memory_usage_mb: u32,
    pub last_used_ms: u64,
}

impl Clone for ModelUsage {
    fn clone(&self) -> (r: Self)
        ensures
            r == *self,
    {
        ModelUsage { id: self.id.clone(), memory_usage_mb: self.memory_usage_mb, last_used_ms: self.last_used_ms }
    }
}

/// Memory and recency of a loaded model.
pub open spec fn usage_view(m: ModelUsage) -> (Seq<char>, u32, u64) {
    (m.id@, m.memory_usage_mb, m.last_used_ms)
}

/// Memory and recency of each model.
pub open spec fn usages(ms: Seq<ModelUsage>) -> Seq<(Seq<char>, u32, u64)> {
    Seq::new(ms.len(), |k: int| usage_view(ms[k]))
}

/// The total memory of the models.
pub open spec fn total_memory(ms: Seq<(Seq<char>, u32, u64)>) -> nat
    decreases ms.len(),
{
    if ms.len() == 0 {
        0
    } else {
        total_memory(ms.drop_last()) + ms.last().1 as nat
    }
}

/// The position of the least recently used model, the first among equals.
pub open spec fn oldest_index(ms: Seq<(Seq<char>, u32, u64)>) -> int
    decreases ms.len(),
{
    if ms.len() <= 1 {
        0
    } else {
        let i = oldest_index(ms.drop_last());
        if ms.last().2 < ms[i].2 {
            ms.len() - 1
        } else {
            i
        }
    }
}

/// The models to unload, least recently used first (a stable order by
/// last use), until `freed` reaches `needed`.
pub open spec fn release_plan(ms: Seq<(Seq<char>, u32, u64)>, needed: nat, freed: nat) -> Seq<Seq<char>>
    decreases ms.len(),
{
    let i = oldest_index(ms);
    if ms.len() == 0 || freed >= needed || i < 0 || i >= ms.len() {
        Seq::empty()
    } else {
        seq![ms[i].0] + release_plan(ms.remove(i), needed, freed + ms[i].1 as nat)
    }
}

proof fn lemma_oldest_index_bounds(ms: Seq<(Seq<char>, u32, u64)>)
    ensures
        ms.len() > 0 ==> 0 <= oldest_index(ms) < ms.len(),
    decreases ms.len(),
{
    if ms.len() > 1 {
        lemma_oldest_index_bounds(ms.drop_last());
    }
}

/// The model unloaded first is the least recently used one: its last use is
/// no later than any other model's, and strictly earlier than that of every
/// model before it.
pub proof fn lemma_oldest_is_least_recent(ms: Seq<(Seq<char>, u32, u64)>)
    requires
        ms.len() > 0,
    ensures
        0 <= oldest_index(ms) < ms.len(),
        forall|j: int| 0 <= j < ms.len() ==> ms[oldest_index(ms)].2 <= #[trigger] ms[j].2,
        forall|j: int| 0 <= j < oldest_index(ms) ==> ms[oldest_index(ms)].2 < #[trigger] ms[j].2,
    decreases ms.len(),
{
    if ms.len() > 1 {
        let d = ms.drop_last();
        lemma_oldest_is_least_recent(d);
        let i = oldest_index(d);
        assert forall|j: int| 0 <= j < ms.len() implies ms[oldest_index(ms)].2 <= #[trigger] ms[j].2 by {
            if j < ms.len() - 1 { assert(ms[j] == d[j]); }
        }
        assert forall|j: int| 0 <= j < oldest_index(ms) implies ms[oldest_index(ms)].2 < #[trigger] ms[j].2 by {
            assert(ms[j] == d[j]);
            if oldest_index(ms) == i {
                assert(d[i] == ms[i]);
            }
        }
    }
}

/// Unloading stops once enough memory is freed, and otherwise starts with
/// the least recently used model.
pub proof fn lemma_release_starts_with_oldest(ms: Seq<(Seq<char>, u32, u64)>, needed: nat, freed: nat)
    ensures
        freed >= needed ==> release_plan(ms, needed, freed).len() == 0,
        freed < needed && ms.len() > 0 ==> release_plan(ms, needed, freed).len() > 0
            && release_plan(ms, needed, freed)[0] == ms[oldest_index(ms)].0,
{
    lemma_oldest_index_bounds(ms);
}

fn find_oldest(ms: &Vec<ModelUsage>) -> (r: usize)
    requires
        ms@.len() > 0,
    ensures
        r < ms@.len(),
        r == oldest_index(usages(ms@)),
{
    let ghost v = usages(ms@);
    let mut best: usize = 0;
    let mut i: usize = 1;
    while i < ms.len()
        invariant
            1 <= i <= ms@.len(),
            v == usages(ms@),
            best < i,
            best == oldest_index(v.subrange(0, i as int)),
        decreases ms@.len() - i,
    {
        proof {
            assert(v.subrange(0, i + 1).drop_last() =~= v.subrange(0, i as int));
        }
        if ms[i].last_used_ms < ms[best].last_used_ms {
            best = i;
        }
        i = i + 1;
    }
    proof {
        assert(v.subrange(0, ms@.len() as int) =~= v);
    }
    best
}

fn total_memory_of(ms: &Vec<ModelUsage>) -> (r: u64)
    requires
        ms@.len() <= u32::MAX,
    ensures
        r == total_memory(usages(ms@)),
        r <= (u32::MAX as int) * (u32::MAX as int),
{
    let ghost v = usages(ms@);
    let mut total: u64 = 0;
    let mut i: usize = 0;
    while i < ms.len()
        invariant
            i <= ms@.len(),
            ms@.len() <= u32::MAX,
            v == usages(ms@),
            total == total_memory(v.subrange(0, i as int)),
            total <= i * (u32::MAX as int),
        decreases ms@.len() - i,
    {
        proof {
            assert(v.subrange(0, i + 1).drop_last() =~= v.subrange(0, i as int));
            assert(total + ms@[i as int].memory_usage_mb <= (i + 1) * (u32::MAX as int)) by (nonlinear_arith)
                requires
                    total <= i * (u32::MAX as int),
                    ms@[i as int].memory_usage_mb <= u32::MAX,
            ;
            assert((i + 1) * (u32::MAX as int) <= (u32::MAX as int) * (u32::MAX as int)) by (nonlinear_arith)
                requires
                    i + 1 <= u32::MAX,
            ;
        }
        total = total + ms[i].memory_usage_mb as u64;
        i = i + 1;
    }
    proof {
        assert(v.subrange(0, ms@.len() as int) =~= v);
    }
    total
}

/// The models to unload so that a model of `estimated_mb` fits in
/// `cache_size_mb`: none when the loaded models and the new one fit;
/// otherwise the least recently used first (the first among equals in the
/// given order) until the memory freed covers the excess.
pub fn plan_memory_release(models: &Vec<ModelUsage>, estimated_mb: u32, cache_size_mb: u32) -> (r: Vec<String>)
    requires
        models@.len() <= u32::MAX,
    ensures
        ({
            let v = usages(models@);
            let total = total_memory(v) + estimated_mb;
            let plan = if total > cache_size_mb {
                release_plan(v, (total - cache_size_mb) as nat, 0)
            } else {
                Seq::empty()
            };
            &&& r@.len() == plan.len()
            &&& forall|i: int| 0 <= i < r@.len() ==> #[trigger] r@[i]@ == plan[i]
        }),
{
    let ghost v = usages(models@);
    let total = total_memory_of(models) + estimated_mb as u64;
    let mut out: Vec<String> = Vec::new();
    if total <= cache_size_mb as u64 {
        return out;
    }
    let needed: u64 = total - cache_size_mb as u64;
    let mut rest: Vec<ModelUsage> = models.clone();
    proof {
        assert(usages(rest@) =~= v) by {
            assert forall|k: int| 0 <= k < rest@.len() implies usage_view(rest@[k]) == usage_view(models@[k]) by {
                assert(cloned::<ModelUsage>(models@[k], rest@[k]));
            }
        }
    }
    let mut freed: u64 = 0;
    while rest.len() > 0 && freed < needed
        invariant
            freed <= total_memory(v),
            total_memory(usages(rest@)) + freed == total_memory(v),
            out@.len() + release_plan(usages(rest@), needed as nat, freed as nat).len()
                == release_plan(v, needed as nat, 0).len(),
            forall|i: int| 0 <= i < out@.len() ==> #[trigger] out@[i]@ == release_plan(v, needed as nat, 0)[i],
            forall|i: int|
                0 <= i < release_plan(usages(rest@), needed as nat, freed as nat).len()
                    ==> #[trigger] release_plan(usages(rest@), needed as nat, freed as nat)[i]
                    == release_plan(v, needed as nat, 0)[out@.len() + i],
            total_memory(v) <= u64::MAX,
        decreases rest@.len(),
    {
        let ghost rv = usages(rest@);
        let i = find_oldest(&rest);
        proof {
            lemma_oldest_index_bounds(rv);
            lemma_total_memory_remove(rv, i as int);
        }
        let m = rest.remove(i);
        proof {
            assert(usages(rest@) =~= rv.remove(i as int));
            let p = release_plan(rv, needed as nat, freed as nat);
            assert(p[0] == rv[i as int].0);
            assert(p[0] == release_plan(v, needed as nat, 0)[out@.len() as int]);
            assert(m.id@ == rv[i as int].0);
            assert(p == seq![rv[i as int].0] + release_plan(rv.remove(i as int), needed as nat, (freed + rv[i as int].1) as nat));
            assert forall|j: int|
                0 <= j < release_plan(rv.remove(i as int), needed as nat, (freed + rv[i as int].1) as nat).len() implies
                #[trigger] release_plan(rv.remove(i as int), needed as nat, (freed + rv[i as int].1) as nat)[j]
                    == release_plan(v, needed as nat, 0)[out@.len() + 1 + j] by {
                assert(p[j + 1] == release_plan(rv.remove(i as int), needed as nat, (freed + rv[i as int].1) as nat)[j]);
            }
        }
        freed = freed + m.memory_usage_mb as u64;
        out.push(m.id);
    }
    proof {
        let rv = usages(rest@);
        assert(release_plan(rv, needed as nat, freed as nat).len() == 0);
    }
    out
}

proof fn lemma_total_memory_remove(ms: Seq<(Seq<char>, u32, u64)>, i: int)
    requires
        0 <= i < ms.len(),
    ensures
        total_memory(ms.remove(i)) + ms[i].1 == total_memory(ms),
    decreases ms.len(),
{
    if i == ms.len() - 1 {
        assert(ms.remove(i) =~= ms.drop_last());
    } else {
        lemma_total_memory_remove(ms.drop_last(), i);
        assert(ms.remove(i).drop_last() =~= ms.drop_last().remove(i));
        assert(ms.remove(i).last() == ms.last());
    }
}

/// Refuses another model when `loaded` models already reach the limit.
pub fn check_model_capacity(loaded: usize, max_models_in_memory: u32) -> (r: Result<(), Error>)
    ensures
        loaded < max_models_in_memory ==> r is Ok,
        loaded >= max_models_in_memory ==> (r matches Err(Error::Model(m)) && m@ == "Too many models loaded"@),
{
    if loaded >= max_models_in_memory as usize {
        Err(Error::Model(String::from_str("Too many models loaded")))
    } else {
        Ok(())
    }
}

} // verus!
