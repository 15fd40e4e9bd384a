//! Processor capabilities and pooled buffers for model processing.

use vstd::prelude::*;
use vstd::string::StringExecFns;

verus! {

/// Optimized processor for vector operations, configured by the CPU features
/// that were detected on the machine.
pub struct PerformanceProcessor {
    use_avx2: bool,
    use_sse4: bool,
    vector_size: usize,
}

/// The capability list reported for a set of CPU features.
pub open spec fn capabilities_text(avx2: bool, sse4: bool) -> Seq<char> {
    if avx2 && sse4 {
        "AVX2, SSE4.1"@
    } else if avx2 {
        "AVX2"@
    } else if sse4 {
        "SSE4.1"@
    } else {
        "Optimized-Scalar"@
    }
}

impl PerformanceProcessor {
    /// Whether AVX2 instructions are used.
    pub closed spec fn avx2(&self) -> bool {
        self.use_avx2
    }

    /// Whether SSE4.1 instructions are used.
    pub closed spec fn sse4(&self) -> bool {
        self.use_sse4
    }

    /// Number of lanes processed at a time.
    pub closed spec fn lanes(&self) -> nat {
        self.vector_size as nat
    }

    /// A processor for the given CPU features: eight lanes with AVX2, four
    /// without.
    pub fn from_features(use_avx2: bool, use_sse4: bool) -> (r: Self)
        ensures
            r.avx2() == use_avx2,
            r.sse4() == use_sse4,
            r.lanes() == (if use_avx2 { 8nat } else { 4nat }),
    {
        PerformanceProcessor {
            use_avx2,
            use_sse4,
            vector_size: if use_avx2 { 8 } else { 4 },
        }
    }

    /// Number of lanes processed at a time.
    pub fn vector_size(&self) -> (r: usize)
        ensures
            r == self.lanes(),
    {
        self.vector_size
    }

    /// Get processor capabilities: the detected features joined by ", ", or
    /// "Optimized-Scalar" when none was detected.
    pub fn get_capabilities(&self) -> (r: String)
        ensures
            r@ == capabilities_text(self.avx2(), self.sse4()),
    {
        if self.use_avx2 && self.use_sse4 {
            let mut s = String::from_str("AVX2");
            s.append(", ");
            s.append("SSE4.1");
            proof {
                reveal_strlit("AVX2");
                reveal_strlit(", ");
                reveal_strlit("SSE4.1");
                reveal_strlit("AVX2, SSE4.1");
                assert(s@ =~= "AVX2, SSE4.1"@);
            }
            s
        } else if self.use_avx2 {
            String::from_str("AVX2")
        } else if self.use_sse4 {
            String::from_str("SSE4.1")
        } else {
            String::from_str("Optimized-Scalar")
        }
    }
}

/// Memory pool for efficient buffer management.
///
/// Every pooled buffer has `buffer_size` elements, and at most `pool_size`
/// buffers are pooled.
pub struct MemoryPool<T> {
    buffers: Vec<Vec<T>>,
    buffer_size: usize,
    pool_size: usize,
}

impl<T> MemoryPool<T> {
    /// The pooled buffers, the next one handed out last.
    pub closed spec fn pooled(&self) -> Seq<Vec<T>> {
        self.buffers@
    }

    /// The length every pooled buffer has.
    pub closed spec fn buffer_len(&self) -> nat {
        self.buffer_size as nat
    }

    /// The most buffers the pool keeps.
    pub closed spec fn capacity(&self) -> nat {
        self.pool_size as nat
    }

    /// Every pooled buffer has the pool's buffer length, and the pool holds
    /// no more buffers than its capacity.
    pub open spec fn wf(&self) -> bool {
        &&& self.pooled().len() <= self.capacity()
        &&& forall|i: int| 0 <= i < self.pooled().len() ==> #[trigger] self.pooled()[i]@.len() == self.buffer_len()
    }
}

/// Every element of `b` is a value that `T::default` returns.
pub open spec fn all_default<T: Default>(b: Seq<T>) -> bool {
    forall|j: int| 0 <= j < b.len() ==> call_ensures(T::default, (), #[trigger] b[j])
}

/// A buffer of `len` default values.
fn default_buffer<T: Default>(len: usize) -> (r: Vec<T>)
    ensures
        r@.len() == len,
        all_default(r@),
{
    let mut buffer: Vec<T> = Vec::with_capacity(len);
    let mut i: usize = 0;
    while i < len
        invariant
            i <= len,
            buffer@.len() == i,
            all_default(buffer@),
        decreases len - i,
    {
        buffer.push(T::default());
        i = i + 1;
    }
    buffer
}

impl<T: Clone + Default> MemoryPool<T> {
    /// Create a new memory pool holding `pool_size` buffers of `buffer_size`
    /// default values each.
    pub fn new(buffer_size: usize, pool_size: usize) -> (r: Self)
        ensures
            r.wf(),
            r.pooled().len() == pool_size,
            r.buffer_len() == buffer_size,
            r.capacity() == pool_size,
            forall|i: int| 0 <= i < r.pooled().len() ==> all_default(#[trigger] r.pooled()[i]@),
    {
        let mut buffers: Vec<Vec<T>> = Vec::with_capacity(pool_size);
        let mut i: usize = 0;
        while i < pool_size
            invariant
                i <= pool_size,
                buffers@.len() == i,
                forall|j: int| 0 <= j < i ==> #[trigger] buffers@[j]@.len() == buffer_size,
                forall|j: int| 0 <= j < i ==> all_default(#[trigger] buffers@[j]@),
            decreases pool_size - i,
        {
            let buffer = default_buffer::<T>(buffer_size);
            buffers.push(buffer);
            i = i + 1;
        }
        MemoryPool { buffers, buffer_size, pool_size }
    }

    /// Get a buffer from the pool: the most recently pooled one, or `None`
    /// when the pool is empty.
    pub fn get_buffer(&mut self) -> (r: Option<Vec<T>>)
        requires
            old(self).wf(),
        ensures
            final(self).wf(),
            final(self).buffer_len() == old(self).buffer_len(),
            final(self).capacity() == old(self).capacity(),
            old(self).pooled().len() == 0 ==> r is None && final(self).pooled() == old(self).pooled(),
            old(self).pooled().len() > 0 ==> {
                &&& r == Some(old(self).pooled().last())
                &&& final(self).pooled() == old(self).pooled().drop_last()
            },
            r matches Some(b) ==> b@.len() == old(self).buffer_len(),
    {
        self.buffers.pop()
    }

    /// Return a buffer to the pool. It is kept, reset to default values, only
    /// when it has the pool's buffer length and the pool is not full;
    /// otherwise it is dropped.
    pub fn return_buffer(&mut self, buffer: Vec<T>)
        requires
            old(self).wf(),
        ensures
            final(self).wf(),
            final(self).buffer_len() == old(self).buffer_len(),
            final(self).capacity() == old(self).capacity(),
            (buffer@.len() == old(self).buffer_len() && old(self).pooled().len() < old(
                self,
            ).capacity()) ==> {
                &&& final(self).pooled().len() == old(self).pooled().len() + 1
                &&& final(self).pooled().drop_last() == old(self).pooled()
                &&& final(self).pooled().last()@.len() == old(self).buffer_len()
                &&& all_default(final(self).pooled().last()@)
            },
            !(buffer@.len() == old(self).buffer_len() && old(self).pooled().len() < old(
                self,
            ).capacity()) ==> final(self).pooled() == old(self).pooled(),
    {
        let mut buffer = buffer;
        if buffer.len() == self.buffer_size && self.buffers.len() < self.pool_size {
            buffer.clear();
            let fresh_len = self.buffer_size;
            let mut i: usize = 0;
            while i < fresh_len
                invariant
                    i <= fresh_len,
                    buffer@.len() == i,
                    all_default(buffer@),
                decreases fresh_len - i,
            {
                buffer.push(T::default());
                i = i + 1;
            }
            let ghost before = self.buffers@;
            self.buffers.push(buffer);
            proof {
                assert(self.buffers@.drop_last() =~= before);
            }
        }
    }

    /// The most buffers the pool keeps.
    pub fn pool_size(&self) -> (r: usize)
        ensures
            r == self.capacity(),
    {
        self.pool_size
    }

    /// Number of buffers currently pooled.
    pub fn available(&self) -> (r: usize)
        ensures
            r == self.pooled().len(),
    {
        self.buffers.len()
    }
}

} // verus!
