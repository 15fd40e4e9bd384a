//! The rules of the GGML model loader: metadata derived from a model's file
//! name, tokenization, the supported inference methods and their simulated
//! cost, and the memory a loaded model is accounted.

use crate::common::error::Error;
use crate::common::utils::{chars_of, decimal, str_eq, u64_to_decimal};
use vstd::prelude::*;
use vstd::string::StringExecFns;

verus! {

/// Model metadata extracted from model files
#[derive(Debug, Clone)]
pub struct ModelMetadata {
    pub name: String,
    pub version: String,
    pub description: String,
    pub parameters: u64,
    pub quantization: String,
    pub context_length: u32,
    pub vocab_size: u32,
    pub supported_methods: Vec<String>,
}

/// Whether `pat` occurs in `s` as a contiguous run of characters.
pub open spec fn contains_text(s: Seq<char>, pat: Seq<char>) -> bool {
    exists|i: int| 0 <= i && i + pat.len() <= s.len() && #[trigger] s.subrange(i, i + pat.len()) == pat
}

/// Whether `pat` occurs in `s`.
pub fn str_contains(s: &str, pat: &str) -> (r: bool)
    ensures
        r == contains_text(s@, pat@),
{
    let a = chars_of(s);
    let b = chars_of(pat);
    if b.len() > a.len() {
        proof {
            assert forall|i: int| 0 <= i && i + pat@.len() <= s@.len() implies #[trigger] s@.subrange(
                i,
                i + pat@.len(),
            ) != pat@ by {}
        }
        return false;
    }
    let alen = a.len();
    let last = alen - b.len();
    let mut i: usize = 0;
    while i <= last
        invariant
            a@ == s@,
            b@ == pat@,
            last == a@.len() - b@.len(),
            alen == a@.len(),
            b@.len() <= a@.len(),
            forall|k: int| 0 <= k < i ==> #[trigger] s@.subrange(k, k + pat@.len()) != pat@,
        decreases last + 1 - i,
    {
        let mut j: usize = 0;
        let mut same = true;
        while j < b.len()
            invariant
                a@ == s@,
                b@ == pat@,
                i <= last,
                last == a@.len() - b@.len(),
                alen == a@.len(),
                j <= b@.len(),
                same == (forall|m: int| 0 <= m < j ==> a@[i + m] == b@[m]),
            decreases b@.len() - j,
        {
            assert(i + j < a@.len());
            if a[i + j] != b[j] {
                same = false;
            }
            j = j + 1;
        }
        if same {
            proof {
                assert(s@.subrange(i as int, i + pat@.len()) =~= pat@);
            }
            return true;
        }
        proof {
            assert(s@.subrange(i as int, i + pat@.len()) != pat@) by {
                let m = choose|m: int| 0 <= m < b@.len() && a@[i + m] != b@[m];
                assert(s@.subrange(i as int, i + pat@.len())[m] == a@[i + m]);
            }
        }
        if i == last {
            proof {
                assert forall|k: int| 0 <= k && k + pat@.len() <= s@.len() implies #[trigger] s@.subrange(
                    k,
                    k + pat@.len(),
                ) != pat@ by {
                    assert(k <= i);
                }
            }
            return false;
        }
        i = i + 1;
    }
    false
}

/// The parameter count guessed from a model's name.
pub open spec fn parameters_for(name: Seq<char>) -> u64 {
    if contains_text(name, "7b"@) {
        7_000_000_000
    } else if contains_text(name, "13b"@) {
        13_000_000_000
    } else if contains_text(name, "3b"@) {
        3_000_000_000
    } else {
        1_100_000_000
    }
}

/// The quantization guessed from a model's name.
pub open spec fn quantization_for(name: Seq<char>) -> Seq<char> {
    if contains_text(name, "q4"@) {
        "Q4_0"@
    } else if contains_text(name, "q8"@) {
        "Q8_0"@
    } else {
        "F16"@
    }
}

/// Metadata of a GGML model, derived from its file name without extension:
/// version 1.0.0, the parameter count and quantization its name suggests, a
/// 2048-token context, a 32000-token vocabulary, and the four supported
/// methods.
pub fn metadata_from_name(name: &str) -> (r: ModelMetadata)
    ensures
        r.name@ == name@,
        r.version@ == "1.0.0"@,
        r.description@ == "GGML model loaded from "@ + name@,
        r.parameters == parameters_for(name@),
        r.quantization@ == quantization_for(name@),
        r.context_length == 2048,
        r.vocab_size == 32000,
        r.supported_methods@.len() == 4,
        r.supported_methods@[0]@ == "completion"@,
        r.supported_methods@[1]@ == "embedding"@,
        r.supported_methods@[2]@ == "chat"@,
        r.supported_methods@[3]@ == "summarization"@,
{
    let parameters: u64 = if str_contains(name, "7b") {
        7_000_000_000
    } else if str_contains(name, "13b") {
        13_000_000_000
    } else if str_contains(name, "3b") {
        3_000_000_000
    } else {
        1_100_000_000
    };
    let quantization = if str_contains(name, "q4") {
        String::from_str("Q4_0")
    } else if str_contains(name, "q8") {
        String::from_str("Q8_0")
    } else {
        String::from_str("F16")
    };
    let mut description = String::from_str("GGML model loaded from ");
    description.append(name);
    let mut methods: Vec<String> = Vec::new();
    methods.push(String::from_str("completion"));
    methods.push(String::from_str("embedding"));
    methods.push(String::from_str("chat"));
    methods.push(String::from_str("summarization"));
    ModelMetadata {
        name: String::from_str(name),
        version: String::from_str("1.0.0"),
        description,
        parameters,
        quantization,
        context_length: 2048,
        vocab_size: 32000,
        supported_methods: methods,
    }
}

/// Tokenizes text: one token per character, the character's position
/// modulo 1000.
pub fn tokenize(text: &str) -> (r: Vec<u32>)
    ensures
        r@.len() == text@.len(),
        forall|i: int| 0 <= i < r@.len() ==> #[trigger] r@[i] == i % 1000,
{
    let chars = chars_of(text);
    let mut tokens: Vec<u32> = Vec::new();
    let mut i: usize = 0;
    while i < chars.len()
        invariant
            chars@ == text@,
            i <= chars@.len(),
            tokens@.len() == i,
            forall|k: int| 0 <= k < i ==> #[trigger] tokens@[k] == k % 1000,
        decreases chars@.len() - i,
    {
        tokens.push((i % 1000) as u32);
        i = i + 1;
    }
    tokens
}

/// The inference methods a GGML model serves.
#[derive(Debug, Clone, Copy, PartialEq, Eq, Structural)]
pub enum InferenceMethod {
    Completion,
    Embedding,
    Chat,
    Summarization,
}

/// The method named `name`, if it is a supported one.
pub open spec fn method_named(name: Seq<char>) -> Option<InferenceMethod> {
    if name == "completion"@ {
        Some(InferenceMethod::Completion)
    } else if name == "embedding"@ {
        Some(InferenceMethod::Embedding)
    } else if name == "chat"@ {
        Some(InferenceMethod::Chat)
    } else if name == "summarization"@ {
        Some(InferenceMethod::Summarization)
    } else {
        None
    }
}

/// The message of the error for an unsupported method.
pub open spec fn unsupported_method_message(name: Seq<char>) -> Seq<char> {
    "Unsupported method: "@ + name
}

/// Resolves a method name, or fails with a model error for an unsupported
/// one.
pub fn parse_method(method: &str) -> (r: Result<InferenceMethod, Error>)
    ensures
        method_named(method@) matches Some(m) ==> r == Ok::<InferenceMethod, Error>(m),
        method_named(method@) is None ==> (r matches Err(Error::Model(msg)) && msg@
            == unsupported_method_message(method@)),
{
    if str_eq(method, "completion") {
        Ok(InferenceMethod::Completion)
    } else if str_eq(method, "embedding") {
        Ok(InferenceMethod::Embedding)
    } else if str_eq(method, "chat") {
        Ok(InferenceMethod::Chat)
    } else if str_eq(method, "summarization") {
        Ok(InferenceMethod::Summarization)
    } else {
        let mut message = String::from_str("Unsupported method: ");
        message.append(method);
        Err(Error::Model(message))
    }
}

/// The request parameter that holds the input text of each method; for
/// chat it is the content of the last of the `messages`.
pub open spec fn input_parameter_text(m: InferenceMethod) -> Seq<char> {
    match m {
        InferenceMethod::Completion => "prompt"@,
        InferenceMethod::Embedding => "text"@,
        InferenceMethod::Chat => "messages"@,
        InferenceMethod::Summarization => "text"@,
    }
}

impl InferenceMethod {
    /// The request parameter that holds the input text.
    pub fn input_parameter(&self) -> (r: &'static str)
        ensures
            r@ == input_parameter_text(*self),
    {
        match self {
            InferenceMethod::Completion => "prompt",
            InferenceMethod::Embedding => "text",
            InferenceMethod::Chat => "messages",
            InferenceMethod::Summarization => "text",
        }
    }

    /// Fixed part of the simulated inference time, in milliseconds.
    pub fn base_latency_ms(&self) -> (r: u64)
        ensures
            r == match *self {
                InferenceMethod::Completion => 50u64,
                InferenceMethod::Embedding => 20u64,
                InferenceMethod::Chat => 100u64,
                InferenceMethod::Summarization => 200u64,
            },
    {
        match self {
            InferenceMethod::Completion => 50,
            InferenceMethod::Embedding => 20,
            InferenceMethod::Chat => 100,
            InferenceMethod::Summarization => 200,
        }
    }

    /// Simulated inference time: the fixed part plus 2 ms per token.
    pub fn simulated_latency_ms(&self, tokens: usize) -> (r: u64)
        requires
            tokens <= u64::MAX / 4,
        ensures
            r == self.base_latency_spec() + 2 * tokens,
    {
        self.base_latency_ms() + 2 * (tokens as u64)
    }

    /// Fixed part of the simulated inference time, in milliseconds.
    pub open spec fn base_latency_spec(&self) -> int {
        match *self {
            InferenceMethod::Completion => 50,
            InferenceMethod::Embedding => 20,
            InferenceMethod::Chat => 100,
            InferenceMethod::Summarization => 200,
        }
    }

    /// Number of tokens the method produces for `tokens` input tokens: half
    /// of them but at least 10 for completion, a third but at least 20 for
    /// chat, a tenth but at least 5 for summarization; embeddings have 384
    /// dimensions whatever the input.
    pub fn output_tokens(&self, tokens: usize) -> (r: usize)
        ensures
            r == match *self {
                InferenceMethod::Completion => if tokens / 2 >= 10 { tokens / 2 } else { 10 },
                InferenceMethod::Embedding => 384,
                InferenceMethod::Chat => if tokens / 3 >= 20 { tokens / 3 } else { 20 },
                InferenceMethod::Summarization => if tokens / 10 >= 5 { tokens / 10 } else { 5 },
            },
    {
        match self {
            InferenceMethod::Completion => if tokens / 2 >= 10 { tokens / 2 } else { 10 },
            InferenceMethod::Embedding => 384,
            InferenceMethod::Chat => if tokens / 3 >= 20 { tokens / 3 } else { 20 },
            InferenceMethod::Summarization => if tokens / 10 >= 5 { tokens / 10 } else { 5 },
        }
    }
}

/// The text a completion returns for the tokens it generated: as many as
/// were generated, but no more than the input had.
pub fn completion_text(generated: usize, input_tokens: usize) -> (r: String)
    ensures
        r@ == "Generated text from "@ + decimal(
            (if generated <= input_tokens { generated } else { input_tokens }) as nat,
        ) + " tokens"@,
{
    let n = if generated <= input_tokens { generated } else { input_tokens };
    let mut text = String::from_str("Generated text from ");
    let digits = u64_to_decimal(n as u64);
    text.append(digits.as_str());
    text.append(" tokens");
    text
}

/// Memory accounted to a loaded model: its file size in whole megabytes
/// (10^6 bytes) plus 50 MB of overhead.
pub fn loaded_memory_mb(file_size: u64) -> (r: u32)
    ensures
        r == ((file_size / 1_000_000 + 50) as u32),
{
    ((file_size / 1_000_000) + 50) as u32
}

/// Simulated time to load a model file: a millisecond per megabyte, at
/// least half a second.
pub fn load_delay_ms(file_size: u64) -> (r: u64)
    ensures
        r == if file_size / 1_000_000 >= 500 { file_size / 1_000_000 } else { 500 },
{
    let mb = file_size / 1_000_000;
    if mb >= 500 { mb } else { 500 }
}

/// Number of placeholder weight bytes kept for a model file: a thousandth
/// of its size, at most ten million.
pub fn weight_buffer_len(file_size: u64) -> (r: u64)
    ensures
        r == if file_size / 1000 <= 10_000_000 { file_size / 1000 } else { 10_000_000 },
{
    let n = file_size / 1000;
    if n <= 10_000_000 { n } else { 10_000_000 }
}

} // verus!
