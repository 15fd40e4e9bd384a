//! Utility functions: byte formatting, identifier validation, hashing,
//! a token-bucket rate limiter and a small synchronous circuit breaker.

use vstd::prelude::*;
use vstd::string::StringExecFns;
use vstd::string::StringSliceAdditionalSpecFns;

verus! {

broadcast use vstd::string::group_string_axioms;

// ---------------------------------------------------------------------------
// Clock and hashing (outside calls)
// ---------------------------------------------------------------------------

/// Get current timestamp as milliseconds since the Unix epoch.
///
/// Reads the system clock (`SystemTime::now`); nothing is promised of the
/// value, which depends on the machine's clock.
#[verifier::external_body]
pub fn current_timestamp_ms() -> u64 {
    std::time::SystemTime::now()
        .duration_since(std::time::UNIX_EPOCH)
        .unwrap_or_default()
        .as_millis() as u64
}

/// What the standard library's `DefaultHasher`, created with `new`, yields
/// for a string.
pub uninterp spec fn default_hash_of_str(s: Seq<char>) -> u64;

/// Simple hash function for strings.
///
/// Feeds the string to `std::collections::hash_map::DefaultHasher::new()`
/// and returns `finish()`. The documentation of `DefaultHasher::new`
/// promises that all hashers made by `new` give the same result for the
/// same input, so the result is named as a function of the string.
#[verifier::external_body]
pub fn simple_hash(s: &str) -> (r: u64)
    ensures
        r == default_hash_of_str(s@),
{
    let mut hasher = std::collections::hash_map::DefaultHasher::new();
    std::hash::Hash::hash(s, &mut hasher);
    std::hash::Hasher::finish(&hasher)
}

/// Whether `char::is_alphanumeric` holds of a character (Unicode
/// `Alphabetic` or `Numeric`).
pub uninterp spec fn unicode_alphanumeric(c: char) -> bool;

/// ASCII letters and digits.
pub open spec fn ascii_alphanumeric(c: char) -> bool {
    ('a' <= c && c <= 'z') || ('A' <= c && c <= 'Z') || ('0' <= c && c <= '9')
}

/// Whether a character is alphanumeric (`char::is_alphanumeric`): for an
/// ASCII character, whether it is a letter or a digit.
pub open spec fn is_alphanumeric_char(c: char) -> bool {
    if (c as u32) < 128 { ascii_alphanumeric(c) } else { unicode_alphanumeric(c) }
}

/// Calls `char::is_alphanumeric`. Its documentation defines it as Unicode
/// `Alphabetic || Numeric`; among ASCII characters exactly the letters and
/// digits have it. Non-ASCII characters are left to the name.
#[verifier::external_body]
fn char_is_alphanumeric(c: char) -> (r: bool)
    ensures
        r == unicode_alphanumeric(c),
        r == is_alphanumeric_char(c),
{
    c.is_alphanumeric()
}

// ---------------------------------------------------------------------------
// Text comparison
// ---------------------------------------------------------------------------

/// The characters of a string slice.
pub(crate) fn chars_of(s: &str) -> (r: Vec<char>)
    ensures
        r@ == s@,
{
    let mut out: Vec<char> = Vec::new();
    for c in it: s.chars()
        invariant
            it.seq() == s@,
            out@ == it.seq().subrange(0, it.index()),
    {
        out.push(c);
    }
    out
}

/// Whether two string slices hold the same characters.
pub(crate) fn str_eq(a: &str, b: &str) -> (r: bool)
    ensures
        r == (a@ == b@),
{
    let x = chars_of(a);
    let y = chars_of(b);
    if x.len() != y.len() {
        return false;
    }
    for i in 0..x.len()
        invariant
            x@ == a@,
            y@ == b@,
            x@.len() == y@.len(),
            forall|j: int| 0 <= j < i ==> x@[j] == y@[j],
    {
        if x[i] != y[i] {
            return false;
        }
    }
    assert(x@ =~= y@);
    true
}

/// Whether a string holds the same characters as a string slice.
pub(crate) fn string_eq_str(a: &String, b: &str) -> (r: bool)
    ensures
        r == (a@ == b@),
{
    str_eq(a.as_str(), b)
}

// ---------------------------------------------------------------------------
// Decimal rendering
// ---------------------------------------------------------------------------

/// The decimal digit character of `d` (for `d < 10`).
pub open spec fn digit_char(d: nat) -> char {
    if d == 0 { '0' } else if d == 1 { '1' } else if d == 2 { '2' } else if d == 3 { '3' }
    else if d == 4 { '4' } else if d == 5 { '5' } else if d == 6 { '6' } else if d == 7 { '7' }
    else if d == 8 { '8' } else { '9' }
}

/// Decimal representation of a natural number, without leading zeros.
pub open spec fn decimal(n: nat) -> Seq<char>
    decreases n,
{
    if n < 10 {
        seq![digit_char(n)]
    } else {
        decimal(n / 10).push(digit_char(n % 10))
    }
}

fn digit_str(d: u64) -> (r: &'static str)
    requires
        d < 10,
    ensures
        r@ == seq![digit_char(d as nat)],
{
    if d == 0 { proof { reveal_strlit("0"); } "0" }
    else if d == 1 { proof { reveal_strlit("1"); } "1" }
    else if d == 2 { proof { reveal_strlit("2"); } "2" }
    else if d == 3 { proof { reveal_strlit("3"); } "3" }
    else if d == 4 { proof { reveal_strlit("4"); } "4" }
    else if d == 5 { proof { reveal_strlit("5"); } "5" }
    else if d == 6 { proof { reveal_strlit("6"); } "6" }
    else if d == 7 { proof { reveal_strlit("7"); } "7" }
    else if d == 8 { proof { reveal_strlit("8"); } "8" }
    else { proof { reveal_strlit("9"); } "9" }
}

/// Renders an unsigned integer in decimal.
pub fn u64_to_decimal(n: u64) -> (r: String)
    ensures
        r@ == decimal(n as nat),
    decreases n,
{
    if n < 10 {
        String::from_str(digit_str(n))
    } else {
        let mut s = u64_to_decimal(n / 10);
        s.append(digit_str(n % 10));
        s
    }
}

// ---------------------------------------------------------------------------
// format_bytes
// ---------------------------------------------------------------------------

/// `1024` to the power `k`.
pub open spec fn pow1024(k: nat) -> nat
    decreases k,
{
    if k == 0 { 1 } else { 1024 * pow1024((k - 1) as nat) }
}

/// Index of the unit (B, KB, MB, GB, TB) a byte count is shown in: the
/// largest `k <= 4` with `1024^k <= bytes` (0 for fewer than 1024 bytes).
pub open spec fn unit_index(bytes: nat) -> nat {
    if bytes < pow1024(1) { 0 }
    else if bytes < pow1024(2) { 1 }
    else if bytes < pow1024(3) { 2 }
    else if bytes < pow1024(4) { 3 }
    else { 4 }
}

/// Name of each unit.
pub open spec fn unit_name(k: nat) -> Seq<char> {
    if k == 0 { "B"@ } else if k == 1 { "KB"@ } else if k == 2 { "MB"@ } else if k == 3 { "GB"@ } else { "TB"@ }
}

/// `n / d` rounded to the nearest integer, ties to the even neighbour (the
/// rounding of Rust's fixed-precision float formatting).
pub open spec fn round_half_even(n: nat, d: nat) -> nat {
    let q = n / d;
    let r = n % d;
    if 2 * r > d { q + 1 } else if 2 * r < d { q } else if q % 2 == 0 { q } else { q + 1 }
}

/// Two-digit rendering of `n < 100`, with a leading zero below ten.
pub open spec fn two_digits(n: nat) -> Seq<char> {
    if n < 10 { seq!['0'] + decimal(n) } else { decimal(n) }
}

/// The human readable form of a byte count: the plain count with unit `B`
/// below 1024, otherwise the value in the largest fitting unit with two
/// decimals.
pub open spec fn format_bytes_spec(bytes: nat) -> Seq<char> {
    let k = unit_index(bytes);
    if k == 0 {
        decimal(bytes) + " "@ + unit_name(0)
    } else {
        let h = round_half_even(bytes * 100, pow1024(k));
        decimal(h / 100) + "."@ + two_digits(h % 100) + " "@ + unit_name(k)
    }
}

fn unit_str(k: u64) -> (r: &'static str)
    requires
        k <= 4,
    ensures
        r@ == unit_name(k as nat),
{
    if k == 0 { "B" } else if k == 1 { "KB" } else if k == 2 { "MB" } else if k == 3 { "GB" } else { "TB" }
}

proof fn lemma_pow1024_values()
    ensures
        pow1024(0) == 1,
        pow1024(1) == 1024,
        pow1024(2) == 1048576,
        pow1024(3) == 1073741824,
        pow1024(4) == 1099511627776,
{
    reveal_with_fuel(pow1024, 5);
}

/// Convert bytes to human readable format
pub fn format_bytes(bytes: u64) -> (r: String)
    ensures
        r@ == format_bytes_spec(bytes as nat),
{
    proof { lemma_pow1024_values(); }
    let k: u64 = if bytes < 1024 { 0 }
        else if bytes < 1048576 { 1 }
        else if bytes < 1073741824 { 2 }
        else if bytes < 1099511627776 { 3 }
        else { 4 };
    if k == 0 {
        let mut s = u64_to_decimal(bytes);
        s.append(" ");
        s.append(unit_str(0));
        return s;
    }
    let d: u128 = if k == 1 { 1024 } else if k == 2 { 1048576 } else if k == 3 { 1073741824 } else { 1099511627776 };
    let n: u128 = (bytes as u128) * 100;
    let q: u128 = n / d;
    let rem: u128 = n % d;
    let h: u128 = if 2 * rem > d { q + 1 } else if 2 * rem < d { q } else if q % 2 == 0 { q } else { q + 1 };
    assert(h == round_half_even(bytes as nat * 100, pow1024(k as nat)));
    assert(h / 100 <= u64::MAX) by {
        assert(q <= n);
        assert(q <= (bytes as u128) * 100);
    }
    let whole = (h / 100) as u64;
    let frac = (h % 100) as u64;
    let mut s = u64_to_decimal(whole);
    s.append(".");
    if frac < 10 {
        proof { reveal_strlit("0"); }
        s.append("0");
    }
    let f = u64_to_decimal(frac);
    s.append(f.as_str());
    s.append(" ");
    s.append(unit_str(k));
    proof {
        reveal_strlit("0");
        assert(two_digits(frac as nat) == (if frac < 10 { "0"@ } else { Seq::<char>::empty() }) + decimal(frac as nat));
    }
    s
}

// ---------------------------------------------------------------------------
// Identifier validation
// ---------------------------------------------------------------------------

/// Characters allowed in a model identifier.
pub open spec fn model_id_char(c: char) -> bool {
    is_alphanumeric_char(c) || c == '-' || c == '_' || c == '.'
}

/// Characters allowed in a device identifier.
pub open spec fn device_id_char(c: char) -> bool {
    is_alphanumeric_char(c) || c == '-' || c == '_'
}

/// A valid model id is non-empty, at most 256 bytes long (`str::len`), and made of
/// alphanumeric characters, `-`, `_` and `.`.
pub open spec fn valid_model_id(s: &str) -> bool {
    &&& s@.len() > 0
    &&& s.len() <= 256
    &&& forall|i: int| 0 <= i < s@.len() ==> model_id_char(#[trigger] s@[i])
}

/// A valid device id is non-empty, at most 128 bytes long (`str::len`), and made of
/// alphanumeric characters, `-` and `_`.
pub open spec fn valid_device_id(s: &str) -> bool {
    &&& s@.len() > 0
    &&& s.len() <= 128
    &&& forall|i: int| 0 <= i < s@.len() ==> device_id_char(#[trigger] s@[i])
}

fn all_chars_allowed(s: &str, allow_dot: bool) -> (r: bool)
    ensures
        r == (forall|i: int| 0 <= i < s@.len() ==>
            (is_alphanumeric_char(#[trigger] s@[i]) || s@[i] == '-' || s@[i] == '_' || (allow_dot && s@[i] == '.'))),
{
    let mut ok = true;
    for c in it: s.chars()
        invariant
            it.seq() == s@,
            ok == (forall|j: int| 0 <= j < it.index() ==>
                (is_alphanumeric_char(#[trigger] it.seq()[j]) || it.seq()[j] == '-' || it.seq()[j] == '_'
                    || (allow_dot && it.seq()[j] == '.'))),
    {
        let allowed = char_is_alphanumeric(c) || c == '-' || c == '_' || (allow_dot && c == '.');
        ok = ok && allowed;
    }
    ok
}

/// Validate model ID format
pub fn validate_model_id(model_id: &str) -> (r: bool)
    ensures
        r == valid_model_id(model_id),
{
    if model_id.is_empty() || model_id.len() > 256 {
        return false;
    }
    let ok = all_chars_allowed(model_id, true);
    assert(ok == (forall|i: int| 0 <= i < model_id@.len() ==> model_id_char(#[trigger] model_id@[i])));
    ok
}

/// Validate device ID format
pub fn validate_device_id(device_id: &str) -> (r: bool)
    ensures
        r == valid_device_id(device_id),
{
    if device_id.is_empty() || device_id.len() > 128 {
        return false;
    }
    let ok = all_chars_allowed(device_id, false);
    assert(ok == (forall|i: int| 0 <= i < device_id@.len() ==> device_id_char(#[trigger] device_id@[i])));
    ok
}

// ---------------------------------------------------------------------------
// Data (de)compression placeholders
// ---------------------------------------------------------------------------

fn copy_bytes(data: &[u8]) -> (r: Vec<u8>)
    ensures
        r@ == data@,
{
    let mut out: Vec<u8> = Vec::new();
    for i in 0..data.len()
        invariant
            out@ == data@.subrange(0, i as int),
    {
        out.push(data[i]);
    }
    out
}

/// The compressed form of `data`: the current scheme stores the bytes
/// unchanged.
pub open spec fn compressed_form(data: Seq<u8>) -> Seq<u8> {
    data
}

/// What decompressing `data` gives back: the current scheme accepts any
/// bytes and returns them unchanged.
pub open spec fn decompressed_form(data: Seq<u8>) -> Seq<u8> {
    data
}

/// Compress data.
pub fn compress_data(data: &[u8]) -> (r: Vec<u8>)
    ensures
        r@ == compressed_form(data@),
{
    copy_bytes(data)
}

/// Decompress data; it always succeeds.
pub fn decompress_data(data: &[u8]) -> (r: Result<Vec<u8>, String>)
    ensures
        r matches Ok(v) && v@ == decompressed_form(data@),
{
    Ok(copy_bytes(data))
}

/// Decompressing what was compressed gives back the original bytes.
pub proof fn lemma_compression_round_trip(data: Seq<u8>)
    ensures
        decompressed_form(compressed_form(data)) == data,
{
}

// ---------------------------------------------------------------------------
// Percentiles
// ---------------------------------------------------------------------------

/// The values in ascending order.
pub open spec fn ascending(s: Seq<u64>) -> bool {
    forall|i: int, j: int| 0 <= i <= j < s.len() ==> s[i] <= s[j]
}

/// Position, in the ascending order of `len` values, of the value at the
/// percentile `percentile_bp` (in hundredths of a percent): the whole part
/// of `len * percentile / 100`, less one, kept within the values.
pub open spec fn percentile_index(len: nat, percentile_bp: nat) -> int {
    let x: int = (len * percentile_bp / 10000) as int;
    if x < 1 { 0 } else if x - 1 < len { x - 1 } else { len - 1 }
}

/// The values of `v` in ascending order.
fn sort_ascending(v: &Vec<u64>) -> (r: Vec<u64>)
    ensures
        ascending(r@),
        r@.to_multiset() == v@.to_multiset(),
        r@.len() == v@.len(),
{
    broadcast use vstd::seq_lib::group_to_multiset_ensures;

    let mut out: Vec<u64> = Vec::new();
    let n = v.len();
    for i in 0..n
        invariant
            n == v@.len(),
            ascending(out@),
            out@.to_multiset() == v@.subrange(0, i as int).to_multiset(),
            out@.len() == i,
    {
        let x = v[i];
        let mut pos: usize = 0;
        while pos < out.len() && out[pos] <= x
            invariant
                pos <= out@.len(),
                forall|k: int| 0 <= k < pos ==> out@[k] <= x,
            decreases out@.len() - pos,
        {
            pos = pos + 1;
        }
        let ghost before = out@;
        out.insert(pos, x);
        proof {
            vstd::seq_lib::to_multiset_insert(before, pos as int, x);
            assert(v@.subrange(0, i + 1) =~= v@.subrange(0, i as int).push(x));
            vstd::seq_lib::to_multiset_build(v@.subrange(0, i as int), x);
            assert(out@ =~= before.insert(pos as int, x));
            assert forall|a: int, b: int| 0 <= a <= b < out@.len() implies out@[a] <= out@[b] by {
                if pos < before.len() {
                    assert(x < before[pos as int]);
                }
                if a < pos && b > pos {
                    assert(out@[a] == before[a]);
                    assert(out@[b] == before[b - 1]);
                }
            }
        }
    }
    proof { assert(v@.subrange(0, n as int) =~= v@); }
    out
}

/// The latency at the given percentile of a list of latencies, with the
/// percentile in hundredths of a percent (95 % is 9500): the value at
/// `percentile_index` in ascending order, or 0 for no latencies.
pub fn calculate_percentile(latencies: Vec<u64>, percentile_bp: u32) -> (r: u64)
    ensures
        latencies@.len() == 0 ==> r == 0,
        latencies@.len() > 0 ==> exists|s: Seq<u64>| ascending(s) && s.to_multiset() == latencies@.to_multiset()
            && s.len() == latencies@.len() && r == #[trigger] s[percentile_index(latencies@.len(), percentile_bp as nat)],
        latencies@.len() > 0 && ascending(latencies@) ==> r == latencies@[percentile_index(latencies@.len(), percentile_bp as nat)],
{
    if latencies.len() == 0 {
        return 0;
    }
    let sorted = sort_ascending(&latencies);
    let len = sorted.len();
    proof {
        assert((len as u128) * (percentile_bp as u128) <= 0xffff_ffff_ffff_ffffu128 * 0xffff_ffffu128) by (nonlinear_arith)
            requires len <= 0xffff_ffff_ffff_ffffu64, percentile_bp <= 0xffff_ffffu32;
    }
    let x: u128 = (len as u128) * (percentile_bp as u128) / 10000;
    let index: usize = if x < 1 { 0 } else if x - 1 < len as u128 { (x - 1) as usize } else { len - 1 };
    proof {
        assert(x == (latencies@.len() * percentile_bp as nat / 10000) as int);
        assert(index as int == percentile_index(latencies@.len(), percentile_bp as nat));
        if ascending(latencies@) {
            let leq = |a: u64, b: u64| a <= b;
            assert(vstd::relations::sorted_by(sorted@, leq));
            assert(vstd::relations::sorted_by(latencies@, leq));
            assert(vstd::relations::total_ordering(leq));
            vstd::seq_lib::lemma_sorted_unique(sorted@, latencies@, leq);
        }
    }
    sorted[index]
}

// ---------------------------------------------------------------------------
// Token-bucket rate limiter
// ---------------------------------------------------------------------------

/// Reads the system clock as nanoseconds since the Unix epoch
/// (`SystemTime::now`, 0 before the epoch). Nothing is promised of the value.
#[verifier::external_body]
fn clock_nanos() -> u64 {
    std::time::SystemTime::now()
        .duration_since(std::time::UNIX_EPOCH)
        .unwrap_or_default()
        .as_nanos() as u64
}

/// `std::time::SystemTime`, carried opaquely through the data model.
#[verifier::external_type_specification]
#[verifier::external_body]
pub struct ExSystemTime(std::time::SystemTime);

/// `SystemTime::now`: the current system time. Nothing is promised of it.
#[verifier::external_body]
pub(crate) fn system_time_now() -> std::time::SystemTime {
    std::time::SystemTime::now()
}

/// `Clone` on `Duration`, a `Copy` type: the clone is the value itself.
pub assume_specification[ <std::time::Duration as Clone>::clone ](d: &std::time::Duration) -> (r:
    std::time::Duration)
    ensures
        r == *d,
;

/// `Clone` on `SystemTime`, a `Copy` type: the clone is the value itself.
pub assume_specification[ <std::time::SystemTime as Clone>::clone ](t: &std::time::SystemTime) -> (r:
    std::time::SystemTime)
    ensures
        r == *t,
;

/// Nanoseconds in a second.
pub const NANOS_PER_SEC: u64 = 1_000_000_000;

/// Nanoseconds in a millisecond.
pub const NANOS_PER_MILLI: u64 = 1_000_000;

/// Rate limiter using token bucket algorithm
pub struct RateLimiter {
    capacity: u32,
    tokens: u32,
    refill_rate: u32,
    last_refill_nanos: u64,
}

/// Tokens after a refill at time `now` (nanoseconds): when the clock has
/// not gone backwards, one token per `refill_rate` per whole second elapsed
/// is added, up to the capacity; otherwise nothing changes.
pub open spec fn refilled_tokens(tokens: u32, capacity: u32, refill_rate: u32, last: u64, now: u64) -> u32 {
    if now >= last {
        let added = ((now - last) / (NANOS_PER_SEC as int)) * refill_rate;
        if tokens + added <= capacity { (tokens + added) as u32 } else { capacity }
    } else {
        tokens
    }
}

/// The last-refill time after a refill at `now` (nanoseconds): it advances
/// by the whole seconds that were turned into tokens, so time short of a
/// second carries over to the next refill; when the clock has gone
/// backwards it stays.
pub open spec fn refilled_at(last: u64, now: u64) -> u64 {
    if now >= last {
        (last + ((now - last) / (NANOS_PER_SEC as int)) * (NANOS_PER_SEC as int)) as u64
    } else {
        last
    }
}

/// Polling loses no time: refilling at `t1` and then at `t2` turns as many
/// whole seconds into tokens, and leaves the same last-refill time, as one
/// refill at `t2`.
pub proof fn lemma_refills_compose(last: u64, t1: u64, t2: u64)
    requires
        last <= t1 <= t2,
    ensures
        refilled_at(refilled_at(last, t1), t2) == refilled_at(last, t2),
        (t1 - last) / (NANOS_PER_SEC as int) + (t2 - refilled_at(last, t1)) / (NANOS_PER_SEC as int)
            == (t2 - last) / (NANOS_PER_SEC as int),
{
    let n = NANOS_PER_SEC as int;
    let a: int = t1 - last;
    let q1 = a / n;
    let r1 = a % n;
    vstd::arithmetic::div_mod::lemma_fundamental_div_mod(a, n);
    assert(refilled_at(last, t1) == last + q1 * n);
    let b: int = t2 - (last + q1 * n);
    assert(b == (t2 - t1) + r1);
    assert(b >= 0);
    let q2 = b / n;
    vstd::arithmetic::div_mod::lemma_fundamental_div_mod(b, n);
    let c: int = t2 - last;
    assert(c == q1 * n + b);
    vstd::arithmetic::div_mod::lemma_fundamental_div_mod(c, n);
    assert(c == (q1 + q2) * n + b % n) by (nonlinear_arith)
        requires c == q1 * n + b, b == q2 * n + b % n;
    vstd::arithmetic::div_mod::lemma_fundamental_div_mod_converse_div(c, n, q1 + q2, b % n);
    assert(c / n == q1 + q2);
    let m: u64 = refilled_at(last, t1);
    assert(refilled_at(m, t2) == last + q1 * n + q2 * n);
    assert(last + q1 * n + q2 * n == last + (q1 + q2) * n) by (nonlinear_arith);
}

/// The bucket never holds more than its capacity after a refill, never
/// loses tokens by one, and gains more the later the refill: each whole
/// second adds `refill_rate` tokens until the capacity is reached.
pub proof fn lemma_refill_bounds(tokens: u32, capacity: u32, rate: u32, last: u64, now1: u64, now2: u64)
    requires
        tokens <= capacity,
        last <= now1 <= now2,
    ensures
        tokens <= refilled_tokens(tokens, capacity, rate, last, now1) <= capacity,
        refilled_tokens(tokens, capacity, rate, last, now1) <= refilled_tokens(tokens, capacity, rate, last, now2),
        now1 - last >= NANOS_PER_SEC && tokens + rate <= capacity
            ==> refilled_tokens(tokens, capacity, rate, last, now1) >= tokens + rate,
{
    let n = NANOS_PER_SEC as int;
    vstd::arithmetic::div_mod::lemma_div_is_ordered(now1 - last, now2 - last, n);
    let q1 = (now1 - last) / n;
    let q2 = (now2 - last) / n;
    assert(q1 * rate <= q2 * rate) by (nonlinear_arith)
        requires q1 <= q2, rate >= 0;
    assert(q1 * rate >= 0) by (nonlinear_arith)
        requires q1 >= 0, rate >= 0;
    if now1 - last >= n {
        vstd::arithmetic::div_mod::lemma_div_is_ordered(n, now1 - last, n);
        assert(q1 >= 1);
        assert(q1 * rate >= rate) by (nonlinear_arith)
            requires q1 >= 1, rate >= 0;
    }
}

/// `after` and `granted` are the outcome of a refill of `before` at `now`
/// (nanoseconds) followed by taking one token if any is left.
pub open spec fn acquire_step(before: RateLimiter, after: RateLimiter, granted: bool, now: u64) -> bool {
    let avail = refilled_tokens(before.spec_tokens(), before.spec_capacity(), before.spec_refill_rate(),
        before.spec_last_refill(), now);
    &&& after.spec_capacity() == before.spec_capacity()
    &&& after.spec_refill_rate() == before.spec_refill_rate()
    &&& after.spec_last_refill() == refilled_at(before.spec_last_refill(), now)
    &&& granted == (avail > 0)
    &&& after.spec_tokens() == if avail > 0 { (avail - 1) as u32 } else { 0 }
}

impl RateLimiter {
    /// Maximum number of tokens.
    pub closed spec fn spec_capacity(&self) -> u32 {
        self.capacity
    }

    /// Tokens currently available.
    pub closed spec fn spec_tokens(&self) -> u32 {
        self.tokens
    }

    /// Tokens added per elapsed second.
    pub closed spec fn spec_refill_rate(&self) -> u32 {
        self.refill_rate
    }

    /// Clock reading (nanoseconds) of the last refill.
    pub closed spec fn spec_last_refill(&self) -> u64 {
        self.last_refill_nanos
    }

    /// The limiter never holds more tokens than its capacity.
    pub closed spec fn wf(&self) -> bool {
        self.tokens <= self.capacity
    }

    /// A full bucket whose last refill is at `now_nanos`.
    pub fn new_at(capacity: u32, refill_rate: u32, now_nanos: u64) -> (r: Self)
        ensures
            r.wf(),
            r.spec_capacity() == capacity,
            r.spec_tokens() == capacity,
            r.spec_refill_rate() == refill_rate,
            r.spec_last_refill() == now_nanos,
    {
        RateLimiter { capacity, tokens: capacity, refill_rate, last_refill_nanos: now_nanos }
    }

    /// A full bucket, refilled as of the current clock reading.
    pub fn new(capacity: u32, refill_rate: u32) -> (r: Self)
        ensures
            r.wf(),
            r.spec_capacity() == capacity,
            r.spec_tokens() == capacity,
            r.spec_refill_rate() == refill_rate,
    {
        let now = clock_nanos();
        Self::new_at(capacity, refill_rate, now)
    }

    fn refill_tokens(&mut self, now_nanos: u64)
        requires
            old(self).wf(),
        ensures
            final(self).wf(),
            final(self).capacity == old(self).capacity,
            final(self).refill_rate == old(self).refill_rate,
            final(self).tokens == refilled_tokens(old(self).tokens, old(self).capacity, old(self).refill_rate,
                old(self).last_refill_nanos, now_nanos),
            final(self).last_refill_nanos == refilled_at(old(self).last_refill_nanos, now_nanos),
    {
        if now_nanos >= self.last_refill_nanos {
            let secs: u64 = (now_nanos - self.last_refill_nanos) / NANOS_PER_SEC;
            let rate = self.refill_rate;
            assert((secs as u128) * (rate as u128) <= 0xffff_ffff_ffff_ffffu128 * 0xffff_ffffu128) by (nonlinear_arith)
                requires secs <= 0xffff_ffff_ffff_ffffu64, rate <= 0xffff_ffffu32;
            let added: u128 = (secs as u128) * (rate as u128);
            let total: u128 = (self.tokens as u128) + added;
            self.tokens = if total <= self.capacity as u128 { total as u32 } else { self.capacity };
            proof {
                let d: int = now_nanos - self.last_refill_nanos;
                vstd::arithmetic::div_mod::lemma_fundamental_div_mod(d, NANOS_PER_SEC as int);
                assert(secs as int == d / (NANOS_PER_SEC as int));
                assert(0 <= d % (NANOS_PER_SEC as int));
                assert(secs * NANOS_PER_SEC <= d);
            }
            let used: u64 = secs * NANOS_PER_SEC;
            self.last_refill_nanos = self.last_refill_nanos + used;
        }
    }

    /// Refills the bucket as of `now_nanos`, then takes one token if any is
    /// left; returns whether a token was taken.
    pub fn try_acquire_at(&mut self, now_nanos: u64) -> (r: bool)
        requires
            old(self).wf(),
        ensures
            final(self).wf(),
            final(self).spec_capacity() == old(self).spec_capacity(),
            final(self).spec_refill_rate() == old(self).spec_refill_rate(),
            final(self).spec_last_refill() == refilled_at(old(self).spec_last_refill(), now_nanos),
            ({
                let avail = refilled_tokens(old(self).spec_tokens(), old(self).spec_capacity(),
                    old(self).spec_refill_rate(), old(self).spec_last_refill(), now_nanos);
                &&& r == (avail > 0)
                &&& final(self).spec_tokens() == if avail > 0 { (avail - 1) as u32 } else { 0 }
            }),
    {
        self.refill_tokens(now_nanos);
        if self.tokens > 0 {
            self.tokens = self.tokens - 1;
            true
        } else {
            false
        }
    }

    /// Refills as of the current clock reading and takes one token if any is
    /// left: the outcome is that of `try_acquire_at` at the clock reading,
    /// whatever it was.
    pub fn try_acquire(&mut self) -> (r: bool)
        requires
            old(self).wf(),
        ensures
            final(self).wf(),
            exists|now: u64| acquire_step(*old(self), *final(self), r, now),
    {
        let now = clock_nanos();
        let r = self.try_acquire_at(now);
        assert(acquire_step(*old(self), *self, r, now));
        r
    }
}

/// Between refills the bucket holds exactly the tokens it started with,
/// less the ones handed out: `n` grants within the same second leave
/// `tokens - n` when `n <= tokens`.
pub proof fn lemma_grants_consume_tokens(tokens: u32, capacity: u32, rate: u32, last: u64, now: u64)
    requires
        tokens <= capacity,
        now >= last,
        now - last < NANOS_PER_SEC,
    ensures
        refilled_tokens(tokens, capacity, rate, last, now) == tokens,
{
    assert((now - last) / (NANOS_PER_SEC as int) == 0);
}

// ---------------------------------------------------------------------------
// Synchronous circuit breaker
// ---------------------------------------------------------------------------

/// State of the synchronous circuit breaker.
#[derive(Debug, Clone, Copy, PartialEq, Eq, Structural)]
pub enum CircuitState {
    Closed,
    Open,
    HalfOpen,
}

/// Circuit breaker implementation
pub struct CircuitBreaker {
    failure_threshold: u32,
    recovery_timeout_ms: u64,
    failure_count: u32,
    last_failure_nanos: Option<u64>,
    state: CircuitState,
}

/// Whether an open breaker may try again at `now`: a failure was recorded,
/// the clock has not gone backwards since, and at least the recovery timeout
/// (in whole milliseconds) has elapsed.
pub open spec fn reset_due(last_failure: Option<u64>, timeout_ms: u64, now: u64) -> bool {
    match last_failure {
        Some(l) => now >= l && (now - l) / (NANOS_PER_MILLI as int) >= timeout_ms,
        None => false,
    }
}

/// `after` is `before` after a call at `now` (nanoseconds) whose operation
/// succeeded exactly when `succeeded`: an open breaker whose recovery
/// timeout has not elapsed records nothing; otherwise a success closes the
/// circuit and clears the failure count, and a failure counts, is stamped
/// with `now`, and opens the circuit once the count reaches the threshold.
pub open spec fn call_step(before: CircuitBreaker, after: CircuitBreaker, succeeded: bool, now: u64) -> bool {
    &&& after.spec_failure_threshold() == before.spec_failure_threshold()
    &&& after.spec_recovery_timeout_ms() == before.spec_recovery_timeout_ms()
    &&& if before.spec_state() == CircuitState::Open
        && !reset_due(before.spec_last_failure(), before.spec_recovery_timeout_ms(), now) {
        after == before
    } else if succeeded {
        &&& after.spec_state() == CircuitState::Closed
        &&& after.spec_failure_count() == 0
        &&& after.spec_last_failure() == before.spec_last_failure()
    } else {
        let count = before.spec_failure_count().saturating_add(1);
        &&& after.spec_failure_count() == count
        &&& after.spec_last_failure() == Some(now)
        &&& after.spec_state() == if count >= before.spec_failure_threshold() {
            CircuitState::Open
        } else if before.spec_state() == CircuitState::Closed {
            CircuitState::Closed
        } else {
            CircuitState::HalfOpen
        }
    }
}

impl CircuitBreaker {
    /// Failures needed to open the circuit.
    pub closed spec fn spec_failure_threshold(&self) -> u32 {
        self.failure_threshold
    }

    /// Time an open circuit waits before a trial call, in milliseconds.
    pub closed spec fn spec_recovery_timeout_ms(&self) -> u64 {
        self.recovery_timeout_ms
    }

    /// Failures counted since the last success.
    pub closed spec fn spec_failure_count(&self) -> u32 {
        self.failure_count
    }

    /// Clock reading (nanoseconds) of the last failure.
    pub closed spec fn spec_last_failure(&self) -> Option<u64> {
        self.last_failure_nanos
    }

    /// Current state.
    pub closed spec fn spec_state(&self) -> CircuitState {
        self.state
    }

    /// A closed breaker with no failures.
    pub fn new(failure_threshold: u32, recovery_timeout_ms: u64) -> (r: Self)
        ensures
            r.spec_failure_threshold() == failure_threshold,
            r.spec_recovery_timeout_ms() == recovery_timeout_ms,
            r.spec_failure_count() == 0,
            r.spec_last_failure() is None,
            r.spec_state() == CircuitState::Closed,
    {
        CircuitBreaker {
            failure_threshold,
            recovery_timeout_ms,
            failure_count: 0,
            last_failure_nanos: None,
            state: CircuitState::Closed,
        }
    }

    fn on_success(&mut self)
        ensures
            final(self).failure_count == 0,
            final(self).state == CircuitState::Closed,
            final(self).failure_threshold == old(self).failure_threshold,
            final(self).recovery_timeout_ms == old(self).recovery_timeout_ms,
            final(self).last_failure_nanos == old(self).last_failure_nanos,
    {
        self.failure_count = 0;
        self.state = CircuitState::Closed;
    }

    fn on_failure(&mut self, now_nanos: u64)
        ensures
            final(self).failure_count == old(self).failure_count.saturating_add(1),
            final(self).last_failure_nanos == Some(now_nanos),
            final(self).state == if old(self).failure_count.saturating_add(1) >= old(self).failure_threshold {
                CircuitState::Open
            } else {
                old(self).state
            },
            final(self).failure_threshold == old(self).failure_threshold,
            final(self).recovery_timeout_ms == old(self).recovery_timeout_ms,
    {
        self.failure_count = self.failure_count.saturating_add(1);
        self.last_failure_nanos = Some(now_nanos);
        if self.failure_count >= self.failure_threshold {
            self.state = CircuitState::Open;
        }
    }

    fn should_attempt_reset(&self, now_nanos: u64) -> (r: bool)
        ensures
            r == reset_due(self.last_failure_nanos, self.recovery_timeout_ms, now_nanos),
    {
        match self.last_failure_nanos {
            Some(l) => now_nanos >= l && (now_nanos - l) / NANOS_PER_MILLI >= self.recovery_timeout_ms,
            None => false,
        }
    }

    /// Runs `operation` under the breaker at time `now_nanos`.
    ///
    /// A closed or half-open breaker runs the operation and records its
    /// outcome: a success closes the circuit and clears the failure count; a
    /// failure counts, is stamped with `now_nanos`, and opens the circuit once
    /// the count reaches the threshold. An open breaker whose recovery timeout
    /// has elapsed becomes half-open and proceeds likewise; one whose timeout
    /// has not elapsed still runs the operation but records nothing.
    pub fn call_at<F, T, E>(&mut self, now_nanos: u64, operation: F) -> (r: Result<T, E>)
        where
            F: FnOnce() -> Result<T, E>,
        requires
            operation.requires(()),
        ensures
            operation.ensures((), r),
            final(self).spec_failure_threshold() == old(self).spec_failure_threshold(),
            final(self).spec_recovery_timeout_ms() == old(self).spec_recovery_timeout_ms(),
            (old(self).spec_state() == CircuitState::Open
                && !reset_due(old(self).spec_last_failure(), old(self).spec_recovery_timeout_ms(), now_nanos))
                ==> *final(self) == *old(self),
            !(old(self).spec_state() == CircuitState::Open
                && !reset_due(old(self).spec_last_failure(), old(self).spec_recovery_timeout_ms(), now_nanos))
                ==> match r {
                    Ok(_) => final(self).spec_state() == CircuitState::Closed
                        && final(self).spec_failure_count() == 0
                        && final(self).spec_last_failure() == old(self).spec_last_failure(),
                    Err(_) => {
                        let count = old(self).spec_failure_count().saturating_add(1);
                        &&& final(self).spec_failure_count() == count
                        &&& final(self).spec_last_failure() == Some(now_nanos)
                        &&& final(self).spec_state() == if count >= old(self).spec_failure_threshold() {
                            CircuitState::Open
                        } else if old(self).spec_state() == CircuitState::Closed {
                            CircuitState::Closed
                        } else {
                            CircuitState::HalfOpen
                        }
                    },
                },
    {
        match self.state {
            CircuitState::Open => {
                if self.should_attempt_reset(now_nanos) {
                    self.state = CircuitState::HalfOpen;
                } else {
                    return operation();
                }
            },
            _ => {},
        }
        match operation() {
            Ok(result) => {
                self.on_success();
                Ok(result)
            },
            Err(error) => {
                self.on_failure(now_nanos);
                Err(error)
            },
        }
    }

    /// Runs `operation` under the breaker at the current clock reading: the
    /// result is the operation's, and the breaker changes as `call_at` at
    /// that reading, whatever it was.
    pub fn call<F, T, E>(&mut self, operation: F) -> (r: Result<T, E>)
        where
            F: FnOnce() -> Result<T, E>,
        requires
            operation.requires(()),
        ensures
            operation.ensures((), r),
            exists|now: u64| #[trigger] call_step(*old(self), *final(self), r is Ok, now),
    {
        let now = clock_nanos();
        let r = self.call_at(now, operation);
        assert(call_step(*old(self), *self, r is Ok, now));
        r
    }

    /// Current state.
    pub fn state(&self) -> (r: CircuitState)
        ensures
            r == self.spec_state(),
    {
        self.state
    }
}

} // verus!
