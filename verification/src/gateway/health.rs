//! Reading the kernel's resource counters: the memory totals of
//! `/proc/meminfo` and the CPU time counters on the first line of
//! `/proc/stat`. The files are read by the caller; this module parses their
//! text.

use crate::common::utils::chars_of;
use vstd::prelude::*;

verus! {

/// Whether a character has the Unicode `White_Space` property, which is what
/// `char::is_whitespace` tests: tab, line feed, vertical tab, form feed,
/// carriage return, space, next line, no-break space, ogham space mark, the
/// spaces U+2000 to U+200A, line and paragraph separator, narrow no-break
/// space, medium mathematical space and ideographic space.
pub open spec fn is_whitespace_char(c: char) -> bool {
    ||| ('\t' <= c && c <= '\r')
    ||| c == ' '
    ||| c == '\u{85}'
    ||| c == '\u{A0}'
    ||| c == '\u{1680}'
    ||| ('\u{2000}' <= c && c <= '\u{200A}')
    ||| c == '\u{2028}'
    ||| c == '\u{2029}'
    ||| c == '\u{202F}'
    ||| c == '\u{205F}'
    ||| c == '\u{3000}'
}

/// Whether a character is white space, as `char::is_whitespace`.
pub(crate) fn char_is_whitespace(c: char) -> (r: bool)
    ensures
        r == is_whitespace_char(c),
{
    ('\t' <= c && c <= '\r') || c == ' ' || c == '\u{85}' || c == '\u{A0}' || c == '\u{1680}'
        || ('\u{2000}' <= c && c <= '\u{200A}') || c == '\u{2028}' || c == '\u{2029}' || c == '\u{202F}'
        || c == '\u{205F}' || c == '\u{3000}'
}

/// The end of the run of non-white-space characters of `s` that starts at `i`.
pub open spec fn run_end(s: Seq<char>, i: int) -> int
    decreases s.len() - i,
{
    if i < 0 || i >= s.len() || is_whitespace_char(s[i]) {
        i
    } else {
        run_end(s, i + 1)
    }
}

/// The white-space separated words of `s` from position `i` on.
pub open spec fn words_from(s: Seq<char>, i: int) -> Seq<Seq<char>>
    decreases s.len() - i,
{
    if i < 0 || i >= s.len() {
        Seq::empty()
    } else if is_whitespace_char(s[i]) {
        words_from(s, i + 1)
    } else {
        let e = run_end(s, i);
        if i < e <= s.len() {
            seq![s.subrange(i, e)] + words_from(s, e)
        } else {
            Seq::empty()
        }
    }
}

/// The white-space separated words of `s` (`str::split_whitespace`).
pub open spec fn words(s: Seq<char>) -> Seq<Seq<char>> {
    words_from(s, 0)
}

proof fn lemma_run_end_bounds(s: Seq<char>, i: int)
    requires
        0 <= i <= s.len(),
    ensures
        i <= run_end(s, i) <= s.len(),
        forall|k: int| i <= k < run_end(s, i) ==> !is_whitespace_char(#[trigger] s[k]),
        run_end(s, i) < s.len() ==> is_whitespace_char(s[run_end(s, i)]),
    decreases s.len() - i,
{
    if i < s.len() && !is_whitespace_char(s[i]) {
        lemma_run_end_bounds(s, i + 1);
    }
}

/// The white-space separated words of `s`.
pub fn split_words(s: &str) -> (r: Vec<Vec<char>>)
    ensures
        r@.len() == words(s@).len(),
        forall|i: int| 0 <= i < r@.len() ==> #[trigger] r@[i]@ == words(s@)[i],
{
    let cs = chars_of(s);
    split_char_words(&cs)
}

/// The white-space separated words of a line of characters.
fn split_char_words(line: &Vec<char>) -> (r: Vec<Vec<char>>)
    ensures
        r@.len() == words(line@).len(),
        forall|i: int| 0 <= i < r@.len() ==> #[trigger] r@[i]@ == words(line@)[i],
{
    let ghost s = line@;
    let cs = line;
    let n = cs.len();
    let mut out: Vec<Vec<char>> = Vec::new();
    let mut i: usize = 0;
    while i < n
        invariant
            cs@ == s,
            n == cs.len(),
            i <= n,
            out@.len() + words_from(s, i as int).len() == words(s).len(),
            forall|k: int| 0 <= k < out@.len() ==> #[trigger] out@[k]@ == words(s)[k],
            forall|k: int|
                0 <= k < words_from(s, i as int).len() ==> #[trigger] words_from(s, i as int)[k]
                    == words(s)[out@.len() + k],
        decreases n - i,
    {
        if char_is_whitespace(cs[i]) {
            i = i + 1;
        } else {
            proof {
                lemma_run_end_bounds(s, i as int);
            }
            let start = i;
            let mut word: Vec<char> = Vec::new();
            while i < n && !char_is_whitespace(cs[i])
                invariant
                    cs@ == s,
                    n == cs.len(),
                    start <= i <= n,
                    run_end(s, start as int) == run_end(s, i as int),
                    word@ == s.subrange(start as int, i as int),
                decreases n - i,
            {
                word.push(cs[i]);
                proof {
                    assert(word@ =~= s.subrange(start as int, i + 1));
                }
                i = i + 1;
            }
            proof {
                assert(run_end(s, i as int) == i);
                let w = words_from(s, start as int);
                assert(w == seq![s.subrange(start as int, i as int)] + words_from(s, i as int));
                assert(w[0] == word@);
                assert forall|k: int| 0 <= k < words_from(s, i as int).len() implies #[trigger] words_from(
                    s,
                    i as int,
                )[k] == words(s)[out@.len() + 1 + k] by {
                    assert(w[k + 1] == words_from(s, i as int)[k]);
                }
            }
            out.push(word);
        }
    }
    out
}

/// The value of a decimal digit character.
pub open spec fn digit_value(c: char) -> int {
    (c as u32) - ('0' as u32)
}

/// Whether every character of `d` is an ASCII digit.
pub open spec fn all_digits(d: Seq<char>) -> bool {
    forall|i: int| 0 <= i < d.len() ==> '0' <= #[trigger] d[i] <= '9'
}

/// The number written by the digits `d`.
pub open spec fn decimal_value(d: Seq<char>) -> nat
    decreases d.len(),
{
    if d.len() == 0 {
        0
    } else {
        (decimal_value(d.drop_last()) * 10 + digit_value(d.last())) as nat
    }
}

/// The digits of an unsigned number: the text without a leading `+`.
pub open spec fn unsigned_digits(t: Seq<char>) -> Seq<char> {
    if t.len() > 0 && t[0] == '+' {
        t.drop_first()
    } else {
        t
    }
}

/// What `str::parse::<u64>` makes of `t`: the number, when `t` is one or
/// more ASCII digits, optionally after a `+`, whose value fits in a `u64`.
pub open spec fn parsed_u64(t: Seq<char>) -> Option<u64> {
    let d = unsigned_digits(t);
    if d.len() > 0 && all_digits(d) && decimal_value(d) <= u64::MAX {
        Some(decimal_value(d) as u64)
    } else {
        None
    }
}

proof fn lemma_decimal_value_grows(d: Seq<char>, c: char)
    requires
        '0' <= c <= '9',
    ensures
        decimal_value(d.push(c)) == decimal_value(d) * 10 + digit_value(c),
        decimal_value(d.push(c)) >= decimal_value(d),
{
    assert(d.push(c).drop_last() =~= d);
}

proof fn lemma_prefix_value_bounded(d: Seq<char>, k: int)
    requires
        all_digits(d),
        0 <= k <= d.len(),
    ensures
        decimal_value(d.subrange(0, k)) <= decimal_value(d),
    decreases d.len() - k,
{
    if k < d.len() {
        lemma_prefix_value_bounded(d, k + 1);
        assert(d.subrange(0, k + 1) =~= d.subrange(0, k).push(d[k]));
        lemma_decimal_value_grows(d.subrange(0, k), d[k]);
    } else {
        assert(d.subrange(0, k) =~= d);
    }
}

/// Parses an unsigned decimal number as `str::parse::<u64>` does.
pub fn parse_u64(t: &Vec<char>) -> (r: Option<u64>)
    ensures
        r == parsed_u64(t@),
{
    let mut start: usize = 0;
    if t.len() > 0 && t[0] == '+' {
        start = 1;
    }
    let ghost d = unsigned_digits(t@);
    proof {
        assert(d =~= t@.subrange(start as int, t@.len() as int));
    }
    if start >= t.len() {
        return None;
    }
    let mut value: u64 = 0;
    let mut i: usize = start;
    while i < t.len()
        invariant
            d == unsigned_digits(t@),
            d == t@.subrange(start as int, t@.len() as int),
            start <= i <= t@.len(),
            start < t@.len(),
            all_digits(d.subrange(0, i - start)),
            value == decimal_value(d.subrange(0, i - start)),
        decreases t@.len() - i,
    {
        let c = t[i];
        if c < '0' || c > '9' {
            proof {
                assert(d[i - start] == c);
                assert(!all_digits(d));
            }
            return None;
        }
        let digit: u64 = (c as u32 - '0' as u32) as u64;
        proof {
            assert(d.subrange(0, i - start + 1) =~= d.subrange(0, i - start).push(c));
            lemma_decimal_value_grows(d.subrange(0, i - start), c);
        }
        if value > (u64::MAX - digit) / 10 {
            proof {
                assert(decimal_value(d.subrange(0, i - start + 1)) > u64::MAX) by (nonlinear_arith)
                    requires
                        value > (u64::MAX - digit) / 10,
                        decimal_value(d.subrange(0, i - start + 1)) == value * 10 + digit,
                        digit <= 9,
                ;
                if all_digits(d) {
                    lemma_prefix_value_bounded(d, i - start + 1);
                }
            }
            return None;
        }
        proof {
            assert(value * 10 + digit <= u64::MAX) by (nonlinear_arith)
                requires
                    value <= (u64::MAX - digit) / 10,
                    digit <= 9,
            ;
        }
        value = value * 10 + digit;
        i = i + 1;
        proof {
            assert(all_digits(d.subrange(0, i - start)));
        }
    }
    proof {
        assert(d.subrange(0, (t@.len() - start) as int) =~= d);
    }
    Some(value)
}

/// The position of the first line feed of `s` at or after `i` (the length
/// when there is none).
pub open spec fn line_end(s: Seq<char>, i: int) -> int
    decreases s.len() - i,
{
    if i < 0 || i >= s.len() || s[i] == '\n' {
        i
    } else {
        line_end(s, i + 1)
    }
}

/// The lines of `s` that start at or after position `i`, split at line
/// feeds.
pub open spec fn lines_from(s: Seq<char>, i: int) -> Seq<Seq<char>>
    decreases s.len() + 1 - i,
{
    let e = line_end(s, i);
    if i < 0 || i > s.len() || e < i || e > s.len() {
        Seq::empty()
    } else {
        seq![s.subrange(i, e)] + lines_from(s, e + 1)
    }
}

/// The lines of `s`, split at line feeds. (A carriage return before a line
/// feed stays at the end of its line; it is white space to every use made
/// of lines here.)
pub open spec fn lines(s: Seq<char>) -> Seq<Seq<char>> {
    lines_from(s, 0)
}

proof fn lemma_line_end_bounds(s: Seq<char>, i: int)
    requires
        0 <= i <= s.len(),
    ensures
        i <= line_end(s, i) <= s.len(),
        forall|k: int| i <= k < line_end(s, i) ==> #[trigger] s[k] != '\n',
        line_end(s, i) < s.len() ==> s[line_end(s, i)] == '\n',
    decreases s.len() - i,
{
    if i < s.len() && s[i] != '\n' {
        lemma_line_end_bounds(s, i + 1);
    }
}

/// Whether `s` starts with `p`.
pub open spec fn starts_with(s: Seq<char>, p: Seq<char>) -> bool {
    p.len() <= s.len() && s.subrange(0, p.len() as int) == p
}

fn chars_start_with(s: &Vec<char>, p: &str) -> (r: bool)
    ensures
        r == starts_with(s@, p@),
{
    let pc = chars_of(p);
    if pc.len() > s.len() {
        return false;
    }
    let mut i: usize = 0;
    while i < pc.len()
        invariant
            pc@ == p@,
            pc@.len() <= s@.len(),
            i <= pc@.len(),
            forall|k: int| 0 <= k < i ==> s@[k] == pc@[k],
        decreases pc@.len() - i,
    {
        if s[i] != pc[i] {
            proof {
                assert(s@.subrange(0, p@.len() as int)[i as int] != p@[i as int]);
            }
            return false;
        }
        i = i + 1;
    }
    proof {
        assert(s@.subrange(0, p@.len() as int) =~= p@);
    }
    true
}

/// The number in the second word of a line, 0 when there is no second word
/// or it is not a number.
pub open spec fn second_word_value(line: Seq<char>) -> u64 {
    let w = words(line);
    if w.len() >= 2 {
        match parsed_u64(w[1]) {
            Some(v) => v,
            None => 0,
        }
    } else {
        0
    }
}

/// The value of the last of `ls` that starts with `key`, 0 when none does.
pub open spec fn last_keyed_value(ls: Seq<Seq<char>>, key: Seq<char>) -> u64
    decreases ls.len(),
{
    if ls.len() == 0 {
        0
    } else if starts_with(ls.last(), key) {
        second_word_value(ls.last())
    } else {
        last_keyed_value(ls.drop_last(), key)
    }
}

fn second_word_value_of(line: &Vec<char>) -> (r: u64)
    ensures
        r == second_word_value(line@),
{
    let w = split_char_words(line);
    if w.len() >= 2 {
        match parse_u64(&w[1]) {
            Some(v) => v,
            None => 0,
        }
    } else {
        0
    }
}

/// Memory totals read from `/proc/meminfo`, in kilobytes.
#[derive(Debug, Clone, Copy, PartialEq, Eq, Structural)]
pub struct MemInfoKb {
    pub total_kb: u64,
    pub available_kb: u64,
}

impl MemInfoKb {
    /// Total memory in whole megabytes (1024 kB).
    pub fn total_mb(&self) -> (r: u64)
        ensures
            r == self.total_kb / 1024,
    {
        self.total_kb / 1024
    }

    /// Available memory in whole megabytes (1024 kB).
    pub fn available_mb(&self) -> (r: u64)
        ensures
            r == self.available_kb / 1024,
    {
        self.available_kb / 1024
    }
}

/// Reads `MemTotal` and `MemAvailable` from the text of `/proc/meminfo`:
/// the number after the key on the last line that starts with the key
/// (with its colon), 0 when there is none or it is not a number.
pub fn parse_meminfo(text: &str) -> (r: MemInfoKb)
    ensures
        r.total_kb == last_keyed_value(lines(text@), "MemTotal:"@),
        r.available_kb == last_keyed_value(lines(text@), "MemAvailable:"@),
{
    let cs = chars_of(text);
    let n = cs.len();
    let ghost s = text@;
    let ghost all = lines(s);
    let mut total: u64 = 0;
    let mut available: u64 = 0;
    let mut i: usize = 0;
    let ghost mut done: Seq<Seq<char>> = Seq::empty();
    loop
        invariant_except_break
            cs@ == s,
            n == s.len(),
            i <= n,
            done + lines_from(s, i as int) == all,
            total == last_keyed_value(done, "MemTotal:"@),
            available == last_keyed_value(done, "MemAvailable:"@),
        ensures
            total == last_keyed_value(all, "MemTotal:"@),
            available == last_keyed_value(all, "MemAvailable:"@),
        decreases n - i,
    {
        proof {
            lemma_line_end_bounds(s, i as int);
        }
        let start = i;
        let mut line: Vec<char> = Vec::new();
        while i < n && cs[i] != '\n'
            invariant
                cs@ == s,
                n == s.len(),
                start <= i <= n,
                line_end(s, start as int) == line_end(s, i as int),
                line@ == s.subrange(start as int, i as int),
            decreases n - i,
        {
            line.push(cs[i]);
            proof {
                assert(line@ =~= s.subrange(start as int, i + 1));
            }
            i = i + 1;
        }
        proof {
            assert(line_end(s, i as int) == i);
            assert(lines_from(s, start as int) == seq![line@] + lines_from(s, i + 1));
        }
        if chars_start_with(&line, "MemTotal:") {
            total = second_word_value_of(&line);
        } else if chars_start_with(&line, "MemAvailable:") {
            available = second_word_value_of(&line);
        }
        proof {
            let next = done.push(line@);
            assert(next.drop_last() =~= done);
            assert(next + lines_from(s, i + 1) =~= done + lines_from(s, start as int));
            if starts_with(line@, "MemTotal:"@) && starts_with(line@, "MemAvailable:"@) {
                reveal_strlit("MemTotal:");
                reveal_strlit("MemAvailable:");
                assert(line@.subrange(0, 9)[3] == line@[3]);
                assert(line@.subrange(0, 13)[3] == line@[3]);
                assert(false);
            }
            done = next;
        }
        if i == n {
            proof {
                assert(lines_from(s, i + 1) =~= Seq::<Seq<char>>::empty());
                assert(done =~= all);
            }
            break;
        }
        i = i + 1;
    }
    MemInfoKb { total_kb: total, available_kb: available }
}

/// CPU time counters from the first line of `/proc/stat`.
#[derive(Debug, Clone, Copy, PartialEq, Eq, Structural)]
pub struct CpuTimes {
    /// The fourth counter, time spent idle.
    pub idle: u64,
    /// The sum of the first four counters (user, nice, system, idle).
    pub total: u128,
}

/// The counters of an aggregate `cpu ` line: present when its first four
/// numbers all parse.
pub open spec fn cpu_times_of(line: Seq<char>) -> Option<CpuTimes> {
    let w = words(line);
    if starts_with(line, "cpu "@) && w.len() >= 5 && parsed_u64(w[1]) is Some && parsed_u64(w[2]) is Some
        && parsed_u64(w[3]) is Some && parsed_u64(w[4]) is Some {
        Some(
            CpuTimes {
                idle: parsed_u64(w[4])->Some_0,
                total: (parsed_u64(w[1])->Some_0 + parsed_u64(w[2])->Some_0 + parsed_u64(w[3])->Some_0
                    + parsed_u64(w[4])->Some_0) as u128,
            },
        )
    } else {
        None
    }
}

/// Reads the aggregate CPU counters from the text of `/proc/stat`: its
/// first line must start with `cpu ` and carry four numbers after the word
/// `cpu`.
pub fn parse_cpu_times(stat: &str) -> (r: Option<CpuTimes>)
    ensures
        r == cpu_times_of(lines(stat@)[0]),
{
    let cs = chars_of(stat);
    let ghost s = stat@;
    proof {
        lemma_line_end_bounds(s, 0);
    }
    let mut line: Vec<char> = Vec::new();
    let mut i: usize = 0;
    while i < cs.len() && cs[i] != '\n'
        invariant
            cs@ == s,
            i <= s.len(),
            line_end(s, 0) == line_end(s, i as int),
            line@ == s.subrange(0, i as int),
        decreases s.len() - i,
    {
        line.push(cs[i]);
        proof {
            assert(line@ =~= s.subrange(0, i + 1));
        }
        i = i + 1;
    }
    proof {
        assert(line_end(s, i as int) == i);
        assert(lines(s)[0] == line@);
    }
    if !chars_start_with(&line, "cpu ") {
        return None;
    }
    let w = split_char_words(&line);
    if w.len() < 5 {
        return None;
    }
    let user = parse_u64(&w[1]);
    let nice = parse_u64(&w[2]);
    let system = parse_u64(&w[3]);
    let idle = parse_u64(&w[4]);
    match (user, nice, system, idle) {
        (Some(a), Some(b), Some(c), Some(d)) => Some(
            CpuTimes { idle: d, total: (a as u128) + (b as u128) + (c as u128) + (d as u128) },
        ),
        _ => None,
    }
}

} // verus!
