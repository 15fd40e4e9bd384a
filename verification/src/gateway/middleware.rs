//! Decisions of the HTTP middleware: who a request comes from, and whether
//! that client is within its request budget. Times are whole seconds since
//! the Unix epoch, read by the caller.

use crate::common::utils::chars_of;
use crate::gateway::health::{char_is_whitespace, is_whitespace_char};
use crate::pipeline_guard::recovery_engine::{
    as_map, find_key, has_key_in, index_in, keys_distinct, lemma_index_unique, lemma_push_new,
    lemma_remove_at, lemma_update_value,
};
use vstd::prelude::*;
use vstd::string::StrSliceExecFns;
use vstd::string::StringExecFns;

verus! {

/// Client request tracking for rate limiting
#[derive(Debug, Clone)]
pub struct ClientRateLimit {
    pub requests: Vec<u64>,
    pub blocked_until: Option<u64>,
}

/// The state of a client: its request times and when its block ends.
pub open spec fn client_view(c: ClientRateLimit) -> (Seq<u64>, Option<u64>) {
    (c.requests@, c.blocked_until)
}

/// Whether a client blocked until `blocked_until` is still blocked at `now`.
pub open spec fn is_blocked_at(blocked_until: Option<u64>, now: u64) -> bool {
    match blocked_until {
        Some(t) => t > now,
        None => false,
    }
}

/// The request times that are still inside the window at `now`: those
/// after `now - window` (or after 0 when the window reaches back past it).
pub open spec fn recent(requests: Seq<u64>, window: u64, now: u64) -> Seq<u64> {
    let cutoff = if now >= window { (now - window) as u64 } else { 0u64 };
    requests.filter(|ts: u64| ts > cutoff)
}

/// `a + b`, or the largest value when that overflows.
pub open spec fn sat_add(a: u64, b: u64) -> u64 {
    if a + b <= u64::MAX { (a + b) as u64 } else { u64::MAX }
}

/// The outcome of a rate-limit check at `now` for a client in state `c`:
/// whether the request is let through, and the client's new state. A
/// blocked client is refused as it is; otherwise old requests are dropped,
/// and a client that already made `limit` requests in the window is refused
/// and blocked for twice the window, while any other is let through and the
/// request is recorded.
pub open spec fn rate_decision(c: (Seq<u64>, Option<u64>), limit: u32, window: u64, now: u64) -> (bool, (Seq<u64>, Option<u64>)) {
    if is_blocked_at(c.1, now) {
        (false, c)
    } else {
        let kept = recent(c.0, window, now);
        if kept.len() >= limit {
            (false, (kept, Some(sat_add(now, if window <= u64::MAX / 2 { (2 * window) as u64 } else { u64::MAX }))))
        } else {
            (true, (kept.push(now), c.1))
        }
    }
}

/// A request is let through only when fewer than `limit` requests of the
/// client are inside the window, so at most `limit` are recorded after it,
/// the newest being this one; a refused request is not recorded (the
/// client's requests are only pruned to the window).
pub proof fn lemma_rate_limit_bound(c: (Seq<u64>, Option<u64>), limit: u32, window: u64, now: u64)
    ensures
        rate_decision(c, limit, window, now).0 ==> rate_decision(c, limit, window, now).1.0.len() <= limit
            && rate_decision(c, limit, window, now).1.0.last() == now,
        !rate_decision(c, limit, window, now).0 ==> rate_decision(c, limit, window, now).1.0 == c.0
            || rate_decision(c, limit, window, now).1.0 == recent(c.0, window, now),
{
}

/// Rate limiting: at most `requests_per_window` requests per client within
/// any window of `window_seconds`.
pub struct RateLimitLayer {
    requests_per_window: u32,
    window_seconds: u64,
    clients: Vec<(String, ClientRateLimit)>,
}

fn keep_recent(requests: &Vec<u64>, window: u64, now: u64) -> (r: Vec<u64>)
    ensures
        r@ == recent(requests@, window, now),
{
    let cutoff = now.saturating_sub(window);
    let mut out: Vec<u64> = Vec::new();
    let mut i: usize = 0;
    while i < requests.len()
        invariant
            i <= requests@.len(),
            cutoff == (if now >= window { (now - window) as u64 } else { 0u64 }),
            out@ == requests@.subrange(0, i as int).filter(|ts: u64| ts > cutoff),
        decreases requests@.len() - i,
    {
        proof {
            reveal_with_fuel(Seq::filter, 1);
            assert(requests@.subrange(0, i + 1).drop_last() =~= requests@.subrange(0, i as int));
        }
        if requests[i] > cutoff {
            out.push(requests[i]);
        }
        i = i + 1;
    }
    proof {
        assert(requests@.subrange(0, requests@.len() as int) =~= requests@);
    }
    out
}

impl RateLimitLayer {
    closed spec fn table(&self) -> Seq<(Seq<char>, (Seq<u64>, Option<u64>))> {
        Seq::new(self.clients@.len(), |i: int| (self.clients@[i].0@, client_view(self.clients@[i].1)))
    }

    /// The state of every client seen.
    pub closed spec fn clients(&self) -> Map<Seq<char>, (Seq<u64>, Option<u64>)> {
        as_map(self.table())
    }

    /// Requests allowed per window.
    pub closed spec fn limit(&self) -> u32 {
        self.requests_per_window
    }

    /// Length of the window in seconds.
    pub closed spec fn window(&self) -> u64 {
        self.window_seconds
    }

    /// No client is listed twice.
    pub closed spec fn wf(&self) -> bool {
        keys_distinct(self.table())
    }

    /// A rate limiter that has seen no client.
    pub fn new(requests_per_window: u32, window_seconds: u64) -> (r: Self)
        ensures
            r.wf(),
            r.clients() == Map::<Seq<char>, (Seq<u64>, Option<u64>)>::empty(),
            r.limit() == requests_per_window,
            r.window() == window_seconds,
    {
        let r = RateLimitLayer { requests_per_window, window_seconds, clients: Vec::new() };
        proof {
            assert(r.clients() =~= Map::<Seq<char>, (Seq<u64>, Option<u64>)>::empty());
        }
        r
    }

    /// Decides at time `now` whether a request from `client_id` is let
    /// through, updating the client's state (a client seen for the first
    /// time starts with no requests and no block).
    pub fn check_rate_limit_at(&mut self, client_id: &str, now: u64) -> (r: bool)
        requires
            old(self).wf(),
        ensures
            final(self).wf(),
            final(self).limit() == old(self).limit(),
            final(self).window() == old(self).window(),
            ({
                let before = if old(self).clients().contains_key(client_id@) {
                    old(self).clients()[client_id@]
                } else {
                    (Seq::<u64>::empty(), None::<u64>)
                };
                let (allowed, after) = rate_decision(before, old(self).limit(), old(self).window(), now);
                &&& r == allowed
                &&& final(self).clients() == old(self).clients().insert(client_id@, after)
            }),
    {
        let ghost s = self.table();
        let index = match find_key(&self.clients, client_id) {
            Some(i) => {
                proof {
                    assert(s[i as int].0 == client_id@);
                    lemma_index_unique(s, i as int);
                }
                i
            },
            None => {
                proof {
                    assert(!has_key_in(s, client_id@)) by {
                        if has_key_in(s, client_id@) {
                            let j = index_in(s, client_id@);
                            assert(s[j].0 == self.clients@[j].0@);
                        }
                    }
                }
                let fresh = ClientRateLimit { requests: Vec::new(), blocked_until: None };
                let key = String::from_str(client_id);
                self.clients.push((key, fresh));
                proof {
                    lemma_push_new(s, client_id@, (Seq::<u64>::empty(), None::<u64>));
                    assert(self.table() =~= s.push((client_id@, (Seq::<u64>::empty(), None::<u64>))));
                    lemma_index_unique(self.table(), s.len() as int);
                }
                self.clients.len() - 1
            },
        };
        let ghost s1 = self.table();
        let ghost before = s1[index as int].1;
        let (key, mut client) = self.clients.remove(index);
        let blocked = match client.blocked_until {
            Some(t) => t > now,
            None => false,
        };
        let allowed;
        if blocked {
            allowed = false;
        } else {
            let kept = keep_recent(&client.requests, self.window_seconds, now);
            client.requests = kept;
            if client.requests.len() >= self.requests_per_window as usize {
                let span = if self.window_seconds <= u64::MAX / 2 { 2 * self.window_seconds } else { u64::MAX };
                client.blocked_until = Some(now.saturating_add(span));
                allowed = false;
            } else {
                client.requests.push(now);
                allowed = true;
            }
        }
        let ghost after = client_view(client);
        self.clients.insert(index, (key, client));
        proof {
            assert(self.table() =~= s1.update(index as int, (s1[index as int].0, after)));
            lemma_update_value(s1, index as int, after);
            assert(rate_decision(before, self.requests_per_window, self.window_seconds, now) == (allowed, after));
        }
        allowed
    }
}

/// Whether a client is kept by the periodic cleanup at `now`: it made a
/// request, and its latest request is less than an hour old.
pub open spec fn still_active(requests: Seq<u64>, now: u64) -> bool {
    requests.len() > 0 && exists|i: int| 0 <= i < requests.len() && now < requests[i] + 3600
}

fn is_still_active(requests: &Vec<u64>, now: u64) -> (r: bool)
    ensures
        r == still_active(requests@, now),
{
    let mut i: usize = 0;
    while i < requests.len()
        invariant
            i <= requests@.len(),
            forall|k: int| 0 <= k < i ==> now >= requests@[k] + 3600,
        decreases requests@.len() - i,
    {
        if (now as u128) < (requests[i] as u128) + 3600 {
            return true;
        }
        i = i + 1;
    }
    false
}

impl RateLimitLayer {
    /// The periodic cleanup at `now`: clients that made no request, or whose
    /// latest request is an hour old or older, are forgotten.
    pub fn cleanup_inactive_at(&mut self, now: u64)
        requires
            old(self).wf(),
        ensures
            final(self).wf(),
            final(self).limit() == old(self).limit(),
            final(self).window() == old(self).window(),
            forall|k: Seq<char>| #[trigger] final(self).clients().contains_key(k) <==> (old(self).clients().contains_key(k)
                && still_active(old(self).clients()[k].0, now)),
            forall|k: Seq<char>| #[trigger] final(self).clients().contains_key(k) ==> final(self).clients()[k] == old(self).clients()[k],
    {
        let ghost m0 = self.clients();
        let mut i: usize = 0;
        while i < self.clients.len()
            invariant
                self.wf(),
                self.requests_per_window == old(self).requests_per_window,
                self.window_seconds == old(self).window_seconds,
                i <= self.clients@.len(),
                forall|j: int| 0 <= j < i ==> still_active(#[trigger] self.table()[j].1.0, now),
                forall|k: Seq<char>| #[trigger] self.clients().contains_key(k) ==> m0.contains_key(k) && self.clients()[k] == m0[k],
                forall|k: Seq<char>| m0.contains_key(k) && still_active(m0[k].0, now) ==> #[trigger] self.clients().contains_key(k),
            decreases self.clients@.len() - i,
        {
            let ghost s = self.table();
            let keep = is_still_active(&self.clients[i].1.requests, now);
            if keep {
                proof {
                    assert(s[i as int].1.0 == self.clients@[i as int].1.requests@);
                }
                i = i + 1;
            } else {
                let ghost cur = self.clients();
                proof {
                    assert(s[i as int].1.0 == self.clients@[i as int].1.requests@);
                    lemma_index_unique(s, i as int);
                    assert(cur[s[i as int].0] == s[i as int].1);
                }
                let _ = self.clients.remove(i);
                proof {
                    lemma_remove_at(s, i as int);
                    assert(self.table() =~= s.remove(i as int));
                    assert(self.clients() == cur.remove(s[i as int].0));
                    assert forall|k: Seq<char>| m0.contains_key(k) && still_active(m0[k].0, now) implies #[trigger] self.clients().contains_key(k) by {
                        assert(cur.contains_key(k));
                        if k == s[i as int].0 {
                            assert(cur[k] == m0[k]);
                        }
                    }
                    assert forall|j: int| 0 <= j < i implies still_active(#[trigger] self.table()[j].1.0, now) by {
                        assert(self.table()[j] == s[j]);
                    }
                }
            }
        }
        proof {
            assert forall|k: Seq<char>| #[trigger] self.clients().contains_key(k) implies still_active(m0[k].0, now) by {
                let j = index_in(self.table(), k);
                lemma_index_unique(self.table(), j);
                assert(self.table()[j].0 == k);
            }
        }
    }
}

/// The client a request is attributed to: the API key of a bearer
/// `Authorization` header, else the first address of `X-Forwarded-For`
/// without surrounding white space, else `X-Real-IP`, else the address the
/// connection came from, else "unknown".
pub open spec fn client_id_of(
    authorization: Option<Seq<char>>,
    forwarded_for: Option<Seq<char>>,
    real_ip: Option<Seq<char>>,
    remote_ip: Option<Seq<char>>,
) -> Seq<char> {
    if authorization is Some && authorization->0.len() >= 7 && authorization->0.subrange(0, 7) == "Bearer "@ {
        authorization->0.subrange(7, authorization->0.len() as int)
    } else if forwarded_for is Some {
        trimmed(first_segment(forwarded_for->0))
    } else if real_ip is Some {
        real_ip->0
    } else if remote_ip is Some {
        remote_ip->0
    } else {
        "unknown"@
    }
}

/// The text before the first comma.
pub open spec fn first_segment(s: Seq<char>) -> Seq<char> {
    s.subrange(0, comma_index(s, 0))
}

/// The position of the first comma at or after `i` (the length when none).
pub open spec fn comma_index(s: Seq<char>, i: int) -> int
    decreases s.len() - i,
{
    if i < 0 || i >= s.len() || s[i] == ',' {
        i
    } else {
        comma_index(s, i + 1)
    }
}

/// Number of white-space characters at the start of `s` from `i`.
pub open spec fn leading_ws_end(s: Seq<char>, i: int) -> int
    decreases s.len() - i,
{
    if i < 0 || i >= s.len() || !is_whitespace_char(s[i]) {
        i
    } else {
        leading_ws_end(s, i + 1)
    }
}

/// The end of `s` without its trailing white space, scanning down from `j`.
pub open spec fn trailing_ws_start(s: Seq<char>, lo: int, j: int) -> int
    decreases j,
{
    if j <= lo || j <= 0 || j > s.len() || !is_whitespace_char(s[j - 1]) {
        j
    } else {
        trailing_ws_start(s, lo, j - 1)
    }
}

/// `s` without leading and trailing white space (`str::trim`).
pub open spec fn trimmed(s: Seq<char>) -> Seq<char> {
    let lo = leading_ws_end(s, 0);
    s.subrange(lo, trailing_ws_start(s, lo, s.len() as int))
}

proof fn lemma_comma_index_bounds(s: Seq<char>, i: int)
    requires
        0 <= i <= s.len(),
    ensures
        i <= comma_index(s, i) <= s.len(),
    decreases s.len() - i,
{
    if i < s.len() && s[i] != ',' {
        lemma_comma_index_bounds(s, i + 1);
    }
}

proof fn lemma_leading_bounds(s: Seq<char>, i: int)
    requires
        0 <= i <= s.len(),
    ensures
        i <= leading_ws_end(s, i) <= s.len(),
    decreases s.len() - i,
{
    if i < s.len() && is_whitespace_char(s[i]) {
        lemma_leading_bounds(s, i + 1);
    }
}

proof fn lemma_trailing_bounds(s: Seq<char>, lo: int, j: int)
    requires
        0 <= lo <= j <= s.len(),
    ensures
        lo <= trailing_ws_start(s, lo, j) <= j,
    decreases j,
{
    if j > lo && is_whitespace_char(s[j - 1]) {
        lemma_trailing_bounds(s, lo, j - 1);
    }
}

fn first_segment_trimmed(s: &str) -> (r: String)
    ensures
        r@ == trimmed(first_segment(s@)),
{
    let cs = chars_of(s);
    let ghost full = s@;
    proof {
        lemma_comma_index_bounds(full, 0);
    }
    let mut end: usize = 0;
    while end < cs.len() && cs[end] != ','
        invariant
            cs@ == full,
            end <= cs@.len(),
            comma_index(full, 0) == comma_index(full, end as int),
        decreases cs@.len() - end,
    {
        end = end + 1;
    }
    let ghost seg = full.subrange(0, end as int);
    proof {
        assert(comma_index(full, end as int) == end);
        assert(first_segment(full) == seg);
        lemma_leading_bounds(seg, 0);
    }
    let mut lo: usize = 0;
    while lo < end && char_is_whitespace(cs[lo])
        invariant
            cs@ == full,
            end <= cs@.len(),
            seg == full.subrange(0, end as int),
            lo <= end,
            leading_ws_end(seg, 0) == leading_ws_end(seg, lo as int),
        decreases end - lo,
    {
        proof {
            assert(seg[lo as int] == cs@[lo as int]);
        }
        lo = lo + 1;
    }
    proof {
        if lo < end {
            assert(seg[lo as int] == cs@[lo as int]);
        }
        assert(leading_ws_end(seg, lo as int) == lo);
        lemma_trailing_bounds(seg, lo as int, end as int);
    }
    let mut hi: usize = end;
    while hi > lo && char_is_whitespace(cs[hi - 1])
        invariant
            cs@ == full,
            end <= cs@.len(),
            seg == full.subrange(0, end as int),
            lo <= hi <= end,
            lo == leading_ws_end(seg, 0),
            trailing_ws_start(seg, lo as int, end as int) == trailing_ws_start(seg, lo as int, hi as int),
        decreases hi,
    {
        proof {
            assert(seg[hi - 1] == cs@[hi - 1]);
        }
        hi = hi - 1;
    }
    proof {
        if hi > lo {
            assert(seg[hi - 1] == cs@[hi - 1]);
        }
        assert(trailing_ws_start(seg, lo as int, hi as int) == hi);
        assert(seg.subrange(lo as int, hi as int) =~= full.subrange(lo as int, hi as int));
    }
    String::from_str(s.substring_char(lo, hi))
}

/// Extract the client identifier used for rate limiting from the request's
/// headers (as text) and the peer address.
pub fn extract_client_id(
    authorization: Option<&str>,
    forwarded_for: Option<&str>,
    real_ip: Option<&str>,
    remote_ip: Option<&str>,
) -> (r: String)
    ensures
        r@ == client_id_of(
            match authorization {
                Some(a) => Some(a@),
                None => None,
            },
            match forwarded_for {
                Some(f) => Some(f@),
                None => None,
            },
            match real_ip {
                Some(x) => Some(x@),
                None => None,
            },
            match remote_ip {
                Some(x) => Some(x@),
                None => None,
            },
        ),
{
    if let Some(auth) = authorization {
        let cs = chars_of(auth);
        let prefix = chars_of("Bearer ");
        proof {
            reveal_strlit("Bearer ");
        }
        if cs.len() >= 7 {
            let mut same = true;
            let mut i: usize = 0;
            while i < 7
                invariant
                    cs@ == auth@,
                    prefix@ == "Bearer "@,
                    prefix@.len() == 7,
                    cs@.len() >= 7,
                    i <= 7,
                    same == (forall|k: int| 0 <= k < i ==> cs@[k] == prefix@[k]),
                decreases 7 - i,
            {
                if cs[i] != prefix[i] {
                    same = false;
                }
                i = i + 1;
            }
            if same {
                proof {
                    assert(auth@.subrange(0, 7) =~= "Bearer "@);
                }
                return String::from_str(auth.substring_char(7, cs.len()));
            }
            proof {
                assert(auth@.subrange(0, 7) != "Bearer "@) by {
                    let k = choose|k: int| 0 <= k < 7 && cs@[k] != prefix@[k];
                    assert(auth@.subrange(0, 7)[k] == cs@[k]);
                }
            }
        }
    }
    if let Some(forwarded) = forwarded_for {
        return first_segment_trimmed(forwarded);
    }
    if let Some(ip) = real_ip {
        return String::from_str(ip);
    }
    if let Some(ip) = remote_ip {
        return String::from_str(ip);
    }
    String::from_str("unknown")
}

} // verus!
