use vstd::prelude::*;

use crate::config::{valid_time, MAX_LIFETIME_SECONDS};
use crate::error::AuthError;
use crate::strutil::str_eq;

verus! {

/// One key's sliding-window counter.
#[derive(Debug)]
pub struct RateLimitEntry {
    pub key: String,
    pub count: u32,
    pub reset_at: i64,
}

/// A key is present in the table.
pub open spec fn has_key(s: Seq<RateLimitEntry>, key: Seq<char>) -> bool {
    exists|i: int| 0 <= i < s.len() && s[i].key@ == key
}

/// The index of a key; meaningful only under the unique-keys invariant.
pub open spec fn key_at(s: Seq<RateLimitEntry>, key: Seq<char>) -> int {
    choose|i: int| 0 <= i < s.len() && s[i].key@ == key
}

/// The counter state a request at `now` is judged against: a missing or
/// elapsed window counts from zero with a fresh window end.
pub open spec fn effective(entry: Option<(u32, i64)>, now: i64, window_seconds: u64) -> (u32, i64) {
    match entry {
        None => (0u32, (now + window_seconds) as i64),
        Some((c, r)) => if now > r {
            (0u32, (now + window_seconds) as i64)
        } else {
            (c, r)
        },
    }
}

/// The counter after one request is judged: an admitted request
/// increments it, a refused one leaves it as it stands.
pub open spec fn next_count(c: u32, max_requests: u32) -> u32 {
    if c < max_requests {
        (c + 1) as u32
    } else {
        c
    }
}

/// The counter after `k` requests within one window, starting fresh.
pub open spec fn count_after(k: nat, max_requests: u32) -> u32
    decreases k,
{
    if k == 0 {
        0u32
    } else {
        next_count(count_after((k - 1) as nat, max_requests), max_requests)
    }
}

/// A request-admission gate bounding attempts per key within a sliding
/// window. Windows reset lazily, on the first observation after they
/// elapse; no background timer is required.
pub struct RateLimitMiddleware {
    pub limits: Vec<RateLimitEntry>,
    pub max_requests: u32,
    pub window_seconds: u64,
}

impl RateLimitMiddleware {
    /// Bounded window length, and one counter per key.
    pub open spec fn wf(&self) -> bool {
        &&& self.window_seconds <= MAX_LIFETIME_SECONDS
        &&& forall|i: int, j: int| 0 <= i < j < self.limits@.len()
            ==> (#[trigger] self.limits@[i].key@) != (#[trigger] self.limits@[j].key@)
    }

    /// An empty table with the given bound and window.
    pub fn new(max_requests: u32, window_seconds: u64) -> (r: RateLimitMiddleware)
        requires
            window_seconds <= MAX_LIFETIME_SECONDS,
        ensures
            r.wf(),
            r.max_requests == max_requests,
            r.window_seconds == window_seconds,
            r.limits@ =~= Seq::<RateLimitEntry>::empty(),
    {
        RateLimitMiddleware { limits: Vec::new(), max_requests, window_seconds }
    }

    /// Judges one request for `key` at `now`: admitted and counted iff the
    /// window's effective count is still below the bound, refused with
    /// `RateLimitExceeded` otherwise. Either way the key's entry is
    /// normalized to the effective window; no other entry moves.
    pub fn check_and_increment(&mut self, key: &str, now: i64) -> (r: Result<(), AuthError>)
        requires
            old(self).wf(),
            valid_time(now),
        ensures
            final(self).wf(),
            final(self).max_requests == old(self).max_requests,
            final(self).window_seconds == old(self).window_seconds,
            r matches Err(e) ==> e == AuthError::RateLimitExceeded,
            ({
                let entry0 = if has_key(old(self).limits@, key@) {
                    let i = key_at(old(self).limits@, key@);
                    Some((old(self).limits@[i].count, old(self).limits@[i].reset_at))
                } else {
                    None
                };
                let eff = effective(entry0, now, old(self).window_seconds);
                &&& (r is Ok) == (eff.0 < old(self).max_requests)
                &&& has_key(final(self).limits@, key@)
                &&& ({
                    let k = key_at(final(self).limits@, key@);
                    &&& final(self).limits@[k].count == next_count(eff.0, old(self).max_requests)
                    &&& final(self).limits@[k].reset_at == eff.1
                })
                &&& if has_key(old(self).limits@, key@) {
                    &&& final(self).limits@.len() == old(self).limits@.len()
                    &&& key_at(final(self).limits@, key@) == key_at(old(self).limits@, key@)
                    &&& forall|j: int| 0 <= j < old(self).limits@.len()
                        && j != key_at(old(self).limits@, key@)
                        ==> final(self).limits@[j] == old(self).limits@[j]
                } else {
                    &&& final(self).limits@.len() == old(self).limits@.len() + 1
                    &&& forall|j: int| 0 <= j < old(self).limits@.len()
                        ==> final(self).limits@[j] == old(self).limits@[j]
                }
            }),
    {
        let n = self.limits.len();
        let mut idx: usize = 0;
        while idx < n && !str_eq(self.limits[idx].key.as_str(), key)
            invariant
                n == self.limits@.len(),
                idx <= n,
                self.limits@ == old(self).limits@,
                forall|j: int| 0 <= j < idx ==> (#[trigger] self.limits@[j].key@) != key@,
            decreases n - idx,
        {
            idx = idx + 1;
        }
        let found = idx < n;
        proof {
            if found {
                assert(has_key(old(self).limits@, key@));
                assert(key_at(old(self).limits@, key@) == idx as int) by {
                    let k = key_at(old(self).limits@, key@);
                    if k != idx as int {
                        assert(old(self).limits@[k].key@ == key@);
                    }
                }
            } else {
                assert(!has_key(old(self).limits@, key@));
            }
        }
        if !found {
            let entry = RateLimitEntry {
                key: key.to_owned(),
                count: 0,
                reset_at: now + self.window_seconds as i64,
            };
            self.limits.push(entry);
        }
        let i = if found { idx } else { n };
        assert(self.limits@[i as int].key@ == key@);
        if now > self.limits[i].reset_at {
            self.limits[i].count = 0;
            self.limits[i].reset_at = now + self.window_seconds as i64;
        }
        proof {
            assert(has_key(self.limits@, key@));
            assert(key_at(self.limits@, key@) == i as int) by {
                let k = key_at(self.limits@, key@);
                if k != i as int {
                    assert(self.limits@[k].key@ == key@);
                }
            }
        }
        if self.limits[i].count >= self.max_requests {
            proof {
                assert(key_at(final(self).limits@, key@) == i as int) by {
                    let k = key_at(final(self).limits@, key@);
                    if k != i as int {
                        assert(final(self).limits@[k].key@ == key@);
                    }
                }
            }
            return Err(AuthError::RateLimitExceeded);
        }
        self.limits[i].count = self.limits[i].count + 1;
        proof {
            assert(key_at(final(self).limits@, key@) == i as int) by {
                let k = key_at(final(self).limits@, key@);
                if k != i as int {
                    assert(final(self).limits@[k].key@ == key@);
                }
            }
        }
        Ok(())
    }
}

/// The identity a request is limited by: the API key when one is present,
/// else the first address of the forwarded-for list, else a fixed bucket.
pub open spec fn is_first_comma(s: Seq<char>, i: int) -> bool {
    0 <= i < s.len() && s[i] == ',' && forall|j: int| 0 <= j < i ==> s[j] != ','
}

/// The forwarded-for list up to its first comma.
pub open spec fn first_segment(s: Seq<char>) -> Seq<char> {
    if exists|i: int| is_first_comma(s, i) {
        s.subrange(0, choose|i: int| is_first_comma(s, i))
    } else {
        s
    }
}

/// The rate-limit key for a request, from the header values the
/// embedding layer extracted.
pub fn derive_rate_limit_key(api_key: Option<&str>, forwarded_for: Option<&str>) -> (r: String)
    ensures
        r@ == match (api_key, forwarded_for) {
            (Some(k), _) => "api_key:"@ + k@,
            (None, Some(ip)) => "ip:"@ + first_segment(ip@),
            (None, None) => "unknown"@,
        },
{
    match api_key {
        Some(k) => {
            let r = String::from_str("api_key:").concat(k);
            r
        },
        None => match forwarded_for {
            Some(ip) => {
                let len = ip.unicode_len();
                let mut i: usize = 0;
                while i < len && ip.get_char(i) != ','
                    invariant
                        len == ip@.len(),
                        i <= len,
                        forall|j: int| 0 <= j < i ==> ip@[j] != ',',
                    decreases len - i,
                {
                    i = i + 1;
                }
                let cut = i;
                proof {
                    if cut == len {
                        if exists|k: int| is_first_comma(ip@, k) {
                            let k = choose|k: int| is_first_comma(ip@, k);
                            assert(ip@[k] != ',');
                        }
                        assert(first_segment(ip@) =~= ip@);
                    } else {
                        assert(is_first_comma(ip@, cut as int));
                        let k = choose|k: int| is_first_comma(ip@, k);
                        if k < cut as int {
                            assert(ip@[k] != ',');
                        }
                        if k > cut as int {
                            assert(ip@[cut as int] != ',');
                        }
                        assert(first_segment(ip@) == ip@.subrange(0, cut as int));
                    }
                }
                let seg = ip.substring_char(0, cut);
                String::from_str("ip:").concat(seg)
            },
            None => String::from_str("unknown"),
        },
    }
}

/// Sliding-window law: starting from a fresh window, the `k`-th request
/// within that window (counting from zero) is admitted exactly when
/// `k < max_requests`, so precisely `max_requests` admissions succeed in
/// one window; once it elapses, the counter starts fresh again.
pub proof fn lemma_window_admits_exactly_max(k: nat, max_requests: u32)
    ensures
        (count_after(k, max_requests) < max_requests) == (k < max_requests),
        k <= max_requests ==> count_after(k, max_requests) == k,
        k > max_requests ==> count_after(k, max_requests) == max_requests,
    decreases k,
{
    if k > 0 {
        lemma_window_admits_exactly_max((k - 1) as nat, max_requests);
    }
}

} // verus!
