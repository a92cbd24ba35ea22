//! Rate limiting + exponential backoff.

use std::collections::VecDeque;
use vstd::arithmetic::power2::pow2;
use vstd::prelude::*;

use crate::ids::{now_ms, TimestampMs, CLOCK_RANGE_MS};
use crate::ids;
use crate::window::{drop_oldest, expired};
use crate::window;

verus! {

/// Grants a number of requests per minute.
pub struct RateLimiter {
    limit_per_minute: u32,
    hits: VecDeque<TimestampMs>,
}

/// What a [`RateLimiter`] holds: its limit, and when it granted requests.
#[verifier::ext_equal]
pub struct LimiterView {
    pub limit: u32,
    pub hits: Seq<TimestampMs>,
}

impl View for RateLimiter {
    type V = LimiterView;

    closed spec fn view(&self) -> LimiterView {
        LimiterView { limit: self.limit_per_minute, hits: self.hits@ }
    }
}

impl LimiterView {
    /// Whether a request at `now` is granted.
    pub open spec fn grants(self, now: TimestampMs) -> bool {
        window::recent(self.hits, now).len() < self.limit
    }

    /// The limiter after a request at `now`.
    pub open spec fn asked(self, now: TimestampMs) -> LimiterView {
        let hits = window::recent(self.hits, now);
        LimiterView {
            hits: if self.grants(now) {
                hits.push(now)
            } else {
                hits
            },
            ..self
        }
    }
}

impl RateLimiter {
    pub fn new(limit_per_minute: u32) -> (r: Self)
        ensures
            r@ == (LimiterView { limit: limit_per_minute, hits: Seq::empty() }),
    {
        let r = RateLimiter { limit_per_minute, hits: VecDeque::new() };
        assert(r@.hits =~= Seq::empty());
        r
    }

    /// Asks for a request at `now`.
    pub fn try_acquire_at(&mut self, now: TimestampMs) -> (r: bool)
        requires
            -CLOCK_RANGE_MS <= now <= CLOCK_RANGE_MS,
        ensures
            r == old(self)@.grants(now),
            final(self)@ == old(self)@.asked(now),
    {
        let old_hits = expired(&self.hits, now);
        drop_oldest(&mut self.hits, old_hits);
        if self.hits.len() as u64 >= self.limit_per_minute as u64 {
            return false;
        }
        self.hits.push_back(now);
        true
    }

    pub fn try_acquire(&mut self) -> (r: bool)
        ensures
            exists|now: TimestampMs|
                {
                    &&& ids::clock_gives(now)
                    &&& r == #[trigger] old(self)@.grants(now)
                    &&& final(self)@ == old(self)@.asked(now)
                },
    {
        let now = now_ms();
        self.try_acquire_at(now)
    }
}

/// The limiter never remembers more requests than it may grant in a minute.
pub proof fn law_limiter_is_bounded(l: LimiterView, now: TimestampMs)
    requires
        l.hits.len() <= l.limit,
    ensures
        l.asked(now).hits.len() <= l.limit,
        l.asked(now).limit == l.limit,
{
    lemma_recent_is_shorter(l.hits, now);
}

proof fn lemma_recent_is_shorter(times: Seq<TimestampMs>, now: TimestampMs)
    ensures
        window::recent(times, now).len() <= times.len(),
    decreases times.len(),
{
    if times.len() > 0 {
        lemma_recent_is_shorter(times.drop_first(), now);
    }
}

/// The pause before another attempt: doubled with every attempt up to the
/// twentieth, and never above `max_ms`.
pub open spec fn backoff(attempt: u32, base_ms: u64, max_ms: u64) -> int {
    let k: nat = if attempt < 20 {
        attempt as nat
    } else {
        20
    };
    let pause = base_ms * pow2(k);
    if pause < max_ms {
        pause as int
    } else {
        max_ms as int
    }
}

pub fn backoff_ms(attempt: u32, base_ms: u64, max_ms: u64) -> (r: u64)
    ensures
        r == backoff(attempt, base_ms, max_ms),
{
    let k: u64 = if attempt < 20 {
        attempt as u64
    } else {
        20
    };
    let mut factor: u64 = 1;
    let mut i: u64 = 0;
    proof {
        vstd::arithmetic::power2::lemma2_to64();
    }
    while i < k
        invariant
            i <= k <= 20,
            factor == pow2(i as nat),
            factor <= 0x10_0000,
            pow2(20) == 0x10_0000,
        decreases k - i,
    {
        proof {
            vstd::arithmetic::power2::lemma_pow2_unfold((i + 1) as nat);
            if i + 1 < 20 {
                vstd::arithmetic::power2::lemma_pow2_strictly_increases((i + 1) as nat, 20);
            }
        }
        factor = factor * 2;
        i = i + 1;
    }
    match base_ms.checked_mul(factor) {
        Some(pause) => if pause < max_ms {
            pause
        } else {
            max_ms
        },
        None => max_ms,
    }
}

/// A later attempt waits no shorter, and no attempt waits longer than the
/// limit.
pub proof fn law_backoff_grows(attempt: u32, later: u32, base_ms: u64, max_ms: u64)
    requires
        attempt <= later,
    ensures
        0 <= backoff(attempt, base_ms, max_ms) <= backoff(later, base_ms, max_ms) <= max_ms,
{
    let a: nat = if attempt < 20 {
        attempt as nat
    } else {
        20
    };
    let b: nat = if later < 20 {
        later as nat
    } else {
        20
    };
    if a < b {
        vstd::arithmetic::power2::lemma_pow2_strictly_increases(a, b);
    }
    assert(0 <= base_ms * pow2(a) <= base_ms * pow2(b)) by (nonlinear_arith)
        requires
            0 <= pow2(a) <= pow2(b),
            0 <= base_ms,
    ;
}

/// Of granted requests in order, those of the last minute count: one more is
/// granted exactly while they are fewer than the limit, and is then the last one
/// remembered. A refused one is not remembered, and older ones are forgotten.
pub proof fn law_limit_is_per_minute(l: LimiterView, now: TimestampMs, k: int)
    requires
        forall|i: int, j: int| 0 <= i < j < l.hits.len() ==> l.hits[i] <= l.hits[j],
        0 <= k <= l.hits.len(),
        forall|i: int| 0 <= i < k ==> #[trigger] l.hits[i] < now - 60_000,
        forall|i: int| k <= i < l.hits.len() ==> now - 60_000 <= #[trigger] l.hits[i],
    ensures
        l.grants(now) <==> l.hits.len() - k < l.limit,
        l.hits.len() - k < l.limit ==> l.asked(now).hits == l.hits.skip(k).push(now),
        l.hits.len() - k >= l.limit ==> l.asked(now).hits == l.hits.skip(k),
        l.asked(now).limit == l.limit,
{
    let times = l.hits;
    window::law_recent_is_the_last_minute(times, now);
    let c = choose|c: int|
        {
            &&& 0 <= c <= times.len()
            &&& window::recent(times, now) == #[trigger] times.skip(c)
            &&& forall|i: int| 0 <= i < c ==> #[trigger] times[i] < now - window::WINDOW_MS
            &&& forall|i: int|
                c <= i < times.len() ==> now - window::WINDOW_MS <= #[trigger] times[i]
        };
    if c < k {
        assert(times[c] < now - 60_000);
    }
    if k < c {
        assert(times[k] < now - window::WINDOW_MS);
    }
}

/// The first pause is the base, every further one is twice the one before, up to
/// the limit; after the twentieth attempt it stays.
pub proof fn law_backoff_doubles(attempt: u32, base_ms: u64, max_ms: u64)
    ensures
        backoff(0, base_ms, max_ms) == if base_ms < max_ms {
            base_ms as int
        } else {
            max_ms as int
        },
        attempt < 20 ==> backoff((attempt + 1) as u32, base_ms, max_ms) == if 2 * backoff(
            attempt,
            base_ms,
            max_ms,
        ) < max_ms {
            2 * backoff(attempt, base_ms, max_ms)
        } else {
            max_ms as int
        },
        attempt >= 20 ==> backoff(attempt, base_ms, max_ms) == backoff(20, base_ms, max_ms),
{
    vstd::arithmetic::power2::lemma2_to64();
    assert(base_ms * 1 == base_ms) by (nonlinear_arith);
    assert(pow2(0) == 1);
    if attempt < 20 {
        let p = pow2(attempt as nat) as int;
        vstd::arithmetic::power2::lemma_pow2_unfold((attempt + 1) as nat);
        assert(base_ms * (2 * p) == 2 * (base_ms * p)) by (nonlinear_arith);
    }
}

} // verus!
