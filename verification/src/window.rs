//! A window of the last minute over a queue of times.

use std::collections::VecDeque;
use vstd::prelude::*;

use crate::ids::{TimestampMs, CLOCK_RANGE_MS};

verus! {

/// How long a time stays in the window, in milliseconds.
pub const WINDOW_MS: i64 = 60_000;

/// The times since the start of the minute before `now`: older ones at the
/// front are dropped.
pub open spec fn recent(times: Seq<TimestampMs>, now: TimestampMs) -> Seq<TimestampMs>
    decreases times.len(),
{
    if times.len() > 0 && times[0] < now - WINDOW_MS {
        recent(times.drop_first(), now)
    } else {
        times
    }
}

/// How many of the times at the front are too old.
pub fn expired(times: &VecDeque<TimestampMs>, now: TimestampMs) -> (r: usize)
    requires
        -CLOCK_RANGE_MS <= now <= CLOCK_RANGE_MS,
    ensures
        r <= times@.len(),
        recent(times@, now) == times@.skip(r as int),
{
    let ghost all = times@;
    let mut i: usize = 0;
    assert(all.skip(0) =~= all);
    while i < times.len() && times[i] < now - WINDOW_MS
        invariant
            -CLOCK_RANGE_MS <= now <= CLOCK_RANGE_MS,
            all == times@,
            i <= all.len(),
            recent(all, now) == recent(all.skip(i as int), now),
        decreases all.len() - i,
    {
        assert(all.skip(i as int).drop_first() =~= all.skip(i + 1));
        i = i + 1;
    }
    proof {
        if i == all.len() {
            assert(all.skip(i as int).len() == 0);
        } else {
            assert(all.skip(i as int)[0] == all[i as int]);
        }
    }
    i
}

/// Drops the `n` oldest times.
pub fn drop_oldest(times: &mut VecDeque<TimestampMs>, n: usize)
    requires
        n <= old(times)@.len(),
    ensures
        final(times)@ == old(times)@.skip(n as int),
{
    let ghost start = times@;
    let mut i: usize = 0;
    assert(start.skip(0) =~= start);
    while i < n
        invariant
            i <= n <= start.len(),
            times@ == start.skip(i as int),
        decreases n - i,
    {
        times.pop_front();
        assert(times@ =~= start.skip(i + 1));
        i = i + 1;
    }
}

/// The window drops what is older than a minute and nothing else: of times in
/// order it keeps exactly those of the last minute.
pub proof fn law_recent_is_the_last_minute(times: Seq<TimestampMs>, now: TimestampMs)
    requires
        forall|i: int, j: int| 0 <= i < j < times.len() ==> times[i] <= times[j],
    ensures
        exists|k: int|
            {
                &&& 0 <= k <= times.len()
                &&& recent(times, now) == #[trigger] times.skip(k)
                &&& forall|i: int| 0 <= i < k ==> #[trigger] times[i] < now - WINDOW_MS
                &&& forall|i: int| k <= i < times.len() ==> now - WINDOW_MS <= #[trigger] times[i]
            },
    decreases times.len(),
{
    if times.len() > 0 && times[0] < now - WINDOW_MS {
        let rest = times.drop_first();
        assert(forall|i: int| 0 <= i < rest.len() ==> #[trigger] rest[i] == times[i + 1]);
        law_recent_is_the_last_minute(rest, now);
        let k = choose|k: int|
            {
                &&& 0 <= k <= rest.len()
                &&& recent(rest, now) == #[trigger] rest.skip(k)
                &&& forall|i: int| 0 <= i < k ==> #[trigger] rest[i] < now - WINDOW_MS
                &&& forall|i: int| k <= i < rest.len() ==> now - WINDOW_MS <= #[trigger] rest[i]
            };
        assert(rest.skip(k) =~= times.skip(k + 1));
        assert forall|i: int| 0 <= i < k + 1 implies #[trigger] times[i] < now - WINDOW_MS by {
            if i > 0 {
                assert(rest[i - 1] == times[i]);
            }
        }
        assert forall|i: int| k + 1 <= i < times.len() implies now - WINDOW_MS
            <= #[trigger] times[i] by {
            assert(rest[i - 1] == times[i]);
        }
    } else {
        assert(times.skip(0) =~= times);
    }
}

} // verus!
