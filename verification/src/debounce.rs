//! The debounce model: raw filesystem notifications arriving close together
//! belong to one logical save, and one logical save triggers one rebuild.

use vstd::prelude::*;

verus! {

/// The timestamps come in non-decreasing order.
pub open spec fn sorted_times(times: Seq<u64>) -> bool {
    forall|i: int| 0 <= i < times.len() - 1 ==> #[trigger] times[i] <= times[i + 1]
}

/// How many rebuild cycles a time-ordered run of raw notifications
/// triggers: the first notification opens a burst, and a later one opens a
/// new burst only when more than `window` elapsed since its predecessor.
pub open spec fn burst_count_spec(times: Seq<u64>, window: u64) -> int
    decreases times.len(),
{
    if times.len() == 0 {
        0
    } else if times.len() == 1 {
        1
    } else {
        burst_count_spec(times.drop_last(), window) + (if times[times.len() - 1] - times[times.len()
            - 2] > window {
            1int
        } else {
            0
        })
    }
}

/// In a non-decreasing sequence every element bounds the later ones.
proof fn lemma_sorted_monotone(times: Seq<u64>, i: int, j: int)
    requires
        sorted_times(times),
        0 <= i <= j < times.len(),
    ensures
        times[i] <= times[j],
    decreases j - i,
{
    if i < j {
        lemma_sorted_monotone(times, i + 1, j);
    }
}

/// How many rebuild cycles a run of raw notifications triggers; the run
/// must be time-ordered.
pub fn dispatch_count(times: &Vec<u64>, window: u64) -> (n: usize)
    requires
        sorted_times(times@),
    ensures
        n == burst_count_spec(times@, window),
{
    if times.len() == 0 {
        return 0;
    }
    let mut n: usize = 1;
    let mut i: usize = 1;
    proof {
        assert(times@.take(1).len() == 1);
    }
    while i < times.len()
        invariant
            sorted_times(times@),
            1 <= i <= times@.len(),
            n <= i,
            n == burst_count_spec(times@.take(i as int), window),
        decreases times@.len() - i,
    {
        let prev = times[i - 1];
        let cur = times[i];
        proof {
            assert(times@[i - 1] <= times@[i as int]);
        }
        if cur - prev > window {
            n = n + 1;
        }
        proof {
            assert(times@.take(i + 1 as int).drop_last() =~= times@.take(i as int));
            assert(times@.take(i + 1 as int)[i as int] == times@[i as int]);
            assert(times@.take(i + 1 as int)[i - 1] == times@[i - 1]);
        }
        i = i + 1;
    }
    proof {
        assert(times@.take(i as int) =~= times@);
    }
    n
}

/// A burst of any number of raw notifications that all fall within one
/// debounce window — a single logical save — triggers exactly one rebuild
/// cycle, however many notifications it holds.
pub proof fn lemma_burst_within_window(times: Seq<u64>, window: u64)
    requires
        sorted_times(times),
        times.len() >= 1,
        times[times.len() - 1] - times[0] <= window,
    ensures
        burst_count_spec(times, window) == 1,
    decreases times.len(),
{
    if times.len() > 1 {
        lemma_sorted_monotone(times, 0, times.len() - 2);
        assert(times[times.len() - 1] - times[times.len() - 2] <= window);
        let front = times.drop_last();
        assert(forall|i: int| 0 <= i < front.len() ==> front[i] == times[i]);
        lemma_sorted_monotone(times, front.len() - 1, times.len() - 1);
        lemma_burst_within_window(front, window);
    }
}

} // verus!
