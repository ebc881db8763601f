//! The history buffer: a decimated, chronologically strictly-increasing
//! trace of displacement samples, optionally bounded by evicting the
//! oldest samples.

use vstd::prelude::*;
use crate::structs::DisplacementPoint;

verus! {

/// The buffer's ordering invariant: strictly increasing by time.
pub open spec fn strictly_increasing(s: Seq<DisplacementPoint>) -> bool {
    forall|i: int, j: int| 0 <= i < j < s.len() ==> s[i].time < s[j].time
}

/// The decimation counter after one more step: reset on the step that
/// records, otherwise one higher. A sample is recorded on the first step
/// whose incremented count exceeds `save_skip`.
pub open spec fn next_counter(counter: int, save_skip: int) -> int {
    if counter + 1 > save_skip {
        0
    } else {
        counter + 1
    }
}

/// The buffer after retention is enforced: the `max` newest samples when
/// the limit is on and exceeded, the buffer itself otherwise.
pub open spec fn evict_spec(s: Seq<DisplacementPoint>, limit_on: bool, max: int) -> Seq<
    DisplacementPoint,
> {
    if limit_on && s.len() > max {
        s.subrange(s.len() - max, s.len() as int)
    } else {
        s
    }
}

/// Append a sample if the decimation counter has exceeded `save_skip`,
/// resetting the counter; otherwise leave both untouched. The counter is
/// the number of integrator steps since the last recorded sample, already
/// counting the step that produced this sample.
pub fn record(
    buffer: &mut Vec<DisplacementPoint>,
    counter: &mut usize,
    save_skip: usize,
    displacement: i64,
    time: i64,
) -> (recorded: bool)
    requires
        strictly_increasing(old(buffer)@),
        old(buffer)@.len() > 0 ==> old(buffer)@.last().time < time,
    ensures
        recorded == (*old(counter) > save_skip),
        recorded ==> final(buffer)@ == old(buffer)@.push(
            DisplacementPoint { displacement, time },
        ) && *final(counter) == 0,
        !recorded ==> final(buffer)@ == old(buffer)@ && *final(counter) == *old(counter),
        strictly_increasing(final(buffer)@),
        final(buffer)@.len() > 0 ==> final(buffer)@.last().time <= time,
{
    if *counter > save_skip {
        buffer.push(DisplacementPoint { displacement, time });
        *counter = 0;
        true
    } else {
        false
    }
}

/// Evict the oldest samples until the buffer holds at most `max` when the
/// limit is on; change nothing otherwise.
pub fn enforce_retention(buffer: &mut Vec<DisplacementPoint>, limit_on: bool, max: usize)
    ensures
        final(buffer)@ == evict_spec(old(buffer)@, limit_on, max as int),
        limit_on ==> final(buffer)@.len() <= max,
        strictly_increasing(old(buffer)@) ==> strictly_increasing(final(buffer)@),
        final(buffer)@.len() > 0 ==> final(buffer)@.last() == old(buffer)@.last(),
{
    let ghost orig = buffer@;
    if !limit_on {
        return ;
    }
    proof {
        assert(buffer@ =~= orig.subrange(orig.len() - buffer@.len(), orig.len() as int));
    }
    while buffer.len() > max
        invariant
            buffer@.len() <= orig.len(),
            buffer@ == orig.subrange(orig.len() - buffer@.len(), orig.len() as int),
            orig.len() > max ==> buffer@.len() >= max,
            orig.len() <= max ==> buffer@.len() == orig.len(),
        decreases buffer@.len(),
    {
        let ghost pre = buffer@;
        buffer.remove(0);
        proof {
            pre.remove_ensures(0);
            assert(buffer@ =~= orig.subrange(orig.len() - buffer@.len(), orig.len() as int));
        }
    }
    proof {
        if orig.len() > max {
            assert(buffer@ == evict_spec(orig, limit_on, max as int));
        } else {
            assert(buffer@ =~= orig);
        }
        if strictly_increasing(orig) {
            assert forall|i: int, j: int|
                0 <= i < j < buffer@.len() implies buffer@[i].time < buffer@[j].time by {
                assert(buffer@[i] == orig[orig.len() - buffer@.len() + i]);
                assert(buffer@[j] == orig[orig.len() - buffer@.len() + j]);
            }
        }
    }
}

/// The decimation counter after `n` integrator steps, starting from
/// `counter`.
pub open spec fn counter_iter(counter: int, save_skip: int, n: nat) -> int
    decreases n,
{
    if n == 0 {
        counter
    } else {
        next_counter(counter_iter(counter, save_skip, (n - 1) as nat), save_skip)
    }
}

/// Whether the step after `k` earlier steps records a sample.
pub open spec fn records_at(counter: int, save_skip: int, k: nat) -> bool {
    counter_iter(counter, save_skip, k) + 1 > save_skip
}

/// After a recording step the counter counts the steps taken since: it
/// reads `i` as long as `i` has not yet passed `save_skip`.
proof fn lemma_counter_after_record(counter: int, save_skip: int, k: nat, i: nat)
    requires
        save_skip >= 0,
        records_at(counter, save_skip, k),
        i <= save_skip,
    ensures
        counter_iter(counter, save_skip, (k + 1 + i) as nat) == i,
    decreases i,
{
    if i == 0 {
        assert(counter_iter(counter, save_skip, (k + 1) as nat) == next_counter(
            counter_iter(counter, save_skip, k),
            save_skip,
        ));
    } else {
        lemma_counter_after_record(counter, save_skip, k, (i - 1) as nat);
    }
}

/// Decimation cadence: between two recorded samples at least
/// `save_skip + 1` integrator steps elapse.
pub proof fn lemma_decimation_cadence(counter: int, save_skip: int, k1: nat, k2: nat)
    requires
        save_skip >= 0,
        records_at(counter, save_skip, k1),
        records_at(counter, save_skip, k2),
        k1 < k2,
    ensures
        k2 - k1 >= save_skip + 1,
{
    if k2 - k1 < save_skip + 1 {
        let i = (k2 - k1 - 1) as nat;
        lemma_counter_after_record(counter, save_skip, k1, i);
        assert(counter_iter(counter, save_skip, k2) == i);
        assert(!records_at(counter, save_skip, k2));
    }
}

} // verus!
