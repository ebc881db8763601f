//! The step scheduler: converts a fractional steps-per-frame rate into a
//! whole number of integrator steps per frame, carrying the remainder over
//! to the next frame so that no fractional work is ever lost or duplicated.

use vstd::prelude::*;
use vstd::arithmetic::div_mod::{
    lemma_basic_div, lemma_fundamental_div_mod, lemma_hoist_over_denominator,
    lemma_mod_division_less_than_divisor, lemma_mod_multiples_vanish, lemma_small_mod,
};
use crate::fixed::SCALE;
use crate::structs::{SimError, State};

verus! {

/// Whole steps released by one tick: the integer part of the carried-over
/// fraction plus the rate, both in nano-steps.
pub open spec fn tick_whole(pending: int, rate: int) -> int {
    (pending + rate) / (SCALE as int)
}

/// Fraction carried over after one tick.
pub open spec fn tick_rem(pending: int, rate: int) -> int {
    (pending + rate) % (SCALE as int)
}

impl State {
    /// One scheduler tick: add the rate to the carried-over fraction,
    /// release the whole steps, keep the remainder. A negative rate is
    /// rejected and nothing changes. Step accounting is exact: the old
    /// carry plus the rate equals the released steps (in nano-steps) plus
    /// the new carry, which is again in `[0, SCALE)`.
    pub fn tick(&mut self, steps_per_frame: i64) -> (result: Result<u64, SimError>)
        requires
            old(self).wf(),
        ensures
            final(self).wf(),
            steps_per_frame < 0 ==> result == Err::<u64, SimError>(SimError::InvalidConfiguration)
                && *final(self) == *old(self),
            steps_per_frame >= 0 ==> {
                &&& result is Ok
                &&& result->Ok_0 as int == tick_whole(
                    old(self).steps_left as int,
                    steps_per_frame as int,
                )
                &&& final(self).steps_left as int == tick_rem(
                    old(self).steps_left as int,
                    steps_per_frame as int,
                )
                &&& old(self).steps_left + steps_per_frame == result->Ok_0 * SCALE
                    + final(self).steps_left
                &&& *final(self) == (State { steps_left: final(self).steps_left, ..*old(self) })
            },
    {
        if steps_per_frame < 0 {
            return Err(SimError::InvalidConfiguration);
        }
        let total: u64 = (self.steps_left as u64) + (steps_per_frame as u64);
        let w: u64 = total / 1_000_000_000u64;
        let rem: u64 = total % 1_000_000_000u64;
        proof {
            lemma_mod_division_less_than_divisor(total as int, SCALE as int);
            lemma_fundamental_div_mod(total as int, SCALE as int);
        }
        self.steps_left = rem as i64;
        Ok(w)
    }
}

/// Sum of a sequence of rates.
pub open spec fn sum_rates(rates: Seq<int>) -> int
    decreases rates.len(),
{
    if rates.len() == 0 {
        0
    } else {
        rates[0] + sum_rates(rates.drop_first())
    }
}

/// Whole steps released over a whole sequence of ticks, starting from a
/// carried-over fraction `pending`.
pub open spec fn total_whole_steps(pending: int, rates: Seq<int>) -> int
    decreases rates.len(),
{
    if rates.len() == 0 {
        0
    } else {
        tick_whole(pending, rates[0]) + total_whole_steps(
            tick_rem(pending, rates[0]),
            rates.drop_first(),
        )
    }
}

/// Fraction carried over after a whole sequence of ticks.
pub open spec fn final_pending(pending: int, rates: Seq<int>) -> int
    decreases rates.len(),
{
    if rates.len() == 0 {
        pending
    } else {
        final_pending(tick_rem(pending, rates[0]), rates.drop_first())
    }
}

/// A sum of nonnegative rates is nonnegative.
proof fn lemma_sum_rates_nonneg(rates: Seq<int>)
    requires
        forall|i: int| 0 <= i < rates.len() ==> rates[i] >= 0,
    ensures
        sum_rates(rates) >= 0,
    decreases rates.len(),
{
    if rates.len() > 0 {
        let rest = rates.drop_first();
        assert(forall|i: int| 0 <= i < rest.len() ==> rest[i] >= 0);
        lemma_sum_rates_nonneg(rest);
    }
}

/// Step accounting exactness: for any sequence of nonnegative rates fed to
/// the scheduler, the total of the released whole steps is the integer part
/// of the summed rates (plus the initial carry), and the final carry is the
/// remainder — so the carry always stays in `[0, SCALE)` and no fractional
/// work is lost or duplicated across ticks.
pub proof fn lemma_step_accounting(pending: int, rates: Seq<int>)
    requires
        0 <= pending < SCALE,
        forall|i: int| 0 <= i < rates.len() ==> rates[i] >= 0,
    ensures
        total_whole_steps(pending, rates) == (pending + sum_rates(rates)) / (SCALE as int),
        final_pending(pending, rates) == (pending + sum_rates(rates)) % (SCALE as int),
        0 <= final_pending(pending, rates) < SCALE,
    decreases rates.len(),
{
    let s = SCALE as int;
    if rates.len() == 0 {
        lemma_basic_div(pending, s);
        lemma_small_mod(pending as nat, SCALE as nat);
    } else {
        let r0 = rates[0];
        let rest = rates.drop_first();
        let a = pending + r0;
        assert(forall|i: int| 0 <= i < rest.len() ==> rest[i] >= 0);
        lemma_mod_division_less_than_divisor(a, s);
        lemma_step_accounting(a % s, rest);
        lemma_sum_rates_nonneg(rest);
        let q = sum_rates(rest);
        lemma_fundamental_div_mod(a, s);
        lemma_hoist_over_denominator(a % s + q, a / s, SCALE as nat);
        assert(a % s + q + (a / s) * s == a + q);
        lemma_mod_multiples_vanish(a / s, a % s + q, s);
        assert(s * (a / s) + (a % s + q) == a + q);
    }
}

} // verus!
