//! The repeating timer that paces the sampling.

use vstd::prelude::*;

verus! {

/// Whether a timer of the given interval that has accumulated `elapsed`
/// nanoseconds comes due when `delta` more nanoseconds pass.
pub open spec fn comes_due(interval: nat, elapsed: nat, delta: nat) -> bool {
    elapsed + delta >= interval
}

/// What a repeating timer has accumulated after `delta` more nanoseconds: the
/// time that passed since it last came due.
pub open spec fn carried_over(interval: nat, elapsed: nat, delta: nat) -> nat {
    if interval == 0 {
        0
    } else {
        (elapsed + delta) % interval
    }
}

/// A repeating timer over nanoseconds. It comes due on every tick at which the
/// time accumulated since it last came due reaches the interval, and then
/// starts over with what exceeds the interval.
#[derive(Clone, Copy, Debug)]
pub struct TickTimer {
    interval: u64,
    elapsed: u64,
}

impl TickTimer {
    #[verifier::type_invariant]
    spec fn well_formed(self) -> bool {
        if self.interval == 0 {
            self.elapsed == 0
        } else {
            self.elapsed < self.interval
        }
    }

    /// The interval of the timer, in nanoseconds.
    pub closed spec fn interval(self) -> nat {
        self.interval as nat
    }

    /// The time accumulated since the timer last came due, in nanoseconds.
    pub closed spec fn elapsed(self) -> nat {
        self.elapsed as nat
    }

    /// Whether the accumulated time is below the interval, or both are zero.
    pub open spec fn wf(self) -> bool {
        if self.interval() == 0 {
            self.elapsed() == 0
        } else {
            self.elapsed() < self.interval()
        }
    }

    /// A timer of the given interval that has accumulated nothing.
    pub fn new(interval: u64) -> (timer: TickTimer)
        ensures
            timer.interval() == interval,
            timer.elapsed() == 0,
            timer.wf(),
    {
        TickTimer { interval, elapsed: 0 }
    }

    /// The interval of the timer, in nanoseconds.
    pub fn interval_nanos(&self) -> (interval: u64)
        ensures
            interval == self.interval(),
    {
        self.interval
    }

    /// The time accumulated since the timer last came due, in nanoseconds.
    pub fn elapsed_nanos(&self) -> (elapsed: u64)
        ensures
            elapsed == self.elapsed(),
            self.wf(),
    {
        proof {
            use_type_invariant(self);
        }
        self.elapsed
    }

    /// Lets `delta` nanoseconds pass and says whether the timer came due.
    pub fn tick(&mut self, delta: u64) -> (due: bool)
        ensures
            final(self).interval() == old(self).interval(),
            due == comes_due(old(self).interval(), old(self).elapsed(), delta as nat),
            final(self).elapsed() == carried_over(
                old(self).interval(),
                old(self).elapsed(),
                delta as nat,
            ),
            final(self).wf(),
    {
        proof {
            use_type_invariant(&*self);
        }
        let total: u128 = self.elapsed as u128 + delta as u128;
        let interval: u128 = self.interval as u128;
        if interval == 0 {
            true
        } else if total >= interval {
            let rest: u128 = total % interval;
            self.elapsed = rest as u64;
            true
        } else {
            self.elapsed = total as u64;
            assert(total % interval == total) by (nonlinear_arith)
                requires
                    0 <= total < interval,
            ;
            false
        }
    }
}

/// A tick that stays below the interval does not bring the timer due and adds
/// to what it has accumulated; one that reaches the interval does, and leaves
/// less than the interval.
pub proof fn lemma_tick_cases(interval: nat, elapsed: nat, delta: nat)
    requires
        interval == 0 ==> elapsed == 0,
        interval > 0 ==> elapsed < interval,
    ensures
        elapsed + delta < interval ==> !comes_due(interval, elapsed, delta) && carried_over(
            interval,
            elapsed,
            delta,
        ) == elapsed + delta,
        elapsed + delta >= interval ==> comes_due(interval, elapsed, delta),
        interval > 0 ==> carried_over(interval, elapsed, delta) < interval,
        interval == 0 ==> carried_over(interval, elapsed, delta) == 0,
{
    if interval > 0 {
        let total = (elapsed + delta) as int;
        let i = interval as int;
        assert(0 <= total % i < i) by (nonlinear_arith)
            requires
                i > 0,
                total >= 0,
        ;
        if total < i {
            assert(total % i == total) by (nonlinear_arith)
                requires
                    0 <= total < i,
            ;
        }
    }
}

} // verus!
