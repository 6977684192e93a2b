//! Millisecond tick timers: a periodic timer that skips missed periods, and a backoff timer.

use vstd::prelude::*;

verus! {

/// Fires once per `period` ticks, skipping the periods that were missed between two updates.
pub struct PeriodicSkippingTimer {
    period: u32,
    next_tick: u32,
}

impl PeriodicSkippingTimer {
    /// Length of a period.
    pub closed spec fn period(self) -> u32 {
        self.period
    }

    /// The tick at or after which the timer fires next.
    pub closed spec fn next_tick(self) -> u32 {
        self.next_tick
    }

    /// The next tick after `tick` that is a whole number of periods after `next_tick`, when the
    /// timer has become due at `tick`.
    pub open spec fn next_after(next_tick: int, period: int, tick: int) -> int {
        next_tick + period * ((tick - next_tick) / period + 1)
    }

    /// A timer of period `period` that is due at once.
    pub fn new(period: u32) -> (timer: Self)
        ensures
            timer.period() == period,
            timer.next_tick() == 0,
    {
        Self { period, next_tick: 0 }
    }

    /// Restarts the period at `tick`: the timer next fires one period later.
    pub fn reset(&mut self, tick: u32)
        requires
            tick + old(self).period() <= u32::MAX,
        ensures
            final(self).period() == old(self).period(),
            final(self).next_tick() == tick + old(self).period(),
    {
        self.next_tick = tick + self.period;
    }

    /// Whether the timer is due at `tick`; if so, it moves on to the first tick after `tick` that
    /// lies a whole number of periods later.
    pub fn update(&mut self, tick: u32) -> (fired: bool)
        requires
            tick >= old(self).next_tick() ==> old(self).period() > 0 && Self::next_after(
                old(self).next_tick() as int,
                old(self).period() as int,
                tick as int,
            ) <= u32::MAX,
        ensures
            fired == (tick >= old(self).next_tick()),
            final(self).period() == old(self).period(),
            final(self).next_tick() == if fired {
                Self::next_after(old(self).next_tick() as int, old(self).period() as int, tick as int)
            } else {
                old(self).next_tick() as int
            },
    {
        if tick < self.next_tick {
            return false;
        }
        proof {
            let q = (tick - self.next_tick) as int / self.period as int;
            assert(self.period * (q + 1) >= q + 1) by (nonlinear_arith)
                requires self.period >= 1, q >= 0;
        }
        let periods_behind = (tick - self.next_tick) / self.period + 1;
        self.next_tick += self.period * periods_behind;

        true
    }
}

/// Becomes ready at a tick that each command pushes further out.
pub struct BackoffTimer {
    next_tick: u32,
}

impl BackoffTimer {
    /// The tick from which the timer is ready.
    pub closed spec fn next_tick(self) -> u32 {
        self.next_tick
    }

    /// A timer that is ready at once.
    pub fn new() -> (timer: Self)
        ensures
            timer.next_tick() == 0,
    {
        Self { next_tick: 0 }
    }

    /// Whether the timer is ready at `tick`.
    pub fn ready(&self, tick: u32) -> (is_ready: bool)
        ensures
            is_ready == (tick >= self.next_tick()),
    {
        tick >= self.next_tick
    }

    /// Pushes the ready tick `delay` ticks further out.
    pub fn delay(&mut self, delay: u32)
        requires
            old(self).next_tick() + delay <= u32::MAX,
        ensures
            final(self).next_tick() == old(self).next_tick() + delay,
    {
        self.next_tick += delay;
    }

    /// Makes the timer ready from `tick` on.
    pub fn reset(&mut self, tick: u32)
        ensures
            final(self).next_tick() == tick,
    {
        self.next_tick = tick;
    }
}

/// After a periodic timer fires at `tick`, its next tick lies after `tick`, at most one period
/// after it, and a whole number of periods after the previous next tick.
pub proof fn lemma_periodic_update_lands_after(next_tick: int, period: int, tick: int)
    requires
        period > 0,
        tick >= next_tick,
    ensures
        PeriodicSkippingTimer::next_after(next_tick, period, tick) > tick,
        PeriodicSkippingTimer::next_after(next_tick, period, tick) - period <= tick,
        (PeriodicSkippingTimer::next_after(next_tick, period, tick) - next_tick) % period == 0,
{
    let d = tick - next_tick;
    let q = d / period;
    vstd::arithmetic::div_mod::lemma_fundamental_div_mod(d, period);
    vstd::arithmetic::div_mod::lemma_mod_pos_bound(d, period);
    assert(period * (q + 1) == period * q + period) by (nonlinear_arith);
    assert((period * (q + 1)) % period == 0) by (nonlinear_arith)
        requires period > 0;
}

} // verus!
