//! The frame clock: elapsed time since the previous tick, optionally held
//! to a minimum frame period.
//!
//! The clock itself is pure bookkeeping over microsecond timestamps that
//! the caller reads from its time source; the active wait of the capped
//! mode is the caller's loop around `ready`.

use vstd::prelude::*;

verus! {

/// Frame clock state: the timestamp of the previous tick and the optional
/// minimum frame period, both in microseconds.
pub struct Clock {
    /// Timestamp of the previous tick.
    pub prev_tick: u64,
    /// Minimum frame duration, if the frame rate is capped.
    pub frame_cap: Option<u64>,
}

impl Clock {
    /// A clock starting at `now`, with an optional frame cap.
    pub fn new(now: u64, frame_cap: Option<u64>) -> (c: Clock)
        ensures
            c.prev_tick == now,
            c.frame_cap == frame_cap,
    {
        Clock { prev_tick: now, frame_cap }
    }

    /// Whether a tick at `now` may go ahead: uncapped clocks are always
    /// ready, capped ones once a full period has elapsed. The caller's
    /// wait loop polls this.
    pub fn ready(&self, now: u64) -> (r: bool)
        requires
            self.prev_tick <= now,
        ensures
            r == match self.frame_cap {
                Option::None => true,
                Option::Some(cap) => now - self.prev_tick >= cap,
            },
    {
        match self.frame_cap {
            None => true,
            Some(cap) => now - self.prev_tick >= cap,
        }
    }

    /// An uncapped tick: the elapsed time since the previous tick, which
    /// becomes the new reference point.
    pub fn tick_uncapped(&mut self, now: u64) -> (dt: u64)
        requires
            old(self).prev_tick <= now,
        ensures
            dt == now - old(self).prev_tick,
            final(self).prev_tick == now,
            final(self).frame_cap == old(self).frame_cap,
    {
        let dt = now - self.prev_tick;
        self.prev_tick = now;
        dt
    }

    /// A capped tick: the caller has already waited out the period `cap`,
    /// and the actual elapsed time — never less than `cap` — is returned,
    /// so a slow frame is simulated at its true duration.
    pub fn tick_capped(&mut self, cap: u64, now: u64) -> (dt: u64)
        requires
            old(self).prev_tick <= now,
            now - old(self).prev_tick >= cap,
        ensures
            dt == now - old(self).prev_tick,
            dt >= cap,
            final(self).prev_tick == now,
            final(self).frame_cap == old(self).frame_cap,
    {
        let dt = now - self.prev_tick;
        self.prev_tick = now;
        dt
    }

    /// A tick at `now`, dispatching on the configured mode; in capped mode
    /// the caller polls `ready` until this is allowed.
    pub fn tick(&mut self, now: u64) -> (dt: u64)
        requires
            old(self).prev_tick <= now,
            match old(self).frame_cap {
                Option::None => true,
                Option::Some(cap) => now - old(self).prev_tick >= cap,
            },
        ensures
            dt == now - old(self).prev_tick,
            final(self).prev_tick == now,
            final(self).frame_cap == old(self).frame_cap,
            old(self).frame_cap matches Some(cap) ==> dt >= cap,
    {
        match self.frame_cap {
            Some(cap) => self.tick_capped(cap, now),
            None => self.tick_uncapped(now),
        }
    }
}

/// The sum of a sequence of frame durations.
pub open spec fn sum_of(dts: Seq<int>) -> int
    decreases dts.len(),
{
    if dts.len() == 0 {
        0
    } else {
        sum_of(dts.drop_last()) + dts.last()
    }
}

/// Every tick of a clock capped at period `t` returns at least `t`, so any
/// run of ticks lasts at least the period times the number of ticks.
pub proof fn lemma_capped_ticks_sum(dts: Seq<int>, t: int)
    requires
        t >= 0,
        forall|j: int| 0 <= j < dts.len() ==> #[trigger] dts[j] >= t,
    ensures
        sum_of(dts) >= dts.len() * t,
    decreases dts.len(),
{
    if dts.len() == 0 {
    } else {
        lemma_capped_ticks_sum(dts.drop_last(), t);
        assert((dts.len() - 1) * t + t == dts.len() * t) by (nonlinear_arith);
    }
}

} // verus!
