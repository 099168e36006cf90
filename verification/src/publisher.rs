//! The periodic publisher: a long-running background loop that, on a fixed
//! interval, draws a pseudo-random color and emits it as a bus signal.
//!
//! The loop itself lives in the background domain; this module holds its
//! verified decisions: when an emission is due, how many have been emitted,
//! and exactly which payload each emission carries. Emission failures are
//! logged by the caller and never stop the loop; it has no termination
//! condition and no dependency on the poll loop or the readiness gate.

use vstd::arithmetic::div_mod::lemma_fundamental_div_mod_converse;
use vstd::prelude::*;

use crate::payload::ascii_chars;
use crate::payload::notification_event;
use crate::payload::rgb_bytes;
use crate::AddNotificationEvent;

verus! {

/// Multiplier of the linear-congruential generator drawing the components.
pub const LCG_MUL: u64 = 6364136223846793005;

/// Increment of the linear-congruential generator.
pub const LCG_INC: u64 = 1442695040888963407;

/// The generator state following `s`: the linear-congruential step, wrapping
/// modulo 2^64.
pub open spec fn lcg_next(s: u64) -> u64 {
    vstd::wrapping::u64_specs::wrapping_add(
        vstd::wrapping::u64_specs::wrapping_mul(s, LCG_MUL),
        LCG_INC,
    )
}

/// The color component drawn from a generator state: high bits reduced to a
/// count of thousandths, always below the scale.
pub open spec fn component_from(s: u64) -> u16 {
    (((s >> 33) % 1000) as u16)
}

/// A timer-driven signal emitter with a fixed interval, measured in time
/// units of the driving timer. Emits exactly one signal per full interval
/// elapsed.
pub struct PeriodicPublisher {
    interval: u64,
    until_next: u64,
    elapsed: u64,
    emitted: u64,
    rng: u64,
}

impl PeriodicPublisher {
    /// The configured interval between emissions.
    pub closed spec fn interval(&self) -> u64 {
        self.interval
    }

    /// Time units until the next emission is due.
    pub closed spec fn until_next(&self) -> u64 {
        self.until_next
    }

    /// Time units elapsed since the publisher started.
    pub closed spec fn elapsed(&self) -> u64 {
        self.elapsed
    }

    /// Signals emitted so far.
    pub closed spec fn emitted(&self) -> u64 {
        self.emitted
    }

    /// The current generator state.
    pub closed spec fn rng_state(&self) -> u64 {
        self.rng
    }

    /// Well-formedness: the countdown stays within one interval, and the
    /// elapsed time splits into full intervals (one emission each) plus the
    /// part of the current interval already spent.
    pub open spec fn wf(&self) -> bool {
        &&& 0 < self.interval()
        &&& 1 <= self.until_next() <= self.interval()
        &&& self.elapsed() == self.emitted() * self.interval() + (self.interval()
            - self.until_next())
    }

    /// The configured interval, for the driving timer.
    pub fn interval_units(&self) -> (n: u64)
        ensures
            n == self.interval(),
    {
        self.interval
    }

    /// Time units elapsed so far.
    pub fn elapsed_units(&self) -> (n: u64)
        ensures
            n == self.elapsed(),
    {
        self.elapsed
    }

    /// Signals emitted so far.
    pub fn emitted_count(&self) -> (n: u64)
        ensures
            n == self.emitted(),
    {
        self.emitted
    }

    /// A fresh publisher: nothing elapsed, nothing emitted, the first
    /// emission due one full interval from now.
    pub fn new(interval: u64, seed: u64) -> (p: Self)
        requires
            interval > 0,
        ensures
            p.wf(),
            p.interval() == interval,
            p.elapsed() == 0,
            p.emitted() == 0,
            p.rng_state() == seed,
    {
        PeriodicPublisher { interval, until_next: interval, elapsed: 0, emitted: 0, rng: seed }
    }

    /// One time unit passes. Returns whether an emission is due at this unit:
    /// true exactly once per full interval, so the emission count always
    /// equals the elapsed time divided by the interval (see
    /// [`lemma_emission_rate`]).
    pub fn advance(&mut self) -> (due: bool)
        requires
            old(self).wf(),
            old(self).elapsed() < u64::MAX,
        ensures
            final(self).wf(),
            final(self).interval() == old(self).interval(),
            final(self).elapsed() == old(self).elapsed() + 1,
            final(self).rng_state() == old(self).rng_state(),
            due == (old(self).until_next() == 1),
            final(self).emitted() == old(self).emitted() + (if due {
                1int
            } else {
                0int
            }),
    {
        proof {
            assert(self.emitted * self.interval >= 0) by (nonlinear_arith)
                requires
                    self.interval > 0 && self.emitted >= 0,
            ;
            assert(self.emitted <= self.emitted * self.interval) by (nonlinear_arith)
                requires
                    self.interval >= 1 && self.emitted >= 0,
            ;
        }
        self.elapsed = self.elapsed + 1;
        if self.until_next == 1 {
            self.until_next = self.interval;
            self.emitted = self.emitted + 1;
            proof {
                assert(self.emitted * self.interval == (self.emitted - 1) * self.interval
                    + self.interval) by (nonlinear_arith);
            }
            true
        } else {
            self.until_next = self.until_next - 1;
            false
        }
    }

    /// Draw the next color and build the signal payload: the generator steps
    /// three times, once per component, and the color string is exactly the
    /// rendered form of the three drawn components.
    pub fn make_payload(&mut self) -> (ev: AddNotificationEvent)
        ensures
            ({
                let s1 = lcg_next(old(self).rng_state());
                let s2 = lcg_next(s1);
                let s3 = lcg_next(s2);
                &&& final(self).rng_state() == s3
                &&& ev.color@ == ascii_chars(
                    rgb_bytes(component_from(s1), component_from(s2), component_from(s3)),
                )
            }),
            final(self).interval() == old(self).interval(),
            final(self).until_next() == old(self).until_next(),
            final(self).elapsed() == old(self).elapsed(),
            final(self).emitted() == old(self).emitted(),
    {
        let r = self.draw_component();
        let g = self.draw_component();
        let b = self.draw_component();
        notification_event(r, g, b)
    }

    /// Step the generator once and reduce the new state to a component.
    fn draw_component(&mut self) -> (c: u16)
        ensures
            final(self).rng_state() == lcg_next(old(self).rng_state()),
            c == component_from(final(self).rng_state()),
            c < 1000,
            final(self).interval() == old(self).interval(),
            final(self).until_next() == old(self).until_next(),
            final(self).elapsed() == old(self).elapsed(),
            final(self).emitted() == old(self).emitted(),
    {
        self.rng = self.rng.wrapping_mul(LCG_MUL).wrapping_add(LCG_INC);
        ((self.rng >> 33) % 1000) as u16
    }
}

/// One signal per full interval: however long a well-formed publisher has
/// run, the number of emitted signals equals the elapsed time divided by the
/// interval — with interval 1, one signal per time unit elapsed.
pub proof fn lemma_emission_rate(p: PeriodicPublisher)
    requires
        p.wf(),
    ensures
        p.emitted() == p.elapsed() as int / p.interval() as int,
{
    lemma_fundamental_div_mod_converse(
        p.elapsed() as int,
        p.interval() as int,
        p.emitted() as int,
        p.interval() - p.until_next(),
    );
}

} // verus!
