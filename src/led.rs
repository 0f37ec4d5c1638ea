//! Time-driven blinking of one output, with a rate that can change at run time.
use vstd::prelude::*;

verus! {

/// Timer ticks in one millisecond (the timer counts microseconds).
pub const TICKS_PER_MS: u64 = 1000;

/// Blink period that a new scheduler starts with, in milliseconds.
pub const DEFAULT_RATE: u64 = 500;

/// The scheduler's state as plain values.
pub struct BlinkModel {
    pub rate: u64,
    pub last: u64,
    pub on: bool,
}

/// Ticks from `last` to `now`, counted modulo 2^64 so that a wrapped timer
/// still gives the distance forward.
pub open spec fn elapsed_ticks(now: u64, last: u64) -> nat {
    if now >= last {
        (now - last) as nat
    } else {
        (now - last + 0x1_0000_0000_0000_0000) as nat
    }
}

/// Whole milliseconds from `last` to `now`.
pub open spec fn elapsed_ms(now: u64, last: u64) -> nat {
    elapsed_ticks(now, last) / (TICKS_PER_MS as nat)
}

/// The scheduler's state after a tick at time `now`.
pub open spec fn tick(l: BlinkModel, now: u64) -> BlinkModel {
    if l.rate == 0 {
        BlinkModel { on: false, ..l }
    } else if elapsed_ms(now, l.last) > l.rate {
        BlinkModel { on: !l.on, last: now, ..l }
    } else {
        l
    }
}

pub struct Led {
    pub rate: u64,
    last: u64,
    lit: bool,
}

impl View for Led {
    type V = BlinkModel;

    closed spec fn view(&self) -> BlinkModel {
        BlinkModel { rate: self.rate, last: self.last, on: self.lit }
    }
}

impl Led {
    /// A scheduler with the default rate, its output off, last toggled at time zero.
    pub fn new() -> (r: Led)
        ensures
            r@ == (BlinkModel { rate: DEFAULT_RATE, last: 0, on: false }),
    {
        Led { rate: DEFAULT_RATE, last: 0, lit: false }
    }

    /// Advances the scheduler to time `now`, in timer ticks.
    pub fn run(&mut self, now: &u64)
        ensures
            final(self)@ == tick(old(self)@, *now),
    {
        if self.rate > 0 {
            if now.wrapping_sub(self.last) / TICKS_PER_MS > self.rate {
                self.toggle();
                self.last = *now;
            }
        } else {
            self.off();
        }
    }

    fn on(&mut self)
        ensures
            final(self)@ == (BlinkModel { on: true, ..old(self)@ }),
    {
        self.lit = true;
    }

    pub fn off(&mut self)
        ensures
            final(self)@ == (BlinkModel { on: false, ..old(self)@ }),
    {
        self.lit = false;
    }

    pub fn is_on(&self) -> (r: bool)
        ensures
            r == self@.on,
    {
        self.lit
    }

    pub fn toggle(&mut self)
        ensures
            final(self)@ == (BlinkModel { on: !old(self)@.on, ..old(self)@ }),
    {
        if self.is_on() {
            self.off()
        } else {
            self.on()
        }
    }

    /// The blink period in milliseconds.
    pub fn rate(&self) -> (r: u64)
        ensures
            r == self@.rate,
    {
        self.rate
    }

    /// Sets the blink period in milliseconds; zero keeps the output off.
    pub fn set_rate(&mut self, rate: u64)
        ensures
            final(self)@ == (BlinkModel { rate: rate, ..old(self)@ }),
    {
        self.rate = rate;
    }
}

/// With a rate of zero, a tick leaves the output off whatever the time.
pub proof fn lemma_rate_zero_off(l: BlinkModel, now: u64)
    requires
        l.rate == 0,
    ensures
        !tick(l, now).on,
        tick(l, now).rate == 0,
{
}

/// With a rate `R > 0`, a tick `d` timer ticks after the last toggle toggles
/// the output exactly when more than `R` whole milliseconds have passed, and
/// then restarts the period at that tick.
pub proof fn lemma_one_toggle_per_period(l: BlinkModel, d: u64)
    requires
        l.rate > 0,
    ensures
        ({
            let now = l.last.wrapping_add(d);
            let t = tick(l, now);
            &&& (t.on != l.on) == (d / TICKS_PER_MS > l.rate)
            &&& (t.on != l.on) ==> t.last == now
            &&& (t.on == l.on) ==> t.last == l.last
            &&& t.rate == l.rate
        }),
{
    let now = l.last.wrapping_add(d);
    assert(elapsed_ticks(now, l.last) == d as nat);
}

} // verus!
