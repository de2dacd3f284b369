//! A fixed-rate gate for the physics tick: a stub that steps at most once
//! per tick interval, measured on a caller-supplied microsecond clock.

use vstd::prelude::*;

use crate::TICKS_PER_SECOND;

verus! {

/// Microseconds in one second, for converting the tick rate.
pub const MICROS_PER_SECOND: u64 = 1_000_000;

/// The controller steps when more than `MICROS_PER_SECOND /
/// TICKS_PER_SECOND` microseconds have passed since its last step.
pub struct PhysicsController {
    last_update: u64,
}

impl PhysicsController {
    /// The microsecond timestamp of the controller's last step.
    pub closed spec fn last_update_spec(&self) -> u64 {
        self.last_update
    }

    /// The tick interval in microseconds.
    pub open spec fn step_interval_micros() -> int {
        MICROS_PER_SECOND as int / TICKS_PER_SECOND as int
    }

    /// A controller whose last step is the given reading of the clock.
    pub fn new(now_micros: u64) -> (r: PhysicsController)
        ensures
            r.last_update_spec() == now_micros,
    {
        PhysicsController { last_update: now_micros }
    }

    /// The microsecond timestamp of the controller's last step.
    pub fn last_update_micros(&self) -> (r: u64)
        ensures
            r == self.last_update_spec(),
    {
        self.last_update
    }

    /// More than one tick interval has elapsed since the last step.
    fn should_step(&self, now_micros: u64) -> (r: bool)
        requires
            now_micros >= self.last_update_spec(),
        ensures
            r == (now_micros - self.last_update_spec() > Self::step_interval_micros()),
    {
        let elapsed = now_micros - self.last_update;
        elapsed > MICROS_PER_SECOND / (TICKS_PER_SECOND as u64)
    }

    /// Record a step at the given reading of the clock.
    fn step(&mut self, now_micros: u64)
        ensures
            final(self).last_update_spec() == now_micros,
    {
        self.last_update = now_micros;
    }

    /// Step if a full tick interval has passed, otherwise leave the
    /// controller unchanged. The clock must not run backwards.
    pub fn request_update(&mut self, now_micros: u64)
        requires
            now_micros >= old(self).last_update_spec(),
        ensures
            final(self).last_update_spec() == if now_micros - old(self).last_update_spec()
                > Self::step_interval_micros() {
                now_micros
            } else {
                old(self).last_update_spec()
            },
    {
        if self.should_step(now_micros) {
            self.step(now_micros);
        }
    }
}

} // verus!
