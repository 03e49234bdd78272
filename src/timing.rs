//! The control loop's timing decisions: whether management still fits in the
//! period, how long to sleep, and the overrun count.
use vstd::prelude::*;

verus! {

/// Time kept free at the end of a period for management, in microseconds.
pub const MANAGEMENT_HEADROOM_US: u64 = 100;

/// Whether the management service may run after `elapsed_us` of a period of
/// `period_us`: only while at least the headroom is left.
pub fn management_allowed(elapsed_us: u64, period_us: u64) -> (r: bool)
    ensures
        r == (elapsed_us + MANAGEMENT_HEADROOM_US <= period_us),
{
    period_us >= MANAGEMENT_HEADROOM_US && elapsed_us <= period_us - MANAGEMENT_HEADROOM_US
}

/// Telemetry of the control loop.
#[derive(PartialEq, Eq, Structural, Clone, Copy, Debug)]
pub struct LoopTiming {
    pub overruns: u64,
    pub last_sleep: u64,
    pub last_duration: u64,
}

impl LoopTiming {
    pub fn new() -> (r: LoopTiming)
        ensures
            r.overruns == 0,
            r.last_sleep == 0,
            r.last_duration == 0,
    {
        LoopTiming { overruns: 0, last_sleep: 0, last_duration: 0 }
    }

    /// Closes a period that took `elapsed_us`: returns how long to sleep for
    /// the rest of it, or counts an overrun (saturating) and sleeps not at all.
    pub fn end_period(&mut self, elapsed_us: u64, period_us: u64) -> (sleep_us: u64)
        ensures
            elapsed_us <= period_us ==> sleep_us == period_us - elapsed_us
                && final(self).overruns == old(self).overruns,
            elapsed_us > period_us ==> sleep_us == 0 && final(self).overruns == if old(
                self,
            ).overruns == u64::MAX {
                u64::MAX
            } else {
                (old(self).overruns + 1) as u64
            },
            final(self).last_sleep == sleep_us,
            final(self).last_duration == elapsed_us,
    {
        let sleep: u64 = if elapsed_us <= period_us {
            period_us - elapsed_us
        } else {
            self.overruns = self.overruns.saturating_add(1);
            0
        };
        self.last_duration = elapsed_us;
        self.last_sleep = sleep;
        sleep
    }
}

} // verus!
