//! Stall detection from what the speed loop reports: commanding hard while
//! barely moving, for long enough, means that a wheel is blocked.

use crate::control::speed;
use crate::control::speed::StallConfig;
use crate::msgs::debug::SpeedLoopDebug;
use crate::reals::Real32;
use vstd::prelude::*;

verus! {

/// Tracks how long the rover has been commanding hard and barely moving.
#[derive(Clone, Copy, Debug, PartialEq, Eq, Structural)]
pub struct StallDetector {
    pub config: StallConfig,
    pub since_us: Option<u64>,
}

impl StallDetector {
    pub fn new(config: StallConfig) -> (d: Self)
        ensures
            d == (StallDetector { config, since_us: None }),
    {
        StallDetector { config, since_us: None }
    }

    /// Commanding hard, in either direction, and barely moving.
    pub open spec fn struggling(self, debug: SpeedLoopDebug, mean_tps: Real32) -> bool {
        &&& self.config.min_duty_pct.at_most(debug.pid_output_pct.without_sign())
        &&& mean_tps.without_sign().below(self.config.min_ticks_per_sec)
    }

    /// Since when the rover has been struggling, this reading included.
    pub open spec fn struggling_since(
        self,
        debug: SpeedLoopDebug,
        mean_tps: Real32,
        now_us: u64,
    ) -> Option<u64> {
        if !self.config.enabled {
            self.since_us
        } else if !self.struggling(debug, mean_tps) {
            None
        } else {
            match self.since_us {
                Some(t) => Some(t),
                None => Some(now_us),
            }
        }
    }

    /// The detector once a reading has been taken in.
    pub open spec fn observed(
        self,
        debug: SpeedLoopDebug,
        mean_tps: Real32,
        now_us: u64,
    ) -> StallDetector {
        StallDetector { since_us: self.struggling_since(debug, mean_tps, now_us), ..self }
    }

    /// Whether the rover has been struggling for the whole timeout.
    pub open spec fn stalled(self, now_us: u64) -> bool {
        self.config.enabled && match self.since_us {
            Some(t) => speed::lasted(t, now_us, self.config.timeout_us),
            None => false,
        }
    }

    /// Feed one reading; `mean_tps` is the mean of its two wheel speeds.
    /// Returns whether the rover is stalled as of this reading: only once it
    /// has been struggling, without a break, for the whole timeout.
    pub fn observe(&mut self, debug: &SpeedLoopDebug, mean_tps: Real32, now_us: u64) -> (r: bool)
        ensures
            *final(self) == old(self).observed(*debug, mean_tps, now_us),
            r == old(self).observed(*debug, mean_tps, now_us).stalled(now_us),
    {
        if !self.config.enabled {
            return false;
        }
        let commanding_hard: bool = self.config.min_duty_pct.is_at_most(
            debug.pid_output_pct.abs(),
        );
        let barely_moving: bool = mean_tps.abs().is_below(self.config.min_ticks_per_sec);
        if commanding_hard && barely_moving {
            let since: u64 = match self.since_us {
                Some(t) => t,
                None => now_us,
            };
            self.since_us = Some(since);
            speed::has_lasted(since, now_us, self.config.timeout_us)
        } else {
            self.since_us = None;
            false
        }
    }
}

/// One good reading starts the clock anew: right after it, a stall is as far
/// away as ever.
pub proof fn law_recovery_resets_the_clock(
    d: StallDetector,
    good: SpeedLoopDebug,
    good_tps: Real32,
    bad: SpeedLoopDebug,
    bad_tps: Real32,
    t1: u64,
    t2: u64,
)
    requires
        d.config.enabled,
        !d.struggling(good, good_tps),
        d.struggling(bad, bad_tps),
    ensures
        (StallDetector {
            since_us: d.struggling_since(good, good_tps, t1),
            ..d
        }).struggling_since(bad, bad_tps, t2) == Some(t2),
{
}

/// A stall is a struggle that has gone on for the timeout: no reading short of
/// one, and no shorter struggle, is a stall, and every longer one is. A detector
/// that is switched off never tells of one.
pub proof fn law_stalls(
    d: StallDetector,
    debug: SpeedLoopDebug,
    mean_tps: Real32,
    now_us: u64,
    later_us: u64,
)
    requires
        now_us <= later_us,
    ensures
        ({
            let e = d.observed(debug, mean_tps, now_us);
            let again = e.observed(debug, mean_tps, later_us);
            &&& e.config == d.config
            &&& !d.config.enabled ==> !e.stalled(now_us) && e == d
            &&& !d.struggling(debug, mean_tps) ==> !e.stalled(now_us)
            &&& d.config.enabled && d.since_us is None && d.struggling(debug, mean_tps) ==> {
                &&& again.since_us == Some(now_us)
                &&& again.stalled(later_us) <==> later_us - now_us >= d.config.timeout_us
            }
        }),
{
}

/// Struggling is to command no less than the least duty and to move slower than
/// the least speed, whichever way.
pub proof fn law_struggling(d: StallDetector, debug: SpeedLoopDebug, mean_tps: Real32)
    ensures
        debug.pid_output_pct.without_sign().below(d.config.min_duty_pct) ==> !d.struggling(
            debug,
            mean_tps,
        ),
        d.config.min_ticks_per_sec.at_most(mean_tps.without_sign()) ==> !d.struggling(
            debug,
            mean_tps,
        ),
        d.config.min_duty_pct.at_most(debug.pid_output_pct.without_sign())
            && mean_tps.without_sign().below(d.config.min_ticks_per_sec) ==> d.struggling(
            debug,
            mean_tps,
        ),
{
}

} // verus!
