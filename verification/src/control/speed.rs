//! The speed loop: auto-calibration, stall latch, and the limits on its output.

use crate::msgs::debug::SpeedLoopDebug;
use crate::reals::Real32;
use vstd::prelude::*;

verus! {

/// The pattern of `100.0`.
pub const HUNDRED: u32 = 0x42c8_0000;

/// The pattern of `150.0`: a measured speed beyond this percentage of full
/// scale says that the scale is wrong.
pub const OVERSPEED_PCT: u32 = 0x4316_0000;

/// The pattern of `1000.0`: the full scale assumed until it is calibrated.
pub const MAX_TICKS_PER_SEC_PLACEHOLDER: u32 = 0x447a_0000;

/// The pattern of `16.0`: the duty percentage used while the drivetrain is not
/// calibrated.
pub const UNCALIBRATED_FALLBACK_DUTY_PCT: u32 = 0x4180_0000;

/// How full scale is learned.
#[derive(Clone, Copy, Debug, PartialEq, Eq, Structural)]
pub struct AutocalConfig {
    pub enabled: bool,
    pub min_duty_pct: Real32,
    pub min_samples: usize,
    pub window_us: u64,
}

/// When a drivetrain counts as blocked.
#[derive(Clone, Copy, Debug, PartialEq, Eq, Structural)]
pub struct StallConfig {
    pub enabled: bool,
    pub min_duty_pct: Real32,
    pub min_ticks_per_sec: Real32,
    pub timeout_us: u64,
}

/// One encoder sample, with what floating point makes of it.
#[derive(Clone, Copy, Debug, PartialEq, Eq, Structural)]
pub struct WheelSample {
    pub left_tps: Real32,
    pub right_tps: Real32,
    /// The mean of both wheels.
    pub mean_tps: Real32,
    /// Whether the commanded duty is the one of the sample before.
    pub steady: bool,
    /// The mean scaled up to full duty.
    pub full_scale_tps: Real32,
}

/// The terms of one controller step.
#[derive(Clone, Copy, Debug, PartialEq, Eq, Structural)]
pub struct PidTerms {
    pub measured_pct: Real32,
    pub error_pct: Real32,
    /// The integral if this sample is added to it.
    pub integral_candidate: Real32,
    /// The output with that integral.
    pub u_candidate: Real32,
    /// The output with the integral as it is.
    pub u_held: Real32,
    /// The last output less the largest step.
    pub step_lo: Real32,
    /// The last output plus the largest step.
    pub step_hi: Real32,
    pub target_tps: Real32,
}

/// The closed-loop speed controller: its memory, and every decision on it.
pub struct SpeedController {
    pub autocal: AutocalConfig,
    pub stall: StallConfig,
    pub integral: Real32,
    pub last_error: Real32,
    /// The last output, in percent duty. Read at the command rate, written at
    /// the encoder rate.
    pub output_pct: Real32,
    /// Encoder ticks per second at full duty. Learned at most once.
    pub max_ticks_per_sec: Real32,
    pub autocal_samples: Vec<Real32>,
    /// When the calibration window opened, if it has.
    pub window_start_us: Option<u64>,
    pub autocal_done: bool,
    pub autocal_prev_duty: Real32,
    pub stall_latched: bool,
    /// Since when the wheels have not been turning, if they are not.
    pub stall_since_us: Option<u64>,
    /// What was actually sent last, not what was requested.
    pub last_commanded_duty_pct: Real32,
    pub overspeed_strikes: u32,
    pub uncalibrated_warned: bool,
}

/// Ordered by value.
pub open spec fn ascending(s: Seq<Real32>) -> bool {
    forall|i: int, j: int| 0 <= i <= j < s.len() ==> (#[trigger] s[i]).rank() <= (#[trigger] s[j]).rank()
}

/// The place of the third quartile among `n` ordered samples.
pub open spec fn quartile_place(n: nat) -> int {
    3 * n as int / 4
}

/// Time from `since` to `now`, none if the clock went back.
pub open spec fn elapsed(since: u64, now: u64) -> int {
    if now >= since {
        now - since
    } else {
        0
    }
}

/// Whether `span` has passed from `since` to `now`; not if the clock went back,
/// however short the span is.
pub open spec fn lasted(since: u64, now: u64, span: u64) -> bool {
    now >= since && now - since >= span
}

/// Whether it has.
pub fn has_lasted(since: u64, now: u64, span: u64) -> (r: bool)
    ensures
        r == lasted(since, now, span),
{
    now >= since && now - since >= span
}

/// Put `x` where it belongs among ordered values.
fn insert_ordered(v: &mut Vec<Real32>, x: Real32)
    requires
        ascending(old(v)@),
    ensures
        ascending(final(v)@),
        final(v)@.to_multiset() == old(v)@.to_multiset().insert(x),
        final(v)@.len() == old(v)@.len() + 1,
{
    let mut i: usize = v.len();
    while i > 0 && x.rank_steps() < v[i - 1].rank_steps()
        invariant
            i <= v@.len(),
            v@ == old(v)@,
            forall|k: int| i <= k < v@.len() ==> x.rank() < (#[trigger] v@[k]).rank(),
        decreases i,
    {
        i = i - 1;
    }
    v.insert(i, x);
    proof {
        let b = old(v)@;
        let a = v@;
        assert(a.remove(i as int) =~= b);
        a.to_multiset_ensures();
        assert(a.to_multiset().count(x) > 0) by {
            assert(a[i as int] == x);
            assert(a.contains(x));
        }
        assert(a.to_multiset() =~= b.to_multiset().insert(x));
    }
}

/// The values in order.
fn ordered(v: &Vec<Real32>) -> (out: Vec<Real32>)
    ensures
        ascending(out@),
        out@.to_multiset() == v@.to_multiset(),
        out@.len() == v@.len(),
{
    let mut out: Vec<Real32> = Vec::new();
    let mut i: usize = 0;
    proof {
        assert(v@.take(0) =~= Seq::empty());
    }
    while i < v.len()
        invariant
            i <= v@.len(),
            ascending(out@),
            out@.len() == i,
            out@.to_multiset() == v@.take(i as int).to_multiset(),
        decreases v@.len() - i,
    {
        insert_ordered(&mut out, v[i]);
        proof {
            let t = v@.take(i as int);
            assert(v@.take(i + 1) =~= t.push(v@[i as int]));
            t.to_multiset_ensures();
        }
        i = i + 1;
    }
    assert(v@.take(i as int) =~= v@);
    out
}

impl SpeedController {
    /// A controller at rest that has seen nothing yet.
    pub open spec fn fresh(self, autocal: AutocalConfig, stall: StallConfig) -> bool {
        &&& self.autocal == autocal
        &&& self.stall == stall
        &&& self.integral == Real32(0)
        &&& self.last_error == Real32(0)
        &&& self.output_pct == Real32(0)
        &&& self.max_ticks_per_sec == Real32(MAX_TICKS_PER_SEC_PLACEHOLDER)
        &&& self.autocal_samples@.len() == 0
        &&& self.window_start_us is None
        &&& !self.autocal_done
        &&& self.autocal_prev_duty == Real32(0)
        &&& !self.stall_latched
        &&& self.stall_since_us is None
        &&& self.last_commanded_duty_pct == Real32(0)
        &&& self.overspeed_strikes == 0
        &&& !self.uncalibrated_warned
    }

    pub fn new(autocal: AutocalConfig, stall: StallConfig) -> (c: Self)
        ensures
            c.fresh(autocal, stall),
    {
        SpeedController {
            autocal,
            stall,
            integral: Real32(0),
            last_error: Real32(0),
            output_pct: Real32(0),
            max_ticks_per_sec: Real32(MAX_TICKS_PER_SEC_PLACEHOLDER),
            autocal_samples: Vec::new(),
            window_start_us: None,
            autocal_done: false,
            autocal_prev_duty: Real32(0),
            stall_latched: false,
            stall_since_us: None,
            last_commanded_duty_pct: Real32(0),
            overspeed_strikes: 0,
            uncalibrated_warned: false,
        }
    }

    /// The cruise target, by whether the drivetrain is calibrated.
    pub open spec fn cruise(metres_per_tick: Real32, converted: Real32) -> Real32 {
        if Real32(0).below(metres_per_tick) {
            converted.limited(Real32(0), Real32(HUNDRED))
        } else {
            Real32(UNCALIBRATED_FALLBACK_DUTY_PCT)
        }
    }

    /// The controller once a cruise target was asked for.
    pub open spec fn aimed(self, metres_per_tick: Real32) -> SpeedController {
        SpeedController {
            uncalibrated_warned: self.uncalibrated_warned || !Real32(0).below(metres_per_tick),
            ..self
        }
    }

    /// The cruise target as a duty percentage. `converted` is the physical
    /// target over full scale, in percent; it means something only where the
    /// drivetrain is calibrated. Where it is not, the fallback is used, and the
    /// first time is remembered.
    pub fn target_duty_pct(&mut self, metres_per_tick: Real32, converted: Real32) -> (r: Real32)
        ensures
            r == SpeedController::cruise(metres_per_tick, converted),
            *final(self) == old(self).aimed(metres_per_tick),
    {
        if Real32(0).is_below(metres_per_tick) {
            converted.clamp(Real32(0), Real32(HUNDRED))
        } else {
            self.uncalibrated_warned = true;
            Real32(UNCALIBRATED_FALLBACK_DUTY_PCT)
        }
    }

    /// Forget the integral and the derivative, and seed the output with the
    /// feedforward rather than zero, so that the next transition into closed
    /// loop is bumpless.
    pub fn reset_pid(&mut self, feedforward_pct: Real32)
        ensures
            *final(self) == old(self).restarted(feedforward_pct),
    {
        self.integral = Real32(0);
        self.last_error = Real32(0);
        self.output_pct = feedforward_pct.clamp(Real32(0), Real32(HUNDRED));
    }

    /// The controller with its memory forgotten.
    pub open spec fn restarted(self, feedforward_pct: Real32) -> SpeedController {
        SpeedController {
            integral: Real32(0),
            last_error: Real32(0),
            output_pct: feedforward_pct.limited(Real32(0), Real32(HUNDRED)),
            ..self
        }
    }

    pub fn cached_output_pct(&self) -> (r: Real32)
        ensures
            r == self.output_pct,
    {
        self.output_pct
    }

    pub fn is_stall_latched(&self) -> (r: bool)
        ensures
            r == self.stall_latched,
    {
        self.stall_latched
    }

    /// The controller once a duty was sent.
    pub open spec fn sent(self, pct: Real32) -> SpeedController {
        SpeedController { last_commanded_duty_pct: pct, ..self }
    }

    /// The controller with no stall being timed.
    pub open spec fn untimed(self) -> SpeedController {
        SpeedController { stall_since_us: None, ..self }
    }

    /// Record what was actually sent, for the comparisons of the next sample.
    pub fn set_last_commanded_duty(&mut self, pct: Real32)
        ensures
            *final(self) == old(self).sent(pct),
    {
        self.last_commanded_duty_pct = pct;
    }

    pub fn clear_stall_timing(&mut self)
        ensures
            *final(self) == old(self).untimed(),
    {
        self.stall_since_us = None;
    }

    pub fn max_ticks_per_sec(&self) -> (r: Real32)
        ensures
            r == self.max_ticks_per_sec,
    {
        self.max_ticks_per_sec
    }

    /// A sample says something about full scale only at a real duty and with
    /// turning wheels.
    pub open spec fn tells_scale(self, mean_tps: Real32) -> bool {
        !self.last_commanded_duty_pct.below(self.autocal.min_duty_pct) && !mean_tps.at_most(
            Real32(0),
        )
    }

    /// When the calibration window opened, counting this sample.
    pub open spec fn opened(self, now_us: u64) -> u64 {
        match self.window_start_us {
            Some(t) => t,
            None => now_us,
        }
    }

    /// The samples collected, counting this one if the duty was steady.
    pub open spec fn collected(self, s: WheelSample) -> Seq<Real32> {
        if s.steady {
            self.autocal_samples@.push(s.full_scale_tps)
        } else {
            self.autocal_samples@
        }
    }

    /// How calibration moves on at a sample: nothing but the remembered duty
    /// changes on a sample that tells nothing; while the window lasts, samples
    /// are collected; at its end the decision is taken, once and for all, and
    /// full scale becomes the third quartile of the samples if there are
    /// enough of them.
    pub open spec fn calibrated(self, s: WheelSample, now_us: u64, next: SpeedController) -> bool {
        let seen = SpeedController { autocal_prev_duty: self.last_commanded_duty_pct, ..self };
        let n = self.collected(s).len();
        if !self.tells_scale(s.mean_tps) {
            next == seen
        } else if !lasted(self.opened(now_us), now_us, self.autocal.window_us) {
            &&& next == (SpeedController {
                window_start_us: Some(self.opened(now_us)),
                autocal_samples: next.autocal_samples,
                ..seen
            })
            &&& next.autocal_samples@ == self.collected(s)
        } else if n < self.autocal.min_samples || n == 0 {
            &&& next == (SpeedController {
                window_start_us: Some(self.opened(now_us)),
                autocal_samples: next.autocal_samples,
                autocal_done: true,
                ..seen
            })
            &&& next.autocal_samples@ == self.collected(s)
        } else {
            &&& next == (SpeedController {
                window_start_us: Some(self.opened(now_us)),
                autocal_samples: next.autocal_samples,
                autocal_done: true,
                max_ticks_per_sec: next.autocal_samples@[quartile_place(n)],
                ..seen
            }).restarted(self.last_commanded_duty_pct)
            &&& ascending(next.autocal_samples@)
            &&& next.autocal_samples@.to_multiset() == self.collected(s).to_multiset()
            &&& next.autocal_samples@.len() == n
        }
    }

    /// Learn full scale from the flat opening stretch of a run.
    fn update_autocal(&mut self, s: &WheelSample, now_us: u64)
        ensures
            old(self).calibrated(*s, now_us, *final(self)),
    {
        let duty = self.last_commanded_duty_pct;
        self.autocal_prev_duty = duty;
        if duty.is_below(self.autocal.min_duty_pct) || s.mean_tps.is_at_most(Real32(0)) {
            return ;
        }
        let start: u64 = match self.window_start_us {
            Some(t) => t,
            None => now_us,
        };
        self.window_start_us = Some(start);
        if s.steady {
            self.autocal_samples.push(s.full_scale_tps);
        }
        if !has_lasted(start, now_us, self.autocal.window_us) {
            return ;
        }
        self.autocal_done = true;
        let n: usize = self.autocal_samples.len();
        if n < self.autocal.min_samples || n == 0 {
            return ;
        }
        self.autocal_samples = ordered(&self.autocal_samples);
        let rest: usize = if n % 4 == 0 {
            n / 4
        } else {
            n / 4 + 1
        };
        assert(n - rest == quartile_place(n as nat));
        self.max_ticks_per_sec = self.autocal_samples[n - rest];
        self.reset_pid(duty);
    }

    /// How the stall latch moves on at a sample. Below the duty that counts,
    /// timing stops and a commanded stop releases the latch; turning wheels
    /// stop the timing; standing wheels start it, and latch when it runs out.
    pub open spec fn stall_checked(self, mean_tps: Real32, now_us: u64) -> SpeedController {
        let duty = self.last_commanded_duty_pct;
        if duty.below(self.stall.min_duty_pct) {
            SpeedController {
                stall_since_us: None,
                stall_latched: self.stall_latched && !duty.at_most(Real32(0)),
                ..self
            }
        } else if self.stall.min_ticks_per_sec.at_most(mean_tps.without_sign()) {
            SpeedController { stall_since_us: None, ..self }
        } else {
            match self.stall_since_us {
                None => SpeedController { stall_since_us: Some(now_us), ..self },
                Some(t) => SpeedController {
                    stall_latched: self.stall_latched || lasted(t, now_us, self.stall.timeout_us),
                    ..self
                },
            }
        }
    }

    /// Detect a blocked drivetrain: real duty commanded, wheels not turning.
    fn update_stall(&mut self, mean_tps: Real32, now_us: u64)
        ensures
            *final(self) == old(self).stall_checked(mean_tps, now_us),
    {
        let duty = self.last_commanded_duty_pct;
        if duty.is_below(self.stall.min_duty_pct) {
            self.stall_since_us = None;
            if self.stall_latched && duty.is_at_most(Real32(0)) {
                self.stall_latched = false;
            }
            return ;
        }
        if self.stall.min_ticks_per_sec.is_at_most(mean_tps.abs()) {
            self.stall_since_us = None;
            return ;
        }
        match self.stall_since_us {
            None => {
                self.stall_since_us = Some(now_us);
            },
            Some(t) => {
                if !self.stall_latched && has_lasted(t, now_us, self.stall.timeout_us) {
                    self.stall_latched = true;
                }
            },
        }
    }

    /// Calibration at a sample, if it is switched on and still open.
    pub open spec fn calibrated_if_due(
        self,
        s: WheelSample,
        now_us: u64,
        next: SpeedController,
    ) -> bool {
        if self.autocal.enabled && !self.autocal_done {
            self.calibrated(s, now_us, next)
        } else {
            next == self
        }
    }

    /// What a sample does before the controller step: calibration, then the
    /// stall latch, each if it is switched on.
    pub open spec fn observed(self, s: WheelSample, now_us: u64, next: SpeedController) -> bool {
        exists|mid: SpeedController|
            {
                &&& #[trigger] self.calibrated_if_due(s, now_us, mid)
                &&& next == (if self.stall.enabled {
                    mid.stall_checked(s.mean_tps, now_us)
                } else {
                    mid
                })
            }
    }

    /// What a sample does, given what is to be driven: where that is nothing,
    /// the loop is put at rest as well.
    pub open spec fn taken_in(
        self,
        s: WheelSample,
        now_us: u64,
        target_duty_pct: Real32,
        next: SpeedController,
    ) -> bool {
        exists|mid: SpeedController|
            {
                &&& #[trigger] self.observed(s, now_us, mid)
                &&& next == (if target_duty_pct.at_most(Real32(0)) {
                    mid.restarted(Real32(0))
                } else {
                    mid
                })
            }
    }

    /// What is published where nothing is to be driven.
    pub open spec fn at_rest(s: WheelSample, target_duty_pct: Real32) -> Option<SpeedLoopDebug> {
        if target_duty_pct.at_most(Real32(0)) {
            Some(
                SpeedLoopDebug {
                    measured_left_tps: s.left_tps,
                    measured_right_tps: s.right_tps,
                    target_tps: Real32(0),
                    error_pct: Real32(0),
                    pid_output_pct: Real32(0),
                },
            )
        } else {
            None
        }
    }

    /// One encoder sample. Calibration and stall detection always run. Returns
    /// what is published where nothing is to be driven, and `None` where a
    /// controller step with [`SpeedController::pid_step`] is due.
    pub fn on_sample(&mut self, s: &WheelSample, now_us: u64, target_duty_pct: Real32) -> (r:
        Option<SpeedLoopDebug>)
        ensures
            old(self).taken_in(*s, now_us, target_duty_pct, *final(self)),
            r == SpeedController::at_rest(*s, target_duty_pct),
    {
        if self.autocal.enabled && !self.autocal_done {
            self.update_autocal(s, now_us);
        }
        let ghost mid = *self;
        assert(old(self).calibrated_if_due(*s, now_us, mid));
        if self.stall.enabled {
            self.update_stall(s.mean_tps, now_us);
        }
        let ghost seen = *self;
        assert(old(self).observed(*s, now_us, seen));
        if target_duty_pct.is_at_most(Real32(0)) {
            self.reset_pid(Real32(0));
            return Some(
                SpeedLoopDebug {
                    measured_left_tps: s.left_tps,
                    measured_right_tps: s.right_tps,
                    target_tps: Real32(0),
                    error_pct: Real32(0),
                    pid_output_pct: Real32(0),
                },
            );
        }
        None
    }

    /// Adding to the integral would only push a saturated output further out.
    pub open spec fn winds_up(t: PidTerms) -> bool {
        (Real32(HUNDRED).below(t.u_candidate) && Real32(0).below(t.error_pct))
            || (t.u_candidate.below(Real32(0)) && t.error_pct.below(Real32(0)))
    }

    /// The output of a step: the candidate, or the held one where the integral
    /// would wind up; into range, then within one step of the last output, and
    /// into range again.
    pub open spec fn output_of(t: PidTerms) -> Real32 {
        (if SpeedController::winds_up(t) {
            t.u_held
        } else {
            t.u_candidate
        }).limited(Real32(0), Real32(HUNDRED)).limited(t.step_lo, t.step_hi).limited(
            Real32(0),
            Real32(HUNDRED),
        )
    }

    /// The controller after a step.
    pub open spec fn stepped(self, t: PidTerms) -> SpeedController {
        SpeedController {
            integral: if SpeedController::winds_up(t) {
                self.integral
            } else {
                t.integral_candidate
            },
            last_error: t.error_pct,
            output_pct: SpeedController::output_of(t),
            overspeed_strikes: if !Real32(OVERSPEED_PCT).below(t.measured_pct) {
                0
            } else if self.overspeed_strikes == u32::MAX {
                u32::MAX
            } else {
                (self.overspeed_strikes + 1) as u32
            },
            ..self
        }
    }

    /// What is published of a step.
    pub open spec fn step_report(s: WheelSample, t: PidTerms) -> SpeedLoopDebug {
        SpeedLoopDebug {
            measured_left_tps: s.left_tps,
            measured_right_tps: s.right_tps,
            target_tps: t.target_tps,
            error_pct: t.error_pct,
            pid_output_pct: SpeedController::output_of(t),
        }
    }

    /// One controller step over the terms that were computed for it.
    pub fn pid_step(&mut self, s: &WheelSample, t: &PidTerms) -> (d: SpeedLoopDebug)
        requires
            t.step_lo.at_most(t.step_hi),
        ensures
            *final(self) == old(self).stepped(*t),
            d == SpeedController::step_report(*s, *t),
    {
        let zero = Real32(0);
        let full = Real32(HUNDRED);
        let winds_up: bool = (full.is_below(t.u_candidate) && zero.is_below(t.error_pct)) || (
        t.u_candidate.is_below(zero) && t.error_pct.is_below(zero));
        let u = if winds_up {
            t.u_held
        } else {
            self.integral = t.integral_candidate;
            t.u_candidate
        };
        self.last_error = t.error_pct;
        self.output_pct = u.clamp(zero, full).clamp(t.step_lo, t.step_hi).clamp(zero, full);
        self.overspeed_strikes = if Real32(OVERSPEED_PCT).is_below(t.measured_pct) {
            self.overspeed_strikes.saturating_add(1)
        } else {
            0
        };
        SpeedLoopDebug {
            measured_left_tps: s.left_tps,
            measured_right_tps: s.right_tps,
            target_tps: t.target_tps,
            error_pct: t.error_pct,
            pid_output_pct: self.output_pct,
        }
    }
}

/// The output of a step is a duty: whatever the terms, as long as they are
/// numbers, it lies in `0..=100`; and it lies within one step of the last
/// output where that one was a duty too.
pub proof fn law_output_is_bounded(t: PidTerms)
    requires
        !t.u_candidate.nan(),
        !t.u_held.nan(),
        t.step_lo.at_most(t.step_hi),
    ensures
        Real32(0).at_most(SpeedController::output_of(t)),
        SpeedController::output_of(t).at_most(Real32(HUNDRED)),
        t.step_lo.at_most(Real32(HUNDRED)) && Real32(0).at_most(t.step_hi) ==> t.step_lo.at_most(
            SpeedController::output_of(t),
        ) && SpeedController::output_of(t).at_most(t.step_hi),
{
}

/// A stall latch is released by a commanded stop and by nothing else, and it is
/// never set by the first standing sample.
pub proof fn law_stall_latch(c: SpeedController, mean_tps: Real32, now_us: u64)
    ensures
        c.stall_latched && !c.stall_checked(mean_tps, now_us).stall_latched
            ==> c.last_commanded_duty_pct.at_most(Real32(0)),
        !c.stall_latched && c.stall_checked(mean_tps, now_us).stall_latched ==> {
            &&& c.stall_since_us is Some
            &&& lasted(c.stall_since_us->0, now_us, c.stall.timeout_us)
            &&& !c.last_commanded_duty_pct.below(c.stall.min_duty_pct)
            &&& !c.stall.min_ticks_per_sec.at_most(mean_tps.without_sign())
        },
{
}

/// Calibration decides once: whatever is learned, it is learned at the end of
/// the window, and full scale does not change while samples are collected.
pub proof fn law_calibration_decides_once(
    c: SpeedController,
    s: WheelSample,
    now_us: u64,
    next: SpeedController,
)
    requires
        !c.autocal_done,
        c.calibrated(s, now_us, next),
    ensures
        next.max_ticks_per_sec != c.max_ticks_per_sec ==> next.autocal_done,
        next.autocal_done ==> lasted(c.opened(now_us), now_us, c.autocal.window_us),
{
}

/// The output follows the controller: it is what the controller asked for where
/// that is a duty and within one step of the last output. Otherwise it is as
/// near to that as both permit.
pub proof fn law_output_follows_the_controller(t: PidTerms, other: Real32)
    requires
        !t.u_candidate.nan(),
        !t.u_held.nan(),
        !t.error_pct.nan(),
        t.step_lo.at_most(t.step_hi),
        Real32(0).at_most(other) && other.at_most(Real32(0x42c8_0000)),
        t.step_lo.at_most(other) && other.at_most(t.step_hi),
    ensures
        ({
            let held = (t.u_candidate.rank() > 0x42c8_0000 && t.error_pct.rank() > 0) || (
            t.u_candidate.rank() < 0 && t.error_pct.rank() < 0);
            let u = if held {
                t.u_held
            } else {
                t.u_candidate
            };
            let out = SpeedController::output_of(t);
            &&& Real32(0).at_most(u) && u.at_most(Real32(0x42c8_0000)) && t.step_lo.at_most(u)
                && u.at_most(t.step_hi) ==> out == u
            &&& Real32(0).at_most(out) && out.at_most(Real32(0x42c8_0000))
            &&& t.step_lo.at_most(out) && out.at_most(t.step_hi)
            &&& u.below(out) ==> out.at_most(other)
            &&& out.below(u) ==> other.at_most(out)
        }),
{
}

/// The integral takes in a sample unless that would only push a saturated output
/// further out: above full duty while still too slow, or below none while still
/// too fast.
pub proof fn law_integral_does_not_wind_up(c: SpeedController, t: PidTerms)
    requires
        !t.u_candidate.nan(),
        !t.error_pct.nan(),
    ensures
        ({
            let saturated = (t.u_candidate.rank() > 0x42c8_0000 && t.error_pct.rank() > 0) || (
            t.u_candidate.rank() < 0 && t.error_pct.rank() < 0);
            &&& saturated ==> c.stepped(t).integral == c.integral
            &&& !saturated ==> c.stepped(t).integral == t.integral_candidate
        }),
{
}

/// A step is remembered and published as it was: its error, its output, the
/// wheels it saw. Samples beyond one and a half times full scale are counted
/// while they last. The rest of the memory is not a step's concern.
pub proof fn law_steps_are_remembered(c: SpeedController, s: WheelSample, t: PidTerms)
    ensures
        ({
            let next = c.stepped(t);
            let d = SpeedController::step_report(s, t);
            &&& next.last_error == t.error_pct && d.error_pct == t.error_pct
            &&& next.output_pct == d.pid_output_pct
            &&& d.measured_left_tps == s.left_tps && d.measured_right_tps == s.right_tps
            &&& d.target_tps == t.target_tps
            &&& Real32(0x4316_0000).below(t.measured_pct) && c.overspeed_strikes < u32::MAX
                ==> next.overspeed_strikes == c.overspeed_strikes + 1
            &&& t.measured_pct.at_most(Real32(0x4316_0000)) ==> next.overspeed_strikes == 0
            &&& next.stall_latched == c.stall_latched && next.stall_since_us == c.stall_since_us
            &&& next.max_ticks_per_sec == c.max_ticks_per_sec && next.autocal_done == c.autocal_done
            &&& next.last_commanded_duty_pct == c.last_commanded_duty_pct
            &&& next.autocal_samples@ == c.autocal_samples@
        }),
{
}

/// The cruise target is the converted one where that is a duty and the
/// drivetrain is calibrated; none at all below it, full duty above; and a fixed
/// sixteen percent without calibration.
pub proof fn law_cruise(metres_per_tick: Real32, converted: Real32)
    requires
        !converted.nan(),
    ensures
        ({
            let r = SpeedController::cruise(metres_per_tick, converted);
            let calibrated = 0 < metres_per_tick.0 <= 0x7f80_0000;
            &&& !calibrated ==> r == Real32::whole(16)
            &&& calibrated && 0 <= converted.rank() <= 0x42c8_0000 ==> r == converted
            &&& calibrated && converted.rank() > 0x42c8_0000 ==> r == Real32::whole(100)
            &&& calibrated && converted.rank() < 0 ==> r == Real32::whole(0)
        }),
{
}

/// Where no duty is asked for, the wheels are published as they were seen and
/// nothing is asked of them; where one is, the controller takes a step instead.
pub proof fn law_at_rest(s: WheelSample, target_duty_pct: Real32)
    ensures
        SpeedController::at_rest(s, target_duty_pct) is Some <==> !target_duty_pct.nan()
            && target_duty_pct.rank() <= 0,
        SpeedController::at_rest(s, target_duty_pct) matches Some(d) ==> d.measured_left_tps
            == s.left_tps && d.measured_right_tps == s.right_tps && d.target_tps == Real32(0)
            && d.error_pct == Real32(0) && d.pid_output_pct == Real32(0),
{
}

/// A restart forgets what the controller held and begins from the feedforward,
/// as a duty; nothing else is forgotten.
pub proof fn law_restarts(c: SpeedController, feedforward_pct: Real32)
    requires
        !feedforward_pct.nan(),
    ensures
        ({
            let next = c.restarted(feedforward_pct);
            &&& next.integral == Real32(0) && next.last_error == Real32(0)
            &&& 0 <= feedforward_pct.rank() <= 0x42c8_0000 ==> next.output_pct == feedforward_pct
            &&& feedforward_pct.rank() > 0x42c8_0000 ==> next.output_pct == Real32(0x42c8_0000)
            &&& feedforward_pct.rank() < 0 ==> next.output_pct == Real32(0)
            &&& next == (SpeedController {
                integral: next.integral,
                last_error: next.last_error,
                output_pct: next.output_pct,
                ..c
            })
        }),
{
}

/// A blocked drivetrain is noticed: where a real duty has been commanded and the
/// wheels have not turned for the whole timeout, the latch is set. Before that
/// it is not, and the timing goes on from the first standing sample.
pub proof fn law_stalls_are_latched(c: SpeedController, mean_tps: Real32, now_us: u64)
    requires
        c.stall.min_duty_pct.at_most(c.last_commanded_duty_pct),
        mean_tps.without_sign().below(c.stall.min_ticks_per_sec),
    ensures
        ({
            let next = c.stall_checked(mean_tps, now_us);
            &&& c.stall_since_us is None ==> next.stall_since_us == Some(now_us)
                && next.stall_latched == c.stall_latched
            &&& c.stall_since_us matches Some(t) ==> {
                &&& next.stall_since_us == Some(t)
                &&& now_us >= t + c.stall.timeout_us ==> next.stall_latched
                &&& now_us < t + c.stall.timeout_us ==> next.stall_latched == c.stall_latched
            }
        }),
{
}

/// Turning wheels, and a duty too small to turn them, stop the timing; a latch
/// outlives both, until nothing is commanded any more.
pub proof fn law_stall_timing_stops(c: SpeedController, mean_tps: Real32, now_us: u64)
    requires
        c.last_commanded_duty_pct.below(c.stall.min_duty_pct) || c.stall.min_ticks_per_sec.at_most(
            mean_tps.without_sign(),
        ),
    ensures
        ({
            let next = c.stall_checked(mean_tps, now_us);
            &&& next.stall_since_us is None
            &&& Real32(0).below(c.last_commanded_duty_pct) ==> next.stall_latched == c.stall_latched
            &&& c.last_commanded_duty_pct.at_most(Real32(0)) && c.last_commanded_duty_pct.below(
                c.stall.min_duty_pct,
            ) ==> !next.stall_latched
            &&& next == (SpeedController {
                stall_since_us: next.stall_since_us,
                stall_latched: next.stall_latched,
                ..c
            })
        }),
{
}

/// What is learned is the third quartile: of the samples that were collected,
/// put in order, the one with three quarters of them before it.
pub proof fn law_third_quartile_is_learned(
    c: SpeedController,
    s: WheelSample,
    now_us: u64,
    next: SpeedController,
)
    requires
        !c.autocal_done,
        c.calibrated(s, now_us, next),
        next.autocal_done,
        next.autocal_samples@.len() >= c.autocal.min_samples,
        next.autocal_samples@.len() > 0,
    ensures
        ascending(next.autocal_samples@),
        next.autocal_samples@.to_multiset() == (if s.steady {
            c.autocal_samples@.push(s.full_scale_tps).to_multiset()
        } else {
            c.autocal_samples@.to_multiset()
        }),
        exists|i: int|
            0 <= i < next.autocal_samples@.len() && next.max_ticks_per_sec
                == #[trigger] next.autocal_samples@[i] && 4 * i <= 3 * next.autocal_samples@.len()
                < 4 * i + 4,
        next.integral == Real32(0) && next.last_error == Real32(0),
{
    let n = next.autocal_samples@.len();
    assert(next.max_ticks_per_sec == next.autocal_samples@[quartile_place(n)]);
}

/// Samples are collected only at a real duty, with turning wheels and a steady
/// command, and from the first such sample on for as long as the window lasts;
/// too few of them teach nothing.
pub proof fn law_collecting(
    c: SpeedController,
    s: WheelSample,
    now_us: u64,
    next: SpeedController,
)
    requires
        !c.autocal_done,
        c.calibrated(s, now_us, next),
    ensures
        ({
            let tells = !c.last_commanded_duty_pct.below(c.autocal.min_duty_pct)
                && !s.mean_tps.at_most(Real32(0));
            let start = if c.window_start_us is Some {
                c.window_start_us->0
            } else {
                now_us
            };
            &&& next.autocal_prev_duty == c.last_commanded_duty_pct
            &&& !tells ==> next.autocal_samples@ == c.autocal_samples@ && next.window_start_us
                == c.window_start_us && !next.autocal_done
            &&& tells ==> next.window_start_us == Some(start)
            &&& tells ==> next.autocal_done == (now_us >= start && now_us - start
                >= c.autocal.window_us)
            &&& tells && s.steady ==> next.autocal_samples@.len() == c.autocal_samples@.len() + 1
            &&& tells && !s.steady ==> next.autocal_samples@.len() == c.autocal_samples@.len()
            &&& !next.autocal_done ==> next.autocal_samples@ == (if tells && s.steady {
                c.autocal_samples@.push(s.full_scale_tps)
            } else {
                c.autocal_samples@
            })
            &&& next.autocal_samples@.len() < c.autocal.min_samples || !next.autocal_done
                ==> next.max_ticks_per_sec == c.max_ticks_per_sec && next.output_pct == c.output_pct
            &&& next.stall_latched == c.stall_latched && next.last_commanded_duty_pct
                == c.last_commanded_duty_pct
        }),
{
}

/// Time is told on a clock that may go back: what has passed is never negative,
/// and a span has passed exactly once the clock shows that much more.
pub proof fn law_time_passes(since: u64, now: u64, span: u64)
    ensures
        now >= since ==> since + elapsed(since, now) == now,
        now < since ==> elapsed(since, now) == 0,
        lasted(since, now, span) <==> now >= since + span,
{
}

/// What was sent is remembered as it was sent, a warning once given stays given,
/// and a stall that is no longer timed starts anew; nothing else changes with
/// them.
pub proof fn law_notes_are_kept_apart(c: SpeedController, pct: Real32, metres_per_tick: Real32)
    ensures
        c.sent(pct).last_commanded_duty_pct == pct,
        c.sent(pct) == (SpeedController {
            last_commanded_duty_pct: c.sent(pct).last_commanded_duty_pct,
            ..c
        }),
        c.untimed().stall_since_us is None,
        c.untimed() == (SpeedController { stall_since_us: c.untimed().stall_since_us, ..c }),
        c.aimed(metres_per_tick) == (SpeedController {
            uncalibrated_warned: c.aimed(metres_per_tick).uncalibrated_warned,
            ..c
        }),
        c.uncalibrated_warned ==> c.aimed(metres_per_tick).uncalibrated_warned,
        Real32(0).below(metres_per_tick) ==> c.aimed(metres_per_tick) == c,
        !Real32(0).below(metres_per_tick) ==> c.aimed(metres_per_tick).uncalibrated_warned,
{
}

/// A new controller knows nothing: no integral, no output, no stall, a full scale
/// of a thousand ticks per second until it learns another.
pub proof fn law_new_controllers(c: SpeedController, autocal: AutocalConfig, stall: StallConfig)
    requires
        c.fresh(autocal, stall),
    ensures
        c.autocal == autocal && c.stall == stall,
        c.integral == Real32(0) && c.last_error == Real32(0) && c.output_pct == Real32(0),
        c.max_ticks_per_sec == Real32(0x447a_0000),
        c.autocal_samples@.len() == 0 && c.window_start_us is None && !c.autocal_done,
        !c.stall_latched && c.stall_since_us is None,
        c.last_commanded_duty_pct == Real32(0) && c.overspeed_strikes == 0,
{
}

/// A sample is taken in as a whole: where nothing is to be driven, the loop is at
/// rest after it; full scale is learned only where that is switched on and not
/// yet done, and a stall is noticed only where that is switched on.
#[verifier::rlimit(40)]
pub proof fn law_samples_are_taken_in(
    c: SpeedController,
    s: WheelSample,
    now_us: u64,
    target_duty_pct: Real32,
    next: SpeedController,
)
    requires
        c.taken_in(s, now_us, target_duty_pct, next),
    ensures
        target_duty_pct.at_most(Real32(0)) ==> {
            &&& next.integral == Real32(0)
            &&& next.last_error == Real32(0)
            &&& next.output_pct == Real32(0)
        },
        !c.autocal.enabled || c.autocal_done ==> {
            &&& next.max_ticks_per_sec == c.max_ticks_per_sec
            &&& next.autocal_samples@ == c.autocal_samples@
            &&& next.window_start_us == c.window_start_us
            &&& next.autocal_done == c.autocal_done
            &&& next.autocal_prev_duty == c.autocal_prev_duty
            &&& !target_duty_pct.at_most(Real32(0)) ==> next.output_pct == c.output_pct
                && next.integral == c.integral && next.last_error == c.last_error
        },
        c.autocal.enabled && !c.autocal_done ==> {
            &&& next.autocal_prev_duty == c.last_commanded_duty_pct
            &&& c.tells_scale(s.mean_tps) ==> next.window_start_us is Some
        },
        !c.stall.enabled ==> next.stall_latched == c.stall_latched && next.stall_since_us
            == c.stall_since_us,
        c.stall.enabled ==> next.stall_latched == c.stall_checked(s.mean_tps, now_us).stall_latched
            && next.stall_since_us == c.stall_checked(s.mean_tps, now_us).stall_since_us,
        next.last_commanded_duty_pct == c.last_commanded_duty_pct,
        next.overspeed_strikes == c.overspeed_strikes,
{
    let zero = Real32(0).limited(Real32(0), Real32(HUNDRED));
    assert(zero == Real32(0));
    let mid = choose|mid: SpeedController|
        {
            &&& #[trigger] c.observed(s, now_us, mid)
            &&& next == (if target_duty_pct.at_most(Real32(0)) {
                mid.restarted(Real32(0))
            } else {
                mid
            })
        };
    let first = choose|first: SpeedController|
        {
            &&& #[trigger] c.calibrated_if_due(s, now_us, first)
            &&& mid == (if c.stall.enabled {
                first.stall_checked(s.mean_tps, now_us)
            } else {
                first
            })
        };
}

} // verus!
