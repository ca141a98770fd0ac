//! From an estimate and a steering request to a chassis command, through every
//! guard rail.

use crate::control::speed;
use crate::control::speed::{AutocalConfig, SpeedController, StallConfig, HUNDRED};
use crate::control::steer::SteerLimiter;
use crate::msgs::boards::{ChassisCommand, WheelSensors};
use crate::percent;
use crate::reals::{Real32, MINUS_ONE, ONE};
use vstd::prelude::*;

verus! {

/// The pattern of `0.05` metres: full speed at or below this uncertainty.
pub const SIGMA_LO_M: u32 = 0x3d4c_cccd;

/// The pattern of `0.5` metres: stopped at or above this uncertainty.
pub const SIGMA_HI_M: u32 = 0x3f00_0000;

/// Full speed at or below this lane age, milliseconds.
pub const AGE_LO_MS: u16 = 500;

/// Stopped at or above this lane age, milliseconds.
pub const AGE_HI_MS: u16 = 5000;

/// Two samples closer together than this, in microseconds, are one sample.
pub const MIN_SAMPLE_GAP_US: u64 = 1_000;

/// `1.0` at or below `lo`, `0.0` at or above `hi`, and in between the given
/// interpolated value.
pub open spec fn ramped(x: Real32, lo: Real32, hi: Real32, between: Real32) -> Real32 {
    if x.at_most(lo) {
        Real32(ONE)
    } else if hi.at_most(x) {
        Real32(0)
    } else {
        between
    }
}

/// The same ramp over the age of the lane.
pub open spec fn age_ramped(lane_age_ms: u16, between: Real32) -> Real32 {
    if lane_age_ms <= AGE_LO_MS {
        Real32(ONE)
    } else if lane_age_ms >= AGE_HI_MS {
        Real32(0)
    } else {
        between
    }
}

/// The scale on the cruise target, from both ramps.
pub open spec fn confidence(sigma_m: Real32, lane_age_ms: u16, between: (Real32, Real32)) -> Real32 {
    ramped(sigma_m, Real32(SIGMA_LO_M), Real32(SIGMA_HI_M), between.0).lesser(
        age_ramped(lane_age_ms, between.1),
    )
}

/// The scale on the cruise target as the estimator's confidence falls: the
/// lesser of a ramp over the lateral uncertainty and one over the age of the
/// lane, so that either alone can slow the rover. `between` holds what linear
/// interpolation gives on each ramp.
pub fn confidence_speed_scale(sigma_m: Real32, lane_age_ms: u16, between: (Real32, Real32)) -> (r:
    Real32)
    ensures
        r == confidence(sigma_m, lane_age_ms, between),
{
    let sigma_scale = ramp_down(sigma_m, Real32(SIGMA_LO_M), Real32(SIGMA_HI_M), between.0);
    let age_scale = if lane_age_ms <= AGE_LO_MS {
        Real32(ONE)
    } else if lane_age_ms >= AGE_HI_MS {
        Real32(0)
    } else {
        between.1
    };
    sigma_scale.min(age_scale)
}

fn ramp_down(x: Real32, lo: Real32, hi: Real32, between: Real32) -> (r: Real32)
    ensures
        r == ramped(x, lo, hi, between),
{
    if x.is_at_most(lo) {
        Real32(ONE)
    } else if hi.is_at_most(x) {
        Real32(0)
    } else {
        between
    }
}

/// Limits and timeouts of the actuation stage.
pub struct ActuatorConfig {
    pub steer_max_deg: Real32,
    pub limit_cap_pct: Real32,
    pub sensor_timeout_us: u64,
    pub autocal: AutocalConfig,
    pub stall: StallConfig,
}

/// A steering request in degrees, with the window that the slew rate leaves.
#[derive(Clone, Copy, Debug, PartialEq, Eq, Structural)]
pub struct SteerRequest {
    pub cmd_deg: Real32,
    pub lo: Real32,
    pub hi: Real32,
}

/// What the difference to the last encoder sample asks for.
#[derive(Clone, Copy, Debug, PartialEq, Eq, Structural)]
pub struct WheelDelta {
    pub left: i32,
    pub right: i32,
    pub dt_us: u64,
}

/// One tick's outcome: angle and duty within their limits, the angle that full
/// steering stands for, and the number of the command.
#[derive(Clone, Copy, Debug, PartialEq, Eq, Structural)]
pub struct ChassisDecision {
    pub steer_deg: Real32,
    pub duty_pct: Real32,
    pub full_deg: Real32,
    pub seq: u16,
}

impl ChassisDecision {
    /// The command of this decision: the duty as a fraction, and `steer`, which
    /// is the angle over the angle of full steering. Both are limited to
    /// `[-1, 1]`. An angle of zero is a steer of zero, with its sign, whatever
    /// the fraction says.
    pub open spec fn sent(self, steer: Real32) -> ChassisCommand {
        ChassisCommand {
            steer: if self.steer_deg.same(Real32(0)) && Real32(0).below(self.full_deg) {
                self.steer_deg
            } else {
                steer.limited(Real32(MINUS_ONE), Real32(ONE)).limited(
                    Real32(MINUS_ONE),
                    Real32(ONE),
                )
            },
            throttle: self.duty_pct.hundredth().limited(Real32(MINUS_ONE), Real32(ONE)),
            seq: self.seq,
        }
    }

    /// The command of this decision, from the fraction of full steering.
    pub fn command(&self, steer: Real32) -> (c: ChassisCommand)
        ensures
            c == self.sent(steer),
    {
        let centred: bool = self.steer_deg.is_same(Real32(0)) && Real32(0).is_below(self.full_deg);
        let steer = if centred {
            self.steer_deg
        } else {
            steer.clamp(Real32(MINUS_ONE), Real32(ONE))
        };
        ChassisCommand { steer, throttle: self.duty_pct.over_hundred(), seq: self.seq }.clamped()
    }
}

/// Owns every guard rail, plus the differencing of encoder samples that the
/// speed loop needs.
pub struct Actuator {
    pub steer: SteerLimiter,
    pub speed: SpeedController,
    /// The ceiling of the configuration.
    pub config_limit_cap_pct: Real32,
    /// The operative cap: moved by the operator, never past the ceiling.
    pub spd_limit_cap_pct: Real32,
    pub sensor_timeout_us: u64,
    pub last_wheel: Option<(WheelSensors, u64)>,
    pub last_wheel_seen_us: Option<u64>,
    pub closed_loop_was_active: bool,
    pub seq: u16,
}

/// How many ticks lie between two free-running counters.
pub open spec fn tick_delta(from: i32, to: i32) -> i32 {
    let d = to - from;
    (if d > i32::MAX {
        d - 0x1_0000_0000
    } else if d < i32::MIN {
        d + 0x1_0000_0000
    } else {
        d
    }) as i32
}

impl Actuator {
    /// The limits are limits: not negative, and the operative cap no higher
    /// than the configured one.
    pub open spec fn wf(self) -> bool {
        &&& Real32(0).at_most(self.steer.max_deg)
        &&& Real32(0).at_most(self.config_limit_cap_pct)
        &&& Real32(0).at_most(self.spd_limit_cap_pct)
        &&& self.spd_limit_cap_pct.at_most(self.config_limit_cap_pct)
    }

    pub fn new(cfg: ActuatorConfig) -> (a: Self)
        ensures
            Real32(0).at_most(cfg.steer_max_deg) && Real32(0).at_most(cfg.limit_cap_pct) ==> a.wf(),
            a.steer == (SteerLimiter { max_deg: cfg.steer_max_deg, prev_deg: Real32(0) }),
            a.speed.fresh(cfg.autocal, cfg.stall),
            a.config_limit_cap_pct == cfg.limit_cap_pct,
            a.spd_limit_cap_pct == cfg.limit_cap_pct,
            a.sensor_timeout_us == cfg.sensor_timeout_us,
            a.last_wheel is None,
            a.last_wheel_seen_us is None,
            !a.closed_loop_was_active,
            a.seq == 0,
    {
        Actuator {
            steer: SteerLimiter::new(cfg.steer_max_deg),
            speed: SpeedController::new(cfg.autocal, cfg.stall),
            config_limit_cap_pct: cfg.limit_cap_pct,
            spd_limit_cap_pct: cfg.limit_cap_pct,
            sensor_timeout_us: cfg.sensor_timeout_us,
            last_wheel: None,
            last_wheel_seen_us: None,
            closed_loop_was_active: false,
            seq: 0,
        }
    }

    /// The actuator under an operator's speed limit.
    pub open spec fn limited_to(self, pct: u8) -> Actuator {
        Actuator {
            spd_limit_cap_pct: Real32::whole(pct).limited(Real32(0), self.config_limit_cap_pct),
            ..self
        }
    }

    /// Apply an operator's speed limit: no lower than zero, no higher than the
    /// configured ceiling.
    pub fn set_speed_limit_pct(&mut self, pct: u8)
        requires
            Real32(0).at_most(old(self).config_limit_cap_pct),
        ensures
            old(self).wf() ==> final(self).wf(),
            *final(self) == old(self).limited_to(pct),
    {
        self.spd_limit_cap_pct = Real32::of_u8(pct).clamp(Real32(0), self.config_limit_cap_pct);
    }

    pub fn is_stall_latched(&self) -> (r: bool)
        ensures
            r == self.speed.stall_latched,
    {
        self.speed.stall_latched
    }

    /// A duty under the cap and in range.
    pub open spec fn capped(self, pct: Real32) -> Real32 {
        pct.lesser(self.spd_limit_cap_pct).limited(Real32(0), Real32(HUNDRED))
    }

    /// The duty to aim for: the cruise target, scaled by confidence, under the
    /// cap.
    pub fn current_target_duty_pct(&self, scaled_target: Real32) -> (r: Real32)
        ensures
            r == self.capped(scaled_target),
    {
        scaled_target.min(self.spd_limit_cap_pct).clamp(Real32(0), Real32(HUNDRED))
    }

    /// The actuator once an encoder sample was noted.
    pub open spec fn sampled(self, wheel: WheelSensors, now_us: u64, drive_allowed: bool) -> Actuator {
        Actuator {
            last_wheel: Some((wheel, now_us)),
            last_wheel_seen_us: Some(now_us),
            speed: match self.last_wheel {
                Some((prev, t)) => if speed::elapsed(t, now_us) > MIN_SAMPLE_GAP_US
                    && !drive_allowed {
                    SpeedController { stall_since_us: None, ..self.speed.restarted(Real32(0)) }
                } else {
                    self.speed
                },
                None => self.speed,
            },
            ..self
        }
    }

    /// What an encoder sample gives the speed loop to run on, if anything.
    pub open spec fn wheel_delta(
        self,
        wheel: WheelSensors,
        now_us: u64,
        drive_allowed: bool,
    ) -> Option<WheelDelta> {
        match self.last_wheel {
            None => None,
            Some((prev, t)) => if speed::elapsed(t, now_us) <= MIN_SAMPLE_GAP_US || !drive_allowed {
                None
            } else {
                Some(
                    WheelDelta {
                        left: tick_delta(prev.ticks_left, wheel.ticks_left),
                        right: tick_delta(prev.ticks_right, wheel.ticks_right),
                        dt_us: speed::elapsed(t, now_us) as u64,
                    },
                )
            },
        }
    }

    /// Note one encoder sample. Returns what it differs from the one before,
    /// if the speed loop is to run on it: not for the first sample ever, not
    /// for one that repeats the time of the last, and not while driving is not
    /// allowed, when the loop is put back to rest instead.
    pub fn handle_wheel_sensors(
        &mut self,
        wheel: WheelSensors,
        now_us: u64,
        drive_allowed: bool,
    ) -> (r: Option<WheelDelta>)
        ensures
            r == old(self).wheel_delta(wheel, now_us, drive_allowed),
            *final(self) == old(self).sampled(wheel, now_us, drive_allowed),
    {
        self.last_wheel_seen_us = Some(now_us);
        let before = self.last_wheel;
        self.last_wheel = Some((wheel, now_us));
        match before {
            None => None,
            Some((prev, t)) => {
                let dt_us: u64 = now_us.saturating_sub(t);
                if dt_us <= MIN_SAMPLE_GAP_US {
                    return None;
                }
                if !drive_allowed {
                    self.speed.reset_pid(Real32(0));
                    self.speed.clear_stall_timing();
                    return None;
                }
                Some(
                    WheelDelta {
                        left: wheel.ticks_left.wrapping_sub(prev.ticks_left),
                        right: wheel.ticks_right.wrapping_sub(prev.ticks_right),
                        dt_us,
                    },
                )
            },
        }
    }

    /// Whether the speed loop is closed: driving is allowed and the encoders
    /// reported recently.
    pub open spec fn closed_loop(self, drive_allowed: bool, now_us: u64) -> bool {
        drive_allowed && match self.last_wheel_seen_us {
            Some(t) => speed::elapsed(t, now_us) <= self.sensor_timeout_us,
            None => false,
        }
    }

    /// The duty of a tick: the loop's output where the loop is closed and the
    /// target where it is not; nothing while driving is not allowed or a stall
    /// is latched; and never above the cap.
    pub open spec fn duty_of(self, scaled_target: Real32, drive_allowed: bool, now_us: u64) -> Real32 {
        self.capped(
            if !drive_allowed || self.speed.stall_latched {
                Real32(0)
            } else if self.closed_loop(drive_allowed, now_us) {
                self.speed.output_pct
            } else {
                self.capped(scaled_target)
            },
        )
    }

    /// A tick's decision: the limited angle, straight ahead while driving is not
    /// allowed; the duty; and the next number.
    pub open spec fn decided(
        self,
        request: SteerRequest,
        scaled_target: Real32,
        drive_allowed: bool,
        now_us: u64,
    ) -> ChassisDecision {
        ChassisDecision {
            steer_deg: if drive_allowed {
                self.steer.stepped(request.cmd_deg, request.lo, request.hi)
            } else {
                Real32(0)
            },
            duty_pct: self.duty_of(scaled_target, drive_allowed, now_us),
            full_deg: self.steer.max_deg,
            seq: ((self.seq + 1) % 0x1_0000) as u16,
        }
    }

    /// The actuator after a tick.
    pub open spec fn ticked(
        self,
        request: SteerRequest,
        scaled_target: Real32,
        drive_allowed: bool,
        now_us: u64,
    ) -> Actuator {
        let d = self.decided(request, scaled_target, drive_allowed, now_us);
        Actuator {
            steer: SteerLimiter {
                prev_deg: if drive_allowed {
                    d.steer_deg
                } else {
                    Real32(0).limited(self.steer.max_deg.negated(), self.steer.max_deg)
                },
                ..self.steer
            },
            speed: SpeedController {
                last_commanded_duty_pct: d.duty_pct,
                ..if self.closed_loop_was_active && !self.closed_loop(drive_allowed, now_us) {
                    self.speed.restarted(self.capped(scaled_target))
                } else {
                    self.speed
                }
            },
            closed_loop_was_active: self.closed_loop(drive_allowed, now_us),
            seq: d.seq,
            ..self
        }
    }

    /// Build this tick's decision. Called at the command rate, always, even
    /// while driving is not allowed: the firmware treats silence as a fault.
    pub fn tick_chassis_command(
        &mut self,
        request: SteerRequest,
        scaled_target: Real32,
        drive_allowed: bool,
        now_us: u64,
    ) -> (d: ChassisDecision)
        requires
            Real32(0).at_most(old(self).steer.max_deg),
            drive_allowed ==> request.lo.at_most(request.hi),
        ensures
            old(self).wf() ==> final(self).wf(),
            d == old(self).decided(request, scaled_target, drive_allowed, now_us),
            *final(self) == old(self).ticked(request, scaled_target, drive_allowed, now_us),
    {
        let target_pct = self.current_target_duty_pct(scaled_target);
        let steer_deg = if drive_allowed {
            self.steer.apply(request.cmd_deg, request.lo, request.hi)
        } else {
            self.steer.force_to(Real32(0));
            Real32(0)
        };
        let sensor_fresh: bool = match self.last_wheel_seen_us {
            Some(t) => now_us.saturating_sub(t) <= self.sensor_timeout_us,
            None => false,
        };
        let closed_loop_active: bool = drive_allowed && sensor_fresh;
        if !closed_loop_active && self.closed_loop_was_active {
            self.speed.reset_pid(target_pct);
        }
        self.closed_loop_was_active = closed_loop_active;
        let mut output_pct = if closed_loop_active {
            self.speed.cached_output_pct()
        } else {
            target_pct
        };
        if !drive_allowed {
            output_pct = Real32(0);
        }
        if self.speed.is_stall_latched() {
            output_pct = Real32(0);
        }
        let duty_pct = self.current_target_duty_pct(output_pct);
        self.speed.set_last_commanded_duty(duty_pct);
        self.seq = self.seq.wrapping_add(1);
        ChassisDecision { steer_deg, duty_pct, full_deg: self.steer.max_deg, seq: self.seq }
    }
}

/// Nothing is driven while driving is not allowed or a stall is latched, and
/// nothing ever above the cap.
pub proof fn law_duty_obeys_every_guard(
    a: Actuator,
    scaled_target: Real32,
    drive_allowed: bool,
    now_us: u64,
)
    requires
        a.wf(),
    ensures
        !drive_allowed || a.speed.stall_latched ==> a.duty_of(
            scaled_target,
            drive_allowed,
            now_us,
        ) == Real32(0),
        Real32(0).at_most(a.duty_of(scaled_target, drive_allowed, now_us)),
        a.duty_of(scaled_target, drive_allowed, now_us).at_most(a.spd_limit_cap_pct)
            || a.duty_of(scaled_target, drive_allowed, now_us) == Real32(0),
        a.duty_of(scaled_target, drive_allowed, now_us).at_most(Real32(HUNDRED)),
{
}

/// What is not driven is not sent: while driving is not allowed or a stall is
/// latched, the command holds no throttle, and while driving is not allowed its
/// wheels point straight ahead, whatever fraction it is built from.
pub proof fn law_stop_reaches_the_command(
    a: Actuator,
    request: SteerRequest,
    scaled_target: Real32,
    drive_allowed: bool,
    now_us: u64,
    steer: Real32,
)
    requires
        a.wf(),
        Real32(0).below(a.steer.max_deg),
    ensures
        !drive_allowed || a.speed.stall_latched ==> a.decided(
            request,
            scaled_target,
            drive_allowed,
            now_us,
        ).sent(steer).throttle == Real32(0),
        !drive_allowed ==> a.decided(request, scaled_target, drive_allowed, now_us).sent(
            steer,
        ).steer == Real32(0),
{
    law_duty_obeys_every_guard(a, scaled_target, drive_allowed, now_us);
    percent::law_hundredths_in_order(Real32(0), Real32(0));
}

/// Every command stays within its bounds: steering within full steering either
/// way, and a throttle that is not negative and no more than the operative cap,
/// as a fraction.
pub proof fn law_commands_are_bounded(
    a: Actuator,
    request: SteerRequest,
    scaled_target: Real32,
    drive_allowed: bool,
    now_us: u64,
    steer: Real32,
)
    requires
        a.wf(),
        !steer.nan(),
    ensures
        ({
            let c = a.decided(request, scaled_target, drive_allowed, now_us).sent(steer);
            &&& Real32(MINUS_ONE).at_most(c.steer) && c.steer.at_most(Real32(ONE))
            &&& Real32(0).at_most(c.throttle)
            &&& c.throttle.at_most(a.spd_limit_cap_pct.hundredth())
            &&& c.throttle.at_most(Real32(ONE))
            &&& c.throttle == a.duty_of(scaled_target, drive_allowed, now_us).hundredth()
        }),
{
    law_duty_obeys_every_guard(a, scaled_target, drive_allowed, now_us);
    let duty = a.duty_of(scaled_target, drive_allowed, now_us);
    percent::law_hundredths_in_order(Real32(0), duty);
    percent::law_hundredths_in_order(duty, Real32(HUNDRED));
    percent::law_hundred_percent();
    percent::law_hundredths_in_order(Real32(0), a.spd_limit_cap_pct);
    if duty.at_most(a.spd_limit_cap_pct) {
        percent::law_hundredths_in_order(duty, a.spd_limit_cap_pct);
    }
}

/// What can happen to an actuator.
pub enum Deed {
    /// An operator's speed limit.
    Limit(u8),
    /// An encoder sample.
    Sample(WheelSensors, u64, bool),
    /// A step of the speed loop, whatever it made of its memory.
    Loop(SpeedController),
    /// A chassis command.
    Tick(SteerRequest, Real32, bool, u64),
}

impl Actuator {
    /// The actuator after one deed.
    pub open spec fn did(self, deed: Deed) -> Actuator {
        match deed {
            Deed::Limit(pct) => self.limited_to(pct),
            Deed::Sample(wheel, now_us, allowed) => self.sampled(wheel, now_us, allowed),
            Deed::Loop(speed) => Actuator { speed, ..self },
            Deed::Tick(request, target, allowed, now_us) => self.ticked(
                request,
                target,
                allowed,
                now_us,
            ),
        }
    }

    /// The actuator after several, the first one first.
    pub open spec fn after(self, deeds: Seq<Deed>) -> Actuator
        decreases deeds.len(),
    {
        if deeds.len() == 0 {
            self
        } else {
            self.after(deeds.drop_last()).did(deeds.last())
        }
    }
}

/// The last speed limit among some deeds, if there is one.
pub open spec fn last_limit(deeds: Seq<Deed>) -> Option<u8>
    decreases deeds.len(),
{
    if deeds.len() == 0 {
        None
    } else {
        match deeds.last() {
            Deed::Limit(pct) => Some(pct),
            _ => last_limit(deeds.drop_last()),
        }
    }
}

/// How many commands are among some deeds.
pub open spec fn commands_in(deeds: Seq<Deed>) -> nat
    decreases deeds.len(),
{
    if deeds.len() == 0 {
        0
    } else {
        commands_in(deeds.drop_last()) + if deeds.last() is Tick {
            1nat
        } else {
            0nat
        }
    }
}

/// Whatever happens to a fresh actuator, its limits stay limits; its operative
/// cap is the lesser of the configured one and the operator's last; and its
/// commands are numbered one after the other, whether anything is driven or
/// not.
pub proof fn law_any_history(a: Actuator, deeds: Seq<Deed>)
    requires
        a.wf(),
        a.spd_limit_cap_pct == a.config_limit_cap_pct,
        a.seq == 0,
    ensures
        a.after(deeds).wf(),
        a.after(deeds).config_limit_cap_pct == a.config_limit_cap_pct,
        a.after(deeds).steer.max_deg == a.steer.max_deg,
        a.after(deeds).spd_limit_cap_pct == (match last_limit(deeds) {
            None => a.config_limit_cap_pct,
            Some(pct) => Real32::whole(pct).lesser(a.config_limit_cap_pct),
        }),
        a.after(deeds).seq == commands_in(deeds) % 0x1_0000,
    decreases deeds.len(),
{
    if deeds.len() > 0 {
        law_any_history(a, deeds.drop_last());
    }
}

/// An operator's limit of zero stops the rover; no limit raises the cap above
/// its configured ceiling.
pub proof fn law_speed_limit(a: Actuator, pct: u8)
    requires
        a.wf(),
    ensures
        Real32::whole(pct).limited(Real32(0), a.config_limit_cap_pct).at_most(
            a.config_limit_cap_pct,
        ),
        Real32::whole(0).limited(Real32(0), a.config_limit_cap_pct) == Real32(0),
{
}

/// Full confidence leaves the target alone; no confidence of either kind stops
/// the rover.
pub proof fn law_confidence_ends(sigma_m: Real32, lane_age_ms: u16, between: (Real32, Real32))
    ensures
        sigma_m.at_most(Real32(SIGMA_LO_M)) && lane_age_ms <= AGE_LO_MS ==> ramped(
            sigma_m,
            Real32(SIGMA_LO_M),
            Real32(SIGMA_HI_M),
            between.0,
        ).lesser(age_ramped(lane_age_ms, between.1)) == Real32(ONE),
        Real32(SIGMA_HI_M).at_most(sigma_m) && (lane_age_ms <= AGE_LO_MS || Real32(0).at_most(
            between.1,
        )) ==> ramped(sigma_m, Real32(SIGMA_LO_M), Real32(SIGMA_HI_M), between.0).lesser(
            age_ramped(lane_age_ms, between.1),
        ).same(Real32(0)),
        lane_age_ms >= AGE_HI_MS && (sigma_m.at_most(Real32(SIGMA_LO_M)) || Real32(0).at_most(
            between.0,
        )) ==> ramped(sigma_m, Real32(SIGMA_LO_M), Real32(SIGMA_HI_M), between.0).lesser(
            age_ramped(lane_age_ms, between.1),
        ).same(Real32(0)),
{
}

/// Between the two ends of a ramp the scale is what was interpolated: never more
/// than that on either ramp, exactly that where only the one ramp is left, and
/// the one or the other where both are.
#[verifier::rlimit(40)]
pub proof fn law_confidence_between(sigma_m: Real32, lane_age_ms: u16, between: (Real32, Real32))
    requires
        Real32(0).at_most(between.0) && between.0.at_most(Real32(ONE)),
        Real32(0).at_most(between.1) && between.1.at_most(Real32(ONE)),
        !sigma_m.nan(),
    ensures
        ({
            let c = confidence(sigma_m, lane_age_ms, between);
            let sigma_between = Real32(0x3d4c_cccd).below(sigma_m) && sigma_m.below(
                Real32(0x3f00_0000),
            );
            let age_between = 500 < lane_age_ms < 5000;
            &&& sigma_between ==> c.at_most(between.0)
            &&& age_between ==> c.at_most(between.1)
            &&& sigma_between && lane_age_ms <= 500 ==> c == between.0
            &&& age_between && sigma_m.at_most(Real32(0x3d4c_cccd)) ==> c.same(between.1)
            &&& sigma_between && age_between ==> c == between.0 || c == between.1
            &&& Real32(0).at_most(c) && c.at_most(Real32(ONE))
        }),
{
}

/// More uncertainty and an older lane never make the rover faster, as long as
/// interpolation does not.
#[verifier::rlimit(40)]
pub proof fn law_confidence_only_falls(
    sigma_m: Real32,
    lane_age_ms: u16,
    between: (Real32, Real32),
    sigma2_m: Real32,
    lane_age2_ms: u16,
    between2: (Real32, Real32),
)
    requires
        Real32(0).at_most(between.0) && between.0.at_most(Real32(ONE)),
        Real32(0).at_most(between.1) && between.1.at_most(Real32(ONE)),
        Real32(0).at_most(between2.0) && between2.0.at_most(between.0),
        Real32(0).at_most(between2.1) && between2.1.at_most(between.1),
        sigma_m.at_most(sigma2_m),
        lane_age_ms <= lane_age2_ms,
    ensures
        confidence(sigma2_m, lane_age2_ms, between2).at_most(
            confidence(sigma_m, lane_age_ms, between),
        ),
{
}

/// What drives is what was asked for, as far as the cap and full duty permit:
/// the output of the speed loop while encoder samples are recent, and the scaled
/// target while they are not; the cap where more is asked for.
pub proof fn law_duty_is_what_is_asked_for(a: Actuator, scaled_target: Real32, now_us: u64)
    requires
        a.wf(),
        !a.speed.stall_latched,
        !scaled_target.nan(),
        !a.speed.output_pct.nan(),
    ensures
        ({
            let duty = a.duty_of(scaled_target, true, now_us);
            let recent = a.last_wheel_seen_us matches Some(t) && (now_us <= t || now_us - t
                <= a.sensor_timeout_us);
            let asked = if recent {
                a.speed.output_pct
            } else {
                scaled_target
            };
            let cap = a.spd_limit_cap_pct;
            &&& Real32(0).at_most(asked) && asked.at_most(cap) && asked.at_most(Real32(HUNDRED))
                ==> duty == asked
            &&& cap.below(asked) && cap.at_most(Real32(HUNDRED)) ==> duty == cap
            &&& Real32(HUNDRED).below(asked) && Real32(HUNDRED).below(cap) ==> duty == Real32(HUNDRED)
            &&& asked.below(Real32(0)) ==> duty == Real32(0)
        }),
{
}

/// An encoder sample gives the speed loop how far each wheel has turned on its
/// own counter since the sample before, and how long that took: added to what
/// was before, each gives what is now. It gives nothing without a sample before,
/// within a millisecond of it, or while driving is not allowed.
pub proof fn law_wheel_deltas(a: Actuator, wheel: WheelSensors, now_us: u64, drive_allowed: bool)
    ensures
        a.wheel_delta(wheel, now_us, drive_allowed) is Some <==> drive_allowed && (
        a.last_wheel matches Some((prev, t)) && now_us > t + 1000),
        a.wheel_delta(wheel, now_us, drive_allowed) matches Some(d) ==> {
            &&& a.last_wheel matches Some((prev, t))
            &&& (prev.ticks_left + d.left - wheel.ticks_left) % 0x1_0000_0000 == 0
            &&& (prev.ticks_right + d.right - wheel.ticks_right) % 0x1_0000_0000 == 0
            &&& t + d.dt_us == now_us
        },
{
}

/// A sample is what the next one is compared with. It does not touch limits,
/// steering or the stall latch, and puts the speed loop at rest only where
/// driving is not allowed.
pub proof fn law_samples_are_kept(
    a: Actuator,
    wheel: WheelSensors,
    now_us: u64,
    drive_allowed: bool,
)
    ensures
        ({
            let b = a.sampled(wheel, now_us, drive_allowed);
            &&& b.last_wheel == Some((wheel, now_us))
            &&& b.last_wheel_seen_us == Some(now_us)
            &&& b.steer == a.steer && b.spd_limit_cap_pct == a.spd_limit_cap_pct
            &&& b.config_limit_cap_pct == a.config_limit_cap_pct && b.seq == a.seq
            &&& b.sensor_timeout_us == a.sensor_timeout_us
            &&& b.closed_loop_was_active == a.closed_loop_was_active
            &&& b.speed.stall_latched == a.speed.stall_latched
            &&& b.speed.max_ticks_per_sec == a.speed.max_ticks_per_sec
            &&& b.speed.autocal_done == a.speed.autocal_done
            &&& b.speed.last_commanded_duty_pct == a.speed.last_commanded_duty_pct
            &&& drive_allowed ==> b.speed == a.speed
            &&& (a.last_wheel matches Some((prev, t)) ==> now_us <= t + 1000) ==> b.speed == a.speed
            &&& !drive_allowed && (a.last_wheel matches Some((prev, t)) && now_us > t + 1000) ==> {
                &&& b.speed.output_pct == Real32(0)
                &&& b.speed.integral == Real32(0)
                &&& b.speed.last_error == Real32(0)
                &&& b.speed.stall_since_us is None
            }
        }),
{
}

/// A tick remembers what it decided: the angle that the next one is slewed from,
/// the duty that the next sample is judged by, and whether the loop was closed.
/// Where the loop opens, it is restarted at the duty that is driven without it;
/// everything else stays.
pub proof fn law_ticks_are_remembered(
    a: Actuator,
    request: SteerRequest,
    scaled_target: Real32,
    drive_allowed: bool,
    now_us: u64,
)
    requires
        a.wf(),
        !scaled_target.nan(),
    ensures
        ({
            let d = a.decided(request, scaled_target, drive_allowed, now_us);
            let b = a.ticked(request, scaled_target, drive_allowed, now_us);
            let closed = drive_allowed && (a.last_wheel_seen_us matches Some(t) && (now_us <= t
                || now_us - t <= a.sensor_timeout_us));
            &&& drive_allowed ==> b.steer.prev_deg == d.steer_deg
            &&& !drive_allowed ==> b.steer.prev_deg.same(Real32(0)) && d.steer_deg == Real32(0)
            &&& b.steer.max_deg == a.steer.max_deg && d.full_deg == a.steer.max_deg
            &&& b.speed.last_commanded_duty_pct == d.duty_pct
            &&& b.closed_loop_was_active == closed
            &&& b.seq == d.seq && (d.seq - a.seq - 1) % 0x1_0000 == 0
            &&& b.last_wheel == a.last_wheel && b.last_wheel_seen_us == a.last_wheel_seen_us
            &&& b.spd_limit_cap_pct == a.spd_limit_cap_pct
            &&& b.speed.stall_latched == a.speed.stall_latched
            &&& b.speed.stall_since_us == a.speed.stall_since_us
            &&& b.speed.max_ticks_per_sec == a.speed.max_ticks_per_sec
            &&& closed || !a.closed_loop_was_active ==> b.speed.output_pct == a.speed.output_pct
                && b.speed.integral == a.speed.integral && b.speed.last_error == a.speed.last_error
            &&& a.closed_loop_was_active && !closed ==> {
                &&& b.speed.integral == Real32(0) && b.speed.last_error == Real32(0)
                &&& Real32(0).at_most(scaled_target) && scaled_target.at_most(a.spd_limit_cap_pct)
                    && scaled_target.at_most(Real32(HUNDRED)) ==> b.speed.output_pct == scaled_target
                &&& b.speed.output_pct.at_most(a.spd_limit_cap_pct) || b.speed.output_pct == Real32(0)
            }
        }),
{
}

/// While driving is allowed the decided angle is the request, as far as the
/// limits and the slew window permit; nothing else goes into it.
pub proof fn law_decided_angle(
    a: Actuator,
    request: SteerRequest,
    scaled_target: Real32,
    now_us: u64,
)
    requires
        a.wf(),
        request.lo.at_most(request.hi),
        !request.cmd_deg.nan(),
    ensures
        ({
            let deg = a.decided(request, scaled_target, true, now_us).steer_deg;
            &&& a.steer.max_deg.negated().at_most(request.cmd_deg) && request.cmd_deg.at_most(
                a.steer.max_deg,
            ) && request.lo.at_most(request.cmd_deg) && request.cmd_deg.at_most(request.hi) ==> deg
                == request.cmd_deg
            &&& request.lo.at_most(deg) && deg.at_most(request.hi)
        }),
{
}

/// The command carries the fraction of full steering that it is given, where
/// that is one, and full steering the same way where it is more.
pub proof fn law_steering_is_sent(d: ChassisDecision, steer: Real32)
    requires
        !d.steer_deg.same(Real32(0)),
        !steer.nan(),
    ensures
        Real32(MINUS_ONE).at_most(steer) && steer.at_most(Real32(ONE)) ==> d.sent(steer).steer
            == steer,
        Real32(ONE).below(steer) ==> d.sent(steer).steer == Real32(0x3f80_0000),
        steer.below(Real32(MINUS_ONE)) ==> d.sent(steer).steer == Real32(0xbf80_0000),
        d.sent(steer).seq == d.seq,
{
}

/// Straight ahead is sent as it is where there is a full angle to measure by;
/// else the fraction decides.
pub proof fn law_straight_ahead_is_sent(d: ChassisDecision, steer: Real32)
    requires
        !steer.nan(),
    ensures
        d.steer_deg.same(Real32(0)) && Real32(0).below(d.full_deg) ==> d.sent(steer).steer
            == d.steer_deg,
        !Real32(0).below(d.full_deg) && Real32(MINUS_ONE).at_most(steer) && steer.at_most(
            Real32(ONE),
        ) ==> d.sent(steer).steer == steer,
{
}

/// The ends of the ramps: full scale up to five centimetres and half a second,
/// and none from half a metre or from five seconds on.
#[verifier::rlimit(40)]
pub proof fn law_confidence_thresholds(sigma_m: Real32, lane_age_ms: u16, between: (Real32, Real32))
    requires
        Real32(0).at_most(between.0) && Real32(0).at_most(between.1),
    ensures
        sigma_m.at_most(Real32(0x3d4c_cccd)) && lane_age_ms <= 500 ==> confidence(
            sigma_m,
            lane_age_ms,
            between,
        ) == Real32(0x3f80_0000),
        Real32(0x3f00_0000).at_most(sigma_m) ==> confidence(sigma_m, lane_age_ms, between).same(
            Real32(0),
        ),
        lane_age_ms >= 5000 ==> confidence(sigma_m, lane_age_ms, between).same(Real32(0)),
{
}

} // verus!
