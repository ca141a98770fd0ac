//! The bookkeeping of the estimator: which sample advances it, by how much
//! time, which correction applies, and how old the lane is.

use crate::control::actuator;
use crate::control::law::EstimatorConfig;
use crate::msgs::boards::{ImuSample, WheelSensors};
use crate::msgs::debug::EkfDebug;
use crate::msgs::motion::{
    LaneMeasurement, RoverState, CROSS_TRACK, CURVATURE, GYRO_BIAS, HEADING_ERR, SPEED,
};
use crate::reals::Real32;
use vstd::prelude::*;

verus! {

/// The pattern of `0.001`: a throttle below this counts as none.
pub const THROTTLE_EPS: u32 = 0x3a83_126f;

/// The pattern of positive infinity.
pub const INFINITY: u32 = 0x7f80_0000;

/// The filter's belief: its state and the diagonal of its covariance.
#[derive(Clone, Copy, Debug)]
pub struct Belief {
    pub x: [Real32; 5],
    pub p_diag: [Real32; 5],
}

/// What a wheel sample asks of the filter.
#[derive(Clone, Copy, Debug, PartialEq, Eq, Structural)]
pub enum WheelUpdate {
    /// Nothing to difference: the first sample, or a repeated one.
    Skip,
    /// The rover stands: the gyro shows its bias.
    ZeroRate,
    /// The rover moves and the drivetrain is calibrated.
    Odometry { left: i32, right: i32, dt_us: u32 },
    /// The rover moves and the drivetrain is not calibrated: a silent zero
    /// would be worse than no measurement at all.
    Disabled,
}

/// What floating point makes of a camera measurement.
#[derive(Clone, Copy, Debug)]
pub struct Innovation {
    pub y: [Real32; 3],
    /// Normalised innovation squared; `None` where the innovation covariance
    /// has no inverse.
    pub nis: Option<Real32>,
}

/// The filter, but for its arithmetic.
#[derive(Clone, Copy, Debug)]
pub struct Ekf {
    /// Milliseconds since the last accepted camera measurement. Saturates.
    pub lane_age_ms: u16,
    pub last_wheel: Option<WheelSensors>,
    pub odometry_disabled_warned: bool,
}

/// The time between two readings of a free-running 32-bit microsecond counter.
pub open spec fn counter_delta(from: u32, to: u32) -> u32 {
    ((to - from) % 0x1_0000_0000) as u32
}

/// No further apart than `tol`, either way.
pub open spec fn within(delta: i32, tol: i32) -> bool {
    -(tol as int) <= delta <= tol
}

impl Ekf {
    pub fn new() -> (e: Self)
        ensures
            e == (Ekf { lane_age_ms: 0, last_wheel: None, odometry_disabled_warned: false }),
    {
        Ekf { lane_age_ms: 0, last_wheel: None, odometry_disabled_warned: false }
    }

    /// The estimator after a predict step of `dt_ms`.
    pub open spec fn aged(self, dt_ms: u16) -> Ekf {
        Ekf {
            lane_age_ms: if self.lane_age_ms + dt_ms > u16::MAX {
                u16::MAX
            } else {
                (self.lane_age_ms + dt_ms) as u16
            },
            ..self
        }
    }

    /// A predict step of `dt_ms`: the lane gets older. A long dropout reads as
    /// "very stale", never wraps around to "fresh".
    pub fn predict(&mut self, dt_ms: u16)
        ensures
            *final(self) == old(self).aged(dt_ms),
    {
        self.lane_age_ms = self.lane_age_ms.saturating_add(dt_ms);
    }

    /// Whether a measurement is kept out of the estimate: it is an outlier,
    /// or its innovation could not be weighed.
    pub open spec fn gated(inn: Innovation, nis_gate: Real32) -> bool {
        match inn.nis {
            None => true,
            Some(nis) => nis_gate.below(nis),
        }
    }

    /// The estimator after a camera measurement: the lane is fresh if the
    /// measurement is valid and was not rejected, and nothing changes if not.
    pub open spec fn corrected(self, valid: bool, inn: Innovation, nis_gate: Real32) -> Ekf {
        if valid && !Ekf::gated(inn, nis_gate) {
            Ekf { lane_age_ms: 0, ..self }
        } else {
            self
        }
    }

    /// What is reported of a camera measurement.
    pub open spec fn weighed(valid: bool, inn: Innovation, nis_gate: Real32) -> Option<EkfDebug> {
        if !valid {
            None
        } else {
            Some(
                EkfDebug {
                    innovation: inn.y,
                    nis: match inn.nis {
                        None => Real32(INFINITY),
                        Some(nis) => nis,
                    },
                    gated: Ekf::gated(inn, nis_gate),
                },
            )
        }
    }

    /// A camera measurement. Nothing happens on an invalid one: the filter
    /// coasts. Otherwise the debug report says whether it was rejected,
    /// and the lane is fresh only if it was not.
    pub fn correct_camera(
        &mut self,
        meas: &LaneMeasurement,
        inn: &Innovation,
        nis_gate: Real32,
    ) -> (r: Option<EkfDebug>)
        ensures
            r == Ekf::weighed(meas.valid, *inn, nis_gate),
            *final(self) == old(self).corrected(meas.valid, *inn, nis_gate),
    {
        if !meas.valid {
            return None;
        }
        match inn.nis {
            None => Some(
                EkfDebug { innovation: inn.y, nis: Real32(INFINITY), gated: true },
            ),
            Some(nis) => {
                let gated: bool = nis_gate.is_below(nis);
                if !gated {
                    self.lane_age_ms = 0;
                }
                Some(EkfDebug { innovation: inn.y, nis, gated })
            },
        }
    }

    /// What a wheel sample asks for.
    pub open spec fn wheel_update(
        self,
        wheel: WheelSensors,
        throttle: Real32,
        cfg: EstimatorConfig,
    ) -> WheelUpdate {
        match self.last_wheel {
            None => WheelUpdate::Skip,
            Some(prev) => {
                let left = actuator::tick_delta(prev.ticks_left, wheel.ticks_left);
                let right = actuator::tick_delta(prev.ticks_right, wheel.ticks_right);
                let dt_us = counter_delta(prev.t_us, wheel.t_us);
                if dt_us == 0 {
                    WheelUpdate::Skip
                } else if throttle.without_sign().below(Real32(THROTTLE_EPS)) && within(
                    left,
                    cfg.zero_rate_max_ticks,
                ) && within(right, cfg.zero_rate_max_ticks) {
                    WheelUpdate::ZeroRate
                } else if cfg.metres_per_tick.same(Real32(0)) {
                    WheelUpdate::Disabled
                } else {
                    WheelUpdate::Odometry { left, right, dt_us }
                }
            },
        }
    }

    /// The estimator after a wheel sample.
    pub open spec fn wheeled(
        self,
        wheel: WheelSensors,
        throttle: Real32,
        cfg: EstimatorConfig,
    ) -> Ekf {
        Ekf {
            last_wheel: Some(wheel),
            odometry_disabled_warned: self.odometry_disabled_warned || self.wheel_update(
                wheel,
                throttle,
                cfg,
            ) is Disabled,
            ..self
        }
    }

    /// A wheel sample, at 10 Hz.
    pub fn correct_wheel_sensors(
        &mut self,
        wheel: &WheelSensors,
        throttle: Real32,
        cfg: &EstimatorConfig,
    ) -> (r: WheelUpdate)
        ensures
            r == old(self).wheel_update(*wheel, throttle, *cfg),
            *final(self) == old(self).wheeled(*wheel, throttle, *cfg),
    {
        let before = self.last_wheel;
        self.last_wheel = Some(*wheel);
        let prev = match before {
            Some(prev) => prev,
            None => {
                return WheelUpdate::Skip;
            },
        };
        let dt_us: u32 = wheel.t_us.wrapping_sub(prev.t_us);
        if dt_us == 0 {
            return WheelUpdate::Skip;
        }
        let left: i32 = wheel.ticks_left.wrapping_sub(prev.ticks_left);
        let right: i32 = wheel.ticks_right.wrapping_sub(prev.ticks_right);
        let tol: i64 = cfg.zero_rate_max_ticks as i64;
        let quiet: bool = throttle.abs().is_below(Real32(THROTTLE_EPS)) && -tol <= left as i64
            && left as i64 <= tol && -tol <= right as i64 && right as i64 <= tol;
        if quiet {
            WheelUpdate::ZeroRate
        } else if !cfg.odometry_calibrated() {
            self.odometry_disabled_warned = true;
            WheelUpdate::Disabled
        } else {
            WheelUpdate::Odometry { left, right, dt_us }
        }
    }

    /// An innovation variance that can be divided by.
    pub open spec fn can_weigh(s: Real32) -> bool {
        Real32(0).below(s)
    }

    /// Whether a scalar observation of innovation variance `s` can be weighed at
    /// all. A variance of zero or less, or none at all, would be divided by.
    pub fn weighs(s: Real32) -> (r: bool)
        ensures
            r == Ekf::can_weigh(s),
    {
        !(s.is_at_most(Real32(0)) || s.is_nan())
    }

    /// Whether odometry was ever skipped because the drivetrain is not
    /// calibrated.
    pub fn odometry_disabled(&self) -> (r: bool)
        ensures
            r == self.odometry_disabled_warned,
    {
        self.odometry_disabled_warned
    }

    /// What is told of a belief.
    pub open spec fn told(self, b: Belief) -> RoverState {
        RoverState {
            cross_track_m: b.x[CROSS_TRACK as int],
            heading_err_rad: b.x[HEADING_ERR as int],
            curvature_inv_m: b.x[CURVATURE as int],
            speed_mps: b.x[SPEED as int],
            gyro_bias_radps: b.x[GYRO_BIAS as int],
            p_diag: b.p_diag,
            lane_age_ms: self.lane_age_ms,
        }
    }

    /// The fused estimate, as it goes on the wire.
    pub fn state(&self, b: &Belief) -> (s: RoverState)
        ensures
            s == self.told(*b),
    {
        RoverState {
            cross_track_m: b.x[CROSS_TRACK],
            heading_err_rad: b.x[HEADING_ERR],
            curvature_inv_m: b.x[CURVATURE],
            speed_mps: b.x[SPEED],
            gyro_bias_radps: b.x[GYRO_BIAS],
            p_diag: b.p_diag,
            lane_age_ms: self.lane_age_ms,
        }
    }
}

/// The filter and the clock of its inertial samples.
#[derive(Clone, Copy, Debug)]
pub struct Estimator {
    pub ekf: Ekf,
    /// Board time of the last inertial sample.
    pub last_imu_t_us: Option<u32>,
}

impl Estimator {
    pub fn at_rest() -> (e: Self)
        ensures
            e.ekf == (Ekf { lane_age_ms: 0, last_wheel: None, odometry_disabled_warned: false }),
            e.last_imu_t_us is None,
    {
        Estimator { ekf: Ekf::new(), last_imu_t_us: None }
    }

    /// How far to predict on an inertial sample taken at `t_us`.
    pub open spec fn span(self, t_us: u32) -> Option<u32> {
        match self.last_imu_t_us {
            None => None,
            Some(t) => if counter_delta(t, t_us) == 0 {
                None
            } else {
                Some(counter_delta(t, t_us))
            },
        }
    }

    /// The estimator once an inertial sample taken at `t_us` has come in.
    pub open spec fn sampled(self, t_us: u32) -> Estimator {
        Estimator { last_imu_t_us: Some(t_us), ..self }
    }

    /// How far to predict on an inertial sample, in microseconds of the board's
    /// own clock: nothing for the very first sample, and nothing for a repeat.
    pub fn predict_from_imu(&mut self, sample: &ImuSample) -> (r: Option<u32>)
        ensures
            r == old(self).span(sample.t_us),
            *final(self) == old(self).sampled(sample.t_us),
    {
        let before = self.last_imu_t_us;
        self.last_imu_t_us = Some(sample.t_us);
        match before {
            None => None,
            Some(t) => {
                let dt_us: u32 = sample.t_us.wrapping_sub(t);
                if dt_us == 0 {
                    None
                } else {
                    Some(dt_us)
                }
            },
        }
    }
}

/// Time differences survive the wraparound of the counter.
pub proof fn law_counter_delta(from: u32, step: u32)
    ensures
        counter_delta(from, ((from + step) % 0x1_0000_0000) as u32) == step,
{
}

/// Tick differences survive the wraparound of the encoders.
pub proof fn law_tick_delta(from: i32, step: i32)
    ensures
        actuator::tick_delta(
            from,
            (if from + step > i32::MAX {
                from + step - 0x1_0000_0000
            } else if from + step < i32::MIN {
                from + step + 0x1_0000_0000
            } else {
                from + step
            }) as i32,
        ) == step,
{
}

/// A rejected or invalid measurement never makes the lane look fresher; only
/// accepted information does.
pub proof fn law_only_accepted_information_is_fresh(
    e: Ekf,
    valid: bool,
    inn: Innovation,
    nis_gate: Real32,
)
    ensures
        e.corrected(valid, inn, nis_gate).lane_age_ms < e.lane_age_ms ==> valid && !Ekf::gated(
            inn,
            nis_gate,
        ),
        valid && !Ekf::gated(inn, nis_gate) ==> e.corrected(valid, inn, nis_gate).lane_age_ms == 0,
        !valid || Ekf::gated(inn, nis_gate) ==> e.corrected(valid, inn, nis_gate) == e,
{
}

/// What is passed on as odometry is how far each wheel has turned on its own
/// counter, and how long that took on the board's clock: added to what was read
/// before, each gives what is read now, up to the wraparound of the counters.
pub proof fn law_odometry_is_what_the_wheels_did(
    e: Ekf,
    wheel: WheelSensors,
    throttle: Real32,
    cfg: EstimatorConfig,
)
    ensures
        e.wheel_update(wheel, throttle, cfg) matches WheelUpdate::Odometry { left, right, dt_us }
            ==> {
            &&& e.last_wheel matches Some(prev)
            &&& (prev.ticks_left + left - wheel.ticks_left) % 0x1_0000_0000 == 0
            &&& (prev.ticks_right + right - wheel.ticks_right) % 0x1_0000_0000 == 0
            &&& (prev.t_us + dt_us - wheel.t_us) % 0x1_0000_0000 == 0
            &&& dt_us > 0
        },
{
}

/// A wheel that stands still reads no odometry of its own, and one that turned
/// by some ticks reads exactly these, whatever the other one does.
pub proof fn law_wheels_are_read_apart(
    e: Ekf,
    a: WheelSensors,
    b: WheelSensors,
    throttle: Real32,
    cfg: EstimatorConfig,
)
    requires
        e.wheel_update(a, throttle, cfg) is Odometry,
        e.wheel_update(b, throttle, cfg) is Odometry,
    ensures
        a.ticks_left == b.ticks_left <==> e.wheel_update(a, throttle, cfg)->left == e.wheel_update(
            b,
            throttle,
            cfg,
        )->left,
        a.ticks_right == b.ticks_right <==> e.wheel_update(a, throttle, cfg)->right
            == e.wheel_update(b, throttle, cfg)->right,
        a.t_us == b.t_us <==> e.wheel_update(a, throttle, cfg)->dt_us == e.wheel_update(
            b,
            throttle,
            cfg,
        )->dt_us,
{
}

/// Which correction a wheel sample calls for. Nothing on the first sample and on
/// one that repeats the time of the last. Else a standing rover, where the
/// throttle is less than a thousandth and neither counter moved by more than the
/// tolerance, either way; else odometry, if the drivetrain is calibrated.
pub proof fn law_wheel_updates(
    e: Ekf,
    prev: WheelSensors,
    wheel: WheelSensors,
    throttle: Real32,
    cfg: EstimatorConfig,
)
    requires
        e.last_wheel == Some(prev),
        cfg.zero_rate_max_ticks >= 0,
    ensures
        ({
            let r = e.wheel_update(wheel, throttle, cfg);
            let left = (wheel.ticks_left - prev.ticks_left) % 0x1_0000_0000;
            let right = (wheel.ticks_right - prev.ticks_right) % 0x1_0000_0000;
            let tol = cfg.zero_rate_max_ticks as int;
            let standing = throttle.0 as int % 0x8000_0000 < 0x3a83_126f && (left <= tol
                || 0x1_0000_0000 - left <= tol) && (right <= tol || 0x1_0000_0000 - right <= tol);
            let calibrated = cfg.metres_per_tick.0 as int % 0x8000_0000 != 0;
            &&& r is Skip <==> wheel.t_us == prev.t_us
            &&& r is ZeroRate <==> wheel.t_us != prev.t_us && standing
            &&& r is Odometry <==> wheel.t_us != prev.t_us && !standing && calibrated
            &&& r is Disabled <==> wheel.t_us != prev.t_us && !standing && !calibrated
        }),
        (Ekf { last_wheel: None, ..e }).wheel_update(wheel, throttle, cfg) is Skip,
{
}

/// A wheel sample is what the next one is compared with; it never touches the
/// age of the lane, and what was warned of stays known.
pub proof fn law_wheel_samples_are_kept(
    e: Ekf,
    wheel: WheelSensors,
    throttle: Real32,
    cfg: EstimatorConfig,
)
    ensures
        e.wheeled(wheel, throttle, cfg).last_wheel == Some(wheel),
        e.wheeled(wheel, throttle, cfg).lane_age_ms == e.lane_age_ms,
        e.odometry_disabled_warned ==> e.wheeled(wheel, throttle, cfg).odometry_disabled_warned,
        e.wheel_update(wheel, throttle, cfg) is Disabled ==> e.wheeled(
            wheel,
            throttle,
            cfg,
        ).odometry_disabled_warned,
        e.wheeled(wheel, throttle, cfg).odometry_disabled_warned ==> e.odometry_disabled_warned
            || e.wheel_update(wheel, throttle, cfg) is Disabled,
{
}

/// The lane ages by the time predicted, step by step or at once, and never gets
/// younger; past the largest age there is it stays there.
pub proof fn law_lane_ages(e: Ekf, a: u16, b: u16)
    ensures
        e.lane_age_ms + a <= u16::MAX ==> e.aged(a).lane_age_ms == e.lane_age_ms + a,
        e.lane_age_ms + a > u16::MAX ==> e.aged(a).lane_age_ms == u16::MAX,
        a + b <= u16::MAX ==> e.aged(a).aged(b) == e.aged((a + b) as u16),
        e.aged(a).last_wheel == e.last_wheel,
        e.aged(a).odometry_disabled_warned == e.odometry_disabled_warned,
{
}

/// A valid measurement is reported with its own innovation, and as rejected
/// exactly if it could not be weighed or weighs more than the threshold; an
/// invalid one is not reported.
pub proof fn law_camera_reports(valid: bool, inn: Innovation, nis_gate: Real32)
    requires
        !nis_gate.nan(),
    ensures
        Ekf::weighed(valid, inn, nis_gate) is Some == valid,
        Ekf::weighed(valid, inn, nis_gate) matches Some(d) ==> {
            &&& d.innovation == inn.y
            &&& inn.nis matches Some(nis) ==> d.nis == nis && d.gated == (!nis.nan()
                && nis_gate.rank() < nis.rank())
            &&& inn.nis is None ==> d.gated && d.nis.0 == 0x7f80_0000
        },
{
}

/// A measurement counts exactly if it is valid and not reported as rejected: the
/// lane is then fresh, and otherwise as old as before. Nothing else changes.
pub proof fn law_camera_freshens(e: Ekf, valid: bool, inn: Innovation, nis_gate: Real32)
    ensures
        e.corrected(valid, inn, nis_gate).lane_age_ms == (if Ekf::weighed(
            valid,
            inn,
            nis_gate,
        ) matches Some(d) && !d.gated {
            0
        } else {
            e.lane_age_ms
        }),
        e.corrected(valid, inn, nis_gate).last_wheel == e.last_wheel,
        e.corrected(valid, inn, nis_gate).odometry_disabled_warned == e.odometry_disabled_warned,
{
}

/// The five states are told in their places, each with its own variance, and the
/// age of the lane with them.
pub proof fn law_states_keep_their_places(e: Ekf, b: Belief)
    ensures
        e.told(b).cross_track_m == b.x[0],
        e.told(b).heading_err_rad == b.x[1],
        e.told(b).curvature_inv_m == b.x[2],
        e.told(b).speed_mps == b.x[3],
        e.told(b).gyro_bias_radps == b.x[4],
        e.told(b).p_diag == b.p_diag,
        e.told(b).lane_age_ms == e.lane_age_ms,
{
}

/// The filter is advanced by the time between two inertial samples on the
/// board's clock, and not at all on the first one or on a repeat.
pub proof fn law_prediction_spans(e: Estimator, t_us: u32)
    ensures
        e.last_imu_t_us is None ==> e.span(t_us) is None,
        e.last_imu_t_us matches Some(t) ==> (e.span(t_us) is None <==> t == t_us),
        e.span(t_us) matches Some(dt) ==> {
            &&& e.last_imu_t_us matches Some(t)
            &&& (t + dt - t_us) % 0x1_0000_0000 == 0
            &&& dt > 0
        },
{
}

/// The spans add up: two samples in a row advance the filter by the time from
/// before the first to the second. A sample changes nothing but the clock.
pub proof fn law_spans_add_up(e: Estimator, a: u32, b: u32)
    ensures
        e.sampled(a).ekf == e.ekf,
        e.sampled(a).span(a) is None,
        e.span(a) matches Some(x) ==> (e.sampled(a).span(b) matches Some(y) ==> (x + y
            < 0x1_0000_0000 ==> e.span(b) == Some((x + y) as u32))),
{
}

/// A variance is divided by exactly if it is a number above zero.
pub proof fn law_variances(s: Real32)
    ensures
        Ekf::can_weigh(s) <==> 0 < s.0 <= 0x7f80_0000,
{
}

} // verus!
