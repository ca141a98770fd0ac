//! Guard rails, estimator bookkeeping and the control cycle.

use rover::bus::command::CommandReceiver;
use rover::control::actuator::{
    confidence_speed_scale, Actuator, ActuatorConfig, ChassisDecision, SteerRequest, AGE_HI_MS,
    AGE_LO_MS,
};
use rover::control::cycle::{receive, ControlCycle, Inbound, Step};
use rover::control::estimate::{Ekf, Innovation, WheelUpdate};
use rover::control::gate::SafetyGate;
use rover::control::law::{
    AppConfig, AutocalSettings, ConfigError, ControllerLaw, EstimatorConfig, LaneNoise,
    ProcessNoise, RawConfig, SpeedConfig, StallSettings, StaticGainConfig, VehicleParams,
};
use rover::control::speed::{
    AutocalConfig, PidTerms, SpeedController, StallConfig, WheelSample,
    MAX_TICKS_PER_SEC_PLACEHOLDER, UNCALIBRATED_FALLBACK_DUTY_PCT,
};
use rover::control::steer::SteerLimiter;
use rover::msgs::boards::{ChassisCommand, WheelSensors};
use rover::msgs::debug::SpeedLoopDebug;
use rover::msgs::frame::{encode_frame, Frame};
use rover::msgs::mission::{Command, CommandFrame, MissionStatus};
use rover::msgs::motion::{LaneMeasurement, RoverState};
use rover::reals::Real32;

fn r(v: f32) -> Real32 {
    Real32(v.to_bits())
}

fn f(v: Real32) -> f32 {
    f32::from_bits(v.0)
}

fn us(s: f64) -> u64 {
    (s * 1e6).round() as u64
}

fn autocal(enabled: bool) -> AutocalConfig {
    AutocalConfig {
        enabled,
        min_duty_pct: r(13.0),
        min_samples: 40,
        window_us: us(60.0),
    }
}

fn stall(enabled: bool) -> StallConfig {
    StallConfig {
        enabled,
        min_duty_pct: r(30.0),
        min_ticks_per_sec: r(10.0),
        timeout_us: us(2.0),
    }
}

fn state(cross_track_var: f32, lane_age_ms: u16) -> RoverState {
    RoverState {
        speed_mps: r(0.2),
        p_diag: [r(cross_track_var), r(0.0), r(0.0), r(0.0), r(0.0)],
        lane_age_ms,
        ..Default::default()
    }
}

// ---- the arithmetic around the guard rails ----------------------------------------

struct Steering {
    limiter: SteerLimiter,
    slew_deg_per_s: f32,
}

impl Steering {
    fn new(max_deg: f32, slew_deg_per_s: f32) -> Self {
        Steering {
            limiter: SteerLimiter::new(r(max_deg)),
            slew_deg_per_s,
        }
    }

    fn apply(&mut self, cmd_deg: f32, dt_s: f32) -> f32 {
        let step = self.slew_deg_per_s * dt_s.max(0.0);
        let prev = f(self.limiter.prev_deg);
        f(self
            .limiter
            .apply(r(cmd_deg), r(prev - step), r(prev + step)))
    }

    fn force_to(&mut self, deg: f32) {
        self.limiter.force_to(r(deg));
    }
}

#[derive(Clone, Copy)]
struct Gains {
    kp: f32,
    ki: f32,
    kd: f32,
    integral_limit: f32,
    max_duty_step_pct: f32,
}

fn run_sample(
    c: &mut SpeedController,
    g: Gains,
    (left, right): (f32, f32),
    dt_s: f32,
    now_s: f64,
    target: f32,
) -> SpeedLoopDebug {
    let mean = (left + right) * 0.5;
    let duty = f(c.last_commanded_duty_pct);
    let s = WheelSample {
        left_tps: r(left),
        right_tps: r(right),
        mean_tps: r(mean),
        steady: (duty - f(c.autocal_prev_duty)).abs() < f32::EPSILON,
        full_scale_tps: r(mean / (duty / 100.0)),
    };
    if let Some(d) = c.on_sample(&s, us(now_s), r(target)) {
        return d;
    }
    let full = f(c.max_ticks_per_sec());
    let measured_pct = if full > 1e-6 {
        mean / full * 100.0
    } else {
        0.0
    };
    let error = target - measured_pct;
    let derivative = if dt_s > 0.0 {
        (error - f(c.last_error)) / dt_s
    } else {
        0.0
    };
    let candidate =
        (f(c.integral) + error * dt_s).clamp(-g.integral_limit, g.integral_limit);
    let u = |integral: f32| target + g.kp * error + g.ki * integral + g.kd * derivative;
    let out = f(c.cached_output_pct());
    let t = PidTerms {
        measured_pct: r(measured_pct),
        error_pct: r(error),
        integral_candidate: r(candidate),
        u_candidate: r(u(candidate)),
        u_held: r(u(f(c.integral))),
        step_lo: r(out - g.max_duty_step_pct),
        step_hi: r(out + g.max_duty_step_pct),
        target_tps: r(target / 100.0 * full),
    };
    c.pid_step(&s, &t)
}

struct Loop {
    c: SpeedController,
    g: Gains,
}

impl Loop {
    fn new(
        kp: f32,
        ki: f32,
        kd: f32,
        integral_limit: f32,
        max_duty_step_pct: f32,
        autocal: AutocalConfig,
        stall: StallConfig,
    ) -> Self {
        Loop {
            c: SpeedController::new(autocal, stall),
            g: Gains {
                kp,
                ki,
                kd,
                integral_limit,
                max_duty_step_pct,
            },
        }
    }

    fn set_last_commanded_duty(&mut self, pct: f32) {
        self.c.set_last_commanded_duty(r(pct));
    }

    fn on_sample(
        &mut self,
        left: f32,
        right: f32,
        dt_s: f32,
        now_s: f64,
        target: f32,
    ) -> SpeedLoopDebug {
        run_sample(&mut self.c, self.g, (left, right), dt_s, now_s, target)
    }

    fn target_duty_pct(&mut self, reference_mps: f32, metres_per_tick: f32) -> f32 {
        let full = f(self.c.max_ticks_per_sec());
        let converted = reference_mps / metres_per_tick / full * 100.0;
        f(self.c.target_duty_pct(r(metres_per_tick), r(converted)))
    }
}

fn scale(cross_track_var_m2: f32, lane_age_ms: u16) -> f32 {
    let sigma = cross_track_var_m2.max(0.0).sqrt();
    let between = (
        r(1.0 - (sigma - 0.05) / (0.5 - 0.05)),
        r(1.0 - (f32::from(lane_age_ms) - 500.0) / (5000.0 - 500.0)),
    );
    f(confidence_speed_scale(r(sigma), lane_age_ms, between))
}

// ---- steering ---------------------------------------------------------------------

#[test]
fn steer_limiter_saturates_at_max_deg() {
    let mut l = Steering::new(45.0, 1_000_000.0);
    assert_eq!(l.apply(100.0, 0.02), 45.0);
    let mut l2 = Steering::new(45.0, 1_000_000.0);
    assert_eq!(l2.apply(-100.0, 0.02), -45.0);
}

#[test]
fn steer_limiter_limits_slew_rate() {
    let mut l = Steering::new(45.0, 180.0);
    let dt = 0.02;
    let out = l.apply(45.0, dt);
    assert!((out - 3.6).abs() < 1e-4, "expected 3.6deg step, got {out}");
    let out2 = l.apply(45.0, dt);
    assert!(
        (out2 - 7.2).abs() < 1e-4,
        "expected cumulative 7.2deg, got {out2}"
    );
}

#[test]
fn steer_limiter_force_to_ignores_slew() {
    let mut l = Steering::new(45.0, 1.0);
    l.apply(45.0, 0.02);
    l.force_to(0.0);
    let out = l.apply(0.0, 0.02);
    assert_eq!(out, 0.0);
}

#[test]
fn steer_limiter_force_to_is_itself_saturated() {
    let mut l = Steering::new(45.0, 180.0);
    l.force_to(1000.0);
    assert_eq!(l.apply(1000.0, 0.0), 45.0);
}

// ---- the speed loop ---------------------------------------------------------------

#[test]
fn pid_output_moves_toward_target_when_undershooting() {
    let mut sc = Loop::new(0.3, 0.5, 0.0, 100.0, 1000.0, autocal(false), stall(false));
    let target = 20.0;
    let dbg = sc.on_sample(50.0, 50.0, 0.1, 1.0, target);
    assert!(
        f(dbg.error_pct) > 0.0,
        "measured under target must give positive error"
    );
    assert!(
        f(dbg.pid_output_pct) > target,
        "output {} should trim upward above the {target}% feedforward under load",
        f(dbg.pid_output_pct)
    );
}

#[test]
fn pid_output_is_exactly_feedforward_at_zero_error() {
    let mut sc = Loop::new(0.3, 0.5, 0.0, 100.0, 1000.0, autocal(false), stall(false));
    let target = 20.0;
    let dbg = sc.on_sample(200.0, 200.0, 0.1, 1.0, target);
    assert!(f(dbg.error_pct).abs() < 1e-4);
    assert!(
        (f(dbg.pid_output_pct) - target).abs() < 1e-3,
        "zero error should emit exactly the feedforward term, got {}",
        f(dbg.pid_output_pct)
    );
}

#[test]
fn pid_output_slew_limited_per_sample() {
    let mut sc = Loop::new(10.0, 0.0, 0.0, 100.0, 15.0, autocal(false), stall(false));
    let dbg = sc.on_sample(0.0, 0.0, 0.1, 1.0, 20.0);
    assert!(
        f(dbg.pid_output_pct) <= 15.0 + 1e-3,
        "single-sample output {} exceeded the 15%-step slew limit from a 0 start",
        f(dbg.pid_output_pct)
    );
}

#[test]
fn a_saturated_output_does_not_wind_up() {
    let mut sc = Loop::new(10.0, 1.0, 0.0, 100.0, 1000.0, autocal(false), stall(false));
    sc.on_sample(0.0, 0.0, 0.1, 1.0, 20.0);
    assert_eq!(f(sc.c.integral), 0.0);
    assert_eq!(f(sc.c.cached_output_pct()), 100.0);
    let mut calm = Loop::new(0.3, 1.0, 0.0, 100.0, 1000.0, autocal(false), stall(false));
    calm.on_sample(0.0, 0.0, 0.1, 1.0, 20.0);
    assert_eq!(f(calm.c.integral), 2.0);
}

#[test]
fn overspeed_is_counted_and_forgotten() {
    let mut sc = Loop::new(0.3, 0.5, 0.0, 100.0, 15.0, autocal(false), stall(false));
    sc.on_sample(1600.0, 1600.0, 0.1, 1.0, 20.0);
    sc.on_sample(1600.0, 1600.0, 0.1, 1.1, 20.0);
    assert_eq!(sc.c.overspeed_strikes, 2);
    sc.on_sample(200.0, 200.0, 0.1, 1.2, 20.0);
    assert_eq!(sc.c.overspeed_strikes, 0);
}

#[test]
fn zero_target_resets_and_emits_zero_output() {
    let mut sc = Loop::new(0.3, 0.5, 0.0, 100.0, 15.0, autocal(false), stall(false));
    sc.on_sample(200.0, 200.0, 0.1, 1.0, 20.0);
    let dbg = sc.on_sample(0.0, 0.0, 0.1, 2.0, 0.0);
    assert_eq!(f(dbg.pid_output_pct), 0.0);
    assert_eq!(f(dbg.error_pct), 0.0);
    assert_eq!(f(sc.c.cached_output_pct()), 0.0);
}

#[test]
fn autocal_learns_max_ticks_per_sec_from_steady_samples() {
    let mut sc = Loop::new(0.3, 0.5, 0.0, 100.0, 15.0, autocal(true), stall(false));
    let duty = 20.0;
    let mut now = 0.0_f64;
    for _ in 0..50 {
        sc.set_last_commanded_duty(duty);
        sc.on_sample(100.0, 100.0, 0.1, now, duty);
        now += 1.0;
    }
    assert!(!sc.c.autocal_done);
    sc.set_last_commanded_duty(duty);
    sc.on_sample(100.0, 100.0, 0.1, 61.0, duty);
    assert!(sc.c.autocal_done);
    assert!(
        (f(sc.c.max_ticks_per_sec()) - 500.0).abs() < 1.0,
        "learned max_ticks_per_sec = {}, expected ~500",
        f(sc.c.max_ticks_per_sec())
    );
}

#[test]
fn autocal_takes_the_third_quartile_whatever_the_order() {
    let mut cfg = autocal(true);
    cfg.min_samples = 4;
    cfg.window_us = us(5.0);
    let mut sc = Loop::new(0.3, 0.5, 0.0, 100.0, 15.0, cfg, stall(false));
    sc.set_last_commanded_duty(50.0);
    for (i, tps) in [70.0, 40.0, 10.0, 30.0, 20.0, 60.0].into_iter().enumerate() {
        sc.on_sample(tps, tps, 0.1, i as f64, 50.0);
    }
    assert!(sc.c.autocal_done);
    assert_eq!(f(sc.c.max_ticks_per_sec()), 80.0);
    assert!(f(sc.c.cached_output_pct()) <= 65.0);
}

#[test]
fn autocal_ignores_samples_below_min_duty() {
    let mut sc = Loop::new(0.3, 0.5, 0.0, 100.0, 15.0, autocal(true), stall(false));
    let mut now = 0.0_f64;
    for _ in 0..80 {
        sc.set_last_commanded_duty(5.0);
        sc.on_sample(1000.0, 1000.0, 0.1, now, 5.0);
        now += 1.0;
    }
    assert!(sc.c.window_start_us.is_none());
    assert!(!sc.c.autocal_done);
    assert_eq!(sc.c.max_ticks_per_sec(), Real32(MAX_TICKS_PER_SEC_PLACEHOLDER));
    assert_eq!(f(sc.c.max_ticks_per_sec()), 1000.0);
}

#[test]
fn autocal_keeps_placeholder_when_too_few_steady_samples() {
    let mut sc = Loop::new(0.3, 0.5, 0.0, 100.0, 15.0, autocal(true), stall(false));
    let mut now = 0.0_f64;
    for i in 0..80 {
        let duty = if i % 2 == 0 { 20.0 } else { 21.0 };
        sc.set_last_commanded_duty(duty);
        sc.on_sample(100.0, 100.0, 0.1, now, duty);
        now += 1.0;
    }
    assert!(sc.c.autocal_done, "window should have closed by 80s");
    assert_eq!(
        sc.c.max_ticks_per_sec(),
        Real32(MAX_TICKS_PER_SEC_PLACEHOLDER),
        "too few steady samples must leave the placeholder in place"
    );
}

#[test]
fn stall_latches_after_timeout_with_high_duty_and_no_motion() {
    let mut sc = Loop::new(0.3, 0.5, 0.0, 100.0, 15.0, autocal(false), stall(true));
    sc.set_last_commanded_duty(50.0);
    sc.on_sample(0.0, 0.0, 0.1, 0.0, 20.0);
    assert!(
        !sc.c.is_stall_latched(),
        "must not latch before the timeout"
    );
    sc.set_last_commanded_duty(50.0);
    sc.on_sample(0.0, 0.0, 0.1, 2.5, 20.0);
    assert!(
        sc.c.is_stall_latched(),
        "must latch once blocked past stall_timeout_s=2.0"
    );
}

#[test]
fn stall_does_not_trigger_under_low_duty() {
    let mut sc = Loop::new(0.3, 0.5, 0.0, 100.0, 15.0, autocal(false), stall(true));
    sc.set_last_commanded_duty(10.0);
    sc.on_sample(0.0, 0.0, 0.1, 0.0, 10.0);
    sc.set_last_commanded_duty(10.0);
    sc.on_sample(0.0, 0.0, 0.1, 5.0, 10.0);
    assert!(
        !sc.c.is_stall_latched(),
        "low duty with no motion is under-power, not a stall"
    );
}

#[test]
fn stall_does_not_trigger_while_wheels_are_turning() {
    let mut sc = Loop::new(0.3, 0.5, 0.0, 100.0, 15.0, autocal(false), stall(true));
    sc.set_last_commanded_duty(50.0);
    for i in 0..30 {
        sc.set_last_commanded_duty(50.0);
        sc.on_sample(50.0, 50.0, 0.1, f64::from(i) * 0.5, 20.0);
    }
    assert!(!sc.c.is_stall_latched());
}

#[test]
fn stall_latch_clears_only_on_zero_commanded_duty() {
    let mut sc = Loop::new(0.3, 0.5, 0.0, 100.0, 15.0, autocal(false), stall(true));
    sc.set_last_commanded_duty(50.0);
    sc.on_sample(0.0, 0.0, 0.1, 0.0, 20.0);
    sc.set_last_commanded_duty(50.0);
    sc.on_sample(0.0, 0.0, 0.1, 3.0, 20.0);
    assert!(sc.c.is_stall_latched());

    sc.set_last_commanded_duty(20.0);
    sc.on_sample(0.0, 0.0, 0.1, 3.1, 0.0);
    assert!(
        sc.c.is_stall_latched(),
        "latch cleared without a zero commanded duty"
    );

    sc.set_last_commanded_duty(0.0);
    sc.on_sample(0.0, 0.0, 0.1, 3.2, 0.0);
    assert!(!sc.c.is_stall_latched());
}

#[test]
fn target_duty_pct_uses_calibrated_conversion_when_available() {
    let mut sc = Loop::new(0.3, 0.5, 0.0, 100.0, 15.0, autocal(false), stall(false));
    let pct = sc.target_duty_pct(0.2, 0.001);
    assert!((pct - 20.0).abs() < 1e-3, "got {pct}");
    assert!(!sc.c.uncalibrated_warned);
}

#[test]
fn target_duty_pct_falls_back_loudly_when_uncalibrated() {
    let mut sc = Loop::new(0.3, 0.5, 0.0, 100.0, 15.0, autocal(false), stall(false));
    let pct = sc.target_duty_pct(0.2, 0.0);
    assert_eq!(pct, f32::from_bits(UNCALIBRATED_FALLBACK_DUTY_PCT));
    assert_eq!(pct, 16.0);
    assert!(sc.c.uncalibrated_warned);
}

// ---- confidence -------------------------------------------------------------------

#[test]
fn confidence_scale_is_full_speed_when_confident_and_fresh() {
    assert_eq!(scale(0.0, 0), 1.0);
    assert_eq!(scale(0.01_f32.powi(2), 100), 1.0);
}

#[test]
fn confidence_scale_drops_to_zero_far_from_the_lane() {
    assert_eq!(scale(1.0, 0), 0.0);
}

#[test]
fn confidence_scale_drops_to_zero_on_a_long_dropout() {
    assert_eq!(scale(0.0, 10_000), 0.0);
}

#[test]
fn confidence_scale_decreases_monotonically_with_sigma() {
    let a = scale(0.05_f32.powi(2), 0);
    let b = scale(0.2_f32.powi(2), 0);
    let c = scale(0.4_f32.powi(2), 0);
    assert!(a >= b && b >= c, "{a} {b} {c}");
}

#[test]
fn confidence_scale_takes_the_worse_of_the_two_signals() {
    assert_eq!(scale(0.0, 10_000), 0.0);
    assert_eq!(scale(1.0, 0), 0.0);
}

#[test]
fn confidence_ramps_meet_their_ends() {
    assert_eq!(scale(0.0, AGE_LO_MS), 1.0);
    assert_eq!(scale(0.0, AGE_HI_MS), 0.0);
    assert_eq!(scale(0.0, 2750), 0.5);
}

// ---- safety gate ------------------------------------------------------------------

#[test]
fn safety_gate_starts_closed() {
    let gate = SafetyGate::new();
    assert!(
        !gate.drive_allowed(),
        "must not drive before any MissionStatus arrives"
    );
}

#[test]
fn safety_gate_opens_on_mission_active_and_closes_on_inactive() {
    let mut gate = SafetyGate::new();
    gate.on_mission_status(true);
    assert!(gate.drive_allowed());
    gate.on_mission_status(false);
    assert!(!gate.drive_allowed());
}

#[test]
fn safety_gate_estop_overrides_an_active_mission() {
    let mut gate = SafetyGate::new();
    gate.on_mission_status(true);
    assert!(gate.drive_allowed());
    gate.on_command(Command::EStop);
    assert!(!gate.drive_allowed());
    gate.on_mission_status(true);
    assert!(!gate.drive_allowed());
}

#[test]
fn safety_gate_clear_estop_clears_the_latch() {
    let mut gate = SafetyGate::new();
    gate.on_mission_status(true);
    gate.on_command(Command::EStop);
    assert!(!gate.drive_allowed());
    gate.on_command(Command::ClearEStop);
    gate.on_mission_status(true);
    assert!(gate.drive_allowed());
}

#[test]
fn safety_gate_cancel_mission_does_not_clear_the_estop_latch() {
    let mut gate = SafetyGate::new();
    gate.on_mission_status(true);
    gate.on_command(Command::EStop);
    assert!(!gate.drive_allowed());
    gate.on_command(Command::CancelMission);
    gate.on_mission_status(true);
    assert!(
        !gate.drive_allowed(),
        "CancelMission must not clear an E-stop latch"
    );
}

// ---- actuator ---------------------------------------------------------------------

struct Rig {
    act: Actuator,
    gains: Gains,
    slew_deg_per_s: f32,
    reference_mps: f32,
    metres_per_tick: f32,
}

fn rig() -> Rig {
    rig_with(0.20, stall(false))
}

fn rig_with(reference_mps: f32, stall: StallConfig) -> Rig {
    Rig {
        act: Actuator::new(ActuatorConfig {
            steer_max_deg: r(45.0),
            limit_cap_pct: r(40.0),
            sensor_timeout_us: us(1.0),
            autocal: autocal(false),
            stall,
        }),
        gains: Gains {
            kp: 0.3,
            ki: 0.5,
            kd: 0.0,
            integral_limit: 100.0,
            max_duty_step_pct: 15.0,
        },
        slew_deg_per_s: 180.0,
        reference_mps,
        metres_per_tick: 0.001,
    }
}

impl Rig {
    fn scaled_target(&mut self, s: &RoverState) -> Real32 {
        let full = f(self.act.speed.max_ticks_per_sec());
        let converted = self.reference_mps / self.metres_per_tick / full * 100.0;
        let base = self
            .act
            .speed
            .target_duty_pct(r(self.metres_per_tick), r(converted));
        r(f(base) * scale(f(s.cross_track_var()), s.lane_age_ms))
    }

    fn tick(
        &mut self,
        steer_rad: f32,
        s: &RoverState,
        drive_allowed: bool,
        now_s: f64,
        dt_s: f32,
    ) -> ChassisCommand {
        let target = self.scaled_target(s);
        let step = self.slew_deg_per_s * dt_s.max(0.0);
        let prev = f(self.act.steer.prev_deg);
        let request = SteerRequest {
            cmd_deg: r(steer_rad.to_degrees()),
            lo: r(prev - step),
            hi: r(prev + step),
        };
        let d = self
            .act
            .tick_chassis_command(request, target, drive_allowed, us(now_s));
        d.command(r(f(d.steer_deg) / f(self.act.steer.max_deg)))
    }

    fn wheel(
        &mut self,
        w: WheelSensors,
        now_s: f64,
        s: &RoverState,
        drive_allowed: bool,
    ) -> Option<SpeedLoopDebug> {
        let d = self.act.handle_wheel_sensors(w, us(now_s), drive_allowed)?;
        let scaled = self.scaled_target(s);
        let target = f(self.act.current_target_duty_pct(scaled));
        let dt_s = (d.dt_us as f64 / 1e6) as f32;
        Some(run_sample(
            &mut self.act.speed,
            self.gains,
            (d.left as f32 / dt_s, d.right as f32 / dt_s),
            dt_s,
            now_s,
            target,
        ))
    }
}

fn ticks(left: i32, right: i32, t_us: u32) -> WheelSensors {
    WheelSensors {
        ticks_left: left,
        ticks_right: right,
        t_us,
    }
}

#[test]
fn chassis_command_is_all_stop_when_drive_not_allowed() {
    let cmd = rig().tick(1.0, &state(0.0, 0), false, 1.0, 0.02);
    assert_eq!(f(cmd.steer), 0.0);
    assert_eq!(f(cmd.throttle), 0.0);
}

#[test]
fn chassis_command_is_emitted_even_when_stopped() {
    let mut act = rig();
    for i in 0..5 {
        let cmd = act.tick(0.3, &state(0.0, 0), false, 1.0, 0.02);
        assert_eq!(f(cmd.throttle), 0.0);
        assert!(f(cmd.steer).abs() <= 1.0);
        assert_eq!(cmd.seq, i + 1);
    }
}

#[test]
fn chassis_command_steer_is_normalised_by_steer_max_deg() {
    let mut act = rig();
    let pi = std::f32::consts::PI;
    let mut cmd = act.tick(pi, &state(0.0, 0), true, 1.0, 0.02);
    for _ in 0..20 {
        cmd = act.tick(pi, &state(0.0, 0), true, 1.0, 0.02);
    }
    assert!((f(cmd.steer) - 1.0).abs() < 1e-4, "got {}", f(cmd.steer));
}

#[test]
fn chassis_command_steer_is_slew_limited_on_the_first_tick() {
    let cmd = rig().tick(std::f32::consts::PI, &state(0.0, 0), true, 1.0, 0.02);
    let expected = 3.6 / 45.0;
    assert!(
        (f(cmd.steer) - expected).abs() < 1e-4,
        "got {}",
        f(cmd.steer)
    );
}

#[test]
fn speed_limit_command_caps_output_even_under_load() {
    let mut act = rig();
    act.act.set_speed_limit_pct(5);
    let cmd = act.tick(0.0, &state(0.0, 0), true, 1.0, 0.02);
    assert!(
        f(cmd.throttle) <= 0.05 + 1e-6,
        "cap not respected: throttle={}",
        f(cmd.throttle)
    );
    assert_eq!(f(cmd.throttle), 0.05);
}

#[test]
fn speed_limit_command_cannot_exceed_the_config_ceiling() {
    let mut act = rig_with(100.0, stall(false));
    act.act.set_speed_limit_pct(255);
    let cmd = act.tick(0.0, &state(0.0, 0), true, 1.0, 0.02);
    assert!(
        (f(cmd.throttle) - 0.40).abs() < 1e-6,
        "operator cap must clamp to the config ceiling (40%), got throttle={}",
        f(cmd.throttle)
    );
}

#[test]
fn speed_degrades_toward_zero_as_uncertainty_grows() {
    let confident = rig().tick(0.0, &state(0.0, 0), true, 1.0, 0.02);
    let uncertain = rig().tick(0.0, &state(1.0, 0), true, 1.0, 0.02);
    assert!(
        f(uncertain.throttle) < f(confident.throttle),
        "uncertain={} confident={}",
        f(uncertain.throttle),
        f(confident.throttle)
    );
    assert_eq!(f(uncertain.throttle), 0.0);
}

#[test]
fn open_loop_fallback_used_when_wheel_sensors_are_stale() {
    let mut act = rig();
    act.wheel(ticks(0, 0, 0), 0.0, &state(0.0, 0), true);
    let cmd = act.tick(0.0, &state(0.0, 0), true, 5.0, 0.02);
    assert!(
        (f(cmd.throttle) - 0.20).abs() < 1e-3,
        "expected open-loop 20%, got {}",
        f(cmd.throttle)
    );
}

#[test]
fn the_closed_loop_drives_while_the_sensors_are_fresh() {
    let mut act = rig();
    act.wheel(ticks(0, 0, 0), 0.0, &state(0.0, 0), true);
    let dbg = act
        .wheel(ticks(20, 20, 100_000), 0.1, &state(0.0, 0), true)
        .unwrap();
    assert!((f(dbg.measured_left_tps) - 200.0).abs() < 1e-2);
    let cmd = act.tick(0.0, &state(0.0, 0), true, 0.2, 0.02);
    assert_eq!(f(cmd.throttle), f(dbg.pid_output_pct) / 100.0);
}

#[test]
fn wheel_sensors_first_sample_seeds_without_a_debug() {
    let mut act = rig();
    assert!(act
        .wheel(ticks(0, 0, 0), 0.0, &state(0.0, 0), true)
        .is_none());
}

#[test]
fn wheel_sensors_produce_no_debug_while_not_drive_allowed() {
    let mut act = rig();
    act.wheel(ticks(0, 0, 0), 0.0, &state(0.0, 0), false);
    let dbg = act.wheel(ticks(10, 10, 100_000), 1.0, &state(0.0, 0), false);
    assert!(
        dbg.is_none(),
        "no SpeedLoopDebug should be published during E-stop"
    );
}

#[test]
fn wheel_counters_may_wrap_between_samples() {
    let mut act = rig().act;
    act.handle_wheel_sensors(ticks(i32::MAX - 1, i32::MIN + 1, 0), 0, true);
    let d = act
        .handle_wheel_sensors(ticks(i32::MIN + 2, i32::MAX - 2, 0), 100_000, true)
        .unwrap();
    assert_eq!((d.left, d.right, d.dt_us), (4, -4, 100_000));
    assert!(act
        .handle_wheel_sensors(ticks(0, 0, 0), 101_000, true)
        .is_none());
}

#[test]
fn stall_latch_forces_the_chassis_command_to_zero_throttle() {
    let mut act = rig_with(100.0, stall(true));
    act.act.set_speed_limit_pct(100);
    act.tick(0.0, &state(0.0, 0), true, 0.0, 0.02);

    let stationary = ticks(0, 0, 0);
    act.wheel(stationary, 0.0, &state(0.0, 0), true);
    act.wheel(stationary, 0.5, &state(0.0, 0), true);
    assert!(
        !act.act.is_stall_latched(),
        "must not latch before the timeout"
    );
    act.wheel(stationary, 3.0, &state(0.0, 0), true);

    assert!(act.act.is_stall_latched());
    let cmd = act.tick(0.0, &state(0.0, 0), true, 3.0, 0.02);
    assert_eq!(
        f(cmd.throttle),
        0.0,
        "a latched stall must force zero throttle"
    );
}

#[test]
fn an_angle_or_duty_of_zero_is_sent_as_it_is() {
    let stopped = ChassisDecision {
        steer_deg: r(0.0),
        duty_pct: r(-0.0),
        full_deg: r(45.0),
        seq: 9,
    };
    let cmd = stopped.command(r(0.7));
    assert_eq!((cmd.steer, cmd.throttle, cmd.seq), (r(0.0), r(-0.0), 9));
    let backed = ChassisDecision {
        steer_deg: r(-0.0),
        duty_pct: r(0.0),
        ..stopped
    };
    let cmd = backed.command(r(-0.0 / 45.0));
    assert_eq!((cmd.steer, cmd.throttle), (r(-0.0), r(0.0)));
    let no_limit = ChassisDecision {
        full_deg: r(0.0),
        ..stopped
    };
    assert!(f(no_limit.command(r(f32::NAN)).steer).is_nan());
    let moving = ChassisDecision {
        steer_deg: r(60.0),
        duty_pct: r(50.0),
        full_deg: r(45.0),
        seq: 10,
    };
    let cmd = moving.command(r(60.0 / 45.0));
    assert_eq!((f(cmd.steer), f(cmd.throttle), cmd.seq), (1.0, 0.5, 10));
}

#[test]
fn percentages_become_the_nearest_fractions() {
    let mut bits: u32 = 0x1234_5678;
    for i in 0..20_000u32 {
        bits = bits.wrapping_mul(1_664_525).wrapping_add(1_013_904_223);
        let v = f32::from_bits(bits ^ (i << 13));
        if !v.is_nan() {
            assert_eq!(r(v).over_hundred(), r(v / 100.0), "{v:e}");
        }
    }
    for v in [
        0.0,
        -0.0,
        1.0,
        13.0,
        100.0,
        99.99999,
        33.3,
        f32::MAX,
        f32::MIN_POSITIVE,
        f32::from_bits(1),
        f32::from_bits(50),
        f32::from_bits(51),
        f32::from_bits(150),
        f32::from_bits(0x0400_0000),
        f32::from_bits(0x03ff_ffff),
        f32::INFINITY,
        f32::NEG_INFINITY,
    ] {
        assert_eq!(r(v).over_hundred(), r(v / 100.0), "{v:e}");
        assert_eq!(r(-v).over_hundred(), r(-v / 100.0), "{v:e}");
    }
}

#[test]
fn the_cap_and_the_numbering_hold_along_a_run() {
    let mut act = rig();
    assert_eq!(act.tick(0.0, &state(0.0, 0), false, 0.0, 0.02).seq, 1);
    act.act.set_speed_limit_pct(20);
    let cmd = act.tick(1.0, &state(0.0, 0), true, 0.02, 0.02);
    assert_eq!(cmd.seq, 2);
    assert!(f(cmd.throttle) <= 20.0 / 100.0 && f(cmd.throttle) >= 0.0);
    assert!(f(cmd.steer).abs() <= 1.0);
    act.act.set_speed_limit_pct(0);
    let cmd = act.tick(1.0, &state(0.0, 0), true, 0.04, 0.02);
    assert_eq!((f(cmd.throttle), cmd.seq), (0.0, 3));
}

#[test]
fn a_clock_that_goes_back_neither_latches_nor_closes() {
    let mut c = SpeedController::new(
        AutocalConfig {
            window_us: 0,
            ..autocal(true)
        },
        StallConfig {
            timeout_us: 0,
            ..stall(true)
        },
    );
    c.set_last_commanded_duty(r(50.0));
    let standing = WheelSample {
        left_tps: r(0.0),
        right_tps: r(0.0),
        mean_tps: r(0.0),
        steady: false,
        full_scale_tps: r(0.0),
    };
    c.on_sample(&standing, 1_000, r(50.0));
    c.on_sample(&standing, 999, r(50.0));
    assert!(!c.is_stall_latched());
    c.on_sample(&standing, 1_000, r(50.0));
    assert!(c.is_stall_latched());
    c.window_start_us = Some(1_000);
    let turning = WheelSample {
        mean_tps: r(100.0),
        ..standing
    };
    c.on_sample(&turning, 999, r(50.0));
    assert!(!c.autocal_done);
    c.on_sample(&turning, 1_000, r(50.0));
    assert!(c.autocal_done);
}

#[test]
fn a_new_actuator_is_at_rest() {
    let act = rig().act;
    assert_eq!(act.speed.max_ticks_per_sec, Real32(MAX_TICKS_PER_SEC_PLACEHOLDER));
    assert_eq!(act.speed.integral, r(0.0));
    assert_eq!(act.speed.last_commanded_duty_pct, r(0.0));
    assert_eq!(act.speed.stall_since_us, None);
    assert!(act.speed.autocal_samples.is_empty() && !act.speed.autocal_done);
}

// ---- configuration ------------------------------------------------------------------

fn sample() -> RawConfig {
    RawConfig {
        law: "static_gain".to_string(),
        k_lat: r(181.17),
        k_head: r(2.024),
        steer_max_deg: r(45.0),
        steer_slew_deg_per_s: r(180.0),
        speed: SpeedConfig {
            reference_mps: r(0.20),
            kp: r(0.3),
            ki: r(0.5),
            kd: r(0.0),
            integral_limit: r(100.0),
            max_duty_step_pct: r(15.0),
            limit_cap_pct: r(40.0),
            sensor_timeout_s: r(1.0),
            autocal: AutocalSettings {
                enabled: true,
                min_duty_pct: r(13.0),
                min_samples: 40,
                window_s: r(60.0),
            },
            stall: StallSettings {
                enabled: true,
                min_duty_pct: r(30.0),
                min_ticks_per_sec: r(10.0),
                timeout_s: r(2.0),
            },
        },
        wheelbase_m: r(0.4875),
        metres_per_tick: r(0.0),
        lookahead_m: r(1.22),
        predict_hz: r(100.0),
        nis_gate: r(11.34),
        zero_rate_max_ticks: 0,
        q: ProcessNoise::new(r(1e-2), r(1e-2), r(1e-1), r(1e-1), r(1e-5)),
        r_lane: LaneNoise::new(r(2.5e-3), r(2.0e-3), r(1.0e-2)),
        r_odom_speed: r(1.0e-3),
        r_zero_rate_gyro: r(1e-6),
        command_rate_hz: r(50.0),
    }
}

fn sample_with_law(law: &str) -> RawConfig {
    let mut raw = sample();
    raw.law = law.to_string();
    raw
}

#[test]
fn parses_static_gain_law() {
    let cfg = AppConfig::parse(&sample()).unwrap();
    assert_eq!(
        cfg.law,
        ControllerLaw::StaticGain(StaticGainConfig {
            k_lat_deg_per_m: r(181.17),
            k_head_deg_per_deg: r(2.024),
        })
    );
    assert_eq!(cfg.steer_max_deg, r(45.0));
    assert_eq!(cfg.vehicle, VehicleParams::new(r(0.4875), r(1.22)));
    assert_eq!(cfg.metres_per_tick, r(0.0));
    assert_eq!(cfg.predict_hz, r(100.0));
    assert_eq!(cfg.speed.reference_mps, r(0.20));
    assert_eq!(cfg.speed.autocal.min_samples, 40);
    assert_eq!(cfg.speed.stall.timeout_s, r(2.0));
    assert_eq!(cfg.command_rate_hz, r(50.0));
}

#[test]
fn rejects_lqr_and_mpc_as_unimplemented_not_unknown() {
    let err = AppConfig::parse(&sample_with_law("lqr")).unwrap_err();
    assert_eq!(
        err.message(),
        "control.law = \"lqr\" is a planned controller (plan §8) that rover-control does not implement yet — only \"static_gain\" exists"
    );
    assert!(matches!(err, ConfigError::UnimplementedLaw(l) if l == "lqr"));
    let err = AppConfig::parse(&sample_with_law("mpc")).unwrap_err();
    assert!(matches!(err, ConfigError::UnimplementedLaw(l) if l == "mpc"));
}

#[test]
fn rejects_a_law_name_that_is_not_recognised_at_all() {
    let err = AppConfig::parse(&sample_with_law("pure_pursuit")).unwrap_err();
    assert_eq!(
        err.message(),
        "control.law = \"pure_pursuit\" is not a recognised controller"
    );
    assert!(matches!(err, ConfigError::UnknownLaw(l) if l == "pure_pursuit"));
}

// ---- estimator ----------------------------------------------------------------------

fn estimator_cfg(metres_per_tick: f32) -> EstimatorConfig {
    let mut raw = sample();
    raw.metres_per_tick = r(metres_per_tick);
    AppConfig::parse(&raw).unwrap().estimator
}

#[test]
fn odometry_is_refused_without_calibration() {
    let cfg = estimator_cfg(0.0);
    let mut ekf = Ekf::new();
    assert_eq!(
        ekf.correct_wheel_sensors(&ticks(0, 0, 0), r(0.5), &cfg),
        WheelUpdate::Skip
    );
    assert_eq!(
        ekf.correct_wheel_sensors(&ticks(50, 52, 100_000), r(0.5), &cfg),
        WheelUpdate::Disabled,
        "a disabled odometry update must not touch the speed estimate"
    );
    assert!(
        ekf.odometry_disabled(),
        "odometry must self-disable when metres_per_tick == 0.0"
    );
}

#[test]
fn odometry_measures_once_calibrated() {
    let cfg = estimator_cfg(0.001);
    let mut ekf = Ekf::new();
    ekf.correct_wheel_sensors(&ticks(0, 0, 0), r(0.5), &cfg);
    assert_eq!(
        ekf.correct_wheel_sensors(&ticks(200, 200, 100_000), r(0.5), &cfg),
        WheelUpdate::Odometry {
            left: 200,
            right: 200,
            dt_us: 100_000
        }
    );
    assert!(!ekf.odometry_disabled());
}

#[test]
fn standing_wheels_show_the_gyro_bias_only_without_throttle() {
    let cfg = estimator_cfg(0.001);
    let mut ekf = Ekf::new();
    ekf.correct_wheel_sensors(&ticks(5, 5, 0), r(0.0), &cfg);
    assert_eq!(
        ekf.correct_wheel_sensors(&ticks(5, 5, 100), r(0.0), &cfg),
        WheelUpdate::ZeroRate
    );
    assert_eq!(
        ekf.correct_wheel_sensors(&ticks(5, 5, 200), r(-0.5), &cfg),
        WheelUpdate::Odometry {
            left: 0,
            right: 0,
            dt_us: 100
        }
    );
    assert_eq!(
        ekf.correct_wheel_sensors(&ticks(6, 5, 200), r(0.0), &cfg),
        WheelUpdate::Skip
    );
    assert!(Ekf::weighs(r(1e-9)));
    assert!(!Ekf::weighs(r(0.0)));
    assert!(!Ekf::weighs(r(f32::NAN)));
}

fn lane(valid: bool) -> LaneMeasurement {
    LaneMeasurement {
        valid,
        ..Default::default()
    }
}

#[test]
fn only_accepted_measurements_refresh_the_lane() {
    let gate = r(11.34);
    let mut ekf = Ekf::new();
    let inn = |nis: Option<f32>| Innovation {
        y: [r(0.1), r(0.2), r(0.3)],
        nis: nis.map(r),
    };
    ekf.predict(1_000);
    assert!(ekf
        .correct_camera(&lane(false), &inn(Some(0.1)), gate)
        .is_none());
    let outlier = ekf
        .correct_camera(&lane(true), &inn(Some(20.0)), gate)
        .unwrap();
    assert!(outlier.gated);
    assert_eq!(f(outlier.nis), 20.0);
    let singular = ekf.correct_camera(&lane(true), &inn(None), gate).unwrap();
    assert!(singular.gated);
    assert_eq!(f(singular.nis), f32::INFINITY);
    assert_eq!(ekf.lane_age_ms, 1_000);
    let good = ekf
        .correct_camera(&lane(true), &inn(Some(11.34)), gate)
        .unwrap();
    assert!(!good.gated);
    assert_eq!(ekf.lane_age_ms, 0);
    ekf.predict(u16::MAX);
    ekf.predict(10);
    assert_eq!(ekf.lane_age_ms, u16::MAX);
}

// ---- the control cycle --------------------------------------------------------------

#[test]
fn a_retransmitted_command_is_seen_once() {
    let cmd = CommandFrame {
        cmd_seq: 3,
        body: Command::EStop,
    };
    let mut buf = [0u8; 64];
    let n = encode_frame(&cmd, 1, &mut buf);
    let frame = Frame::parse(&buf[..n]).unwrap();
    let mut rx = CommandReceiver::new();
    assert!(matches!(
        receive(&frame, &mut rx),
        Some(Inbound::Cmd(Command::EStop))
    ));
    assert!(receive(&frame, &mut rx).is_none());
    let unrelated = rover::msgs::boards::PowerSample::default();
    let n = encode_frame(&unrelated, 1, &mut buf);
    assert!(receive(&Frame::parse(&buf[..n]).unwrap(), &mut rx).is_none());
}

#[test]
fn commands_flow_at_their_rate_and_driving_starts_afresh() {
    let mut c = ControlCycle::new(20_000);
    let p = c.on_tick(5, false);
    assert!(!p.drive_allowed && !p.reset_controller && !p.announce_stall);
    assert_eq!(p.command, Some(None));
    assert_eq!(c.on_tick(10_005, true).command, None);
    assert!(!c.on_tick(10_006, true).announce_stall);
    let active = MissionStatus {
        active: true,
        ..Default::default()
    };
    assert!(matches!(
        c.on_inbound(Inbound::Mission(active)),
        Step::Settled
    ));
    assert!(matches!(
        c.on_inbound(Inbound::Wheel(ticks(1, 2, 3))),
        Step::CorrectWheel {
            drive_allowed: true,
            ..
        }
    ));
    let p = c.on_tick(25_005, false);
    assert!(p.drive_allowed && p.reset_controller);
    assert_eq!(p.command, Some(Some(25_000)));
    assert!(!c.on_tick(25_006, false).reset_controller);
    assert!(matches!(
        c.on_inbound(Inbound::Cmd(Command::SetSpeedLimit(7))),
        Step::LimitSpeed(7)
    ));
    assert!(matches!(
        c.on_inbound(Inbound::Cmd(Command::EStop)),
        Step::Settled
    ));
    assert!(!c.on_tick(25_007, false).drive_allowed);
}
