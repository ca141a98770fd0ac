//! The filter's decisions, under its arithmetic.

use nalgebra::{SMatrix, SVector};
use rover::control::estimate::{Belief, Ekf as Decisions, Estimator, Innovation, WheelUpdate};
use rover::control::law::{EstimatorConfig, LaneNoise, ProcessNoise, VehicleParams};
use rover::msgs::boards::{ImuSample, WheelSensors};
use rover::msgs::motion::{
    LaneMeasurement, CROSS_TRACK, CURVATURE, EKF_STATES, GYRO_BIAS, HEADING_ERR, SPEED,
};
use rover::reals::Real32;

type StateVector = SVector<f32, EKF_STATES>;
type StateMatrix = SMatrix<f32, EKF_STATES, EKF_STATES>;

const DT: f32 = 0.01;

fn r(v: f32) -> Real32 {
    Real32(v.to_bits())
}

fn f(v: Real32) -> f32 {
    f32::from_bits(v.0)
}

/// An estimate, in numbers.
#[derive(Clone, Copy, Debug, PartialEq)]
struct Shown {
    cross_track_m: f32,
    heading_err_rad: f32,
    curvature_inv_m: f32,
    speed_mps: f32,
    gyro_bias_radps: f32,
    p_diag: [f32; 5],
    lane_age_ms: u16,
}

impl Shown {
    fn at_lookahead(&self, l_a: f32) -> (f32, f32) {
        (
            self.cross_track_m
                + l_a * self.heading_err_rad
                + 0.5 * self.curvature_inv_m * l_a * l_a,
            self.heading_err_rad + l_a * self.curvature_inv_m,
        )
    }
}

/// A report on a camera measurement, in numbers.
struct Debugged {
    innovation: [f32; 3],
    nis: f32,
    gated: bool,
}

/// The arithmetic around the decisions.
struct Ekf {
    x: StateVector,
    p: StateMatrix,
    lookahead_m: f32,
    decisions: Estimator,
}

impl Ekf {
    fn new(params: VehicleParams, x: StateVector, p_diag: [f32; EKF_STATES]) -> Self {
        Ekf {
            x,
            p: StateMatrix::from_diagonal(&StateVector::from(p_diag)),
            lookahead_m: f(params.lookahead_m),
            decisions: Estimator::at_rest(),
        }
    }

    fn at_rest(params: VehicleParams, p_diag: [f32; EKF_STATES]) -> Self {
        Ekf::new(params, StateVector::zeros(), p_diag)
    }

    fn predict(&mut self, gyro_radps: f32, dt_s: f32, cfg: &EstimatorConfig) {
        let x = self.x;
        let mut jacobian = StateMatrix::zeros();
        jacobian[(CROSS_TRACK, HEADING_ERR)] = x[SPEED];
        jacobian[(CROSS_TRACK, SPEED)] = x[HEADING_ERR];
        jacobian[(HEADING_ERR, CURVATURE)] = -x[SPEED];
        jacobian[(HEADING_ERR, SPEED)] = -x[CURVATURE];
        jacobian[(HEADING_ERR, GYRO_BIAS)] = -1.0;
        let f_d = StateMatrix::identity() + jacobian * dt_s;
        let mut dx = StateVector::zeros();
        dx[CROSS_TRACK] = x[SPEED] * x[HEADING_ERR];
        dx[HEADING_ERR] = (gyro_radps - x[GYRO_BIAS]) - x[SPEED] * x[CURVATURE];
        self.x += dx * dt_s;
        let q = StateMatrix::from_diagonal(&StateVector::from([
            f(cfg.q.cross_track),
            f(cfg.q.heading),
            f(cfg.q.curvature),
            f(cfg.q.speed),
            f(cfg.q.gyro_bias),
        ]));
        self.p = f_d * self.p * f_d.transpose() + q * dt_s;
        self.decisions.ekf.predict((dt_s * 1000.0).round() as u16);
    }

    fn predict_from_imu(&mut self, sample: &ImuSample, cfg: &EstimatorConfig) -> Option<Shown> {
        let dt_us = self.decisions.predict_from_imu(sample)?;
        self.predict(f(sample.gyro_radps[2]), dt_us as f32 / 1_000_000.0, cfg);
        Some(self.state())
    }

    fn correct_camera(&mut self, meas: &LaneMeasurement, cfg: &EstimatorConfig) -> Option<Debugged> {
        let l_a = self.lookahead_m;
        let mut h = SMatrix::<f32, 3, EKF_STATES>::zeros();
        h[(0, CROSS_TRACK)] = 1.0;
        h[(0, HEADING_ERR)] = l_a;
        h[(0, CURVATURE)] = 0.5 * (l_a * l_a);
        h[(1, HEADING_ERR)] = 1.0;
        h[(1, CURVATURE)] = l_a;
        h[(2, CURVATURE)] = 1.0;
        let z = SVector::<f32, 3>::new(
            f(meas.cross_track_m),
            f(meas.heading_err_rad),
            f(meas.curvature_inv_m),
        );
        let y = z - h * self.x;
        let noise = SMatrix::<f32, 3, 3>::from_diagonal(&SVector::<f32, 3>::new(
            f(cfg.r_lane.cross_track),
            f(cfg.r_lane.heading),
            f(cfg.r_lane.curvature),
        ));
        let s_inv = (h * self.p * h.transpose() + noise).try_inverse();
        let innovation = Innovation {
            y: [r(y[0]), r(y[1]), r(y[2])],
            nis: s_inv.map(|inv| r((y.transpose() * inv * y)[(0, 0)])),
        };
        let d = self
            .decisions
            .ekf
            .correct_camera(meas, &innovation, cfg.nis_gate)?;
        if let (false, Some(inv)) = (d.gated, s_inv) {
            let k = self.p * h.transpose() * inv;
            self.x += k * y;
            let i_kh = StateMatrix::identity() - k * h;
            self.p = i_kh * self.p * i_kh.transpose() + k * noise * k.transpose();
        }
        Some(Debugged {
            innovation: d.innovation.map(f),
            nis: f(d.nis),
            gated: d.gated,
        })
    }

    fn correct_wheel_sensors(
        &mut self,
        wheel: &WheelSensors,
        throttle: f32,
        gyro_radps: f32,
        cfg: &EstimatorConfig,
    ) {
        match self
            .decisions
            .ekf
            .correct_wheel_sensors(wheel, r(throttle), cfg)
        {
            WheelUpdate::Skip | WheelUpdate::Disabled => {}
            WheelUpdate::ZeroRate => {
                self.scalar_update(GYRO_BIAS, gyro_radps, f(cfg.r_zero_rate_gyro));
            }
            WheelUpdate::Odometry { left, right, dt_us } => {
                let ticks = (left as f32 + right as f32) * 0.5;
                let speed = ticks * f(cfg.metres_per_tick) / (dt_us as f32 / 1_000_000.0);
                self.scalar_update(SPEED, speed, f(cfg.r_odom_speed));
            }
        }
    }

    fn scalar_update(&mut self, idx: usize, z: f32, noise: f32) {
        let y = z - self.x[idx];
        let s = self.p[(idx, idx)] + noise;
        if !Decisions::weighs(r(s)) {
            return;
        }
        let k = self.p.column(idx).into_owned() / s;
        self.x += k * y;
        let mut i_kh = StateMatrix::identity();
        for j in 0..EKF_STATES {
            i_kh[(j, idx)] -= k[j];
        }
        self.p = i_kh * self.p * i_kh.transpose() + (k * noise) * k.transpose();
    }

    fn odometry_disabled(&self) -> bool {
        self.decisions.ekf.odometry_disabled()
    }

    fn state(&self) -> Shown {
        let mut belief = Belief {
            x: [r(0.0); EKF_STATES],
            p_diag: [r(0.0); EKF_STATES],
        };
        for i in 0..EKF_STATES {
            belief.x[i] = r(self.x[i]);
            belief.p_diag[i] = r(self.p[(i, i)]);
        }
        let s = self.decisions.ekf.state(&belief);
        Shown {
            cross_track_m: f(s.cross_track_m),
            heading_err_rad: f(s.heading_err_rad),
            curvature_inv_m: f(s.curvature_inv_m),
            speed_mps: f(s.speed_mps),
            gyro_bias_radps: f(s.gyro_bias_radps),
            p_diag: s.p_diag.map(f),
            lane_age_ms: s.lane_age_ms,
        }
    }
}

fn params() -> VehicleParams {
    VehicleParams::new(r(0.4875), r(1.22))
}

fn cfg(metres_per_tick: f32) -> EstimatorConfig {
    EstimatorConfig {
        q: ProcessNoise::new(r(1e-2), r(1e-2), r(1e-1), r(1e-1), r(1e-5)),
        r_lane: LaneNoise::new(r(2.5e-3), r(2.0e-3), r(1.0e-2)),
        r_odom_speed: r(1.0e-3),
        r_zero_rate_gyro: r(1e-6),
        nis_gate: r(11.34),
        zero_rate_max_ticks: 0,
        metres_per_tick: r(metres_per_tick),
    }
}

fn lane_measurement(
    cross_track_m: f32,
    heading_err_rad: f32,
    curvature_inv_m: f32,
    t_us: u32,
) -> LaneMeasurement {
    LaneMeasurement {
        curvature_inv_m: r(curvature_inv_m),
        heading_err_rad: r(heading_err_rad),
        cross_track_m: r(cross_track_m),
        valid: true,
        t_us,
    }
}

#[test]
fn straight_line_converges_to_zero_and_holds() {
    let cfg = cfg(0.0);
    // True state: perfectly on-line, straight, constant speed. Filter starts
    // offset from it.
    let mut x0 = StateVector::zeros();
    x0[CROSS_TRACK] = 0.15;
    x0[HEADING_ERR] = 0.08;
    x0[SPEED] = 0.2;
    let mut ekf = Ekf::new(params(), x0, [1e-2, 1e-2, 1e-2, 1e-2, 1e-4]);

    let total_steps = 500; // 5 s at 100 Hz
    let camera_every = 3; // ~33 Hz, close to the real camera rate
    for step in 0..total_steps {
        ekf.predict(0.0, DT, &cfg); // true yaw rate is 0, no bias
        if step % camera_every == 0 {
            ekf.correct_camera(&lane_measurement(0.0, 0.0, 0.0, step as u32 * 10_000), &cfg);
        }
    }

    let s = ekf.state();
    assert!(
        s.cross_track_m.abs() < 1e-3,
        "cross_track_m did not converge: {}",
        s.cross_track_m
    );
    assert!(
        s.heading_err_rad.abs() < 1e-3,
        "heading_err_rad did not converge: {}",
        s.heading_err_rad
    );

    // Run further and confirm it stays converged rather than drifting back off.
    for step in total_steps..(total_steps + 200) {
        ekf.predict(0.0, DT, &cfg);
        if step % camera_every == 0 {
            ekf.correct_camera(&lane_measurement(0.0, 0.0, 0.0, step as u32 * 10_000), &cfg);
        }
    }
    let s2 = ekf.state();
    assert!(
        s2.cross_track_m.abs() < 1e-3,
        "estimate drifted back off zero: {}",
        s2.cross_track_m
    );
    assert!(
        s2.heading_err_rad.abs() < 1e-3,
        "estimate drifted back off zero: {}",
        s2.heading_err_rad
    );
}

#[test]
fn constant_curvature_arc_is_tracked() {
    let cfg = cfg(0.0);
    let true_kappa = 0.5_f32;
    let true_v = 0.2_f32;
    // Vehicle exactly on the arc (e_y = e_psi = 0 throughout): maintaining
    // that requires a true yaw rate of v * kappa.
    let true_yaw_rate = true_v * true_kappa;

    let mut x0 = StateVector::zeros();
    x0[SPEED] = true_v; // kappa starts at the wrong value, 0.0
    let mut ekf = Ekf::new(params(), x0, [1e-2, 1e-2, 1e-1, 1e-2, 1e-4]);

    let l_a = f(params().lookahead_m);
    let true_cross = 0.5 * true_kappa * l_a * l_a; // e_y=0, e_psi=0 => kappa*L_a^2/2
    let true_heading = l_a * true_kappa; // e_psi=0 => L_a*kappa

    let total_steps = 1000; // 10 s
    let camera_every = 3;
    for step in 0..total_steps {
        ekf.predict(true_yaw_rate, DT, &cfg);
        if step % camera_every == 0 {
            ekf.correct_camera(
                &lane_measurement(true_cross, true_heading, true_kappa, step as u32 * 10_000),
                &cfg,
            );
        }
    }

    let s = ekf.state();
    assert!(
        (s.curvature_inv_m - true_kappa).abs() < 0.05,
        "curvature did not converge: got {}, want {true_kappa}",
        s.curvature_inv_m
    );
    assert!(
        s.cross_track_m.abs() < 0.05,
        "front-axle cross track should stay near zero: {}",
        s.cross_track_m
    );
    assert!(
        s.heading_err_rad.abs() < 0.05,
        "front-axle heading error should stay near zero: {}",
        s.heading_err_rad
    );
}

#[test]
fn lane_dropout_coasts_without_diverging() {
    let cfg = cfg(0.0);
    let mut ekf = Ekf::at_rest(params(), [1e-3, 1e-3, 1e-3, 1e-3, 1e-6]);
    let p0 = ekf.state().p_diag;

    // A real (small, unmodelled) gyro bias in the raw reading: the filter
    // starts believing b_g = 0, so this exercises actual drift, not a
    // trivially-static state.
    let raw_gyro = 0.01_f32;

    let dropout_steps = 300; // 3 s at 100 Hz
    for _ in 0..dropout_steps {
        ekf.predict(raw_gyro, DT, &cfg);
        let dropped = LaneMeasurement {
            valid: false,
            ..lane_measurement(0.0, 0.0, 0.0, 0)
        };
        let debug = ekf.correct_camera(&dropped, &cfg);
        assert!(
            debug.is_none(),
            "an invalid measurement must produce no EkfDebug and no update"
        );
    }

    let s = ekf.state();
    assert_eq!(
        s.lane_age_ms, 3000,
        "lane_age_ms must saturate-add up to exactly the elapsed dropout time"
    );

    // Bounded, not diverged: small residual bias over 3 s should only drift
    // the estimate by a small amount, never blow up or go NaN.
    assert!(s.cross_track_m.is_finite() && s.cross_track_m.abs() < 0.5);
    assert!(s.heading_err_rad.is_finite() && s.heading_err_rad.abs() < 0.5);

    for (i, (&before, &after)) in p0.iter().zip(s.p_diag.iter()).enumerate() {
        assert!(
            after > before,
            "P[{i}] should grow through a dropout: {before} -> {after}"
        );
    }
}

#[test]
fn zero_rate_update_converges_gyro_bias() {
    let cfg = cfg(0.0);
    let mut ekf = Ekf::at_rest(params(), [1e-2, 1e-2, 1e-2, 1e-2, 1e-4]);
    let true_bias = 0.02_f32;

    // Stationary: throttle is zero and neither encoder ticks between samples.
    let mut t_us = 0u32;
    let mut wheel = WheelSensors {
        ticks_left: 0,
        ticks_right: 0,
        t_us,
    };
    ekf.correct_wheel_sensors(&wheel, 0.0, true_bias, &cfg); // seeds last_wheel only

    for _ in 0..80 {
        t_us += 100_000; // 100 ms, 10 Hz
        wheel = WheelSensors {
            ticks_left: 0,
            ticks_right: 0,
            t_us,
        };
        // gyro reads true yaw rate (0, stationary) + bias.
        ekf.correct_wheel_sensors(&wheel, 0.0, true_bias, &cfg);
    }

    let s = ekf.state();
    assert!(
        (s.gyro_bias_radps - true_bias).abs() < 0.002,
        "gyro bias did not converge: got {}, want {true_bias}",
        s.gyro_bias_radps
    );
}

#[test]
fn nis_gate_rejects_outlier_measurement() {
    let cfg = cfg(0.0);
    // A confident filter: small P, so a large innovation is many sigma away.
    let mut ekf = Ekf::at_rest(params(), [1e-4, 1e-4, 1e-4, 1e-4, 1e-6]);

    let outlier = lane_measurement(5.0, 0.0, 0.0, 0); // 5 m cross-track: nonsense
    let debug = ekf
        .correct_camera(&outlier, &cfg)
        .expect("a valid measurement always produces a debug frame");

    assert!(
        debug.gated,
        "an outlier this far from the belief must be gated"
    );
    assert!(
        debug.nis > f(cfg.nis_gate),
        "NIS should exceed its limit: {}",
        debug.nis
    );

    let s = ekf.state();
    assert!(
        s.cross_track_m.abs() < 1e-6,
        "a gated measurement must not move the state"
    );
}

#[test]
fn lookahead_reconstruction_round_trips_through_camera_model() {
    let p = params();
    let mut x = StateVector::zeros();
    x[CROSS_TRACK] = 0.1;
    x[HEADING_ERR] = 0.05;
    x[CURVATURE] = 0.3;
    x[SPEED] = 0.2;

    let synthetic = Shown {
        cross_track_m: x[CROSS_TRACK],
        heading_err_rad: x[HEADING_ERR],
        curvature_inv_m: x[CURVATURE],
        speed_mps: x[SPEED],
        gyro_bias_radps: 0.0,
        p_diag: [0.0; 5],
        lane_age_ms: 0,
    };
    let (expected_cross, expected_heading) = synthetic.at_lookahead(f(p.lookahead_m));

    // Hand-computed closed form, independent of `at_lookahead`'s own code,
    // so this test does not just check the function against itself.
    let l_a = f(p.lookahead_m);
    let hand_cross = 0.1 + l_a * 0.05 + 0.5 * 0.3 * l_a * l_a;
    let hand_heading = 0.05 + l_a * 0.3;
    assert!((expected_cross - hand_cross).abs() < 1e-6);
    assert!((expected_heading - hand_heading).abs() < 1e-6);

    // Now confirm the EKF's own camera measurement model (H_cam) agrees: an
    // exact-match measurement at these lookahead values must produce ~zero
    // innovation against a filter whose front-axle state is `x`.
    let cfg = cfg(0.0);
    let mut ekf = Ekf::new(p, x, [1e-6, 1e-6, 1e-6, 1e-6, 1e-6]);
    let meas = lane_measurement(expected_cross, expected_heading, x[CURVATURE], 0);
    let debug = ekf.correct_camera(&meas, &cfg).expect("valid measurement");

    assert!(!debug.gated, "an exact match must not be gated");
    for (i, innov) in debug.innovation.iter().enumerate() {
        assert!(
            innov.abs() < 1e-4,
            "innovation[{i}] should be ~0, got {innov}"
        );
    }
}

#[test]
fn sign_convention_left_offset_yields_positive_cross_track_and_right_steer() {
    // Positive cross_track_m and heading_err_rad mean "the correct response is to steer right." Getting
    // this backwards anywhere turns the closed loop into positive feedback.
    let cfg = cfg(0.0);
    let mut ekf = Ekf::at_rest(params(), [1e-2, 1e-2, 1e-2, 1e-2, 1e-4]);

    let meas = lane_measurement(0.1, 0.0, 0.0, 0); // rover offset such that steering right is correct
    ekf.correct_camera(&meas, &cfg);

    let s = ekf.state();
    assert!(
        s.cross_track_m > 0.0,
        "a positive lane offset must move the estimate positive, not negative"
    );

    // As in the control law: both feedback terms
    // carry a PLUS sign, so a positive estimate must yield a positive
    // (rightward) steer command.
    let k_lat = 181.17_f32;
    let k_head = 2.024_f32;
    let steer_deg = k_lat * s.cross_track_m + k_head * s.heading_err_rad;
    assert!(
        steer_deg > 0.0,
        "steer must be positive (right) for a positive cross-track error, got {steer_deg}"
    );
}

#[test]
fn odometry_disabled_when_metres_per_tick_is_uncalibrated() {
    let cfg = cfg(0.0);
    let mut ekf = Ekf::at_rest(params(), [1e-2, 1e-2, 1e-2, 1e-2, 1e-4]);

    let w1 = WheelSensors {
        ticks_left: 0,
        ticks_right: 0,
        t_us: 0,
    };
    let w2 = WheelSensors {
        ticks_left: 50,
        ticks_right: 52,
        t_us: 100_000,
    }; // moving

    ekf.correct_wheel_sensors(&w1, 0.5, 0.0, &cfg);
    let speed_before = ekf.state().speed_mps;
    ekf.correct_wheel_sensors(&w2, 0.5, 0.0, &cfg);
    let speed_after = ekf.state().speed_mps;

    assert!(
        ekf.odometry_disabled(),
        "odometry must self-disable when metres_per_tick == 0.0"
    );
    assert_eq!(
        speed_before, speed_after,
        "a disabled odometry update must not touch the speed estimate"
    );
}

#[test]
fn odometry_updates_speed_once_calibrated() {
    let cfg = cfg(0.001); // pretend calibration: 1 mm/tick
    let mut ekf = Ekf::new(
        params(),
        StateVector::zeros(),
        [1e-2, 1e-2, 1e-2, 1e-2, 1e-4],
    );

    let w1 = WheelSensors {
        ticks_left: 0,
        ticks_right: 0,
        t_us: 0,
    };
    let w2 = WheelSensors {
        ticks_left: 200,
        ticks_right: 200,
        t_us: 100_000,
    }; // 100 ms, 200 ticks/wheel

    ekf.correct_wheel_sensors(&w1, 0.5, 0.0, &cfg);
    ekf.correct_wheel_sensors(&w2, 0.5, 0.0, &cfg);

    // true speed = 200 ticks * 0.001 m/tick / 0.1 s = 2.0 m/s
    assert!(!ekf.odometry_disabled());
    assert!(
        (ekf.state().speed_mps - 2.0).abs() < 1.0,
        "speed estimate should move toward the odometry-implied speed: {}",
        ekf.state().speed_mps
    );
}

#[test]
fn gated_measurements_do_not_refresh_lane_age() {
    let cfg = cfg(0.0);
    let mut x0 = StateVector::zeros();
    x0[SPEED] = 0.2;
    let mut ekf = Ekf::new(params(), x0, [1e-4, 1e-4, 1e-4, 1e-4, 1e-6]);

    // Converge on a straight line, so that the filter is confident.
    for step in 0..300 {
        ekf.predict(0.0, DT, &cfg);
        if step % 3 == 0 {
            ekf.correct_camera(&lane_measurement(0.0, 0.0, 0.0, step * 10_000), &cfg);
        }
    }
    // Not exactly 0: the loop ends a couple of predict steps after the last
    // camera update. Anything under one camera period counts as fresh.
    assert!(
        ekf.state().lane_age_ms < 50,
        "should be fresh after good updates, got {} ms",
        ekf.state().lane_age_ms
    );

    // Now feed wild outliers: the camera is alive, but nothing it reports is
    // usable. Age must climb as though the lane were simply absent.
    let mut gated = 0;
    let mut received = 0;
    for step in 300..600 {
        ekf.predict(0.0, DT, &cfg);
        if step % 3 == 0 {
            received += 1;
            if let Some(dbg) =
                ekf.correct_camera(&lane_measurement(5.0, 1.5, 3.0, step * 10_000), &cfg)
            {
                if dbg.gated {
                    gated += 1;
                }
            }
        }
    }

    assert!(
        gated * 2 > received,
        "expected most outliers to be gated, got {gated}/{received}"
    );
    assert!(
        ekf.state().lane_age_ms >= 1_000,
        "lane_age_ms must track ACCEPTED information, not camera liveness; got {} ms",
        ekf.state().lane_age_ms
    );
}

fn imu(t_us: u32, gyro_z: f32) -> ImuSample {
    ImuSample {
        accel_mps2: [r(0.0); 3],
        gyro_radps: [r(0.0), r(0.0), r(gyro_z)],
        t_us,
    }
}

#[test]
fn first_sample_only_seeds_and_predicts_nothing() {
    let mut est = Ekf::at_rest(params(), [1e-2; 5]);
    let before = est.state();
    let out = est.predict_from_imu(&imu(1_000, 0.5), &cfg(0.0));
    assert!(out.is_none());
    assert_eq!(
        est.state(),
        before,
        "a seeding call must not advance the filter"
    );
}

#[test]
fn dt_is_computed_from_t_us_delta_not_a_nominal_period() {
    let mut est = Ekf::at_rest(params(), [1e-2; 5]);
    est.predict_from_imu(&imu(0, 0.0), &cfg(0.0));
    let gyro = 0.2_f32;
    let out = est.predict_from_imu(&imu(37_000, gyro), &cfg(0.0)).unwrap();
    let expected_heading = gyro * 0.037;
    assert!(
        (out.heading_err_rad - expected_heading).abs() < 1e-5,
        "got {}, expected ~{}",
        out.heading_err_rad,
        expected_heading
    );
}

#[test]
fn repeated_t_us_is_treated_as_no_new_sample() {
    let mut est = Ekf::at_rest(params(), [1e-2; 5]);
    est.predict_from_imu(&imu(0, 0.0), &cfg(0.0));
    est.predict_from_imu(&imu(10_000, 1.0), &cfg(0.0)).unwrap();
    let after_first = est.state();
    let out = est.predict_from_imu(&imu(10_000, 1.0), &cfg(0.0));
    assert!(out.is_none());
    assert_eq!(est.state(), after_first);
}

#[test]
fn wrapping_t_us_still_produces_a_sane_forward_dt() {
    let mut est = Ekf::at_rest(params(), [1e-2; 5]);
    est.predict_from_imu(&imu(u32::MAX - 5_000, 0.0), &cfg(0.0));
    let out = est.predict_from_imu(&imu(5_000, 0.3), &cfg(0.0)).unwrap();
    let expected_heading = 0.3 * 0.010;
    assert!(
        (out.heading_err_rad - expected_heading).abs() < 1e-5,
        "wraparound dt not handled: got {}",
        out.heading_err_rad
    );
}

#[test]
fn correct_lane_and_correct_wheel_delegate_without_panicking() {
    let mut est = Ekf::at_rest(params(), [1e-2; 5]);
    est.predict_from_imu(&imu(0, 0.0), &cfg(0.0));
    est.predict_from_imu(&imu(10_000, 0.0), &cfg(0.0));
    let dbg = est.correct_camera(&lane_measurement(0.02, 0.01, 0.0, 10_000), &cfg(0.0));
    assert!(dbg.is_some());
    let first = WheelSensors {
        ticks_left: 0,
        ticks_right: 0,
        t_us: 0,
    };
    est.correct_wheel_sensors(&first, 0.0, 0.0, &cfg(0.0));
    let second = WheelSensors {
        ticks_left: 5,
        ticks_right: 5,
        t_us: 100_000,
    };
    est.correct_wheel_sensors(&second, 0.0, 0.0, &cfg(0.0));
}
