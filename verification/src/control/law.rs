//! The configuration of the control process.
//!
//! A reader of configuration files fills in [`RawConfig`]; resolving it names
//! the guidance law and puts every value where it is used.

use crate::reals::Real32;
use crate::text;
use vstd::prelude::*;

verus! {

/// The gains of the static law.
#[derive(Clone, Copy, Debug, PartialEq, Eq, Structural)]
pub struct StaticGainConfig {
    /// Degrees per metre of lateral offset.
    pub k_lat_deg_per_m: Real32,
    /// Degrees per degree of heading error.
    pub k_head_deg_per_deg: Real32,
}

/// Which guidance law to build.
#[derive(Clone, Copy, Debug, PartialEq, Eq, Structural)]
pub enum ControllerLaw {
    StaticGain(StaticGainConfig),
}

/// Why a law was not selected, with the name that asked for it.
#[derive(Clone, Debug, PartialEq, Eq)]
pub enum ConfigError {
    /// A law that is planned and does not exist.
    UnimplementedLaw(String),
    /// Not a law at all.
    UnknownLaw(String),
}

impl ConfigError {
    /// The error in words.
    pub open spec fn described(self) -> Seq<char> {
        match self {
            ConfigError::UnimplementedLaw(n) => "control.law = \""@ + n@
                + "\" is a planned controller (plan §8) that rover-control does not implement yet — only \"static_gain\" exists"@,
            ConfigError::UnknownLaw(n) => "control.law = \""@ + n@
                + "\" is not a recognised controller"@,
        }
    }

    pub fn message(&self) -> (s: String)
        ensures
            s@ == self.described(),
    {
        let mut s = text::owned("control.law = \"");
        match self {
            ConfigError::UnimplementedLaw(n) => {
                text::push_str(&mut s, n.as_str());
                text::push_str(
                    &mut s,
                    "\" is a planned controller (plan §8) that rover-control does not implement yet — only \"static_gain\" exists",
                );
            },
            ConfigError::UnknownLaw(n) => {
                text::push_str(&mut s, n.as_str());
                text::push_str(&mut s, "\" is not a recognised controller");
            },
        }
        s
    }
}

/// Learning full scale, as configured.
#[derive(Clone, Copy, Debug, PartialEq, Eq, Structural)]
pub struct AutocalSettings {
    pub enabled: bool,
    pub min_duty_pct: Real32,
    pub min_samples: usize,
    pub window_s: Real32,
}

/// Stall detection, as configured.
#[derive(Clone, Copy, Debug, PartialEq, Eq, Structural)]
pub struct StallSettings {
    pub enabled: bool,
    pub min_duty_pct: Real32,
    pub min_ticks_per_sec: Real32,
    pub timeout_s: Real32,
}

/// The speed loop, as configured.
#[derive(Clone, Copy, Debug, PartialEq, Eq, Structural)]
pub struct SpeedConfig {
    /// Cruise target, metres per second.
    pub reference_mps: Real32,
    pub kp: Real32,
    pub ki: Real32,
    pub kd: Real32,
    pub integral_limit: Real32,
    pub max_duty_step_pct: Real32,
    /// Hard ceiling, independent of any controller or operator.
    pub limit_cap_pct: Real32,
    pub sensor_timeout_s: Real32,
    pub autocal: AutocalSettings,
    pub stall: StallSettings,
}

/// The geometry of the vehicle.
#[derive(Clone, Copy, Debug, PartialEq, Eq, Structural)]
pub struct VehicleParams {
    pub wheelbase_m: Real32,
    pub lookahead_m: Real32,
}

impl VehicleParams {
    pub fn new(wheelbase_m: Real32, lookahead_m: Real32) -> (p: Self)
        ensures
            p == (VehicleParams { wheelbase_m, lookahead_m }),
    {
        VehicleParams { wheelbase_m, lookahead_m }
    }
}

/// Process noise, one spectral density per state.
#[derive(Clone, Copy, Debug, PartialEq, Eq, Structural)]
pub struct ProcessNoise {
    pub cross_track: Real32,
    pub heading: Real32,
    pub curvature: Real32,
    pub speed: Real32,
    pub gyro_bias: Real32,
}

impl ProcessNoise {
    pub fn new(
        cross_track: Real32,
        heading: Real32,
        curvature: Real32,
        speed: Real32,
        gyro_bias: Real32,
    ) -> (q: Self)
        ensures
            q == (ProcessNoise { cross_track, heading, curvature, speed, gyro_bias }),
    {
        ProcessNoise { cross_track, heading, curvature, speed, gyro_bias }
    }
}

/// Camera measurement noise, one variance per channel.
#[derive(Clone, Copy, Debug, PartialEq, Eq, Structural)]
pub struct LaneNoise {
    pub cross_track: Real32,
    pub heading: Real32,
    pub curvature: Real32,
}

impl LaneNoise {
    pub fn new(cross_track: Real32, heading: Real32, curvature: Real32) -> (r: Self)
        ensures
            r == (LaneNoise { cross_track, heading, curvature }),
    {
        LaneNoise { cross_track, heading, curvature }
    }
}

/// Everything the filter needs beyond the geometry.
#[derive(Clone, Copy, Debug, PartialEq, Eq, Structural)]
pub struct EstimatorConfig {
    pub q: ProcessNoise,
    pub r_lane: LaneNoise,
    pub r_odom_speed: Real32,
    pub r_zero_rate_gyro: Real32,
    /// Chi-square gate for the camera update.
    pub nis_gate: Real32,
    /// Zero means uncalibrated.
    pub metres_per_tick: Real32,
    /// Largest tick delta on either wheel still counted as standing.
    pub zero_rate_max_ticks: i32,
}

impl EstimatorConfig {
    /// The drivetrain is calibrated.
    pub open spec fn calibrated(self) -> bool {
        !self.metres_per_tick.same(Real32(0))
    }

    /// False for the uncalibrated placeholder, a zero of either sign.
    pub fn odometry_calibrated(&self) -> (r: bool)
        ensures
            r == self.calibrated(),
    {
        !self.metres_per_tick.is_same(Real32(0))
    }
}

/// The values of the configuration tables that control reads.
pub struct RawConfig {
    pub law: String,
    pub k_lat: Real32,
    pub k_head: Real32,
    pub steer_max_deg: Real32,
    pub steer_slew_deg_per_s: Real32,
    pub speed: SpeedConfig,
    pub wheelbase_m: Real32,
    pub metres_per_tick: Real32,
    pub lookahead_m: Real32,
    pub predict_hz: Real32,
    pub nis_gate: Real32,
    pub zero_rate_max_ticks: i32,
    pub q: ProcessNoise,
    pub r_lane: LaneNoise,
    pub r_odom_speed: Real32,
    pub r_zero_rate_gyro: Real32,
    pub command_rate_hz: Real32,
}

/// Everything the control process needs, beyond bus wiring.
#[derive(Clone, Copy, Debug, PartialEq, Eq, Structural)]
pub struct AppConfig {
    /// The fixed tick rate of the control loop.
    pub predict_hz: Real32,
    /// Shared by the estimator and the controller, so that they can never
    /// disagree about the vehicle.
    pub vehicle: VehicleParams,
    pub estimator: EstimatorConfig,
    pub law: ControllerLaw,
    pub steer_max_deg: Real32,
    pub steer_slew_deg_per_s: Real32,
    pub speed: SpeedConfig,
    /// How often a chassis command is sent, even while stopped.
    pub command_rate_hz: Real32,
    pub metres_per_tick: Real32,
}

/// What the name of a law stands for.
pub enum Named {
    Built,
    Planned,
    Unknown,
}

/// The laws by their names.
pub open spec fn law_named(name: Seq<char>) -> Named {
    if name == "static_gain"@ {
        Named::Built
    } else if name == "lqr"@ || name == "mpc"@ {
        Named::Planned
    } else {
        Named::Unknown
    }
}

impl AppConfig {
    /// The tables with every value where it is used.
    pub open spec fn resolved(raw: RawConfig) -> AppConfig {
        AppConfig {
            predict_hz: raw.predict_hz,
            vehicle: VehicleParams {
                wheelbase_m: raw.wheelbase_m,
                lookahead_m: raw.lookahead_m,
            },
            estimator: EstimatorConfig {
                q: raw.q,
                r_lane: raw.r_lane,
                r_odom_speed: raw.r_odom_speed,
                r_zero_rate_gyro: raw.r_zero_rate_gyro,
                nis_gate: raw.nis_gate,
                metres_per_tick: raw.metres_per_tick,
                zero_rate_max_ticks: raw.zero_rate_max_ticks,
            },
            law: ControllerLaw::StaticGain(
                StaticGainConfig {
                    k_lat_deg_per_m: raw.k_lat,
                    k_head_deg_per_deg: raw.k_head,
                },
            ),
            steer_max_deg: raw.steer_max_deg,
            steer_slew_deg_per_s: raw.steer_slew_deg_per_s,
            speed: raw.speed,
            command_rate_hz: raw.command_rate_hz,
            metres_per_tick: raw.metres_per_tick,
        }
    }

    /// Resolve the tables. Only the static law exists; the planned ones are
    /// refused by name, and so is everything else.
    pub fn parse(raw: &RawConfig) -> (r: Result<AppConfig, ConfigError>)
        ensures
            match law_named(raw.law@) {
                Named::Built => r == Ok::<AppConfig, ConfigError>(AppConfig::resolved(*raw)),
                Named::Planned => r matches Err(ConfigError::UnimplementedLaw(n)) && n@ == raw.law@,
                Named::Unknown => r matches Err(ConfigError::UnknownLaw(n)) && n@ == raw.law@,
            },
    {
        let chars = text::chars_of(raw.law.as_str());
        let name = chars.as_slice();
        let law = if text::is_word(name, "static_gain") {
            ControllerLaw::StaticGain(
                StaticGainConfig { k_lat_deg_per_m: raw.k_lat, k_head_deg_per_deg: raw.k_head },
            )
        } else if text::is_word(name, "lqr") || text::is_word(name, "mpc") {
            return Err(ConfigError::UnimplementedLaw(raw.law.clone()));
        } else {
            return Err(ConfigError::UnknownLaw(raw.law.clone()));
        };
        Ok(
            AppConfig {
                predict_hz: raw.predict_hz,
                vehicle: VehicleParams::new(raw.wheelbase_m, raw.lookahead_m),
                estimator: EstimatorConfig {
                    q: raw.q,
                    r_lane: raw.r_lane,
                    r_odom_speed: raw.r_odom_speed,
                    r_zero_rate_gyro: raw.r_zero_rate_gyro,
                    nis_gate: raw.nis_gate,
                    metres_per_tick: raw.metres_per_tick,
                    zero_rate_max_ticks: raw.zero_rate_max_ticks,
                },
                law,
                steer_max_deg: raw.steer_max_deg,
                steer_slew_deg_per_s: raw.steer_slew_deg_per_s,
                speed: raw.speed,
                command_rate_hz: raw.command_rate_hz,
                metres_per_tick: raw.metres_per_tick,
            },
        )
    }
}

/// Every value of the tables is used where it belongs, and the one calibration
/// of the drivetrain in both places that need it.
pub proof fn law_values_go_where_they_belong(raw: RawConfig)
    ensures
        ({
            let c = AppConfig::resolved(raw);
            &&& c.predict_hz == raw.predict_hz && c.command_rate_hz == raw.command_rate_hz
            &&& c.vehicle.wheelbase_m == raw.wheelbase_m && c.vehicle.lookahead_m
                == raw.lookahead_m
            &&& c.estimator.q == raw.q && c.estimator.r_lane == raw.r_lane
            &&& c.estimator.r_odom_speed == raw.r_odom_speed
            &&& c.estimator.r_zero_rate_gyro == raw.r_zero_rate_gyro
            &&& c.estimator.nis_gate == raw.nis_gate
            &&& c.estimator.zero_rate_max_ticks == raw.zero_rate_max_ticks
            &&& c.estimator.metres_per_tick == raw.metres_per_tick && c.metres_per_tick
                == raw.metres_per_tick
            &&& c.steer_max_deg == raw.steer_max_deg && c.steer_slew_deg_per_s
                == raw.steer_slew_deg_per_s
            &&& c.speed == raw.speed
            &&& c.law matches ControllerLaw::StaticGain(g) && g.k_lat_deg_per_m == raw.k_lat
                && g.k_head_deg_per_deg == raw.k_head
        }),
{
}

/// One law is built, two are planned, and no other name stands for one.
pub proof fn law_laws_by_name(name: Seq<char>)
    ensures
        law_named(name) is Built <==> name == "static_gain"@,
        law_named(name) is Planned <==> name == "lqr"@ || name == "mpc"@,
{
    reveal_strlit("static_gain");
    reveal_strlit("lqr");
    reveal_strlit("mpc");
    assert("static_gain"@.len() == 11 && "lqr"@.len() == 3 && "mpc"@.len() == 3);
}

/// The drivetrain is calibrated by any value but zero, of either sign.
pub proof fn law_calibration(c: EstimatorConfig)
    ensures
        c.calibrated() <==> c.metres_per_tick.0 != 0 && c.metres_per_tick.0 != 0x8000_0000,
{
}

/// An error names the law that was asked for.
pub proof fn law_errors_name_the_law(e: ConfigError)
    ensures
        e matches ConfigError::UnknownLaw(n) ==> e.described().subrange(15, 15 + n@.len() as int)
            == n@,
        e matches ConfigError::UnimplementedLaw(n) ==> e.described().subrange(
            15,
            15 + n@.len() as int,
        ) == n@,
{
    reveal_strlit("control.law = \"");
    assert("control.law = \""@.len() == 15);
    match e {
        ConfigError::UnknownLaw(n) => {
            assert(e.described().subrange(15, 15 + n@.len() as int) =~= n@);
        },
        ConfigError::UnimplementedLaw(n) => {
            assert(e.described().subrange(15, 15 + n@.len() as int) =~= n@);
        },
    }
}

} // verus!
