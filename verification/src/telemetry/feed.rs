//! What the telemetry process remembers, and what it tells the base station.

use crate::bus::command;
use crate::bus::command::CommandReceiver;
use crate::control::speed;
use crate::control::speed::StallConfig;
use crate::msgs::boards::{ChassisStatus, PowerSample};
use crate::msgs::debug::{BoardDiagnostics, SpeedLoopDebug};
use crate::msgs::flags::HealthBits;
use crate::msgs::gnss::GnssFix;
use crate::msgs::kinds::{GnssSource, MissionState};
use crate::msgs::mission::{CommandFrame, MissionStatus};
use crate::msgs::motion::RoverState;
use crate::msgs::telemetry::Telemetry;
use crate::nav::assemble;
use crate::reals::Real32;
use crate::telemetry::boards::BoardHealth;
use crate::telemetry::health;
use crate::telemetry::health::FeedAges;
use crate::telemetry::stall::StallDetector;
use vstd::prelude::*;

verus! {

/// Microseconds between two reports.
pub const TELEMETRY_INTERVAL_US: u64 = 200_000;

/// What telemetry reads of the configuration. The age at which the lane is
/// stale is the estimator's own.
#[derive(Clone, Copy, Debug, PartialEq, Eq, Structural)]
pub struct TelemetryConfig {
    pub stall: StallConfig,
    pub lane_stale_ms: u16,
}

/// The latest of every feed, and when the ones that can go stale were seen.
pub struct Feed {
    pub lane_stale_ms: u16,
    pub rover_state: RoverState,
    pub mission: MissionStatus,
    pub power: PowerSample,
    pub chassis_status: Option<ChassisStatus>,
    pub boards: BoardHealth,
    pub rtk_fix: GnssFix,
    pub backup_fix: GnssFix,
    pub commands: CommandReceiver,
    pub stall: StallDetector,
    pub stall_detected: bool,
    pub chassis_seen_us: Option<u64>,
    pub power_seen_us: Option<u64>,
    pub rtk_seen_us: Option<u64>,
    pub backup_seen_us: Option<u64>,
    pub last_published_us: Option<u64>,
    pub seq: u32,
}

/// Milliseconds since a feed was seen.
pub open spec fn age_ms(seen_us: Option<u64>, now_us: u64) -> Option<u64> {
    match seen_us {
        None => None,
        Some(t) => Some((speed::elapsed(t, now_us) / 1000) as u64),
    }
}

pub fn age_of(seen_us: Option<u64>, now_us: u64) -> (r: Option<u64>)
    ensures
        r == age_ms(seen_us, now_us),
{
    match seen_us {
        None => None,
        Some(t) => Some(now_us.saturating_sub(t) / 1000),
    }
}

/// The estimate of an estimator that has reported nothing.
pub open spec fn blank_state() -> RoverState {
    RoverState {
        cross_track_m: Real32(0),
        heading_err_rad: Real32(0),
        curvature_inv_m: Real32(0),
        speed_mps: Real32(0),
        gyro_bias_radps: Real32(0),
        p_diag: [Real32(0), Real32(0), Real32(0), Real32(0), Real32(0)],
        lane_age_ms: 0,
    }
}

/// The progress of a mission that has reported nothing.
pub open spec fn blank_mission() -> MissionStatus {
    MissionStatus {
        active: false,
        distance_remaining_m: Real32(0),
        target: None,
        state: MissionState::Idle,
    }
}

impl Feed {
    pub fn new(config: TelemetryConfig) -> (f: Self)
        ensures
            f.lane_stale_ms == config.lane_stale_ms,
            f.rover_state == blank_state(),
            f.mission == blank_mission(),
            f.power == (PowerSample { bus_volts: Real32(0), current_amps: Real32(0) }),
            f.chassis_status is None,
            f.boards == (BoardHealth {
                post_failed: false,
                was_reset: false,
                chassis: None,
                sensors: None,
            }),
            f.rtk_fix == assemble::blank(GnssSource::Rtk),
            f.backup_fix == assemble::blank(GnssSource::Rtk),
            f.commands@ == None::<u16>,
            f.stall == (StallDetector { config: config.stall, since_us: None }),
            !f.stall_detected,
            f.chassis_seen_us is None,
            f.power_seen_us is None,
            f.rtk_seen_us is None,
            f.backup_seen_us is None,
            f.last_published_us is None,
            f.seq == 0,
    {
        Feed {
            lane_stale_ms: config.lane_stale_ms,
            rover_state: RoverState {
                cross_track_m: Real32(0),
                heading_err_rad: Real32(0),
                curvature_inv_m: Real32(0),
                speed_mps: Real32(0),
                gyro_bias_radps: Real32(0),
                p_diag: [Real32(0), Real32(0), Real32(0), Real32(0), Real32(0)],
                lane_age_ms: 0,
            },
            mission: MissionStatus {
                active: false,
                distance_remaining_m: Real32(0),
                target: None,
                state: MissionState::Idle,
            },
            power: PowerSample { bus_volts: Real32(0), current_amps: Real32(0) },
            chassis_status: None,
            boards: BoardHealth::new(),
            rtk_fix: assemble::blank_fix(GnssSource::Rtk),
            backup_fix: assemble::blank_fix(GnssSource::Rtk),
            commands: CommandReceiver::new(),
            stall: StallDetector::new(config.stall),
            stall_detected: false,
            chassis_seen_us: None,
            power_seen_us: None,
            rtk_seen_us: None,
            backup_seen_us: None,
            last_published_us: None,
            seq: 0,
        }
    }

    /// With a new estimate.
    pub open spec fn told_state(self, s: RoverState) -> Feed {
        Feed { rover_state: s, ..self }
    }

    /// With new progress of the mission.
    pub open spec fn told_mission(self, m: MissionStatus) -> Feed {
        Feed { mission: m, ..self }
    }

    /// With a new power sample.
    pub open spec fn told_power(self, p: PowerSample, now_us: u64) -> Feed {
        Feed { power: p, power_seen_us: Some(now_us), ..self }
    }

    /// With a new status of the chassis.
    pub open spec fn told_chassis(self, c: ChassisStatus, now_us: u64) -> Feed {
        Feed { chassis_status: Some(c), chassis_seen_us: Some(now_us), ..self }
    }

    /// With a new fix.
    pub open spec fn told_fix(self, fix: GnssFix, now_us: u64) -> Feed {
        match fix.source {
            GnssSource::Rtk => Feed { rtk_fix: fix, rtk_seen_us: Some(now_us), ..self },
            GnssSource::Backup => Feed { backup_fix: fix, backup_seen_us: Some(now_us), ..self },
        }
    }

    /// With a new report of the speed loop.
    pub open spec fn told_speed(self, d: SpeedLoopDebug, mean_tps: Real32, now_us: u64) -> Feed {
        let stall = self.stall.observed(d, mean_tps, now_us);
        Feed { stall, stall_detected: stall.stalled(now_us), ..self }
    }

    pub fn on_rover_state(&mut self, s: RoverState)
        ensures
            *final(self) == old(self).told_state(s),
    {
        self.rover_state = s;
    }

    pub fn on_mission(&mut self, m: MissionStatus)
        ensures
            *final(self) == old(self).told_mission(m),
    {
        self.mission = m;
    }

    pub fn on_power(&mut self, p: PowerSample, now_us: u64)
        ensures
            *final(self) == old(self).told_power(p, now_us),
    {
        self.power = p;
        self.power_seen_us = Some(now_us);
    }

    pub fn on_chassis(&mut self, c: ChassisStatus, now_us: u64)
        ensures
            *final(self) == old(self).told_chassis(c, now_us),
    {
        self.chassis_status = Some(c);
        self.chassis_seen_us = Some(now_us);
    }

    /// A board's report on itself.
    pub fn on_diagnostics(&mut self, d: &BoardDiagnostics)
        ensures
            *final(self) == (Feed { boards: old(self).boards.noted(*d), ..*old(self) }),
            final(self).boards.post_failed == (old(self).boards.post_failed
                || d.failed_checks().0 != 0),
            final(self).boards.was_reset == (old(self).boards.was_reset
                || d.reset_cause.abnormal() || (old(self).boards.latest(d.board) matches Some(prev)
                && d.uptime_s < prev.uptime_s)),
    {
        self.boards.on_diagnostics(d);
    }

    /// A fix is kept for the receiver that it says it came from.
    pub fn on_gnss(&mut self, fix: GnssFix, now_us: u64)
        ensures
            *final(self) == old(self).told_fix(fix, now_us),
    {
        match fix.source {
            GnssSource::Rtk => {
                self.rtk_fix = fix;
                self.rtk_seen_us = Some(now_us);
            },
            GnssSource::Backup => {
                self.backup_fix = fix;
                self.backup_seen_us = Some(now_us);
            },
        }
    }

    /// A report of the speed loop; `mean_tps` is the mean of its wheel speeds.
    pub fn on_speed_debug(&mut self, d: &SpeedLoopDebug, mean_tps: Real32, now_us: u64)
        ensures
            *final(self) == old(self).told_speed(*d, mean_tps, now_us),
    {
        self.stall_detected = self.stall.observe(d, mean_tps, now_us);
    }

    /// A command frame is followed for its number alone.
    pub fn on_command(&mut self, frame: CommandFrame)
        ensures
            final(self).commands@ == command::applied(old(self).commands@, frame.cmd_seq),
            *final(self) == (Feed { commands: final(self).commands, ..*old(self) }),
    {
        let _ = self.commands.apply(frame);
    }

    /// How old each feed is.
    pub open spec fn ages(self, now_us: u64) -> FeedAges {
        FeedAges {
            chassis_ms: age_ms(self.chassis_seen_us, now_us),
            sensors_ms: age_ms(self.power_seen_us, now_us),
            rtk_ms: age_ms(self.rtk_seen_us, now_us),
            backup_gnss_ms: age_ms(self.backup_seen_us, now_us),
        }
    }

    /// Whether a report is due.
    pub open spec fn due(self, now_us: u64) -> bool {
        match self.last_published_us {
            None => true,
            Some(t) => now_us >= t && now_us - t >= TELEMETRY_INTERVAL_US,
        }
    }

    /// Every health flag: those of the feeds and those of the boards' reports.
    pub open spec fn health(self, now_us: u64) -> HealthBits {
        HealthBits(
            health::health_of(
                self.ages(now_us),
                self.rover_state.lane_age_ms,
                self.lane_stale_ms,
                self.chassis_status,
                self.stall_detected,
                self.rover_state,
            ).0 | self.boards.flags().0,
        )
    }

    /// What is reported.
    pub open spec fn report(self, now_us: u64, t_us: u64) -> Telemetry {
        Telemetry {
            seq: ((self.seq + 1) % 0x1_0000_0000) as u32,
            t_us,
            state: self.rover_state,
            mission: self.mission,
            power: self.power,
            rtk: self.rtk_fix,
            backup: self.backup_fix,
            last_cmd_seq: command::echo_of(self.commands@),
            health: self.health(now_us),
        }
    }

    /// What is reported now, if it is time to.
    pub open spec fn published(self, now_us: u64, t_us: u64) -> Option<Telemetry> {
        if self.due(now_us) {
            Some(self.report(now_us, t_us))
        } else {
            None
        }
    }

    /// The feed once it was asked to report.
    pub open spec fn ticked(self, now_us: u64) -> Feed {
        if self.due(now_us) {
            Feed {
                last_published_us: Some(now_us),
                seq: ((self.seq + 1) % 0x1_0000_0000) as u32,
                ..self
            }
        } else {
            self
        }
    }

    /// Report if it is time to. `now_us` is a steady clock, `t_us` the time of
    /// day that goes into the report.
    pub fn tick(&mut self, now_us: u64, t_us: u64) -> (r: Option<Telemetry>)
        ensures
            r == old(self).published(now_us, t_us),
            *final(self) == old(self).ticked(now_us),
    {
        let due: bool = match self.last_published_us {
            None => true,
            Some(t) => now_us >= t && now_us - t >= TELEMETRY_INTERVAL_US,
        };
        if !due {
            return None;
        }
        self.last_published_us = Some(now_us);
        self.seq = self.seq.wrapping_add(1);
        let ages = FeedAges {
            chassis_ms: age_of(self.chassis_seen_us, now_us),
            sensors_ms: age_of(self.power_seen_us, now_us),
            rtk_ms: age_of(self.rtk_seen_us, now_us),
            backup_gnss_ms: age_of(self.backup_seen_us, now_us),
        };
        let mut h: HealthBits = health::compute_health(
            &ages,
            self.rover_state.lane_age_ms,
            self.lane_stale_ms,
            self.chassis_status.as_ref(),
            self.stall_detected,
            &self.rover_state,
        );
        h.set(self.boards.health());
        Some(
            Telemetry {
                seq: self.seq,
                t_us,
                state: self.rover_state,
                mission: self.mission,
                power: self.power,
                rtk: self.rtk_fix,
                backup: self.backup_fix,
                last_cmd_seq: self.commands.last_applied(),
                health: h,
            },
        )
    }
}

/// Whether a feed was never seen, or last seen more than `limit_ms` ago.
pub open spec fn silent(seen_us: Option<u64>, now_us: u64, limit_ms: u64) -> bool {
    match seen_us {
        None => true,
        Some(t) => speed::elapsed(t, now_us) / 1000 > limit_ms,
    }
}

proof fn lemma_flags_side_by_side(h: u16, j: u16, k: u16, l: u16)
    by (bit_vector)
    requires
        h & 0x0700 == 0,
        j == 0 || j == 0x0100,
        k == 0 || k == 0x0200,
        l == 0 || l == 0x0400,
    ensures
        (h | (j | k | l)) & 0x0001 == h & 0x0001,
        (h | (j | k | l)) & 0x0002 == h & 0x0002,
        (h | (j | k | l)) & 0x0004 == h & 0x0004,
        (h | (j | k | l)) & 0x0008 == h & 0x0008,
        (h | (j | k | l)) & 0x0010 == h & 0x0010,
        (h | (j | k | l)) & 0x0020 == h & 0x0020,
        (h | (j | k | l)) & 0x0040 == h & 0x0040,
        (h | (j | k | l)) & 0x0080 == h & 0x0080,
        (h | (j | k | l)) & 0x0100 == j,
        (h | (j | k | l)) & 0x0200 == k,
        (h | (j | k | l)) & 0x0400 == l,
{
}

proof fn lemma_report_flags(f: Feed, now_us: u64)
    ensures
        ({
            let own = health::health_of(
                f.ages(now_us),
                f.rover_state.lane_age_ms,
                f.lane_stale_ms,
                f.chassis_status,
                f.stall_detected,
                f.rover_state,
            ).0;
            let h = f.health(now_us).0;
            &&& h & 0x0001 == own & 0x0001
            &&& h & 0x0002 == own & 0x0002
            &&& h & 0x0004 == own & 0x0004
            &&& h & 0x0008 == own & 0x0008
            &&& h & 0x0010 == own & 0x0010
            &&& h & 0x0020 == own & 0x0020
            &&& h & 0x0040 == own & 0x0040
            &&& h & 0x0080 == own & 0x0080
            &&& h & 0x0100 == health::flag(f.boards.post_failed, 0x0100)
            &&& h & 0x0200 == health::flag(f.boards.was_reset, 0x0200)
            &&& h & 0x0400 == health::flag(f.boards.degraded(), 0x0400)
        }),
{
    health::law_flags_are_independent(
        f.ages(now_us),
        f.rover_state.lane_age_ms,
        f.lane_stale_ms,
        f.chassis_status,
        f.stall_detected,
        f.rover_state,
    );
    lemma_flags_side_by_side(
        health::health_of(
            f.ages(now_us),
            f.rover_state.lane_age_ms,
            f.lane_stale_ms,
            f.chassis_status,
            f.stall_detected,
            f.rover_state,
        ).0,
        health::flag(f.boards.post_failed, 0x0100),
        health::flag(f.boards.was_reset, 0x0200),
        health::flag(f.boards.degraded(), 0x0400),
    );
}

/// What a board has said of itself is reported: a failed self-test and a reset
/// for the rest of the run, a weak link for as long as the board says so.
pub proof fn law_board_faults_are_reported(f: Feed, now_us: u64, t_us: u64)
    ensures
        f.report(now_us, t_us).health.has(HealthBits(HealthBits::BOARD_POST_FAIL))
            == f.boards.post_failed,
        f.report(now_us, t_us).health.has(HealthBits(HealthBits::BOARD_RESET))
            == f.boards.was_reset,
        f.report(now_us, t_us).health.has(HealthBits(HealthBits::LINK_DEGRADED))
            == f.boards.degraded(),
{
    lemma_report_flags(f, now_us);
}

/// A report never passes old data off as fresh: each feed is flagged exactly if
/// it was never seen or has fallen silent.
pub proof fn law_silence_is_reported(f: Feed, now_us: u64, t_us: u64)
    ensures
        f.report(now_us, t_us).health.has(HealthBits(HealthBits::CHASSIS_STALE)) == silent(
            f.chassis_seen_us,
            now_us,
            health::CHASSIS_STALE_MS,
        ),
        f.report(now_us, t_us).health.has(HealthBits(HealthBits::SENSORS_STALE)) == silent(
            f.power_seen_us,
            now_us,
            health::SENSORS_STALE_MS,
        ),
        f.report(now_us, t_us).health.has(HealthBits(HealthBits::RTK_STALE)) == silent(
            f.rtk_seen_us,
            now_us,
            health::RTK_STALE_MS,
        ),
        f.report(now_us, t_us).health.has(HealthBits(HealthBits::BACKUP_GNSS_STALE)) == silent(
            f.backup_seen_us,
            now_us,
            health::BACKUP_GNSS_STALE_MS,
        ),
{
    lemma_report_flags(f, now_us);
    health::law_flags_are_independent(
        f.ages(now_us),
        f.rover_state.lane_age_ms,
        f.lane_stale_ms,
        f.chassis_status,
        f.stall_detected,
        f.rover_state,
    );
}

/// What is heard is what is reported, each under its own name and nothing else
/// changed: a fix belongs to the receiver that it says it came from.
#[verifier::rlimit(40)]
pub proof fn law_reports_carry_what_was_heard(
    f: Feed,
    s: RoverState,
    m: MissionStatus,
    p: PowerSample,
    c: ChassisStatus,
    fix: GnssFix,
    heard_us: u64,
    now_us: u64,
    t_us: u64,
)
    ensures
        ({
            let r = f.report(now_us, t_us);
            let with_state = f.told_state(s).report(now_us, t_us);
            let with_mission = f.told_mission(m).report(now_us, t_us);
            let with_power = f.told_power(p, heard_us).report(now_us, t_us);
            let with_chassis = f.told_chassis(c, heard_us).report(now_us, t_us);
            let with_fix = f.told_fix(fix, heard_us).report(now_us, t_us);
            &&& r.t_us == t_us
            &&& with_state == (Telemetry { state: s, health: with_state.health, ..r })
            &&& with_mission == (Telemetry { mission: m, ..r })
            &&& with_power == (Telemetry { power: p, health: with_power.health, ..r })
            &&& with_chassis == (Telemetry { health: with_chassis.health, ..r })
            &&& fix.source is Rtk ==> with_fix == (Telemetry {
                rtk: fix,
                health: with_fix.health,
                ..r
            })
            &&& fix.source is Backup ==> with_fix == (Telemetry {
                backup: fix,
                health: with_fix.health,
                ..r
            })
        }),
{
}

/// A feed that was heard of is stale once half a second, or for a fix a whole
/// one, has passed by a millisecond, counted from when it was heard; one that
/// was never heard of is stale.
#[verifier::rlimit(40)]
pub proof fn law_feeds_go_stale(
    f: Feed,
    p: PowerSample,
    c: ChassisStatus,
    fix: GnssFix,
    heard_us: u64,
    now_us: u64,
    t_us: u64,
)
    requires
        heard_us <= now_us,
    ensures
        ({
            let age = now_us - heard_us;
            let r = f.report(now_us, t_us).health;
            let power = f.told_power(p, heard_us).report(now_us, t_us).health;
            let chassis = f.told_chassis(c, heard_us).report(now_us, t_us).health;
            let fixed = f.told_fix(fix, heard_us).report(now_us, t_us).health;
            &&& chassis.has(HealthBits(1)) <==> age >= 501_000
            &&& power.has(HealthBits(2)) <==> age >= 501_000
            &&& fix.source is Rtk ==> (fixed.has(HealthBits(8)) <==> age >= 1_001_000)
            &&& fix.source is Backup ==> (fixed.has(HealthBits(16)) <==> age >= 1_001_000)
            &&& chassis.has(HealthBits(32)) <==> c.watchdog_tripped
            &&& f.chassis_seen_us is None ==> r.has(HealthBits(1))
            &&& f.power_seen_us is None ==> r.has(HealthBits(2))
            &&& f.rtk_seen_us is None ==> r.has(HealthBits(8))
            &&& f.backup_seen_us is None ==> r.has(HealthBits(16))
        }),
{
    law_silence_is_reported(f, now_us, t_us);
    law_silence_is_reported(f.told_power(p, heard_us), now_us, t_us);
    law_silence_is_reported(f.told_chassis(c, heard_us), now_us, t_us);
    law_silence_is_reported(f.told_fix(fix, heard_us), now_us, t_us);
    law_troubles_are_reported(f.told_chassis(c, heard_us), now_us, t_us);
    assert((now_us - heard_us) / 1000 > 500 <==> now_us - heard_us >= 501_000);
    assert((now_us - heard_us) / 1000 > 1000 <==> now_us - heard_us >= 1_001_000);
}

/// What else can be wrong is reported by its own flag: an old lane, a tripped
/// watchdog, a stall, an estimate that has gone astray.
pub proof fn law_troubles_are_reported(f: Feed, now_us: u64, t_us: u64)
    ensures
        ({
            let h = f.report(now_us, t_us).health;
            &&& h.has(HealthBits(4)) <==> f.rover_state.lane_age_ms > f.lane_stale_ms
            &&& h.has(HealthBits(32)) <==> (f.chassis_status matches Some(c) && c.watchdog_tripped)
            &&& h.has(HealthBits(64)) <==> f.stall_detected
            &&& h.has(HealthBits(128)) <==> Real32(0x3f80_0000).below(
                f.rover_state.lateral_variance(),
            )
        }),
{
    lemma_report_flags(f, now_us);
    health::law_flags_are_independent(
        f.ages(now_us),
        f.rover_state.lane_age_ms,
        f.lane_stale_ms,
        f.chassis_status,
        f.stall_detected,
        f.rover_state,
    );
}

/// Reports keep their pace: the first at once, and each of the others a fifth of
/// a second or more after the one before. They are numbered one by one, and say
/// which command was last applied.
#[verifier::rlimit(40)]
pub proof fn law_reports_keep_their_pace(f: Feed, now_us: u64, t_us: u64, later_us: u64)
    ensures
        f.last_published_us is None ==> f.published(now_us, t_us) is Some,
        f.published(now_us, t_us) is None ==> f.ticked(now_us) == f,
        f.published(now_us, t_us) matches Some(r) ==> {
            let after = f.ticked(now_us);
            &&& r == f.report(now_us, t_us)
            &&& after.published(later_us, t_us) is Some <==> later_us - now_us >= 200_000
            &&& after.published(later_us, t_us) matches Some(q) ==> {
                &&& r.seq < u32::MAX ==> q.seq == r.seq + 1
                &&& r.seq == u32::MAX ==> q.seq == 0
                &&& q == (Telemetry { seq: q.seq, health: q.health, ..r })
            }
        },
        f.commands@ matches Some(n) ==> f.report(now_us, t_us).last_cmd_seq == n,
        f.commands@ is None ==> f.report(now_us, t_us).last_cmd_seq == 0,
        f.seq < u32::MAX ==> f.report(now_us, t_us).seq == f.seq + 1,
{
}

/// A report of the speed loop says whether the rover is stalled, and nothing
/// else.
pub proof fn law_stalls_are_heard(
    f: Feed,
    d: SpeedLoopDebug,
    mean_tps: Real32,
    heard_us: u64,
    now_us: u64,
    t_us: u64,
)
    ensures
        ({
            let g = f.told_speed(d, mean_tps, heard_us);
            let (before, after) = (f.report(now_us, t_us), g.report(now_us, t_us));
            &&& g.stall == f.stall.observed(d, mean_tps, heard_us)
            &&& after.health.has(HealthBits(64)) <==> g.stall.stalled(heard_us)
            &&& after == (Telemetry { health: after.health, ..before })
        }),
{
    law_troubles_are_reported(f.told_speed(d, mean_tps, heard_us), now_us, t_us);
}

/// Where nothing was reported there is nothing to drive for: no mission is active
/// and no goal is set, and the estimate is all zeros.
pub proof fn law_blanks()
    ensures
        !blank_mission().active && blank_mission().target is None && blank_mission().state is Idle
            && blank_mission().distance_remaining_m == Real32(0),
        blank_state().cross_track_m == Real32(0) && blank_state().heading_err_rad == Real32(0)
            && blank_state().curvature_inv_m == Real32(0) && blank_state().speed_mps == Real32(0)
            && blank_state().gyro_bias_radps == Real32(0) && blank_state().lane_age_ms == 0,
        forall|i: int| 0 <= i < 5 ==> #[trigger] blank_state().p_diag[i] == Real32(0),
{
}

} // verus!
