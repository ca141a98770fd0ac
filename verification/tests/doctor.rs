//! The pre-flight verdicts.

use rover::doctor::{
    all_go, evaluate, CheckResult, DoctorConfig, DrivetrainConfig, Observations, RealTexts,
    Verdict,
};
use rover::msgs::debug::BoardDiagnostics;
use rover::msgs::flags::{HealthBits, PostBits};
use rover::msgs::gnss::GnssFix;
use rover::msgs::kinds::{BoardId, FixQuality, ResetCause};
use rover::msgs::motion::RoverState;
use rover::msgs::telemetry::Telemetry;
use rover::reals::Real32;

fn r(v: f32) -> Real32 {
    Real32(v.to_bits())
}

fn healthy_diag(board: BoardId) -> BoardDiagnostics {
    BoardDiagnostics {
        board,
        post_run: PostBits(0b1111),
        post_pass: PostBits(0b1111),
        reset_cause: ResetCause::PowerOn,
        phy_id: 0x0007_C130,
        link_speed_mbps: 100,
        link_full_duplex: true,
        phy_symbol_errors: 0,
        uptime_s: 600,
        tx_drops: 0,
    }
}

fn healthy_telemetry() -> Telemetry {
    Telemetry {
        state: RoverState {
            lane_age_ms: 50,
            p_diag: [r(0.01), r(0.01), r(0.01), r(0.01), r(0.01)],
            ..Default::default()
        },
        rtk: GnssFix {
            fix: FixQuality::RtkFixed,
            sats: 15,
            ..Default::default()
        },
        health: HealthBits(HealthBits::NONE),
        ..Default::default()
    }
}

fn healthy_observations() -> Observations {
    Observations {
        chassis_diag: Some(healthy_diag(BoardId::Chassis)),
        sensors_diag: Some(healthy_diag(BoardId::Sensors)),
        telemetry: Some(healthy_telemetry()),
    }
}

fn calibrated_config() -> DoctorConfig {
    DoctorConfig {
        drivetrain: DrivetrainConfig {
            metres_per_tick: r(0.0004),
        },
        lane_stale_ms: 500,
    }
}

fn check(obs: &Observations, cfg: &DoctorConfig) -> Vec<CheckResult> {
    let var = obs
        .telemetry
        .map_or(0.0, |t| f32::from_bits(t.state.p_diag[0].0));
    let shown = RealTexts {
        metres_per_tick: format!("{}", f32::from_bits(cfg.drivetrain.metres_per_tick.0)),
        cross_track_var: format!("{var:.4}"),
    };
    evaluate(obs, cfg, &shown)
}

fn find<'a>(results: &'a [CheckResult], name: &str) -> &'a CheckResult {
    results
        .iter()
        .find(|r| r.name == name)
        .unwrap_or_else(|| panic!("no check named {name:?}"))
}

#[test]
fn all_good_is_all_go() {
    let results = check(&healthy_observations(), &calibrated_config());
    for r in &results {
        assert_eq!(
            r.verdict,
            Verdict::Go,
            "expected GO for {:?}, got {:?}: {}",
            r.name,
            r.verdict,
            r.detail
        );
    }
}

#[test]
fn empty_observations_are_not_seen_everywhere_except_drivetrain() {
    let results = check(&Observations::default(), &calibrated_config());
    for r in &results {
        if r.name == "drivetrain calibrated" {
            continue; // config-only: always observed, never NotSeen.
        }
        assert_eq!(
            r.verdict,
            Verdict::NotSeen,
            "expected NOT SEEN for {:?}, got {:?}",
            r.name,
            r.verdict
        );
        assert!(!r.verdict.is_go());
    }
}

#[test]
fn feeds_reachable_go_only_when_all_three_are_present() {
    let obs = healthy_observations();
    assert_eq!(
        find(&check(&obs, &calibrated_config()), "feeds reachable").verdict,
        Verdict::Go
    );

    let mut missing_telemetry = obs;
    missing_telemetry.telemetry = None;
    let results = check(&missing_telemetry, &calibrated_config());
    let r = find(&results, "feeds reachable");
    assert_eq!(r.verdict, Verdict::NotSeen);
    assert!(r.detail.contains("telemetry"));
}

#[test]
fn post_failure_on_either_board_is_no_go() {
    let mut obs = healthy_observations();
    let mut chassis = healthy_diag(BoardId::Chassis);
    chassis.post_pass = PostBits(0b1110);
    obs.chassis_diag = Some(chassis);
    let results = check(&obs, &calibrated_config());
    let r = find(&results, "board POST");
    assert_eq!(r.verdict, Verdict::NoGo);
    assert!(r.detail.contains("chassis"));
}

#[test]
fn post_check_is_not_seen_when_one_board_is_missing() {
    let mut obs = healthy_observations();
    obs.sensors_diag = None;
    let results = check(&obs, &calibrated_config());
    let r = find(&results, "board POST");
    assert_eq!(r.verdict, Verdict::NotSeen);
}

#[test]
fn abnormal_reset_cause_is_no_go() {
    let mut obs = healthy_observations();
    let mut sensors = healthy_diag(BoardId::Sensors);
    sensors.reset_cause = ResetCause::IndependentWatchdog;
    obs.sensors_diag = Some(sensors);
    let results = check(&obs, &calibrated_config());
    let r = find(&results, "reset causes");
    assert_eq!(r.verdict, Verdict::NoGo);
    assert!(r.detail.contains("sensors"));
}

#[test]
fn reset_cause_check_is_not_seen_when_a_board_is_missing() {
    let mut obs = healthy_observations();
    obs.chassis_diag = None;
    let results = check(&obs, &calibrated_config());
    let r = find(&results, "reset causes");
    assert_eq!(r.verdict, Verdict::NotSeen);
}

#[test]
fn degraded_link_is_no_go() {
    let mut obs = healthy_observations();
    let mut chassis = healthy_diag(BoardId::Chassis);
    chassis.link_speed_mbps = 10;
    obs.chassis_diag = Some(chassis);
    let results = check(&obs, &calibrated_config());
    let r = find(&results, "board link quality");
    assert_eq!(r.verdict, Verdict::NoGo);
}

#[test]
fn unknown_link_speed_is_not_seen_rather_than_no_go() {
    // Speed 0 means the board could not read its PHY, not that the link
    // is down -- this very sample arrived over that link. Calling it
    // NO-GO would send the operator hunting for a bad cable that is
    // demonstrably fine.
    let mut obs = healthy_observations();
    let mut chassis = healthy_diag(BoardId::Chassis);
    chassis.link_speed_mbps = 0;
    chassis.link_full_duplex = false;
    obs.chassis_diag = Some(chassis);
    let results = check(&obs, &calibrated_config());
    let r = find(&results, "board link quality");
    assert_eq!(r.verdict, Verdict::NotSeen);
    assert!(r.detail.contains("chassis"));
}

#[test]
fn unknown_link_speed_still_blocks_go() {
    // The other half of the rule: unjudged is not healthy either.
    let mut obs = healthy_observations();
    let mut sensors = healthy_diag(BoardId::Sensors);
    sensors.link_speed_mbps = 0;
    obs.sensors_diag = Some(sensors);
    let results = check(&obs, &calibrated_config());
    assert_ne!(find(&results, "board link quality").verdict, Verdict::Go);
}

#[test]
fn link_quality_check_is_not_seen_when_a_board_is_missing() {
    let mut obs = healthy_observations();
    obs.sensors_diag = None;
    let results = check(&obs, &calibrated_config());
    let r = find(&results, "board link quality");
    assert_eq!(r.verdict, Verdict::NotSeen);
}

#[test]
fn any_health_bit_set_is_no_go() {
    let mut obs = healthy_observations();
    let mut t = healthy_telemetry();
    t.health.set(HealthBits(HealthBits::RTK_STALE));
    obs.telemetry = Some(t);
    let results = check(&obs, &calibrated_config());
    let r = find(&results, "telemetry health bits");
    assert_eq!(r.verdict, Verdict::NoGo);
}

#[test]
fn health_bits_check_is_not_seen_without_telemetry() {
    let mut obs = healthy_observations();
    obs.telemetry = None;
    let results = check(&obs, &calibrated_config());
    let r = find(&results, "telemetry health bits");
    assert_eq!(r.verdict, Verdict::NotSeen);
}

#[test]
fn uncalibrated_drivetrain_is_no_go_and_never_not_seen() {
    let cfg = DoctorConfig {
        drivetrain: DrivetrainConfig {
            metres_per_tick: r(0.0),
        },
        lane_stale_ms: 500,
    };
    let results = check(&healthy_observations(), &cfg);
    let r = find(&results, "drivetrain calibrated");
    assert_eq!(r.verdict, Verdict::NoGo);
    assert!(r.detail.contains("RUST_REWRITE_PLAN.md"));
    assert!(r.detail.contains("2.6"));
}

#[test]
fn calibrated_drivetrain_is_go() {
    let results = check(&healthy_observations(), &calibrated_config());
    let r = find(&results, "drivetrain calibrated");
    assert_eq!(r.verdict, Verdict::Go);
}

#[test]
fn non_rtk_fix_is_no_go() {
    let mut obs = healthy_observations();
    let mut t = healthy_telemetry();
    t.rtk.fix = FixQuality::Autonomous;
    obs.telemetry = Some(t);
    let results = check(&obs, &calibrated_config());
    let r = find(&results, "RTK fix quality");
    assert_eq!(r.verdict, Verdict::NoGo);
}

#[test]
fn rtk_check_is_not_seen_without_telemetry() {
    let mut obs = healthy_observations();
    obs.telemetry = None;
    let results = check(&obs, &calibrated_config());
    let r = find(&results, "RTK fix quality");
    assert_eq!(r.verdict, Verdict::NotSeen);
}

#[test]
fn stale_lane_is_no_go() {
    let mut obs = healthy_observations();
    let mut t = healthy_telemetry();
    t.state.lane_age_ms = 501;
    obs.telemetry = Some(t);
    let results = check(&obs, &calibrated_config());
    let r = find(&results, "lane detection live");
    assert_eq!(r.verdict, Verdict::NoGo);
}

#[test]
fn lane_check_is_not_seen_without_telemetry() {
    let mut obs = healthy_observations();
    obs.telemetry = None;
    let results = check(&obs, &calibrated_config());
    let r = find(&results, "lane detection live");
    assert_eq!(r.verdict, Verdict::NotSeen);
}

#[test]
fn diverged_estimator_is_no_go() {
    let mut obs = healthy_observations();
    let mut t = healthy_telemetry();
    t.health.set(HealthBits(HealthBits::ESTIMATOR_DIVERGED));
    obs.telemetry = Some(t);
    let results = check(&obs, &calibrated_config());
    let r = find(&results, "estimator converged");
    assert_eq!(r.verdict, Verdict::NoGo);
}

#[test]
fn estimator_check_is_not_seen_without_telemetry() {
    let mut obs = healthy_observations();
    obs.telemetry = None;
    let results = check(&obs, &calibrated_config());
    let r = find(&results, "estimator converged");
    assert_eq!(r.verdict, Verdict::NotSeen);
}

#[test]
fn not_seen_is_not_a_go() {
    assert!(!Verdict::NotSeen.is_go());
    assert!(!Verdict::NoGo.is_go());
    assert!(Verdict::Go.is_go());
}

#[test]
fn the_rover_may_go_only_if_every_check_says_so() {
    let obs = healthy_observations();
    let results = check(&obs, &calibrated_config());
    assert!(all_go(&results));
    assert_eq!(results.len(), 9);
    let mut worse = obs;
    worse.telemetry = None;
    assert!(!all_go(&check(&worse, &calibrated_config())));
    assert_eq!(Verdict::Go.label(), "GO");
    assert_eq!(Verdict::NoGo.label(), "NO-GO");
    assert_eq!(Verdict::NotSeen.label(), "NOT SEEN");
}

#[test]
fn boards_are_kept_apart() {
    let mut obs = Observations::default();
    let mut sick = healthy_diag(BoardId::Chassis);
    sick.post_pass = PostBits(0);
    obs.on_diagnostics(sick);
    obs.on_diagnostics(healthy_diag(BoardId::Sensors));
    assert_eq!(obs.chassis_diag.unwrap().post_pass, PostBits(0));
    assert_eq!(obs.sensors_diag.unwrap().post_pass, PostBits(0b1111));
    let results = check(&obs, &calibrated_config());
    assert_eq!(find(&results, "board POST").verdict, Verdict::NoGo);
}
