//! Health, logs, runs and the feed to the base station.

use rover::calendar::civil_to_unix_ms;
use rover::control::speed::StallConfig;
use rover::msgs::boards::{ChassisStatus, PowerSample};
use rover::msgs::debug::{BoardDiagnostics, SpeedLoopDebug};
use rover::msgs::flags::{FaultBits, HealthBits, PostBits};
use rover::msgs::gnss::GnssFix;
use rover::msgs::kinds::{BoardId, FixQuality, GnssSource, MissionState, ResetCause};
use rover::msgs::mission::{Command, CommandFrame, MissionGoal, MissionStatus};
use rover::msgs::motion::RoverState;
use rover::reals::{Real32, Real64};
use rover::telemetry::csv_fmt;
use rover::telemetry::csv_fmt::{FixTexts, MissionTexts, PowerTexts, SpeedLoopTexts, StateTexts};
use rover::telemetry::csv_writer::{CsvLogger, RowStep};
use rover::telemetry::feed::{Feed, TelemetryConfig};
use rover::telemetry::gnss_source::classify;
use rover::telemetry::health::{
    compute_health, FeedAges, CHASSIS_STALE_MS, ESTIMATOR_DIVERGED_VAR_M2, RTK_STALE_MS,
    SENSORS_STALE_MS,
};
use rover::telemetry::runs::{
    format_run_timestamp, next_run_number, resolve_run_dir_path, run_dir_name, RunDir,
};
use rover::telemetry::stall::StallDetector;
use std::path::PathBuf;

fn r32(v: f32) -> Real32 {
    Real32(v.to_bits())
}

fn r64(v: f64) -> Real64 {
    Real64(v.to_bits())
}

fn f32_of(v: Real32) -> f32 {
    f32::from_bits(v.0)
}

fn f64_of(v: Real64) -> f64 {
    f64::from_bits(v.0)
}

fn has(h: HealthBits, bit: u16) -> bool {
    h.contains(HealthBits(bit))
}

// ---- health ----------------------------------------------------------------------

fn fresh_ages() -> FeedAges {
    FeedAges {
        chassis_ms: Some(10),
        sensors_ms: Some(10),
        rtk_ms: Some(10),
        backup_gnss_ms: Some(10),
    }
}

fn state_with_var(var: f32) -> RoverState {
    RoverState {
        p_diag: [r32(var), r32(0.01), r32(0.01), r32(0.01), r32(0.01)],
        ..Default::default()
    }
}

fn healthy_state() -> RoverState {
    state_with_var(0.01)
}

#[test]
fn all_fresh_is_no_bits_set() {
    let h = compute_health(&fresh_ages(), 0, 500, None, false, &healthy_state());
    assert_eq!(h, HealthBits(HealthBits::NONE));
}

#[test]
fn never_seen_chassis_is_stale() {
    let mut ages = fresh_ages();
    ages.chassis_ms = None;
    let h = compute_health(&ages, 0, 500, None, false, &healthy_state());
    assert!(has(h, HealthBits::CHASSIS_STALE));
}

#[test]
fn old_chassis_age_is_stale() {
    let mut ages = fresh_ages();
    ages.chassis_ms = Some(CHASSIS_STALE_MS + 1);
    let h = compute_health(&ages, 0, 500, None, false, &healthy_state());
    assert!(has(h, HealthBits::CHASSIS_STALE));
}

#[test]
fn age_exactly_at_threshold_is_not_yet_stale() {
    let mut ages = fresh_ages();
    ages.sensors_ms = Some(SENSORS_STALE_MS);
    let h = compute_health(&ages, 0, 500, None, false, &healthy_state());
    assert!(!has(h, HealthBits::SENSORS_STALE));
}

#[test]
fn lane_stale_uses_the_estimator_config_threshold_not_a_constant() {
    let h = compute_health(&fresh_ages(), 501, 500, None, false, &healthy_state());
    assert!(has(h, HealthBits::LANE_STALE));
    let h = compute_health(&fresh_ages(), 500, 500, None, false, &healthy_state());
    assert!(!has(h, HealthBits::LANE_STALE));
}

#[test]
fn rtk_and_backup_stale_independently() {
    let mut ages = fresh_ages();
    ages.rtk_ms = Some(RTK_STALE_MS + 1);
    let h = compute_health(&ages, 0, 500, None, false, &healthy_state());
    assert!(has(h, HealthBits::RTK_STALE));
    assert!(!has(h, HealthBits::BACKUP_GNSS_STALE));
}

#[test]
fn watchdog_tripped_flows_through_from_chassis_status() {
    let status = ChassisStatus {
        watchdog_tripped: true,
        ..Default::default()
    };
    let h = compute_health(
        &fresh_ages(),
        0,
        500,
        Some(&status),
        false,
        &healthy_state(),
    );
    assert!(has(h, HealthBits::WATCHDOG_TRIPPED));
}

#[test]
fn no_chassis_status_yet_means_no_watchdog_bit() {
    let h = compute_health(&fresh_ages(), 0, 500, None, false, &healthy_state());
    assert!(!has(h, HealthBits::WATCHDOG_TRIPPED));
}

#[test]
fn chassis_fault_bits_do_not_by_themselves_set_watchdog_tripped() {
    let status = ChassisStatus {
        watchdog_tripped: false,
        fault: FaultBits(FaultBits::MOTOR_FAULT),
        ..Default::default()
    };
    let h = compute_health(
        &fresh_ages(),
        0,
        500,
        Some(&status),
        false,
        &healthy_state(),
    );
    assert!(!has(h, HealthBits::WATCHDOG_TRIPPED));
}

#[test]
fn stall_detected_flows_through() {
    let h = compute_health(&fresh_ages(), 0, 500, None, true, &healthy_state());
    assert!(has(h, HealthBits::STALL_DETECTED));
}

#[test]
fn diverged_covariance_sets_estimator_diverged() {
    let diverged = state_with_var(f32::from_bits(ESTIMATOR_DIVERGED_VAR_M2) + 0.01);
    let h = compute_health(&fresh_ages(), 0, 500, None, false, &diverged);
    assert!(has(h, HealthBits::ESTIMATOR_DIVERGED));
}

#[test]
fn covariance_at_threshold_is_not_yet_diverged() {
    let at_threshold = state_with_var(f32::from_bits(ESTIMATOR_DIVERGED_VAR_M2));
    let h = compute_health(&fresh_ages(), 0, 500, None, false, &at_threshold);
    assert!(!has(h, HealthBits::ESTIMATOR_DIVERGED));
}

#[test]
fn multiple_bits_combine() {
    let mut ages = fresh_ages();
    ages.chassis_ms = None;
    ages.rtk_ms = None;
    let h = compute_health(&ages, 999, 500, None, true, &healthy_state());
    assert!(has(h, HealthBits::CHASSIS_STALE));
    assert!(has(h, HealthBits::RTK_STALE));
    assert!(has(h, HealthBits::LANE_STALE));
    assert!(has(h, HealthBits::STALL_DETECTED));
    assert!(!has(h, HealthBits::SENSORS_STALE));
    assert_eq!(h.0, 0x0001 | 0x0008 | 0x0004 | 0x0040);
}

// ---- stalls ----------------------------------------------------------------------

const SECOND: u64 = 1_000_000;

fn stall_config() -> StallConfig {
    StallConfig {
        enabled: true,
        min_duty_pct: r32(30.0),
        min_ticks_per_sec: r32(10.0),
        timeout_us: 2 * SECOND,
    }
}

fn stalled_reading(pid_output_pct: f32) -> SpeedLoopDebug {
    SpeedLoopDebug {
        measured_left_tps: r32(1.0),
        measured_right_tps: r32(1.0),
        target_tps: r32(500.0),
        error_pct: r32(90.0),
        pid_output_pct: r32(pid_output_pct),
    }
}

fn moving_reading() -> SpeedLoopDebug {
    SpeedLoopDebug {
        measured_left_tps: r32(200.0),
        measured_right_tps: r32(200.0),
        target_tps: r32(200.0),
        error_pct: r32(0.0),
        pid_output_pct: r32(35.0),
    }
}

fn mean_tps(d: &SpeedLoopDebug) -> Real32 {
    r32((f32_of(d.measured_left_tps) + f32_of(d.measured_right_tps)) / 2.0)
}

fn observe(d: &mut StallDetector, reading: SpeedLoopDebug, now_us: u64) -> bool {
    d.observe(&reading, mean_tps(&reading), now_us)
}

#[test]
fn does_not_trip_before_the_timeout() {
    let mut d = StallDetector::new(stall_config());
    assert!(!observe(&mut d, stalled_reading(35.0), 0));
    assert!(!observe(&mut d, stalled_reading(35.0), SECOND));
}

#[test]
fn trips_once_the_condition_has_held_for_the_timeout() {
    let mut d = StallDetector::new(stall_config());
    assert!(!observe(&mut d, stalled_reading(35.0), 0));
    assert!(observe(&mut d, stalled_reading(35.0), 2 * SECOND));
}

#[test]
fn moving_normally_never_trips() {
    let mut d = StallDetector::new(stall_config());
    for t in 0..10 {
        assert!(!observe(&mut d, moving_reading(), t * SECOND));
    }
}

#[test]
fn recovering_before_the_timeout_resets_the_clock() {
    let mut d = StallDetector::new(stall_config());
    assert!(!observe(&mut d, stalled_reading(35.0), 0));
    assert!(!observe(&mut d, moving_reading(), SECOND));
    assert!(!observe(&mut d, stalled_reading(35.0), 2 * SECOND));
}

#[test]
fn low_duty_cycle_never_trips_even_if_barely_moving() {
    let mut d = StallDetector::new(stall_config());
    assert!(!observe(&mut d, stalled_reading(5.0), 0));
    assert!(!observe(&mut d, stalled_reading(5.0), 10 * SECOND));
}

#[test]
fn disabled_detector_never_trips() {
    let mut cfg = stall_config();
    cfg.enabled = false;
    let mut d = StallDetector::new(cfg);
    assert!(!observe(&mut d, stalled_reading(35.0), 0));
    assert!(!observe(&mut d, stalled_reading(35.0), 100 * SECOND));
}

#[test]
fn negative_duty_reverse_stall_also_trips() {
    let mut d = StallDetector::new(stall_config());
    assert!(!observe(&mut d, stalled_reading(-35.0), 0));
    assert!(observe(&mut d, stalled_reading(-35.0), 2 * SECOND));
}

// ---- rows ------------------------------------------------------------------------

fn assert_same_column_count(header: &str, row: &str) {
    assert_eq!(
        header.trim_end().split(',').count(),
        row.trim_end().split(',').count(),
        "header {header:?} and row {row:?} column counts differ"
    );
}

fn shown(value: Real32) -> String {
    format!("{}", f32_of(value))
}

fn mission_row(timestamp_us: u64, m: &MissionStatus) -> String {
    let (lat, lon) = m
        .target
        .map_or((0.0, 0.0), |g| (f64_of(g.lat_deg), f64_of(g.lon_deg)));
    let texts = MissionTexts {
        distance: format!("{}", f32_of(m.distance_remaining_m)),
        lat: format!("{lat}"),
        lon: format!("{lon}"),
    };
    csv_fmt::format_mission_status_row(timestamp_us, m, &texts)
}

#[test]
fn rover_state_row_matches_expected_text() {
    let s = RoverState {
        cross_track_m: r32(0.1),
        heading_err_rad: r32(0.02),
        curvature_inv_m: r32(0.5),
        speed_mps: r32(1.5),
        gyro_bias_radps: r32(0.001),
        p_diag: [r32(1.0), r32(2.0), r32(3.0), r32(4.0), r32(5.0)],
        lane_age_ms: 42,
    };
    let texts = StateTexts {
        cross_track: shown(s.cross_track_m),
        heading_err: shown(s.heading_err_rad),
        curvature: shown(s.curvature_inv_m),
        speed: shown(s.speed_mps),
        gyro_bias: shown(s.gyro_bias_radps),
        p_cross_track: shown(s.p_diag[0]),
        p_heading: shown(s.p_diag[1]),
        p_curvature: shown(s.p_diag[2]),
        p_speed: shown(s.p_diag[3]),
        p_gyro_bias: shown(s.p_diag[4]),
    };
    let row = csv_fmt::format_rover_state_row(1_000, &s, &texts);
    assert_eq!(row, "1000,0.1,0.02,0.5,1.5,0.001,1,2,3,4,5,42\n");
    assert_same_column_count(csv_fmt::ROVER_STATE_HEADER, &row);
}

#[test]
fn mission_status_row_with_no_target_uses_zero_placeholders() {
    let m = MissionStatus {
        active: false,
        distance_remaining_m: r32(0.0),
        target: None,
        state: MissionState::Idle,
    };
    let row = mission_row(2_000, &m);
    assert_eq!(row, "2000,false,0,0,0,Idle\n");
    assert_same_column_count(csv_fmt::MISSION_STATUS_HEADER, &row);
}

#[test]
fn mission_status_row_with_target_reports_its_coordinates() {
    let m = MissionStatus {
        active: true,
        distance_remaining_m: r32(12.5),
        target: Some(MissionGoal {
            lat_deg: r64(13.7),
            lon_deg: r64(100.5),
        }),
        state: MissionState::Running,
    };
    let row = mission_row(3_000, &m);
    assert_eq!(row, "3000,true,12.5,13.7,100.5,Running\n");
    assert_same_column_count(csv_fmt::MISSION_STATUS_HEADER, &row);
}

#[test]
fn power_row_includes_the_derived_watts() {
    let p = PowerSample {
        bus_volts: r32(12.0),
        current_amps: r32(2.0),
    };
    let watts = r32(f32_of(p.bus_volts) * f32_of(p.current_amps));
    let texts = PowerTexts {
        volts: shown(p.bus_volts),
        amps: shown(p.current_amps),
        watts: shown(watts),
    };
    let row = csv_fmt::format_power_row(4_000, &texts);
    assert_eq!(row, "4000,12,2,24\n");
    assert_same_column_count(csv_fmt::POWER_HEADER, &row);
}

#[test]
fn gnss_row_shows_the_enum_name_as_fix_quality() {
    let f = GnssFix {
        lat_deg: r64(13.736717),
        lon_deg: r64(100.523186),
        alt_m: r32(12.0),
        fix: FixQuality::RtkFixed,
        sats: 14,
        h_acc_m: r32(0.02),
        speed_mps: r32(0.5),
        course_deg: r32(90.0),
        utc_ms: 1_705_321_845_000,
        source: GnssSource::Rtk,
    };
    let texts = FixTexts {
        lat: format!("{:.8}", f64_of(f.lat_deg)),
        lon: format!("{:.8}", f64_of(f.lon_deg)),
        alt: format!("{}", f32_of(f.alt_m)),
        h_acc: format!("{}", f32_of(f.h_acc_m)),
        speed: format!("{}", f32_of(f.speed_mps)),
        course: format!("{}", f32_of(f.course_deg)),
    };
    let row = csv_fmt::format_gnss_row(5_000, &f, &texts);
    assert_eq!(
        row,
        "5000,13.73671700,100.52318600,12,RtkFixed,14,0.02,0.5,90,1705321845000\n"
    );
    assert_same_column_count(csv_fmt::GNSS_HEADER, &row);
}

#[test]
fn chassis_status_row_reports_the_raw_fault_byte() {
    let c = ChassisStatus {
        seq_echo: 7,
        watchdog_tripped: true,
        fault: FaultBits(FaultBits::MOTOR_FAULT),
        t_us: 123,
    };
    let row = csv_fmt::format_chassis_status_row(6_000, &c);
    assert_eq!(row, "6000,7,true,2,123\n");
    assert_same_column_count(csv_fmt::CHASSIS_STATUS_HEADER, &row);
}

#[test]
fn speed_loop_debug_row_matches_expected_text() {
    let d = SpeedLoopDebug {
        measured_left_tps: r32(100.0),
        measured_right_tps: r32(98.0),
        target_tps: r32(100.0),
        error_pct: r32(1.5),
        pid_output_pct: r32(32.0),
    };
    let texts = SpeedLoopTexts {
        measured_left: shown(d.measured_left_tps),
        measured_right: shown(d.measured_right_tps),
        target: shown(d.target_tps),
        error: shown(d.error_pct),
        output: shown(d.pid_output_pct),
    };
    let row = csv_fmt::format_speed_loop_debug_row(7_000, &texts);
    assert_eq!(row, "7000,100,98,100,1.5,32\n");
    assert_same_column_count(csv_fmt::SPEED_LOOP_DEBUG_HEADER, &row);
}

#[test]
fn every_header_ends_with_a_newline() {
    for header in [
        csv_fmt::ROVER_STATE_HEADER,
        csv_fmt::MISSION_STATUS_HEADER,
        csv_fmt::POWER_HEADER,
        csv_fmt::GNSS_HEADER,
        csv_fmt::CHASSIS_STATUS_HEADER,
        csv_fmt::SPEED_LOOP_DEBUG_HEADER,
    ] {
        assert!(header.ends_with('\n'), "{header:?} must end with a newline");
    }
}

#[test]
fn a_log_file_is_created_with_its_first_row_and_failures_are_told_once() {
    let mut l = CsvLogger::new();
    assert_eq!(l.log(), RowStep::Create);
    let c = l.on_create(false);
    assert!(!c.write_row && c.report_failure);
    assert_eq!(l.log(), RowStep::Create);
    let c = l.on_create(false);
    assert!(!c.write_row && !c.report_failure);
    let c = l.on_create(true);
    assert!(c.write_row && !c.report_failure);
    assert_eq!(l.log(), RowStep::Append);
}

// ---- which receiver -----------------------------------------------------------------

fn fix_with_quality(q: FixQuality) -> GnssFix {
    GnssFix {
        fix: q,
        ..Default::default()
    }
}

#[test]
fn dgps_and_better_classify_as_rtk() {
    assert_eq!(
        classify(&fix_with_quality(FixQuality::Dgps)),
        GnssSource::Rtk
    );
    assert_eq!(
        classify(&fix_with_quality(FixQuality::RtkFloat)),
        GnssSource::Rtk
    );
    assert_eq!(
        classify(&fix_with_quality(FixQuality::RtkFixed)),
        GnssSource::Rtk
    );
}

#[test]
fn none_and_autonomous_classify_as_backup() {
    assert_eq!(
        classify(&fix_with_quality(FixQuality::NoFix)),
        GnssSource::Backup
    );
    assert_eq!(
        classify(&fix_with_quality(FixQuality::Autonomous)),
        GnssSource::Backup
    );
}

// ---- runs ------------------------------------------------------------------------

#[test]
fn empty_directory_starts_at_run_one() {
    assert_eq!(next_run_number(&vec![]), 1);
}

#[test]
fn picks_up_after_the_highest_existing_run() {
    let names = vec![
        "run_001_20260101_000000".to_string(),
        "run_003_20260102_000000".to_string(),
        "run_002_20260103_000000".to_string(),
    ];
    assert_eq!(next_run_number(&names), 4);
}

#[test]
fn non_run_directories_are_ignored() {
    let names = vec!["notarun".to_string(), "logs".to_string()];
    assert_eq!(next_run_number(&names), 1);
}

#[test]
fn malformed_run_prefixed_names_are_ignored_not_fatal() {
    let names = vec!["run_abc_garbage".to_string(), "run_002_ok".to_string()];
    assert_eq!(next_run_number(&names), 3);
}

#[test]
fn format_run_timestamp_matches_a_known_instant() {
    assert_eq!(format_run_timestamp(1_705_321_845), "20240115_123045");
}

#[test]
fn format_run_timestamp_handles_the_epoch() {
    assert_eq!(format_run_timestamp(0), "19700101_000000");
}

#[test]
fn run_stamps_know_leap_days_and_new_years() {
    assert_eq!(format_run_timestamp(951_782_400), "20000229_000000");
    assert_eq!(format_run_timestamp(1_709_251_199), "20240229_235959");
    assert_eq!(format_run_timestamp(4_107_542_400), "21000301_000000");
    assert_eq!(format_run_timestamp(1_735_689_599), "20241231_235959");
}

#[test]
fn a_sign_is_no_digit_of_a_run_number() {
    let names = vec!["run_+12_signed".to_string(), "run_-12_signed".to_string()];
    assert_eq!(next_run_number(&names), 1);
    assert_eq!(next_run_number(&vec!["run_012_plain".to_string()]), 13);
}

#[test]
fn stamps_sort_by_time_and_have_one_width() {
    let instants = [
        0,
        59,
        60,
        3_599,
        3_600,
        86_399,
        86_400,
        951_782_400,
        1_705_321_845,
        1_735_689_599,
        1_735_689_600,
        253_402_300_799,
    ];
    for pair in instants.windows(2) {
        let (a, b) = (format_run_timestamp(pair[0]), format_run_timestamp(pair[1]));
        assert_eq!((a.len(), b.len()), (15, 15));
        assert!(a < b, "{a} {b}");
    }
    assert_eq!(format_run_timestamp(253_402_300_799), "99991231_235959");
    assert_eq!(format_run_timestamp(253_402_300_800), "100000101_000000");
}

#[test]
fn a_stamp_gives_back_the_date_and_time_it_was_made_from() {
    for (y, m, d, h, min, s) in [
        (1970, 1, 1, 0, 0, 0u32),
        (2000, 2, 29, 23, 59, 59),
        (2024, 1, 15, 12, 30, 45),
        (2100, 3, 1, 6, 7, 8),
        (9999, 12, 31, 23, 59, 59),
    ] {
        let second = Real64(f64::from(s).to_bits());
        let ms = civil_to_unix_ms(y, m, d, h, min, second, u64::from(s) * 1000).unwrap();
        assert_eq!(
            format_run_timestamp(ms / 1000),
            format!("{y:04}{m:02}{d:02}_{h:02}{min:02}{s:02}")
        );
    }
}

#[test]
fn run_dir_name_combines_number_and_timestamp() {
    assert_eq!(run_dir_name(3, 1_705_321_845), "run_003_20240115_123045");
}

#[test]
fn env_override_takes_priority_over_scanning() {
    let path = resolve_run_dir_path(
        Some("/launcher/chosen/run_dir"),
        "/nonexistent-runs-root",
        &vec!["run_005_whatever".to_string()],
        1_705_321_845,
    );
    assert_eq!(
        PathBuf::from(path),
        PathBuf::from("/launcher/chosen/run_dir")
    );
}

#[test]
fn empty_env_override_falls_back_to_scanning() {
    let path = resolve_run_dir_path(
        Some(""),
        "/runs",
        &vec!["run_005_whatever".to_string()],
        1_705_321_845,
    );
    assert_eq!(
        PathBuf::from(path),
        PathBuf::from("/runs/run_006_20240115_123045")
    );
}

#[test]
fn no_env_override_scans_for_the_next_run_number() {
    let path = resolve_run_dir_path(None, "/runs", &vec![], 0);
    assert_eq!(
        PathBuf::from(path),
        PathBuf::from("/runs/run_001_19700101_000000")
    );
}

#[test]
fn a_run_directory_is_wanted_until_it_was_made() {
    let mut d = RunDir::resolve(None, "runs/", &vec![], 0);
    assert_eq!(d.path(), "runs/run_001_19700101_000000");
    assert_eq!(d.file("a.csv"), "runs/run_001_19700101_000000/a.csv");
    assert!(d.wants_dir());
    d.on_dir_created();
    assert!(!d.wants_dir());
}

// ---- feed ------------------------------------------------------------------------

fn feed() -> Feed {
    Feed::new(TelemetryConfig {
        stall: stall_config(),
        lane_stale_ms: 500,
    })
}

#[test]
fn reports_come_at_their_own_pace_and_are_numbered() {
    let mut f = feed();
    assert_eq!(f.tick(1_000, 77).unwrap().seq, 1);
    assert!(f.tick(200_999, 78).is_none());
    let t = f.tick(201_000, 79).unwrap();
    assert_eq!(t.seq, 2);
    assert_eq!(t.t_us, 79);
}

#[test]
fn fixes_are_kept_by_their_source_and_age_on_their_own() {
    let mut f = feed();
    let mut rtk = fix_with_quality(FixQuality::Autonomous);
    rtk.sats = 9;
    let mut backup = rtk;
    backup.source = GnssSource::Backup;
    backup.sats = 5;
    f.on_gnss(rtk, 0);
    f.on_gnss(backup, 2_000_000);
    let t = f.tick(2_100_000, 0).unwrap();
    assert_eq!(t.rtk.sats, 9);
    assert_eq!(t.backup.sats, 5);
    assert!(has(t.health, HealthBits::RTK_STALE));
    assert!(!has(t.health, HealthBits::BACKUP_GNSS_STALE));
    assert!(has(t.health, HealthBits::CHASSIS_STALE));
}

fn diagnostics(board: BoardId, uptime_s: u32) -> BoardDiagnostics {
    BoardDiagnostics {
        board,
        post_run: PostBits(0b1111),
        post_pass: PostBits(0b1111),
        reset_cause: ResetCause::PowerOn,
        phy_id: 0x0007_C130,
        link_speed_mbps: 100,
        link_full_duplex: true,
        phy_symbol_errors: 0,
        uptime_s,
        tx_drops: 0,
    }
}

fn board_flags(f: &mut Feed, now_us: u64) -> (bool, bool, bool) {
    let h = f.tick(now_us, 0).unwrap().health;
    (
        has(h, HealthBits::BOARD_POST_FAIL),
        has(h, HealthBits::BOARD_RESET),
        has(h, HealthBits::LINK_DEGRADED),
    )
}

#[test]
fn a_failed_self_test_is_reported_for_the_rest_of_the_run() {
    let mut f = feed();
    f.on_diagnostics(&diagnostics(BoardId::Chassis, 10));
    assert_eq!(board_flags(&mut f, 0), (false, false, false));
    let mut failed = diagnostics(BoardId::Sensors, 10);
    failed.post_pass = PostBits(0b0111);
    f.on_diagnostics(&failed);
    f.on_diagnostics(&diagnostics(BoardId::Sensors, 11));
    assert_eq!(board_flags(&mut f, SECOND), (true, false, false));
}

#[test]
fn a_check_that_did_not_run_is_no_failure() {
    let mut f = feed();
    let mut d = diagnostics(BoardId::Chassis, 10);
    d.post_run = PostBits(0b0011);
    d.post_pass = PostBits(0b0011);
    f.on_diagnostics(&d);
    assert_eq!(board_flags(&mut f, 0), (false, false, false));
}

#[test]
fn a_reset_is_told_by_its_cause_or_by_an_uptime_that_falls() {
    let mut f = feed();
    let mut hung = diagnostics(BoardId::Chassis, 1);
    hung.reset_cause = ResetCause::IndependentWatchdog;
    f.on_diagnostics(&hung);
    f.on_diagnostics(&diagnostics(BoardId::Chassis, 2));
    assert_eq!(board_flags(&mut f, 0), (false, true, false));

    let mut f = feed();
    f.on_diagnostics(&diagnostics(BoardId::Chassis, 100));
    f.on_diagnostics(&diagnostics(BoardId::Sensors, 7));
    f.on_diagnostics(&diagnostics(BoardId::Chassis, 101));
    assert_eq!(board_flags(&mut f, 0), (false, false, false));
    f.on_diagnostics(&diagnostics(BoardId::Chassis, 3));
    f.on_diagnostics(&diagnostics(BoardId::Chassis, 4));
    assert_eq!(board_flags(&mut f, SECOND), (false, true, false));
}

#[test]
fn a_weak_link_is_reported_while_it_lasts() {
    let mut f = feed();
    let mut slow = diagnostics(BoardId::Sensors, 10);
    slow.link_speed_mbps = 10;
    slow.link_full_duplex = false;
    f.on_diagnostics(&slow);
    f.on_diagnostics(&diagnostics(BoardId::Chassis, 10));
    assert_eq!(board_flags(&mut f, 0), (false, false, true));
    f.on_diagnostics(&diagnostics(BoardId::Sensors, 11));
    assert_eq!(board_flags(&mut f, SECOND), (false, false, false));
    let mut noisy = diagnostics(BoardId::Chassis, 12);
    noisy.phy_symbol_errors = 1;
    f.on_diagnostics(&noisy);
    assert_eq!(board_flags(&mut f, 2 * SECOND), (false, false, true));
    let mut unknown = diagnostics(BoardId::Chassis, 13);
    unknown.link_speed_mbps = 0;
    unknown.link_full_duplex = false;
    f.on_diagnostics(&unknown);
    assert_eq!(board_flags(&mut f, 3 * SECOND), (false, false, false));
}

#[test]
fn a_clock_that_goes_back_is_no_stall() {
    let mut d = StallDetector::new(StallConfig {
        timeout_us: 0,
        ..stall_config()
    });
    let reading = stalled_reading(40.0);
    assert!(d.observe(&reading, mean_tps(&reading), 1_000));
    assert!(!d.observe(&reading, mean_tps(&reading), 999));
}

#[test]
fn reports_echo_the_last_command_and_the_stall() {
    let mut f = feed();
    f.on_command(CommandFrame {
        cmd_seq: 4,
        body: Command::Nop,
    });
    f.on_command(CommandFrame {
        cmd_seq: 3,
        body: Command::EStop,
    });
    let d = stalled_reading(40.0);
    f.on_speed_debug(&d, mean_tps(&d), 0);
    f.on_speed_debug(&d, mean_tps(&d), 2 * SECOND);
    f.on_chassis(ChassisStatus::default(), 2 * SECOND);
    f.on_power(PowerSample::default(), 2 * SECOND);
    let mut s = healthy_state();
    s.lane_age_ms = 501;
    f.on_rover_state(s);
    let m = MissionStatus {
        active: true,
        ..Default::default()
    };
    f.on_mission(m);
    let t = f.tick(2 * SECOND, 0).unwrap();
    assert_eq!(t.last_cmd_seq, 4);
    assert!(t.mission.active);
    assert!(has(t.health, HealthBits::STALL_DETECTED));
    assert!(has(t.health, HealthBits::LANE_STALE));
    assert!(!has(t.health, HealthBits::CHASSIS_STALE));
    assert!(!has(t.health, HealthBits::SENSORS_STALE));
}
