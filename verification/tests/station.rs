//! The base station.

use rover::msgs::flags::HealthBits;
use rover::msgs::gnss::GnssFix;
use rover::msgs::kinds::{FixQuality, MissionState};
use rover::msgs::mission::{Command, MissionGoal, MissionStatus};
use rover::msgs::telemetry::Telemetry;
use rover::reals::{Real32, Real64};
use rover::station::command_parse;
use rover::station::command_parse::ParseCommandError;
use rover::station::console::{Console, Typed};
use rover::station::csv_log;
use rover::station::csv_log::TelemetryTexts;
use rover::station::display::{
    format_command_line, format_health_line, format_link_line, format_mission_line,
    format_position_line, format_power_line, format_speed_line, render_dashboard, DashboardTexts,
    MissionTexts, PositionTexts, PowerTexts, ESTOP_DISCLAIMER,
};
use rover::station::link::{classify, LinkStatus, LINK_LOSS_TIMEOUT_MS};

fn r32(v: f32) -> Real32 {
    Real32(v.to_bits())
}

fn r64(v: f64) -> Real64 {
    Real64(v.to_bits())
}

fn f32_of(v: Real32) -> f32 {
    f32::from_bits(v.0)
}

fn f64_of(v: Real64) -> f64 {
    f64::from_bits(v.0)
}

fn coordinates(line: &str) -> (Option<Real64>, Option<Real64>) {
    let args = command_parse::arguments(line);
    let read = |i: usize| {
        args.get(i)
            .and_then(|t| t.parse::<f64>().ok())
            .map(r64)
    };
    (read(0), read(1))
}

fn parse_command(line: &str) -> Result<Command, ParseCommandError> {
    command_parse::parse_command(line, coordinates(line))
}

fn goal(lat: f64, lon: f64) -> Command {
    Command::SetMissionGoal(MissionGoal {
        lat_deg: r64(lat),
        lon_deg: r64(lon),
    })
}

// ---- commands ------------------------------------------------------------------

#[test]
fn estop_and_its_alias() {
    assert_eq!(parse_command("estop"), Ok(Command::EStop));
    assert_eq!(parse_command("e"), Ok(Command::EStop));
    assert_eq!(parse_command("ESTOP"), Ok(Command::EStop));
}

#[test]
fn cancel_and_its_alias() {
    assert_eq!(parse_command("cancel"), Ok(Command::CancelMission));
    assert_eq!(parse_command("c"), Ok(Command::CancelMission));
}

#[test]
fn clearestop_and_its_alias() {
    assert_eq!(parse_command("clearestop"), Ok(Command::ClearEStop));
    assert_eq!(parse_command("ce"), Ok(Command::ClearEStop));
    assert_eq!(parse_command("CLEARESTOP"), Ok(Command::ClearEStop));
}

#[test]
fn nop() {
    assert_eq!(parse_command("nop"), Ok(Command::Nop));
}

#[test]
fn goal_with_two_numbers() {
    assert_eq!(
        parse_command("goal 13.736717 100.523186"),
        Ok(goal(13.736717, 100.523186))
    );
    assert_eq!(parse_command("g 1.0 2.0"), Ok(goal(1.0, 2.0)));
}

#[test]
fn goal_with_wrong_arg_count_is_rejected() {
    assert_eq!(
        parse_command("goal 1.0"),
        Err(ParseCommandError::BadArgCount {
            expected: 2,
            got: 1
        })
    );
    assert_eq!(
        parse_command("goal 1.0 2.0 3.0"),
        Err(ParseCommandError::BadArgCount {
            expected: 2,
            got: 3
        })
    );
}

#[test]
fn goal_with_garbage_coordinates_is_rejected() {
    assert_eq!(
        parse_command("goal abc 2.0"),
        Err(ParseCommandError::BadNumber)
    );
}

#[test]
fn speed_in_range() {
    assert_eq!(parse_command("speed 40"), Ok(Command::SetSpeedLimit(40)));
    assert_eq!(parse_command("s 0"), Ok(Command::SetSpeedLimit(0)));
    assert_eq!(parse_command("speed 100"), Ok(Command::SetSpeedLimit(100)));
}

#[test]
fn speed_out_of_range_is_rejected() {
    assert_eq!(
        parse_command("speed 101"),
        Err(ParseCommandError::SpeedOutOfRange)
    );
}

#[test]
fn unknown_word_is_rejected() {
    assert_eq!(
        parse_command("banana"),
        Err(ParseCommandError::UnknownCommand)
    );
}

#[test]
fn empty_input_is_rejected() {
    assert_eq!(parse_command(""), Err(ParseCommandError::Empty));
    assert_eq!(parse_command("   "), Err(ParseCommandError::Empty));
}

#[test]
fn extra_whitespace_is_tolerated() {
    assert_eq!(parse_command("  goal   1.0   2.0  "), Ok(goal(1.0, 2.0)));
}

#[test]
fn estop_takes_no_arguments() {
    assert_eq!(
        parse_command("estop now"),
        Err(ParseCommandError::BadArgCount {
            expected: 0,
            got: 1
        })
    );
}

#[test]
fn a_speed_that_is_no_number_or_too_large_for_one_is_a_bad_number() {
    assert_eq!(
        parse_command("speed fast"),
        Err(ParseCommandError::BadNumber)
    );
    assert_eq!(parse_command("speed -1"), Err(ParseCommandError::BadNumber));
    assert_eq!(
        parse_command("speed 4294967295"),
        Err(ParseCommandError::SpeedOutOfRange)
    );
    assert_eq!(
        parse_command("speed 4294967296"),
        Err(ParseCommandError::BadNumber)
    );
    assert_eq!(parse_command("s +7"), Ok(Command::SetSpeedLimit(7)));
}

#[test]
fn words_are_separated_by_any_white_space() {
    assert_eq!(
        parse_command("\tG\u{a0}1.5\u{3000}-2.5\n"),
        Ok(goal(1.5, -2.5))
    );
}

#[test]
fn command_errors_in_words() {
    let cases = [
        (ParseCommandError::Empty, "empty input"),
        (
            ParseCommandError::UnknownCommand,
            "unknown command (try: estop, clearestop, cancel, goal <lat> <lon>, speed <pct>, nop)",
        ),
        (
            ParseCommandError::BadArgCount {
                expected: 2,
                got: 13,
            },
            "expected 2 argument(s), got 13",
        ),
        (ParseCommandError::BadNumber, "could not parse a number"),
        (
            ParseCommandError::SpeedOutOfRange,
            "speed limit must be 0..=100",
        ),
    ];
    for (e, text) in cases {
        assert_eq!(e.message(), text);
    }
}

// ---- link ----------------------------------------------------------------------

#[test]
fn nothing_received_yet_is_lost() {
    assert_eq!(classify(None), LinkStatus::Lost { age_ms: u64::MAX });
}

#[test]
fn fresh_frame_is_live() {
    assert_eq!(classify(Some(50)), LinkStatus::Live { age_ms: 50 });
}

#[test]
fn exactly_at_the_timeout_is_still_live() {
    assert_eq!(
        classify(Some(LINK_LOSS_TIMEOUT_MS)),
        LinkStatus::Live {
            age_ms: LINK_LOSS_TIMEOUT_MS
        }
    );
}

#[test]
fn one_ms_past_the_timeout_is_lost() {
    assert_eq!(
        classify(Some(LINK_LOSS_TIMEOUT_MS + 1)),
        LinkStatus::Lost {
            age_ms: LINK_LOSS_TIMEOUT_MS + 1
        }
    );
}

// ---- dashboard -------------------------------------------------------------------

fn position_texts(f: &GnssFix) -> PositionTexts {
    PositionTexts {
        lat: format!("{:.7}", f64_of(f.lat_deg)),
        lon: format!("{:.7}", f64_of(f.lon_deg)),
        alt: format!("{:.1}", f32_of(f.alt_m)),
        h_acc: format!("{:.2}", f32_of(f.h_acc_m)),
    }
}

fn mission_texts(m: &MissionStatus) -> MissionTexts {
    let (lat, lon) = m
        .target
        .map_or((0.0, 0.0), |g| (f64_of(g.lat_deg), f64_of(g.lon_deg)));
    MissionTexts {
        distance: format!("{:.1}", f32_of(m.distance_remaining_m)),
        lat: format!("{lat:.6}"),
        lon: format!("{lon:.6}"),
    }
}

fn mission_line(m: &MissionStatus) -> String {
    format_mission_line(m, &mission_texts(m))
}

#[test]
fn link_up_shows_age() {
    assert_eq!(
        format_link_line(LinkStatus::Live { age_ms: 42 }),
        "Link:     UP   (last telemetry 42 ms ago)"
    );
}

#[test]
fn link_never_seen_says_so_distinctly_from_a_timed_out_link() {
    let never = format_link_line(LinkStatus::Lost { age_ms: u64::MAX });
    let timed_out = format_link_line(LinkStatus::Lost { age_ms: 5000 });
    assert!(never.contains("no telemetry received yet"));
    assert!(timed_out.contains("5000 ms"));
    assert_ne!(never, timed_out);
}

#[test]
fn health_ok_when_no_bits_set() {
    assert_eq!(
        format_health_line(HealthBits(HealthBits::NONE)),
        "Health:   OK"
    );
}

#[test]
fn health_lists_every_set_flag() {
    let mut h = HealthBits(HealthBits::NONE);
    h.set(HealthBits(HealthBits::RTK_STALE));
    h.set(HealthBits(HealthBits::WATCHDOG_TRIPPED));
    let line = format_health_line(h);
    assert!(line.contains("RTK_STALE"));
    assert!(line.contains("WATCHDOG_TRIPPED"));
    assert!(!line.contains("LANE_STALE"));
}

#[test]
fn health_names_flags_in_order_and_knows_every_one() {
    let mut h = HealthBits(HealthBits::LINK_DEGRADED);
    h.set(HealthBits(HealthBits::BOARD_RESET));
    h.set(HealthBits(HealthBits::BOARD_POST_FAIL));
    h.set(HealthBits(HealthBits::CHASSIS_STALE));
    assert_eq!(
        format_health_line(h),
        "Health:   CHASSIS_STALE, BOARD_POST_FAIL, BOARD_RESET, LINK_DEGRADED"
    );
}

#[test]
fn mission_line_reports_no_target_explicitly() {
    let m = MissionStatus {
        active: false,
        distance_remaining_m: r32(0.0),
        target: None,
        state: MissionState::Idle,
    };
    assert!(mission_line(&m).contains("target=(none)"));
}

#[test]
fn mission_line_reports_a_target_when_present() {
    let m = MissionStatus {
        active: true,
        distance_remaining_m: r32(5.0),
        target: Some(MissionGoal {
            lat_deg: r64(13.7),
            lon_deg: r64(100.5),
        }),
        state: MissionState::Running,
    };
    let line = mission_line(&m);
    assert!(line.contains("13.700000"));
    assert!(line.contains("100.500000"));
    assert!(line.contains("Running"));
    assert_eq!(
        line,
        "Mission:  Running  active=true  distance_remaining=5.0 m  target=(13.700000, 100.500000)"
    );
}

#[test]
fn command_line_distinguishes_pending_from_acked() {
    assert!(format_command_line(Some(7), 6).contains("cmd_seq=7 pending"));
    assert!(format_command_line(None, 6).contains("none pending"));
    assert!(format_command_line(None, 6).contains("echoed 6"));
}

#[test]
fn estop_disclaimer_never_claims_a_guarantee_for_the_network_command() {
    assert!(ESTOP_DISCLAIMER.to_lowercase().contains("best-effort"));
    assert!(ESTOP_DISCLAIMER.to_lowercase().contains("watchdog"));
}

#[test]
fn position_speed_and_power_lines() {
    let f = GnssFix {
        lat_deg: r64(13.7),
        lon_deg: r64(100.5),
        alt_m: r32(12.0),
        fix: FixQuality::RtkFixed,
        sats: 14,
        h_acc_m: r32(0.02),
        ..Default::default()
    };
    assert_eq!(
        format_position_line(&f, &position_texts(&f)),
        "Position: 13.7000000, 100.5000000  alt=12.0 m  fix=RtkFixed  sats=14  h_acc=0.02 m"
    );
    assert_eq!(format_speed_line("0.25"), "Speed:    0.25 m/s");
    let p = PowerTexts {
        volts: "12.00".to_string(),
        amps: "2.00".to_string(),
        watts: "24.0".to_string(),
    };
    assert_eq!(format_power_line(&p), "Power:    12.00 V  2.00 A  24.0 W");
}

#[test]
fn render_dashboard_includes_the_estop_disclaimer_every_time() {
    let rtk = GnssFix {
        fix: FixQuality::RtkFixed,
        ..Default::default()
    };
    let backup = GnssFix::default();
    let mission = MissionStatus::default();
    let shown = DashboardTexts {
        rtk: position_texts(&rtk),
        backup: position_texts(&backup),
        speed: "0.00".to_string(),
        mission: mission_texts(&mission),
        power: PowerTexts {
            volts: "0.00".to_string(),
            amps: "0.00".to_string(),
            watts: "0.0".to_string(),
        },
    };
    let out = render_dashboard(
        LinkStatus::Live { age_ms: 10 },
        &rtk,
        &backup,
        &mission,
        HealthBits(HealthBits::NONE),
        None,
        0,
        &shown,
    );
    assert!(out.contains(ESTOP_DISCLAIMER));
    assert!(out.starts_with("\x1B[2J\x1B[H"));
    assert_eq!(out.lines().count(), 13);
}

// ---- log -------------------------------------------------------------------------

fn telemetry_texts(t: &Telemetry) -> TelemetryTexts {
    TelemetryTexts {
        rtk_lat: format!("{:.7}", f64_of(t.rtk.lat_deg)),
        rtk_lon: format!("{:.7}", f64_of(t.rtk.lon_deg)),
        backup_lat: format!("{:.7}", f64_of(t.backup.lat_deg)),
        backup_lon: format!("{:.7}", f64_of(t.backup.lon_deg)),
        speed: format!("{}", f32_of(t.state.speed_mps)),
        distance: format!("{}", f32_of(t.mission.distance_remaining_m)),
        volts: format!("{}", f32_of(t.power.bus_volts)),
        amps: format!("{}", f32_of(t.power.current_amps)),
    }
}

fn format_row(timestamp_us: u64, t: &Telemetry) -> String {
    csv_log::format_row(timestamp_us, t, &telemetry_texts(t))
}

#[test]
fn header_ends_with_newline_and_matches_row_column_count() {
    let mut t = Telemetry::default();
    t.seq = 1;
    t.state.speed_mps = r32(0.5);
    t.mission.state = MissionState::Running;
    t.mission.active = true;
    t.mission.distance_remaining_m = r32(3.0);
    t.power.bus_volts = r32(12.0);
    t.power.current_amps = r32(1.0);
    t.rtk.fix = FixQuality::RtkFixed;
    t.rtk.sats = 12;
    t.last_cmd_seq = 5;
    let row = format_row(1_000, &t);
    assert!(csv_log::HEADER.ends_with('\n'));
    assert_eq!(
        csv_log::HEADER.trim_end().split(',').count(),
        row.trim_end().split(',').count()
    );
    assert_eq!(
        row,
        "1000,1,0.0000000,0.0000000,RtkFixed,12,0.0000000,0.0000000,None,0.5,Running,true,3,12,1,5,0\n"
    );
}

#[test]
fn row_reports_both_gnss_streams_and_the_ack() {
    let mut t = Telemetry::default();
    t.rtk.lat_deg = r64(13.7);
    t.rtk.lon_deg = r64(100.5);
    t.rtk.fix = FixQuality::RtkFixed;
    t.rtk.sats = 14;
    t.backup.lat_deg = r64(13.71);
    t.backup.lon_deg = r64(100.51);
    t.backup.fix = FixQuality::Autonomous;
    t.backup.sats = 6;
    t.last_cmd_seq = 42;
    t.mission.state = MissionState::Arrived;
    let row = format_row(2_000, &t);
    assert!(row.starts_with("2000,0,13.7000000,100.5000000,RtkFixed,14,"));
    assert!(row.contains("13.7100000,100.5100000,Autonomous"));
    assert!(row.contains(",42,"));
    assert!(row.contains("Arrived"));
}

// ---- console ---------------------------------------------------------------------

#[test]
fn a_command_goes_out_until_it_is_echoed() {
    let mut c = Console::new();
    assert_eq!(c.round(0).frame, None);
    assert_eq!(
        c.on_line("speed 40", (None, None)),
        Typed::Queued { cmd_seq: 1 }
    );
    let first = c.round(10).frame.unwrap();
    assert_eq!(first.cmd_seq, 1);
    assert_eq!(first.body, Command::SetSpeedLimit(40));
    assert_eq!(c.round(20_000).frame, None);
    assert_eq!(c.round(1_000_010).frame, Some(first));
    c.on_telemetry(1, 1_000_020);
    assert_eq!(c.round(1_000_030).frame, None);
    assert_eq!(c.round(9_000_000).frame, None);
}

#[test]
fn an_estop_is_announced_and_nonsense_changes_nothing() {
    let mut c = Console::new();
    assert_eq!(
        c.on_line("banana", (None, None)),
        Typed::Refused(ParseCommandError::UnknownCommand)
    );
    assert_eq!(
        c.on_line("E", (None, None)),
        Typed::EStopQueued { cmd_seq: 1 }
    );
}

#[test]
fn redraws_come_at_their_own_pace_and_show_the_link() {
    let mut c = Console::new();
    let (link, pending) = c.round(0).redraw.unwrap();
    assert_eq!(link, LinkStatus::Lost { age_ms: u64::MAX });
    assert_eq!(pending, None);
    assert_eq!(c.round(199_999).redraw, None);
    c.on_telemetry(0, 150_000);
    c.on_line("nop", (None, None));
    assert_eq!(
        c.round(200_000).redraw,
        Some((LinkStatus::Live { age_ms: 50 }, Some(1)))
    );
}
