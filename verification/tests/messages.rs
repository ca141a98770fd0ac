//! The wire format.

use rover::msgs::boards::{
    ChassisCommand, ChassisStatus, ImuSample, MagSample, PowerSample, WheelSensors,
};
use rover::msgs::codec::{DecodeError, Reader, Writer};
use rover::msgs::debug::{BoardDiagnostics, EkfDebug, SpeedLoopDebug};
use rover::msgs::flags::{FaultBits, HealthBits, PostBits};
use rover::msgs::frame::{encode_frame, Frame, FrameHeader, FRAME_HEADER_LEN, MAX_BODY_LEN};
use rover::msgs::gnss::GnssFix;
use rover::msgs::kinds::{BoardId, FixQuality, GnssSource, MissionState, ResetCause};
use rover::msgs::mission::{Command, CommandFrame, MissionGoal, MissionStatus};
use rover::msgs::motion::{LaneMeasurement, MotionSetpoint, RoverState};
use rover::msgs::telemetry::Telemetry;
use rover::msgs::wire::Wire;
use rover::reals::{Real32, Real64};
use std::fmt::Debug;

fn r32(v: f32) -> Real32 {
    Real32(v.to_bits())
}

fn r64(v: f64) -> Real64 {
    Real64(v.to_bits())
}

// One distinctive value of each type: no zeros, no repeated numbers, every field
// different.

fn imu() -> ImuSample {
    ImuSample {
        accel_mps2: [r32(1.5), r32(-2.25), r32(9.81)],
        gyro_radps: [r32(0.125), r32(-0.5), r32(1.75)],
        t_us: 123_456_789,
    }
}

fn mag() -> MagSample {
    MagSample {
        field_gauss: [r32(0.21), r32(-0.34), r32(0.47)],
        t_us: 987_654_321,
    }
}

fn chassis_status() -> ChassisStatus {
    ChassisStatus {
        seq_echo: 40_001,
        watchdog_tripped: true,
        fault: FaultBits(0b1010),
        t_us: 55_555,
    }
}

fn chassis_command() -> ChassisCommand {
    ChassisCommand {
        steer: r32(-0.375),
        throttle: r32(0.625),
        seq: 4242,
    }
}

fn wheel() -> WheelSensors {
    WheelSensors {
        ticks_left: -123_456,
        ticks_right: 654_321,
        t_us: 7_777_777,
    }
}

fn power() -> PowerSample {
    PowerSample {
        bus_volts: r32(12.6),
        current_amps: r32(3.25),
    }
}

fn rtk_fix() -> GnssFix {
    GnssFix {
        lat_deg: r64(7.006_873_21),
        lon_deg: r64(100.498_765_43),
        alt_m: r32(42.5),
        fix: FixQuality::RtkFixed,
        sats: 23,
        h_acc_m: r32(0.014),
        speed_mps: r32(0.185),
        course_deg: r32(271.5),
        utc_ms: 1_700_000_000_123,
        source: GnssSource::Rtk,
    }
}

fn backup_fix() -> GnssFix {
    GnssFix {
        lat_deg: r64(7.006_8),
        lon_deg: r64(100.498_7),
        alt_m: r32(41.0),
        fix: FixQuality::Autonomous,
        sats: 9,
        h_acc_m: r32(2.5),
        speed_mps: r32(0.19),
        course_deg: r32(270.0),
        utc_ms: 1_700_000_000_000,
        source: GnssSource::Backup,
    }
}

fn lane() -> LaneMeasurement {
    LaneMeasurement {
        curvature_inv_m: r32(0.0325),
        heading_err_rad: r32(-0.0873),
        cross_track_m: r32(0.142),
        valid: true,
        t_us: 314_159,
    }
}

fn state() -> RoverState {
    RoverState {
        cross_track_m: r32(0.0731),
        heading_err_rad: r32(-0.0219),
        curvature_inv_m: r32(0.0417),
        speed_mps: r32(0.183),
        gyro_bias_radps: r32(0.0026),
        p_diag: [r32(1e-4), r32(2e-4), r32(3e-4), r32(4e-4), r32(5e-4)],
        lane_age_ms: 33,
    }
}

fn setpoint() -> MotionSetpoint {
    MotionSetpoint {
        steer_rad: r32(0.196),
        speed_mps: r32(0.20),
    }
}

fn goal() -> MissionGoal {
    MissionGoal {
        lat_deg: r64(7.006_9),
        lon_deg: r64(100.498_8),
    }
}

fn mission() -> MissionStatus {
    MissionStatus {
        active: true,
        distance_remaining_m: r32(137.25),
        target: Some(goal()),
        state: MissionState::Running,
    }
}

fn command() -> CommandFrame {
    CommandFrame {
        cmd_seq: 9001,
        body: Command::SetMissionGoal(goal()),
    }
}

fn telemetry() -> Telemetry {
    Telemetry {
        seq: 1_000_001,
        t_us: 9_876_543_210,
        state: state(),
        mission: mission(),
        power: power(),
        rtk: rtk_fix(),
        backup: backup_fix(),
        last_cmd_seq: 9001,
        health: HealthBits(0b0000_0100),
    }
}

fn speed_debug() -> SpeedLoopDebug {
    SpeedLoopDebug {
        measured_left_tps: r32(412.5),
        measured_right_tps: r32(408.25),
        target_tps: r32(410.0),
        error_pct: r32(-0.75),
        pid_output_pct: r32(16.125),
    }
}

fn ekf_debug() -> EkfDebug {
    EkfDebug {
        innovation: [r32(0.012), r32(-0.004), r32(0.0009)],
        nis: r32(2.87),
        gated: false,
    }
}

fn diagnostics() -> BoardDiagnostics {
    BoardDiagnostics {
        board: BoardId::Sensors,
        post_run: PostBits(0b0111_1111),
        post_pass: PostBits(0b0110_1011),
        reset_cause: ResetCause::IndependentWatchdog,
        phy_id: 0x0007_C130,
        link_speed_mbps: 100,
        link_full_duplex: true,
        phy_symbol_errors: 17,
        uptime_s: 8_675_309,
        tx_drops: 42,
    }
}

fn bytes(hex: &str) -> Vec<u8> {
    (0..hex.len() / 2)
        .map(|i| u8::from_str_radix(&hex[2 * i..2 * i + 2], 16).unwrap())
        .collect()
}

fn check_golden<T: Wire + PartialEq + Debug>(original: T, hex: &str) {
    let fixture = bytes(hex);
    let mut buf = [0u8; 512];
    let written = original.encode(&mut buf);
    assert_eq!(written, T::WIRE_LEN, "{}", T::NAME);
    assert_eq!(&buf[..written], fixture.as_slice(), "{}", T::NAME);
    assert_eq!(original.to_vec(), fixture, "{}", T::NAME);
    assert_eq!(T::decode(&fixture), Ok(original), "{}", T::NAME);
}

fn check_roundtrip<T: Wire + PartialEq + Debug>(original: T) {
    let mut buf = [0u8; 512];
    let written = original.encode(&mut buf);
    assert_eq!(written, T::WIRE_LEN, "{}", T::NAME);
    assert_eq!(T::decode(&buf), Ok(original), "{}", T::NAME);
}

fn check_trailing_ignored<T: Wire + PartialEq + Debug>(original: T) {
    let mut buf = [0xABu8; 512];
    original.encode(&mut buf);
    assert_eq!(T::decode(&buf), Ok(original), "{}", T::NAME);
}

fn check_short_buffer<T: Wire + PartialEq + Debug>(original: T) {
    let mut buf = [0u8; 512];
    original.encode(&mut buf);
    let short = &buf[..T::WIRE_LEN - 1];
    match T::decode(short) {
        Err(DecodeError::TooShort { need, got }) => {
            assert_eq!(need, T::WIRE_LEN, "{}", T::NAME);
            assert_eq!(got, T::WIRE_LEN - 1, "{}", T::NAME);
        }
        other => panic!("{}: {other:?}", T::NAME),
    }
}

fn check_fits_frame<T: Wire>(_: T) {
    assert!(T::WIRE_LEN <= MAX_BODY_LEN, "{}", T::NAME);
}

fn id_of<T: Wire>(_: T) -> (u16, &'static str) {
    (T::TYPE_ID, T::NAME)
}

#[test]
fn wire_bytes_match_committed_fixtures() {
    check_golden(
        imu(),
        "0000c03f000010c0c3f51c410000003e000000bf0000e03f15cd5b07",
    );
    check_golden(
        mag(),
        "3d0a573e7b14aebed7a3f03eb168de3a",
    );
    check_golden(
        chassis_status(),
        "419c010a03d90000",
    );
    check_golden(
        chassis_command(),
        "0000c0be0000203f9210",
    );
    check_golden(
        wheel(),
        "c01dfefff1fb0900f1ad7600",
    );
    check_golden(
        power(),
        "9a99494100005040",
    );
    check_golden(
        rtk_fix(),
        "96ac50c509071c406d8ed6c5eb1f594000002a4204174260653ca4703d3e00c087437b68e5cf8b01000000",
    );
    check_golden(
        lane(),
        "b81e053d58cab2bd7368113e012fcb0400",
    );
    check_golden(
        state(),
        "74b5953da167b3bc9fcd2a3d5a643b3ec3642a3b17b7d13817b7513952499d3917b7d1396f12033a2100",
    );
    check_golden(
        setpoint(),
        "39b4483ecdcc4c3e",
    );
    check_golden(
        goal(),
        "9e5e29cb10071c40abcfd556ec1f5940",
    );
    check_golden(
        mission(),
        "0100400943019e5e29cb10071c40abcfd556ec1f594002",
    );
    check_golden(
        command(),
        "2923029e5e29cb10071c40abcfd556ec1f5940",
    );
    check_golden(
        telemetry(),
        "41420f00ea16b04c0200000074b5953da167b3bc9fcd2a3d5a643b3ec3642a3b17b7d13817b7513952499d3917b7d1396f12033a21000100400943019e5e29cb10071c40abcfd556ec1f5940029a9949410000504096ac50c509071c406d8ed6c5eb1f594000002a4204174260653ca4703d3e00c087437b68e5cf8b0100000082734694f6061c40f9a067b3ea1f5940000024420109000020405c8f423e000087430068e5cf8b0100000129230400",
    );
    check_golden(
        speed_debug(),
        "0040ce430020cc430000cd43000040bf00008141",
    );
    check_golden(
        ekf_debug(),
        "a69b443c6f1283bbfaed6b3a14ae374000",
    );
    check_golden(
        diagnostics(),
        "017f006b000430c1070064011100ed5f84002a00",
    );
}

#[test]
fn frame_header_matches_committed_fixture() {
    let header = FrameHeader {
        type_id: 0x0501,
        seq: 0xBEEF,
    };
    let mut buf = [0u8; FRAME_HEADER_LEN];
    let written = header.encode(&mut buf);
    assert_eq!(written, FRAME_HEADER_LEN);
    assert_eq!(buf, [0x01, 0x05, 0xEF, 0xBE]);
    assert_eq!(FrameHeader::decode(&buf), Ok(header));
}

#[test]
fn every_type_roundtrips_and_matches_its_declared_length() {
    check_roundtrip(imu());
    check_roundtrip(mag());
    check_roundtrip(chassis_status());
    check_roundtrip(chassis_command());
    check_roundtrip(wheel());
    check_roundtrip(power());
    check_roundtrip(rtk_fix());
    check_roundtrip(lane());
    check_roundtrip(state());
    check_roundtrip(setpoint());
    check_roundtrip(goal());
    check_roundtrip(mission());
    check_roundtrip(command());
    check_roundtrip(telemetry());
    check_roundtrip(speed_debug());
    check_roundtrip(ekf_debug());
    check_roundtrip(diagnostics());
}

#[test]
fn trailing_bytes_are_ignored() {
    check_trailing_ignored(imu());
    check_trailing_ignored(mag());
    check_trailing_ignored(chassis_status());
    check_trailing_ignored(chassis_command());
    check_trailing_ignored(wheel());
    check_trailing_ignored(power());
    check_trailing_ignored(rtk_fix());
    check_trailing_ignored(lane());
    check_trailing_ignored(state());
    check_trailing_ignored(setpoint());
    check_trailing_ignored(goal());
    check_trailing_ignored(mission());
    check_trailing_ignored(command());
    check_trailing_ignored(telemetry());
    check_trailing_ignored(speed_debug());
    check_trailing_ignored(ekf_debug());
    check_trailing_ignored(diagnostics());
}

#[test]
fn truncated_buffers_are_rejected() {
    check_short_buffer(imu());
    check_short_buffer(mag());
    check_short_buffer(chassis_status());
    check_short_buffer(chassis_command());
    check_short_buffer(wheel());
    check_short_buffer(power());
    check_short_buffer(rtk_fix());
    check_short_buffer(lane());
    check_short_buffer(state());
    check_short_buffer(setpoint());
    check_short_buffer(goal());
    check_short_buffer(mission());
    check_short_buffer(command());
    check_short_buffer(telemetry());
    check_short_buffer(speed_debug());
    check_short_buffer(ekf_debug());
    check_short_buffer(diagnostics());
}

#[test]
fn every_body_fits_the_frame_budget() {
    check_fits_frame(imu());
    check_fits_frame(mag());
    check_fits_frame(chassis_status());
    check_fits_frame(chassis_command());
    check_fits_frame(wheel());
    check_fits_frame(power());
    check_fits_frame(rtk_fix());
    check_fits_frame(lane());
    check_fits_frame(state());
    check_fits_frame(setpoint());
    check_fits_frame(goal());
    check_fits_frame(mission());
    check_fits_frame(command());
    check_fits_frame(telemetry());
    check_fits_frame(speed_debug());
    check_fits_frame(ekf_debug());
    check_fits_frame(diagnostics());
}

#[test]
fn type_ids_are_unique() {
    let mut ids = vec![
        id_of(imu()),
        id_of(mag()),
        id_of(chassis_status()),
        id_of(chassis_command()),
        id_of(wheel()),
        id_of(power()),
        id_of(rtk_fix()),
        id_of(lane()),
        id_of(state()),
        id_of(setpoint()),
        id_of(goal()),
        id_of(mission()),
        id_of(command()),
        id_of(telemetry()),
        id_of(speed_debug()),
        id_of(ekf_debug()),
        id_of(diagnostics()),
    ];
    ids.sort_by_key(|(id, _)| *id);
    for pair in ids.windows(2) {
        assert_ne!(
            pair[0].0, pair[1].0,
            "type ID 0x{:04X} used by both `{}` and `{}`",
            pair[0].0, pair[0].1, pair[1].1,
        );
    }
}

#[test]
fn every_command_has_its_tag_and_keeps_its_length() {
    let cases = [
        (Command::Nop, 0u8),
        (Command::SetSpeedLimit(73), 1),
        (Command::SetMissionGoal(goal()), 2),
        (Command::CancelMission, 3),
        (Command::EStop, 4),
        (Command::ClearEStop, 5),
    ];
    for (body, tag) in cases {
        let frame = CommandFrame { cmd_seq: 7, body };
        let v = frame.to_vec();
        assert_eq!(v.len(), 19);
        assert_eq!(v[2], tag);
        assert_eq!(CommandFrame::decode(&v), Ok(frame));
    }
    let mut v = CommandFrame::default().to_vec();
    v[2] = 6;
    assert_eq!(
        CommandFrame::decode(&v),
        Err(DecodeError::BadDiscriminant {
            field: "Command",
            value: 6
        })
    );
}

#[test]
fn values_outside_their_set_are_refused_wherever_they_are() {
    let mut v = rtk_fix().to_vec();
    v[20] = 9;
    assert!(matches!(
        GnssFix::decode(&v),
        Err(DecodeError::BadDiscriminant { value: 9, .. })
    ));
    let mut v = telemetry().to_vec();
    v[12 + 42 + 22] = 77;
    assert!(matches!(
        Telemetry::decode(&v),
        Err(DecodeError::BadDiscriminant { value: 77, .. })
    ));
    assert!(FixQuality::from_u8(5).is_err());
    assert!(MissionState::from_u8(6).is_err());
    assert!(GnssSource::from_u8(2).is_err());
    assert!(BoardId::from_u8(2).is_err());
    assert!(ResetCause::from_u8(8).is_err());
}

#[test]
fn decode_errors_in_words() {
    assert_eq!(
        DecodeError::TooShort { need: 8, got: 2 }.message(),
        "buffer too short: need 8 bytes, got 2"
    );
    assert_eq!(
        DecodeError::BadDiscriminant {
            field: "FixQuality",
            value: 9
        }
        .message(),
        "invalid discriminant 9 for field `FixQuality`"
    );
}

#[test]
fn scalars_are_little_endian() {
    let mut buf = [0u8; 64];
    let n = {
        let mut w = Writer::new(&mut buf);
        assert!(w.is_empty());
        w.u8(0x01);
        w.i8(-2);
        w.u16(0x0304);
        w.i16(-5);
        w.u32(0x0607_0809);
        w.i32(-10);
        w.u64(0x0b0c_0d0e_0f10_1112);
        w.real32(r32(1.5));
        w.real64(r64(-2.5));
        w.bool(true);
        w.len()
    };
    assert_eq!(n, 1 + 1 + 2 + 2 + 4 + 4 + 8 + 4 + 8 + 1);
    assert_eq!(&buf[2..4], &[0x04, 0x03]);
    assert_eq!(&buf[4..6], &(-5i16).to_le_bytes());
    assert_eq!(&buf[22..26], &1.5f32.to_le_bytes());
    let mut r = Reader::new(&buf);
    assert_eq!(r.u8(), 0x01);
    assert_eq!(r.i8(), -2);
    assert_eq!(r.u16(), 0x0304);
    assert_eq!(r.i16(), -5);
    assert_eq!(r.u32(), 0x0607_0809);
    assert_eq!(r.i32(), -10);
    assert_eq!(r.u64(), 0x0b0c_0d0e_0f10_1112);
    assert_eq!(r.real32(), r32(1.5));
    assert_eq!(r.real64(), r64(-2.5));
    assert!(r.bool());
}

#[test]
fn frames_carry_type_number_and_body() {
    let mut buf = [0u8; 256];
    let n = encode_frame(&power(), 0x1234, &mut buf);
    assert_eq!(n, FRAME_HEADER_LEN + 8);
    let frame = Frame::parse(&buf[..n]).unwrap();
    assert_eq!(frame.header.type_id, PowerSample::TYPE_ID);
    assert_eq!(frame.header.seq, 0x1234);
    assert_eq!(frame.decode_as::<PowerSample>(), Some(Ok(power())));
    assert_eq!(frame.decode_as::<ImuSample>(), None);
    assert!(Frame::parse(&buf[..3]).is_err());
}

#[test]
fn flags_are_set_cleared_and_found() {
    let mut h = HealthBits(HealthBits::NONE);
    assert!(h.is_clear());
    h.set(HealthBits(HealthBits::RTK_STALE));
    assert!(h.contains(HealthBits(HealthBits::RTK_STALE)));
    assert!(!h.contains(HealthBits(HealthBits::LANE_STALE)));
    h.clear(HealthBits(HealthBits::RTK_STALE));
    assert!(h.is_clear());
    let mut f = FaultBits(FaultBits::IMU_LOST);
    f.set(FaultBits(FaultBits::SERVO_FAULT));
    assert_eq!(f.0, 0b1001);
    f.clear(FaultBits(FaultBits::IMU_LOST));
    assert_eq!(f.0, 0b1000);
}

#[test]
fn diagnostics_tell_what_failed() {
    let d = diagnostics();
    assert_eq!(d.post_failures().0, 0b0001_0100);
    assert!(!d.post_ok());
    let mut good = d;
    good.post_pass = good.post_run;
    assert!(good.post_ok());
}

#[test]
fn chassis_commands_are_limited() {
    let c = ChassisCommand {
        steer: r32(1.5),
        throttle: r32(-7.0),
        seq: 3,
    }
    .clamped();
    assert_eq!(c.steer, r32(1.0));
    assert_eq!(c.throttle, r32(-1.0));
    assert_eq!(c.seq, 3);
}

#[test]
fn newer_commands_are_told_by_their_numbers() {
    let f = |n: u16| CommandFrame {
        cmd_seq: n,
        body: Command::Nop,
    };
    assert!(f(2).is_newer_than(1));
    assert!(!f(1).is_newer_than(1));
    assert!(f(0).is_newer_than(u16::MAX));
    assert!(!f(u16::MAX).is_newer_than(0));
    assert!(!f(0x8000).is_newer_than(0));
}

#[test]
fn a_fix_is_used_only_as_far_as_it_can_be_trusted() {
    let mut fix = rtk_fix();
    fix.fix = FixQuality::RtkFloat;
    fix.sats = 4;
    fix.speed_mps = r32(0.31);
    assert!(fix.is_usable());
    assert!(fix.course_is_trustworthy());
    fix.speed_mps = r32(0.3);
    assert!(!fix.course_is_trustworthy(), "too slow for a course");
    fix.speed_mps = r32(5.0);
    fix.fix = FixQuality::Dgps;
    assert!(!fix.course_is_trustworthy());
    assert!(fix.is_usable());
    fix.sats = 3;
    assert!(!fix.is_usable());
    fix.sats = 12;
    fix.fix = FixQuality::NoFix;
    assert!(!fix.is_usable());
}
