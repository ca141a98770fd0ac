//! Watching the bus.

use rover::link::peer::PeerId;
use rover::msgs::boards::PowerSample;
use rover::msgs::debug::BoardDiagnostics;
use rover::msgs::wire::Wire;
use rover::reals::Real32;
use rover::tap::echo::{echo_line, timestamp, wanted};
use rover::tap::registry::{decode, Message};
use rover::tap::stats::RateTracker;

fn report(t: &mut RateTracker) -> Vec<String> {
    let secs = (t.elapsed(1_000_000) as f64 / 1e6).max(0.001);
    t.report(1_000_000)
        .iter()
        .map(|c| c.line(&format!("{:.1}", f64::from(c.frames) / secs)))
        .collect()
}

#[test]
fn decodes_a_known_type() {
    let msg = PowerSample {
        bus_volts: Real32(12.6f32.to_bits()),
        current_amps: Real32(3.25f32.to_bits()),
    };
    let mut buf = [0u8; 8];
    msg.encode(&mut buf);
    let decoded = decode(PowerSample::TYPE_ID, &buf).expect("PowerSample must be registered");
    assert_eq!(decoded.name, "PowerSample");
    match decoded.message {
        Message::PowerSample(p) => assert_eq!(f32::from_bits(p.bus_volts.0), 12.6),
        other => panic!("{other:?}"),
    }
}

#[test]
fn unknown_type_id_decodes_to_none() {
    assert!(decode(0xFFFF, &[0u8; 64]).is_none());
}

#[test]
fn truncated_body_decodes_to_none() {
    assert!(decode(PowerSample::TYPE_ID, &[0u8; 2]).is_none());
}

#[test]
fn diagnostics_are_registered_too() {
    let d = BoardDiagnostics::default();
    let decoded = decode(BoardDiagnostics::TYPE_ID, &d.to_vec()).unwrap();
    assert_eq!(decoded.name, "BoardDiagnostics");
}

#[test]
fn no_gap_means_no_loss() {
    let mut t = RateTracker::new(0);
    t.record(1, "ImuSample", 10);
    t.record(1, "ImuSample", 11);
    t.record(1, "ImuSample", 12);
    let lines = report(&mut t);
    assert_eq!(lines.len(), 1);
    assert!(lines[0].contains("lost    0"), "{}", lines[0]);
    assert_eq!(lines[0], "ImuSample            3.0 Hz   lost    0");
}

#[test]
fn gap_counts_the_missing_frames() {
    let mut t = RateTracker::new(0);
    t.record(1, "ImuSample", 10);
    t.record(1, "ImuSample", 14);
    let lines = report(&mut t);
    assert!(lines[0].contains("lost    3"), "{}", lines[0]);
}

#[test]
fn seq_wraparound_is_not_counted_as_loss() {
    let mut t = RateTracker::new(0);
    t.record(1, "ImuSample", u16::MAX - 1);
    t.record(1, "ImuSample", 1);
    let lines = report(&mut t);
    assert!(lines[0].contains("lost    2"), "{}", lines[0]);
}

#[test]
fn a_restarted_sender_is_not_reported_as_a_mass_loss() {
    let mut t = RateTracker::new(0);
    t.record(1, "ImuSample", 5000);
    t.record(1, "ImuSample", 0);
    let lines = report(&mut t);
    assert!(lines[0].contains("lost    0"), "{}", lines[0]);
}

#[test]
fn silent_types_drop_out_of_the_next_report() {
    let mut t = RateTracker::new(0);
    t.record(1, "ImuSample", 1);
    assert_eq!(report(&mut t).len(), 1);
    assert_eq!(report(&mut t).len(), 0);
}

#[test]
fn reports_are_by_name_and_remember_numbers_over_windows() {
    let mut t = RateTracker::new(0);
    t.record(7, "WheelSensors", 1);
    t.record(9, "GnssFix", 1);
    t.record(3, "ImuSample", 1);
    t.record(9, "GnssFix", 2);
    let names: Vec<&str> = t.report(5).iter().map(|c| c.name).collect();
    assert_eq!(names, ["GnssFix", "ImuSample", "WheelSensors"]);
    t.record(9, "GnssFix", 5);
    assert_eq!(t.report(9)[0].lost, 2);
}

#[test]
fn lines_are_stamped_and_in_columns() {
    assert_eq!(timestamp(1_705_321_845, 7), "[1705321845.007]");
    assert_eq!(timestamp(42, 123), "[        42.123]");
    assert_eq!(
        echo_line("[t]", PeerId::Base, 12, "PowerSample", "{}"),
        "[t] base seq=12     PowerSample {}"
    );
    assert!(wanted(None, "ImuSample"));
    assert!(wanted(Some("ImuSample"), "ImuSample"));
    assert!(!wanted(Some("ImuSample"), "MagSample"));
}
