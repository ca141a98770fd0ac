//! GNSS input and the mission.

use rover::calendar::civil_to_unix_ms;
use rover::msgs::gnss::GnssFix;
use rover::msgs::kinds::{FixQuality, GnssSource, MissionState};
use rover::msgs::mission::{Command, MissionGoal};
use rover::nav::assemble::{SpresenseAssembler, UbloxAssembler, UbloxNumbers};
use rover::nav::lines::LineReader;
use rover::nav::mission::{select_navigation_fix, Mission, MissionConfig, MissionConfigError};
use rover::nav::nmea;
use rover::nav::nmea::{Gga, GgaNumbers, NmeaError, Rmc, RmcNumbers};
use rover::nav::rtcm::inject_rtcm;
use rover::nav::spresense;
use rover::nav::spresense::{SpresenseFix, SpresenseNumbers, SpresenseParseError};
use rover::reals::{Real32, Real64};

fn r32(v: f32) -> Real32 {
    Real32(v.to_bits())
}

fn r64(v: f64) -> Real64 {
    Real64(v.to_bits())
}

fn f32_of(v: Real32) -> f32 {
    f32::from_bits(v.0)
}

fn f64_of(v: Real64) -> f64 {
    f64::from_bits(v.0)
}

fn read32(t: &str) -> Option<Real32> {
    t.parse::<f32>().ok().map(r32)
}

fn read64(t: &str) -> Option<Real64> {
    t.parse::<f64>().ok().map(r64)
}

fn with_checksum(body: &str) -> String {
    let cs = body.bytes().fold(0u8, |acc, b| acc ^ b);
    format!("${body}*{cs:02X}")
}

fn whole_ms(second: Option<Real64>) -> u64 {
    let ms = second.map_or(0.0, |s| (f64_of(s) * 1000.0).round());
    if (0.0..=60_000.0).contains(&ms) {
        ms as u64
    } else {
        0
    }
}

fn fields(sentence: &str) -> Vec<String> {
    nmea::sentence_fields(sentence).unwrap_or_default()
}

fn field(f: &[String], i: usize) -> String {
    f.get(i).cloned().unwrap_or_default()
}

fn degrees(t: &str) -> Option<Real64> {
    let raw: f64 = t.parse().ok()?;
    let whole = (raw / 100.0).trunc();
    Some(r64(whole + (raw - whole * 100.0) / 60.0))
}

fn gga_numbers(sentence: &str) -> GgaNumbers {
    let f = fields(sentence);
    GgaNumbers {
        second: field(&f, 1).get(4..).and_then(read64),
        lat_deg: degrees(&field(&f, 2)),
        lon_deg: degrees(&field(&f, 4)),
        h_acc_m: field(&f, 8).parse::<f32>().ok().map(|hdop| r32(hdop * 5.0)),
        alt_m: read32(&field(&f, 9)),
    }
}

fn rmc_numbers(sentence: &str) -> RmcNumbers {
    let f = fields(sentence);
    RmcNumbers {
        second: field(&f, 1).get(4..).and_then(read64),
        speed_knots: read32(&field(&f, 7)),
        course_deg: read32(&field(&f, 8)),
    }
}

fn parse_gga(sentence: &str) -> Result<Gga, NmeaError> {
    nmea::parse_gga(sentence, &gga_numbers(sentence))
}

fn parse_rmc(sentence: &str) -> Result<Rmc, NmeaError> {
    nmea::parse_rmc(sentence, &rmc_numbers(sentence))
}

fn ingest(a: &mut UbloxAssembler, line: &str) -> Option<GnssFix> {
    let gga = gga_numbers(line);
    let rmc = rmc_numbers(line);
    let knots = rmc.speed_knots.map_or(0.0, f32_of);
    let n = UbloxNumbers {
        gga,
        rmc,
        speed_mps: r32(knots * f32::from_bits(nmea::KNOTS_TO_MPS)),
        second_ms: whole_ms(gga.second),
    };
    a.ingest(line, &n)
}

fn spresense_numbers(line: &str) -> SpresenseNumbers {
    let value = |key: &str| spresense::field_text(line, key).unwrap_or_default();
    let second = spresense::seconds_text(&value("time")).and_then(|t| read64(&t));
    SpresenseNumbers {
        lat_deg: read64(&value("latitude")),
        lon_deg: read64(&value("longitude")),
        alt_m: read32(&value("altitude")),
        second,
        second_ms: whole_ms(second),
    }
}

fn parse_line(line: &str) -> Result<SpresenseFix, SpresenseParseError> {
    spresense::parse_line(line, &spresense_numbers(line))
}

fn ingest_json(a: &mut SpresenseAssembler, line: &str) -> Option<GnssFix> {
    a.ingest(line, &spresense_numbers(line))
}

fn civil(year: i32, month: u32, day: u32, hour: u32, minute: u32, second: f64) -> Option<u64> {
    civil_to_unix_ms(
        year,
        month,
        day,
        hour,
        minute,
        r64(second),
        whole_ms(Some(r64(second))),
    )
}

// ---- lines -----------------------------------------------------------------

#[test]
fn splits_multiple_complete_lines_in_one_chunk() {
    let mut r = LineReader::new(4096);
    let lines = r.feed(b"line one\nline two\n");
    assert_eq!(lines, vec!["line one", "line two"]);
}

#[test]
fn handles_a_line_split_across_two_reads() {
    let mut r = LineReader::new(4096);
    assert!(r.feed(b"partial li").is_empty());
    let lines = r.feed(b"ne\n");
    assert_eq!(lines, vec!["partial line"]);
}

#[test]
fn strips_carriage_return() {
    let mut r = LineReader::new(4096);
    let lines = r.feed(b"line\r\n");
    assert_eq!(lines, vec!["line"]);
}

#[test]
fn empty_lines_are_dropped() {
    let mut r = LineReader::new(4096);
    let lines = r.feed(b"\n\nreal line\n");
    assert_eq!(lines, vec!["real line"]);
}

#[test]
fn overlong_buffer_with_no_delimiter_is_dropped_not_grown_forever() {
    let mut r = LineReader::new(16);
    let lines = r.feed(b"this line is definitely longer than sixteen bytes");
    assert!(lines.is_empty());
    let lines = r.feed(b"ok\n");
    assert_eq!(lines, vec!["ok"]);
}

#[test]
fn bytes_that_are_not_utf8_are_replaced_not_fatal() {
    let mut r = LineReader::new(4096);
    let lines = r.feed(b"caf\xC3\xA9 \xFF\n");
    assert_eq!(lines, vec!["caf\u{e9} \u{fffd}"]);
}

#[test]
fn the_limit_is_on_encoded_bytes_and_includes_what_was_waiting() {
    let mut r = LineReader::new(4);
    assert!(r.feed("\u{e9}".as_bytes()).is_empty());
    assert!(r.feed("\u{e9}".as_bytes()).is_empty());
    assert_eq!(r.buf, "\u{e9}\u{e9}");
    assert!(r.feed(b"x").is_empty());
    assert_eq!(r.buf, "");
    assert_eq!(r.feed(b"y\n"), vec!["y"]);
}

#[test]
fn complete_lines_are_never_dropped() {
    let mut r = LineReader::new(8);
    assert_eq!(r.feed(b"abc\ndefgh\n"), vec!["abc", "defgh"]);
    let mut r = LineReader::new(4);
    assert!(r.feed(b"abcd").is_empty());
    assert_eq!(r.feed(b"\n"), vec!["abcd"]);
    assert_eq!(r.feed(b"longer than the limit\nshor"), vec!["longer than the limit"]);
    assert_eq!(r.buf, "shor");
    assert_eq!(r.feed(b"t\nand more"), vec!["short"]);
    assert_eq!(r.buf, "");
}

#[test]
fn chunks_do_not_matter() {
    let text = b"one\r\ntwo\n\nthree\nfo";
    let mut whole = LineReader::new(4096);
    let expected = whole.feed(text);
    for cut in 0..text.len() {
        let mut r = LineReader::new(4096);
        let mut lines = r.feed(&text[..cut]);
        lines.extend(r.feed(&text[cut..]));
        assert_eq!(lines, expected);
        assert_eq!(r.buf, whole.buf);
    }
}

// ---- checksums ---------------------------------------------------------------

#[test]
fn rejects_bad_checksum() {
    let sentence = "$GPGGA,123519,4807.038,N,01131.000,E,1,08,0.9,545.4,M,46.9,M,,*FF";
    assert_eq!(parse_gga(sentence), Err(NmeaError::BadChecksum));
}

#[test]
fn rejects_missing_checksum() {
    let sentence = "$GPGGA,123519,4807.038,N,01131.000,E,1,08,0.9,545.4,M,46.9,M,,";
    assert_eq!(parse_gga(sentence), Err(NmeaError::BadChecksum));
}

#[test]
fn accepts_correct_checksum() {
    let body = "GPGGA,123519,4807.038,N,01131.000,E,1,08,0.9,545.4,M,46.9,M,,";
    let sentence = with_checksum(body);
    assert!(parse_gga(&sentence).is_ok());
}

#[test]
fn checksums_are_read_in_either_case_and_need_two_digits() {
    let body = "GPGGA,123519,4807.038,N,01131.000,E,1,08,0.9,545.4,M,46.9,M,,";
    let upper = with_checksum(body);
    assert!(parse_gga(&upper.to_lowercase().replace("gpgga", "GPGGA")).is_err());
    let cs = body.bytes().fold(0u8, |acc, b| acc ^ b);
    assert!(parse_gga(&format!("${body}*{cs:02x}")).is_ok());
    assert!(parse_gga(&format!("{body}*{cs:02X}")).is_ok());
    assert_eq!(
        parse_gga(&format!("${body}*4")),
        Err(NmeaError::BadChecksum)
    );
}

#[test]
fn a_sign_is_no_digit_of_a_checksum() {
    assert_eq!(
        nmea::sentence_fields("$KA*0A"),
        Some(vec!["KA".to_string()])
    );
    assert_eq!(nmea::sentence_fields("$KA*+A"), None);
    assert_eq!(nmea::sentence_fields("$KA*-A"), None);
}

#[test]
fn one_garbled_byte_is_caught() {
    let body = "GPGGA,123519,4807.038,N,01131.000,E,1,08,0.9,545.4,M,46.9,M,,";
    let good = with_checksum(body);
    for i in 1..=body.len() {
        let mut bytes = good.clone().into_bytes();
        bytes[i] ^= 0x01;
        if bytes[i] == b'*' || bytes[i] == b'$' {
            continue;
        }
        let bad = String::from_utf8(bytes).unwrap();
        assert_eq!(parse_gga(&bad), Err(NmeaError::BadChecksum), "{bad}");
    }
}

// ---- GGA -----------------------------------------------------------------------

#[test]
fn parses_a_full_gga_fix() {
    let body = "GPGGA,123519,4807.038,N,01131.000,E,1,08,0.9,545.4,M,46.9,M,,";
    let sentence = with_checksum(body);
    let gga = parse_gga(&sentence).unwrap();
    assert_eq!(gga.hour, 12);
    assert_eq!(gga.minute, 35);
    assert!((f64_of(gga.second) - 19.0).abs() < 1e-9);
    assert!((f64_of(gga.lat_deg.unwrap()) - 48.1173).abs() < 1e-4);
    assert!((f64_of(gga.lon_deg.unwrap()) - 11.516667).abs() < 1e-4);
    assert_eq!(gga.fix, FixQuality::Autonomous);
    assert_eq!(gga.sats, 8);
    assert!((f32_of(gga.alt_m) - 545.4).abs() < 1e-6);
}

#[test]
fn southern_and_western_hemispheres_are_negative() {
    let body = "GPGGA,123519,4807.038,S,01131.000,W,1,08,0.9,545.4,M,46.9,M,,";
    let sentence = with_checksum(body);
    let gga = parse_gga(&sentence).unwrap();
    assert!(f64_of(gga.lat_deg.unwrap()) < 0.0);
    assert!(f64_of(gga.lon_deg.unwrap()) < 0.0);
}

#[test]
fn missing_position_before_first_fix_is_none() {
    let body = "GPGGA,123519,,,,,0,00,99.99,,M,,M,,";
    let sentence = with_checksum(body);
    let gga = parse_gga(&sentence).unwrap();
    assert_eq!(gga.lat_deg, None);
    assert_eq!(gga.lon_deg, None);
    assert_eq!(gga.fix, FixQuality::NoFix);
}

#[test]
fn every_fix_quality_digit_maps_correctly() {
    let cases = [
        (0, FixQuality::NoFix),
        (1, FixQuality::Autonomous),
        (2, FixQuality::Dgps),
        (3, FixQuality::Autonomous),
        (4, FixQuality::RtkFixed),
        (5, FixQuality::RtkFloat),
        (6, FixQuality::NoFix),
        (7, FixQuality::NoFix),
        (8, FixQuality::NoFix),
        (9, FixQuality::Dgps),
        (42, FixQuality::NoFix),
    ];
    for (raw, expected) in cases {
        assert_eq!(
            nmea::map_fix_quality(raw),
            expected,
            "raw quality {raw}"
        );
    }
}

#[test]
fn rtk_fixed_end_to_end_through_a_full_sentence() {
    let body = "GNGGA,123519,4807.038,N,01131.000,E,4,12,0.6,545.4,M,46.9,M,1.0,0000";
    let sentence = with_checksum(body);
    let gga = parse_gga(&sentence).unwrap();
    assert_eq!(gga.fix, FixQuality::RtkFixed);
}

#[test]
fn rtk_float_end_to_end_through_a_full_sentence() {
    let body = "GNGGA,123519,4807.038,N,01131.000,E,5,12,0.7,545.4,M,46.9,M,1.0,0000";
    let sentence = with_checksum(body);
    let gga = parse_gga(&sentence).unwrap();
    assert_eq!(gga.fix, FixQuality::RtkFloat);
}

#[test]
fn hdop_becomes_a_metres_accuracy_estimate() {
    let body = "GPGGA,123519,4807.038,N,01131.000,E,1,08,2.0,545.4,M,46.9,M,,";
    let sentence = with_checksum(body);
    let gga = parse_gga(&sentence).unwrap();
    assert!((f32_of(gga.h_acc_m) - 10.0).abs() < 1e-6);
}

#[test]
fn absurd_hdop_is_capped() {
    let body = "GPGGA,123519,4807.038,N,01131.000,E,1,08,99.99,545.4,M,46.9,M,,";
    let sentence = with_checksum(body);
    let gga = parse_gga(&sentence).unwrap();
    assert!(f32_of(gga.h_acc_m) <= 99.99);
}

#[test]
fn too_few_fields_is_rejected() {
    let body = "GPGGA,123519,4807.038,N";
    let sentence = with_checksum(body);
    assert!(matches!(
        parse_gga(&sentence),
        Err(NmeaError::TooFewFields { .. })
    ));
    assert_eq!(
        parse_gga(&sentence),
        Err(NmeaError::TooFewFields { need: 10, got: 4 })
    );
}

#[test]
fn wrong_sentence_type_is_rejected_by_parse_gga() {
    let body = "GPRMC,123519,A,4807.038,N,01131.000,E,022.4,084.4,230324,003.1,W";
    let sentence = with_checksum(body);
    assert_eq!(parse_gga(&sentence), Err(NmeaError::WrongSentenceType));
}

#[test]
fn garbled_numbers_are_bad_numbers() {
    for body in [
        "GPGGA,12351,4807.038,N,01131.000,E,1,08,0.9,545.4,M,46.9,M,,",
        "GPGGA,xx3519,4807.038,N,01131.000,E,1,08,0.9,545.4,M,46.9,M,,",
        "GPGGA,1235xx,4807.038,N,01131.000,E,1,08,0.9,545.4,M,46.9,M,,",
        "GPGGA,123519,north,N,01131.000,E,1,08,0.9,545.4,M,46.9,M,,",
        "GPGGA,123519,4807.038,Q,01131.000,E,1,08,0.9,545.4,M,46.9,M,,",
        "GPGGA,123519,4807.038,N,01131.000,E,x,08,0.9,545.4,M,46.9,M,,",
        "GPGGA,123519,4807.038,N,01131.000,E,1,256,0.9,545.4,M,46.9,M,,",
        "GPGGA,123519,4807.038,N,01131.000,E,1,08,hdop,545.4,M,46.9,M,,",
        "GPGGA,123519,4807.038,N,01131.000,E,1,08,0.9,high,M,46.9,M,,",
    ] {
        assert_eq!(
            parse_gga(&with_checksum(body)),
            Err(NmeaError::BadNumber),
            "{body}"
        );
    }
}

// ---- RMC -----------------------------------------------------------------------

#[test]
fn parses_a_full_rmc_sentence() {
    let body = "GPRMC,123519,A,4807.038,N,01131.000,E,022.4,084.4,230324,003.1,W";
    let sentence = with_checksum(body);
    let rmc = parse_rmc(&sentence).unwrap();
    assert_eq!(rmc.status, 'A');
    assert!((f32_of(rmc.speed_knots) - 22.4).abs() < 1e-6);
    assert!((f32_of(rmc.course_deg) - 84.4).abs() < 1e-6);
    assert_eq!((rmc.year, rmc.month, rmc.day), (2024, 3, 23));
}

#[test]
fn void_status_is_reported_not_hidden() {
    let body = "GPRMC,123519,V,,,,,,,230324,,";
    let sentence = with_checksum(body);
    let rmc = parse_rmc(&sentence).unwrap();
    assert_eq!(rmc.status, 'V');
}

#[test]
fn a_short_or_garbled_date_is_a_bad_number() {
    for body in [
        "GPRMC,123519,A,,,,,022.4,084.4,23032,003.1,W",
        "GPRMC,123519,A,,,,,022.4,084.4,23xx24,003.1,W",
        "GPRMC,123519,A,,,,,022.4,084.4,-30324,003.1,W",
        "GPRMC,-13519,A,,,,,022.4,084.4,230324,003.1,W",
        "GPRMC,123519,A,,,,,fast,084.4,230324,003.1,W",
    ] {
        assert_eq!(
            parse_rmc(&with_checksum(body)),
            Err(NmeaError::BadNumber),
            "{body}"
        );
    }
}

#[test]
fn two_characters_of_a_clock_or_a_date_may_hold_a_sign() {
    let rmc = parse_rmc(&with_checksum(
        "GPRMC,+5+319,A,,,,,022.4,084.4,+3+4-5,003.1,W",
    ))
    .unwrap();
    assert_eq!((rmc.hour, rmc.minute), (5, 3));
    assert_eq!((rmc.year, rmc.month, rmc.day), (1995, 4, 3));
    let rmc = parse_rmc(&with_checksum(
        "GPRMC,123519,A,,,,,022.4,084.4,2303+5,003.1,W",
    ))
    .unwrap();
    assert_eq!(rmc.year, 2005);
}

#[test]
fn knots_to_mps_constant_matches_the_ros2_original() {
    assert!((f32::from_bits(nmea::KNOTS_TO_MPS) - 0.514444).abs() < 1e-6);
}

// ---- primary assembler ------------------------------------------------------------

#[test]
fn gga_alone_emits_a_fix_with_no_date() {
    let mut a = UbloxAssembler::new();
    let gga = with_checksum("GPGGA,123519,4807.038,N,01131.000,E,1,08,0.9,545.4,M,46.9,M,,");
    let fix = ingest(&mut a, &gga).unwrap();
    assert_eq!(fix.fix, FixQuality::Autonomous);
    assert_eq!(fix.utc_ms, 0, "no RMC seen yet, so no date to combine");
    assert_eq!(fix.source, GnssSource::Rtk);
}

#[test]
fn rmc_then_gga_produces_a_combined_timestamp() {
    let mut a = UbloxAssembler::new();
    let rmc = with_checksum("GPRMC,123519,A,4807.038,N,01131.000,E,022.4,084.4,230394,003.1,W");
    assert!(
        ingest(&mut a, &rmc).is_none(),
        "RMC alone must not emit a fix"
    );

    let gga = with_checksum("GPGGA,123519,4807.038,N,01131.000,E,4,08,0.9,545.4,M,46.9,M,,");
    let fix = ingest(&mut a, &gga).unwrap();
    assert_eq!(fix.fix, FixQuality::RtkFixed);
    assert!(fix.utc_ms > 0, "date from RMC + time from GGA must combine");
    assert!((f32_of(fix.speed_mps) - 22.4 * f32::from_bits(nmea::KNOTS_TO_MPS)).abs() < 1e-3);
    assert!((f32_of(fix.course_deg) - 84.4).abs() < 1e-6);
}

#[test]
fn a_fix_carries_the_exact_instant() {
    let mut a = UbloxAssembler::new();
    let rmc = with_checksum("GPRMC,123045,A,4807.038,N,01131.000,E,022.4,084.4,150124,003.1,W");
    ingest(&mut a, &rmc);
    let gga = with_checksum("GPGGA,123045.25,4807.038,N,01131.000,E,4,08,0.9,545.4,M,46.9,M,,");
    assert_eq!(ingest(&mut a, &gga).unwrap().utc_ms, 1_705_321_845_250);
}

#[test]
fn void_rmc_does_not_pollute_speed_or_course() {
    let mut a = UbloxAssembler::new();
    let rmc = with_checksum("GPRMC,123519,V,,,,,099.9,111.1,230394,,");
    ingest(&mut a, &rmc);
    let gga = with_checksum("GPGGA,123519,4807.038,N,01131.000,E,1,08,0.9,545.4,M,46.9,M,,");
    let fix = ingest(&mut a, &gga).unwrap();
    assert_eq!(f32_of(fix.speed_mps), 0.0);
    assert_eq!(f32_of(fix.course_deg), 0.0);
}

#[test]
fn position_is_held_across_a_gga_with_no_position() {
    let mut a = UbloxAssembler::new();
    let first = with_checksum("GPGGA,123519,4807.038,N,01131.000,E,1,08,0.9,545.4,M,46.9,M,,");
    let fix1 = ingest(&mut a, &first).unwrap();
    assert!(f64_of(fix1.lat_deg) != 0.0);

    let second = with_checksum("GPGGA,123520,,,,,0,00,99.99,,M,,M,,");
    let fix2 = ingest(&mut a, &second).unwrap();
    assert_eq!(
        fix2.lat_deg, fix1.lat_deg,
        "position should be held, not zeroed"
    );
    assert_eq!(
        fix2.fix,
        FixQuality::NoFix,
        "but fix quality reflects the new sentence"
    );
}

#[test]
fn non_dollar_lines_are_ignored() {
    let mut a = UbloxAssembler::new();
    assert!(ingest(&mut a, "not a sentence").is_none());
    let bare = with_checksum("GPGGA,123519,4807.038,N,01131.000,E,1,08,0.9,545.4,M,46.9,M,,");
    assert!(ingest(&mut a, &bare[1..]).is_none());
}

#[test]
fn corrupted_sentence_is_ignored_not_panicking() {
    let mut a = UbloxAssembler::new();
    assert!(ingest(&mut a, "$GPGGA,garbage*00").is_none());
}

// ---- backup receiver ----------------------------------------------------------------

#[test]
fn a_fix_line_produces_autonomous_quality() {
    let mut a = SpresenseAssembler::new();
    let line = r#"{"time":"2025-01-04 14:30:52","numSatellites":7,"fix":true,"latitude":13.736717,"longitude":100.523186,"altitude":12.4}"#;
    let fix = ingest_json(&mut a, line).unwrap();
    assert_eq!(fix.fix, FixQuality::Autonomous);
    assert_eq!(fix.sats, 7);
    assert_eq!(f32_of(fix.speed_mps), 0.0);
    assert_eq!(f32_of(fix.course_deg), 0.0);
    assert!(fix.utc_ms > 0);
    assert_eq!(fix.source, GnssSource::Backup);
    assert_eq!(f32_of(fix.h_acc_m), 5.0);
    assert_eq!(fix.utc_ms, 1_736_001_052_000);
}

#[test]
fn a_no_fix_line_produces_none_quality() {
    let mut a = SpresenseAssembler::new();
    let line = r#"{"time":"2025-01-04 14:30:52","numSatellites":0,"fix":false,"latitude":0.0,"longitude":0.0,"altitude":0.0}"#;
    let fix = ingest_json(&mut a, line).unwrap();
    assert_eq!(fix.fix, FixQuality::NoFix);
}

#[test]
fn garbage_line_yields_no_fix() {
    let mut a = SpresenseAssembler::new();
    assert!(ingest_json(&mut a, "not json").is_none());
}

#[test]
fn bad_timestamp_degrades_to_zero_rather_than_dropping_the_fix() {
    let mut a = SpresenseAssembler::new();
    let line = r#"{"time":"garbled","numSatellites":5,"fix":true,"latitude":1.0,"longitude":2.0,"altitude":0.0}"#;
    let fix = ingest_json(&mut a, line).unwrap();
    assert_eq!(fix.utc_ms, 0);
    assert!((f64_of(fix.lat_deg) - 1.0).abs() < 1e-9);
}

#[test]
fn only_whole_time_stamps_give_an_instant() {
    let read = |t: &str| {
        let second = spresense::seconds_text(t).and_then(|s| read64(&s));
        spresense::parse_spresense_datetime(t, second, whole_ms(second))
    };
    assert_eq!(read("2024-01-15 12:30:45"), Some(1_705_321_845_000));
    assert_eq!(read("2024-01-15 12:30:45.25"), Some(1_705_321_845_250));
    for t in [
        "",
        "2024-01-15",
        "2024-1-15 12:30:45",
        "24-01-15 12:30:45",
        "+024-01-15 12:30:45",
        "2024-01-15 12:30:+5",
        "2024-01-15 +2:30:45",
        "2024-01-15 12:30:45 UTC",
        "2024-01-15T12:30:45",
        "2024-02-30 12:30:45",
        "2024-01-15 24:00:00",
        "2024-01-15 12:30:60",
        "1969-12-31 23:59:59",
    ] {
        assert_eq!(read(t), None, "{t}");
    }
}

#[test]
fn parses_a_full_reading() {
    let line = r#"{"time":"2025-01-04 14:30:52","numSatellites":7,"fix":true,"latitude":13.736717,"longitude":100.523186,"altitude":12.4}"#;
    let fix = parse_line(line).unwrap_or_else(|_| panic!("must parse"));
    assert!(fix.fix);
    assert_eq!(fix.num_satellites, 7);
    assert!((f64_of(fix.lat_deg) - 13.736717).abs() < 1e-9);
    assert!((f64_of(fix.lon_deg) - 100.523186).abs() < 1e-9);
    assert!((f32_of(fix.alt_m) - 12.4).abs() < 1e-6);
    assert_eq!(fix.time_str, "2025-01-04 14:30:52");
}

#[test]
fn no_fix_reading() {
    let line = r#"{"time":"2025-01-04 14:30:52","numSatellites":0,"fix":false,"latitude":0.0,"longitude":0.0,"altitude":0.0}"#;
    let fix = parse_line(line).unwrap_or_else(|_| panic!("must parse"));
    assert!(!fix.fix);
}

#[test]
fn field_order_does_not_matter() {
    let line = r#"{"fix":true,"latitude":1.0,"longitude":2.0,"numSatellites":5,"altitude":3.0,"time":"x"}"#;
    let fix = parse_line(line).unwrap_or_else(|_| panic!("must parse"));
    assert!(fix.fix);
    assert!((f64_of(fix.lat_deg) - 1.0).abs() < 1e-9);
}

#[test]
fn missing_required_field_is_an_error() {
    let line = r#"{"numSatellites":7,"latitude":13.7,"longitude":100.5}"#;
    assert_eq!(
        parse_line(line).err(),
        Some(SpresenseParseError::MissingField("fix"))
    );
}

#[test]
fn missing_optional_fields_degrade_to_defaults() {
    let line = r#"{"fix":true,"latitude":13.7,"longitude":100.5}"#;
    let fix = parse_line(line).unwrap_or_else(|_| panic!("must parse"));
    assert_eq!(fix.num_satellites, 0);
    assert_eq!(f32_of(fix.alt_m), 0.0);
    assert_eq!(fix.time_str, "");
}

#[test]
fn garbage_input_is_an_error_not_a_panic() {
    let result = parse_line("not json at all");
    assert!(result.is_err());
}

#[test]
fn bad_fix_value_is_an_error() {
    let line = r#"{"fix":"maybe","latitude":1.0,"longitude":2.0}"#;
    assert_eq!(
        parse_line(line).err(),
        Some(SpresenseParseError::BadValue("fix"))
    );
}

#[test]
fn a_garbled_coordinate_is_a_bad_value() {
    let line = r#"{"fix":true,"latitude":x,"longitude":2.0}"#;
    assert_eq!(
        parse_line(line).err(),
        Some(SpresenseParseError::BadValue("latitude"))
    );
    let line = r#"{"fix":true,"latitude":1.0}"#;
    assert_eq!(
        parse_line(line).err(),
        Some(SpresenseParseError::MissingField("longitude"))
    );
}

// ---- instants ---------------------------------------------------------------------

#[test]
fn epoch_is_zero() {
    assert_eq!(civil(1970, 1, 1, 0, 0, 0.0), Some(0));
}

#[test]
fn known_instant() {
    assert_eq!(civil(2024, 1, 15, 12, 30, 45.0), Some(1_705_321_845_000));
}

#[test]
fn fractional_seconds_round_to_the_nearest_millisecond() {
    let ms = civil(2024, 1, 15, 12, 30, 45.123).unwrap();
    assert_eq!(ms, 1_705_321_845_123);
}

#[test]
fn rejects_out_of_range_components() {
    assert_eq!(civil(2024, 13, 1, 0, 0, 0.0), None);
    assert_eq!(civil(2024, 1, 32, 0, 0, 0.0), None);
    assert_eq!(civil(2024, 1, 1, 24, 0, 0.0), None);
    assert_eq!(civil(2024, 1, 1, 0, 60, 0.0), None);
    assert_eq!(civil(2024, 1, 1, 0, 0, 60.0), None);
}

#[test]
fn rejects_days_that_a_month_does_not_have() {
    assert_eq!(civil(2024, 2, 31, 0, 0, 0.0), None);
    assert_eq!(civil(2024, 2, 30, 0, 0, 0.0), None);
    assert_eq!(civil(2023, 2, 29, 0, 0, 0.0), None);
    assert_eq!(civil(2100, 2, 29, 0, 0, 0.0), None);
    assert!(civil(2000, 2, 29, 0, 0, 0.0).is_some());
    assert_eq!(civil(2024, 4, 31, 0, 0, 0.0), None);
    assert_eq!(civil(2024, 1, 0, 0, 0, 0.0), None);
    assert!(civil(2024, 12, 31, 0, 0, 0.0).is_some());
}

#[test]
fn rejects_pre_epoch_dates() {
    assert_eq!(civil(1969, 12, 31, 23, 59, 59.0), None);
}

#[test]
fn leap_day_is_valid() {
    assert!(civil(2024, 2, 29, 0, 0, 0.0).is_some());
    assert_eq!(
        civil(2024, 3, 1, 0, 0, 0.0).unwrap() - civil(2024, 2, 29, 0, 0, 0.0).unwrap(),
        86_400_000
    );
}

// ---- which fix -----------------------------------------------------------------------

fn fix(quality: FixQuality, sats: u8, lat: f64, lon: f64) -> GnssFix {
    GnssFix {
        lat_deg: r64(lat),
        lon_deg: r64(lon),
        fix: quality,
        sats,
        ..Default::default()
    }
}

#[test]
fn prefers_rtk_when_usable() {
    let rtk = fix(FixQuality::RtkFixed, 12, 1.0, 2.0);
    let backup = fix(FixQuality::Autonomous, 8, 9.0, 9.0);
    assert_eq!(
        select_navigation_fix(&rtk, &backup),
        Some((r64(1.0), r64(2.0)))
    );
}

#[test]
fn falls_back_to_backup_when_rtk_unusable() {
    let rtk = fix(FixQuality::NoFix, 0, 1.0, 2.0);
    let backup = fix(FixQuality::Autonomous, 6, 9.0, 9.0);
    assert_eq!(
        select_navigation_fix(&rtk, &backup),
        Some((r64(9.0), r64(9.0)))
    );
}

#[test]
fn none_when_both_unusable() {
    let rtk = fix(FixQuality::NoFix, 0, 1.0, 2.0);
    let backup = fix(FixQuality::NoFix, 2, 9.0, 9.0);
    assert_eq!(select_navigation_fix(&rtk, &backup), None);
}

#[test]
fn low_satellite_count_is_unusable_even_with_a_fix_type() {
    let rtk = fix(FixQuality::RtkFixed, 3, 1.0, 2.0);
    let backup = fix(FixQuality::Autonomous, 8, 9.0, 9.0);
    assert_eq!(
        select_navigation_fix(&rtk, &backup),
        Some((r64(9.0), r64(9.0)))
    );
}

// ---- mission -----------------------------------------------------------------------

fn haversine_distance_m(a: (f64, f64), b: (f64, f64)) -> f64 {
    let phi1 = a.0.to_radians();
    let phi2 = b.0.to_radians();
    let dphi = (b.0 - a.0).to_radians();
    let dlambda = (b.1 - a.1).to_radians();
    let h = (dphi / 2.0).sin().powi(2) + phi1.cos() * phi2.cos() * (dlambda / 2.0).sin().powi(2);
    6_371_000.0 * 2.0 * h.sqrt().atan2((1.0 - h).sqrt())
}

fn goal(lat: f64, lon: f64) -> MissionGoal {
    MissionGoal {
        lat_deg: r64(lat),
        lon_deg: r64(lon),
    }
}

fn config(arrival_radius_m: f32, preloaded: Option<(f64, f64)>) -> MissionConfig {
    MissionConfig {
        arrival_radius_m: r32(arrival_radius_m),
        preloaded_goal: preloaded.map(|(lat, lon)| goal(lat, lon)),
    }
}

fn update(m: &mut Mission, position: Option<(f64, f64)>) -> rover::msgs::mission::MissionStatus {
    let distance = match (m.goal(), position) {
        (Some(g), Some(p)) => haversine_distance_m(p, (f64_of(g.lat_deg), f64_of(g.lon_deg))) as f32,
        _ => 0.0,
    };
    m.update(
        position.map(|(lat, lon)| (r64(lat), r64(lon))),
        r32(distance),
    )
}

#[test]
fn starts_idle_with_no_preloaded_goal() {
    let m = Mission::new(&config(2.0, None));
    assert_eq!(m.state(), MissionState::Idle);
    assert_eq!(m.goal(), None);
}

#[test]
fn preloaded_goal_arms_with_no_command_and_no_base_station() {
    let m = Mission::new(&config(2.0, Some((13.7, 100.5))));
    assert_eq!(m.state(), MissionState::Armed);
    assert_eq!(m.goal(), Some(goal(13.7, 100.5)));
}

#[test]
fn armed_moves_to_running_once_position_is_available() {
    let mut m = Mission::new(&config(2.0, Some((0.0, 0.0))));
    let status = update(&mut m, Some((0.0, 0.0)));
    assert_eq!(m.state(), MissionState::Running);
    assert!(status.active);
}

#[test]
fn armed_stays_armed_without_a_usable_fix() {
    let mut m = Mission::new(&config(2.0, Some((0.0, 0.0))));
    let status = update(&mut m, None);
    assert_eq!(m.state(), MissionState::Armed);
    assert!(!status.active, "must not be permitted to drive yet");
}

#[test]
fn idle_stays_idle_even_with_a_usable_fix() {
    let mut m = Mission::new(&config(2.0, None));
    let status = update(&mut m, Some((0.0, 0.0)));
    assert_eq!(m.state(), MissionState::Idle);
    assert!(!status.active);
}

#[test]
fn arrives_within_the_configured_radius() {
    let mut m = Mission::new(&config(5.0, Some((13.736717, 100.523186))));
    update(&mut m, Some((13.736717, 100.523186)));
    let status = update(&mut m, Some((13.736735, 100.523186)));
    assert_eq!(m.state(), MissionState::Arrived);
    assert!(!status.active, "arrival must stop the drive permission");
}

#[test]
fn keeps_running_outside_the_arrival_radius() {
    let mut m = Mission::new(&config(2.0, Some((13.736717, 100.523186))));
    update(&mut m, Some((13.736717, 100.523186)));
    let status = update(&mut m, Some((13.746717, 100.523186)));
    assert_eq!(m.state(), MissionState::Running);
    assert!(status.active);
    assert!(f32_of(status.distance_remaining_m) > 1000.0);
}

#[test]
fn distance_holds_its_last_value_through_a_gnss_gap() {
    let mut m = Mission::new(&config(2.0, Some((13.736717, 100.523186))));
    update(&mut m, Some((13.736717, 100.523186)));
    let first = update(&mut m, Some((13.746717, 100.523186)));
    let second = update(&mut m, None);
    assert_eq!(second.distance_remaining_m, first.distance_remaining_m);
    assert_eq!(m.state(), MissionState::Running, "must not snap to Arrived");
}

#[test]
fn cancel_mission_clears_the_goal_and_stops() {
    let mut m = Mission::new(&config(2.0, Some((13.736717, 100.523186))));
    update(&mut m, Some((13.736717, 100.523186)));
    m.apply_command(Command::CancelMission);
    assert_eq!(m.state(), MissionState::Cancelled);
    assert_eq!(m.goal(), None);
    let status = update(&mut m, Some((13.736717, 100.523186)));
    assert!(!status.active);
}

#[test]
fn estop_halts_into_fault_regardless_of_state() {
    let mut m = Mission::new(&config(2.0, Some((13.736717, 100.523186))));
    update(&mut m, Some((13.736717, 100.523186)));
    m.apply_command(Command::EStop);
    assert_eq!(m.state(), MissionState::Fault);
    let status = update(&mut m, Some((13.736717, 100.523186)));
    assert!(
        !status.active,
        "a faulted mission must never grant drive permission"
    );
}

#[test]
fn a_new_goal_re_arms_out_of_fault() {
    let mut m = Mission::new(&config(2.0, Some((13.736717, 100.523186))));
    m.apply_command(Command::EStop);
    assert_eq!(m.state(), MissionState::Fault);

    m.apply_command(Command::SetMissionGoal(goal(1.0, 2.0)));
    assert_eq!(m.state(), MissionState::Armed);
    assert_eq!(m.goal(), Some(goal(1.0, 2.0)));
}

#[test]
fn a_new_goal_re_arms_out_of_cancelled() {
    let mut m = Mission::new(&config(2.0, None));
    m.apply_command(Command::CancelMission);
    assert_eq!(m.state(), MissionState::Cancelled);

    m.apply_command(Command::SetMissionGoal(goal(1.0, 2.0)));
    assert_eq!(m.state(), MissionState::Armed);
}

#[test]
fn speed_limit_and_nop_do_not_change_mission_state() {
    let mut m = Mission::new(&config(2.0, Some((13.736717, 100.523186))));
    update(&mut m, Some((13.736717, 100.523186)));
    m.apply_command(Command::SetSpeedLimit(50));
    m.apply_command(Command::Nop);
    assert_eq!(m.state(), MissionState::Running);
}

#[test]
fn clear_estop_does_not_change_mission_state() {
    let mut m = Mission::new(&config(2.0, Some((13.736717, 100.523186))));
    m.apply_command(Command::EStop);
    assert_eq!(m.state(), MissionState::Fault);
    m.apply_command(Command::ClearEStop);
    assert_eq!(m.state(), MissionState::Fault);
}

#[test]
fn arrived_does_not_resume_running_on_its_own() {
    let mut m = Mission::new(&config(5.0, Some((13.736717, 100.523186))));
    update(&mut m, Some((13.736717, 100.523186)));
    update(&mut m, Some((13.736717, 100.523186)));
    assert_eq!(m.state(), MissionState::Arrived);
    let status = update(&mut m, Some((13.746717, 100.523186)));
    assert_eq!(m.state(), MissionState::Arrived);
    assert!(!status.active);
}

#[test]
fn a_goal_without_any_uplink_is_reached() {
    let mut m = Mission::new(&config(2.0, Some((13.736717, 100.523186))));
    update(&mut m, Some((13.746717, 100.523186)));
    update(&mut m, Some((13.741717, 100.523186)));
    assert_eq!(m.state(), MissionState::Running);
    update(&mut m, Some((13.736717, 100.523186)));
    assert_eq!(m.state(), MissionState::Arrived);
}

#[test]
fn empty_preloaded_goal_is_none() {
    let cfg = MissionConfig::parse(r32(2.0), &vec![]).unwrap();
    assert_eq!(f32_of(cfg.arrival_radius_m), 2.0);
    assert_eq!(cfg.preloaded_goal, None);
}

#[test]
fn a_two_element_preloaded_goal_is_parsed() {
    let cfg = MissionConfig::parse(r32(3.5), &vec![r64(13.736717), r64(100.523186)]).unwrap();
    assert_eq!(f32_of(cfg.arrival_radius_m), 3.5);
    assert_eq!(cfg.preloaded_goal, Some(goal(13.736717, 100.523186)));
}

#[test]
fn wrong_length_preloaded_goal_is_rejected() {
    let err = MissionConfig::parse(r32(2.0), &vec![r64(1.0), r64(2.0), r64(3.0)]).unwrap_err();
    assert!(matches!(err, MissionConfigError::BadPreloadedGoal(3)));
    assert_eq!(
        err.message(),
        "[mission] preloaded_goal must be empty or exactly [lat, lon], got 3 element(s)"
    );
}

// ---- corrections -------------------------------------------------------------------

#[test]
fn bytes_pass_through_unchanged() {
    let mut sink: Vec<u8> = Vec::new();
    let rtcm = [0xD3, 0x00, 0x13, 0xAA, 0xBB, 0xCC];
    inject_rtcm(&mut sink, &rtcm);
    assert_eq!(sink, rtcm);
}

#[test]
fn empty_input_is_a_no_op() {
    let mut sink: Vec<u8> = Vec::new();
    inject_rtcm(&mut sink, &[]);
    assert!(sink.is_empty());
}
