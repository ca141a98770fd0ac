//! From complete lines to fixes, one assembler for each receiver.

use crate::calendar;
use crate::msgs::gnss::GnssFix;
use crate::msgs::kinds::{FixQuality, GnssSource};
use crate::nav::nmea;
use crate::nav::nmea::{Gga, GgaNumbers, Rmc, RmcNumbers};
use crate::nav::spresense;
use crate::nav::spresense::{SpresenseNumbers, SpresenseView};
use crate::reals::{Real32, Real64};
use crate::text;
use vstd::prelude::*;

verus! {

/// The pattern of `5.0`: the accuracy, in metres, reported for the backup
/// receiver, which has no estimate of its own.
pub const SPRESENSE_H_ACC_PLACEHOLDER_M: u32 = 0x40a0_0000;

/// The fix of a receiver that has reported nothing.
pub open spec fn blank(source: GnssSource) -> GnssFix {
    GnssFix {
        lat_deg: Real64(0),
        lon_deg: Real64(0),
        alt_m: Real32(0),
        fix: FixQuality::NoFix,
        sats: 0,
        h_acc_m: Real32(0),
        speed_mps: Real32(0),
        course_deg: Real32(0),
        utc_ms: 0,
        source,
    }
}

pub fn blank_fix(source: GnssSource) -> (f: GnssFix)
    ensures
        f == blank(source),
{
    GnssFix {
        lat_deg: Real64(0),
        lon_deg: Real64(0),
        alt_m: Real32(0),
        fix: FixQuality::NoFix,
        sats: 0,
        h_acc_m: Real32(0),
        speed_mps: Real32(0),
        course_deg: Real32(0),
        utc_ms: 0,
        source,
    }
}

/// What the fractions of a sentence read, whichever type it is.
#[derive(Clone, Copy, Debug, PartialEq, Eq, Structural)]
pub struct UbloxNumbers {
    pub gga: GgaNumbers,
    pub rmc: RmcNumbers,
    /// The speed of an `RMC` sentence, in metres per second.
    pub speed_mps: Real32,
    /// The seconds of a `GGA` sentence, in whole milliseconds.
    pub second_ms: u64,
}

/// Assembles the sentences of the primary receiver. A fix comes with every
/// accepted `GGA` sentence; an `RMC` sentence only brings the date, and speed
/// and course where it vouches for them.
#[derive(Clone, Copy, Debug)]
pub struct UbloxAssembler {
    pub fix: GnssFix,
    pub date: Option<(i32, u32, u32)>,
}

impl UbloxAssembler {
    pub fn new() -> (a: Self)
        ensures
            a.fix == blank(GnssSource::Rtk),
            a.date is None,
    {
        UbloxAssembler { fix: blank_fix(GnssSource::Rtk), date: None }
    }

    /// What an `RMC` sentence changes.
    pub open spec fn dated(self, rmc: Rmc, speed_mps: Real32) -> UbloxAssembler {
        UbloxAssembler {
            date: Some((rmc.year, rmc.month, rmc.day)),
            fix: if rmc.status == 'A' {
                GnssFix { speed_mps, course_deg: rmc.course_deg, ..self.fix }
            } else {
                self.fix
            },
        }
    }

    /// The instant of a `GGA` sentence; zero without a date, or with a garbled
    /// one.
    pub open spec fn instant(self, gga: Gga, second_ms: int) -> u64 {
        match self.date {
            None => 0,
            Some((y, m, d)) => match calendar::instant(
                y as int,
                m as int,
                d as int,
                gga.hour as int,
                gga.minute as int,
                gga.second,
                second_ms,
            ) {
                None => 0,
                Some(ms) => ms,
            },
        }
    }

    /// What a `GGA` sentence changes. A position is kept until the next.
    pub open spec fn placed(self, gga: Gga, second_ms: int) -> UbloxAssembler {
        UbloxAssembler {
            fix: GnssFix {
                lat_deg: match gga.lat_deg {
                    Some(v) => v,
                    None => self.fix.lat_deg,
                },
                lon_deg: match gga.lon_deg {
                    Some(v) => v,
                    None => self.fix.lon_deg,
                },
                alt_m: gga.alt_m,
                fix: gga.fix,
                sats: gga.sats,
                h_acc_m: gga.h_acc_m,
                utc_ms: self.instant(gga, second_ms),
                ..self.fix
            },
            ..self
        }
    }

    /// What a line makes of the assembler, and the fix that it brings.
    pub open spec fn ingested(self, line: Seq<char>, n: UbloxNumbers) -> (
        UbloxAssembler,
        Option<GnssFix>,
    ) {
        if line.len() == 0 || line[0] != '$' {
            (self, None)
        } else {
            match (nmea::read_rmc(line, n.rmc), nmea::read_gga(line, n.gga)) {
                (Ok(rmc), _) => (self.dated(rmc, n.speed_mps), None),
                (_, Ok(gga)) => {
                    let next = self.placed(gga, n.second_ms as int);
                    (next, Some(next.fix))
                },
                _ => (self, None),
            }
        }
    }

    /// Feed one complete line. Anything that is no sentence, and every sentence
    /// that does not parse, is skipped.
    pub fn ingest(&mut self, line: &str, n: &UbloxNumbers) -> (r: Option<GnssFix>)
        requires
            n.second_ms <= 60_000,
        ensures
            *final(self) == old(self).ingested(line@, *n).0,
            r == old(self).ingested(line@, *n).1,
    {
        let chars = text::chars_of(line);
        if chars.len() == 0 || chars[0] != '$' {
            return None;
        }
        if let Ok(rmc) = nmea::parse_rmc(line, &n.rmc) {
            self.date = Some((rmc.year, rmc.month, rmc.day));
            if rmc.status == 'A' {
                self.fix.speed_mps = n.speed_mps;
                self.fix.course_deg = rmc.course_deg;
            }
            return None;
        }
        if let Ok(gga) = nmea::parse_gga(line, &n.gga) {
            if let Some(lat) = gga.lat_deg {
                self.fix.lat_deg = lat;
            }
            if let Some(lon) = gga.lon_deg {
                self.fix.lon_deg = lon;
            }
            self.fix.alt_m = gga.alt_m;
            self.fix.fix = gga.fix;
            self.fix.sats = gga.sats;
            self.fix.h_acc_m = gga.h_acc_m;
            let utc_ms: u64 = match self.date {
                None => 0,
                Some((y, m, d)) => match calendar::civil_to_unix_ms(
                    y,
                    m,
                    d,
                    gga.hour,
                    gga.minute,
                    gga.second,
                    n.second_ms,
                ) {
                    None => 0,
                    Some(ms) => ms,
                },
            };
            self.fix.utc_ms = utc_ms;
            return Some(self.fix);
        }
        None
    }
}

/// Assembles the lines of the backup receiver. Every line is a complete
/// reading.
#[derive(Clone, Copy, Debug)]
pub struct SpresenseAssembler {}

/// The fix of a line of the backup receiver. Its quality is never better than
/// autonomous, and it has neither speed nor course.
pub open spec fn backup_fix(v: SpresenseView, n: SpresenseNumbers) -> GnssFix {
    GnssFix {
        lat_deg: v.lat_deg,
        lon_deg: v.lon_deg,
        alt_m: v.alt_m,
        fix: if v.fix {
            FixQuality::Autonomous
        } else {
            FixQuality::NoFix
        },
        sats: v.num_satellites,
        h_acc_m: Real32(SPRESENSE_H_ACC_PLACEHOLDER_M),
        speed_mps: Real32(0),
        course_deg: Real32(0),
        utc_ms: match spresense::stamp(v.time, n.second, n.second_ms as int) {
            None => 0,
            Some(ms) => ms,
        },
        source: GnssSource::Backup,
    }
}

/// The fix that a line brings, if it can be read.
pub open spec fn backup_reading(line: Seq<char>, n: SpresenseNumbers) -> Option<GnssFix> {
    match spresense::read_line(line, n) {
        Err(_) => None,
        Ok(v) => Some(backup_fix(v, n)),
    }
}

impl SpresenseAssembler {
    pub fn new() -> (a: Self)
        ensures
            a == (SpresenseAssembler {  }),
    {
        SpresenseAssembler {  }
    }

    /// Feed one complete line. A garbled time stamp leaves the time at zero
    /// rather than dropping the fix.
    pub fn ingest(&mut self, line: &str, n: &SpresenseNumbers) -> (r: Option<GnssFix>)
        requires
            n.second_ms <= 60_000,
        ensures
            *final(self) == *old(self),
            r == backup_reading(line@, *n),
    {
        match spresense::parse_line(line, n) {
            Err(_) => None,
            Ok(parsed) => {
                let utc_ms: u64 = match spresense::parse_spresense_datetime(
                    parsed.time_str.as_str(),
                    n.second,
                    n.second_ms,
                ) {
                    None => 0,
                    Some(ms) => ms,
                };
                Some(
                    GnssFix {
                        lat_deg: parsed.lat_deg,
                        lon_deg: parsed.lon_deg,
                        alt_m: parsed.alt_m,
                        fix: if parsed.fix {
                            FixQuality::Autonomous
                        } else {
                            FixQuality::NoFix
                        },
                        sats: parsed.num_satellites,
                        h_acc_m: Real32(SPRESENSE_H_ACC_PLACEHOLDER_M),
                        speed_mps: Real32(0),
                        course_deg: Real32(0),
                        utc_ms,
                        source: GnssSource::Backup,
                    },
                )
            },
        }
    }
}

/// A fix always says which receiver it came from: each assembler keeps to its
/// own.
pub proof fn law_sources_stay_apart(
    a: UbloxAssembler,
    rmc: Rmc,
    gga: Gga,
    speed_mps: Real32,
    second_ms: int,
    v: SpresenseView,
    n: SpresenseNumbers,
)
    requires
        a.fix.source == GnssSource::Rtk,
    ensures
        a.dated(rmc, speed_mps).fix.source == GnssSource::Rtk,
        a.placed(gga, second_ms).fix.source == GnssSource::Rtk,
        backup_fix(v, n).source == GnssSource::Backup,
        backup_fix(v, n).fix != FixQuality::Dgps,
        !backup_fix(v, n).fix.rtk(),
{
}

/// A position is held over sentences that have none, and an unvouched `RMC`
/// sentence changes nothing of the fix.
pub proof fn law_nothing_is_lost(
    a: UbloxAssembler,
    rmc: Rmc,
    gga: Gga,
    speed_mps: Real32,
    second_ms: int,
)
    ensures
        gga.lat_deg is None ==> a.placed(gga, second_ms).fix.lat_deg == a.fix.lat_deg,
        gga.lon_deg is None ==> a.placed(gga, second_ms).fix.lon_deg == a.fix.lon_deg,
        a.placed(gga, second_ms).fix.fix == gga.fix,
        rmc.status != 'A' ==> a.dated(rmc, speed_mps).fix == a.fix,
{
}

/// A fix holds what its sentence says: its latitude and longitude, each where
/// the sentence has one, and its altitude, quality, satellites and accuracy.
/// Speed and course are those that the sentences before it vouched for.
pub proof fn law_fix_is_what_the_sentence_says(
    a: UbloxAssembler,
    line: Seq<char>,
    n: UbloxNumbers,
    gga: Gga,
)
    requires
        line.len() > 0 && line[0] == '$',
        nmea::read_gga(line, n.gga) == Ok::<Gga, nmea::NmeaError>(gga),
        nmea::read_rmc(line, n.rmc) is Err,
    ensures
        a.ingested(line, n).1 matches Some(f) && {
            &&& gga.lat_deg matches Some(v) ==> f.lat_deg == v
            &&& gga.lon_deg matches Some(v) ==> f.lon_deg == v
            &&& gga.lat_deg is None ==> f.lat_deg == a.fix.lat_deg
            &&& gga.lon_deg is None ==> f.lon_deg == a.fix.lon_deg
            &&& f.alt_m == gga.alt_m
            &&& f.fix == gga.fix
            &&& f.sats == gga.sats
            &&& f.h_acc_m == gga.h_acc_m
            &&& f.speed_mps == a.fix.speed_mps
            &&& f.course_deg == a.fix.course_deg
            &&& f.source == a.fix.source
            &&& a.ingested(line, n).0.fix == f
            &&& a.ingested(line, n).0.date == a.date
        },
{
}

/// A sentence with a date sets it, and brings speed and course exactly if it
/// vouches for them. It moves no position, and brings no fix of its own.
pub proof fn law_dates_are_set(a: UbloxAssembler, line: Seq<char>, n: UbloxNumbers, rmc: Rmc)
    requires
        line.len() > 0 && line[0] == '$',
        nmea::read_rmc(line, n.rmc) == Ok::<Rmc, nmea::NmeaError>(rmc),
    ensures
        ({
            let next = a.ingested(line, n).0;
            &&& a.ingested(line, n).1 is None
            &&& next.date matches Some((y, m, d)) && y == rmc.year && m == rmc.month && d == rmc.day
            &&& rmc.status == 'A' ==> next.fix.speed_mps == n.speed_mps && next.fix.course_deg
                == rmc.course_deg
            &&& rmc.status != 'A' ==> next.fix.speed_mps == a.fix.speed_mps && next.fix.course_deg
                == a.fix.course_deg
            &&& next.fix.lat_deg == a.fix.lat_deg && next.fix.lon_deg == a.fix.lon_deg
            &&& next.fix.alt_m == a.fix.alt_m && next.fix.fix == a.fix.fix && next.fix.sats
                == a.fix.sats && next.fix.h_acc_m == a.fix.h_acc_m && next.fix.utc_ms == a.fix.utc_ms
                && next.fix.source == a.fix.source
        }),
{
}

/// The time of a fix is the day of the last date together with the time of day
/// of its own sentence, and zero before there was a date.
pub proof fn law_fixes_are_dated(a: UbloxAssembler, gga: Gga, second_ms: int)
    ensures
        a.date is None ==> a.placed(gga, second_ms).fix.utc_ms == 0,
        a.date matches Some((y, m, d)) ==> (match calendar::instant(
            y as int,
            m as int,
            d as int,
            gga.hour as int,
            gga.minute as int,
            gga.second,
            second_ms,
        ) {
            Some(ms) => a.placed(gga, second_ms).fix.utc_ms == ms,
            None => a.placed(gga, second_ms).fix.utc_ms == 0,
        }),
{
}

/// A line that is no sentence of either kind changes nothing and brings nothing;
/// so does every line without the dollar sign.
pub proof fn law_noise_is_skipped(a: UbloxAssembler, line: Seq<char>, n: UbloxNumbers)
    requires
        line.len() == 0 || line[0] != '$' || (nmea::read_rmc(line, n.rmc) is Err && nmea::read_gga(
            line,
            n.gga,
        ) is Err),
    ensures
        a.ingested(line, n).0 == a,
        a.ingested(line, n).1 is None,
{
}

/// A fix of the backup receiver holds what its line says; where that has no fix,
/// the quality says so.
pub proof fn law_backup_fix_is_what_the_line_says(v: SpresenseView, n: SpresenseNumbers)
    ensures
        ({
            let f = backup_fix(v, n);
            &&& f.lat_deg == v.lat_deg && f.lon_deg == v.lon_deg && f.alt_m == v.alt_m
            &&& f.sats == v.num_satellites
            &&& v.fix ==> f.fix is Autonomous
            &&& !v.fix ==> f.fix is NoFix
            &&& f.speed_mps == Real32(0) && f.course_deg == Real32(0)
            &&& f.h_acc_m == Real32::whole(5)
            &&& spresense::stamp(v.time, n.second, n.second_ms as int) matches Some(ms) ==> f.utc_ms
                == ms
            &&& spresense::stamp(v.time, n.second, n.second_ms as int) is None ==> f.utc_ms == 0
        }),
{
}

/// Every line that can be read brings a fix, and no other does: the latitude and
/// the longitude are the ones read, whether or not there is a fix to vouch for
/// them.
pub proof fn law_backup_readings(line: Seq<char>, n: SpresenseNumbers)
    ensures
        backup_reading(line, n) is Some <==> spresense::read_line(line, n) is Ok,
        backup_reading(line, n) matches Some(f) ==> {
            &&& n.lat_deg == Some(f.lat_deg)
            &&& n.lon_deg == Some(f.lon_deg)
            &&& f.source is Backup
            &&& spresense::read_line(line, n) matches Ok(v) && f.sats == v.num_satellites && (f.fix
                is Autonomous <==> v.fix) && (f.fix is NoFix <==> !v.fix) && f.alt_m == v.alt_m
        },
{
    spresense::law_readings(line, n);
}

} // verus!
