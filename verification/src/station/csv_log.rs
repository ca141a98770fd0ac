//! The log of received telemetry.

use crate::csv;
use crate::csv::Row;
use crate::msgs::telemetry::Telemetry;
use crate::text;
use vstd::prelude::*;

verus! {

/// The log's name within the directory of a run.
pub const FILENAME: &'static str = "ground_station_telemetry.csv";

pub const HEADER: &'static str =
    "Timestamp_us,Seq,Rtk_Lat,Rtk_Lon,Rtk_Fix,Rtk_Sats,Backup_Lat,Backup_Lon,Backup_Fix,Speed_mps,Mission_State,Mission_Active,Distance_Remaining_m,Bus_Volts,Current_A,Last_Cmd_Seq,Health_Bits\n";

/// The fractions of a row.
pub struct TelemetryTexts {
    pub rtk_lat: String,
    pub rtk_lon: String,
    pub backup_lat: String,
    pub backup_lon: String,
    pub speed: String,
    pub distance: String,
    pub volts: String,
    pub amps: String,
}

/// The columns of a row.
pub open spec fn columns(timestamp_us: u64, t: Telemetry, shown: TelemetryTexts) -> Seq<Seq<char>> {
    seq![
        text::dec(timestamp_us as nat),
        text::dec(t.seq as nat),
        shown.rtk_lat@,
        shown.rtk_lon@,
        t.rtk.fix.label()@,
        text::dec(t.rtk.sats as nat),
        shown.backup_lat@,
        shown.backup_lon@,
        t.backup.fix.label()@,
        shown.speed@,
        t.mission.state.label()@,
        text::bool_text(t.mission.active)@,
        shown.distance@,
        shown.volts@,
        shown.amps@,
        text::dec(t.last_cmd_seq as nat),
        text::dec(t.health.0 as nat),
    ]
}

/// A row of received telemetry, under the time at which the base received it.
pub fn format_row(timestamp_us: u64, t: &Telemetry, shown: &TelemetryTexts) -> (r: String)
    ensures
        r@ == csv::row(columns(timestamp_us, *t, *shown)),
{
    let mut row = Row::at(timestamp_us);
    row.number(t.seq as u64);
    row.text(shown.rtk_lat.as_str());
    row.text(shown.rtk_lon.as_str());
    row.text(t.rtk.fix.name());
    row.number(t.rtk.sats as u64);
    row.text(shown.backup_lat.as_str());
    row.text(shown.backup_lon.as_str());
    row.text(t.backup.fix.name());
    row.text(shown.speed.as_str());
    row.text(t.mission.state.name());
    row.truth(t.mission.active);
    row.text(shown.distance.as_str());
    row.text(shown.volts.as_str());
    row.text(shown.amps.as_str());
    row.number(t.last_cmd_seq as u64);
    row.number(t.health.0 as u64);
    assert(row@ =~= columns(timestamp_us, *t, *shown));
    row.finish()
}

/// Each column of a row, in the order of the header.
pub proof fn law_columns(timestamp_us: u64, t: Telemetry, shown: TelemetryTexts)
    ensures
        ({
            let cols = columns(timestamp_us, t, shown);
            &&& cols.len() == 17
            &&& cols[0] == text::dec(timestamp_us as nat)
            &&& cols[1] == text::dec(t.seq as nat)
            &&& cols[2] == shown.rtk_lat@
            &&& cols[3] == shown.rtk_lon@
            &&& cols[4] == t.rtk.fix.label()@
            &&& cols[5] == text::dec(t.rtk.sats as nat)
            &&& cols[6] == shown.backup_lat@
            &&& cols[7] == shown.backup_lon@
            &&& cols[8] == t.backup.fix.label()@
            &&& cols[9] == shown.speed@
            &&& cols[10] == t.mission.state.label()@
            &&& cols[11] == text::bool_text(t.mission.active)@
            &&& cols[12] == shown.distance@
            &&& cols[13] == shown.volts@
            &&& cols[14] == shown.amps@
            &&& cols[15] == text::dec(t.last_cmd_seq as nat)
            &&& cols[16] == text::dec(t.health.0 as nat)
        }),
{
}

} // verus!
