//! One row format for each logged stream.
//!
//! Columns that hold fractions come as texts, each under its own name.

use crate::csv;
use crate::csv::Row;
use crate::msgs::boards::ChassisStatus;
use crate::msgs::gnss::GnssFix;
use crate::msgs::mission::MissionStatus;
use crate::msgs::motion::RoverState;
use crate::text;
use vstd::prelude::*;

verus! {

pub const ROVER_STATE_HEADER: &'static str =
    "Timestamp_us,Cross_Track_m,Heading_Err_rad,Curvature_inv_m,Speed_mps,Gyro_Bias_radps,P_CrossTrack,P_Heading,P_Curvature,P_Speed,P_GyroBias,Lane_Age_ms\n";

pub const MISSION_STATUS_HEADER: &'static str =
    "Timestamp_us,Active,Distance_Remaining_m,Target_Lat,Target_Lon,State\n";

pub const POWER_HEADER: &'static str = "Timestamp_us,Bus_Volts,Current_A,Power_W\n";

pub const GNSS_HEADER: &'static str =
    "Timestamp_us,Lat_deg,Lon_deg,Alt_m,Fix_Quality,Satellites,H_Acc_m,Speed_mps,Course_deg,Utc_ms\n";

pub const CHASSIS_STATUS_HEADER: &'static str =
    "Timestamp_us,Seq_Echo,Watchdog_Tripped,Fault_Bits,Board_t_us\n";

pub const SPEED_LOOP_DEBUG_HEADER: &'static str =
    "Timestamp_us,Measured_Left_TPS,Measured_Right_TPS,Target_TPS,Error_Pct,PID_Output_Pct\n";

/// The fractions of the estimate: the states and their variances.
pub struct StateTexts {
    pub cross_track: String,
    pub heading_err: String,
    pub curvature: String,
    pub speed: String,
    pub gyro_bias: String,
    pub p_cross_track: String,
    pub p_heading: String,
    pub p_curvature: String,
    pub p_speed: String,
    pub p_gyro_bias: String,
}

/// The columns of that row.
pub open spec fn state_columns(timestamp_us: u64, s: RoverState, shown: StateTexts) -> Seq<Seq<char>> {
    seq![
        text::dec(timestamp_us as nat),
        shown.cross_track@,
        shown.heading_err@,
        shown.curvature@,
        shown.speed@,
        shown.gyro_bias@,
        shown.p_cross_track@,
        shown.p_heading@,
        shown.p_curvature@,
        shown.p_speed@,
        shown.p_gyro_bias@,
        text::dec(s.lane_age_ms as nat),
    ]
}

/// A row of the estimate.
pub fn format_rover_state_row(timestamp_us: u64, s: &RoverState, shown: &StateTexts) -> (r: String)
    ensures
        r@ == csv::row(state_columns(timestamp_us, *s, *shown)),
{
    let mut row = Row::at(timestamp_us);
    row.text(shown.cross_track.as_str());
    row.text(shown.heading_err.as_str());
    row.text(shown.curvature.as_str());
    row.text(shown.speed.as_str());
    row.text(shown.gyro_bias.as_str());
    row.text(shown.p_cross_track.as_str());
    row.text(shown.p_heading.as_str());
    row.text(shown.p_curvature.as_str());
    row.text(shown.p_speed.as_str());
    row.text(shown.p_gyro_bias.as_str());
    row.number(s.lane_age_ms as u64);
    assert(row@ =~= state_columns(timestamp_us, *s, *shown));
    row.finish()
}

/// The fractions of a mission's progress.
pub struct MissionTexts {
    pub distance: String,
    /// The goal's coordinates, if there is a goal.
    pub lat: String,
    pub lon: String,
}

/// The columns of that row.
pub open spec fn mission_columns(timestamp_us: u64, m: MissionStatus, shown: MissionTexts) -> Seq<Seq<char>> {
    seq![
        text::dec(timestamp_us as nat),
        text::bool_text(m.active)@,
        shown.distance@,
        if m.target is Some {
            shown.lat@
        } else {
            "0"@
        },
        if m.target is Some {
            shown.lon@
        } else {
            "0"@
        },
        m.state.label()@,
    ]
}

/// A row of the mission's progress. Without a goal its coordinates read zero.
pub fn format_mission_status_row(timestamp_us: u64, m: &MissionStatus, shown: &MissionTexts) -> (r:
    String)
    ensures
        r@ == csv::row(mission_columns(timestamp_us, *m, *shown)),
{
    let mut row = Row::at(timestamp_us);
    row.truth(m.active);
    row.text(shown.distance.as_str());
    match m.target {
        Some(_) => {
            row.text(shown.lat.as_str());
            row.text(shown.lon.as_str());
        },
        None => {
            row.text("0");
            row.text("0");
        },
    }
    row.text(m.state.name());
    assert(row@ =~= mission_columns(timestamp_us, *m, *shown));
    row.finish()
}

/// The fractions of a power sample.
pub struct PowerTexts {
    pub volts: String,
    pub amps: String,
    pub watts: String,
}

/// The columns of that row.
pub open spec fn power_columns(timestamp_us: u64, shown: PowerTexts) -> Seq<Seq<char>> {
    seq![
        text::dec(timestamp_us as nat),
        shown.volts@,
        shown.amps@,
        shown.watts@,
    ]
}

/// A row of a power sample.
pub fn format_power_row(timestamp_us: u64, shown: &PowerTexts) -> (r: String)
    ensures
        r@ == csv::row(power_columns(timestamp_us, *shown)),
{
    let mut row = Row::at(timestamp_us);
    row.text(shown.volts.as_str());
    row.text(shown.amps.as_str());
    row.text(shown.watts.as_str());
    assert(row@ =~= power_columns(timestamp_us, *shown));
    row.finish()
}

/// The fractions of a fix.
pub struct FixTexts {
    pub lat: String,
    pub lon: String,
    pub alt: String,
    pub h_acc: String,
    pub speed: String,
    pub course: String,
}

/// The columns of that row.
pub open spec fn fix_columns(timestamp_us: u64, f: GnssFix, shown: FixTexts) -> Seq<Seq<char>> {
    seq![
        text::dec(timestamp_us as nat),
        shown.lat@,
        shown.lon@,
        shown.alt@,
        f.fix.label()@,
        text::dec(f.sats as nat),
        shown.h_acc@,
        shown.speed@,
        shown.course@,
        text::dec(f.utc_ms as nat),
    ]
}

/// A row of a fix.
pub fn format_gnss_row(timestamp_us: u64, f: &GnssFix, shown: &FixTexts) -> (r: String)
    ensures
        r@ == csv::row(fix_columns(timestamp_us, *f, *shown)),
{
    let mut row = Row::at(timestamp_us);
    row.text(shown.lat.as_str());
    row.text(shown.lon.as_str());
    row.text(shown.alt.as_str());
    row.text(f.fix.name());
    row.number(f.sats as u64);
    row.text(shown.h_acc.as_str());
    row.text(shown.speed.as_str());
    row.text(shown.course.as_str());
    row.number(f.utc_ms);
    assert(row@ =~= fix_columns(timestamp_us, *f, *shown));
    row.finish()
}

/// The columns of that row.
pub open spec fn chassis_columns(timestamp_us: u64, c: ChassisStatus) -> Seq<Seq<char>> {
    seq![
        text::dec(timestamp_us as nat),
        text::dec(c.seq_echo as nat),
        text::bool_text(c.watchdog_tripped)@,
        text::dec(c.fault.0 as nat),
        text::dec(c.t_us as nat),
    ]
}

/// A row of a chassis status, with the fault flags as one number.
pub fn format_chassis_status_row(timestamp_us: u64, c: &ChassisStatus) -> (r: String)
    ensures
        r@ == csv::row(chassis_columns(timestamp_us, *c)),
{
    let mut row = Row::at(timestamp_us);
    row.number(c.seq_echo as u64);
    row.truth(c.watchdog_tripped);
    row.number(c.fault.0 as u64);
    row.number(c.t_us as u64);
    assert(row@ =~= chassis_columns(timestamp_us, *c));
    row.finish()
}

/// The fractions of the speed loop: ticks per second and percentages.
pub struct SpeedLoopTexts {
    pub measured_left: String,
    pub measured_right: String,
    pub target: String,
    pub error: String,
    pub output: String,
}

/// The columns of that row.
pub open spec fn speed_loop_columns(timestamp_us: u64, shown: SpeedLoopTexts) -> Seq<Seq<char>> {
    seq![
        text::dec(timestamp_us as nat),
        shown.measured_left@,
        shown.measured_right@,
        shown.target@,
        shown.error@,
        shown.output@,
    ]
}

/// A row of the speed loop.
pub fn format_speed_loop_debug_row(timestamp_us: u64, shown: &SpeedLoopTexts) -> (r: String)
    ensures
        r@ == csv::row(speed_loop_columns(timestamp_us, *shown)),
{
    let mut row = Row::at(timestamp_us);
    row.text(shown.measured_left.as_str());
    row.text(shown.measured_right.as_str());
    row.text(shown.target.as_str());
    row.text(shown.error.as_str());
    row.text(shown.output.as_str());
    assert(row@ =~= speed_loop_columns(timestamp_us, *shown));
    row.finish()
}

/// A row of the estimate: the time, the five states, their variances in the same
/// order, and the age of the lane.
pub proof fn law_state_rows(timestamp_us: u64, s: RoverState, shown: StateTexts)
    ensures
        ({
            let cols = state_columns(timestamp_us, s, shown);
            &&& cols.len() == 12
            &&& cols[0] == text::dec(timestamp_us as nat)
            &&& cols[1] == shown.cross_track@
            &&& cols[2] == shown.heading_err@
            &&& cols[3] == shown.curvature@
            &&& cols[4] == shown.speed@
            &&& cols[5] == shown.gyro_bias@
            &&& cols[6] == shown.p_cross_track@
            &&& cols[7] == shown.p_heading@
            &&& cols[8] == shown.p_curvature@
            &&& cols[9] == shown.p_speed@
            &&& cols[10] == shown.p_gyro_bias@
            &&& cols[11] == text::dec(s.lane_age_ms as nat)
        }),
{
}

/// A row of the mission: the time, whether it is active, the distance, the goal,
/// latitude first, or zeros, and the state.
pub proof fn law_mission_rows(timestamp_us: u64, m: MissionStatus, shown: MissionTexts)
    ensures
        ({
            let cols = mission_columns(timestamp_us, m, shown);
            &&& cols.len() == 6
            &&& cols[0] == text::dec(timestamp_us as nat)
            &&& cols[1] == text::bool_text(m.active)@
            &&& cols[2] == shown.distance@
            &&& cols[5] == m.state.label()@
            &&& m.target is Some ==> cols[3] == shown.lat@ && cols[4] == shown.lon@
            &&& m.target is None ==> cols[3] == "0"@ && cols[4] == "0"@
        }),
{
}

/// A row of a power sample: the time, volts, amperes and watts.
pub proof fn law_power_rows(timestamp_us: u64, shown: PowerTexts)
    ensures
        ({
            let cols = power_columns(timestamp_us, shown);
            &&& cols.len() == 4
            &&& cols[0] == text::dec(timestamp_us as nat)
            &&& cols[1] == shown.volts@
            &&& cols[2] == shown.amps@
            &&& cols[3] == shown.watts@
        }),
{
}

/// A row of a fix: the time, the position, the quality and what else is known.
pub proof fn law_fix_rows(timestamp_us: u64, f: GnssFix, shown: FixTexts)
    ensures
        ({
            let cols = fix_columns(timestamp_us, f, shown);
            &&& cols.len() == 10
            &&& cols[0] == text::dec(timestamp_us as nat)
            &&& cols[1] == shown.lat@
            &&& cols[2] == shown.lon@
            &&& cols[3] == shown.alt@
            &&& cols[4] == f.fix.label()@
            &&& cols[5] == text::dec(f.sats as nat)
            &&& cols[6] == shown.h_acc@
            &&& cols[7] == shown.speed@
            &&& cols[8] == shown.course@
            &&& cols[9] == text::dec(f.utc_ms as nat)
        }),
{
}

/// A row of a chassis status: the time, the echo, the watchdog, the faults and
/// the time on the board.
pub proof fn law_chassis_rows(timestamp_us: u64, c: ChassisStatus)
    ensures
        ({
            let cols = chassis_columns(timestamp_us, c);
            &&& cols.len() == 5
            &&& cols[0] == text::dec(timestamp_us as nat)
            &&& cols[1] == text::dec(c.seq_echo as nat)
            &&& cols[2] == text::bool_text(c.watchdog_tripped)@
            &&& cols[3] == text::dec(c.fault.0 as nat)
            &&& cols[4] == text::dec(c.t_us as nat)
        }),
{
}

/// A row of the speed loop: the time, the left wheel before the right, the
/// target, the error and the output.
pub proof fn law_speed_loop_rows(timestamp_us: u64, shown: SpeedLoopTexts)
    ensures
        ({
            let cols = speed_loop_columns(timestamp_us, shown);
            &&& cols.len() == 6
            &&& cols[0] == text::dec(timestamp_us as nat)
            &&& cols[1] == shown.measured_left@
            &&& cols[2] == shown.measured_right@
            &&& cols[3] == shown.target@
            &&& cols[4] == shown.error@
            &&& cols[5] == shown.output@
        }),
{
}

} // verus!
