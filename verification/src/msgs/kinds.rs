//! The closed sets of values that messages carry as one byte.
//!
//! The byte that stands for a value is part of the wire format and must not be
//! renumbered.

use crate::msgs::codec::DecodeError;
use vstd::prelude::*;

verus! {

/// GNSS solution quality, in ascending order of trust.
#[derive(Clone, Copy, Debug, PartialEq, Eq, PartialOrd, Ord, Default, Structural)]
pub enum FixQuality {
    /// No solution. Spelled `None` wherever it is printed.
    #[default]
    NoFix,
    Autonomous,
    Dgps,
    RtkFloat,
    RtkFixed,
}

impl FixQuality {
    /// The byte that stands for the value on the wire.
    pub open spec fn code(self) -> u8 {
        match self {
            FixQuality::NoFix => 0,
            FixQuality::Autonomous => 1,
            FixQuality::Dgps => 2,
            FixQuality::RtkFloat => 3,
            FixQuality::RtkFixed => 4,
        }
    }

    /// What a byte stands for; the others name the field they were read for.
    pub open spec fn of_code(v: u8) -> Result<FixQuality, DecodeError> {
        if v == 0 {
            Ok(FixQuality::NoFix)
        } else if v == 1 {
            Ok(FixQuality::Autonomous)
        } else if v == 2 {
            Ok(FixQuality::Dgps)
        } else if v == 3 {
            Ok(FixQuality::RtkFloat)
        } else if v == 4 {
            Ok(FixQuality::RtkFixed)
        } else {
            Err(DecodeError::BadDiscriminant { field: "FixQuality", value: v })
        }
    }

    pub fn to_u8(self) -> (v: u8)
        ensures
            v == self.code(),
    {
        match self {
            FixQuality::NoFix => 0,
            FixQuality::Autonomous => 1,
            FixQuality::Dgps => 2,
            FixQuality::RtkFloat => 3,
            FixQuality::RtkFixed => 4,
        }
    }

    pub fn from_u8(v: u8) -> (r: Result<Self, DecodeError>)
        ensures
            r == FixQuality::of_code(v),
    {
        match v {
            0 => Ok(FixQuality::NoFix),
            1 => Ok(FixQuality::Autonomous),
            2 => Ok(FixQuality::Dgps),
            3 => Ok(FixQuality::RtkFloat),
            4 => Ok(FixQuality::RtkFixed),
            _ => Err(DecodeError::BadDiscriminant { field: "FixQuality", value: v }),
        }
    }

    /// The name under which the value is printed.
    pub open spec fn label(self) -> &'static str {
        match self {
            FixQuality::NoFix => "None",
            FixQuality::Autonomous => "Autonomous",
            FixQuality::Dgps => "Dgps",
            FixQuality::RtkFloat => "RtkFloat",
            FixQuality::RtkFixed => "RtkFixed",
        }
    }

    pub fn name(self) -> (s: &'static str)
        ensures
            s == self.label(),
    {
        match self {
            FixQuality::NoFix => "None",
            FixQuality::Autonomous => "Autonomous",
            FixQuality::Dgps => "Dgps",
            FixQuality::RtkFloat => "RtkFloat",
            FixQuality::RtkFixed => "RtkFixed",
        }
    }

    /// True once the solution is good enough to trust course-over-ground as a
    /// heading reference.
    pub open spec fn rtk(self) -> bool {
        self is RtkFloat || self is RtkFixed
    }

    pub fn is_rtk(self) -> (r: bool)
        ensures
            r == self.rtk(),
    {
        matches!(self, FixQuality::RtkFloat | FixQuality::RtkFixed)
    }
}

/// Mission state machine.
#[derive(Clone, Copy, Debug, PartialEq, Eq, Default, Structural)]
pub enum MissionState {
    /// No goal loaded.
    #[default]
    Idle,
    /// Goal loaded, waiting for a usable GNSS fix before moving.
    Armed,
    /// Driving toward the goal.
    Running,
    /// Goal reached.
    Arrived,
    /// Cancelled by the operator.
    Cancelled,
    /// Halted by a fault: stall, watchdog, or loss of a required sensor.
    Fault,
}

impl MissionState {
    /// The byte that stands for the value on the wire.
    pub open spec fn code(self) -> u8 {
        match self {
            MissionState::Idle => 0,
            MissionState::Armed => 1,
            MissionState::Running => 2,
            MissionState::Arrived => 3,
            MissionState::Cancelled => 4,
            MissionState::Fault => 5,
        }
    }

    /// What a byte stands for; the others name the field they were read for.
    pub open spec fn of_code(v: u8) -> Result<MissionState, DecodeError> {
        if v == 0 {
            Ok(MissionState::Idle)
        } else if v == 1 {
            Ok(MissionState::Armed)
        } else if v == 2 {
            Ok(MissionState::Running)
        } else if v == 3 {
            Ok(MissionState::Arrived)
        } else if v == 4 {
            Ok(MissionState::Cancelled)
        } else if v == 5 {
            Ok(MissionState::Fault)
        } else {
            Err(DecodeError::BadDiscriminant { field: "MissionState", value: v })
        }
    }

    pub fn to_u8(self) -> (v: u8)
        ensures
            v == self.code(),
    {
        match self {
            MissionState::Idle => 0,
            MissionState::Armed => 1,
            MissionState::Running => 2,
            MissionState::Arrived => 3,
            MissionState::Cancelled => 4,
            MissionState::Fault => 5,
        }
    }

    pub fn from_u8(v: u8) -> (r: Result<Self, DecodeError>)
        ensures
            r == MissionState::of_code(v),
    {
        match v {
            0 => Ok(MissionState::Idle),
            1 => Ok(MissionState::Armed),
            2 => Ok(MissionState::Running),
            3 => Ok(MissionState::Arrived),
            4 => Ok(MissionState::Cancelled),
            5 => Ok(MissionState::Fault),
            _ => Err(DecodeError::BadDiscriminant { field: "MissionState", value: v }),
        }
    }

    /// The name under which the value is printed.
    pub open spec fn label(self) -> &'static str {
        match self {
            MissionState::Idle => "Idle",
            MissionState::Armed => "Armed",
            MissionState::Running => "Running",
            MissionState::Arrived => "Arrived",
            MissionState::Cancelled => "Cancelled",
            MissionState::Fault => "Fault",
        }
    }

    pub fn name(self) -> (s: &'static str)
        ensures
            s == self.label(),
    {
        match self {
            MissionState::Idle => "Idle",
            MissionState::Armed => "Armed",
            MissionState::Running => "Running",
            MissionState::Arrived => "Arrived",
            MissionState::Cancelled => "Cancelled",
            MissionState::Fault => "Fault",
        }
    }

    /// Whether the rover is allowed to drive.
    pub open spec fn drives(self) -> bool {
        self is Running
    }

    /// True when the rover should be allowed to drive.
    pub fn is_driving(self) -> (r: bool)
        ensures
            r == self.drives(),
    {
        matches!(self, MissionState::Running)
    }
}

/// Which physical receiver a GNSS fix came from. Set once, where the reading is
/// assembled, so that nobody downstream has to infer it.
#[derive(Clone, Copy, Debug, PartialEq, Eq, Default, Structural)]
pub enum GnssSource {
    /// The correctable, primary receiver.
    #[default]
    Rtk,
    /// The uncorrected backup.
    Backup,
}

impl GnssSource {
    /// The byte that stands for the value on the wire.
    pub open spec fn code(self) -> u8 {
        match self {
            GnssSource::Rtk => 0,
            GnssSource::Backup => 1,
        }
    }

    /// What a byte stands for; the others name the field they were read for.
    pub open spec fn of_code(v: u8) -> Result<GnssSource, DecodeError> {
        if v == 0 {
            Ok(GnssSource::Rtk)
        } else if v == 1 {
            Ok(GnssSource::Backup)
        } else {
            Err(DecodeError::BadDiscriminant { field: "GnssSource", value: v })
        }
    }

    pub fn to_u8(self) -> (v: u8)
        ensures
            v == self.code(),
    {
        match self {
            GnssSource::Rtk => 0,
            GnssSource::Backup => 1,
        }
    }

    pub fn from_u8(v: u8) -> (r: Result<Self, DecodeError>)
        ensures
            r == GnssSource::of_code(v),
    {
        match v {
            0 => Ok(GnssSource::Rtk),
            1 => Ok(GnssSource::Backup),
            _ => Err(DecodeError::BadDiscriminant { field: "GnssSource", value: v }),
        }
    }
}

/// Which board a diagnostics report came from.
#[derive(Clone, Copy, Debug, PartialEq, Eq, Default, Structural)]
pub enum BoardId {
    #[default]
    Chassis,
    Sensors,
}

impl BoardId {
    /// The byte that stands for the value on the wire.
    pub open spec fn code(self) -> u8 {
        match self {
            BoardId::Chassis => 0,
            BoardId::Sensors => 1,
        }
    }

    /// What a byte stands for; the others name the field they were read for.
    pub open spec fn of_code(v: u8) -> Result<BoardId, DecodeError> {
        if v == 0 {
            Ok(BoardId::Chassis)
        } else if v == 1 {
            Ok(BoardId::Sensors)
        } else {
            Err(DecodeError::BadDiscriminant { field: "BoardId", value: v })
        }
    }

    pub fn to_u8(self) -> (v: u8)
        ensures
            v == self.code(),
    {
        match self {
            BoardId::Chassis => 0,
            BoardId::Sensors => 1,
        }
    }

    pub fn from_u8(v: u8) -> (r: Result<Self, DecodeError>)
        ensures
            r == BoardId::of_code(v),
    {
        match v {
            0 => Ok(BoardId::Chassis),
            1 => Ok(BoardId::Sensors),
            _ => Err(DecodeError::BadDiscriminant { field: "BoardId", value: v }),
        }
    }

    pub open spec fn label(self) -> &'static str {
        match self {
            BoardId::Chassis => "chassis",
            BoardId::Sensors => "sensors",
        }
    }

    pub fn name(self) -> (s: &'static str)
        ensures
            s == self.label(),
    {
        match self {
            BoardId::Chassis => "chassis",
            BoardId::Sensors => "sensors",
        }
    }
}

/// Why a board last reset.
#[derive(Clone, Copy, Debug, PartialEq, Eq, Default, Structural)]
pub enum ResetCause {
    /// Could not be determined. Not the same claim as a clean cold boot.
    #[default]
    Unknown,
    /// The normal cold boot.
    PowerOn,
    /// External reset pin.
    Pin,
    /// Software-requested reset.
    Software,
    /// Independent watchdog fired: the firmware hung.
    IndependentWatchdog,
    /// Window watchdog fired.
    WindowWatchdog,
    /// Entered standby without clearing the flag.
    LowPower,
    /// Brown-out, where the part reports it separately from power-on.
    BrownOut,
}

impl ResetCause {
    /// The byte that stands for the value on the wire.
    pub open spec fn code(self) -> u8 {
        match self {
            ResetCause::Unknown => 0,
            ResetCause::PowerOn => 1,
            ResetCause::Pin => 2,
            ResetCause::Software => 3,
            ResetCause::IndependentWatchdog => 4,
            ResetCause::WindowWatchdog => 5,
            ResetCause::LowPower => 6,
            ResetCause::BrownOut => 7,
        }
    }

    /// What a byte stands for; the others name the field they were read for.
    pub open spec fn of_code(v: u8) -> Result<ResetCause, DecodeError> {
        if v == 0 {
            Ok(ResetCause::Unknown)
        } else if v == 1 {
            Ok(ResetCause::PowerOn)
        } else if v == 2 {
            Ok(ResetCause::Pin)
        } else if v == 3 {
            Ok(ResetCause::Software)
        } else if v == 4 {
            Ok(ResetCause::IndependentWatchdog)
        } else if v == 5 {
            Ok(ResetCause::WindowWatchdog)
        } else if v == 6 {
            Ok(ResetCause::LowPower)
        } else if v == 7 {
            Ok(ResetCause::BrownOut)
        } else {
            Err(DecodeError::BadDiscriminant { field: "ResetCause", value: v })
        }
    }

    pub fn to_u8(self) -> (v: u8)
        ensures
            v == self.code(),
    {
        match self {
            ResetCause::Unknown => 0,
            ResetCause::PowerOn => 1,
            ResetCause::Pin => 2,
            ResetCause::Software => 3,
            ResetCause::IndependentWatchdog => 4,
            ResetCause::WindowWatchdog => 5,
            ResetCause::LowPower => 6,
            ResetCause::BrownOut => 7,
        }
    }

    pub fn from_u8(v: u8) -> (r: Result<Self, DecodeError>)
        ensures
            r == ResetCause::of_code(v),
    {
        match v {
            0 => Ok(ResetCause::Unknown),
            1 => Ok(ResetCause::PowerOn),
            2 => Ok(ResetCause::Pin),
            3 => Ok(ResetCause::Software),
            4 => Ok(ResetCause::IndependentWatchdog),
            5 => Ok(ResetCause::WindowWatchdog),
            6 => Ok(ResetCause::LowPower),
            7 => Ok(ResetCause::BrownOut),
            _ => Err(DecodeError::BadDiscriminant { field: "ResetCause", value: v }),
        }
    }

    /// A cause that means something went wrong, as opposed to a normal or
    /// operator-initiated boot.
    pub open spec fn abnormal(self) -> bool {
        self is IndependentWatchdog || self is WindowWatchdog || self is BrownOut
    }

    pub fn is_abnormal(self) -> (r: bool)
        ensures
            r == self.abnormal(),
    {
        matches!(
            self,
            ResetCause::IndependentWatchdog | ResetCause::WindowWatchdog | ResetCause::BrownOut
        )
    }

    pub open spec fn label(self) -> &'static str {
        match self {
            ResetCause::Unknown => "unknown",
            ResetCause::PowerOn => "power-on",
            ResetCause::Pin => "pin",
            ResetCause::Software => "software",
            ResetCause::IndependentWatchdog => "IWDG",
            ResetCause::WindowWatchdog => "WWDG",
            ResetCause::LowPower => "low-power",
            ResetCause::BrownOut => "brown-out",
        }
    }

    pub fn name(self) -> (s: &'static str)
        ensures
            s == self.label(),
    {
        match self {
            ResetCause::Unknown => "unknown",
            ResetCause::PowerOn => "power-on",
            ResetCause::Pin => "pin",
            ResetCause::Software => "software",
            ResetCause::IndependentWatchdog => "IWDG",
            ResetCause::WindowWatchdog => "WWDG",
            ResetCause::LowPower => "low-power",
            ResetCause::BrownOut => "brown-out",
        }
    }
}

/// Every value comes back from its byte.
pub proof fn law_codes_round_trip(
    a: FixQuality,
    b: MissionState,
    c: GnssSource,
    d: BoardId,
    e: ResetCause,
)
    ensures
        FixQuality::of_code(a.code()) == Ok::<FixQuality, DecodeError>(a),
        MissionState::of_code(b.code()) == Ok::<MissionState, DecodeError>(b),
        GnssSource::of_code(c.code()) == Ok::<GnssSource, DecodeError>(c),
        BoardId::of_code(d.code()) == Ok::<BoardId, DecodeError>(d),
        ResetCause::of_code(e.code()) == Ok::<ResetCause, DecodeError>(e),
{
}

/// A byte that decodes decodes to the value it stands for.
pub proof fn law_codes_are_exact(v: u8)
    ensures
        FixQuality::of_code(v) is Ok ==> FixQuality::of_code(v)->Ok_0.code() == v,
        MissionState::of_code(v) is Ok ==> MissionState::of_code(v)->Ok_0.code() == v,
        GnssSource::of_code(v) is Ok ==> GnssSource::of_code(v)->Ok_0.code() == v,
        BoardId::of_code(v) is Ok ==> BoardId::of_code(v)->Ok_0.code() == v,
        ResetCause::of_code(v) is Ok ==> ResetCause::of_code(v)->Ok_0.code() == v,
{
}

/// The bytes that stand for the values.
pub proof fn law_codes(a: FixQuality, b: MissionState, c: GnssSource, d: BoardId, e: ResetCause)
    ensures
        a is NoFix <==> a.code() == 0,
        a is Autonomous <==> a.code() == 1,
        a is Dgps <==> a.code() == 2,
        a is RtkFloat <==> a.code() == 3,
        a is RtkFixed <==> a.code() == 4,
        b is Idle <==> b.code() == 0,
        b is Armed <==> b.code() == 1,
        b is Running <==> b.code() == 2,
        b is Arrived <==> b.code() == 3,
        b is Cancelled <==> b.code() == 4,
        b is Fault <==> b.code() == 5,
        c is Rtk <==> c.code() == 0,
        c is Backup <==> c.code() == 1,
        d is Chassis <==> d.code() == 0,
        d is Sensors <==> d.code() == 1,
        e is Unknown <==> e.code() == 0,
        e is PowerOn <==> e.code() == 1,
        e is Pin <==> e.code() == 2,
        e is Software <==> e.code() == 3,
        e is IndependentWatchdog <==> e.code() == 4,
        e is WindowWatchdog <==> e.code() == 5,
        e is LowPower <==> e.code() == 6,
        e is BrownOut <==> e.code() == 7,
{
}

/// A byte that stands for no value is refused, by its field and itself.
pub proof fn law_unknown_codes_are_refused(v: u8)
    ensures
        FixQuality::of_code(v) is Err <==> v > 4,
        MissionState::of_code(v) is Err <==> v > 5,
        GnssSource::of_code(v) is Err <==> v > 1,
        BoardId::of_code(v) is Err <==> v > 1,
        ResetCause::of_code(v) is Err <==> v > 7,
        FixQuality::of_code(v) matches Err(e) ==> e == (
        DecodeError::BadDiscriminant { field: "FixQuality", value: v }),
        MissionState::of_code(v) matches Err(e) ==> e == (
        DecodeError::BadDiscriminant { field: "MissionState", value: v }),
        GnssSource::of_code(v) matches Err(e) ==> e == (
        DecodeError::BadDiscriminant { field: "GnssSource", value: v }),
        BoardId::of_code(v) matches Err(e) ==> e == (
        DecodeError::BadDiscriminant { field: "BoardId", value: v }),
        ResetCause::of_code(v) matches Err(e) ==> e == (
        DecodeError::BadDiscriminant { field: "ResetCause", value: v }),
{
}

/// The best two qualities are corrected ones, only a running mission drives, and
/// a watchdog or a failing supply is what makes a reset abnormal.
pub proof fn law_kinds(a: FixQuality, b: MissionState, e: ResetCause)
    ensures
        a.rtk() <==> a.code() >= 3,
        b.drives() <==> b.code() == 2,
        e.abnormal() <==> e.code() == 4 || e.code() == 5 || e.code() == 7,
{
}

/// Each value has a name of its own.
#[verifier::rlimit(40)]
pub proof fn law_names_differ(
    a: FixQuality,
    a2: FixQuality,
    b: MissionState,
    b2: MissionState,
    d: BoardId,
    d2: BoardId,
    e: ResetCause,
    e2: ResetCause,
)
    ensures
        a.label()@ == a2.label()@ ==> a == a2,
        b.label()@ == b2.label()@ ==> b == b2,
        d.label()@ == d2.label()@ ==> d == d2,
        e.label()@ == e2.label()@ ==> e == e2,
{
    reveal_strlit("None");
    reveal_strlit("Autonomous");
    reveal_strlit("Dgps");
    reveal_strlit("RtkFloat");
    reveal_strlit("RtkFixed");
    reveal_strlit("Idle");
    reveal_strlit("Armed");
    reveal_strlit("Running");
    reveal_strlit("Arrived");
    reveal_strlit("Cancelled");
    reveal_strlit("Fault");
    reveal_strlit("chassis");
    reveal_strlit("sensors");
    reveal_strlit("unknown");
    reveal_strlit("power-on");
    reveal_strlit("pin");
    reveal_strlit("software");
    reveal_strlit("IWDG");
    reveal_strlit("WWDG");
    reveal_strlit("low-power");
    reveal_strlit("brown-out");
    assert("RtkFloat"@[4] != "RtkFixed"@[4]);
    assert("Armed"@[2] != "Arrived"@[2] || "Armed"@.len() != "Arrived"@.len());
    assert("power-on"@.len() != "pin"@.len());
    assert("None"@[0] == 'N' && "Autonomous"@[0] == 'A' && "Dgps"@[0] == 'D' && "RtkFloat"@[0]
        == 'R' && "RtkFixed"@[0] == 'R');
    assert("Idle"@[0] == 'I' && "Armed"@[0] == 'A' && "Running"@[0] == 'R' && "Arrived"@[0] == 'A'
        && "Cancelled"@[0] == 'C' && "Fault"@[0] == 'F');
    assert("chassis"@[0] == 'c' && "sensors"@[0] == 's');
    assert("unknown"@[0] == 'u' && "power-on"@[0] == 'p' && "pin"@[0] == 'p' && "software"@[0]
        == 's' && "IWDG"@[0] == 'I' && "WWDG"@[0] == 'W' && "low-power"@[0] == 'l' && "brown-out"@[0]
        == 'b');
}

/// The names under which the values are printed.
pub proof fn law_names(a: FixQuality, b: MissionState, d: BoardId, e: ResetCause)
    ensures
        a is NoFix ==> a.label()@ == "None"@,
        a is Autonomous ==> a.label()@ == "Autonomous"@,
        a is Dgps ==> a.label()@ == "Dgps"@,
        a is RtkFloat ==> a.label()@ == "RtkFloat"@,
        a is RtkFixed ==> a.label()@ == "RtkFixed"@,
        b is Idle ==> b.label()@ == "Idle"@,
        b is Armed ==> b.label()@ == "Armed"@,
        b is Running ==> b.label()@ == "Running"@,
        b is Arrived ==> b.label()@ == "Arrived"@,
        b is Cancelled ==> b.label()@ == "Cancelled"@,
        b is Fault ==> b.label()@ == "Fault"@,
        d is Chassis ==> d.label()@ == "chassis"@,
        d is Sensors ==> d.label()@ == "sensors"@,
        e is Unknown ==> e.label()@ == "unknown"@,
        e is PowerOn ==> e.label()@ == "power-on"@,
        e is Pin ==> e.label()@ == "pin"@,
        e is Software ==> e.label()@ == "software"@,
        e is IndependentWatchdog ==> e.label()@ == "IWDG"@,
        e is WindowWatchdog ==> e.label()@ == "WWDG"@,
        e is LowPower ==> e.label()@ == "low-power"@,
        e is BrownOut ==> e.label()@ == "brown-out"@,
{
}

} // verus!
