//! From a type identifier to the message that it stands for.

use crate::msgs::boards::{
    ChassisCommand, ChassisStatus, ImuSample, MagSample, PowerSample, WheelSensors,
};
use crate::msgs::debug::{BoardDiagnostics, EkfDebug, SpeedLoopDebug};
use crate::msgs::gnss::GnssFix;
use crate::msgs::mission::{CommandFrame, MissionGoal, MissionStatus};
use crate::msgs::motion::{LaneMeasurement, MotionSetpoint, RoverState};
use crate::msgs::telemetry::Telemetry;
use crate::msgs::wire;
use crate::msgs::wire::Wire;
use vstd::prelude::*;

verus! {

/// A message of any type.
#[derive(Clone, Copy, Debug)]
pub enum Message {
    ImuSample(ImuSample),
    MagSample(MagSample),
    ChassisStatus(ChassisStatus),
    ChassisCommand(ChassisCommand),
    WheelSensors(WheelSensors),
    PowerSample(PowerSample),
    GnssFix(GnssFix),
    LaneMeasurement(LaneMeasurement),
    RoverState(RoverState),
    MotionSetpoint(MotionSetpoint),
    MissionGoal(MissionGoal),
    MissionStatus(MissionStatus),
    CommandFrame(CommandFrame),
    Telemetry(Telemetry),
    SpeedLoopDebug(SpeedLoopDebug),
    EkfDebug(EkfDebug),
    BoardDiagnostics(BoardDiagnostics),
}

/// A decoded message, and the name of its type.
#[derive(Clone, Copy, Debug)]
pub struct Decoded {
    pub name: &'static str,
    pub message: Message,
}

impl Message {
    /// The identifier of its type.
    pub open spec fn id(self) -> u16 {
        match self {
            Message::ImuSample(_) => ImuSample::id(),
            Message::MagSample(_) => MagSample::id(),
            Message::ChassisStatus(_) => ChassisStatus::id(),
            Message::ChassisCommand(_) => ChassisCommand::id(),
            Message::WheelSensors(_) => WheelSensors::id(),
            Message::PowerSample(_) => PowerSample::id(),
            Message::GnssFix(_) => GnssFix::id(),
            Message::LaneMeasurement(_) => LaneMeasurement::id(),
            Message::RoverState(_) => RoverState::id(),
            Message::MotionSetpoint(_) => MotionSetpoint::id(),
            Message::MissionGoal(_) => MissionGoal::id(),
            Message::MissionStatus(_) => MissionStatus::id(),
            Message::CommandFrame(_) => CommandFrame::id(),
            Message::Telemetry(_) => Telemetry::id(),
            Message::SpeedLoopDebug(_) => SpeedLoopDebug::id(),
            Message::EkfDebug(_) => EkfDebug::id(),
            Message::BoardDiagnostics(_) => BoardDiagnostics::id(),
        }
    }

    /// The name of its type.
    pub open spec fn title(self) -> &'static str {
        match self {
            Message::ImuSample(_) => ImuSample::title(),
            Message::MagSample(_) => MagSample::title(),
            Message::ChassisStatus(_) => ChassisStatus::title(),
            Message::ChassisCommand(_) => ChassisCommand::title(),
            Message::WheelSensors(_) => WheelSensors::title(),
            Message::PowerSample(_) => PowerSample::title(),
            Message::GnssFix(_) => GnssFix::title(),
            Message::LaneMeasurement(_) => LaneMeasurement::title(),
            Message::RoverState(_) => RoverState::title(),
            Message::MotionSetpoint(_) => MotionSetpoint::title(),
            Message::MissionGoal(_) => MissionGoal::title(),
            Message::MissionStatus(_) => MissionStatus::title(),
            Message::CommandFrame(_) => CommandFrame::title(),
            Message::Telemetry(_) => Telemetry::title(),
            Message::SpeedLoopDebug(_) => SpeedLoopDebug::title(),
            Message::EkfDebug(_) => EkfDebug::title(),
            Message::BoardDiagnostics(_) => BoardDiagnostics::title(),
        }
    }

    /// Its body on the wire.
    pub open spec fn wire(self) -> Seq<u8> {
        match self {
            Message::ImuSample(m) => m.wire(),
            Message::MagSample(m) => m.wire(),
            Message::ChassisStatus(m) => m.wire(),
            Message::ChassisCommand(m) => m.wire(),
            Message::WheelSensors(m) => m.wire(),
            Message::PowerSample(m) => m.wire(),
            Message::GnssFix(m) => m.wire(),
            Message::LaneMeasurement(m) => m.wire(),
            Message::RoverState(m) => m.wire(),
            Message::MotionSetpoint(m) => m.wire(),
            Message::MissionGoal(m) => m.wire(),
            Message::MissionStatus(m) => m.wire(),
            Message::CommandFrame(m) => m.wire(),
            Message::Telemetry(m) => m.wire(),
            Message::SpeedLoopDebug(m) => m.wire(),
            Message::EkfDebug(m) => m.wire(),
            Message::BoardDiagnostics(m) => m.wire(),
        }
    }
}

/// The message that a body of type `id` holds, if there is such a type and the
/// body decodes.
pub open spec fn message_of(id: u16, body: Seq<u8>) -> Option<Message> {
    if id == ImuSample::id() {
        match wire::decoded::<ImuSample>(body) {
            Ok(m) => Some(Message::ImuSample(m)),
            Err(_) => None,
        }
    } else if id == MagSample::id() {
        match wire::decoded::<MagSample>(body) {
            Ok(m) => Some(Message::MagSample(m)),
            Err(_) => None,
        }
    } else if id == ChassisStatus::id() {
        match wire::decoded::<ChassisStatus>(body) {
            Ok(m) => Some(Message::ChassisStatus(m)),
            Err(_) => None,
        }
    } else if id == ChassisCommand::id() {
        match wire::decoded::<ChassisCommand>(body) {
            Ok(m) => Some(Message::ChassisCommand(m)),
            Err(_) => None,
        }
    } else if id == WheelSensors::id() {
        match wire::decoded::<WheelSensors>(body) {
            Ok(m) => Some(Message::WheelSensors(m)),
            Err(_) => None,
        }
    } else if id == PowerSample::id() {
        match wire::decoded::<PowerSample>(body) {
            Ok(m) => Some(Message::PowerSample(m)),
            Err(_) => None,
        }
    } else if id == GnssFix::id() {
        match wire::decoded::<GnssFix>(body) {
            Ok(m) => Some(Message::GnssFix(m)),
            Err(_) => None,
        }
    } else if id == LaneMeasurement::id() {
        match wire::decoded::<LaneMeasurement>(body) {
            Ok(m) => Some(Message::LaneMeasurement(m)),
            Err(_) => None,
        }
    } else if id == RoverState::id() {
        match wire::decoded::<RoverState>(body) {
            Ok(m) => Some(Message::RoverState(m)),
            Err(_) => None,
        }
    } else if id == MotionSetpoint::id() {
        match wire::decoded::<MotionSetpoint>(body) {
            Ok(m) => Some(Message::MotionSetpoint(m)),
            Err(_) => None,
        }
    } else if id == MissionGoal::id() {
        match wire::decoded::<MissionGoal>(body) {
            Ok(m) => Some(Message::MissionGoal(m)),
            Err(_) => None,
        }
    } else if id == MissionStatus::id() {
        match wire::decoded::<MissionStatus>(body) {
            Ok(m) => Some(Message::MissionStatus(m)),
            Err(_) => None,
        }
    } else if id == CommandFrame::id() {
        match wire::decoded::<CommandFrame>(body) {
            Ok(m) => Some(Message::CommandFrame(m)),
            Err(_) => None,
        }
    } else if id == Telemetry::id() {
        match wire::decoded::<Telemetry>(body) {
            Ok(m) => Some(Message::Telemetry(m)),
            Err(_) => None,
        }
    } else if id == SpeedLoopDebug::id() {
        match wire::decoded::<SpeedLoopDebug>(body) {
            Ok(m) => Some(Message::SpeedLoopDebug(m)),
            Err(_) => None,
        }
    } else if id == EkfDebug::id() {
        match wire::decoded::<EkfDebug>(body) {
            Ok(m) => Some(Message::EkfDebug(m)),
            Err(_) => None,
        }
    } else if id == BoardDiagnostics::id() {
        match wire::decoded::<BoardDiagnostics>(body) {
            Ok(m) => Some(Message::BoardDiagnostics(m)),
            Err(_) => None,
        }
    } else {
        None
    }
}

/// The message that a body holds, under the name of its type.
pub open spec fn shown_as(id: u16, body: Seq<u8>) -> Option<Decoded> {
    match message_of(id, body) {
        None => None,
        Some(m) => Some(Decoded { name: m.title(), message: m }),
    }
}

/// Decode a body as whatever its type identifier says. An unknown identifier and
/// a body that does not decode are treated alike: there is nothing to show.
pub fn decode(type_id: u16, body: &[u8]) -> (r: Option<Decoded>)
    ensures
        r == shown_as(type_id, body@),
{
    proof {
        ImuSample::lemma_consts();
        MagSample::lemma_consts();
        ChassisStatus::lemma_consts();
        ChassisCommand::lemma_consts();
        WheelSensors::lemma_consts();
        PowerSample::lemma_consts();
        GnssFix::lemma_consts();
        LaneMeasurement::lemma_consts();
        RoverState::lemma_consts();
        MotionSetpoint::lemma_consts();
        MissionGoal::lemma_consts();
        MissionStatus::lemma_consts();
        CommandFrame::lemma_consts();
        Telemetry::lemma_consts();
        SpeedLoopDebug::lemma_consts();
        EkfDebug::lemma_consts();
        BoardDiagnostics::lemma_consts();
    }
    if type_id == ImuSample::TYPE_ID {
        match ImuSample::decode(body) {
            Ok(m) => Some(
                Decoded { name: ImuSample::NAME, message: Message::ImuSample(m) },
            ),
            Err(_) => None,
        }
    } else if type_id == MagSample::TYPE_ID {
        match MagSample::decode(body) {
            Ok(m) => Some(
                Decoded { name: MagSample::NAME, message: Message::MagSample(m) },
            ),
            Err(_) => None,
        }
    } else if type_id == ChassisStatus::TYPE_ID {
        match ChassisStatus::decode(body) {
            Ok(m) => Some(
                Decoded { name: ChassisStatus::NAME, message: Message::ChassisStatus(m) },
            ),
            Err(_) => None,
        }
    } else if type_id == ChassisCommand::TYPE_ID {
        match ChassisCommand::decode(body) {
            Ok(m) => Some(
                Decoded { name: ChassisCommand::NAME, message: Message::ChassisCommand(m) },
            ),
            Err(_) => None,
        }
    } else if type_id == WheelSensors::TYPE_ID {
        match WheelSensors::decode(body) {
            Ok(m) => Some(
                Decoded { name: WheelSensors::NAME, message: Message::WheelSensors(m) },
            ),
            Err(_) => None,
        }
    } else if type_id == PowerSample::TYPE_ID {
        match PowerSample::decode(body) {
            Ok(m) => Some(
                Decoded { name: PowerSample::NAME, message: Message::PowerSample(m) },
            ),
            Err(_) => None,
        }
    } else if type_id == GnssFix::TYPE_ID {
        match GnssFix::decode(body) {
            Ok(m) => Some(
                Decoded { name: GnssFix::NAME, message: Message::GnssFix(m) },
            ),
            Err(_) => None,
        }
    } else if type_id == LaneMeasurement::TYPE_ID {
        match LaneMeasurement::decode(body) {
            Ok(m) => Some(
                Decoded { name: LaneMeasurement::NAME, message: Message::LaneMeasurement(m) },
            ),
            Err(_) => None,
        }
    } else if type_id == RoverState::TYPE_ID {
        match RoverState::decode(body) {
            Ok(m) => Some(
                Decoded { name: RoverState::NAME, message: Message::RoverState(m) },
            ),
            Err(_) => None,
        }
    } else if type_id == MotionSetpoint::TYPE_ID {
        match MotionSetpoint::decode(body) {
            Ok(m) => Some(
                Decoded { name: MotionSetpoint::NAME, message: Message::MotionSetpoint(m) },
            ),
            Err(_) => None,
        }
    } else if type_id == MissionGoal::TYPE_ID {
        match MissionGoal::decode(body) {
            Ok(m) => Some(
                Decoded { name: MissionGoal::NAME, message: Message::MissionGoal(m) },
            ),
            Err(_) => None,
        }
    } else if type_id == MissionStatus::TYPE_ID {
        match MissionStatus::decode(body) {
            Ok(m) => Some(
                Decoded { name: MissionStatus::NAME, message: Message::MissionStatus(m) },
            ),
            Err(_) => None,
        }
    } else if type_id == CommandFrame::TYPE_ID {
        match CommandFrame::decode(body) {
            Ok(m) => Some(
                Decoded { name: CommandFrame::NAME, message: Message::CommandFrame(m) },
            ),
            Err(_) => None,
        }
    } else if type_id == Telemetry::TYPE_ID {
        match Telemetry::decode(body) {
            Ok(m) => Some(
                Decoded { name: Telemetry::NAME, message: Message::Telemetry(m) },
            ),
            Err(_) => None,
        }
    } else if type_id == SpeedLoopDebug::TYPE_ID {
        match SpeedLoopDebug::decode(body) {
            Ok(m) => Some(
                Decoded { name: SpeedLoopDebug::NAME, message: Message::SpeedLoopDebug(m) },
            ),
            Err(_) => None,
        }
    } else if type_id == EkfDebug::TYPE_ID {
        match EkfDebug::decode(body) {
            Ok(m) => Some(
                Decoded { name: EkfDebug::NAME, message: Message::EkfDebug(m) },
            ),
            Err(_) => None,
        }
    } else if type_id == BoardDiagnostics::TYPE_ID {
        match BoardDiagnostics::decode(body) {
            Ok(m) => Some(
                Decoded { name: BoardDiagnostics::NAME, message: Message::BoardDiagnostics(m) },
            ),
            Err(_) => None,
        }
    } else {
        None
    }
}

/// The identifiers of all types.
pub open spec fn type_ids() -> Seq<u16> {
    seq![
        ImuSample::id(),
        MagSample::id(),
        ChassisStatus::id(),
        ChassisCommand::id(),
        WheelSensors::id(),
        PowerSample::id(),
        GnssFix::id(),
        LaneMeasurement::id(),
        RoverState::id(),
        MotionSetpoint::id(),
        MissionGoal::id(),
        MissionStatus::id(),
        CommandFrame::id(),
        Telemetry::id(),
        SpeedLoopDebug::id(),
        EkfDebug::id(),
        BoardDiagnostics::id(),
    ]
}

/// No two types share an identifier.
pub proof fn law_type_ids_are_unique()
    ensures
        type_ids().no_duplicates(),
{
}

/// Every message that goes out comes back as what it was, whatever follows its
/// body.
pub proof fn law_registry_reads_back(m: Message, rest: Seq<u8>)
    ensures
        message_of(m.id(), m.wire() + rest) == Some(m),
{
    match m {
        Message::ImuSample(v) => wire::law_round_trip(v, rest),
        Message::MagSample(v) => wire::law_round_trip(v, rest),
        Message::ChassisStatus(v) => wire::law_round_trip(v, rest),
        Message::ChassisCommand(v) => wire::law_round_trip(v, rest),
        Message::WheelSensors(v) => wire::law_round_trip(v, rest),
        Message::PowerSample(v) => wire::law_round_trip(v, rest),
        Message::GnssFix(v) => wire::law_round_trip(v, rest),
        Message::LaneMeasurement(v) => wire::law_round_trip(v, rest),
        Message::RoverState(v) => wire::law_round_trip(v, rest),
        Message::MotionSetpoint(v) => wire::law_round_trip(v, rest),
        Message::MissionGoal(v) => wire::law_round_trip(v, rest),
        Message::MissionStatus(v) => wire::law_round_trip(v, rest),
        Message::CommandFrame(v) => wire::law_round_trip(v, rest),
        Message::Telemetry(v) => wire::law_round_trip(v, rest),
        Message::SpeedLoopDebug(v) => wire::law_round_trip(v, rest),
        Message::EkfDebug(v) => wire::law_round_trip(v, rest),
        Message::BoardDiagnostics(v) => wire::law_round_trip(v, rest),
    }
}

/// An identifier that no type has decodes to nothing.
pub proof fn law_unknown_types_are_passed_over(id: u16, body: Seq<u8>)
    requires
        !type_ids().contains(id),
    ensures
        message_of(id, body) is None,
{
    assert(type_ids()[0] == ImuSample::id());
    assert(type_ids()[1] == MagSample::id());
    assert(type_ids()[2] == ChassisStatus::id());
    assert(type_ids()[3] == ChassisCommand::id());
    assert(type_ids()[4] == WheelSensors::id());
    assert(type_ids()[5] == PowerSample::id());
    assert(type_ids()[6] == GnssFix::id());
    assert(type_ids()[7] == LaneMeasurement::id());
    assert(type_ids()[8] == RoverState::id());
    assert(type_ids()[9] == MotionSetpoint::id());
    assert(type_ids()[10] == MissionGoal::id());
    assert(type_ids()[11] == MissionStatus::id());
    assert(type_ids()[12] == CommandFrame::id());
    assert(type_ids()[13] == Telemetry::id());
    assert(type_ids()[14] == SpeedLoopDebug::id());
    assert(type_ids()[15] == EkfDebug::id());
    assert(type_ids()[16] == BoardDiagnostics::id());
}

/// Each message goes by the name of its type.
pub proof fn law_titles(m: Message)
    ensures
        m is ImuSample ==> m.title()@ == "ImuSample"@,
        m is MagSample ==> m.title()@ == "MagSample"@,
        m is ChassisStatus ==> m.title()@ == "ChassisStatus"@,
        m is ChassisCommand ==> m.title()@ == "ChassisCommand"@,
        m is WheelSensors ==> m.title()@ == "WheelSensors"@,
        m is PowerSample ==> m.title()@ == "PowerSample"@,
        m is GnssFix ==> m.title()@ == "GnssFix"@,
        m is LaneMeasurement ==> m.title()@ == "LaneMeasurement"@,
        m is RoverState ==> m.title()@ == "RoverState"@,
        m is MotionSetpoint ==> m.title()@ == "MotionSetpoint"@,
        m is MissionGoal ==> m.title()@ == "MissionGoal"@,
        m is MissionStatus ==> m.title()@ == "MissionStatus"@,
        m is CommandFrame ==> m.title()@ == "CommandFrame"@,
        m is Telemetry ==> m.title()@ == "Telemetry"@,
        m is SpeedLoopDebug ==> m.title()@ == "SpeedLoopDebug"@,
        m is EkfDebug ==> m.title()@ == "EkfDebug"@,
        m is BoardDiagnostics ==> m.title()@ == "BoardDiagnostics"@,
{
}

/// What is shown of a message is the message, under its own name.
pub proof fn law_messages_are_shown(m: Message, rest: Seq<u8>)
    ensures
        shown_as(m.id(), m.wire() + rest) matches Some(d) && d.message == m && d.name == m.title(),
{
    law_registry_reads_back(m, rest);
}

} // verus!
