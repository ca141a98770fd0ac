//! Mission goals, progress, and the commands of the base station.

use crate::msgs::codec;
use crate::msgs::codec::{check_len, DecodeError, Reader, Writer};
use crate::msgs::kinds::MissionState;
use crate::msgs::wire::Wire;
use crate::reals::{Real32, Real64};
use vstd::prelude::*;

verus! {

/// A destination waypoint.
#[derive(Clone, Copy, Debug, PartialEq, Eq, Default, Structural)]
pub struct MissionGoal {
    pub lat_deg: Real64,
    pub lon_deg: Real64,
}

impl Wire for MissionGoal {
    const TYPE_ID: u16 = 0x0702;
    const WIRE_LEN: usize = 16;
    const NAME: &'static str = "MissionGoal";

    open spec fn id() -> u16 {
        0x0702
    }

    open spec fn size() -> usize {
        16
    }

    open spec fn title() -> &'static str {
        "MissionGoal"
    }

    proof fn lemma_consts() {
        assert(Self::TYPE_ID == Self::id());
        assert(Self::WIRE_LEN == Self::size());
        assert(Self::NAME == Self::title());
    }

    open spec fn wire(self) -> Seq<u8> {
        Seq::<u8>::empty()
            + codec::real64_bytes(self.lat_deg)
            + codec::real64_bytes(self.lon_deg)
    }

    open spec fn read(b: Seq<u8>) -> Result<Self, DecodeError> {
        Ok(MissionGoal { lat_deg: codec::real64_at(b, 0), lon_deg: codec::real64_at(b, 8) })
    }

    proof fn lemma_len(self) {
        broadcast use codec::group_codec;

    }

    proof fn lemma_round_trip(self, rest: Seq<u8>) {
        broadcast use codec::group_codec;

    }

    proof fn lemma_front(b: Seq<u8>, rest: Seq<u8>) {
        broadcast use codec::group_codec;

    }

    fn encode(&self, buf: &mut [u8]) -> (n: usize) {
        broadcast use codec::group_codec;

        let mut w = Writer::new(buf);
        w.real64(self.lat_deg);
        w.real64(self.lon_deg);
        proof {
            codec::lemma_parts(old(buf)@, 0);
            codec::lemma_parts(w.buf@, Self::size() as int);
        }
        w.len()
    }

    fn decode(buf: &[u8]) -> (r: Result<Self, DecodeError>) {
        check_len(buf, Self::WIRE_LEN)?;
        let mut r = Reader::new(buf);
        Ok(MissionGoal { lat_deg: r.real64(), lon_deg: r.real64() })
    }
}

/// Mission progress, produced on the rover. The rover owns mission state:
/// losing the base station never stops or endangers it.
#[derive(Clone, Copy, Debug, PartialEq, Default)]
pub struct MissionStatus {
    /// True while the rover is permitted to drive. The actuation task
    /// emergency-stops on a false edge.
    pub active: bool,
    /// Great-circle distance to the goal, metres.
    pub distance_remaining_m: Real32,
    /// `None` when no goal is loaded. On the wire this is a presence flag plus
    /// a goal that is zeroed when absent.
    pub target: Option<MissionGoal>,
    pub state: MissionState,
}

/// The goal that fills the layout: zeros where there is none.
pub open spec fn goal_or_zero(target: Option<MissionGoal>) -> MissionGoal {
    match target {
        Some(goal) => goal,
        None => MissionGoal { lat_deg: Real64(0), lon_deg: Real64(0) },
    }
}

impl Wire for MissionStatus {
    const TYPE_ID: u16 = 0x0701;
    const WIRE_LEN: usize = 23;
    const NAME: &'static str = "MissionStatus";

    open spec fn id() -> u16 {
        0x0701
    }

    open spec fn size() -> usize {
        23
    }

    open spec fn title() -> &'static str {
        "MissionStatus"
    }

    proof fn lemma_consts() {
        assert(Self::TYPE_ID == Self::id());
        assert(Self::WIRE_LEN == Self::size());
        assert(Self::NAME == Self::title());
    }

    open spec fn wire(self) -> Seq<u8> {
        Seq::<u8>::empty()
            + codec::bool_bytes(self.active)
            + codec::real32_bytes(self.distance_remaining_m)
            + codec::bool_bytes(self.target is Some)
            + codec::real64_bytes(goal_or_zero(self.target).lat_deg)
            + codec::real64_bytes(goal_or_zero(self.target).lon_deg)
            + codec::u8_bytes(self.state.code())
    }

    open spec fn read(b: Seq<u8>) -> Result<Self, DecodeError> {
        match MissionState::of_code(codec::u8_at(b, 22)) {
            Err(e) => Err(e),
            Ok(state) => Ok(MissionStatus {
                active: codec::bool_at(b, 0),
                distance_remaining_m: codec::real32_at(b, 1),
                target: if codec::bool_at(b, 5) {
                    Some(MissionGoal {
                        lat_deg: codec::real64_at(b, 6),
                        lon_deg: codec::real64_at(b, 14),
                    })
                } else {
                    None
                },
                state,
            }),
        }
    }

    proof fn lemma_len(self) {
        broadcast use codec::group_codec;

    }

    proof fn lemma_round_trip(self, rest: Seq<u8>) {
        broadcast use codec::group_codec;

    }

    proof fn lemma_front(b: Seq<u8>, rest: Seq<u8>) {
        broadcast use codec::group_codec;

    }

    fn encode(&self, buf: &mut [u8]) -> (n: usize) {
        broadcast use codec::group_codec;

        let mut w = Writer::new(buf);
        w.bool(self.active);
        w.real32(self.distance_remaining_m);
        w.bool(self.target.is_some());
        let goal = match self.target {
            Some(goal) => goal,
            None => MissionGoal { lat_deg: Real64(0), lon_deg: Real64(0) },
        };
        w.real64(goal.lat_deg);
        w.real64(goal.lon_deg);
        w.u8(self.state.to_u8());
        proof {
            codec::lemma_parts(old(buf)@, 0);
            codec::lemma_parts(w.buf@, Self::size() as int);
        }
        w.len()
    }

    fn decode(buf: &[u8]) -> (r: Result<Self, DecodeError>) {
        check_len(buf, Self::WIRE_LEN)?;
        let mut r = Reader::new(buf);
        let active: bool = r.bool();
        let distance_remaining_m = r.real32();
        let has_target: bool = r.bool();
        let goal = MissionGoal { lat_deg: r.real64(), lon_deg: r.real64() };
        let state = MissionState::from_u8(r.u8())?;
        Ok(MissionStatus {
            active,
            distance_remaining_m,
            target: if has_target {
                Some(goal)
            } else {
                None
            },
            state,
        })
    }
}

/// What the base station is asking the rover to do.
#[derive(Clone, Copy, Debug, PartialEq, Eq, Default, Structural)]
pub enum Command {
    /// Do nothing. Sent as a keepalive so the base can prove the link works
    /// without changing rover state.
    #[default]
    Nop,
    /// Cap the speed the actuation task will ever request, as a percentage of
    /// full duty, `0..=100`. `0` is a full stop override.
    SetSpeedLimit(u8),
    /// Load and arm a destination.
    SetMissionGoal(MissionGoal),
    /// Abandon the current goal and stop.
    CancelMission,
    /// Immediate stop, best effort. The guaranteed stop is the firmware
    /// command watchdog, which needs no packet to arrive in order to fire.
    EStop,
    /// Explicitly release an [`Command::EStop`] latch. Nothing else does:
    /// cancelling a mission never touches it.
    ClearEStop,
}

impl Command {
    /// The byte that stands for the variant. Part of the wire format.
    pub open spec fn code(self) -> u8 {
        match self {
            Command::Nop => 0,
            Command::SetSpeedLimit(_) => 1,
            Command::SetMissionGoal(_) => 2,
            Command::CancelMission => 3,
            Command::EStop => 4,
            Command::ClearEStop => 5,
        }
    }

    fn tag(&self) -> (t: u8)
        ensures
            t == self.code(),
    {
        match self {
            Command::Nop => 0,
            Command::SetSpeedLimit(_) => 1,
            Command::SetMissionGoal(_) => 2,
            Command::CancelMission => 3,
            Command::EStop => 4,
            Command::ClearEStop => 5,
        }
    }

    /// The payload as two 8-byte words: what the variant carries, then zeros up
    /// to the length of the largest one, a goal.
    pub open spec fn payload(self) -> (u64, u64) {
        match self {
            Command::SetSpeedLimit(pct) => (pct as u64, 0),
            Command::SetMissionGoal(goal) => (goal.lat_deg.0, goal.lon_deg.0),
            _ => (0, 0),
        }
    }
}

/// A command from the base station, carried as an idempotent datagram.
///
/// The base retransmits the same frame until it sees `cmd_seq` echoed back in
/// the telemetry; the rover applies any frame newer than the last one it
/// applied and ignores repeats.
#[derive(Clone, Copy, Debug, PartialEq, Eq, Default, Structural)]
pub struct CommandFrame {
    /// Monotonic per base-station session, with wraparound.
    pub cmd_seq: u16,
    pub body: Command,
}

/// How far `to` lies ahead of `from` on the circle of 16-bit counters.
pub open spec fn ahead(from: u16, to: u16) -> int {
    (to - from) % 0x1_0000
}

/// Whether `seq` is newer than `last`: the nearer half of the sequence space
/// lies ahead.
pub open spec fn newer(seq: u16, last: u16) -> bool {
    0 < ahead(last, seq) < 0x8000
}

impl CommandFrame {
    /// Whether this frame is newer than the last applied sequence number,
    /// tolerant of wraparound. A frame more than 32767 ahead is read as stale
    /// rather than as an enormous jump forward.
    pub fn is_newer_than(&self, last_applied: u16) -> (r: bool)
        ensures
            r == newer(self.cmd_seq, last_applied),
    {
        self.cmd_seq != last_applied && self.cmd_seq.wrapping_sub(last_applied) < 0x8000
    }
}

impl Wire for CommandFrame {
    const TYPE_ID: u16 = 0x0802;
    const WIRE_LEN: usize = 19;
    const NAME: &'static str = "CommandFrame";

    open spec fn id() -> u16 {
        0x0802
    }

    open spec fn size() -> usize {
        19
    }

    open spec fn title() -> &'static str {
        "CommandFrame"
    }

    proof fn lemma_consts() {
        assert(Self::TYPE_ID == Self::id());
        assert(Self::WIRE_LEN == Self::size());
        assert(Self::NAME == Self::title());
    }

    open spec fn wire(self) -> Seq<u8> {
        Seq::<u8>::empty()
            + codec::u16_bytes(self.cmd_seq)
            + codec::u8_bytes(self.body.code())
            + codec::u64_bytes(self.body.payload().0)
            + codec::u64_bytes(self.body.payload().1)
    }

    open spec fn read(b: Seq<u8>) -> Result<Self, DecodeError> {
        let cmd_seq = codec::u16_at(b, 0);
        let tag = codec::u8_at(b, 2);
        if tag == 0 {
            Ok(CommandFrame { cmd_seq, body: Command::Nop })
        } else if tag == 1 {
            Ok(CommandFrame { cmd_seq, body: Command::SetSpeedLimit(codec::u8_at(b, 3)) })
        } else if tag == 2 {
            Ok(CommandFrame {
                cmd_seq,
                body: Command::SetMissionGoal(MissionGoal {
                    lat_deg: codec::real64_at(b, 3),
                    lon_deg: codec::real64_at(b, 11),
                }),
            })
        } else if tag == 3 {
            Ok(CommandFrame { cmd_seq, body: Command::CancelMission })
        } else if tag == 4 {
            Ok(CommandFrame { cmd_seq, body: Command::EStop })
        } else if tag == 5 {
            Ok(CommandFrame { cmd_seq, body: Command::ClearEStop })
        } else {
            Err(DecodeError::BadDiscriminant { field: "Command", value: tag })
        }
    }

    proof fn lemma_len(self) {
        broadcast use codec::group_codec;

    }

    proof fn lemma_round_trip(self, rest: Seq<u8>) {
        broadcast use codec::group_codec;

        let head = Seq::<u8>::empty() + codec::u16_bytes(self.cmd_seq) + codec::u8_bytes(
            self.body.code(),
        );
        codec::lemma_u64_low_byte(head, self.body.payload().0);
    }

    proof fn lemma_front(b: Seq<u8>, rest: Seq<u8>) {
        broadcast use codec::group_codec;

    }

    fn encode(&self, buf: &mut [u8]) -> (n: usize) {
        broadcast use codec::group_codec;

        let mut w = Writer::new(buf);
        w.u16(self.cmd_seq);
        w.u8(self.body.tag());
        match self.body {
            Command::SetSpeedLimit(pct) => {
                w.u64(pct as u64);
                w.u64(0);
            },
            Command::SetMissionGoal(goal) => {
                w.real64(goal.lat_deg);
                w.real64(goal.lon_deg);
            },
            Command::Nop | Command::CancelMission | Command::EStop | Command::ClearEStop => {
                w.u64(0);
                w.u64(0);
            },
        }
        proof {
            codec::lemma_parts(old(buf)@, 0);
            codec::lemma_parts(w.buf@, Self::size() as int);
        }
        w.len()
    }

    fn decode(buf: &[u8]) -> (r: Result<Self, DecodeError>) {
        check_len(buf, Self::WIRE_LEN)?;
        let mut r = Reader::new(buf);
        let cmd_seq: u16 = r.u16();
        let tag: u8 = r.u8();
        let body = match tag {
            0 => Command::Nop,
            1 => Command::SetSpeedLimit(r.u8()),
            2 => Command::SetMissionGoal(MissionGoal { lat_deg: r.real64(), lon_deg: r.real64() }),
            3 => Command::CancelMission,
            4 => Command::EStop,
            5 => Command::ClearEStop,
            _ => {
                return Err(DecodeError::BadDiscriminant { field: "Command", value: tag });
            },
        };
        Ok(CommandFrame { cmd_seq, body })
    }
}

/// Of two different sequence numbers that are not exactly half the circle
/// apart, exactly one is newer than the other; no number is newer than itself.
pub proof fn law_newer_is_one_sided(a: u16, b: u16)
    ensures
        !newer(a, a),
        a != b && ahead(a, b) != 0x8000 ==> newer(a, b) != newer(b, a),
        ahead(a, b) == 0x8000 ==> !newer(a, b) && !newer(b, a),
{
}

/// Counting on from a number gives newer numbers, across the wraparound, for
/// half the circle.
pub proof fn law_counting_on_is_newer(last: u16, steps: int)
    requires
        0 < steps < 0x8000,
    ensures
        newer(((last + steps) % 0x1_0000) as u16, last),
{
}

/// Where everything stands in a body of `MissionGoal`.
pub proof fn law_mission_goal_layout(m: MissionGoal)
    ensures
        m.wire().len() == 16,
        codec::real64_at(m.wire(), 0) == m.lat_deg,
        codec::real64_at(m.wire(), 8) == m.lon_deg,
{
    m.lemma_len();
    m.lemma_round_trip(Seq::empty());
    assert(m.wire() + Seq::<u8>::empty() =~= m.wire());
}

/// Where everything stands in a body of `MissionStatus`. Where there is no goal
/// its place holds zeros.
#[verifier::rlimit(40)]
pub proof fn law_mission_status_layout(m: MissionStatus)
    ensures
        MissionStatus::id() == 0x0701,
        m.wire().len() == 23,
        codec::bool_at(m.wire(), 0) == m.active,
        codec::real32_at(m.wire(), 1) == m.distance_remaining_m,
        codec::bool_at(m.wire(), 5) == (m.target is Some),
        m.target matches Some(goal) ==> codec::real64_at(m.wire(), 6) == goal.lat_deg
            && codec::real64_at(m.wire(), 14) == goal.lon_deg,
        m.target is None ==> codec::u64_at(m.wire(), 6) == 0 && codec::u64_at(m.wire(), 14) == 0,
        MissionState::of_code(codec::u8_at(m.wire(), 22)) == Ok::<_, DecodeError>(m.state),
{
    broadcast use codec::group_codec;

    m.lemma_len();
    m.lemma_round_trip(Seq::empty());
    assert(m.wire() + Seq::<u8>::empty() =~= m.wire());
}

/// Where everything stands in a body of `CommandFrame`: the number, the byte of
/// the command, and what the command carries.
#[verifier::rlimit(40)]
pub proof fn law_command_frame_layout(m: CommandFrame)
    ensures
        CommandFrame::id() == 0x0802,
        m.wire().len() == 19,
        codec::u16_at(m.wire(), 0) == m.cmd_seq,
        m.body is Nop <==> codec::u8_at(m.wire(), 2) == 0,
        m.body is SetSpeedLimit <==> codec::u8_at(m.wire(), 2) == 1,
        m.body is SetMissionGoal <==> codec::u8_at(m.wire(), 2) == 2,
        m.body is CancelMission <==> codec::u8_at(m.wire(), 2) == 3,
        m.body is EStop <==> codec::u8_at(m.wire(), 2) == 4,
        m.body is ClearEStop <==> codec::u8_at(m.wire(), 2) == 5,
        m.body matches Command::SetSpeedLimit(pct) ==> codec::u8_at(m.wire(), 3) == pct,
        m.body matches Command::SetMissionGoal(goal) ==> codec::real64_at(m.wire(), 3)
            == goal.lat_deg && codec::real64_at(m.wire(), 11) == goal.lon_deg,
{
    broadcast use codec::group_codec;

    m.lemma_len();
    m.lemma_round_trip(Seq::empty());
    assert(m.wire() + Seq::<u8>::empty() =~= m.wire());
}

/// A byte that stands for no command is refused.
pub proof fn law_unknown_commands_are_refused(b: Seq<u8>)
    ensures
        codec::u8_at(b, 2) > 5 <==> CommandFrame::read(b) is Err,
        codec::u8_at(b, 2) > 5 ==> CommandFrame::read(b) == Err::<CommandFrame, _>(
            DecodeError::BadDiscriminant { field: "Command", value: codec::u8_at(b, 2) },
        ),
{
}

/// Which of two numbers is newer is a matter of the way round: ahead by less
/// than half of the numbers.
pub proof fn law_newer_is_ahead(seq: u16, last: u16, steps: int)
    requires
        0 <= steps < 0x1_0000,
        seq == (last + steps) % 0x1_0000,
    ensures
        newer(seq, last) <==> 1 <= steps <= 0x7fff,
{
}

} // verus!
