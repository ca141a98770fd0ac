//! The feed to the base station.

use crate::msgs::boards::PowerSample;
use crate::msgs::codec;
use crate::msgs::codec::{check_len, DecodeError, Reader, Writer};
use crate::msgs::flags::HealthBits;
use crate::msgs::gnss::GnssFix;
use crate::msgs::mission::MissionStatus;
use crate::msgs::motion::RoverState;
use crate::msgs::wire::Wire;
use vstd::prelude::*;
use vstd::slice::slice_subrange;

verus! {

/// Full telemetry frame for the LAN, at 5 Hz. Composed of the same types the
/// rest of the system uses rather than re-flattening them.
#[derive(Clone, Copy, Debug, PartialEq, Default)]
pub struct Telemetry {
    pub seq: u32,
    pub t_us: u64,
    pub state: RoverState,
    pub mission: MissionStatus,
    pub power: PowerSample,
    /// The correctable receiver.
    pub rtk: GnssFix,
    /// The backup receiver, as a cross-check and fallback.
    pub backup: GnssFix,
    /// Most recent command sequence number the rover applied: the
    /// acknowledgement the base station retransmits until it sees.
    pub last_cmd_seq: u16,
    pub health: HealthBits,
}

/// Write `msg` at offset `n` of `buf`, and nothing else.
fn encode_at<T: Wire>(msg: &T, buf: &mut [u8], n: usize) -> (end: usize)
    requires
        n + T::size() <= old(buf)@.len(),
    ensures
        codec::wrote(old(buf)@, n, final(buf)@, end, msg.wire()),
        end == n + T::size(),
{
    proof {
        T::lemma_consts();
    }
    let end: usize = buf.len() - (buf.len() - n - T::WIRE_LEN);
    let ghost before = buf@;
    let ghost after = msg.wire() + before.skip(n as int).skip(T::size() as int);
    let (_head, tail) = buf.split_at_mut(n);
    msg.encode(tail);
    proof {
        msg.lemma_len();
        let b1 = before.take(n as int) + after;
        assert(b1.take(n + T::size()) =~= before.take(n as int) + msg.wire());
        assert forall|k: int| n + T::size() <= k <= b1.len() implies #[trigger] b1.skip(k)
            == before.skip(k) by {
            assert(b1.skip(k) =~= before.skip(k));
        }
    }
    end
}

impl Wire for Telemetry {
    const TYPE_ID: u16 = 0x0801;
    const WIRE_LEN: usize = 175;
    const NAME: &'static str = "Telemetry";

    open spec fn id() -> u16 {
        0x0801
    }

    open spec fn size() -> usize {
        175
    }

    open spec fn title() -> &'static str {
        "Telemetry"
    }

    proof fn lemma_consts() {
        assert(Self::TYPE_ID == Self::id());
        assert(Self::WIRE_LEN == Self::size());
        assert(Self::NAME == Self::title());
    }

    open spec fn wire(self) -> Seq<u8> {
        Seq::<u8>::empty()
            + codec::u32_bytes(self.seq)
            + codec::u64_bytes(self.t_us)
            + self.state.wire()
            + self.mission.wire()
            + self.power.wire()
            + self.rtk.wire()
            + self.backup.wire()
            + codec::u16_bytes(self.last_cmd_seq)
            + codec::u16_bytes(self.health.0)
    }

    /// The five nested messages are read in order, each from its own offset,
    /// and the first one that fails decides the error.
    open spec fn read(b: Seq<u8>) -> Result<Self, DecodeError> {
        match (
            RoverState::read(b.skip(12)),
            MissionStatus::read(b.skip(54)),
            PowerSample::read(b.skip(77)),
            GnssFix::read(b.skip(85)),
            GnssFix::read(b.skip(128)),
        ) {
            (Err(e), _, _, _, _) => Err(e),
            (_, Err(e), _, _, _) => Err(e),
            (_, _, Err(e), _, _) => Err(e),
            (_, _, _, Err(e), _) => Err(e),
            (_, _, _, _, Err(e)) => Err(e),
            (Ok(state), Ok(mission), Ok(power), Ok(rtk), Ok(backup)) => Ok(Telemetry {
                seq: codec::u32_at(b, 0),
                t_us: codec::u64_at(b, 4),
                state,
                mission,
                power,
                rtk,
                backup,
                last_cmd_seq: codec::u16_at(b, 171),
                health: HealthBits(codec::u16_at(b, 173)),
            }),
        }
    }

    proof fn lemma_len(self) {
        broadcast use codec::group_codec;

        self.state.lemma_len();
        self.mission.lemma_len();
        self.power.lemma_len();
        self.rtk.lemma_len();
        self.backup.lemma_len();
    }

    proof fn lemma_round_trip(self, rest: Seq<u8>) {
        broadcast use codec::group_codec;

        self.state.lemma_len();
        self.mission.lemma_len();
        self.power.lemma_len();
        self.rtk.lemma_len();
        self.backup.lemma_len();
        let end = codec::u16_bytes(self.last_cmd_seq) + codec::u16_bytes(self.health.0) + rest;
        let b = self.wire() + rest;
        let after_rtk = self.backup.wire() + end;
        let after_power = self.rtk.wire() + after_rtk;
        let after_mission = self.power.wire() + after_power;
        let after_state = self.mission.wire() + after_mission;
        assert(b.skip(128) =~= after_rtk);
        assert(b.skip(85) =~= after_power);
        assert(b.skip(77) =~= after_mission);
        assert(b.skip(54) =~= after_state);
        assert(b.skip(12) =~= self.state.wire() + after_state);
        self.state.lemma_round_trip(after_state);
        self.mission.lemma_round_trip(after_mission);
        self.power.lemma_round_trip(after_power);
        self.rtk.lemma_round_trip(after_rtk);
        self.backup.lemma_round_trip(end);
    }

    proof fn lemma_front(b: Seq<u8>, rest: Seq<u8>) {
        broadcast use codec::group_codec;

        assert((b + rest).skip(12) =~= b.skip(12) + rest);
        assert((b + rest).skip(54) =~= b.skip(54) + rest);
        assert((b + rest).skip(77) =~= b.skip(77) + rest);
        assert((b + rest).skip(85) =~= b.skip(85) + rest);
        assert((b + rest).skip(128) =~= b.skip(128) + rest);
        RoverState::lemma_front(b.skip(12), rest);
        MissionStatus::lemma_front(b.skip(54), rest);
        PowerSample::lemma_front(b.skip(77), rest);
        GnssFix::lemma_front(b.skip(85), rest);
        GnssFix::lemma_front(b.skip(128), rest);
    }

    fn encode(&self, buf: &mut [u8]) -> (n: usize) {
        broadcast use codec::group_codec;

        let mut w = Writer::new(buf);
        w.u32(self.seq);
        w.u64(self.t_us);
        let mut n: usize = w.len();
        n = encode_at(&self.state, buf, n);
        n = encode_at(&self.mission, buf, n);
        n = encode_at(&self.power, buf, n);
        n = encode_at(&self.rtk, buf, n);
        n = encode_at(&self.backup, buf, n);
        let ghost before = buf@;
        let mut w = Writer { buf, pos: n };
        w.u16(self.last_cmd_seq);
        w.u16(self.health.0);
        proof {
            codec::lemma_parts(old(buf)@, 0);
            codec::lemma_parts(w.buf@, Self::size() as int);
        }
        w.len()
    }

    fn decode(buf: &[u8]) -> (r: Result<Self, DecodeError>) {
        check_len(buf, Self::WIRE_LEN)?;
        let mut r = Reader::new(buf);
        let seq: u32 = r.u32();
        let t_us: u64 = r.u64();
        let state = RoverState::decode(slice_subrange(buf, 12, buf.len()))?;
        let mission = MissionStatus::decode(slice_subrange(buf, 54, buf.len()))?;
        let power = PowerSample::decode(slice_subrange(buf, 77, buf.len()))?;
        let rtk = GnssFix::decode(slice_subrange(buf, 85, buf.len()))?;
        let backup = GnssFix::decode(slice_subrange(buf, 128, buf.len()))?;
        let mut r = Reader { buf, pos: 171 };
        Ok(Telemetry {
            seq,
            t_us,
            state,
            mission,
            power,
            rtk,
            backup,
            last_cmd_seq: r.u16(),
            health: HealthBits(r.u16()),
        })
    }
}

/// Where everything stands in a body of `Telemetry`: the messages that it is
/// made of stand in it as they are.
#[verifier::rlimit(40)]
pub proof fn law_telemetry_layout(m: Telemetry)
    ensures
        Telemetry::id() == 0x0801,
        m.wire().len() == 175,
        codec::u32_at(m.wire(), 0) == m.seq,
        codec::u64_at(m.wire(), 4) == m.t_us,
        m.wire().subrange(12, 54) == m.state.wire(),
        m.wire().subrange(54, 77) == m.mission.wire(),
        m.wire().subrange(77, 85) == m.power.wire(),
        m.wire().subrange(85, 128) == m.rtk.wire(),
        m.wire().subrange(128, 171) == m.backup.wire(),
        codec::u16_at(m.wire(), 171) == m.last_cmd_seq,
        codec::u16_at(m.wire(), 173) == m.health.0,
{
    broadcast use codec::group_codec;

    m.lemma_len();
    m.lemma_round_trip(Seq::empty());
    assert(m.wire() + Seq::<u8>::empty() =~= m.wire());
    m.state.lemma_len();
    m.mission.lemma_len();
    m.power.lemma_len();
    m.rtk.lemma_len();
    m.backup.lemma_len();
    assert(m.wire().subrange(12, 54) =~= m.state.wire());
    assert(m.wire().subrange(54, 77) =~= m.mission.wire());
    assert(m.wire().subrange(77, 85) =~= m.power.wire());
    assert(m.wire().subrange(85, 128) =~= m.rtk.wire());
    assert(m.wire().subrange(128, 171) =~= m.backup.wire());
}

} // verus!
