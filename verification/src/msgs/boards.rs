//! Messages between the rover and its two microcontroller boards.

use crate::msgs::codec;
use crate::msgs::codec::{check_len, DecodeError, Reader, Writer};
use crate::msgs::flags::FaultBits;
use crate::msgs::wire::Wire;
use crate::reals::{Real32, MINUS_ONE, ONE};
use vstd::prelude::*;

verus! {

/// Inertial sample from the chassis board, at 100 Hz.
#[derive(Clone, Copy, Debug, PartialEq, Default)]
pub struct ImuSample {
    pub accel_mps2: [Real32; 3],
    pub gyro_radps: [Real32; 3],
    /// Board uptime in microseconds.
    pub t_us: u32,
}

impl Wire for ImuSample {
    const TYPE_ID: u16 = 0x0101;
    const WIRE_LEN: usize = 28;
    const NAME: &'static str = "ImuSample";

    open spec fn id() -> u16 {
        0x0101
    }

    open spec fn size() -> usize {
        28
    }

    open spec fn title() -> &'static str {
        "ImuSample"
    }

    proof fn lemma_consts() {
        assert(Self::TYPE_ID == Self::id());
        assert(Self::WIRE_LEN == Self::size());
        assert(Self::NAME == Self::title());
    }

    open spec fn wire(self) -> Seq<u8> {
        Seq::<u8>::empty()
            + codec::f32x3_bytes(self.accel_mps2)
            + codec::f32x3_bytes(self.gyro_radps)
            + codec::u32_bytes(self.t_us)
    }

    open spec fn read(b: Seq<u8>) -> Result<Self, DecodeError> {
        Ok(ImuSample {
            accel_mps2: codec::f32x3_at(b, 0),
            gyro_radps: codec::f32x3_at(b, 12),
            t_us: codec::u32_at(b, 24),
        })
    }

    proof fn lemma_len(self) {
        broadcast use codec::group_codec;

    }

    proof fn lemma_round_trip(self, rest: Seq<u8>) {
        broadcast use codec::group_codec;

    }

    proof fn lemma_front(b: Seq<u8>, rest: Seq<u8>) {
        broadcast use codec::group_codec;

    }

    fn encode(&self, buf: &mut [u8]) -> (n: usize) {
        broadcast use codec::group_codec;

        let mut w = Writer::new(buf);
        w.f32x3(self.accel_mps2);
        w.f32x3(self.gyro_radps);
        w.u32(self.t_us);
        proof {
            codec::lemma_parts(old(buf)@, 0);
            codec::lemma_parts(w.buf@, Self::size() as int);
        }
        w.len()
    }

    fn decode(buf: &[u8]) -> (r: Result<Self, DecodeError>) {
        check_len(buf, Self::WIRE_LEN)?;
        let mut r = Reader::new(buf);
        Ok(ImuSample {
            accel_mps2: r.f32x3(),
            gyro_radps: r.f32x3(),
            t_us: r.u32(),
        })
    }
}

/// Magnetic field. Optional and off by default: a gyro-bias aid, never a
/// heading reference.
#[derive(Clone, Copy, Debug, PartialEq, Default)]
pub struct MagSample {
    pub field_gauss: [Real32; 3],
    pub t_us: u32,
}

impl Wire for MagSample {
    const TYPE_ID: u16 = 0x0102;
    const WIRE_LEN: usize = 16;
    const NAME: &'static str = "MagSample";

    open spec fn id() -> u16 {
        0x0102
    }

    open spec fn size() -> usize {
        16
    }

    open spec fn title() -> &'static str {
        "MagSample"
    }

    proof fn lemma_consts() {
        assert(Self::TYPE_ID == Self::id());
        assert(Self::WIRE_LEN == Self::size());
        assert(Self::NAME == Self::title());
    }

    open spec fn wire(self) -> Seq<u8> {
        Seq::<u8>::empty()
            + codec::f32x3_bytes(self.field_gauss)
            + codec::u32_bytes(self.t_us)
    }

    open spec fn read(b: Seq<u8>) -> Result<Self, DecodeError> {
        Ok(MagSample {
            field_gauss: codec::f32x3_at(b, 0),
            t_us: codec::u32_at(b, 12),
        })
    }

    proof fn lemma_len(self) {
        broadcast use codec::group_codec;

    }

    proof fn lemma_round_trip(self, rest: Seq<u8>) {
        broadcast use codec::group_codec;

    }

    proof fn lemma_front(b: Seq<u8>, rest: Seq<u8>) {
        broadcast use codec::group_codec;

    }

    fn encode(&self, buf: &mut [u8]) -> (n: usize) {
        broadcast use codec::group_codec;

        let mut w = Writer::new(buf);
        w.f32x3(self.field_gauss);
        w.u32(self.t_us);
        proof {
            codec::lemma_parts(old(buf)@, 0);
            codec::lemma_parts(w.buf@, Self::size() as int);
        }
        w.len()
    }

    fn decode(buf: &[u8]) -> (r: Result<Self, DecodeError>) {
        check_len(buf, Self::WIRE_LEN)?;
        let mut r = Reader::new(buf);
        Ok(MagSample {
            field_gauss: r.f32x3(),
            t_us: r.u32(),
        })
    }
}

/// Chassis board liveness and fault report.
#[derive(Clone, Copy, Debug, PartialEq, Eq, Default)]
pub struct ChassisStatus {
    /// `seq` of the most recently applied chassis command.
    pub seq_echo: u16,
    /// True while the board is in the watchdog-tripped state: no command
    /// arrived within its timeout, throttle was ramped to zero and steering
    /// centred. Cleared only by an explicit zero-throttle command.
    pub watchdog_tripped: bool,
    pub fault: FaultBits,
    pub t_us: u32,
}

impl Wire for ChassisStatus {
    const TYPE_ID: u16 = 0x0103;
    const WIRE_LEN: usize = 8;
    const NAME: &'static str = "ChassisStatus";

    open spec fn id() -> u16 {
        0x0103
    }

    open spec fn size() -> usize {
        8
    }

    open spec fn title() -> &'static str {
        "ChassisStatus"
    }

    proof fn lemma_consts() {
        assert(Self::TYPE_ID == Self::id());
        assert(Self::WIRE_LEN == Self::size());
        assert(Self::NAME == Self::title());
    }

    open spec fn wire(self) -> Seq<u8> {
        Seq::<u8>::empty()
            + codec::u16_bytes(self.seq_echo)
            + codec::bool_bytes(self.watchdog_tripped)
            + codec::u8_bytes(self.fault.0)
            + codec::u32_bytes(self.t_us)
    }

    open spec fn read(b: Seq<u8>) -> Result<Self, DecodeError> {
        Ok(ChassisStatus {
            seq_echo: codec::u16_at(b, 0),
            watchdog_tripped: codec::bool_at(b, 2),
            fault: FaultBits(codec::u8_at(b, 3)),
            t_us: codec::u32_at(b, 4),
        })
    }

    proof fn lemma_len(self) {
        broadcast use codec::group_codec;

    }

    proof fn lemma_round_trip(self, rest: Seq<u8>) {
        broadcast use codec::group_codec;

    }

    proof fn lemma_front(b: Seq<u8>, rest: Seq<u8>) {
        broadcast use codec::group_codec;

    }

    fn encode(&self, buf: &mut [u8]) -> (n: usize) {
        broadcast use codec::group_codec;

        let mut w = Writer::new(buf);
        w.u16(self.seq_echo);
        w.bool(self.watchdog_tripped);
        w.u8(self.fault.0);
        w.u32(self.t_us);
        proof {
            codec::lemma_parts(old(buf)@, 0);
            codec::lemma_parts(w.buf@, Self::size() as int);
        }
        w.len()
    }

    fn decode(buf: &[u8]) -> (r: Result<Self, DecodeError>) {
        check_len(buf, Self::WIRE_LEN)?;
        let mut r = Reader::new(buf);
        Ok(ChassisStatus {
            seq_echo: r.u16(),
            watchdog_tripped: r.bool(),
            fault: FaultBits(r.u8()),
            t_us: r.u32(),
        })
    }
}

/// Actuation command for the chassis board, at 50 Hz.
#[derive(Clone, Copy, Debug, PartialEq, Default)]
pub struct ChassisCommand {
    /// `-1.0` full left to `+1.0` full right. Positive steers right.
    pub steer: Real32,
    /// `-1.0` full reverse to `+1.0` full forward. Exactly `0.0` is stop.
    pub throttle: Real32,
    /// Increments per command. Echoed by the board, whose watchdog uses it to
    /// tell a fresh command from a stale one.
    pub seq: u16,
}

impl ChassisCommand {
    /// Stop the rover and centre the steering. Also what the firmware applies
    /// on a watchdog trip.
    pub open spec fn stopped() -> ChassisCommand {
        ChassisCommand { steer: Real32(0), throttle: Real32(0), seq: 0 }
    }

    /// The command that stops the rover.
    pub fn stop() -> (c: Self)
        ensures
            c == ChassisCommand::stopped(),
    {
        ChassisCommand { steer: Real32(0), throttle: Real32(0), seq: 0 }
    }

    /// The command with both channels inside their limits.
    pub open spec fn within_limits(self) -> ChassisCommand {
        ChassisCommand {
            steer: self.steer.limited(Real32(MINUS_ONE), Real32(ONE)),
            throttle: self.throttle.limited(Real32(MINUS_ONE), Real32(ONE)),
            seq: self.seq,
        }
    }

    /// Clamp both channels into `[-1, 1]`. Call before sending: the firmware
    /// should never be the only thing between a bad gain and the hardware.
    pub fn clamped(self) -> (c: Self)
        ensures
            c == self.within_limits(),
    {
        ChassisCommand {
            steer: self.steer.clamp(Real32(MINUS_ONE), Real32(ONE)),
            throttle: self.throttle.clamp(Real32(MINUS_ONE), Real32(ONE)),
            seq: self.seq,
        }
    }
}

impl Wire for ChassisCommand {
    const TYPE_ID: u16 = 0x0201;
    const WIRE_LEN: usize = 10;
    const NAME: &'static str = "ChassisCommand";

    open spec fn id() -> u16 {
        0x0201
    }

    open spec fn size() -> usize {
        10
    }

    open spec fn title() -> &'static str {
        "ChassisCommand"
    }

    proof fn lemma_consts() {
        assert(Self::TYPE_ID == Self::id());
        assert(Self::WIRE_LEN == Self::size());
        assert(Self::NAME == Self::title());
    }

    open spec fn wire(self) -> Seq<u8> {
        Seq::<u8>::empty()
            + codec::real32_bytes(self.steer)
            + codec::real32_bytes(self.throttle)
            + codec::u16_bytes(self.seq)
    }

    open spec fn read(b: Seq<u8>) -> Result<Self, DecodeError> {
        Ok(ChassisCommand {
            steer: codec::real32_at(b, 0),
            throttle: codec::real32_at(b, 4),
            seq: codec::u16_at(b, 8),
        })
    }

    proof fn lemma_len(self) {
        broadcast use codec::group_codec;

    }

    proof fn lemma_round_trip(self, rest: Seq<u8>) {
        broadcast use codec::group_codec;

    }

    proof fn lemma_front(b: Seq<u8>, rest: Seq<u8>) {
        broadcast use codec::group_codec;

    }

    fn encode(&self, buf: &mut [u8]) -> (n: usize) {
        broadcast use codec::group_codec;

        let mut w = Writer::new(buf);
        w.real32(self.steer);
        w.real32(self.throttle);
        w.u16(self.seq);
        proof {
            codec::lemma_parts(old(buf)@, 0);
            codec::lemma_parts(w.buf@, Self::size() as int);
        }
        w.len()
    }

    fn decode(buf: &[u8]) -> (r: Result<Self, DecodeError>) {
        check_len(buf, Self::WIRE_LEN)?;
        let mut r = Reader::new(buf);
        Ok(ChassisCommand {
            steer: r.real32(),
            throttle: r.real32(),
            seq: r.u16(),
        })
    }
}

/// Wheel encoder counts, at 10 Hz. Counts are free-running and signed; consumers
/// difference consecutive samples.
#[derive(Clone, Copy, Debug, PartialEq, Eq, Default)]
pub struct WheelSensors {
    pub ticks_left: i32,
    pub ticks_right: i32,
    pub t_us: u32,
}

impl Wire for WheelSensors {
    const TYPE_ID: u16 = 0x0301;
    const WIRE_LEN: usize = 12;
    const NAME: &'static str = "WheelSensors";

    open spec fn id() -> u16 {
        0x0301
    }

    open spec fn size() -> usize {
        12
    }

    open spec fn title() -> &'static str {
        "WheelSensors"
    }

    proof fn lemma_consts() {
        assert(Self::TYPE_ID == Self::id());
        assert(Self::WIRE_LEN == Self::size());
        assert(Self::NAME == Self::title());
    }

    open spec fn wire(self) -> Seq<u8> {
        Seq::<u8>::empty()
            + codec::i32_bytes(self.ticks_left)
            + codec::i32_bytes(self.ticks_right)
            + codec::u32_bytes(self.t_us)
    }

    open spec fn read(b: Seq<u8>) -> Result<Self, DecodeError> {
        Ok(WheelSensors {
            ticks_left: codec::i32_at(b, 0),
            ticks_right: codec::i32_at(b, 4),
            t_us: codec::u32_at(b, 8),
        })
    }

    proof fn lemma_len(self) {
        broadcast use codec::group_codec;

    }

    proof fn lemma_round_trip(self, rest: Seq<u8>) {
        broadcast use codec::group_codec;

    }

    proof fn lemma_front(b: Seq<u8>, rest: Seq<u8>) {
        broadcast use codec::group_codec;

    }

    fn encode(&self, buf: &mut [u8]) -> (n: usize) {
        broadcast use codec::group_codec;

        let mut w = Writer::new(buf);
        w.i32(self.ticks_left);
        w.i32(self.ticks_right);
        w.u32(self.t_us);
        proof {
            codec::lemma_parts(old(buf)@, 0);
            codec::lemma_parts(w.buf@, Self::size() as int);
        }
        w.len()
    }

    fn decode(buf: &[u8]) -> (r: Result<Self, DecodeError>) {
        check_len(buf, Self::WIRE_LEN)?;
        let mut r = Reader::new(buf);
        Ok(WheelSensors {
            ticks_left: r.i32(),
            ticks_right: r.i32(),
            t_us: r.u32(),
        })
    }
}

/// Battery bus voltage and current, at 5 Hz.
#[derive(Clone, Copy, Debug, PartialEq, Default)]
pub struct PowerSample {
    pub bus_volts: Real32,
    pub current_amps: Real32,
}

impl Wire for PowerSample {
    const TYPE_ID: u16 = 0x0302;
    const WIRE_LEN: usize = 8;
    const NAME: &'static str = "PowerSample";

    open spec fn id() -> u16 {
        0x0302
    }

    open spec fn size() -> usize {
        8
    }

    open spec fn title() -> &'static str {
        "PowerSample"
    }

    proof fn lemma_consts() {
        assert(Self::TYPE_ID == Self::id());
        assert(Self::WIRE_LEN == Self::size());
        assert(Self::NAME == Self::title());
    }

    open spec fn wire(self) -> Seq<u8> {
        Seq::<u8>::empty()
            + codec::real32_bytes(self.bus_volts)
            + codec::real32_bytes(self.current_amps)
    }

    open spec fn read(b: Seq<u8>) -> Result<Self, DecodeError> {
        Ok(PowerSample {
            bus_volts: codec::real32_at(b, 0),
            current_amps: codec::real32_at(b, 4),
        })
    }

    proof fn lemma_len(self) {
        broadcast use codec::group_codec;

    }

    proof fn lemma_round_trip(self, rest: Seq<u8>) {
        broadcast use codec::group_codec;

    }

    proof fn lemma_front(b: Seq<u8>, rest: Seq<u8>) {
        broadcast use codec::group_codec;

    }

    fn encode(&self, buf: &mut [u8]) -> (n: usize) {
        broadcast use codec::group_codec;

        let mut w = Writer::new(buf);
        w.real32(self.bus_volts);
        w.real32(self.current_amps);
        proof {
            codec::lemma_parts(old(buf)@, 0);
            codec::lemma_parts(w.buf@, Self::size() as int);
        }
        w.len()
    }

    fn decode(buf: &[u8]) -> (r: Result<Self, DecodeError>) {
        check_len(buf, Self::WIRE_LEN)?;
        let mut r = Reader::new(buf);
        Ok(PowerSample {
            bus_volts: r.real32(),
            current_amps: r.real32(),
        })
    }
}

/// Where everything stands in a body of `ImuSample`.
pub proof fn law_imu_sample_layout(m: ImuSample)
    ensures
        ImuSample::id() == 0x0101,
        m.wire().len() == 28,
        codec::f32x3_at(m.wire(), 0) == m.accel_mps2,
        codec::f32x3_at(m.wire(), 12) == m.gyro_radps,
        codec::u32_at(m.wire(), 24) == m.t_us,
{
    m.lemma_len();
    m.lemma_round_trip(Seq::empty());
    assert(m.wire() + Seq::<u8>::empty() =~= m.wire());
}

/// Where everything stands in a body of `MagSample`.
pub proof fn law_mag_sample_layout(m: MagSample)
    ensures
        MagSample::id() == 0x0102,
        m.wire().len() == 16,
        codec::f32x3_at(m.wire(), 0) == m.field_gauss,
        codec::u32_at(m.wire(), 12) == m.t_us,
{
    m.lemma_len();
    m.lemma_round_trip(Seq::empty());
    assert(m.wire() + Seq::<u8>::empty() =~= m.wire());
}

/// Where everything stands in a body of `ChassisStatus`.
pub proof fn law_chassis_status_layout(m: ChassisStatus)
    ensures
        ChassisStatus::id() == 0x0103,
        m.wire().len() == 8,
        codec::u16_at(m.wire(), 0) == m.seq_echo,
        codec::bool_at(m.wire(), 2) == m.watchdog_tripped,
        FaultBits(codec::u8_at(m.wire(), 3)) == m.fault,
        codec::u32_at(m.wire(), 4) == m.t_us,
{
    m.lemma_len();
    m.lemma_round_trip(Seq::empty());
    assert(m.wire() + Seq::<u8>::empty() =~= m.wire());
}

/// Where everything stands in a body of `ChassisCommand`.
pub proof fn law_chassis_command_layout(m: ChassisCommand)
    ensures
        ChassisCommand::id() == 0x0201,
        m.wire().len() == 10,
        codec::real32_at(m.wire(), 0) == m.steer,
        codec::real32_at(m.wire(), 4) == m.throttle,
        codec::u16_at(m.wire(), 8) == m.seq,
{
    m.lemma_len();
    m.lemma_round_trip(Seq::empty());
    assert(m.wire() + Seq::<u8>::empty() =~= m.wire());
}

/// Where everything stands in a body of `WheelSensors`.
pub proof fn law_wheel_sensors_layout(m: WheelSensors)
    ensures
        WheelSensors::id() == 0x0301,
        m.wire().len() == 12,
        codec::i32_at(m.wire(), 0) == m.ticks_left,
        codec::i32_at(m.wire(), 4) == m.ticks_right,
        codec::u32_at(m.wire(), 8) == m.t_us,
{
    m.lemma_len();
    m.lemma_round_trip(Seq::empty());
    assert(m.wire() + Seq::<u8>::empty() =~= m.wire());
}

/// Where everything stands in a body of `PowerSample`.
pub proof fn law_power_sample_layout(m: PowerSample)
    ensures
        PowerSample::id() == 0x0302,
        m.wire().len() == 8,
        codec::real32_at(m.wire(), 0) == m.bus_volts,
        codec::real32_at(m.wire(), 4) == m.current_amps,
{
    m.lemma_len();
    m.lemma_round_trip(Seq::empty());
    assert(m.wire() + Seq::<u8>::empty() =~= m.wire());
}

/// What is sent stays inside the limits of both channels, each for itself, and
/// what was inside is not changed. A stop is neither channel moved.
pub proof fn law_commands_are_limited(c: ChassisCommand)
    ensures
        ({
            let w = c.within_limits();
            &&& w.seq == c.seq
            &&& Real32(0xbf80_0000).at_most(c.steer) && c.steer.at_most(Real32(0x3f80_0000))
                ==> w.steer == c.steer
            &&& Real32(0xbf80_0000).at_most(c.throttle) && c.throttle.at_most(Real32(0x3f80_0000))
                ==> w.throttle == c.throttle
            &&& Real32(0x3f80_0000).below(c.steer) ==> w.steer == Real32(0x3f80_0000)
            &&& Real32(0x3f80_0000).below(c.throttle) ==> w.throttle == Real32(0x3f80_0000)
            &&& c.steer.below(Real32(0xbf80_0000)) ==> w.steer == Real32(0xbf80_0000)
            &&& c.throttle.below(Real32(0xbf80_0000)) ==> w.throttle == Real32(0xbf80_0000)
        }),
        ChassisCommand::stopped().steer == Real32(0) && ChassisCommand::stopped().throttle
            == Real32(0),
{
}

} // verus!
