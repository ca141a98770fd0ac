//! Perception, estimation and guidance.

use crate::msgs::codec;
use crate::msgs::codec::{check_len, DecodeError, Reader, Writer};
use crate::msgs::wire::Wire;
use crate::reals::Real32;
use vstd::prelude::*;

verus! {

/// Number of estimator states.
pub const EKF_STATES: usize = 5;

/// Index of the cross-track variance within [`RoverState::p_diag`].
pub const CROSS_TRACK: usize = 0;
/// Index of the heading variance within [`RoverState::p_diag`].
pub const HEADING_ERR: usize = 1;
/// Index of the curvature variance within [`RoverState::p_diag`].
pub const CURVATURE: usize = 2;
/// Index of the speed variance within [`RoverState::p_diag`].
pub const SPEED: usize = 3;
/// Index of the gyro bias variance within [`RoverState::p_diag`].
pub const GYRO_BIAS: usize = 4;

/// Lane geometry from perception, at roughly 30 Hz. All three geometry values are
/// measured at the lookahead point, not at the rover.
#[derive(Clone, Copy, Debug, PartialEq, Default)]
pub struct LaneMeasurement {
    /// Lane curvature, 1/metres.
    pub curvature_inv_m: Real32,
    /// Heading error relative to the lane tangent, radians. Positive means the
    /// correct response is to steer right.
    pub heading_err_rad: Real32,
    /// Lateral offset from lane centre, metres. Positive means the correct
    /// response is to steer right.
    pub cross_track_m: Real32,
    /// False when the detector found no usable lane this frame. The estimator
    /// skips its camera update and coasts.
    pub valid: bool,
    pub t_us: u32,
}

impl Wire for LaneMeasurement {
    const TYPE_ID: u16 = 0x0501;
    const WIRE_LEN: usize = 17;
    const NAME: &'static str = "LaneMeasurement";

    open spec fn id() -> u16 {
        0x0501
    }

    open spec fn size() -> usize {
        17
    }

    open spec fn title() -> &'static str {
        "LaneMeasurement"
    }

    proof fn lemma_consts() {
        assert(Self::TYPE_ID == Self::id());
        assert(Self::WIRE_LEN == Self::size());
        assert(Self::NAME == Self::title());
    }

    open spec fn wire(self) -> Seq<u8> {
        Seq::<u8>::empty()
            + codec::real32_bytes(self.curvature_inv_m)
            + codec::real32_bytes(self.heading_err_rad)
            + codec::real32_bytes(self.cross_track_m)
            + codec::bool_bytes(self.valid)
            + codec::u32_bytes(self.t_us)
    }

    open spec fn read(b: Seq<u8>) -> Result<Self, DecodeError> {
        Ok(LaneMeasurement {
            curvature_inv_m: codec::real32_at(b, 0),
            heading_err_rad: codec::real32_at(b, 4),
            cross_track_m: codec::real32_at(b, 8),
            valid: codec::bool_at(b, 12),
            t_us: codec::u32_at(b, 13),
        })
    }

    proof fn lemma_len(self) {
        broadcast use codec::group_codec;

    }

    proof fn lemma_round_trip(self, rest: Seq<u8>) {
        broadcast use codec::group_codec;

    }

    proof fn lemma_front(b: Seq<u8>, rest: Seq<u8>) {
        broadcast use codec::group_codec;

    }

    fn encode(&self, buf: &mut [u8]) -> (n: usize) {
        broadcast use codec::group_codec;

        let mut w = Writer::new(buf);
        w.real32(self.curvature_inv_m);
        w.real32(self.heading_err_rad);
        w.real32(self.cross_track_m);
        w.bool(self.valid);
        w.u32(self.t_us);
        proof {
            codec::lemma_parts(old(buf)@, 0);
            codec::lemma_parts(w.buf@, Self::size() as int);
        }
        w.len()
    }

    fn decode(buf: &[u8]) -> (r: Result<Self, DecodeError>) {
        check_len(buf, Self::WIRE_LEN)?;
        let mut r = Reader::new(buf);
        Ok(LaneMeasurement {
            curvature_inv_m: r.real32(),
            heading_err_rad: r.real32(),
            cross_track_m: r.real32(),
            valid: r.bool(),
            t_us: r.u32(),
        })
    }
}

/// Fused estimate of where the rover is relative to the lane, at 100 Hz.
/// Referenced to the front axle, not the lookahead point.
#[derive(Clone, Copy, Debug, PartialEq, Default)]
pub struct RoverState {
    /// Lateral offset from lane centre at the front axle, metres.
    pub cross_track_m: Real32,
    /// Heading error relative to the lane tangent, radians.
    pub heading_err_rad: Real32,
    /// Lane curvature ahead, 1/metres.
    pub curvature_inv_m: Real32,
    /// Forward speed, metres per second.
    pub speed_mps: Real32,
    /// Estimated gyro z-axis bias, rad/s.
    pub gyro_bias_radps: Real32,
    /// Diagonal of the covariance matrix.
    pub p_diag: [Real32; EKF_STATES],
    /// Milliseconds since the last accepted camera update. Saturates rather
    /// than wrapping.
    pub lane_age_ms: u16,
}

impl RoverState {
    /// The lateral variance, no less than zero. What is not a number counts as
    /// zero.
    pub open spec fn lateral_variance(self) -> Real32 {
        if Real32(0).below(self.p_diag[CROSS_TRACK as int]) {
            self.p_diag[CROSS_TRACK as int]
        } else {
            Real32(0)
        }
    }

    /// Variance of the lateral position estimate, m^2.
    pub fn cross_track_var(&self) -> (v: Real32)
        ensures
            v == self.lateral_variance(),
    {
        if Real32(0).is_below(self.p_diag[CROSS_TRACK]) {
            self.p_diag[CROSS_TRACK]
        } else {
            Real32(0)
        }
    }
}

impl Wire for RoverState {
    const TYPE_ID: u16 = 0x0601;
    const WIRE_LEN: usize = 42;
    const NAME: &'static str = "RoverState";

    open spec fn id() -> u16 {
        0x0601
    }

    open spec fn size() -> usize {
        42
    }

    open spec fn title() -> &'static str {
        "RoverState"
    }

    proof fn lemma_consts() {
        assert(Self::TYPE_ID == Self::id());
        assert(Self::WIRE_LEN == Self::size());
        assert(Self::NAME == Self::title());
    }

    open spec fn wire(self) -> Seq<u8> {
        Seq::<u8>::empty()
            + codec::real32_bytes(self.cross_track_m)
            + codec::real32_bytes(self.heading_err_rad)
            + codec::real32_bytes(self.curvature_inv_m)
            + codec::real32_bytes(self.speed_mps)
            + codec::real32_bytes(self.gyro_bias_radps)
            + codec::f32x5_bytes(self.p_diag)
            + codec::u16_bytes(self.lane_age_ms)
    }

    open spec fn read(b: Seq<u8>) -> Result<Self, DecodeError> {
        Ok(RoverState {
            cross_track_m: codec::real32_at(b, 0),
            heading_err_rad: codec::real32_at(b, 4),
            curvature_inv_m: codec::real32_at(b, 8),
            speed_mps: codec::real32_at(b, 12),
            gyro_bias_radps: codec::real32_at(b, 16),
            p_diag: codec::f32x5_at(b, 20),
            lane_age_ms: codec::u16_at(b, 40),
        })
    }

    proof fn lemma_len(self) {
        broadcast use codec::group_codec;

    }

    proof fn lemma_round_trip(self, rest: Seq<u8>) {
        broadcast use codec::group_codec;

    }

    proof fn lemma_front(b: Seq<u8>, rest: Seq<u8>) {
        broadcast use codec::group_codec;

    }

    fn encode(&self, buf: &mut [u8]) -> (n: usize) {
        broadcast use codec::group_codec;

        let mut w = Writer::new(buf);
        w.real32(self.cross_track_m);
        w.real32(self.heading_err_rad);
        w.real32(self.curvature_inv_m);
        w.real32(self.speed_mps);
        w.real32(self.gyro_bias_radps);
        w.f32x5(self.p_diag);
        w.u16(self.lane_age_ms);
        proof {
            codec::lemma_parts(old(buf)@, 0);
            codec::lemma_parts(w.buf@, Self::size() as int);
        }
        w.len()
    }

    fn decode(buf: &[u8]) -> (r: Result<Self, DecodeError>) {
        check_len(buf, Self::WIRE_LEN)?;
        let mut r = Reader::new(buf);
        Ok(RoverState {
            cross_track_m: r.real32(),
            heading_err_rad: r.real32(),
            curvature_inv_m: r.real32(),
            speed_mps: r.real32(),
            gyro_bias_radps: r.real32(),
            p_diag: r.f32x5(),
            lane_age_ms: r.u16(),
        })
    }
}

/// What the guidance law wants the rover to do, before safety limiting. A request
/// in physical units; the actuation task owns the conversion and every guard
/// rail.
#[derive(Clone, Copy, Debug, PartialEq, Default)]
pub struct MotionSetpoint {
    /// Requested steering angle, radians. Positive steers right.
    pub steer_rad: Real32,
    /// Requested forward speed, metres per second.
    pub speed_mps: Real32,
}

impl Wire for MotionSetpoint {
    const TYPE_ID: u16 = 0x0602;
    const WIRE_LEN: usize = 8;
    const NAME: &'static str = "MotionSetpoint";

    open spec fn id() -> u16 {
        0x0602
    }

    open spec fn size() -> usize {
        8
    }

    open spec fn title() -> &'static str {
        "MotionSetpoint"
    }

    proof fn lemma_consts() {
        assert(Self::TYPE_ID == Self::id());
        assert(Self::WIRE_LEN == Self::size());
        assert(Self::NAME == Self::title());
    }

    open spec fn wire(self) -> Seq<u8> {
        Seq::<u8>::empty()
            + codec::real32_bytes(self.steer_rad)
            + codec::real32_bytes(self.speed_mps)
    }

    open spec fn read(b: Seq<u8>) -> Result<Self, DecodeError> {
        Ok(MotionSetpoint {
            steer_rad: codec::real32_at(b, 0),
            speed_mps: codec::real32_at(b, 4),
        })
    }

    proof fn lemma_len(self) {
        broadcast use codec::group_codec;

    }

    proof fn lemma_round_trip(self, rest: Seq<u8>) {
        broadcast use codec::group_codec;

    }

    proof fn lemma_front(b: Seq<u8>, rest: Seq<u8>) {
        broadcast use codec::group_codec;

    }

    fn encode(&self, buf: &mut [u8]) -> (n: usize) {
        broadcast use codec::group_codec;

        let mut w = Writer::new(buf);
        w.real32(self.steer_rad);
        w.real32(self.speed_mps);
        proof {
            codec::lemma_parts(old(buf)@, 0);
            codec::lemma_parts(w.buf@, Self::size() as int);
        }
        w.len()
    }

    fn decode(buf: &[u8]) -> (r: Result<Self, DecodeError>) {
        check_len(buf, Self::WIRE_LEN)?;
        let mut r = Reader::new(buf);
        Ok(MotionSetpoint {
            steer_rad: r.real32(),
            speed_mps: r.real32(),
        })
    }
}

/// The lateral variance is the first of the diagonal where that is a positive
/// number, and zero where it is not.
pub proof fn law_lateral_variance(s: RoverState)
    ensures
        0 < s.p_diag[0].0 <= 0x7f80_0000 ==> s.lateral_variance() == s.p_diag[0],
        s.p_diag[0].0 > 0x7f80_0000 || s.p_diag[0].0 == 0 ==> s.lateral_variance() == Real32(0),
{
}

/// Where everything stands in a body of `LaneMeasurement`.
pub proof fn law_lane_measurement_layout(m: LaneMeasurement)
    ensures
        LaneMeasurement::id() == 0x0501,
        m.wire().len() == 17,
        codec::real32_at(m.wire(), 0) == m.curvature_inv_m,
        codec::real32_at(m.wire(), 4) == m.heading_err_rad,
        codec::real32_at(m.wire(), 8) == m.cross_track_m,
        codec::bool_at(m.wire(), 12) == m.valid,
        codec::u32_at(m.wire(), 13) == m.t_us,
{
    m.lemma_len();
    m.lemma_round_trip(Seq::empty());
    assert(m.wire() + Seq::<u8>::empty() =~= m.wire());
}

/// Where everything stands in a body of `RoverState`.
pub proof fn law_rover_state_layout(m: RoverState)
    ensures
        RoverState::id() == 0x0601,
        m.wire().len() == 42,
        codec::real32_at(m.wire(), 0) == m.cross_track_m,
        codec::real32_at(m.wire(), 4) == m.heading_err_rad,
        codec::real32_at(m.wire(), 8) == m.curvature_inv_m,
        codec::real32_at(m.wire(), 12) == m.speed_mps,
        codec::real32_at(m.wire(), 16) == m.gyro_bias_radps,
        codec::f32x5_at(m.wire(), 20) == m.p_diag,
        codec::u16_at(m.wire(), 40) == m.lane_age_ms,
{
    m.lemma_len();
    m.lemma_round_trip(Seq::empty());
    assert(m.wire() + Seq::<u8>::empty() =~= m.wire());
}

/// Where everything stands in a body of `MotionSetpoint`.
pub proof fn law_motion_setpoint_layout(m: MotionSetpoint)
    ensures
        MotionSetpoint::id() == 0x0602,
        m.wire().len() == 8,
        codec::real32_at(m.wire(), 0) == m.steer_rad,
        codec::real32_at(m.wire(), 4) == m.speed_mps,
{
    m.lemma_len();
    m.lemma_round_trip(Seq::empty());
    assert(m.wire() + Seq::<u8>::empty() =~= m.wire());
}

} // verus!
