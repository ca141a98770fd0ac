//! Debug streams and board self-diagnostics.

use crate::msgs::codec;
use crate::msgs::codec::{check_len, DecodeError, Reader, Writer};
use crate::msgs::flags::PostBits;
use crate::msgs::kinds::{BoardId, ResetCause};
use crate::msgs::wire::Wire;
use crate::reals::Real32;
use vstd::prelude::*;

verus! {

/// Internals of the closed-loop speed controller, at the encoder rate.
#[derive(Clone, Copy, Debug, PartialEq, Default)]
pub struct SpeedLoopDebug {
    pub measured_left_tps: Real32,
    pub measured_right_tps: Real32,
    pub target_tps: Real32,
    /// Error as a percentage of full scale, the unit the controller works in.
    pub error_pct: Real32,
    pub pid_output_pct: Real32,
}

impl Wire for SpeedLoopDebug {
    const TYPE_ID: u16 = 0x0901;
    const WIRE_LEN: usize = 20;
    const NAME: &'static str = "SpeedLoopDebug";

    open spec fn id() -> u16 {
        0x0901
    }

    open spec fn size() -> usize {
        20
    }

    open spec fn title() -> &'static str {
        "SpeedLoopDebug"
    }

    proof fn lemma_consts() {
        assert(Self::TYPE_ID == Self::id());
        assert(Self::WIRE_LEN == Self::size());
        assert(Self::NAME == Self::title());
    }

    open spec fn wire(self) -> Seq<u8> {
        Seq::<u8>::empty()
            + codec::real32_bytes(self.measured_left_tps)
            + codec::real32_bytes(self.measured_right_tps)
            + codec::real32_bytes(self.target_tps)
            + codec::real32_bytes(self.error_pct)
            + codec::real32_bytes(self.pid_output_pct)
    }

    open spec fn read(b: Seq<u8>) -> Result<Self, DecodeError> {
        Ok(SpeedLoopDebug {
            measured_left_tps: codec::real32_at(b, 0),
            measured_right_tps: codec::real32_at(b, 4),
            target_tps: codec::real32_at(b, 8),
            error_pct: codec::real32_at(b, 12),
            pid_output_pct: codec::real32_at(b, 16),
        })
    }

    proof fn lemma_len(self) {
        broadcast use codec::group_codec;

    }

    proof fn lemma_round_trip(self, rest: Seq<u8>) {
        broadcast use codec::group_codec;

    }

    proof fn lemma_front(b: Seq<u8>, rest: Seq<u8>) {
        broadcast use codec::group_codec;

    }

    fn encode(&self, buf: &mut [u8]) -> (n: usize) {
        broadcast use codec::group_codec;

        let mut w = Writer::new(buf);
        w.real32(self.measured_left_tps);
        w.real32(self.measured_right_tps);
        w.real32(self.target_tps);
        w.real32(self.error_pct);
        w.real32(self.pid_output_pct);
        proof {
            codec::lemma_parts(old(buf)@, 0);
            codec::lemma_parts(w.buf@, Self::size() as int);
        }
        w.len()
    }

    fn decode(buf: &[u8]) -> (r: Result<Self, DecodeError>) {
        check_len(buf, Self::WIRE_LEN)?;
        let mut r = Reader::new(buf);
        Ok(SpeedLoopDebug {
            measured_left_tps: r.real32(),
            measured_right_tps: r.real32(),
            target_tps: r.real32(),
            error_pct: r.real32(),
            pid_output_pct: r.real32(),
        })
    }
}

/// Estimator innovation for one camera update.
#[derive(Clone, Copy, Debug, PartialEq, Default)]
pub struct EkfDebug {
    /// Measurement minus prediction:
    /// `[cross_track_m, heading_err_rad, curvature_inv_m]`.
    pub innovation: [Real32; 3],
    /// Normalised innovation squared.
    pub nis: Real32,
    /// True when the chi-square gate rejected this update.
    pub gated: bool,
}

impl Wire for EkfDebug {
    const TYPE_ID: u16 = 0x0902;
    const WIRE_LEN: usize = 17;
    const NAME: &'static str = "EkfDebug";

    open spec fn id() -> u16 {
        0x0902
    }

    open spec fn size() -> usize {
        17
    }

    open spec fn title() -> &'static str {
        "EkfDebug"
    }

    proof fn lemma_consts() {
        assert(Self::TYPE_ID == Self::id());
        assert(Self::WIRE_LEN == Self::size());
        assert(Self::NAME == Self::title());
    }

    open spec fn wire(self) -> Seq<u8> {
        Seq::<u8>::empty()
            + codec::f32x3_bytes(self.innovation)
            + codec::real32_bytes(self.nis)
            + codec::bool_bytes(self.gated)
    }

    open spec fn read(b: Seq<u8>) -> Result<Self, DecodeError> {
        Ok(EkfDebug {
            innovation: codec::f32x3_at(b, 0),
            nis: codec::real32_at(b, 12),
            gated: codec::bool_at(b, 16),
        })
    }

    proof fn lemma_len(self) {
        broadcast use codec::group_codec;

    }

    proof fn lemma_round_trip(self, rest: Seq<u8>) {
        broadcast use codec::group_codec;

    }

    proof fn lemma_front(b: Seq<u8>, rest: Seq<u8>) {
        broadcast use codec::group_codec;

    }

    fn encode(&self, buf: &mut [u8]) -> (n: usize) {
        broadcast use codec::group_codec;

        let mut w = Writer::new(buf);
        w.f32x3(self.innovation);
        w.real32(self.nis);
        w.bool(self.gated);
        proof {
            codec::lemma_parts(old(buf)@, 0);
            codec::lemma_parts(w.buf@, Self::size() as int);
        }
        w.len()
    }

    fn decode(buf: &[u8]) -> (r: Result<Self, DecodeError>) {
        check_len(buf, Self::WIRE_LEN)?;
        let mut r = Reader::new(buf);
        Ok(EkfDebug {
            innovation: r.f32x3(),
            nis: r.real32(),
            gated: r.bool(),
        })
    }
}

/// Board self-diagnostics: power-on self-test results plus the runtime facts that
/// only the board itself can see. Published once after the self-test and then at
/// 1 Hz.
#[derive(Clone, Copy, Debug, PartialEq, Eq, Default)]
pub struct BoardDiagnostics {
    pub board: BoardId,
    /// Which checks ran.
    pub post_run: PostBits,
    /// Which checks passed.
    pub post_pass: PostBits,
    pub reset_cause: ResetCause,
    pub phy_id: u32,
    pub link_speed_mbps: u8,
    pub link_full_duplex: bool,
    pub phy_symbol_errors: u16,
    pub uptime_s: u32,
    pub tx_drops: u16,
}

impl BoardDiagnostics {
    /// Checks that ran and did not pass. A check that did not run is not a
    /// failure.
    pub open spec fn failed_checks(self) -> PostBits {
        PostBits(self.post_run.0 & !self.post_pass.0)
    }

    pub fn post_failures(&self) -> (f: PostBits)
        ensures
            f == self.failed_checks(),
    {
        PostBits(self.post_run.0 & !self.post_pass.0)
    }

    pub fn post_ok(&self) -> (r: bool)
        ensures
            r == (self.failed_checks().0 == 0),
    {
        self.post_failures().is_clear()
    }
}

/// A check is reported as failed exactly when it ran and did not pass.
pub proof fn law_failed_checks(d: BoardDiagnostics, check: PostBits)
    ensures
        d.failed_checks().has(check) <==> d.post_run.has(check) && d.post_pass.0 & check.0 == 0,
{
    let (run, pass, c) = (d.post_run.0, d.post_pass.0, check.0);
    assert((run & !pass) & c == c <==> run & c == c && pass & c == 0) by (bit_vector);
}

impl Wire for BoardDiagnostics {
    const TYPE_ID: u16 = 0x0903;
    const WIRE_LEN: usize = 20;
    const NAME: &'static str = "BoardDiagnostics";

    open spec fn id() -> u16 {
        0x0903
    }

    open spec fn size() -> usize {
        20
    }

    open spec fn title() -> &'static str {
        "BoardDiagnostics"
    }

    proof fn lemma_consts() {
        assert(Self::TYPE_ID == Self::id());
        assert(Self::WIRE_LEN == Self::size());
        assert(Self::NAME == Self::title());
    }

    open spec fn wire(self) -> Seq<u8> {
        Seq::<u8>::empty()
            + codec::u8_bytes(self.board.code())
            + codec::u16_bytes(self.post_run.0)
            + codec::u16_bytes(self.post_pass.0)
            + codec::u8_bytes(self.reset_cause.code())
            + codec::u32_bytes(self.phy_id)
            + codec::u8_bytes(self.link_speed_mbps)
            + codec::bool_bytes(self.link_full_duplex)
            + codec::u16_bytes(self.phy_symbol_errors)
            + codec::u32_bytes(self.uptime_s)
            + codec::u16_bytes(self.tx_drops)
    }

    open spec fn read(b: Seq<u8>) -> Result<Self, DecodeError> {
        match BoardId::of_code(codec::u8_at(b, 0)) {
            Err(e) => Err(e),
            Ok(board) => {
                match ResetCause::of_code(codec::u8_at(b, 5)) {
                    Err(e) => Err(e),
                    Ok(reset_cause) => Ok(BoardDiagnostics {
                        board,
                        post_run: PostBits(codec::u16_at(b, 1)),
                        post_pass: PostBits(codec::u16_at(b, 3)),
                        reset_cause,
                        phy_id: codec::u32_at(b, 6),
                        link_speed_mbps: codec::u8_at(b, 10),
                        link_full_duplex: codec::bool_at(b, 11),
                        phy_symbol_errors: codec::u16_at(b, 12),
                        uptime_s: codec::u32_at(b, 14),
                        tx_drops: codec::u16_at(b, 18),
                    }),
                }
            },
        }
    }

    proof fn lemma_len(self) {
        broadcast use codec::group_codec;

    }

    proof fn lemma_round_trip(self, rest: Seq<u8>) {
        broadcast use codec::group_codec;

    }

    proof fn lemma_front(b: Seq<u8>, rest: Seq<u8>) {
        broadcast use codec::group_codec;

    }

    fn encode(&self, buf: &mut [u8]) -> (n: usize) {
        broadcast use codec::group_codec;

        let mut w = Writer::new(buf);
        w.u8(self.board.to_u8());
        w.u16(self.post_run.0);
        w.u16(self.post_pass.0);
        w.u8(self.reset_cause.to_u8());
        w.u32(self.phy_id);
        w.u8(self.link_speed_mbps);
        w.bool(self.link_full_duplex);
        w.u16(self.phy_symbol_errors);
        w.u32(self.uptime_s);
        w.u16(self.tx_drops);
        proof {
            codec::lemma_parts(old(buf)@, 0);
            codec::lemma_parts(w.buf@, Self::size() as int);
        }
        w.len()
    }

    fn decode(buf: &[u8]) -> (r: Result<Self, DecodeError>) {
        check_len(buf, Self::WIRE_LEN)?;
        let mut r = Reader::new(buf);
        let board = BoardId::from_u8(r.u8())?;
        let post_run = PostBits(r.u16());
        let post_pass = PostBits(r.u16());
        let reset_cause = ResetCause::from_u8(r.u8())?;
        Ok(BoardDiagnostics {
            board,
            post_run,
            post_pass,
            reset_cause,
            phy_id: r.u32(),
            link_speed_mbps: r.u8(),
            link_full_duplex: r.bool(),
            phy_symbol_errors: r.u16(),
            uptime_s: r.u32(),
            tx_drops: r.u16(),
        })
    }
}

/// Where everything stands in a body of `SpeedLoopDebug`.
pub proof fn law_speed_loop_debug_layout(m: SpeedLoopDebug)
    ensures
        SpeedLoopDebug::id() == 0x0901,
        m.wire().len() == 20,
        codec::real32_at(m.wire(), 0) == m.measured_left_tps,
        codec::real32_at(m.wire(), 4) == m.measured_right_tps,
        codec::real32_at(m.wire(), 8) == m.target_tps,
        codec::real32_at(m.wire(), 12) == m.error_pct,
        codec::real32_at(m.wire(), 16) == m.pid_output_pct,
{
    m.lemma_len();
    m.lemma_round_trip(Seq::empty());
    assert(m.wire() + Seq::<u8>::empty() =~= m.wire());
}

/// Where everything stands in a body of `EkfDebug`.
pub proof fn law_ekf_debug_layout(m: EkfDebug)
    ensures
        EkfDebug::id() == 0x0902,
        m.wire().len() == 17,
        codec::f32x3_at(m.wire(), 0) == m.innovation,
        codec::real32_at(m.wire(), 12) == m.nis,
        codec::bool_at(m.wire(), 16) == m.gated,
{
    m.lemma_len();
    m.lemma_round_trip(Seq::empty());
    assert(m.wire() + Seq::<u8>::empty() =~= m.wire());
}

/// Where everything stands in a body of `BoardDiagnostics`.
pub proof fn law_board_diagnostics_layout(m: BoardDiagnostics)
    ensures
        BoardDiagnostics::id() == 0x0903,
        m.wire().len() == 20,
        PostBits(codec::u16_at(m.wire(), 1)) == m.post_run,
        PostBits(codec::u16_at(m.wire(), 3)) == m.post_pass,
        codec::u32_at(m.wire(), 6) == m.phy_id,
        codec::u8_at(m.wire(), 10) == m.link_speed_mbps,
        codec::bool_at(m.wire(), 11) == m.link_full_duplex,
        codec::u16_at(m.wire(), 12) == m.phy_symbol_errors,
        codec::u32_at(m.wire(), 14) == m.uptime_s,
        codec::u16_at(m.wire(), 18) == m.tx_drops,
        BoardId::of_code(codec::u8_at(m.wire(), 0)) == Ok::<_, DecodeError>(m.board),
        ResetCause::of_code(codec::u8_at(m.wire(), 5)) == Ok::<_, DecodeError>(m.reset_cause),
{
    m.lemma_len();
    m.lemma_round_trip(Seq::empty());
    assert(m.wire() + Seq::<u8>::empty() =~= m.wire());
}

} // verus!
