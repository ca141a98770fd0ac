//! What the GNSS receivers report.

use crate::msgs::codec;
use crate::msgs::codec::{check_len, DecodeError, Reader, Writer};
use crate::msgs::kinds::{FixQuality, GnssSource};
use crate::msgs::wire::Wire;
use crate::reals::{Real32, Real64};
use vstd::prelude::*;

verus! {

/// The slowest ground speed, `0.3` m/s, at which a course is not noise.
pub const COURSE_MIN_SPEED: u32 = 0x3e99_999a;

/// One GNSS solution. A single type serves both receivers, on two streams.
#[derive(Clone, Copy, Debug, PartialEq, Default)]
pub struct GnssFix {
    pub lat_deg: Real64,
    pub lon_deg: Real64,
    pub alt_m: Real32,
    pub fix: FixQuality,
    pub sats: u8,
    /// Horizontal accuracy estimate, metres (1-sigma).
    pub h_acc_m: Real32,
    pub speed_mps: Real32,
    /// Course over ground, degrees from true north. Only meaningful while
    /// moving.
    pub course_deg: Real32,
    pub utc_ms: u64,
    /// Which receiver produced this reading.
    pub source: GnssSource,
}

impl GnssFix {
    /// Good enough to navigate on.
    pub open spec fn usable(self) -> bool {
        self.fix != FixQuality::NoFix && self.sats >= 4
    }

    /// Whether this fix is good enough to navigate on.
    pub fn is_usable(&self) -> (r: bool)
        ensures
            r == self.usable(),
    {
        self.fix != FixQuality::NoFix && self.sats >= 4
    }

    /// The course is a heading reference.
    pub open spec fn course_holds(self) -> bool {
        self.fix.rtk() && Real32(COURSE_MIN_SPEED).below(self.speed_mps)
    }

    /// Whether `course_deg` can be trusted as a heading reference right now.
    pub fn course_is_trustworthy(&self) -> (r: bool)
        ensures
            r == self.course_holds(),
    {
        self.fix.is_rtk() && Real32(COURSE_MIN_SPEED).is_below(self.speed_mps)
    }
}

impl Wire for GnssFix {
    const TYPE_ID: u16 = 0x0401;
    const WIRE_LEN: usize = 43;
    const NAME: &'static str = "GnssFix";

    open spec fn id() -> u16 {
        0x0401
    }

    open spec fn size() -> usize {
        43
    }

    open spec fn title() -> &'static str {
        "GnssFix"
    }

    proof fn lemma_consts() {
        assert(Self::TYPE_ID == Self::id());
        assert(Self::WIRE_LEN == Self::size());
        assert(Self::NAME == Self::title());
    }

    open spec fn wire(self) -> Seq<u8> {
        Seq::<u8>::empty()
            + codec::real64_bytes(self.lat_deg)
            + codec::real64_bytes(self.lon_deg)
            + codec::real32_bytes(self.alt_m)
            + codec::u8_bytes(self.fix.code())
            + codec::u8_bytes(self.sats)
            + codec::real32_bytes(self.h_acc_m)
            + codec::real32_bytes(self.speed_mps)
            + codec::real32_bytes(self.course_deg)
            + codec::u64_bytes(self.utc_ms)
            + codec::u8_bytes(self.source.code())
    }

    open spec fn read(b: Seq<u8>) -> Result<Self, DecodeError> {
        match FixQuality::of_code(codec::u8_at(b, 20)) {
            Err(e) => Err(e),
            Ok(fix) => {
                match GnssSource::of_code(codec::u8_at(b, 42)) {
                    Err(e) => Err(e),
                    Ok(source) => Ok(GnssFix {
                        lat_deg: codec::real64_at(b, 0),
                        lon_deg: codec::real64_at(b, 8),
                        alt_m: codec::real32_at(b, 16),
                        fix,
                        sats: codec::u8_at(b, 21),
                        h_acc_m: codec::real32_at(b, 22),
                        speed_mps: codec::real32_at(b, 26),
                        course_deg: codec::real32_at(b, 30),
                        utc_ms: codec::u64_at(b, 34),
                        source,
                    }),
                }
            },
        }
    }

    proof fn lemma_len(self) {
        broadcast use codec::group_codec;

    }

    proof fn lemma_round_trip(self, rest: Seq<u8>) {
        broadcast use codec::group_codec;

    }

    proof fn lemma_front(b: Seq<u8>, rest: Seq<u8>) {
        broadcast use codec::group_codec;

    }

    fn encode(&self, buf: &mut [u8]) -> (n: usize) {
        broadcast use codec::group_codec;

        let mut w = Writer::new(buf);
        w.real64(self.lat_deg);
        w.real64(self.lon_deg);
        w.real32(self.alt_m);
        w.u8(self.fix.to_u8());
        w.u8(self.sats);
        w.real32(self.h_acc_m);
        w.real32(self.speed_mps);
        w.real32(self.course_deg);
        w.u64(self.utc_ms);
        w.u8(self.source.to_u8());
        proof {
            codec::lemma_parts(old(buf)@, 0);
            codec::lemma_parts(w.buf@, Self::size() as int);
        }
        w.len()
    }

    fn decode(buf: &[u8]) -> (r: Result<Self, DecodeError>) {
        check_len(buf, Self::WIRE_LEN)?;
        let mut r = Reader::new(buf);
        let lat_deg: Real64 = r.real64();
        let lon_deg: Real64 = r.real64();
        let alt_m: Real32 = r.real32();
        let fix = FixQuality::from_u8(r.u8())?;
        let sats: u8 = r.u8();
        let h_acc_m: Real32 = r.real32();
        let speed_mps: Real32 = r.real32();
        let course_deg: Real32 = r.real32();
        let utc_ms: u64 = r.u64();
        let source = GnssSource::from_u8(r.u8())?;
        Ok(GnssFix {
            lat_deg,
            lon_deg,
            alt_m,
            fix,
            sats,
            h_acc_m,
            speed_mps,
            course_deg,
            utc_ms,
            source,
        })
    }
}

/// Where everything stands in a body of `GnssFix`.
pub proof fn law_gnss_fix_layout(m: GnssFix)
    ensures
        GnssFix::id() == 0x0401,
        m.wire().len() == 43,
        codec::real64_at(m.wire(), 0) == m.lat_deg,
        codec::real64_at(m.wire(), 8) == m.lon_deg,
        codec::real32_at(m.wire(), 16) == m.alt_m,
        codec::u8_at(m.wire(), 21) == m.sats,
        codec::real32_at(m.wire(), 22) == m.h_acc_m,
        codec::real32_at(m.wire(), 26) == m.speed_mps,
        codec::real32_at(m.wire(), 30) == m.course_deg,
        codec::u64_at(m.wire(), 34) == m.utc_ms,
        FixQuality::of_code(codec::u8_at(m.wire(), 20)) == Ok::<_, DecodeError>(m.fix),
        GnssSource::of_code(codec::u8_at(m.wire(), 42)) == Ok::<_, DecodeError>(m.source),
{
    m.lemma_len();
    m.lemma_round_trip(Seq::empty());
    assert(m.wire() + Seq::<u8>::empty() =~= m.wire());
}

/// A fix is navigated on from four satellites, whatever its quality but none. A
/// course is trusted of a corrected fix that moves faster than three tenths of a
/// metre in a second.
pub proof fn law_fixes(f: GnssFix)
    ensures
        f.usable() <==> !(f.fix is NoFix) && f.sats > 3,
        f.course_holds() <==> (f.fix is RtkFloat || f.fix is RtkFixed) && Real32(0x3e99_999a).below(
            f.speed_mps,
        ),
{
}

} // verus!
