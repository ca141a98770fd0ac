//! Real numbers as IEEE 754 bit patterns.
//!
//! The protocol carries single and double precision values, and most of the
//! rover's logic only moves them, compares them or selects between them. All
//! of that can be said of the bit patterns: the patterns of the numbers of one
//! sign are ordered as the integers they spell, and the top bit is the sign.

use vstd::prelude::*;

verus! {

/// A single precision value, held by its bit pattern.
#[derive(Clone, Copy, Debug, PartialEq, Eq, Default, Structural)]
pub struct Real32(pub u32);

/// A double precision value, held by its bit pattern.
#[derive(Clone, Copy, Debug, PartialEq, Eq, Default, Structural)]
pub struct Real64(pub u64);

/// The pattern of `1.0`.
pub const ONE: u32 = 0x3f80_0000;

/// The pattern of `-1.0`.
pub const MINUS_ONE: u32 = 0xbf80_0000;

impl Real32 {
    /// The pattern without its sign bit.
    pub open spec fn magnitude(self) -> int {
        self.0 as int % 0x8000_0000
    }

    /// Whether the value is not a number: an exponent of all ones and a
    /// fraction that is not zero.
    pub open spec fn nan(self) -> bool {
        self.magnitude() > 0x7f80_0000
    }

    /// The place of a number on the real line, counted in representable
    /// steps from zero. Both zeros stand at `0`.
    pub open spec fn rank(self) -> int {
        if self.0 >= 0x8000_0000 {
            -self.magnitude()
        } else {
            self.magnitude()
        }
    }

    /// `self < other`, as IEEE 754 has it: false as soon as one of the two is
    /// not a number.
    pub open spec fn below(self, other: Real32) -> bool {
        !self.nan() && !other.nan() && self.rank() < other.rank()
    }

    /// `self <= other`.
    pub open spec fn at_most(self, other: Real32) -> bool {
        !self.nan() && !other.nan() && self.rank() <= other.rank()
    }

    /// `self == other`: the two zeros are equal, and what is not a number
    /// equals nothing.
    pub open spec fn same(self, other: Real32) -> bool {
        !self.nan() && !other.nan() && self.rank() == other.rank()
    }

    /// Neither infinite nor not-a-number.
    pub open spec fn finite(self) -> bool {
        self.magnitude() < 0x7f80_0000
    }

    fn magnitude_bits(self) -> (m: u32)
        ensures
            m == self.magnitude(),
    {
        self.0 % 0x8000_0000
    }

    pub fn rank_steps(self) -> (r: i64)
        ensures
            r == self.rank(),
    {
        let m: i64 = self.magnitude_bits() as i64;
        if self.0 >= 0x8000_0000 {
            -m
        } else {
            m
        }
    }

    pub fn is_nan(self) -> (r: bool)
        ensures
            r == self.nan(),
    {
        self.magnitude_bits() > 0x7f80_0000
    }

    pub fn is_finite(self) -> (r: bool)
        ensures
            r == self.finite(),
    {
        self.magnitude_bits() < 0x7f80_0000
    }

    /// `self < other`.
    pub fn is_below(self, other: Real32) -> (r: bool)
        ensures
            r == self.below(other),
    {
        !self.is_nan() && !other.is_nan() && self.rank_steps() < other.rank_steps()
    }

    /// `self <= other`.
    pub fn is_at_most(self, other: Real32) -> (r: bool)
        ensures
            r == self.at_most(other),
    {
        !self.is_nan() && !other.is_nan() && self.rank_steps() <= other.rank_steps()
    }

    /// `self == other`.
    pub fn is_same(self, other: Real32) -> (r: bool)
        ensures
            r == self.same(other),
    {
        !self.is_nan() && !other.is_nan() && self.rank_steps() == other.rank_steps()
    }

    /// The value with its sign removed.
    pub open spec fn without_sign(self) -> Real32 {
        Real32(self.magnitude() as u32)
    }

    pub fn abs(self) -> (r: Real32)
        ensures
            r == self.without_sign(),
    {
        Real32(self.magnitude_bits())
    }

    /// `self` limited to `lo..=hi`. What is not a number stays as it is.
    pub open spec fn limited(self, lo: Real32, hi: Real32) -> Real32 {
        if self.below(lo) {
            lo
        } else if hi.below(self) {
            hi
        } else {
            self
        }
    }

    /// Limit `self` to `lo..=hi`.
    pub fn clamp(self, lo: Real32, hi: Real32) -> (r: Real32)
        requires
            lo.at_most(hi),
        ensures
            r == self.limited(lo, hi),
    {
        if self.is_below(lo) {
            lo
        } else if hi.is_below(self) {
            hi
        } else {
            self
        }
    }
}

impl Real32 {
    /// The value with the other sign.
    pub open spec fn negated(self) -> Real32 {
        if self.0 >= 0x8000_0000 {
            Real32((self.0 - 0x8000_0000) as u32)
        } else {
            Real32((self.0 + 0x8000_0000) as u32)
        }
    }

    pub fn neg(self) -> (r: Real32)
        ensures
            r == self.negated(),
    {
        if self.0 >= 0x8000_0000 {
            Real32(self.0 - 0x8000_0000)
        } else {
            Real32(self.0 + 0x8000_0000)
        }
    }

    /// The smaller of two values. What is not a number gives way to the other.
    pub open spec fn lesser(self, other: Real32) -> Real32 {
        if self.nan() || other.below(self) {
            other
        } else {
            self
        }
    }

    pub fn min(self, other: Real32) -> (r: Real32)
        ensures
            r == self.lesser(other),
    {
        if self.is_nan() || other.is_below(self) {
            other
        } else {
            self
        }
    }

    /// The pattern of a whole number below 256: the exponent from its leading
    /// bit, the fraction from the bits behind it.
    pub open spec fn whole(n: u8) -> Real32 {
        if n >= 128 {
            Real32((0x4300_0000 + (n - 128) * 0x1_0000) as u32)
        } else if n >= 64 {
            Real32((0x4280_0000 + (n - 64) * 0x2_0000) as u32)
        } else if n >= 32 {
            Real32((0x4200_0000 + (n - 32) * 0x4_0000) as u32)
        } else if n >= 16 {
            Real32((0x4180_0000 + (n - 16) * 0x8_0000) as u32)
        } else if n >= 8 {
            Real32((0x4100_0000 + (n - 8) * 0x10_0000) as u32)
        } else if n >= 4 {
            Real32((0x4080_0000 + (n - 4) * 0x20_0000) as u32)
        } else if n >= 2 {
            Real32((0x4000_0000 + (n - 2) * 0x40_0000) as u32)
        } else if n == 1 {
            Real32(0x3f80_0000)
        } else {
            Real32(0)
        }
    }

    pub fn of_u8(n: u8) -> (r: Real32)
        ensures
            r == Real32::whole(n),
    {
        let v: u32 = n as u32;
        if v >= 128 {
            Real32(0x4300_0000 + (v - 128) * 0x1_0000)
        } else if v >= 64 {
            Real32(0x4280_0000 + (v - 64) * 0x2_0000)
        } else if v >= 32 {
            Real32(0x4200_0000 + (v - 32) * 0x4_0000)
        } else if v >= 16 {
            Real32(0x4180_0000 + (v - 16) * 0x8_0000)
        } else if v >= 8 {
            Real32(0x4100_0000 + (v - 8) * 0x10_0000)
        } else if v >= 4 {
            Real32(0x4080_0000 + (v - 4) * 0x20_0000)
        } else if v >= 2 {
            Real32(0x4000_0000 + (v - 2) * 0x40_0000)
        } else if v == 1 {
            Real32(0x3f80_0000)
        } else {
            Real32(0)
        }
    }
}

impl Real64 {
    /// The pattern without its sign bit.
    pub open spec fn magnitude(self) -> int {
        self.0 as int % 0x8000_0000_0000_0000
    }

    /// Whether the value is not a number.
    pub open spec fn nan(self) -> bool {
        self.magnitude() > 0x7ff0_0000_0000_0000
    }

    /// The place of a number on the real line, counted in representable
    /// steps from zero.
    pub open spec fn rank(self) -> int {
        if self.0 >= 0x8000_0000_0000_0000 {
            -self.magnitude()
        } else {
            self.magnitude()
        }
    }

    /// `self < other`.
    pub open spec fn below(self, other: Real64) -> bool {
        !self.nan() && !other.nan() && self.rank() < other.rank()
    }

    /// `self <= other`.
    pub open spec fn at_most(self, other: Real64) -> bool {
        !self.nan() && !other.nan() && self.rank() <= other.rank()
    }

    fn rank_steps(self) -> (r: i128)
        ensures
            r == self.rank(),
    {
        let m: i128 = (self.0 % 0x8000_0000_0000_0000) as i128;
        if self.0 >= 0x8000_0000_0000_0000 {
            -m
        } else {
            m
        }
    }

    pub fn is_nan(self) -> (r: bool)
        ensures
            r == self.nan(),
    {
        self.0 % 0x8000_0000_0000_0000 > 0x7ff0_0000_0000_0000
    }

    /// `self < other`.
    pub fn is_below(self, other: Real64) -> (r: bool)
        ensures
            r == self.below(other),
    {
        !self.is_nan() && !other.is_nan() && self.rank_steps() < other.rank_steps()
    }

    /// `self <= other`.
    pub fn is_at_most(self, other: Real64) -> (r: bool)
        ensures
            r == self.at_most(other),
    {
        !self.is_nan() && !other.is_nan() && self.rank_steps() <= other.rank_steps()
    }

    /// The value with the other sign.
    pub open spec fn negated(self) -> Real64 {
        if self.0 >= 0x8000_0000_0000_0000 {
            Real64((self.0 - 0x8000_0000_0000_0000) as u64)
        } else {
            Real64((self.0 + 0x8000_0000_0000_0000) as u64)
        }
    }

    pub fn neg(self) -> (r: Real64)
        ensures
            r == self.negated(),
    {
        if self.0 >= 0x8000_0000_0000_0000 {
            Real64(self.0 - 0x8000_0000_0000_0000)
        } else {
            Real64(self.0 + 0x8000_0000_0000_0000)
        }
    }
}

/// Negation turns the real line around zero, and undoes itself.
pub proof fn law_negation(a: Real32, b: Real64)
    ensures
        a.negated().rank() == -a.rank(),
        a.negated().negated() == a,
        b.negated().rank() == -b.rank(),
        b.negated().negated() == b,
{
}

/// Whole numbers are ordered as their patterns are.
pub proof fn law_whole_numbers_in_order(a: u8, b: u8)
    ensures
        a < b ==> Real32::whole(a).below(Real32::whole(b)),
{
}

/// A limited number lies within its limits, and limiting it again changes
/// nothing.
pub proof fn law_limited(v: Real32, lo: Real32, hi: Real32)
    requires
        lo.at_most(hi),
    ensures
        !v.nan() ==> lo.at_most(v.limited(lo, hi)) && v.limited(lo, hi).at_most(hi),
        v.limited(lo, hi).limited(lo, hi) == v.limited(lo, hi),
{
}

/// Comparison is that of IEEE 754, said of the patterns: among numbers without a
/// sign bit the larger pattern is the larger number, among those with one the
/// smaller, every number with a sign bit is below every one without, but for
/// the two zeros, which are equal, and what is not a number compares with
/// nothing.
pub proof fn law_comparison(a: Real32, b: Real32)
    ensures
        a.0 <= 0x7f80_0000 && b.0 <= 0x7f80_0000 ==> a.below(b) == (a.0 < b.0) && a.at_most(b) == (
        a.0 <= b.0) && a.same(b) == (a.0 == b.0),
        0x8000_0000 <= a.0 <= 0xff80_0000 && 0x8000_0000 <= b.0 <= 0xff80_0000 ==> a.below(b) == (
        b.0 < a.0) && a.at_most(b) == (b.0 <= a.0) && a.same(b) == (a.0 == b.0),
        0x8000_0000 <= a.0 <= 0xff80_0000 && b.0 <= 0x7f80_0000 ==> a.at_most(b) && !b.below(a)
            && a.below(b) == !(a.0 == 0x8000_0000 && b.0 == 0) && b.at_most(a) == !a.below(b)
            && a.same(b) == !a.below(b),
        0x7f80_0000 < a.0 < 0x8000_0000 || a.0 > 0xff80_0000 ==> !a.below(b) && !b.below(a)
            && !a.at_most(b) && !b.at_most(a) && !a.same(b) && a.nan(),
        a.0 <= 0x7f80_0000 || 0x8000_0000 <= a.0 <= 0xff80_0000 ==> !a.nan(),
{
}

/// The same of double precision.
pub proof fn law_double_comparison(a: Real64, b: Real64)
    ensures
        a.0 <= 0x7ff0_0000_0000_0000 && b.0 <= 0x7ff0_0000_0000_0000 ==> a.below(b) == (a.0 < b.0)
            && a.at_most(b) == (a.0 <= b.0),
        0x8000_0000_0000_0000 <= a.0 <= 0xfff0_0000_0000_0000 && 0x8000_0000_0000_0000 <= b.0
            <= 0xfff0_0000_0000_0000 ==> a.below(b) == (b.0 < a.0) && a.at_most(b) == (b.0 <= a.0),
        0x8000_0000_0000_0000 <= a.0 <= 0xfff0_0000_0000_0000 && b.0 <= 0x7ff0_0000_0000_0000
            ==> a.at_most(b) && !b.below(a) && a.below(b) == !(a.0 == 0x8000_0000_0000_0000 && b.0
            == 0),
        0x7ff0_0000_0000_0000 < a.0 < 0x8000_0000_0000_0000 || a.0 > 0xfff0_0000_0000_0000
            ==> a.nan() && !a.below(b) && !b.below(a) && !a.at_most(b) && !b.at_most(a),
{
}

/// A limited number is the nearest one within the limits: a number within them
/// is left alone, and of the others none that the limits permit lies between
/// the number and what it is limited to.
pub proof fn law_limited_is_nearest(v: Real32, lo: Real32, hi: Real32, w: Real32)
    requires
        lo.at_most(hi),
        !v.nan(),
        lo.at_most(w),
        w.at_most(hi),
    ensures
        lo.at_most(v) && v.at_most(hi) ==> v.limited(lo, hi) == v,
        v.below(v.limited(lo, hi)) ==> v.limited(lo, hi).at_most(w),
        v.limited(lo, hi).below(v) ==> w.at_most(v.limited(lo, hi)),
{
}

/// What is not a number passes a limit as it is.
pub proof fn law_limits_keep_no_number(v: Real32, lo: Real32, hi: Real32)
    requires
        v.nan(),
    ensures
        v.limited(lo, hi) == v,
{
}

/// The lesser of two is one of them and no more than either; what is not a
/// number gives way to what is one.
pub proof fn law_lesser(a: Real32, b: Real32)
    ensures
        a.lesser(b) == a || a.lesser(b) == b,
        !a.nan() && !b.nan() ==> a.lesser(b).at_most(a) && a.lesser(b).at_most(b),
        a.nan() ==> a.lesser(b) == b,
        b.nan() && !a.nan() ==> a.lesser(b) == a,
        a.at_most(b) ==> a.lesser(b) == a,
{
}

/// Without its sign a number is as far from zero as before, on the positive
/// side.
pub proof fn law_without_sign(a: Real32)
    ensures
        a.without_sign().0 < 0x8000_0000,
        a.0 < 0x8000_0000 ==> a.without_sign() == a,
        a.0 >= 0x8000_0000 ==> a.without_sign() == a.negated(),
{
}

} // verus!
