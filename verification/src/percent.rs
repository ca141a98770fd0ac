//! Percentages as fractions: the division by one hundred, on bit patterns.
//!
//! A division rounds to the nearest pattern, and of two equally near ones to
//! the even one. Both can be said in whole numbers: every finite single
//! precision value is a whole multiple of the smallest one there is.

use crate::reals::Real32;
use vstd::prelude::*;

verus! {

/// The first pattern without a sign bit that is no finite number.
pub const INFINITE: u32 = 0x7f80_0000;

/// One more than the largest fraction: the pattern of the smallest number with
/// a full fraction, and the step from one exponent to the next.
pub const BINADE: u32 = 0x80_0000;

/// The value of a finite pattern without a sign bit, as a multiple of the
/// smallest positive value.
pub open spec fn units(m: int) -> int {
    if m < BINADE {
        m
    } else {
        (BINADE + m % BINADE as int) * vstd::arithmetic::power2::pow2((m / BINADE as int - 1) as nat)
    }
}

/// How far a pattern is from a hundredth of another, in hundredths of units.
pub open spec fn gap(m: int, r: int) -> int {
    let d = 100 * units(r) - units(m);
    if d < 0 {
        -d
    } else {
        d
    }
}

/// Whether `r` is the finite pattern nearest to a hundredth of `m`: none is
/// nearer, and where another is as near, `r` is the even one.
pub open spec fn nearest(m: int, r: int) -> bool {
    &&& 0 <= r < INFINITE
    &&& forall|b: int| 0 <= b < INFINITE && b != r ==> #[trigger] gap(m, b) > gap(m, r) || (gap(m, b)
        == gap(m, r) && r % 2 == 0)
}

/// The pattern nearest to a hundredth of a finite one.
pub open spec fn nearest_hundredth(m: int) -> int {
    choose|r: int| #[trigger] nearest(m, r)
}

impl Real32 {
    /// `self / 100`: the nearest value there is, with the sign of `self`. What
    /// is infinite or not a number stays as it is.
    pub open spec fn hundredth(self) -> Real32 {
        if !self.finite() {
            self
        } else if self.0 >= 0x8000_0000 {
            Real32((0x8000_0000 + nearest_hundredth(self.magnitude())) as u32)
        } else {
            Real32(nearest_hundredth(self.magnitude()) as u32)
        }
    }

    /// Divide by one hundred.
    pub fn over_hundred(self) -> (r: Real32)
        ensures
            r == self.hundredth(),
    {
        if !self.is_finite() {
            return self;
        }
        let m: u32 = self.0 % 0x8000_0000;
        let r: u32 = divided(m);
        proof {
            lemma_one_nearest(m as int, r as int, nearest_hundredth(m as int));
        }
        if self.0 >= 0x8000_0000 {
            Real32(0x8000_0000 + r)
        } else {
            Real32(r)
        }
    }
}

/// A quotient by one hundred, to the nearest, and to the even one of two.
fn rounded(n: u64) -> (q: u64)
    ensures
        -50 <= 100 * q - n <= 50,
        (100 * q - n == 50 || 100 * q - n == -50) ==> q % 2 == 0,
{
    let q: u64 = n / 100;
    let rest: u64 = n % 100;
    if rest > 50 || (rest == 50 && q % 2 == 1) {
        q + 1
    } else {
        q
    }
}

/// The pattern nearest to a hundredth of a finite pattern without a sign bit.
fn divided(m: u32) -> (r: u32)
    requires
        m < INFINITE,
    ensures
        nearest(m as int, r as int),
{
    let exponent: u32 = m / BINADE;
    let (full, t): (u64, u32) = if exponent == 0 {
        (m as u64, 0)
    } else {
        ((BINADE + m % BINADE) as u64, exponent - 1)
    };
    proof {
        vstd::arithmetic::power2::lemma2_to64();
        assert(units(m as int) == full * vstd::arithmetic::power2::pow2(t as nat));
    }
    if t < 7 {
        let scale: u64 = if t == 0 {
            1
        } else if t == 1 {
            2
        } else if t == 2 {
            4
        } else if t == 3 {
            8
        } else if t == 4 {
            16
        } else if t == 5 {
            32
        } else {
            64
        };
        assert(full * scale <= 0x100_0000 * 64) by (nonlinear_arith)
            requires
                0 <= full < 0x100_0000,
                0 <= scale <= 64,
        ;
        let n: u64 = full * scale;
        let q: u64 = rounded(n);
        proof {
            assert(scale == vstd::arithmetic::power2::pow2(t as nat));
            lemma_split_exponent(full as int, t as nat, 0);
            lemma_rounded_is_nearest(m as int, 0, q as int, n as int);
        }
        return q as u32;
    }
    let n: u64;
    let e: u32;
    if full * 128 < 100 * 0x100_0000 {
        n = full * 128;
        e = t - 7;
        proof {
            lemma_split_exponent(full as int, 7, e as nat);
        }
    } else {
        n = full * 64;
        e = t - 6;
        proof {
            lemma_split_exponent(full as int, 6, e as nat);
        }
    }
    let q: u64 = rounded(n);
    proof {
        lemma_rounded_is_nearest(m as int, e as int, q as int, n as int);
    }
    e * BINADE + q as u32
}

/// Part of an exponent moves into the significand.
proof fn lemma_split_exponent(full: int, k: nat, e: nat)
    ensures
        full * vstd::arithmetic::power2::pow2(k + e) == (full * vstd::arithmetic::power2::pow2(k)) * vstd::arithmetic::power2::pow2(e),
{
    vstd::arithmetic::power2::lemma_pow2_adds(k, e);
    vstd::arithmetic::mul::lemma_mul_is_associative(
        full,
        vstd::arithmetic::power2::pow2(k) as int,
        vstd::arithmetic::power2::pow2(e) as int,
    );
}

/// The value of a pattern by its exponent and its significand, which may have
/// run over to the next exponent.
proof fn lemma_units(e: int, q: int)
    requires
        0 <= e,
        e == 0 ==> 0 <= q <= 0x100_0000,
        e > 0 ==> 0x80_0000 <= q <= 0x100_0000,
    ensures
        units(e * 0x80_0000 + q) == q * vstd::arithmetic::power2::pow2(e as nat),
{
    vstd::arithmetic::power2::lemma2_to64();
    let m = e * 0x80_0000 + q;
    if q < 0x80_0000 {
        assert(e == 0);
    } else if q < 0x100_0000 {
        assert(m / 0x80_0000 == e + 1);
        assert(m % 0x80_0000 == q - 0x80_0000);
    } else {
        assert(m / 0x80_0000 == e + 2);
        assert(m % 0x80_0000 == 0);
        vstd::arithmetic::power2::lemma_pow2_unfold((e + 1) as nat);
        assert(0x80_0000 * (2 * vstd::arithmetic::power2::pow2(e as nat)) == 0x100_0000 * vstd::arithmetic::power2::pow2(e as nat));
    }
}

/// The next pattern is a larger number.
proof fn lemma_units_step(m: int)
    requires
        0 <= m,
    ensures
        units(m) < units(m + 1),
{
    let (e, q): (int, int) = if m < 0x80_0000 {
        (0, m)
    } else {
        (m / 0x80_0000 - 1, 0x80_0000 + m % 0x80_0000)
    };
    lemma_units(e, q);
    lemma_units(e, q + 1);
    assert(m == e * 0x80_0000 + q);
    vstd::arithmetic::power2::lemma_pow2_pos(e as nat);
    assert((q + 1) * vstd::arithmetic::power2::pow2(e as nat) == q * vstd::arithmetic::power2::pow2(e as nat) + vstd::arithmetic::power2::pow2(e as nat)) by (nonlinear_arith);
}

/// Patterns are ordered as their values are.
proof fn lemma_units_in_order(a: int, b: int)
    requires
        0 <= a < b,
    ensures
        units(a) < units(b),
    decreases b - a,
{
    lemma_units_step(b - 1);
    if a < b - 1 {
        lemma_units_in_order(a, b - 1);
    }
}

/// A significand rounded to the nearest makes the nearest pattern.
proof fn lemma_rounded_is_nearest(m: int, e: int, q: int, n: int)
    requires
        0 <= m < INFINITE,
        0 <= e <= 250,
        units(m) == n * vstd::arithmetic::power2::pow2(e as nat),
        -50 <= 100 * q - n <= 50,
        (100 * q - n == 50 || 100 * q - n == -50) ==> q % 2 == 0,
        0 <= n,
        e == 0 ==> 0 <= q <= 0x100_0000,
        e > 0 ==> 0x80_0000 <= q <= 0x100_0000 && n >= 100 * 0x80_0000,
    ensures
        nearest(m, e * 0x80_0000 + q),
{
    let p = vstd::arithmetic::power2::pow2(e as nat) as int;
    vstd::arithmetic::power2::lemma_pow2_pos(e as nat);
    let r = e * 0x80_0000 + q;
    lemma_units(e, q);
    let d = 100 * q - n;
    assert(100 * (q * p) - n * p == d * p) by (nonlinear_arith)
        requires
            d == 100 * q - n,
    ;
    assert(-50 * p <= d * p <= 50 * p) by (nonlinear_arith)
        requires
            -50 <= d <= 50,
            p > 0,
    ;
    assert(r % 2 == q % 2);
    assert forall|b: int| 0 <= b < INFINITE && b != r implies #[trigger] gap(m, b) > gap(m, r) || (
    gap(m, b) == gap(m, r) && r % 2 == 0) by {
        if d * p == 50 * p || d * p == -50 * p {
            assert(d == 50 || d == -50) by (nonlinear_arith)
                requires
                    d * p == 50 * p || d * p == -50 * p,
                    p > 0,
            ;
        }
        if b > r {
            if q < 0x100_0000 {
                lemma_units(e, q + 1);
            } else {
                lemma_units(e + 1, 0x80_0001);
                vstd::arithmetic::power2::lemma_pow2_unfold((e + 1) as nat);
                assert((e + 1) * 0x80_0000 + 0x80_0001 == r + 1);
                assert(0x80_0001 * (2 * p) == (q + 2) * p) by (nonlinear_arith)
                    requires
                        q == 0x100_0000,
                ;
                assert((q + 2) * p == q * p + p + p) by (nonlinear_arith);
            }
            assert((q + 1) * p == q * p + p) by (nonlinear_arith);
            assert(units(r + 1) >= units(r) + p);
            if b > r + 1 {
                lemma_units_in_order(r + 1, b);
            }
        } else if e == 0 || q > 0x80_0000 {
            lemma_units(e, q - 1);
            assert((q - 1) * p == q * p - p) by (nonlinear_arith);
            assert(units(r - 1) == units(r) - p);
            if b < r - 1 {
                lemma_units_in_order(b, r - 1);
            }
        } else {
            assert(d <= 0);
            assert(d * p <= 0) by (nonlinear_arith)
                requires
                    d <= 0,
                    p > 0,
            ;
            lemma_units_in_order(b, r);
        }
    }
}

/// There is one nearest pattern only.
proof fn lemma_one_nearest(m: int, r: int, s: int)
    requires
        nearest(m, r),
        nearest(m, s),
    ensures
        r == s,
{
    if r != s {
        let (a, b) = if r < s {
            (r, s)
        } else {
            (s, r)
        };
        assert(gap(m, a) == gap(m, b));
        assert(a % 2 == 0 && b % 2 == 0);
        lemma_units_in_order(a, a + 1);
        lemma_units_in_order(a + 1, b);
        assert(gap(m, a + 1) < gap(m, a));
    }
}

/// Every finite pattern has a nearest hundredth.
proof fn lemma_has_nearest(m: int)
    requires
        0 <= m < INFINITE,
    ensures
        nearest(m, nearest_hundredth(m)),
{
    vstd::arithmetic::power2::lemma2_to64();
    let (full, t): (int, int) = if m < 0x80_0000 {
        (m, 0)
    } else {
        (0x80_0000 + m % 0x80_0000, m / 0x80_0000 - 1)
    };
    lemma_units(t, full);
    assert(m == t * 0x80_0000 + full);
    let (n, e): (int, int) = if t < 7 {
        assert(full * vstd::arithmetic::power2::pow2(t as nat) <= 0x100_0000 * 64) by (nonlinear_arith)
            requires
                0 <= full < 0x100_0000,
                vstd::arithmetic::power2::pow2(t as nat) <= 64,
        ;
        lemma_split_exponent(full, t as nat, 0);
        (full * vstd::arithmetic::power2::pow2(t as nat), 0)
    } else if full * 128 < 100 * 0x100_0000 {
        lemma_split_exponent(full, 7, (t - 7) as nat);
        (full * 128, t - 7)
    } else {
        lemma_split_exponent(full, 6, (t - 6) as nat);
        (full * 64, t - 6)
    };
    let q = if n % 100 > 50 || (n % 100 == 50 && n / 100 % 2 == 1) {
        n / 100 + 1
    } else {
        n / 100
    };
    lemma_rounded_is_nearest(m, e, q, n);
}

proof fn lemma_nearest_in_order(a: int, b: int)
    requires
        0 <= a <= b < INFINITE,
    ensures
        0 <= nearest_hundredth(a) <= nearest_hundredth(b) < INFINITE,
{
    lemma_has_nearest(a);
    lemma_has_nearest(b);
    let r = nearest_hundredth(a);
    let s = nearest_hundredth(b);
    if a < b && s < r {
        lemma_units_in_order(a, b);
        lemma_units_in_order(s, r);
        assert(gap(a, r) <= gap(a, s));
        assert(gap(b, s) <= gap(b, r));
    }
}

/// A larger percentage is no smaller fraction, and one of zero is none at all.
pub proof fn law_hundredths_in_order(a: Real32, b: Real32)
    requires
        a.at_most(b),
    ensures
        a.hundredth().at_most(b.hundredth()),
        a.same(Real32(0)) ==> a.hundredth() == a,
{
    if a.finite() {
        lemma_has_nearest(a.magnitude());
    }
    if b.finite() {
        lemma_has_nearest(b.magnitude());
    }
    if a.finite() && b.finite() {
        if a.magnitude() <= b.magnitude() {
            lemma_nearest_in_order(a.magnitude(), b.magnitude());
        } else {
            lemma_nearest_in_order(b.magnitude(), a.magnitude());
        }
    }
    assert(nearest(0, 0)) by {
        lemma_rounded_is_nearest(0, 0, 0, 0);
    }
    if a.finite() && a.magnitude() == 0 {
        lemma_one_nearest(0, 0, nearest_hundredth(0));
    }
}

/// One hundred percent is the whole.
pub proof fn law_hundred_percent()
    ensures
        Real32(0x42c8_0000).hundredth() == Real32(0x3f80_0000),
{
    let m: int = 0x42c8_0000;
    let r: int = 0x3f80_0000;
    vstd::arithmetic::power2::lemma2_to64();
    vstd::arithmetic::power2::lemma_pow2_adds(6, 126);
    assert(units(m) == 0xc8_0000 * vstd::arithmetic::power2::pow2(132));
    assert(units(r) == 0x80_0000 * vstd::arithmetic::power2::pow2(126));
    lemma_rounded_is_nearest(m, 126, 0x80_0000, 0xc8_0000int * 64);
    lemma_one_nearest(m, r, nearest_hundredth(m));
}

/// The pattern of a whole number has its value: that many times the value of
/// one.
pub proof fn law_whole_numbers_have_their_value(n: u8)
    ensures
        units(Real32::whole(n).0 as int) == n * units(Real32(0x3f80_0000).0 as int),
{
    vstd::arithmetic::power2::lemma2_to64();
    let one = 0x80_0000 * vstd::arithmetic::power2::pow2(126);
    assert(units(0x3f80_0000) == one);
    if n > 0 {
        let (k, p): (nat, int) = if n >= 128 {
            (7, 128)
        } else if n >= 64 {
            (6, 64)
        } else if n >= 32 {
            (5, 32)
        } else if n >= 16 {
            (4, 16)
        } else if n >= 8 {
            (3, 8)
        } else if n >= 4 {
            (2, 4)
        } else if n >= 2 {
            (1, 2)
        } else {
            (0, 1)
        };
        let full = n * (0x80_0000int / p);
        assert(vstd::arithmetic::power2::pow2(k) == p);
        assert(full * p == n * 0x80_0000) by (nonlinear_arith)
            requires
                full == n * (0x80_0000int / p),
                p == 1 || p == 2 || p == 4 || p == 8 || p == 16 || p == 32 || p == 64 || p == 128,
        ;
        lemma_units((126 + k) as int, full);
        assert(Real32::whole(n).0 == (126 + k) * 0x80_0000 + full);
        lemma_split_exponent(full, k, 126);
        assert(full * vstd::arithmetic::power2::pow2(k) == n * 0x80_0000);
        vstd::arithmetic::mul::lemma_mul_is_associative(
            n as int,
            0x80_0000,
            vstd::arithmetic::power2::pow2(126) as int,
        );
    }
}

} // verus!
