//! Sets of one-bit conditions.

use vstd::prelude::*;

verus! {

/// Fault latches of the chassis board, one bit each.
#[derive(Clone, Copy, Debug, PartialEq, Eq, Default, Structural)]
pub struct FaultBits(pub u8);

impl FaultBits {
    pub const NONE: u8 = 0;
    /// The inertial sensor stopped answering.
    pub const IMU_LOST: u8 = 1;
    pub const MOTOR_FAULT: u8 = 2;
    /// The last reset came from the independent watchdog.
    pub const IWDG_RESET: u8 = 4;
    pub const SERVO_FAULT: u8 = 8;

    /// Whether every bit of `other` is set in `self`.
    pub open spec fn has(self, other: Self) -> bool {
        self.0 & other.0 == other.0
    }

    /// The set with the bits of `other` in it.
    pub open spec fn with(self, other: Self) -> Self {
        FaultBits(self.0 | other.0)
    }

    /// The set without the bits of `other`.
    pub open spec fn without(self, other: Self) -> Self {
        FaultBits(self.0 & !other.0)
    }

    pub fn contains(self, other: Self) -> (r: bool)
        ensures
            r == self.has(other),
    {
        self.0 & other.0 == other.0
    }

    pub fn set(&mut self, other: Self)
        ensures
            *final(self) == old(self).with(other),
    {
        self.0 = self.0 | other.0;
    }

    pub fn clear(&mut self, other: Self)
        ensures
            *final(self) == old(self).without(other),
    {
        self.0 = self.0 & !other.0;
    }

    pub fn is_clear(self) -> (r: bool)
        ensures
            r == (self.0 == 0),
    {
        self.0 == 0
    }
}

/// What is wrong with the rover right now, one bit per condition.
///
/// One bit per feed that the rover needs and can lose on its own, then the
/// conditions that are derived from other messages.
#[derive(Clone, Copy, Debug, PartialEq, Eq, Default, Structural)]
pub struct HealthBits(pub u16);

impl HealthBits {
    pub const NONE: u16 = 0;
    pub const CHASSIS_STALE: u16 = 0x0001;
    pub const SENSORS_STALE: u16 = 0x0002;
    pub const LANE_STALE: u16 = 0x0004;
    pub const RTK_STALE: u16 = 0x0008;
    pub const BACKUP_GNSS_STALE: u16 = 0x0010;
    pub const WATCHDOG_TRIPPED: u16 = 0x0020;
    pub const STALL_DETECTED: u16 = 0x0040;
    pub const ESTIMATOR_DIVERGED: u16 = 0x0080;
    /// A board's power-on self-test failed a check that it ran.
    pub const BOARD_POST_FAIL: u16 = 0x0100;
    /// A board reset for an abnormal reason, or its uptime went backwards.
    pub const BOARD_RESET: u16 = 0x0200;
    /// A board's Ethernet link is not at full speed and full duplex, or has
    /// symbol errors.
    pub const LINK_DEGRADED: u16 = 0x0400;

    /// Whether every bit of `other` is set in `self`.
    pub open spec fn has(self, other: Self) -> bool {
        self.0 & other.0 == other.0
    }

    /// The set with the bits of `other` in it.
    pub open spec fn with(self, other: Self) -> Self {
        HealthBits(self.0 | other.0)
    }

    /// The set without the bits of `other`.
    pub open spec fn without(self, other: Self) -> Self {
        HealthBits(self.0 & !other.0)
    }

    pub fn contains(self, other: Self) -> (r: bool)
        ensures
            r == self.has(other),
    {
        self.0 & other.0 == other.0
    }

    pub fn set(&mut self, other: Self)
        ensures
            *final(self) == old(self).with(other),
    {
        self.0 = self.0 | other.0;
    }

    pub fn clear(&mut self, other: Self)
        ensures
            *final(self) == old(self).without(other),
    {
        self.0 = self.0 & !other.0;
    }

    pub fn is_clear(self) -> (r: bool)
        ensures
            r == (self.0 == 0),
    {
        self.0 == 0
    }
}

/// Checks of a board's power-on self-test, one bit each.
#[derive(Clone, Copy, Debug, PartialEq, Eq, Default, Structural)]
pub struct PostBits(pub u16);

impl PostBits {
    pub const NONE: u16 = 0;
    pub const CLOCK: u16 = 0x0001;
    pub const PHY_ID: u16 = 0x0002;
    pub const LINK: u16 = 0x0004;
    pub const NET_BIND: u16 = 0x0008;
    pub const SENSOR_A: u16 = 0x0010;
    pub const SENSOR_B: u16 = 0x0020;
    pub const SENSOR_C: u16 = 0x0040;
    pub const IWDG: u16 = 0x0080;

    /// Whether every bit of `other` is set in `self`.
    pub open spec fn has(self, other: Self) -> bool {
        self.0 & other.0 == other.0
    }

    /// The set with the bits of `other` in it.
    pub open spec fn with(self, other: Self) -> Self {
        PostBits(self.0 | other.0)
    }

    pub fn contains(self, other: Self) -> (r: bool)
        ensures
            r == self.has(other),
    {
        self.0 & other.0 == other.0
    }

    pub fn set(&mut self, other: Self)
        ensures
            *final(self) == old(self).with(other),
    {
        self.0 = self.0 | other.0;
    }

    pub fn is_clear(self) -> (r: bool)
        ensures
            r == (self.0 == 0),
    {
        self.0 == 0
    }
}

/// Setting bits makes exactly those bits present and touches no other.
pub proof fn law_fault_set(a: FaultBits, b: FaultBits, c: FaultBits)
    ensures
        a.with(b).has(b),
        a.has(c) ==> a.with(b).has(c),
        c.0 & b.0 == 0 ==> a.with(b).has(c) == a.has(c),
{
    lemma_set_u8(a.0, b.0, c.0);
}

/// Clearing bits removes exactly those bits and touches no other.
pub proof fn law_fault_clear(a: FaultBits, b: FaultBits, c: FaultBits)
    ensures
        a.without(b).0 & b.0 == 0,
        c.0 & b.0 == 0 ==> a.without(b).has(c) == a.has(c),
        a.without(b).with(b) == a.with(b),
{
    let (x, y, z) = (a.0, b.0, c.0);
    assert((x & !y) & y == 0) by (bit_vector);
    assert(z & y == 0 ==> (x & !y) & z == x & z) by (bit_vector);
    assert((x & !y) | y == x | y) by (bit_vector);
}

/// A set has bits only if it has all of them, and the empty set has none.
pub proof fn law_fault_has(a: FaultBits, b: FaultBits, c: FaultBits)
    ensures
        a.has(b.with(c)) <==> a.has(b) && a.has(c),
        a.has(b) && b.has(a) ==> a == b,
        a.has(FaultBits(0)),
        FaultBits(0).has(b) <==> b == FaultBits(0),
{
    lemma_has_u8(a.0, b.0, c.0);
}

/// Setting bits makes exactly those bits present and touches no other.
pub proof fn law_health_set(a: HealthBits, b: HealthBits, c: HealthBits)
    ensures
        a.with(b).has(b),
        a.has(c) ==> a.with(b).has(c),
        c.0 & b.0 == 0 ==> a.with(b).has(c) == a.has(c),
{
    lemma_set(a.0, b.0, c.0);
}

/// Clearing bits removes exactly those bits and touches no other.
pub proof fn law_health_clear(a: HealthBits, b: HealthBits, c: HealthBits)
    ensures
        a.without(b).0 & b.0 == 0,
        c.0 & b.0 == 0 ==> a.without(b).has(c) == a.has(c),
        a.without(b).with(b) == a.with(b),
{
    let (x, y, z) = (a.0, b.0, c.0);
    assert((x & !y) & y == 0) by (bit_vector);
    assert(z & y == 0 ==> (x & !y) & z == x & z) by (bit_vector);
    assert((x & !y) | y == x | y) by (bit_vector);
}

/// A set has bits only if it has all of them, and the empty set has none.
pub proof fn law_health_has(a: HealthBits, b: HealthBits, c: HealthBits)
    ensures
        a.has(b.with(c)) <==> a.has(b) && a.has(c),
        a.has(b) && b.has(a) ==> a == b,
        a.has(HealthBits(0)),
        HealthBits(0).has(b) <==> b == HealthBits(0),
{
    lemma_has(a.0, b.0, c.0);
}

/// Setting bits makes exactly those bits present and touches no other.
pub proof fn law_post_set(a: PostBits, b: PostBits, c: PostBits)
    ensures
        a.with(b).has(b),
        a.has(c) ==> a.with(b).has(c),
        c.0 & b.0 == 0 ==> a.with(b).has(c) == a.has(c),
{
    lemma_set(a.0, b.0, c.0);
}

/// A set has bits only if it has all of them, and the empty set has none.
pub proof fn law_post_has(a: PostBits, b: PostBits, c: PostBits)
    ensures
        a.has(b.with(c)) <==> a.has(b) && a.has(c),
        a.has(b) && b.has(a) ==> a == b,
        a.has(PostBits(0)),
        PostBits(0).has(b) <==> b == PostBits(0),
{
    lemma_has(a.0, b.0, c.0);
}

proof fn lemma_set_u8(x: u8, y: u8, z: u8)
    ensures
        (x | y) & y == y,
        x & z == z ==> (x | y) & z == z,
        z & y == 0 ==> (x | y) & z == x & z,
{
    assert((x | y) & y == y) by (bit_vector);
    assert(x & z == z ==> (x | y) & z == z) by (bit_vector);
    assert(z & y == 0 ==> (x | y) & z == x & z) by (bit_vector);
}

proof fn lemma_has_u8(x: u8, y: u8, z: u8)
    ensures
        x & (y | z) == y | z <==> x & y == y && x & z == z,
        x & y == y && y & x == x ==> x == y,
        x & 0 == 0,
        0 & y == y <==> y == 0,
{
    assert(x & (y | z) == y | z <==> x & y == y && x & z == z) by (bit_vector);
    assert(x & y == y && y & x == x ==> x == y) by (bit_vector);
    assert(x & 0 == 0 && (0 & y == y <==> y == 0)) by (bit_vector);
}

proof fn lemma_has(x: u16, y: u16, z: u16)
    ensures
        x & (y | z) == y | z <==> x & y == y && x & z == z,
        x & y == y && y & x == x ==> x == y,
        x & 0 == 0,
        0 & y == y <==> y == 0,
{
    assert(x & (y | z) == y | z <==> x & y == y && x & z == z) by (bit_vector);
    assert(x & y == y && y & x == x ==> x == y) by (bit_vector);
    assert(x & 0 == 0 && (0 & y == y <==> y == 0)) by (bit_vector);
}

proof fn lemma_set(x: u16, y: u16, z: u16)
    ensures
        (x | y) & y == y,
        x & z == z ==> (x | y) & z == z,
        z & y == 0 ==> (x | y) & z == x & z,
{
    assert((x | y) & y == y) by (bit_vector);
    assert(x & z == z ==> (x | y) & z == z) by (bit_vector);
    assert(z & y == 0 ==> (x | y) & z == x & z) by (bit_vector);
}

/// Each condition has a bit of its own.
pub proof fn law_conditions_are_apart()
    ensures
        FaultBits(FaultBits::IMU_LOST) == FaultBits(1) && FaultBits(FaultBits::MOTOR_FAULT)
            == FaultBits(2) && FaultBits(FaultBits::IWDG_RESET) == FaultBits(4) && FaultBits(
            FaultBits::SERVO_FAULT,
        ) == FaultBits(8),
        HealthBits::CHASSIS_STALE == 1 && HealthBits::SENSORS_STALE == 2 && HealthBits::LANE_STALE
            == 4 && HealthBits::RTK_STALE == 8 && HealthBits::BACKUP_GNSS_STALE == 16
            && HealthBits::WATCHDOG_TRIPPED == 32 && HealthBits::STALL_DETECTED == 64
            && HealthBits::ESTIMATOR_DIVERGED == 128 && HealthBits::BOARD_POST_FAIL == 256
            && HealthBits::BOARD_RESET == 512 && HealthBits::LINK_DEGRADED == 1024,
        PostBits::CLOCK == 1 && PostBits::PHY_ID == 2 && PostBits::LINK == 4 && PostBits::NET_BIND
            == 8 && PostBits::SENSOR_A == 16 && PostBits::SENSOR_B == 32 && PostBits::SENSOR_C == 64
            && PostBits::IWDG == 128,
{
}

} // verus!
