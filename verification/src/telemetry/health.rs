//! Which feeds the rover has lost, and what else is wrong.

use crate::msgs::boards::ChassisStatus;
use crate::msgs::flags::HealthBits;
use crate::msgs::motion::RoverState;
use crate::reals::{Real32, ONE};
use vstd::prelude::*;

verus! {

/// A chassis status older than this, in milliseconds, is stale.
pub const CHASSIS_STALE_MS: u64 = 500;

/// So is a power sample.
pub const SENSORS_STALE_MS: u64 = 500;

/// A fix may be twice as old.
pub const RTK_STALE_MS: u64 = 1000;

pub const BACKUP_GNSS_STALE_MS: u64 = 1000;

/// The pattern of `1.0`: a lateral variance, in square metres, past which the
/// estimator has diverged.
pub const ESTIMATOR_DIVERGED_VAR_M2: u32 = ONE;

/// Milliseconds since each feed was last seen. `None` for one that was never
/// seen, which is as good as stale.
#[derive(Clone, Copy, Debug, PartialEq, Eq, Default, Structural)]
pub struct FeedAges {
    pub chassis_ms: Option<u64>,
    pub sensors_ms: Option<u64>,
    pub rtk_ms: Option<u64>,
    pub backup_gnss_ms: Option<u64>,
}

/// Never seen, or too long ago.
pub open spec fn stale(age_ms: Option<u64>, limit_ms: u64) -> bool {
    match age_ms {
        None => true,
        Some(a) => a > limit_ms,
    }
}

fn is_stale(age_ms: Option<u64>, limit_ms: u64) -> (r: bool)
    ensures
        r == stale(age_ms, limit_ms),
{
    match age_ms {
        None => true,
        Some(a) => a > limit_ms,
    }
}

/// A flag where a condition holds, and no flag where it does not.
pub open spec fn flag(cond: bool, bit: u16) -> u16 {
    if cond {
        bit
    } else {
        0
    }
}

/// That flag.
pub fn flag_if(cond: bool, bit: u16) -> (r: u16)
    ensures
        r == flag(cond, bit),
{
    if cond {
        bit
    } else {
        0
    }
}

/// What a board's own report says of its watchdog.
pub open spec fn tripped(chassis_status: Option<ChassisStatus>) -> bool {
    match chassis_status {
        None => false,
        Some(c) => c.watchdog_tripped,
    }
}

/// Every health flag, from the age of each feed and the conditions that other
/// messages report.
pub open spec fn health_of(
    ages: FeedAges,
    lane_age_ms: u16,
    lane_stale_ms: u16,
    chassis_status: Option<ChassisStatus>,
    stall_detected: bool,
    state: RoverState,
) -> HealthBits {
    HealthBits(
        flag(stale(ages.chassis_ms, CHASSIS_STALE_MS), HealthBits::CHASSIS_STALE) | flag(
            stale(ages.sensors_ms, SENSORS_STALE_MS),
            HealthBits::SENSORS_STALE,
        ) | flag(lane_age_ms > lane_stale_ms, HealthBits::LANE_STALE) | flag(
            stale(ages.rtk_ms, RTK_STALE_MS),
            HealthBits::RTK_STALE,
        ) | flag(
            stale(ages.backup_gnss_ms, BACKUP_GNSS_STALE_MS),
            HealthBits::BACKUP_GNSS_STALE,
        ) | flag(tripped(chassis_status), HealthBits::WATCHDOG_TRIPPED) | flag(
            stall_detected,
            HealthBits::STALL_DETECTED,
        ) | flag(
            Real32(ESTIMATOR_DIVERGED_VAR_M2).below(state.lateral_variance()),
            HealthBits::ESTIMATOR_DIVERGED,
        ),
    )
}

/// Compute the health flags. The age at which the lane is stale is the
/// estimator's own.
pub fn compute_health(
    ages: &FeedAges,
    lane_age_ms: u16,
    lane_stale_ms: u16,
    chassis_status: Option<&ChassisStatus>,
    stall_detected: bool,
    state: &RoverState,
) -> (h: HealthBits)
    ensures
        h == health_of(
            *ages,
            lane_age_ms,
            lane_stale_ms,
            match chassis_status {
                Some(c) => Some(*c),
                None => None,
            },
            stall_detected,
            *state,
        ),
{
    let watchdog: bool = match chassis_status {
        Some(c) => c.watchdog_tripped,
        None => false,
    };
    let diverged: bool = Real32(ESTIMATOR_DIVERGED_VAR_M2).is_below(state.cross_track_var());
    HealthBits(
        flag_if(is_stale(ages.chassis_ms, CHASSIS_STALE_MS), HealthBits::CHASSIS_STALE) | flag_if(
            is_stale(ages.sensors_ms, SENSORS_STALE_MS),
            HealthBits::SENSORS_STALE,
        ) | flag_if(lane_age_ms > lane_stale_ms, HealthBits::LANE_STALE) | flag_if(
            is_stale(ages.rtk_ms, RTK_STALE_MS),
            HealthBits::RTK_STALE,
        ) | flag_if(
            is_stale(ages.backup_gnss_ms, BACKUP_GNSS_STALE_MS),
            HealthBits::BACKUP_GNSS_STALE,
        ) | flag_if(watchdog, HealthBits::WATCHDOG_TRIPPED) | flag_if(
            stall_detected,
            HealthBits::STALL_DETECTED,
        ) | flag_if(diverged, HealthBits::ESTIMATOR_DIVERGED),
    )
}

/// Each flag stands for its own condition: it is set exactly when that holds,
/// whatever the others say. The flags of the boards' own reports are not among
/// them.
pub proof fn law_flags_are_independent(
    ages: FeedAges,
    lane_age_ms: u16,
    lane_stale_ms: u16,
    chassis_status: Option<ChassisStatus>,
    stall_detected: bool,
    state: RoverState,
)
    ensures
        ({
            let h = health_of(
                ages,
                lane_age_ms,
                lane_stale_ms,
                chassis_status,
                stall_detected,
                state,
            );
            &&& h.has(HealthBits(HealthBits::CHASSIS_STALE)) == stale(
                ages.chassis_ms,
                CHASSIS_STALE_MS,
            )
            &&& h.has(HealthBits(HealthBits::SENSORS_STALE)) == stale(
                ages.sensors_ms,
                SENSORS_STALE_MS,
            )
            &&& h.has(HealthBits(HealthBits::LANE_STALE)) == (lane_age_ms > lane_stale_ms)
            &&& h.has(HealthBits(HealthBits::RTK_STALE)) == stale(ages.rtk_ms, RTK_STALE_MS)
            &&& h.has(HealthBits(HealthBits::BACKUP_GNSS_STALE)) == stale(
                ages.backup_gnss_ms,
                BACKUP_GNSS_STALE_MS,
            )
            &&& h.has(HealthBits(HealthBits::WATCHDOG_TRIPPED)) == tripped(chassis_status)
            &&& h.has(HealthBits(HealthBits::STALL_DETECTED)) == stall_detected
            &&& h.has(HealthBits(HealthBits::ESTIMATOR_DIVERGED)) == Real32(
                ESTIMATOR_DIVERGED_VAR_M2,
            ).below(state.lateral_variance())
            &&& h.0 & 0x0700 == 0
        }),
{
    let a = stale(ages.chassis_ms, CHASSIS_STALE_MS);
    let b = stale(ages.sensors_ms, SENSORS_STALE_MS);
    let c = lane_age_ms > lane_stale_ms;
    let d = stale(ages.rtk_ms, RTK_STALE_MS);
    let e = stale(ages.backup_gnss_ms, BACKUP_GNSS_STALE_MS);
    let f = tripped(chassis_status);
    let g = stall_detected;
    let i = Real32(ESTIMATOR_DIVERGED_VAR_M2).below(state.lateral_variance());
    lemma_eight_flags(
        flag(a, 1),
        flag(b, 2),
        flag(c, 4),
        flag(d, 8),
        flag(e, 16),
        flag(f, 32),
        flag(g, 64),
        flag(i, 128),
    );
}

proof fn lemma_eight_flags(
    a: u16,
    b: u16,
    c: u16,
    d: u16,
    e: u16,
    f: u16,
    g: u16,
    i: u16,
)
    by (bit_vector)
    requires
        a == 0 || a == 1,
        b == 0 || b == 2,
        c == 0 || c == 4,
        d == 0 || d == 8,
        e == 0 || e == 16,
        f == 0 || f == 32,
        g == 0 || g == 64,
        i == 0 || i == 128,
    ensures
        (a | b | c | d | e | f | g | i) & 1 == a,
        (a | b | c | d | e | f | g | i) & 2 == b,
        (a | b | c | d | e | f | g | i) & 4 == c,
        (a | b | c | d | e | f | g | i) & 8 == d,
        (a | b | c | d | e | f | g | i) & 16 == e,
        (a | b | c | d | e | f | g | i) & 32 == f,
        (a | b | c | d | e | f | g | i) & 64 == g,
        (a | b | c | d | e | f | g | i) & 128 == i,
        (a | b | c | d | e | f | g | i) & 0x0700 == 0,
{
}

} // verus!
