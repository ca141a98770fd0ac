//! Saturation and slew limiting of the steering angle.

use crate::reals::Real32;
use vstd::prelude::*;

verus! {

/// The steering guard rail, applied after every controller. Works in degrees.
#[derive(Clone, Copy, Debug, PartialEq, Eq, Structural)]
pub struct SteerLimiter {
    pub max_deg: Real32,
    pub prev_deg: Real32,
}

impl SteerLimiter {
    /// The limit is a number that is not negative, and the last angle lies
    /// within it.
    pub open spec fn wf(self) -> bool {
        &&& Real32(0).at_most(self.max_deg)
        &&& self.max_deg.negated().at_most(self.prev_deg)
        &&& self.prev_deg.at_most(self.max_deg)
    }

    pub fn new(max_deg: Real32) -> (s: Self)
        ensures
            s == (SteerLimiter { max_deg, prev_deg: Real32(0) }),
            Real32(0).at_most(max_deg) ==> s.wf(),
    {
        SteerLimiter { max_deg, prev_deg: Real32(0) }
    }

    /// The angle that follows a request, given how far the slew rate lets it
    /// move: saturate, then limit the change. Saturating first means that the
    /// slew budget is never spent moving toward a command that was going to be
    /// clamped away.
    pub open spec fn stepped(self, cmd_deg: Real32, lo: Real32, hi: Real32) -> Real32 {
        cmd_deg.limited(self.max_deg.negated(), self.max_deg).limited(lo, hi)
    }

    /// The limiter after a request.
    pub open spec fn moved(self, cmd_deg: Real32, lo: Real32, hi: Real32) -> SteerLimiter {
        SteerLimiter { prev_deg: self.stepped(cmd_deg, lo, hi), ..self }
    }

    /// Apply one request. `lo..=hi` is the previous angle plus or minus the
    /// slew step of the elapsed time.
    pub fn apply(&mut self, cmd_deg: Real32, lo: Real32, hi: Real32) -> (r: Real32)
        requires
            Real32(0).at_most(old(self).max_deg),
            lo.at_most(hi),
        ensures
            r == old(self).stepped(cmd_deg, lo, hi),
            *final(self) == old(self).moved(cmd_deg, lo, hi),
    {
        let clamped = cmd_deg.clamp(self.max_deg.neg(), self.max_deg);
        let stepped = clamped.clamp(lo, hi);
        self.prev_deg = stepped;
        stepped
    }

    /// The limiter once it was snapped to an angle.
    pub open spec fn snapped(self, deg: Real32) -> SteerLimiter {
        SteerLimiter { prev_deg: deg.limited(self.max_deg.negated(), self.max_deg), ..self }
    }

    /// Snap to `deg` with no slew: used to centre the steering the instant
    /// driving stops being permitted.
    pub fn force_to(&mut self, deg: Real32)
        requires
            Real32(0).at_most(old(self).max_deg),
        ensures
            *final(self) == old(self).snapped(deg),
    {
        self.prev_deg = deg.clamp(self.max_deg.neg(), self.max_deg);
    }
}

/// The steering angle never leaves its limits: where the slew window contains
/// the previous angle, the next one lies both in the window and within the
/// limits.
pub proof fn law_steer_stays_in_limits(s: SteerLimiter, cmd_deg: Real32, lo: Real32, hi: Real32)
    requires
        s.wf(),
        !cmd_deg.nan(),
        lo.at_most(s.prev_deg),
        s.prev_deg.at_most(hi),
    ensures
        (SteerLimiter { prev_deg: s.stepped(cmd_deg, lo, hi), ..s }).wf(),
        lo.at_most(s.stepped(cmd_deg, lo, hi)),
        s.stepped(cmd_deg, lo, hi).at_most(hi),
{
}

/// Centring keeps the limiter within its limits.
pub proof fn law_centring(s: SteerLimiter)
    requires
        s.wf(),
    ensures
        Real32(0).limited(s.max_deg.negated(), s.max_deg).same(Real32(0)),
{
}

/// A request that is permitted comes out unchanged. Any other comes out as the
/// permitted angle nearest to it: no angle within both the limits and the slew
/// window lies between the request and what becomes of it.
#[verifier::rlimit(40)]
pub proof fn law_steer_is_nearest(
    s: SteerLimiter,
    cmd_deg: Real32,
    lo: Real32,
    hi: Real32,
    other: Real32,
)
    requires
        Real32(0).at_most(s.max_deg),
        lo.at_most(hi),
        !cmd_deg.nan(),
        s.max_deg.negated().at_most(other) && other.at_most(s.max_deg),
        lo.at_most(other) && other.at_most(hi),
    ensures
        s.max_deg.negated().at_most(cmd_deg) && cmd_deg.at_most(s.max_deg) && lo.at_most(cmd_deg)
            && cmd_deg.at_most(hi) ==> s.stepped(cmd_deg, lo, hi) == cmd_deg,
        s.max_deg.negated().at_most(s.stepped(cmd_deg, lo, hi)),
        s.stepped(cmd_deg, lo, hi).at_most(s.max_deg),
        lo.at_most(s.stepped(cmd_deg, lo, hi)) && s.stepped(cmd_deg, lo, hi).at_most(hi),
        cmd_deg.below(s.stepped(cmd_deg, lo, hi)) ==> s.stepped(cmd_deg, lo, hi).at_most(other),
        s.stepped(cmd_deg, lo, hi).below(cmd_deg) ==> other.at_most(s.stepped(cmd_deg, lo, hi)),
{
}

/// The slew window is never left, not even where it lies outside the limits:
/// the angle then moves as far toward them as the window lets it.
pub proof fn law_slew_comes_last(s: SteerLimiter, cmd_deg: Real32, lo: Real32, hi: Real32)
    requires
        Real32(0).at_most(s.max_deg),
        lo.at_most(hi),
        !cmd_deg.nan(),
    ensures
        lo.at_most(s.stepped(cmd_deg, lo, hi)) && s.stepped(cmd_deg, lo, hi).at_most(hi),
        s.max_deg.below(lo) ==> s.stepped(cmd_deg, lo, hi) == lo,
        hi.below(s.max_deg.negated()) ==> s.stepped(cmd_deg, lo, hi) == hi,
{
}

/// Steering to the right and steering to the left are alike: turning the request
/// and the window around turns the angle around.
#[verifier::rlimit(40)]
pub proof fn law_steer_is_symmetric(s: SteerLimiter, cmd_deg: Real32, lo: Real32, hi: Real32)
    requires
        Real32(0).at_most(s.max_deg),
        lo.at_most(hi),
        !cmd_deg.nan(),
    ensures
        s.stepped(cmd_deg.negated(), hi.negated(), lo.negated()).rank() == -s.stepped(
            cmd_deg,
            lo,
            hi,
        ).rank(),
{
    crate::reals::law_negation(cmd_deg, crate::reals::Real64(0));
    crate::reals::law_negation(lo, crate::reals::Real64(0));
    crate::reals::law_negation(hi, crate::reals::Real64(0));
    crate::reals::law_negation(s.max_deg, crate::reals::Real64(0));
    let c = cmd_deg.limited(s.max_deg.negated(), s.max_deg);
    let d = cmd_deg.negated().limited(s.max_deg.negated(), s.max_deg);
    assert(d.rank() == -c.rank() && !c.nan() && !d.nan());
}

/// A snap goes straight to the angle asked for where the limits permit it, and
/// to the limit that it lies beyond where they do not; the limits stay.
pub proof fn law_snap(s: SteerLimiter, deg: Real32)
    requires
        Real32(0).at_most(s.max_deg),
        !deg.nan(),
    ensures
        s.snapped(deg).max_deg == s.max_deg,
        deg.rank() <= s.max_deg.rank() && -s.max_deg.rank() <= deg.rank() ==> s.snapped(deg).prev_deg
            == deg,
        deg.rank() > s.max_deg.rank() ==> s.snapped(deg).prev_deg.rank() == s.max_deg.rank(),
        deg.rank() < -s.max_deg.rank() ==> s.snapped(deg).prev_deg.rank() == -s.max_deg.rank(),
{
}

/// What was steered is what the next request starts from, and the limits stay.
pub proof fn law_steering_is_remembered(s: SteerLimiter, cmd_deg: Real32, lo: Real32, hi: Real32)
    ensures
        s.moved(cmd_deg, lo, hi).prev_deg == s.stepped(cmd_deg, lo, hi),
        s.moved(cmd_deg, lo, hi).max_deg == s.max_deg,
{
}

} // verus!
