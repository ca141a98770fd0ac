//! Whether the link to the rover is up, by the age of the last telemetry.

use vstd::prelude::*;

verus! {

/// Milliseconds without telemetry after which the link counts as lost.
pub const LINK_LOSS_TIMEOUT_MS: u64 = 1000;

/// Whether the base considers itself connected. For display only: a live link
/// guarantees no delivery, and a lost one does not mean that the rover stopped.
#[derive(Clone, Copy, Debug, PartialEq, Eq, Structural)]
pub enum LinkStatus {
    Live { age_ms: u64 },
    /// The largest age there is stands for "nothing received at all".
    Lost { age_ms: u64 },
}

/// The state of a link whose last telemetry is of the given age.
pub open spec fn status(age_ms: Option<u64>) -> LinkStatus {
    match age_ms {
        None => LinkStatus::Lost { age_ms: u64::MAX },
        Some(ms) => if ms > LINK_LOSS_TIMEOUT_MS {
            LinkStatus::Lost { age_ms: ms }
        } else {
            LinkStatus::Live { age_ms: ms }
        },
    }
}

/// Classify the link by the age of the last telemetry; `None` if there was
/// none.
pub fn classify(age_ms: Option<u64>) -> (s: LinkStatus)
    ensures
        s == status(age_ms),
{
    match age_ms {
        None => LinkStatus::Lost { age_ms: u64::MAX },
        Some(ms) => if ms > LINK_LOSS_TIMEOUT_MS {
            LinkStatus::Lost { age_ms: ms }
        } else {
            LinkStatus::Live { age_ms: ms }
        },
    }
}

/// A link is live up to a second without telemetry, and lost beyond it; the age
/// is told as it is, and a link that was never heard of is lost for longest.
pub proof fn law_link(age_ms: u64)
    ensures
        age_ms <= 1000 <==> status(Some(age_ms)) == (LinkStatus::Live { age_ms }),
        age_ms > 1000 <==> status(Some(age_ms)) == (LinkStatus::Lost { age_ms }),
        status(None) == (LinkStatus::Lost { age_ms: 0xffff_ffff_ffff_ffff }),
{
}

} // verus!
