//! Telling the receivers apart by the quality of their fixes, where a reading
//! does not say which it came from.

use crate::msgs::gnss::GnssFix;
use crate::msgs::kinds::{FixQuality, GnssSource};
use crate::nav::assemble;
use crate::nav::spresense::{SpresenseNumbers, SpresenseView};
use vstd::prelude::*;

verus! {

/// The receiver that a fix of some quality most likely came from: corrected
/// fixes only the primary one can have.
pub open spec fn likely(fix: GnssFix) -> GnssSource {
    match fix.fix {
        FixQuality::NoFix => GnssSource::Backup,
        FixQuality::Autonomous => GnssSource::Backup,
        _ => GnssSource::Rtk,
    }
}

/// Classify a fix by its quality.
pub fn classify(fix: &GnssFix) -> (s: GnssSource)
    ensures
        s == likely(*fix),
{
    match fix.fix {
        FixQuality::NoFix | FixQuality::Autonomous => GnssSource::Backup,
        _ => GnssSource::Rtk,
    }
}

/// A reading of the backup receiver is never taken for one of the primary.
pub proof fn law_backup_is_never_mistaken(v: SpresenseView, n: SpresenseNumbers)
    ensures
        likely(assemble::backup_fix(v, n)) == GnssSource::Backup,
{
}

/// Only corrected fixes are taken for the primary receiver's, and all of them.
pub proof fn law_corrected_fixes_are_the_primarys(fix: GnssFix)
    ensures
        likely(fix) is Rtk <==> fix.fix is Dgps || fix.fix is RtkFloat || fix.fix is RtkFixed,
{
}

} // verus!
