//! Corrections on their way to the primary receiver.

use vstd::prelude::*;

verus! {

/// What waits for the receiver once more has been handed on.
pub open spec fn handed_on(waiting: Seq<u8>, bytes: Seq<u8>) -> Seq<u8> {
    waiting + bytes
}

/// Hand correction bytes on to the receiver, behind whatever waits for it
/// already: no parsing, no framing, no validation.
pub fn inject_rtcm(ublox_port: &mut Vec<u8>, rtcm_bytes: &[u8])
    ensures
        final(ublox_port)@ == handed_on(old(ublox_port)@, rtcm_bytes@),
{
    let mut i: usize = 0;
    while i < rtcm_bytes.len()
        invariant
            i <= rtcm_bytes@.len(),
            ublox_port@ == old(ublox_port)@ + rtcm_bytes@.take(i as int),
        decreases rtcm_bytes@.len() - i,
    {
        ublox_port.push(rtcm_bytes[i]);
        i = i + 1;
        assert(rtcm_bytes@.take(i as int) =~= rtcm_bytes@.take(i - 1).push(rtcm_bytes@[i - 1]));
    }
    assert(rtcm_bytes@.take(i as int) =~= rtcm_bytes@);
}

/// Every byte gets through, once and in order, behind those that wait already;
/// how the bytes are cut makes no difference.
pub proof fn law_bytes_get_through(waiting: Seq<u8>, a: Seq<u8>, b: Seq<u8>, i: int)
    ensures
        handed_on(waiting, a).len() == waiting.len() + a.len(),
        0 <= i < waiting.len() ==> handed_on(waiting, a)[i] == waiting[i],
        0 <= i < a.len() ==> handed_on(waiting, a)[waiting.len() + i] == a[i],
        handed_on(handed_on(waiting, a), b) == handed_on(waiting, a + b),
{
    assert(handed_on(handed_on(waiting, a), b) =~= handed_on(waiting, a + b));
}

} // verus!
