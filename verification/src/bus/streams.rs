//! Streams: numbered frames out, one newest-wins slot per message type in.

use crate::bus::config::BusConfig;
use crate::link::peer::PeerId;
use crate::link::udp::{Addr, LinkError};
use crate::msgs::frame;
use crate::msgs::frame::{encode_frame, Frame, FrameHeader, FRAME_HEADER_LEN};
use crate::msgs::wire;
use crate::msgs::wire::Wire;
use crate::tap::stats;
use std::collections::HashMap;
use vstd::prelude::*;
use vstd::slice::slice_to_vec;

verus! {

broadcast use vstd::std_specs::hash::group_hash_axioms;

/// The most recent frame seen for one message type: its sequence number and
/// still-encoded body.
struct Slot {
    seq: u16,
    body: Vec<u8>,
}

/// The content of a slot.
pub struct SlotView {
    pub seq: u16,
    pub body: Seq<u8>,
}

/// What is to be sent for one published message: one frame, to every
/// destination of its route and, best effort, to the mirror.
pub struct Publication {
    pub frame: Vec<u8>,
    pub dests: Vec<PeerId>,
    pub mirror: Option<Addr>,
}

/// Publish/subscribe for one process.
///
/// Owns a sequence counter per message type for publishing and a newest-wins
/// slot per message type received.
pub struct Bus {
    config: BusConfig,
    send_seq: HashMap<u16, u16>,
    latest: HashMap<u16, Slot>,
}

/// What the datagrams do to the slots, in order of arrival: each one that has a
/// header overwrites the slot of its type, the others do nothing.
pub open spec fn absorbed(slots: Map<u16, SlotView>, datagrams: Seq<Seq<u8>>) -> Map<u16, SlotView>
    decreases datagrams.len(),
{
    if datagrams.len() == 0 {
        slots
    } else {
        let before = absorbed(slots, datagrams.drop_last());
        let d = datagrams.last();
        if d.len() < FRAME_HEADER_LEN {
            before
        } else {
            let h = FrameHeader::read(d);
            before.insert(
                h.type_id,
                SlotView { seq: h.seq, body: d.skip(FRAME_HEADER_LEN as int) },
            )
        }
    }
}

/// The contents of a list of datagrams.
pub open spec fn contents(ds: Seq<Vec<u8>>) -> Seq<Seq<u8>> {
    Seq::new(ds.len(), |i: int| ds[i]@)
}

impl Bus {
    /// The number that the next frame of a type gets.
    pub closed spec fn next(self, id: u16) -> u16 {
        if self.send_seq@.contains_key(id) {
            self.send_seq@[id]
        } else {
            0
        }
    }

    /// The newest frame of every type that has been received.
    pub closed spec fn slots(self) -> Map<u16, SlotView> {
        Map::new(
            |id: u16| self.latest@.contains_key(id),
            |id: u16| SlotView { seq: self.latest@[id].seq, body: self.latest@[id].body@ },
        )
    }

    /// The configuration the bus was made with.
    pub closed spec fn settings(self) -> BusConfig {
        self.config
    }

    pub fn new(config: BusConfig) -> (b: Self)
        ensures
            b.settings() == config,
            forall|id: u16| #[trigger] b.next(id) == 0,
            b.slots() == Map::<u16, SlotView>::empty(),
    {
        let b = Bus { config, send_seq: HashMap::new(), latest: HashMap::new() };
        assert(b.slots() =~= Map::<u16, SlotView>::empty());
        b
    }

    /// Number and encode `msg`, and say where it goes.
    ///
    /// The counter per message type is what lets a receiver see packet loss as
    /// gaps.
    pub fn publish<T: Wire>(&mut self, msg: &T) -> (p: Publication)
        ensures
            p.frame@ == announced(*msg, old(self).next(T::id())),
            p.dests@ == old(self).settings().route(T::title()@),
            p.mirror == old(self).settings().mirrored(),
            final(self).settings() == old(self).settings(),
            final(self).slots() == old(self).slots(),
            forall|id: u16| #[trigger]
                final(self).next(id) == counted_on(T::id(), id, old(self).next(id)),
    {
        proof {
            T::lemma_consts();
            frame::law_frame_round_trip::<T>(*msg, self.next(T::id()));
        }
        let seq: u16 = match self.send_seq.get(&T::TYPE_ID) {
            Some(n) => *n,
            None => 0,
        };
        self.send_seq.insert(T::TYPE_ID, seq.wrapping_add(1));
        assert(self.slots() =~= old(self).slots());
        let mut frame: Vec<u8> = Vec::new();
        frame.resize(FRAME_HEADER_LEN + T::WIRE_LEN, 0);
        encode_frame(msg, seq, frame.as_mut_slice());
        assert(frame@ =~= frame::frame_bytes(*msg, seq));
        Publication {
            frame,
            dests: self.config.route_for::<T>(),
            mirror: self.config.mirror(),
        }
    }

    /// Take in every datagram that was waiting, updating the newest-wins slot
    /// of its type.
    pub fn poll(&mut self, datagrams: &Vec<Vec<u8>>)
        ensures
            final(self).slots() == absorbed(old(self).slots(), contents(datagrams@)),
            final(self).settings() == old(self).settings(),
            forall|id: u16| #[trigger] final(self).next(id) == old(self).next(id),
    {
        let mut i: usize = 0;
        assert(contents(datagrams@).take(0) =~= Seq::empty());
        while i < datagrams.len()
            invariant
                i <= datagrams@.len(),
                self.slots() == absorbed(
                    old(self).slots(),
                    contents(datagrams@).take(i as int),
                ),
                self.config == old(self).config,
                self.send_seq == old(self).send_seq,
            decreases datagrams@.len() - i,
        {
            let ghost before = self.slots();
            let d = datagrams[i].as_slice();
            match Frame::parse(d) {
                Ok(frame) => {
                    let slot = Slot { seq: frame.header.seq, body: slice_to_vec(frame.body) };
                    let ghost view = SlotView { seq: slot.seq, body: slot.body@ };
                    self.latest.insert(frame.header.type_id, slot);
                    assert(self.slots() =~= before.insert(frame.header.type_id, view));
                },
                Err(_) => {},
            }
            assert(contents(datagrams@).take(i + 1).drop_last() =~= contents(datagrams@).take(
                i as int,
            ));
            i = i + 1;
        }
        assert(contents(datagrams@).take(i as int) =~= contents(datagrams@));
    }

    /// Every `T` that the datagrams deliver, in the order of their arrival: for
    /// a subscriber that cannot afford to miss one.
    pub fn subscribe<T: Wire>(&self, datagrams: &Vec<Vec<u8>>) -> (v: Vec<T>)
        ensures
            v@ == deliveries::<T>(contents(datagrams@)),
    {
        let mut v: Vec<T> = Vec::new();
        let mut i: usize = 0;
        let ghost all = contents(datagrams@);
        assert(all.take(0) =~= Seq::empty());
        while i < datagrams.len()
            invariant
                i <= datagrams@.len(),
                all == contents(datagrams@),
                v@ == deliveries::<T>(all.take(i as int)),
            decreases datagrams@.len() - i,
        {
            assert(all.take(i + 1).drop_last() =~= all.take(i as int));
            if let Ok(frame) = Frame::parse(datagrams[i].as_slice()) {
                if let Some(Ok(msg)) = frame.decode_as::<T>() {
                    v.push(msg);
                }
            }
            i = i + 1;
        }
        assert(all.take(i as int) =~= all);
        v
    }

    /// The most recently received `T`, or `None` if nothing of that type has
    /// arrived yet or the last one failed to decode.
    pub fn latest<T: Wire>(&self) -> (r: Option<T>)
        ensures
            r == newest::<T>(self.slots()),
    {
        proof {
            T::lemma_consts();
        }
        match self.latest.get(&T::TYPE_ID) {
            None => None,
            Some(slot) => match T::decode(slot.body.as_slice()) {
                Ok(msg) => Some(msg),
                Err(_) => None,
            },
        }
    }

    /// The sequence number carried by the most recently received `T`, if any.
    pub fn latest_seq<T: Wire>(&self) -> (r: Option<u16>)
        ensures
            r == newest_seq::<T>(self.slots()),
    {
        proof {
            T::lemma_consts();
        }
        match self.latest.get(&T::TYPE_ID) {
            None => None,
            Some(slot) => Some(slot.seq),
        }
    }

    /// The configuration this bus was made with.
    pub fn config(&self) -> (c: &BusConfig)
        ensures
            *c == self.settings(),
    {
        &self.config
    }
}

/// The `T` that a datagram delivers: one with a header of that type, and a body
/// that decodes.
pub open spec fn delivery<T: Wire>(d: Seq<u8>) -> Option<T> {
    if d.len() < FRAME_HEADER_LEN || FrameHeader::read(d).type_id != T::id() {
        None
    } else {
        match wire::decoded::<T>(d.skip(FRAME_HEADER_LEN as int)) {
            Ok(msg) => Some(msg),
            Err(_) => None,
        }
    }
}

/// Every `T` that a list of datagrams delivers, in order.
pub open spec fn deliveries<T: Wire>(datagrams: Seq<Seq<u8>>) -> Seq<T>
    decreases datagrams.len(),
{
    if datagrams.len() == 0 {
        Seq::empty()
    } else {
        match delivery::<T>(datagrams.last()) {
            Some(msg) => deliveries::<T>(datagrams.drop_last()).push(msg),
            None => deliveries::<T>(datagrams.drop_last()),
        }
    }
}

/// The newest `T` in the slots.
pub open spec fn newest<T: Wire>(slots: Map<u16, SlotView>) -> Option<T> {
    if slots.contains_key(T::id()) {
        match wire::decoded::<T>(slots[T::id()].body) {
            Ok(msg) => Some(msg),
            Err(_) => None,
        }
    } else {
        None
    }
}

/// The number of the newest `T` in the slots.
pub open spec fn newest_seq<T: Wire>(slots: Map<u16, SlotView>) -> Option<u16> {
    if slots.contains_key(T::id()) {
        Some(slots[T::id()].seq)
    } else {
        None
    }
}

/// The datagram that announces a message under a number.
pub open spec fn announced<T: Wire>(msg: T, next: u16) -> Seq<u8> {
    frame::frame_bytes(msg, next)
}

/// The number that the next frame of type `id` gets, after one of type `sent`.
pub open spec fn counted_on(sent: u16, id: u16, next: u16) -> u16 {
    if id == sent {
        ((next + 1) % 0x1_0000) as u16
    } else {
        next
    }
}

/// Where the first failure stands.
pub open spec fn first_failure(outcomes: Seq<Result<(), LinkError>>) -> Option<int>
    decreases outcomes.len(),
{
    if outcomes.len() == 0 {
        None
    } else if first_failure(outcomes.drop_last()) is Some {
        first_failure(outcomes.drop_last())
    } else if outcomes.last() is Err {
        Some(outcomes.len() - 1)
    } else {
        None
    }
}

/// How a fan-out ended: every destination was attempted, and the first failure
/// is the one that is reported. The mirror's outcome is not among them.
pub fn fan_out_result(outcomes: &Vec<Result<(), LinkError>>) -> (r: Result<(), LinkError>)
    ensures
        match r {
            Ok(_) => first_failure(outcomes@) is None,
            Err(e) => first_failure(outcomes@) matches Some(i) && same_error(
                e,
                outcomes@[i]->Err_0,
            ),
        },
{
    let mut i: usize = 0;
    while i < outcomes.len()
        invariant
            i <= outcomes@.len(),
            forall|j: int| 0 <= j < i ==> (#[trigger] outcomes@[j]) is Ok,
        decreases outcomes@.len() - i,
    {
        match &outcomes[i] {
            Ok(_) => {},
            Err(e) => {
                let copy = match e {
                    LinkError::Io(text) => LinkError::Io(text.clone()),
                    LinkError::UnknownPeer(p) => LinkError::UnknownPeer(*p),
                    LinkError::FrameTooLarge { len, mtu } => LinkError::FrameTooLarge {
                        len: *len,
                        mtu: *mtu,
                    },
                    LinkError::Unsupported => LinkError::Unsupported,
                };
                proof {
                    law_first_failure(outcomes@);
                    assert(outcomes@[i as int] is Err);
                    let k = first_failure(outcomes@)->0;
                    assert(k == i) by {
                        if k < i {
                            assert(outcomes@[k] is Ok);
                        }
                    }
                }
                return Err(copy);
            },
        }
        i = i + 1;
    }
    proof {
        law_first_failure(outcomes@);
    }
    Ok(())
}

/// Two errors that say the same.
pub open spec fn same_error(a: LinkError, b: LinkError) -> bool {
    match (a, b) {
        (LinkError::Io(s), LinkError::Io(t)) => s@ == t@,
        (LinkError::UnknownPeer(p), LinkError::UnknownPeer(q)) => p == q,
        (
            LinkError::FrameTooLarge { len: l, mtu: m },
            LinkError::FrameTooLarge { len: k, mtu: n },
        ) => l == k && m == n,
        (LinkError::Unsupported, LinkError::Unsupported) => true,
        _ => false,
    }
}

/// What one process publishes is what another finds: whatever was received
/// before it, a published frame makes its message the newest of its type, under
/// its number, and leaves every other type alone.
pub proof fn law_published_is_received<T: Wire>(
    slots: Map<u16, SlotView>,
    earlier: Seq<Seq<u8>>,
    msg: T,
    seq: u16,
)
    ensures
        newest::<T>(absorbed(slots, earlier.push(frame::frame_bytes(msg, seq)))) == Some(msg),
        absorbed(slots, earlier.push(frame::frame_bytes(msg, seq)))[T::id()].seq == seq,
        forall|id: u16|
            id != T::id() ==> #[trigger] absorbed(
                slots,
                earlier.push(frame::frame_bytes(msg, seq)),
            ).contains_key(id) == absorbed(slots, earlier).contains_key(id),
        forall|id: u16|
            id != T::id() ==> #[trigger] absorbed(
                slots,
                earlier.push(frame::frame_bytes(msg, seq)),
            )[id] == absorbed(slots, earlier)[id],
{
    frame::law_frame_round_trip::<T>(msg, seq);
    assert(earlier.push(frame::frame_bytes(msg, seq)).drop_last() =~= earlier);
}

/// A subscriber gets every message that was published, once, in order, whatever
/// else arrives in between.
pub proof fn law_subscribers_miss_nothing<T: Wire>(
    earlier: Seq<Seq<u8>>,
    msg: T,
    seq: u16,
    other: Seq<u8>,
)
    requires
        other.len() < FRAME_HEADER_LEN || FrameHeader::read(other).type_id != T::id(),
    ensures
        deliveries::<T>(earlier.push(frame::frame_bytes(msg, seq))) == deliveries::<T>(
            earlier,
        ).push(msg),
        deliveries::<T>(earlier.push(other)) == deliveries::<T>(earlier),
{
    frame::law_frame_round_trip::<T>(msg, seq);
    assert(earlier.push(frame::frame_bytes(msg, seq)).drop_last() =~= earlier);
    assert(earlier.push(other).drop_last() =~= earlier);
}

/// A failure is reported exactly where there is one, and then the first.
pub proof fn law_first_failure(outcomes: Seq<Result<(), LinkError>>)
    ensures
        first_failure(outcomes) is None <==> forall|i: int|
            0 <= i < outcomes.len() ==> (#[trigger] outcomes[i]) is Ok,
        first_failure(outcomes) matches Some(i) ==> {
            &&& 0 <= i < outcomes.len()
            &&& outcomes[i] is Err
            &&& forall|j: int| 0 <= j < i ==> (#[trigger] outcomes[j]) is Ok
        },
    decreases outcomes.len(),
{
    if outcomes.len() > 0 {
        let before = outcomes.drop_last();
        law_first_failure(before);
        assert(forall|i: int|
            0 <= i < before.len() ==> (#[trigger] before[i]) == outcomes[i]);
        assert(forall|i: int|
            0 <= i < outcomes.len() - 1 ==> (#[trigger] outcomes[i]) == before[i]);
        if first_failure(before) is None && outcomes.last() is Err {
            assert(outcomes[outcomes.len() - 1] is Err);
        }
    }
}

/// An error that is passed on says what it said: of its kind, and with its
/// details.
pub proof fn law_same_error(a: LinkError, b: LinkError)
    ensures
        same_error(a, a),
        same_error(a, b) <==> {
            &&& a is Io <==> b is Io
            &&& a is UnknownPeer <==> b is UnknownPeer
            &&& a is FrameTooLarge <==> b is FrameTooLarge
            &&& a matches LinkError::Io(s) ==> (b matches LinkError::Io(t) && s@ == t@)
            &&& a matches LinkError::UnknownPeer(p) ==> b == LinkError::UnknownPeer(p)
            &&& a matches LinkError::FrameTooLarge { len, mtu } ==> b == (
            LinkError::FrameTooLarge { len, mtu })
        },
{
}

/// Frames of a type are numbered one by one, around from the last number to
/// zero, and those of other types have nothing to do with it. A receiver of
/// both finds the message, under its number, and nothing missing in between.
#[verifier::rlimit(40)]
pub proof fn law_frames_are_numbered<T: Wire>(
    slots: Map<u16, SlotView>,
    id: u16,
    next: u16,
    a: T,
    b: T,
)
    ensures
        ({
            let then = counted_on(T::id(), T::id(), next);
            let first = absorbed(slots, seq![announced(a, next)]);
            let both = absorbed(slots, seq![announced(a, next), announced(b, then)]);
            &&& next < 0xffff ==> then == next + 1
            &&& next == 0xffff ==> then == 0
            &&& newest::<T>(first) == Some(a) && newest_seq::<T>(first) == Some(next)
            &&& newest::<T>(both) == Some(b) && newest_seq::<T>(both) == Some(then)
            &&& stats::missing(next, then) == 0
        }),
        id != T::id() ==> counted_on(T::id(), id, next) == next,
        newest_seq::<T>(slots) is None <==> !slots.contains_key(T::id()),
{
    let then = counted_on(T::id(), T::id(), next);
    let none = Seq::<Seq<u8>>::empty();
    law_published_is_received(slots, none, a, next);
    assert(none.push(announced(a, next)) =~= seq![announced(a, next)]);
    law_published_is_received(slots, seq![announced(a, next)], b, then);
    assert(seq![announced(a, next)].push(announced(b, then)) =~= seq![
        announced(a, next),
        announced(b, then),
    ]);
    frame::law_frame_round_trip::<T>(a, next);
    frame::law_frame_round_trip::<T>(b, then);
    assert(seq![announced(a, next)].drop_last() =~= none);
    assert(seq![announced(a, next), announced(b, then)].drop_last() =~= seq![announced(a, next)]);
}

/// What arrives is kept as it came, the newest only: a datagram without a header
/// changes nothing, and any other one replaces what its type had, whether or
/// not it decodes.
#[verifier::rlimit(40)]
pub proof fn law_newest_wins(slots: Map<u16, SlotView>, earlier: Seq<Seq<u8>>, d: Seq<u8>, id: u16)
    ensures
        ({
            let before = absorbed(slots, earlier);
            let after = absorbed(slots, earlier.push(d));
            &&& d.len() < 4 ==> after == before
            &&& d.len() >= 4 && id == FrameHeader::read(d).type_id ==> {
                &&& after.contains_key(id)
                &&& after[id].seq == FrameHeader::read(d).seq
                &&& after[id].body == d.subrange(4, d.len() as int)
            }
            &&& d.len() >= 4 && id != FrameHeader::read(d).type_id ==> {
                &&& after.contains_key(id) == before.contains_key(id)
                &&& after[id] == before[id]
            }
        }),
{
    assert(earlier.push(d).drop_last() =~= earlier);
    assert(d.len() >= 4 ==> d.skip(4) =~= d.subrange(4, d.len() as int));
}

} // verus!
