//! The address table of a datagram link, and the checks on both directions.

use crate::link::peer::PeerId;
use crate::msgs::frame::{Frame, FrameHeader, FRAME_HEADER_LEN};
use crate::reals::Real32;
use crate::text;
use vstd::prelude::*;

verus! {

/// Ethernet MTU minus IPv4 and UDP headers (1500 - 20 - 8).
pub const LAN_MTU: usize = 1472;

/// A socket address, by its numbers.
#[derive(Clone, Copy, Debug, PartialEq, Eq, Structural)]
pub struct Addr {
    /// The address bits; of an IPv4 address, the low 32 of them.
    pub ip: u128,
    pub v6: bool,
    pub port: u16,
    /// The flow label of an IPv6 address; zero for IPv4.
    pub flow: u32,
    /// The interface that an IPv6 address is local to; zero for none, and for
    /// IPv4.
    pub scope: u32,
}

/// What a transport can carry.
#[derive(Clone, Copy, Debug, PartialEq, Eq, Structural)]
pub enum LinkClass {
    /// Full-rate local network.
    Lan,
    /// A radio with a bit rate and a duty limit, in percent.
    Constrained { bps: u32, duty_pct: Real32 },
}

/// Why a frame was not sent.
#[derive(Clone, Debug, PartialEq, Eq)]
pub enum LinkError {
    /// The transport failed, in its own words.
    Io(String),
    /// No address is known for the destination.
    UnknownPeer(PeerId),
    /// The frame is larger than the link carries.
    FrameTooLarge { len: usize, mtu: usize },
    /// The transport has no such operation.
    Unsupported,
}

impl LinkError {
    /// The text that describes the error.
    pub open spec fn described(self) -> Seq<char> {
        match self {
            LinkError::Io(e) => "link I/O error: "@ + e@,
            LinkError::UnknownPeer(p) => "no address configured for peer `"@ + p.label()@ + "`"@,
            LinkError::FrameTooLarge { len, mtu } => "frame of "@ + text::dec(len as nat)
                + " bytes exceeds link MTU of "@ + text::dec(mtu as nat),
            LinkError::Unsupported => "operation not supported by this link"@,
        }
    }

    pub fn message(&self) -> (s: String)
        ensures
            s@ == self.described(),
    {
        let mut s = String::new();
        match self {
            LinkError::Io(e) => {
                text::push_str(&mut s, "link I/O error: ");
                text::push_str(&mut s, e.as_str());
            },
            LinkError::UnknownPeer(p) => {
                text::push_str(&mut s, "no address configured for peer `");
                text::push_str(&mut s, p.as_str());
                text::push_str(&mut s, "`");
            },
            LinkError::FrameTooLarge { len, mtu } => {
                text::push_str(&mut s, "frame of ");
                text::push_dec(&mut s, *len as u64);
                text::push_str(&mut s, " bytes exceeds link MTU of ");
                text::push_dec(&mut s, *mtu as u64);
            },
            LinkError::Unsupported => {
                text::push_str(&mut s, "operation not supported by this link");
            },
        }
        assert(s@ =~= self.described());
        s
    }
}

/// Where every service can be reached.
#[derive(Clone, Copy, Debug)]
pub struct PeerTable {
    slots: [Option<Addr>; 7],
}

impl PeerTable {
    /// The address of a service, if there is one.
    pub closed spec fn addr(self, p: PeerId) -> Option<Addr> {
        self.slots[p.place()]
    }

    /// The service that an address belongs to: the first listed one that has
    /// it.
    pub open spec fn owner(self, addr: Addr) -> Option<PeerId> {
        if exists|p: PeerId| self.first_with(addr, p) {
            Some(choose|p: PeerId| self.first_with(addr, p))
        } else {
            None
        }
    }

    /// Whether a service has the address, and none that is listed before it.
    pub open spec fn first_with(self, addr: Addr, p: PeerId) -> bool {
        &&& self.addr(p) == Some(addr)
        &&& forall|q: PeerId| q.place() < p.place() ==> #[trigger] self.addr(q) != Some(addr)
    }

    pub fn empty() -> (t: PeerTable)
        ensures
            forall|p: PeerId| #[trigger] t.addr(p) == None::<Addr>,
    {
        PeerTable { slots: [None, None, None, None, None, None, None] }
    }

    pub fn get(&self, p: PeerId) -> (r: Option<Addr>)
        ensures
            r == self.addr(p),
    {
        self.slots[p.index()]
    }

    /// Add or replace the address of a service.
    pub fn set(&mut self, p: PeerId, addr: Addr)
        ensures
            forall|q: PeerId| #[trigger] final(self).addr(q) == entry(p, addr, q, old(self).addr(q)),
    {
        self.slots[p.index()] = Some(addr);
    }

    /// Which service a source address belongs to: the first listed one, should
    /// several share the address.
    pub fn peer_of(&self, addr: Addr) -> (r: Option<PeerId>)
        ensures
            match r {
                Some(p) => self.addr(p) == Some(addr) && forall|q: PeerId|
                    q.place() < p.place() ==> #[trigger] self.addr(q) != Some(addr),
                None => forall|q: PeerId| #[trigger] self.addr(q) != Some(addr),
            },
            r == self.owner(addr),
    {
        let peers = PeerId::all();
        let mut i: usize = 0;
        while i < 7
            invariant
                i <= 7,
                peers@ == PeerId::listed(),
                forall|q: PeerId| q.place() < i ==> #[trigger] self.addr(q) != Some(addr),
            decreases 7 - i,
        {
            let p = peers[i];
            assert(p.place() == i);
            if let Some(a) = self.get(p) {
                if a == addr {
                    proof {
                        assert(self.first_with(addr, p));
                        law_owner(*self, addr, p);
                    }
                    return Some(p);
                }
            }
            assert forall|q: PeerId| q.place() < i + 1 implies #[trigger] self.addr(q) != Some(
                addr,
            ) by {
                if q.place() == i {
                    assert(q == p);
                }
            }
            i = i + 1;
        }
        None
    }
}

/// The address of `q` once that of `p` has been set; `before` is what it was.
pub open spec fn entry(p: PeerId, addr: Addr, q: PeerId, before: Option<Addr>) -> Option<Addr> {
    if q == p {
        Some(addr)
    } else {
        before
    }
}

/// Where a frame of some length goes, to an address that is or is not known.
pub open spec fn destination(addr: Option<Addr>, dest: PeerId, len: usize) -> Result<
    Addr,
    LinkError,
> {
    match addr {
        None => Err(LinkError::UnknownPeer(dest)),
        Some(a) => carried(a, len),
    }
}

/// Where a frame of some length goes, to a known address.
pub open spec fn carried(addr: Addr, len: usize) -> Result<Addr, LinkError> {
    if len > LAN_MTU {
        Err(LinkError::FrameTooLarge { len, mtu: LAN_MTU })
    } else {
        Ok(addr)
    }
}

/// What a datagram delivers: from whom, and a header and a body.
pub open spec fn arrival(table: PeerTable, from: Addr, datagram: Seq<u8>) -> Option<
    (PeerId, FrameHeader, Seq<u8>),
> {
    match table.owner(from) {
        None => None,
        Some(p) => if datagram.len() < FRAME_HEADER_LEN {
            None
        } else {
            Some((p, FrameHeader::read(datagram), datagram.skip(FRAME_HEADER_LEN as int)))
        },
    }
}

/// One service's end of the datagram network: who it is, and where the others
/// are.
pub struct UdpLink {
    pub me: PeerId,
    pub peers: PeerTable,
}

impl UdpLink {
    /// The end of the service `self_id`, with the addresses of the others.
    pub fn bind(self_id: PeerId, peers: PeerTable) -> (l: Self)
        ensures
            l.me == self_id,
            l.peers == peers,
    {
        UdpLink { me: self_id, peers }
    }

    /// Which service this link speaks for.
    pub fn self_id(&self) -> (p: PeerId)
        ensures
            p == self.me,
    {
        self.me
    }

    /// Add or replace a peer's address.
    pub fn set_peer(&mut self, peer: PeerId, addr: Addr)
        ensures
            final(self).me == old(self).me,
            forall|q: PeerId| #[trigger]
                final(self).peers.addr(q) == entry(peer, addr, q, old(self).peers.addr(q)),
    {
        self.peers.set(peer, addr);
    }

    pub fn mtu(&self) -> (n: usize)
        ensures
            n == LAN_MTU,
    {
        LAN_MTU
    }

    pub fn class(&self) -> (c: LinkClass)
        ensures
            c == LinkClass::Lan,
    {
        LinkClass::Lan
    }

    /// Where a frame of `len` bytes for `dest` is to be sent: nowhere, if no
    /// address is known for it; nowhere either, if the link does not carry
    /// frames of that size.
    pub fn send(&self, dest: PeerId, len: usize) -> (r: Result<Addr, LinkError>)
        ensures
            r == destination(self.peers.addr(dest), dest, len),
    {
        match self.peers.get(dest) {
            None => Err(LinkError::UnknownPeer(dest)),
            Some(addr) => self.send_to_addr(addr, len),
        }
    }

    /// The same for an address outside the table, such as a debug mirror's.
    pub fn send_to_addr(&self, addr: Addr, len: usize) -> (r: Result<Addr, LinkError>)
        ensures
            r == carried(addr, len),
    {
        if len > LAN_MTU {
            Err(LinkError::FrameTooLarge { len, mtu: LAN_MTU })
        } else {
            Ok(addr)
        }
    }

    /// What a datagram from `from` delivers: nothing, if the sender is not in
    /// the table or the datagram has no header.
    pub fn recv<'a>(&self, from: Addr, datagram: &'a [u8]) -> (r: Option<(PeerId, Frame<'a>)>)
        ensures
            match r {
                Some((p, f)) => {
                    &&& self.peers.addr(p) == Some(from)
                    &&& arrival(self.peers, from, datagram@) == Some((p, f.header, f.body@))
                },
                None => arrival(self.peers, from, datagram@) is None,
            },
    {
        match self.peers.peer_of(from) {
            None => None,
            Some(peer) => match Frame::parse(datagram) {
                Ok(frame) => Some((peer, frame)),
                Err(_) => None,
            },
        }
    }
}

/// Every frame of the protocol fits the link.
pub proof fn law_frames_fit_the_link<T: crate::msgs::wire::Wire>()
    ensures
        FRAME_HEADER_LEN + T::size() <= LAN_MTU,
{
    T::lemma_consts();
}

/// An address belongs to a service that has it, the first listed one, and to
/// none where none has it.
pub proof fn law_owner(table: PeerTable, addr: Addr, p: PeerId)
    ensures
        table.owner(addr) matches Some(q) ==> table.addr(q) == Some(addr),
        table.addr(p) == Some(addr) ==> (table.owner(addr) matches Some(q) && q.place()
            <= p.place()),
        table.owner(addr) == Some(p) <==> table.first_with(addr, p),
    decreases p.place(),
{
    if exists|q: PeerId| table.first_with(addr, q) {
        let q = choose|q: PeerId| table.first_with(addr, q);
        if table.addr(p) == Some(addr) {
            assert(q.place() <= p.place());
        }
        if table.first_with(addr, p) {
            assert(p.place() <= q.place());
            assert(p == q);
        }
    } else if table.addr(p) == Some(addr) {
        assert(!table.first_with(addr, p));
        let q = choose|q: PeerId| q.place() < p.place() && table.addr(q) == Some(addr);
        law_owner(table, addr, q);
    }
}

/// Setting the address of one service sets that one, and leaves the others.
pub proof fn law_addresses_are_set(p: PeerId, addr: Addr, q: PeerId, before: Option<Addr>)
    ensures
        entry(p, addr, p, before) == Some(addr),
        q != p ==> entry(p, addr, q, before) == before,
{
}

/// A frame goes to the address that is known for its destination, if it is no
/// longer than 1472 bytes; otherwise it goes nowhere, and the error says why.
pub proof fn law_frames_go_where_they_belong(addr: Option<Addr>, dest: PeerId, len: usize, a: Addr)
    ensures
        destination(addr, dest, len) == Ok::<_, LinkError>(a) <==> addr == Some(a) && len <= 1472,
        destination(addr, dest, len) == Err::<Addr, _>(LinkError::UnknownPeer(dest)) <==> addr
            is None,
        addr is Some && len > 1472 ==> destination(addr, dest, len) == Err::<Addr, _>(
            LinkError::FrameTooLarge { len, mtu: 1472 },
        ),
        carried(a, len) == destination(Some(a), dest, len),
{
}

/// A datagram of a known sender that is long enough for a header delivers what
/// is in it; no other delivers anything.
pub proof fn law_only_known_senders_are_heard(table: PeerTable, from: Addr, d: Seq<u8>, p: PeerId)
    ensures
        arrival(table, from, d) matches Some((q, h, body)) ==> {
            &&& table.addr(q) == Some(from)
            &&& d.len() >= 4
            &&& h == FrameHeader::read(d)
            &&& body == d.subrange(4, d.len() as int)
        },
        table.addr(p) == Some(from) && d.len() >= 4 ==> arrival(table, from, d) is Some,
{
    law_owner(table, from, p);
    assert(d.len() >= 4 ==> d.skip(4) =~= d.subrange(4, d.len() as int));
}

/// What is said of a frame that was not sent: the words of the transport, the
/// destination, or the length and then the limit.
pub proof fn law_errors_are_told(e: LinkError)
    ensures
        e matches LinkError::Io(t) ==> t@.is_suffix_of(e.described()),
        e matches LinkError::UnknownPeer(p) ==> e.described().subrange(
            32,
            32 + p.label()@.len() as int,
        ) == p.label()@,
        e matches LinkError::FrameTooLarge { len, mtu } ==> {
            &&& e.described().subrange(9, 9 + text::dec(len as nat).len() as int) == text::dec(
                len as nat,
            )
            &&& text::dec(mtu as nat).is_suffix_of(e.described())
        },
{
    reveal_strlit("no address configured for peer `");
    reveal_strlit("frame of ");
    assert("no address configured for peer `"@.len() == 32 && "frame of "@.len() == 9);
    let d = e.described();
    match e {
        LinkError::Io(t) => {
            assert(d.subrange(d.len() - t@.len(), d.len() as int) =~= t@);
        },
        LinkError::UnknownPeer(p) => {
            assert(d.subrange(32, 32 + p.label()@.len() as int) =~= p.label()@);
        },
        LinkError::FrameTooLarge { len, mtu } => {
            let (a, b) = (text::dec(len as nat), text::dec(mtu as nat));
            assert(d.subrange(9, 9 + a.len() as int) =~= a);
            assert(d.subrange(d.len() - b.len(), d.len() as int) =~= b);
        },
        LinkError::Unsupported => {},
    }
}

} // verus!
