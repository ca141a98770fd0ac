//! Which services there are, where they are, and who gets which stream.
//!
//! The tables arrive as plain values: a reader of configuration files has split
//! them into names and texts and has said what each address text stands for.

use crate::link::peer::PeerId;
use crate::link::udp::{Addr, PeerTable};
use crate::msgs::wire::Wire;
use crate::text;
use vstd::prelude::*;

verus! {

/// One line of the service table: a name, and the address behind it if its text
/// is one, or else what is wrong with the text.
pub struct ServiceEntry {
    pub name: String,
    pub addr: Option<Addr>,
    pub reason: String,
}

/// One line of the routing table: a message name and the services it goes to.
pub struct RouteEntry {
    pub name: String,
    pub dests: Vec<String>,
}

/// The debug mirror: its text, and the address behind the text without the
/// white space around it, if it is one, or else what is wrong with the text.
pub struct MirrorEntry {
    pub text: String,
    pub addr: Option<Addr>,
    pub reason: String,
}

/// The tables of a configuration that the bus reads.
pub struct RawConfig {
    pub services: Vec<ServiceEntry>,
    pub routes: Vec<RouteEntry>,
    pub mirror: MirrorEntry,
}

/// Something was wrong with a bus configuration.
#[derive(Clone, Debug, PartialEq, Eq)]
pub enum ConfigError {
    /// A service or a route named something that is no service.
    UnknownHost(String),
    /// The text of a service is not an address, and why.
    BadAddress(String, String),
    /// The mirror is not empty and not an address, and why.
    BadMirrorAddress(String, String),
}

/// An error by the text it carries.
pub enum ConfigFault {
    UnknownHost(Seq<char>),
    BadAddress(Seq<char>, Seq<char>),
    BadMirrorAddress(Seq<char>, Seq<char>),
}

impl View for ConfigError {
    type V = ConfigFault;

    open spec fn view(&self) -> ConfigFault {
        match self {
            ConfigError::UnknownHost(s) => ConfigFault::UnknownHost(s@),
            ConfigError::BadAddress(s, e) => ConfigFault::BadAddress(s@, e@),
            ConfigError::BadMirrorAddress(s, e) => ConfigFault::BadMirrorAddress(s@, e@),
        }
    }
}

impl ConfigFault {
    /// The fault in words.
    pub open spec fn described(self) -> Seq<char> {
        match self {
            ConfigFault::UnknownHost(n) => "`"@ + n + "` is not a known host (see PeerId::ALL)"@,
            ConfigFault::BadAddress(n, e) => "host `"@ + n + "` has an invalid address: "@ + e,
            ConfigFault::BadMirrorAddress(a, e) => "[debug] mirror = \""@ + a
                + "\" is not a valid address: "@ + e,
        }
    }
}

impl ConfigError {
    pub fn message(&self) -> (s: String)
        ensures
            s@ == self@.described(),
    {
        match self {
            ConfigError::UnknownHost(n) => {
                let mut s = text::owned("`");
                text::push_str(&mut s, n.as_str());
                text::push_str(&mut s, "` is not a known host (see PeerId::ALL)");
                s
            },
            ConfigError::BadAddress(n, e) => {
                let mut s = text::owned("host `");
                text::push_str(&mut s, n.as_str());
                text::push_str(&mut s, "` has an invalid address: ");
                text::push_str(&mut s, e.as_str());
                s
            },
            ConfigError::BadMirrorAddress(a, e) => {
                let mut s = text::owned("[debug] mirror = \"");
                text::push_str(&mut s, a.as_str());
                text::push_str(&mut s, "\" is not a valid address: ");
                text::push_str(&mut s, e.as_str());
                s
            },
        }
    }
}

/// What is wrong with one line of the service table.
pub open spec fn service_fault(e: ServiceEntry) -> Option<ConfigFault> {
    if PeerId::named(e.name@) is None {
        Some(ConfigFault::UnknownHost(e.name@))
    } else if e.addr is None {
        Some(ConfigFault::BadAddress(e.name@, e.reason@))
    } else {
        None
    }
}

/// The first thing that is wrong with the service table.
pub open spec fn services_fault(es: Seq<ServiceEntry>) -> Option<ConfigFault>
    decreases es.len(),
{
    if es.len() == 0 {
        None
    } else if services_fault(es.drop_last()) is Some {
        services_fault(es.drop_last())
    } else {
        service_fault(es.last())
    }
}

/// The first name in a list that is no service.
pub open spec fn dests_fault(ds: Seq<String>) -> Option<ConfigFault>
    decreases ds.len(),
{
    if ds.len() == 0 {
        None
    } else if dests_fault(ds.drop_last()) is Some {
        dests_fault(ds.drop_last())
    } else if PeerId::named(ds.last()@) is None {
        Some(ConfigFault::UnknownHost(ds.last()@))
    } else {
        None
    }
}

/// The first thing that is wrong with the routing table.
pub open spec fn routes_fault(es: Seq<RouteEntry>) -> Option<ConfigFault>
    decreases es.len(),
{
    if es.len() == 0 {
        None
    } else if routes_fault(es.drop_last()) is Some {
        routes_fault(es.drop_last())
    } else {
        dests_fault(es.last().dests@)
    }
}

/// A text without the white space around it.
pub open spec fn mirror_text(m: MirrorEntry) -> Seq<char> {
    text::trimmed(m.text@)
}

/// What is wrong with the mirror. An empty one is switched off; one that is
/// neither empty nor an address is refused rather than ignored.
pub open spec fn mirror_fault(m: MirrorEntry) -> Option<ConfigFault> {
    if mirror_text(m).len() > 0 && m.addr is None {
        Some(ConfigFault::BadMirrorAddress(mirror_text(m), m.reason@))
    } else {
        None
    }
}

/// The address of the mirror; an empty one is switched off.
pub open spec fn mirror_in(m: MirrorEntry) -> Option<Addr> {
    if mirror_text(m).len() == 0 {
        None
    } else {
        m.addr
    }
}

/// The first thing that is wrong with a configuration: services, then routes,
/// then the mirror.
pub open spec fn config_fault(raw: RawConfig) -> Option<ConfigFault> {
    if services_fault(raw.services@) is Some {
        services_fault(raw.services@)
    } else if routes_fault(raw.routes@) is Some {
        routes_fault(raw.routes@)
    } else {
        mirror_fault(raw.mirror)
    }
}

/// The address that a service table gives to a service; the last line counts.
pub open spec fn address_in(es: Seq<ServiceEntry>, p: PeerId) -> Option<Addr>
    decreases es.len(),
{
    if es.len() == 0 {
        None
    } else if PeerId::named(es.last().name@) == Some(p) {
        es.last().addr
    } else {
        address_in(es.drop_last(), p)
    }
}

/// The services behind a list of names.
pub open spec fn dests_of(ds: Seq<String>) -> Seq<PeerId> {
    Seq::new(ds.len(), |i: int| PeerId::named(ds[i]@)->0)
}

/// Where a routing table sends the messages of a name; the last line counts,
/// and a name without a line goes nowhere.
pub open spec fn route_in(es: Seq<RouteEntry>, name: Seq<char>) -> Seq<PeerId>
    decreases es.len(),
{
    if es.len() == 0 {
        Seq::empty()
    } else if es.last().name@ == name {
        dests_of(es.last().dests@)
    } else {
        route_in(es.drop_last(), name)
    }
}

/// One resolved line of the routing table.
#[derive(Debug)]
struct Route {
    name: String,
    dests: Vec<PeerId>,
}

/// Bus-relevant configuration: addresses per service, and routes keyed by the
/// name of a message.
#[derive(Debug)]
pub struct BusConfig {
    peers: PeerTable,
    routes: Vec<Route>,
    mirror: Option<Addr>,
}

spec fn resolved_route(rs: Seq<Route>, name: Seq<char>) -> Seq<PeerId>
    decreases rs.len(),
{
    if rs.len() == 0 {
        Seq::empty()
    } else if rs.last().name@ == name {
        rs.last().dests@
    } else {
        resolved_route(rs.drop_last(), name)
    }
}

impl BusConfig {
    /// The address of a service, if the configuration gives one.
    pub closed spec fn address(self, p: PeerId) -> Option<Addr> {
        self.peers.addr(p)
    }

    /// Where messages of a name go.
    pub closed spec fn route(self, name: Seq<char>) -> Seq<PeerId> {
        resolved_route(self.routes@, name)
    }

    /// Where a copy of every frame goes, if anywhere.
    pub closed spec fn mirrored(self) -> Option<Addr> {
        self.mirror
    }

    /// Resolve the tables. The first thing that is wrong with them decides the
    /// error.
    pub fn parse(raw: &RawConfig) -> (r: Result<BusConfig, ConfigError>)
        ensures
            match config_fault(*raw) {
                Some(fault) => r matches Err(e) && e@ == fault,
                None => {
                    &&& r is Ok
                    &&& forall|p: PeerId| #[trigger]
                        r->Ok_0.address(p) == address_in(raw.services@, p)
                    &&& forall|name: Seq<char>| #[trigger]
                        r->Ok_0.route(name) == route_in(raw.routes@, name)
                    &&& r->Ok_0.mirrored() == mirror_in(raw.mirror)
                },
            },
    {
        let peers = resolve_services(&raw.services)?;
        let routes = resolve_routes(&raw.routes)?;
        let chars = text::chars_of(raw.mirror.text.as_str());
        let trimmed = text::trim(chars.as_slice());
        let mirror = if trimmed.len() == 0 {
            None
        } else {
            match raw.mirror.addr {
                Some(addr) => Some(addr),
                None => {
                    return Err(
                        ConfigError::BadMirrorAddress(
                            text::string_of(trimmed),
                            raw.mirror.reason.clone(),
                        ),
                    );
                },
            }
        };
        Ok(BusConfig { peers, routes, mirror })
    }

    /// The resolved address of a service, if the configuration named it.
    pub fn addr_of(&self, peer: PeerId) -> (r: Option<Addr>)
        ensures
            r == self.address(peer),
    {
        self.peers.get(peer)
    }

    /// Every configured service and its address, for building a link's table.
    pub fn peers(&self) -> (t: PeerTable)
        ensures
            forall|p: PeerId| #[trigger] t.addr(p) == self.address(p),
    {
        self.peers
    }

    /// Destinations configured for a message type, by its name. None, rather
    /// than an error, for a type without a route: a partial configuration is a
    /// normal thing to run with.
    pub fn route_for<T: Wire>(&self) -> (d: Vec<PeerId>)
        ensures
            d@ == self.route(T::title()@),
    {
        proof {
            T::lemma_consts();
        }
        let mut i: usize = self.routes.len();
        assert(self.routes@.take(i as int) =~= self.routes@);
        while i > 0
            invariant
                i <= self.routes@.len(),
                T::NAME == T::title(),
                resolved_route(self.routes@.take(i as int), T::title()@) == resolved_route(
                    self.routes@,
                    T::title()@,
                ),
            decreases i,
        {
            assert(self.routes@.take(i as int).drop_last() =~= self.routes@.take(i - 1));
            i = i - 1;
            if text::same_text(self.routes[i].name.as_str(), T::NAME) {
                return self.routes[i].dests.clone();
            }
        }
        Vec::new()
    }

    /// The debug mirror address, if configured.
    pub fn mirror(&self) -> (r: Option<Addr>)
        ensures
            r == self.mirrored(),
    {
        self.mirror
    }
}

fn resolve_services(es: &Vec<ServiceEntry>) -> (r: Result<PeerTable, ConfigError>)
    ensures
        match services_fault(es@) {
            Some(fault) => r matches Err(e) && e@ == fault,
            None => r is Ok && forall|p: PeerId| #[trigger]
                r->Ok_0.addr(p) == address_in(es@, p),
        },
{
    let mut table = PeerTable::empty();
    let mut i: usize = 0;
    assert(es@.take(0) =~= Seq::empty());
    while i < es.len()
        invariant
            i <= es@.len(),
            services_fault(es@.take(i as int)) is None,
            forall|p: PeerId| #[trigger] table.addr(p) == address_in(es@.take(i as int), p),
        decreases es@.len() - i,
    {
        let entry = &es[i];
        assert(es@.take(i + 1).drop_last() =~= es@.take(i as int));
        match PeerId::parse(entry.name.as_str()) {
            None => {
                proof {
                    lemma_first_service_fault(es@, i + 1);
                }
                return Err(ConfigError::UnknownHost(entry.name.clone()));
            },
            Some(peer) => match entry.addr {
                None => {
                    proof {
                        lemma_first_service_fault(es@, i + 1);
                    }
                    return Err(ConfigError::BadAddress(entry.name.clone(), entry.reason.clone()));
                },
                Some(addr) => {
                    table.set(peer, addr);
                },
            },
        }
        i = i + 1;
    }
    assert(es@.take(i as int) =~= es@);
    Ok(table)
}

proof fn lemma_first_service_fault(es: Seq<ServiceEntry>, n: int)
    requires
        0 <= n <= es.len(),
        services_fault(es.take(n)) is Some,
    ensures
        services_fault(es) == services_fault(es.take(n)),
    decreases es.len() - n,
{
    if n < es.len() {
        assert(es.take(n + 1).drop_last() =~= es.take(n));
        lemma_first_service_fault(es, n + 1);
    } else {
        assert(es.take(n) =~= es);
    }
}

fn resolve_dests(ds: &Vec<String>) -> (r: Result<Vec<PeerId>, ConfigError>)
    ensures
        match dests_fault(ds@) {
            Some(fault) => r matches Err(e) && e@ == fault,
            None => r matches Ok(v) && v@ == dests_of(ds@),
        },
{
    let mut out: Vec<PeerId> = Vec::new();
    let mut i: usize = 0;
    assert(ds@.take(0) =~= Seq::empty());
    while i < ds.len()
        invariant
            i <= ds@.len(),
            dests_fault(ds@.take(i as int)) is None,
            out@ == dests_of(ds@.take(i as int)),
        decreases ds@.len() - i,
    {
        assert(ds@.take(i + 1).drop_last() =~= ds@.take(i as int));
        match PeerId::parse(ds[i].as_str()) {
            None => {
                proof {
                    lemma_first_dest_fault(ds@, i + 1);
                }
                return Err(ConfigError::UnknownHost(ds[i].clone()));
            },
            Some(peer) => {
                out.push(peer);
            },
        }
        i = i + 1;
        assert(out@ =~= dests_of(ds@.take(i as int)));
    }
    assert(ds@.take(i as int) =~= ds@);
    Ok(out)
}

proof fn lemma_first_dest_fault(ds: Seq<String>, n: int)
    requires
        0 <= n <= ds.len(),
        dests_fault(ds.take(n)) is Some,
    ensures
        dests_fault(ds) == dests_fault(ds.take(n)),
    decreases ds.len() - n,
{
    if n < ds.len() {
        assert(ds.take(n + 1).drop_last() =~= ds.take(n));
        lemma_first_dest_fault(ds, n + 1);
    } else {
        assert(ds.take(n) =~= ds);
    }
}

fn resolve_routes(es: &Vec<RouteEntry>) -> (r: Result<Vec<Route>, ConfigError>)
    ensures
        match routes_fault(es@) {
            Some(fault) => r matches Err(e) && e@ == fault,
            None => r is Ok && forall|name: Seq<char>| #[trigger]
                resolved_route(r->Ok_0@, name) == route_in(es@, name),
        },
{
    let mut out: Vec<Route> = Vec::new();
    let mut i: usize = 0;
    assert(es@.take(0) =~= Seq::empty());
    while i < es.len()
        invariant
            i <= es@.len(),
            routes_fault(es@.take(i as int)) is None,
            forall|name: Seq<char>| #[trigger]
                resolved_route(out@, name) == route_in(es@.take(i as int), name),
        decreases es@.len() - i,
    {
        let entry = &es[i];
        assert(es@.take(i + 1).drop_last() =~= es@.take(i as int));
        match resolve_dests(&entry.dests) {
            Err(e) => {
                proof {
                    lemma_first_route_fault(es@, i + 1);
                }
                return Err(e);
            },
            Ok(dests) => {
                let ghost before = out@;
                out.push(Route { name: entry.name.clone(), dests });
                assert(out@.drop_last() =~= before);
                assert forall|name: Seq<char>| #[trigger]
                    resolved_route(out@, name) == route_in(es@.take(i + 1), name) by {
                    assert(resolved_route(before, name) == route_in(es@.take(i as int), name));
                }
            },
        }
        i = i + 1;
    }
    assert(es@.take(i as int) =~= es@);
    Ok(out)
}

proof fn lemma_first_route_fault(es: Seq<RouteEntry>, n: int)
    requires
        0 <= n <= es.len(),
        routes_fault(es.take(n)) is Some,
    ensures
        routes_fault(es) == routes_fault(es.take(n)),
    decreases es.len() - n,
{
    if n < es.len() {
        assert(es.take(n + 1).drop_last() =~= es.take(n));
        lemma_first_route_fault(es, n + 1);
    } else {
        assert(es.take(n) =~= es);
    }
}

/// Every service in the table has a known name and an address.
pub open spec fn services_are_good(es: Seq<ServiceEntry>) -> bool {
    forall|i: int|
        0 <= i < es.len() ==> PeerId::named((#[trigger] es[i]).name@) is Some && es[i].addr is Some
}

/// Every destination in the list is a known service.
pub open spec fn dests_are_good(ds: Seq<String>) -> bool {
    forall|i: int| 0 <= i < ds.len() ==> PeerId::named((#[trigger] ds[i])@) is Some
}

proof fn lemma_services_fault(es: Seq<ServiceEntry>)
    ensures
        services_fault(es) is None <==> services_are_good(es),
    decreases es.len(),
{
    if es.len() > 0 {
        let front = es.drop_last();
        lemma_services_fault(front);
        assert(forall|i: int| 0 <= i < front.len() ==> #[trigger] front[i] == es[i]);
        assert(forall|i: int| 0 <= i < es.len() - 1 ==> #[trigger] es[i] == front[i]);
        assert(es[es.len() - 1] == es.last());
    }
}

proof fn lemma_dests_fault(ds: Seq<String>)
    ensures
        dests_fault(ds) is None <==> dests_are_good(ds),
    decreases ds.len(),
{
    if ds.len() > 0 {
        let front = ds.drop_last();
        lemma_dests_fault(front);
        assert(forall|i: int| 0 <= i < front.len() ==> #[trigger] front[i] == ds[i]);
        assert(forall|i: int| 0 <= i < ds.len() - 1 ==> #[trigger] ds[i] == front[i]);
        assert(ds[ds.len() - 1] == ds.last());
    }
}

proof fn lemma_routes_fault(es: Seq<RouteEntry>)
    ensures
        routes_fault(es) is None <==> forall|i: int|
            0 <= i < es.len() ==> dests_are_good((#[trigger] es[i]).dests@),
    decreases es.len(),
{
    if es.len() > 0 {
        let front = es.drop_last();
        lemma_routes_fault(front);
        lemma_dests_fault(es.last().dests@);
        assert(forall|i: int| 0 <= i < front.len() ==> #[trigger] front[i] == es[i]);
        assert(forall|i: int| 0 <= i < es.len() - 1 ==> #[trigger] es[i] == front[i]);
        assert(es[es.len() - 1] == es.last());
    }
}

/// A configuration is taken exactly if all of it is good: every service is known
/// and has an address, every route leads to known services, and the mirror is
/// empty or an address.
#[verifier::rlimit(40)]
pub proof fn law_good_configurations_are_taken(raw: RawConfig)
    ensures
        config_fault(raw) is None <==> {
            &&& services_are_good(raw.services@)
            &&& forall|i: int|
                0 <= i < raw.routes@.len() ==> dests_are_good((#[trigger] raw.routes@[i]).dests@)
            &&& text::trimmed(raw.mirror.text@).len() == 0 || raw.mirror.addr is Some
        },
{
    lemma_services_fault(raw.services@);
    lemma_routes_fault(raw.routes@);
}

/// What a bad configuration is refused for: the first bad service, by its name
/// if that is unknown and else by its address; then the first unknown
/// destination; then the mirror.
#[verifier::rlimit(40)]
pub proof fn law_faults_name_their_cause(
    es: Seq<ServiceEntry>,
    e: ServiceEntry,
    ds: Seq<String>,
    d: String,
    more: Seq<ServiceEntry>,
    raw: RawConfig,
)
    requires
        services_are_good(es),
        dests_are_good(ds),
    ensures
        PeerId::named(e.name@) is None ==> services_fault(es.push(e) + more) == Some(
            ConfigFault::UnknownHost(e.name@),
        ),
        PeerId::named(e.name@) is Some && e.addr is None ==> services_fault(es.push(e) + more)
            == Some(ConfigFault::BadAddress(e.name@, e.reason@)),
        PeerId::named(d@) is None ==> dests_fault(ds.push(d)) == Some(
            ConfigFault::UnknownHost(d@),
        ),
        services_fault(raw.services@) is Some ==> config_fault(raw) == services_fault(raw.services@),
        services_are_good(raw.services@) && routes_fault(raw.routes@) is Some ==> config_fault(raw)
            == routes_fault(raw.routes@),
        config_fault(raw) is Some && services_are_good(raw.services@) && routes_fault(raw.routes@)
            is None ==> config_fault(raw) == Some(
            ConfigFault::BadMirrorAddress(text::trimmed(raw.mirror.text@), raw.mirror.reason@),
        ),
{
    lemma_services_fault(es);
    lemma_dests_fault(ds);
    lemma_services_fault(raw.services@);
    assert(es.push(e).drop_last() =~= es);
    assert(ds.push(d).drop_last() =~= ds);
    assert((es.push(e) + more).take((es.len() + 1) as int) =~= es.push(e));
    if service_fault(e) is Some {
        lemma_first_service_fault(es.push(e) + more, (es.len() + 1) as int);
    }
}

/// The last line about a service or a message is the one that counts, and it
/// says nothing of any other.
pub proof fn law_last_lines_count(
    es: Seq<ServiceEntry>,
    e: ServiceEntry,
    p: PeerId,
    rs: Seq<RouteEntry>,
    r: RouteEntry,
    name: Seq<char>,
)
    ensures
        address_in(Seq::empty(), p) is None,
        PeerId::named(e.name@) == Some(p) ==> address_in(es.push(e), p) == e.addr,
        PeerId::named(e.name@) != Some(p) ==> address_in(es.push(e), p) == address_in(es, p),
        route_in(Seq::empty(), name).len() == 0,
        r.name@ != name ==> route_in(rs.push(r), name) == route_in(rs, name),
        r.name@ == name ==> route_in(rs.push(r), name).len() == r.dests@.len(),
        r.name@ == name && dests_are_good(r.dests@) ==> forall|i: int|
            0 <= i < r.dests@.len() ==> PeerId::named((#[trigger] r.dests@[i])@) == Some(
                route_in(rs.push(r), name)[i],
            ),
{
    assert(es.push(e).drop_last() =~= es);
    assert(rs.push(r).drop_last() =~= rs);
}

/// The mirror is on exactly if its text is more than white space.
pub proof fn law_mirror(m: MirrorEntry)
    ensures
        text::trimmed(m.text@).len() == 0 ==> mirror_in(m) is None,
        text::trimmed(m.text@).len() > 0 ==> mirror_in(m) == m.addr,
{
}

/// A fault is told with its name first and its reason last.
pub proof fn law_faults_are_told(f: ConfigFault)
    ensures
        f matches ConfigFault::UnknownHost(n) ==> f.described().subrange(1, (n.len() + 1) as int) == n,
        f matches ConfigFault::BadAddress(n, e) ==> f.described().subrange(6, (n.len() + 6) as int) == n
            && e.is_suffix_of(f.described()),
        f matches ConfigFault::BadMirrorAddress(a, e) ==> f.described().subrange(18, (a.len() + 18) as int)
            == a && e.is_suffix_of(f.described()),
{
    reveal_strlit("`");
    reveal_strlit("host `");
    reveal_strlit("[debug] mirror = \"");
    match f {
        ConfigFault::UnknownHost(n) => {
            assert(f.described().subrange(1, (n.len() + 1) as int) =~= n);
        },
        ConfigFault::BadAddress(n, e) => {
            assert(f.described().subrange(6, (n.len() + 6) as int) =~= n);
            assert(f.described().skip(f.described().len() - e.len()) =~= e);
        },
        ConfigFault::BadMirrorAddress(a, e) => {
            assert(f.described().subrange(18, (a.len() + 18) as int) =~= a);
            assert(f.described().skip(f.described().len() - e.len()) =~= e);
        },
    }
}

} // verus!
