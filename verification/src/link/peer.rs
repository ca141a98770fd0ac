//! The named services on the rover network.
//!
//! A peer is a process, not a machine: one machine hosts several services,
//! each with its own port.

use crate::text;
use vstd::prelude::*;

verus! {

/// A named endpoint on the rover network: one bus-visible process.
#[derive(Clone, Copy, Debug, PartialEq, Eq, PartialOrd, Ord, Hash, Structural)]
pub enum PeerId {
    /// The control process.
    Control,
    /// The navigation process.
    Navigation,
    /// The telemetry process.
    Telemetry,
    /// The chassis board firmware.
    Chassis,
    /// The sensors board firmware.
    Sensors,
    /// The perception process.
    Perception,
    /// The ground station.
    Base,
}

/// How many services there are.
pub const PEERS: usize = 7;

impl PeerId {
    /// The place of a service in the list of all of them.
    pub open spec fn place(self) -> int {
        match self {
            PeerId::Control => 0,
            PeerId::Navigation => 1,
            PeerId::Telemetry => 2,
            PeerId::Chassis => 3,
            PeerId::Sensors => 4,
            PeerId::Perception => 5,
            PeerId::Base => 6,
        }
    }

    pub fn index(self) -> (i: usize)
        ensures
            i == self.place(),
            i < PEERS,
    {
        match self {
            PeerId::Control => 0,
            PeerId::Navigation => 1,
            PeerId::Telemetry => 2,
            PeerId::Chassis => 3,
            PeerId::Sensors => 4,
            PeerId::Perception => 5,
            PeerId::Base => 6,
        }
    }

    /// All seven, in the order in which a configuration lists them.
    pub open spec fn listed() -> Seq<PeerId> {
        seq![
            PeerId::Control,
            PeerId::Navigation,
            PeerId::Telemetry,
            PeerId::Chassis,
            PeerId::Sensors,
            PeerId::Perception,
            PeerId::Base,
        ]
    }

    /// All seven, in the order in which a configuration lists them.
    pub fn all() -> (v: [PeerId; 7])
        ensures
            v@ == PeerId::listed(),
    {
        let v: [PeerId; 7] = [
            PeerId::Control,
            PeerId::Navigation,
            PeerId::Telemetry,
            PeerId::Chassis,
            PeerId::Sensors,
            PeerId::Perception,
            PeerId::Base,
        ];
        assert(v@ =~= PeerId::listed());
        v
    }

    /// The spelling used in a configuration.
    pub open spec fn label(self) -> &'static str {
        match self {
            PeerId::Control => "control",
            PeerId::Navigation => "navigation",
            PeerId::Telemetry => "telemetry",
            PeerId::Chassis => "chassis",
            PeerId::Sensors => "sensors",
            PeerId::Perception => "perception",
            PeerId::Base => "base",
        }
    }

    pub fn as_str(self) -> (s: &'static str)
        ensures
            s == self.label(),
    {
        match self {
            PeerId::Control => "control",
            PeerId::Navigation => "navigation",
            PeerId::Telemetry => "telemetry",
            PeerId::Chassis => "chassis",
            PeerId::Sensors => "sensors",
            PeerId::Perception => "perception",
            PeerId::Base => "base",
        }
    }

    /// The service that a name stands for. Case-sensitive on purpose: the
    /// configuration is the one source of truth for spelling.
    pub open spec fn named(name: Seq<char>) -> Option<PeerId> {
        if name == "control"@ {
            Some(PeerId::Control)
        } else if name == "navigation"@ {
            Some(PeerId::Navigation)
        } else if name == "telemetry"@ {
            Some(PeerId::Telemetry)
        } else if name == "chassis"@ {
            Some(PeerId::Chassis)
        } else if name == "sensors"@ {
            Some(PeerId::Sensors)
        } else if name == "perception"@ {
            Some(PeerId::Perception)
        } else if name == "base"@ {
            Some(PeerId::Base)
        } else {
            None
        }
    }

    pub fn parse(name: &str) -> (r: Option<PeerId>)
        ensures
            r == PeerId::named(name@),
    {
        let v = text::chars_of(name);
        let s = v.as_slice();
        if text::is_word(s, "control") {
            Some(PeerId::Control)
        } else if text::is_word(s, "navigation") {
            Some(PeerId::Navigation)
        } else if text::is_word(s, "telemetry") {
            Some(PeerId::Telemetry)
        } else if text::is_word(s, "chassis") {
            Some(PeerId::Chassis)
        } else if text::is_word(s, "sensors") {
            Some(PeerId::Sensors)
        } else if text::is_word(s, "perception") {
            Some(PeerId::Perception)
        } else if text::is_word(s, "base") {
            Some(PeerId::Base)
        } else {
            None
        }
    }

    /// [`PeerId::parse`], with the name that was not known in the error.
    pub fn named_or_unknown(name: &str) -> (r: Result<PeerId, UnknownPeerName>)
        ensures
            match PeerId::named(name@) {
                Some(p) => r == Ok::<PeerId, UnknownPeerName>(p),
                None => r matches Err(e) && e.0@ == name@,
            },
    {
        match PeerId::parse(name) {
            Some(p) => Ok(p),
            None => Err(UnknownPeerName(name.to_owned())),
        }
    }
}

impl std::str::FromStr for PeerId {
    type Err = UnknownPeerName;

    fn from_str(s: &str) -> (r: Result<Self, Self::Err>)
        ensures
            match r {
                Ok(p) => PeerId::named(s@) == Some(p),
                Err(e) => PeerId::named(s@) is None && e.0@ == s@,
            },
    {
        PeerId::named_or_unknown(s)
    }
}

/// A service name that matches none of [`PeerId::all`].
#[derive(Clone, Debug, PartialEq, Eq)]
pub struct UnknownPeerName(pub String);

impl UnknownPeerName {
    pub fn message(&self) -> (s: String)
        ensures
            s@ == "unknown service name `"@ + self.0@ + "`"@,
    {
        let mut s = String::new();
        text::push_str(&mut s, "unknown service name `");
        text::push_str(&mut s, self.0.as_str());
        text::push_str(&mut s, "`");
        assert(s@ =~= "unknown service name `"@ + self.0@ + "`"@);
        s
    }
}

/// Every service is found again under its own name.
pub proof fn law_names_round_trip(p: PeerId)
    ensures
        PeerId::named(p.label()@) == Some(p),
{
    reveal_strlit("control");
    reveal_strlit("navigation");
    reveal_strlit("telemetry");
    reveal_strlit("chassis");
    reveal_strlit("sensors");
    reveal_strlit("perception");
    reveal_strlit("base");
    let n = p.label()@;
    assert(n[0] == 'c' || n[0] == 'n' || n[0] == 't' || n[0] == 's' || n[0] == 'p' || n[0] == 'b');
    assert("control"@[1] == 'o' && "chassis"@[1] == 'h');
}

/// Only the name of a service stands for it.
pub proof fn law_names_are_exact(name: Seq<char>)
    ensures
        PeerId::named(name) matches Some(p) ==> name == p.label()@,
{
}

/// A service stands at its own place in the list.
pub proof fn law_places(p: PeerId)
    ensures
        PeerId::listed()[p.place()] == p,
        0 <= p.place() < PEERS,
{
}

/// The spelling of each service.
pub proof fn law_labels(p: PeerId)
    ensures
        p is Control ==> p.label()@ == "control"@,
        p is Navigation ==> p.label()@ == "navigation"@,
        p is Telemetry ==> p.label()@ == "telemetry"@,
        p is Chassis ==> p.label()@ == "chassis"@,
        p is Sensors ==> p.label()@ == "sensors"@,
        p is Perception ==> p.label()@ == "perception"@,
        p is Base ==> p.label()@ == "base"@,
{
}

} // verus!
