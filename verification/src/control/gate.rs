//! Whether the rover is permitted to drive at all.

use crate::msgs::mission::Command;
use vstd::prelude::*;

verus! {

/// The AND of the mission state machine's `active` flag and a local E-stop
/// latch: two independent gates, either of which alone holds the rover stopped.
#[derive(Clone, Copy, Debug, PartialEq, Eq, Structural)]
pub struct SafetyGate {
    pub mission_active: bool,
    pub estopped: bool,
}

impl SafetyGate {
    /// Both gates are open.
    pub open spec fn open(self) -> bool {
        self.mission_active && !self.estopped
    }

    /// The interlock after a command.
    pub open spec fn after(self, cmd: Command) -> SafetyGate {
        match cmd {
            Command::EStop => SafetyGate { estopped: true, ..self },
            Command::ClearEStop => SafetyGate { estopped: false, ..self },
            _ => self,
        }
    }

    /// The interlock after a mission status.
    pub open spec fn told(self, active: bool) -> SafetyGate {
        SafetyGate { mission_active: active, ..self }
    }

    /// Starts closed: the rover must not drive before it is told that it may.
    pub fn new() -> (g: Self)
        ensures
            g == (SafetyGate { mission_active: false, estopped: false }),
    {
        SafetyGate { mission_active: false, estopped: false }
    }

    pub fn drive_allowed(&self) -> (r: bool)
        ensures
            r == self.open(),
    {
        self.mission_active && !self.estopped
    }

    pub fn on_mission_status(&mut self, active: bool)
        ensures
            *final(self) == old(self).told(active),
    {
        self.mission_active = active;
    }

    /// Apply a base-station command. `EStop` latches the interlock closed;
    /// `ClearEStop` is the only thing that releases it.
    pub fn on_command(&mut self, cmd: Command)
        ensures
            *final(self) == old(self).after(cmd),
    {
        match cmd {
            Command::EStop => {
                self.estopped = true;
            },
            Command::ClearEStop => {
                self.estopped = false;
            },
            Command::Nop
            | Command::SetSpeedLimit(_)
            | Command::SetMissionGoal(_)
            | Command::CancelMission => {},
        }
    }
}

impl Default for SafetyGate {
    fn default() -> (g: Self)
        ensures
            g == (SafetyGate { mission_active: false, estopped: false }),
    {
        SafetyGate::new()
    }
}

/// Something that can happen to the interlock.
pub enum GateEvent {
    Mission(bool),
    Cmd(Command),
}

/// The interlock after a run of events.
pub open spec fn gate_after(g: SafetyGate, events: Seq<GateEvent>) -> SafetyGate
    decreases events.len(),
{
    if events.len() == 0 {
        g
    } else {
        let before = gate_after(g, events.drop_last());
        match events.last() {
            GateEvent::Mission(active) => before.told(active),
            GateEvent::Cmd(cmd) => before.after(cmd),
        }
    }
}

/// After an E-stop the rover does not drive, whatever happens, until an
/// explicit release: no mission status, no cancelled mission and no new goal
/// opens the interlock.
pub proof fn law_estop_holds(g: SafetyGate, events: Seq<GateEvent>)
    requires
        g.estopped,
        forall|i: int|
            0 <= i < events.len() ==> !(#[trigger] events[i] matches GateEvent::Cmd(c)
                && c is ClearEStop),
    ensures
        gate_after(g, events).estopped,
        !gate_after(g, events).open(),
    decreases events.len(),
{
    if events.len() > 0 {
        let rest = events.drop_last();
        assert forall|i: int| 0 <= i < rest.len() implies !(#[trigger] rest[i] matches
            GateEvent::Cmd(c) && c is ClearEStop) by {
            assert(rest[i] == events[i]);
        }
        law_estop_holds(g, rest);
        let last = events[events.len() - 1];
        assert(!(last matches GateEvent::Cmd(c) && c is ClearEStop));
    }
}

/// A gate that has heard nothing keeps the rover stopped, and releasing an
/// E-stop that was never set does not open it either.
pub proof fn law_gate_starts_closed(cmd: Command)
    ensures
        !(SafetyGate { mission_active: false, estopped: false }).open(),
        !(SafetyGate { mission_active: false, estopped: false }).after(cmd).open(),
{
}

/// Both keys are needed, and each turns its own lock: driving is allowed exactly
/// if the last mission status was active and no emergency stop has come since
/// the last release.
pub proof fn law_each_event_turns_its_own_lock(g: SafetyGate, events: Seq<GateEvent>, e: GateEvent)
    ensures
        ({
            let before = gate_after(g, events);
            let after = gate_after(g, events.push(e));
            &&& e matches GateEvent::Mission(active) ==> after.mission_active == active
                && after.estopped == before.estopped
            &&& e matches GateEvent::Cmd(Command::EStop) ==> after.estopped && after.mission_active
                == before.mission_active
            &&& e matches GateEvent::Cmd(Command::ClearEStop) ==> !after.estopped
                && after.mission_active == before.mission_active
            &&& e matches GateEvent::Cmd(c) ==> c is EStop || c is ClearEStop || after == before
            &&& after.open() <==> after.mission_active && !after.estopped
        }),
{
    assert(events.push(e).drop_last() =~= events);
}

} // verus!
