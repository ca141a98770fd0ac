//! The mission.

use crate::msgs::gnss::GnssFix;
use crate::msgs::kinds::MissionState;
use crate::msgs::mission::{Command, MissionGoal, MissionStatus};
use crate::reals::{Real32, Real64};
use crate::text;
use vstd::prelude::*;

verus! {

/// The position to navigate on: the primary receiver's where its fix is usable,
/// else the backup's where that is, else none.
pub open spec fn navigation_fix(rtk: GnssFix, backup: GnssFix) -> Option<(Real64, Real64)> {
    if rtk.usable() {
        Some((rtk.lat_deg, rtk.lon_deg))
    } else if backup.usable() {
        Some((backup.lat_deg, backup.lon_deg))
    } else {
        None
    }
}

/// Choose which receiver the mission navigates on.
pub fn select_navigation_fix(rtk: &GnssFix, backup: &GnssFix) -> (r: Option<(Real64, Real64)>)
    ensures
        r == navigation_fix(*rtk, *backup),
{
    if rtk.is_usable() {
        Some((rtk.lat_deg, rtk.lon_deg))
    } else if backup.is_usable() {
        Some((backup.lat_deg, backup.lon_deg))
    } else {
        None
    }
}

/// The mission's configuration. A goal in it arms the mission at startup, with
/// no uplink at all.
#[derive(Clone, Copy, Debug, PartialEq, Eq, Structural)]
pub struct MissionConfig {
    pub arrival_radius_m: Real32,
    pub preloaded_goal: Option<MissionGoal>,
}

/// The goal was neither absent nor exactly a latitude and a longitude.
#[derive(Clone, Copy, Debug, PartialEq, Eq, Structural)]
pub enum MissionConfigError {
    BadPreloadedGoal(usize),
}

impl MissionConfigError {
    /// The error in words.
    pub open spec fn described(self) -> Seq<char> {
        match self {
            MissionConfigError::BadPreloadedGoal(n) =>
                "[mission] preloaded_goal must be empty or exactly [lat, lon], got "@ + text::dec(
                n as nat,
            ) + " element(s)"@,
        }
    }

    pub fn message(&self) -> (s: String)
        ensures
            s@ == self.described(),
    {
        match self {
            MissionConfigError::BadPreloadedGoal(n) => {
                let mut s = text::owned(
                    "[mission] preloaded_goal must be empty or exactly [lat, lon], got ",
                );
                text::push_dec(&mut s, *n as u64);
                text::push_str(&mut s, " element(s)");
                s
            },
        }
    }
}

impl MissionConfig {
    /// What a mission table stands for.
    pub open spec fn resolved(arrival_radius_m: Real32, coordinates: Seq<Real64>) -> Result<
        MissionConfig,
        MissionConfigError,
    > {
        if coordinates.len() == 0 {
            Ok(MissionConfig { arrival_radius_m, preloaded_goal: None })
        } else if coordinates.len() == 2 {
            Ok(
                MissionConfig {
                    arrival_radius_m,
                    preloaded_goal: Some(
                        MissionGoal { lat_deg: coordinates[0], lon_deg: coordinates[1] },
                    ),
                },
            )
        } else {
            Err(MissionConfigError::BadPreloadedGoal(coordinates.len() as usize))
        }
    }

    /// Resolve the mission table: the arrival radius, and a list of coordinates
    /// for the goal.
    pub fn parse(arrival_radius_m: Real32, preloaded_goal: &Vec<Real64>) -> (r: Result<
        MissionConfig,
        MissionConfigError,
    >)
        ensures
            r == MissionConfig::resolved(arrival_radius_m, preloaded_goal@),
    {
        if preloaded_goal.len() == 0 {
            Ok(MissionConfig { arrival_radius_m, preloaded_goal: None })
        } else if preloaded_goal.len() == 2 {
            Ok(
                MissionConfig {
                    arrival_radius_m,
                    preloaded_goal: Some(
                        MissionGoal { lat_deg: preloaded_goal[0], lon_deg: preloaded_goal[1] },
                    ),
                },
            )
        } else {
            Err(MissionConfigError::BadPreloadedGoal(preloaded_goal.len()))
        }
    }
}

/// The mission state machine.
#[derive(Clone, Copy, Debug, PartialEq, Eq, Structural)]
pub struct Mission {
    pub state: MissionState,
    pub goal: Option<MissionGoal>,
    pub arrival_radius_m: Real32,
    /// Held while there is no position.
    pub last_distance_remaining_m: Real32,
}

impl Mission {
    /// A mission that is under way, or about to be, has somewhere to go.
    pub open spec fn wf(self) -> bool {
        match self.state {
            MissionState::Armed => self.goal is Some,
            MissionState::Running => self.goal is Some,
            _ => true,
        }
    }

    /// The mission of a configuration, before anything has happened to it.
    pub open spec fn started(config: MissionConfig) -> Mission {
        Mission {
            state: if config.preloaded_goal is Some {
                MissionState::Armed
            } else {
                MissionState::Idle
            },
            goal: config.preloaded_goal,
            arrival_radius_m: config.arrival_radius_m,
            last_distance_remaining_m: Real32(0),
        }
    }

    pub fn new(config: &MissionConfig) -> (m: Self)
        ensures
            m.wf(),
            m == Mission::started(*config),
    {
        let state = match config.preloaded_goal {
            Some(_) => MissionState::Armed,
            None => MissionState::Idle,
        };
        Mission {
            state,
            goal: config.preloaded_goal,
            arrival_radius_m: config.arrival_radius_m,
            last_distance_remaining_m: Real32(0),
        }
    }

    pub fn state(&self) -> (s: MissionState)
        ensures
            s == self.state,
    {
        self.state
    }

    pub fn goal(&self) -> (g: Option<MissionGoal>)
        ensures
            g == self.goal,
    {
        self.goal
    }

    /// What a command makes of a mission. A goal arms it from any state;
    /// cancelling forgets the goal; an emergency stop faults it. The other
    /// commands are not the mission's concern.
    pub open spec fn commanded(self, cmd: Command) -> Mission {
        match cmd {
            Command::SetMissionGoal(goal) => Mission {
                goal: Some(goal),
                state: MissionState::Armed,
                ..self
            },
            Command::CancelMission => Mission { goal: None, state: MissionState::Cancelled, ..self },
            Command::EStop => Mission { state: MissionState::Fault, ..self },
            _ => self,
        }
    }

    /// Apply an operator's command.
    pub fn apply_command(&mut self, cmd: Command)
        requires
            old(self).wf(),
        ensures
            final(self).wf(),
            *final(self) == old(self).commanded(cmd),
    {
        match cmd {
            Command::SetMissionGoal(goal) => {
                self.goal = Some(goal);
                self.state = MissionState::Armed;
            },
            Command::CancelMission => {
                self.goal = None;
                self.state = MissionState::Cancelled;
            },
            Command::EStop => {
                self.state = MissionState::Fault;
            },
            _ => {},
        }
    }

    /// What a tick makes of a mission. With a position, the distance is
    /// measured and the mission moves on: armed to running, and running to
    /// arrived once within the radius. Without one, everything is held.
    pub open spec fn advanced(self, position: Option<(Real64, Real64)>, distance_m: Real32) -> Mission {
        if position is None {
            self
        } else {
            let distance = if self.goal is Some {
                distance_m
            } else {
                self.last_distance_remaining_m
            };
            Mission {
                last_distance_remaining_m: distance,
                state: match self.state {
                    MissionState::Armed => MissionState::Running,
                    MissionState::Running => if distance.at_most(self.arrival_radius_m) {
                        MissionState::Arrived
                    } else {
                        MissionState::Running
                    },
                    other => other,
                },
                ..self
            }
        }
    }

    /// What is reported of a mission.
    pub open spec fn status(self) -> MissionStatus {
        MissionStatus {
            active: self.state is Running,
            distance_remaining_m: self.last_distance_remaining_m,
            target: self.goal,
            state: self.state,
        }
    }

    /// Advance by one tick. `distance_m` is the distance from the position to
    /// the goal; it counts only where there are both.
    pub fn update(&mut self, position: Option<(Real64, Real64)>, distance_m: Real32) -> (s:
        MissionStatus)
        requires
            old(self).wf(),
        ensures
            final(self).wf(),
            *final(self) == old(self).advanced(position, distance_m),
            s == final(self).status(),
    {
        let placed: bool = match position {
            Some(_) => true,
            None => false,
        };
        let aimed: bool = match self.goal {
            Some(_) => true,
            None => false,
        };
        if placed && aimed {
            self.last_distance_remaining_m = distance_m;
        }
        if placed {
            self.state = match self.state {
                MissionState::Armed => MissionState::Running,
                MissionState::Running => if self.last_distance_remaining_m.is_at_most(
                    self.arrival_radius_m,
                ) {
                    MissionState::Arrived
                } else {
                    MissionState::Running
                },
                other => other,
            };
        }
        MissionStatus {
            active: self.state.is_driving(),
            distance_remaining_m: self.last_distance_remaining_m,
            target: self.goal,
            state: self.state,
        }
    }
}

/// One thing that happens to a mission.
pub enum MissionEvent {
    Commanded(Command),
    Ticked(Option<(Real64, Real64)>, Real32),
}

/// A mission after a run of events.
pub open spec fn mission_after(m: Mission, events: Seq<MissionEvent>) -> Mission
    decreases events.len(),
{
    if events.len() == 0 {
        m
    } else {
        let before = mission_after(m, events.drop_last());
        match events.last() {
            MissionEvent::Commanded(cmd) => before.commanded(cmd),
            MissionEvent::Ticked(position, distance_m) => before.advanced(position, distance_m),
        }
    }
}

/// Only a new goal gets a mission out of a halt: after an emergency stop, a
/// cancellation or an arrival the rover does not ask to drive, whatever else
/// happens, until a goal is set.
pub proof fn law_halted_until_a_new_goal(m: Mission, events: Seq<MissionEvent>)
    requires
        m.state == MissionState::Fault || m.state == MissionState::Cancelled || m.state
            == MissionState::Arrived || m.state == MissionState::Idle,
        forall|i: int|
            0 <= i < events.len() ==> !(#[trigger] events[i] matches MissionEvent::Commanded(
                Command::SetMissionGoal(_),
            )),
    ensures
        !(mission_after(m, events).state is Running),
        mission_after(m, events).state != MissionState::Armed,
    decreases events.len(),
{
    if events.len() > 0 {
        let before = events.drop_last();
        assert forall|i: int| 0 <= i < before.len() implies !(#[trigger] before[i] matches MissionEvent::Commanded(
            Command::SetMissionGoal(_),
        )) by {
            assert(before[i] == events[i]);
        }
        law_halted_until_a_new_goal(m, before);
        let last = events[events.len() - 1];
        assert(!(last matches MissionEvent::Commanded(Command::SetMissionGoal(_))));
    }
}

/// A goal arms a mission from any state.
pub proof fn law_a_goal_always_arms(m: Mission, goal: MissionGoal)
    ensures
        m.commanded(Command::SetMissionGoal(goal)).state == MissionState::Armed,
        m.commanded(Command::SetMissionGoal(goal)).goal == Some(goal),
{
}

/// A mission needs no uplink: with a preloaded goal, two positions are enough to
/// drive, and then one within the radius to arrive.
pub proof fn law_mission_without_uplink(
    m: Mission,
    p: (Real64, Real64),
    far: Real32,
    near: Real32,
)
    requires
        m.state == MissionState::Armed,
        m.wf(),
        !far.at_most(m.arrival_radius_m),
        near.at_most(m.arrival_radius_m),
    ensures
        m.advanced(Some(p), far).state == MissionState::Running,
        m.advanced(Some(p), far).advanced(Some(p), far).state == MissionState::Running,
        m.advanced(Some(p), far).advanced(Some(p), near).state == MissionState::Arrived,
{
}

/// A lost fix changes nothing: no state moves on and the distance is held.
pub proof fn law_lost_fix_holds_everything(m: Mission, distance_m: Real32)
    ensures
        m.advanced(None, distance_m) == m,
{
}

/// A command that is not the mission's concern leaves it alone; so does
/// releasing the emergency stop.
pub proof fn law_other_commands_leave_the_mission(m: Mission, pct: u8)
    ensures
        m.commanded(Command::Nop) == m,
        m.commanded(Command::SetSpeedLimit(pct)) == m,
        m.commanded(Command::ClearEStop) == m,
{
}

/// Whenever there is a position to navigate on, it is a receiver's own: its
/// latitude first, then its longitude. That receiver has a fix with at least
/// four satellites, and is the primary one unless that has none; and there is
/// no position exactly if neither has.
pub proof fn law_position_is_a_receivers_own(rtk: GnssFix, backup: GnssFix)
    ensures
        ({
            let p = navigation_fix(rtk, backup);
            let rtk_good = !(rtk.fix is NoFix) && rtk.sats >= 4;
            let backup_good = !(backup.fix is NoFix) && backup.sats >= 4;
            &&& p is None <==> !rtk_good && !backup_good
            &&& p matches Some((lat, lon)) ==> {
                ||| rtk_good && lat == rtk.lat_deg && lon == rtk.lon_deg
                ||| !rtk_good && backup_good && lat == backup.lat_deg && lon == backup.lon_deg
            }
        }),
{
}

/// The backup's position does not matter while the primary's is good, and the
/// primary's does not while it is not.
pub proof fn law_one_receiver_counts(rtk: GnssFix, backup: GnssFix, other: GnssFix)
    ensures
        rtk.usable() ==> navigation_fix(rtk, backup) == navigation_fix(rtk, other),
        !rtk.usable() && !other.usable() ==> navigation_fix(rtk, backup) == navigation_fix(
            other,
            backup,
        ),
{
}

/// The mission table gives a goal exactly if it holds two numbers, the latitude
/// first; an empty one gives none, and every other length is refused by name.
pub proof fn law_mission_table(arrival_radius_m: Real32, coordinates: Seq<Real64>)
    requires
        coordinates.len() <= usize::MAX,
    ensures
        ({
            let r = MissionConfig::resolved(arrival_radius_m, coordinates);
            &&& r is Ok <==> coordinates.len() == 0 || coordinates.len() == 2
            &&& r matches Ok(c) ==> c.arrival_radius_m == arrival_radius_m
            &&& coordinates.len() == 0 ==> r->Ok_0.preloaded_goal is None
            &&& coordinates.len() == 2 ==> (r->Ok_0.preloaded_goal matches Some(g) && g.lat_deg
                == coordinates[0] && g.lon_deg == coordinates[1])
            &&& r matches Err(MissionConfigError::BadPreloadedGoal(n)) ==> n == coordinates.len()
        }),
{
}

/// What a command does to a mission, and what it leaves alone: a goal is taken
/// over as it was sent and arms, a cancellation forgets the goal, an emergency
/// stop keeps it. None of them changes the radius or the distance.
pub proof fn law_commands_change_a_mission(m: Mission, cmd: Command)
    ensures
        ({
            let next = m.commanded(cmd);
            &&& next.arrival_radius_m == m.arrival_radius_m
            &&& next.last_distance_remaining_m == m.last_distance_remaining_m
            &&& cmd matches Command::SetMissionGoal(g) ==> next.state is Armed && (
            next.goal matches Some(h) && h.lat_deg == g.lat_deg && h.lon_deg == g.lon_deg)
            &&& cmd is CancelMission ==> next.state is Cancelled && next.goal is None
            &&& cmd is EStop ==> next.state is Fault && next.goal == m.goal
            &&& cmd is Nop || cmd is SetSpeedLimit || cmd is ClearEStop ==> next == m
        }),
{
}

/// How a mission moves on with a position: an armed one starts, a running one
/// arrives exactly once the distance is no more than the radius, and no other
/// state moves. The distance is measured wherever there is a goal, and the goal
/// and the radius stay.
pub proof fn law_missions_move_on(m: Mission, p: (Real64, Real64), distance_m: Real32)
    ensures
        ({
            let next = m.advanced(Some(p), distance_m);
            &&& next.goal == m.goal && next.arrival_radius_m == m.arrival_radius_m
            &&& m.goal is Some ==> next.last_distance_remaining_m == distance_m
            &&& m.goal is None ==> next.last_distance_remaining_m == m.last_distance_remaining_m
            &&& m.state is Armed ==> next.state is Running
            &&& m.state is Running && m.goal is Some ==> {
                &&& distance_m.at_most(m.arrival_radius_m) ==> next.state is Arrived
                &&& m.arrival_radius_m.below(distance_m) ==> next.state is Running
                &&& distance_m.nan() || m.arrival_radius_m.nan() ==> next.state is Running
            }
            &&& !(m.state is Armed) && !(m.state is Running) ==> next.state == m.state
        }),
{
}

/// What is reported of a mission is the mission: active exactly while it runs,
/// with its own goal, distance and state.
pub proof fn law_missions_are_reported(m: Mission)
    ensures
        m.status().active <==> m.state == MissionState::Running,
        m.status().state == m.state,
        m.status().target == m.goal,
        m.status().distance_remaining_m == m.last_distance_remaining_m,
{
}

/// A goal in the configuration arms the mission as a goal that is sent does;
/// without one nothing is to be done.
pub proof fn law_missions_start(config: MissionConfig)
    ensures
        ({
            let m = Mission::started(config);
            &&& m.goal == config.preloaded_goal
            &&& m.arrival_radius_m == config.arrival_radius_m
            &&& m.last_distance_remaining_m == Real32(0)
            &&& config.preloaded_goal is None ==> m.state is Idle
            &&& config.preloaded_goal matches Some(goal) ==> m == Mission::started(
                MissionConfig { preloaded_goal: None, ..config },
            ).commanded(Command::SetMissionGoal(goal))
            &&& !m.status().active
        }),
{
}

/// An error tells how many numbers there were.
pub proof fn law_errors_tell_the_count(n: usize)
    ensures
        MissionConfigError::BadPreloadedGoal(n).described().subrange(
            66,
            66 + text::dec(n as nat).len() as int,
        ) == text::dec(n as nat),
{
    reveal_strlit("[mission] preloaded_goal must be empty or exactly [lat, lon], got ");
    assert("[mission] preloaded_goal must be empty or exactly [lat, lon], got "@.len() == 66);
    let d = MissionConfigError::BadPreloadedGoal(n).described();
    assert(d.subrange(66, 66 + text::dec(n as nat).len() as int) =~= text::dec(n as nat));
}

} // verus!
