//! The control loop's decisions: what to do with each message that arrives, and
//! what is due at each tick.

use crate::bus::command;
use crate::bus::command::CommandReceiver;
use crate::control::gate::SafetyGate;
use crate::control::speed;
use crate::msgs::boards::{ImuSample, WheelSensors};
use crate::msgs::frame::Frame;
use crate::msgs::mission;
use crate::msgs::mission::{Command, CommandFrame, MissionStatus};
use crate::msgs::motion::LaneMeasurement;
use crate::msgs::wire;
use crate::msgs::wire::Wire;
use vstd::prelude::*;

verus! {

/// One decoded message the control loop cares about.
#[derive(Clone, Copy, Debug)]
pub enum Inbound {
    Imu(ImuSample),
    Lane(LaneMeasurement),
    Wheel(WheelSensors),
    Mission(MissionStatus),
    Cmd(Command),
}

/// What a body of a type delivers, if it decodes.
pub open spec fn delivered<T: Wire>(body: Seq<u8>) -> Option<T> {
    match wire::decoded::<T>(body) {
        Ok(m) => Some(m),
        Err(_) => None,
    }
}

/// What a frame of type `id` delivers to the control loop, given the last
/// command applied: the five kinds it subscribes to, and of the commands only
/// the ones that newly take effect.
pub open spec fn admitted(id: u16, body: Seq<u8>, last: Option<u16>) -> Option<Inbound> {
    if id == ImuSample::id() {
        match delivered::<ImuSample>(body) {
            Some(m) => Some(Inbound::Imu(m)),
            None => None,
        }
    } else if id == LaneMeasurement::id() {
        match delivered::<LaneMeasurement>(body) {
            Some(m) => Some(Inbound::Lane(m)),
            None => None,
        }
    } else if id == WheelSensors::id() {
        match delivered::<WheelSensors>(body) {
            Some(m) => Some(Inbound::Wheel(m)),
            None => None,
        }
    } else if id == MissionStatus::id() {
        match delivered::<MissionStatus>(body) {
            Some(m) => Some(Inbound::Mission(m)),
            None => None,
        }
    } else if id == CommandFrame::id() {
        match delivered::<CommandFrame>(body) {
            Some(f) => if command::accepts(last, f.cmd_seq) {
                Some(Inbound::Cmd(f.body))
            } else {
                None
            },
            None => None,
        }
    } else {
        None
    }
}

/// The last applied command after a frame.
pub open spec fn applied_after(id: u16, body: Seq<u8>, last: Option<u16>) -> Option<u16> {
    if id == CommandFrame::id() {
        match delivered::<CommandFrame>(body) {
            Some(f) => command::applied(last, f.cmd_seq),
            None => last,
        }
    } else {
        last
    }
}

/// Turn a received frame into what the control loop is told. The control loop
/// sees a command exactly once, the moment it newly takes effect.
pub fn receive(frame: &Frame<'_>, commands: &mut CommandReceiver) -> (r: Option<Inbound>)
    ensures
        r == admitted(frame.header.type_id, frame.body@, old(commands)@),
        final(commands)@ == applied_after(frame.header.type_id, frame.body@, old(commands)@),
{
    if let Some(m) = frame.decode_as::<ImuSample>() {
        return match m {
            Ok(m) => Some(Inbound::Imu(m)),
            Err(_) => None,
        };
    }
    if let Some(m) = frame.decode_as::<LaneMeasurement>() {
        return match m {
            Ok(m) => Some(Inbound::Lane(m)),
            Err(_) => None,
        };
    }
    if let Some(m) = frame.decode_as::<WheelSensors>() {
        return match m {
            Ok(m) => Some(Inbound::Wheel(m)),
            Err(_) => None,
        };
    }
    if let Some(m) = frame.decode_as::<MissionStatus>() {
        return match m {
            Ok(m) => Some(Inbound::Mission(m)),
            Err(_) => None,
        };
    }
    if let Some(m) = frame.decode_as::<CommandFrame>() {
        return match m {
            Ok(f) => match commands.apply(f) {
                Some(cmd) => Some(Inbound::Cmd(cmd)),
                None => None,
            },
            Err(_) => None,
        };
    }
    None
}

/// What the loop does with a message.
#[derive(Clone, Copy, Debug)]
pub enum Step {
    /// Advance the estimate.
    Predict(ImuSample),
    /// Correct the estimate by the lane.
    CorrectLane(LaneMeasurement),
    /// Correct the estimate by the wheels and run the speed loop, which may
    /// drive or not.
    CorrectWheel { wheel: WheelSensors, drive_allowed: bool },
    /// Cap the speed.
    LimitSpeed(u8),
    /// The safety interlock has taken it in; there is nothing more to do.
    Settled,
}

/// What is due at a tick.
#[derive(Clone, Copy, Debug, PartialEq, Eq, Structural)]
pub struct TickPlan {
    pub drive_allowed: bool,
    /// Driving resumes: the controller forgets what it held while stopped.
    pub reset_controller: bool,
    /// A stall has just been latched.
    pub announce_stall: bool,
    /// A chassis command is due, after this many microseconds; `None` inside
    /// for the first one.
    pub command: Option<Option<u64>>,
}

/// What the control loop remembers between ticks.
#[derive(Clone, Copy, Debug, PartialEq, Eq, Structural)]
pub struct ControlCycle {
    pub gate: SafetyGate,
    pub command_period_us: u64,
    pub last_command_us: Option<u64>,
    pub was_drive_allowed: bool,
    pub was_stall_latched: bool,
}

impl ControlCycle {
    pub fn new(command_period_us: u64) -> (c: Self)
        ensures
            c == (ControlCycle {
                gate: SafetyGate { mission_active: false, estopped: false },
                command_period_us,
                last_command_us: None,
                was_drive_allowed: false,
                was_stall_latched: false,
            }),
    {
        ControlCycle {
            gate: SafetyGate::new(),
            command_period_us,
            last_command_us: None,
            was_drive_allowed: false,
            was_stall_latched: false,
        }
    }

    /// What a message asks the loop to do.
    pub open spec fn step_for(self, msg: Inbound) -> Step {
        match msg {
            Inbound::Imu(m) => Step::Predict(m),
            Inbound::Lane(m) => Step::CorrectLane(m),
            Inbound::Wheel(m) => Step::CorrectWheel { wheel: m, drive_allowed: self.gate.open() },
            Inbound::Mission(_) => Step::Settled,
            Inbound::Cmd(Command::SetSpeedLimit(pct)) => Step::LimitSpeed(pct),
            Inbound::Cmd(_) => Step::Settled,
        }
    }

    /// The cycle once a message was taken in.
    pub open spec fn taken(self, msg: Inbound) -> ControlCycle {
        ControlCycle {
            gate: match msg {
                Inbound::Mission(m) => SafetyGate { mission_active: m.active, ..self.gate },
                Inbound::Cmd(cmd) => self.gate.after(cmd),
                _ => self.gate,
            },
            ..self
        }
    }

    /// Take in one message, in order of arrival.
    pub fn on_inbound(&mut self, msg: Inbound) -> (s: Step)
        ensures
            s == old(self).step_for(msg),
            *final(self) == old(self).taken(msg),
    {
        match msg {
            Inbound::Imu(m) => Step::Predict(m),
            Inbound::Lane(m) => Step::CorrectLane(m),
            Inbound::Wheel(m) => Step::CorrectWheel {
                wheel: m,
                drive_allowed: self.gate.drive_allowed(),
            },
            Inbound::Mission(m) => {
                self.gate.on_mission_status(m.active);
                Step::Settled
            },
            Inbound::Cmd(Command::SetSpeedLimit(pct)) => Step::LimitSpeed(pct),
            Inbound::Cmd(cmd) => {
                self.gate.on_command(cmd);
                Step::Settled
            },
        }
    }

    /// Whether a chassis command is due: none was sent yet, or the command
    /// period has elapsed.
    pub open spec fn command_due(self, now_us: u64) -> bool {
        match self.last_command_us {
            None => true,
            Some(t) => speed::elapsed(t, now_us) >= self.command_period_us,
        }
    }

    /// What is due at a tick.
    pub open spec fn plan(self, now_us: u64, stall_latched: bool) -> TickPlan {
        TickPlan {
            drive_allowed: self.gate.open(),
            reset_controller: self.gate.open() && !self.was_drive_allowed,
            announce_stall: stall_latched && !self.was_stall_latched,
            command: if self.command_due(now_us) {
                Some(
                    match self.last_command_us {
                        None => None,
                        Some(t) => Some(speed::elapsed(t, now_us) as u64),
                    },
                )
            } else {
                None
            },
        }
    }

    /// The cycle after a tick.
    pub open spec fn ticked(self, now_us: u64, stall_latched: bool) -> ControlCycle {
        ControlCycle {
            was_drive_allowed: self.gate.open(),
            was_stall_latched: stall_latched,
            last_command_us: if self.command_due(now_us) {
                Some(now_us)
            } else {
                self.last_command_us
            },
            ..self
        }
    }

    /// One tick, once every message that had arrived was taken in.
    pub fn on_tick(&mut self, now_us: u64, stall_latched: bool) -> (p: TickPlan)
        ensures
            p == old(self).plan(now_us, stall_latched),
            *final(self) == old(self).ticked(now_us, stall_latched),
    {
        let drive_allowed: bool = self.gate.drive_allowed();
        let reset_controller: bool = drive_allowed && !self.was_drive_allowed;
        self.was_drive_allowed = drive_allowed;
        let announce_stall: bool = stall_latched && !self.was_stall_latched;
        self.was_stall_latched = stall_latched;
        let command = match self.last_command_us {
            None => {
                self.last_command_us = Some(now_us);
                Some(None)
            },
            Some(t) => {
                let since: u64 = now_us.saturating_sub(t);
                if since >= self.command_period_us {
                    self.last_command_us = Some(now_us);
                    Some(Some(since))
                } else {
                    None
                }
            },
        };
        TickPlan { drive_allowed, reset_controller, announce_stall, command }
    }
}

/// A retransmitted command is taken in once: the frame that took effect is not
/// admitted again.
pub proof fn law_commands_admitted_once(body: Seq<u8>, last: Option<u16>)
    ensures
        admitted(
            CommandFrame::id(),
            body,
            applied_after(CommandFrame::id(), body, last),
        ) is None,
{
}

/// A control process that has just started obeys the first command that reaches
/// it, whatever its number.
pub proof fn law_first_command_is_admitted(frame: CommandFrame)
    requires
        frame.cmd_seq != 0,
    ensures
        admitted(CommandFrame::id(), frame.wire(), None) == Some(Inbound::Cmd(frame.body)),
{
    wire::law_round_trip(frame, Seq::empty());
    assert(frame.wire() + Seq::<u8>::empty() =~= frame.wire());
}

/// Commands keep flowing while the rover is stopped: whether one is due does
/// not depend on the interlock.
pub proof fn law_silence_is_never_chosen(c: ControlCycle, g: SafetyGate, now_us: u64)
    ensures
        c.command_due(now_us) == (ControlCycle { gate: g, ..c }).command_due(now_us),
        c.last_command_us is None ==> c.command_due(now_us),
{
}

/// Every message goes where it belongs, as it came: inertial samples advance the
/// estimate, lanes and wheels correct it, and a wheel sample is driven on only
/// where driving is allowed at that moment. A speed limit is applied as it was
/// sent.
pub proof fn law_messages_go_where_they_belong(c: ControlCycle, msg: Inbound)
    ensures
        msg matches Inbound::Imu(m) ==> c.step_for(msg) == Step::Predict(m) && c.taken(msg) == c,
        msg matches Inbound::Lane(m) ==> c.step_for(msg) == Step::CorrectLane(m) && c.taken(msg)
            == c,
        msg matches Inbound::Wheel(m) ==> c.taken(msg) == c && (c.step_for(
            msg,
        ) matches Step::CorrectWheel { wheel, drive_allowed } && wheel == m && drive_allowed == (
        c.gate.mission_active && !c.gate.estopped)),
        msg matches Inbound::Cmd(Command::SetSpeedLimit(pct)) ==> c.step_for(msg)
            == Step::LimitSpeed(pct) && c.taken(msg) == c,
        c.step_for(msg) matches Step::LimitSpeed(pct) ==> msg == Inbound::Cmd(
            Command::SetSpeedLimit(pct),
        ),
        msg matches Inbound::Mission(m) ==> c.taken(msg).gate.mission_active == m.active
            && c.taken(msg).gate.estopped == c.gate.estopped && c.step_for(msg) is Settled,
        msg == Inbound::Cmd(Command::EStop) ==> c.taken(msg).gate.estopped && c.step_for(
            msg,
        ) is Settled,
        msg == Inbound::Cmd(Command::ClearEStop) ==> !c.taken(msg).gate.estopped,
        c.taken(msg).last_command_us == c.last_command_us && c.taken(msg).was_drive_allowed
            == c.was_drive_allowed && c.taken(msg).command_period_us == c.command_period_us,
{
}

/// What another process publishes for the control loop is what the control loop
/// is told: each of the five kinds as itself.
pub proof fn law_published_is_admitted(
    imu: ImuSample,
    lane: LaneMeasurement,
    wheel: WheelSensors,
    status: MissionStatus,
    last: Option<u16>,
)
    ensures
        admitted(ImuSample::id(), imu.wire(), last) == Some(Inbound::Imu(imu)),
        admitted(LaneMeasurement::id(), lane.wire(), last) == Some(Inbound::Lane(lane)),
        admitted(WheelSensors::id(), wheel.wire(), last) == Some(Inbound::Wheel(wheel)),
        admitted(MissionStatus::id(), status.wire(), last) == Some(Inbound::Mission(status)),
        applied_after(ImuSample::id(), imu.wire(), last) == last,
        applied_after(LaneMeasurement::id(), lane.wire(), last) == last,
        applied_after(WheelSensors::id(), wheel.wire(), last) == last,
        applied_after(MissionStatus::id(), status.wire(), last) == last,
{
    let none = Seq::<u8>::empty();
    wire::law_round_trip(imu, none);
    wire::law_round_trip(lane, none);
    wire::law_round_trip(wheel, none);
    wire::law_round_trip(status, none);
    assert(imu.wire() + none =~= imu.wire());
    assert(lane.wire() + none =~= lane.wire());
    assert(wheel.wire() + none =~= wheel.wire());
    assert(status.wire() + none =~= status.wire());
}

/// A command is obeyed exactly if it is newer than the last one obeyed, by less
/// than half the numbers there are, or the first at all; what is obeyed is what
/// was sent.
pub proof fn law_commands_are_obeyed_in_order(frame: CommandFrame, last: u16)
    ensures
        ({
            let ahead = (frame.cmd_seq - last) % 0x1_0000;
            let told = admitted(CommandFrame::id(), frame.wire(), Some(last));
            let after = applied_after(CommandFrame::id(), frame.wire(), Some(last));
            &&& 0 < ahead < 0x8000 ==> told == Some(Inbound::Cmd(frame.body)) && after == Some(
                frame.cmd_seq,
            )
            &&& !(0 < ahead < 0x8000) ==> told is None && after == Some(last)
        }),
{
    wire::law_round_trip(frame, Seq::empty());
    assert(frame.wire() + Seq::<u8>::empty() =~= frame.wire());
}

/// A chassis command is due once at first, and then whenever a whole period has
/// passed since the last one, driving or not; it is told how long that was.
pub proof fn law_commands_keep_their_pace(c: ControlCycle, now_us: u64, stall_latched: bool)
    ensures
        c.last_command_us is None ==> c.plan(now_us, stall_latched).command == Some(None::<u64>),
        c.last_command_us matches Some(t) ==> {
            &&& now_us >= t && now_us - t >= c.command_period_us ==> c.plan(now_us, stall_latched).command == Some(
                Some((now_us - t) as u64),
            )
            &&& now_us >= t && now_us - t < c.command_period_us ==> c.plan(now_us, stall_latched).command is None
        },
        c.plan(now_us, stall_latched).command is Some ==> c.ticked(
            now_us,
            stall_latched,
        ).last_command_us == Some(now_us),
        c.plan(now_us, stall_latched).command is None ==> c.ticked(
            now_us,
            stall_latched,
        ).last_command_us == c.last_command_us,
        c.ticked(now_us, stall_latched).gate == c.gate,
        c.ticked(now_us, stall_latched).command_period_us == c.command_period_us,
{
}

/// What changes is told once: driving that resumes resets the controller, a stall
/// that is new is announced, and neither happens again while it lasts.
pub proof fn law_changes_are_told_once(
    c: ControlCycle,
    now_us: u64,
    stalled: bool,
    later_us: u64,
    still: bool,
)
    ensures
        ({
            let open = c.gate.mission_active && !c.gate.estopped;
            let p = c.plan(now_us, stalled);
            let q = c.ticked(now_us, stalled).plan(later_us, still);
            &&& p.drive_allowed == open && q.drive_allowed == open
            &&& p.reset_controller ==> open && !c.was_drive_allowed
            &&& open && !c.was_drive_allowed ==> p.reset_controller
            &&& !q.reset_controller
            &&& p.announce_stall <==> stalled && !c.was_stall_latched
            &&& stalled ==> !q.announce_stall
            &&& !stalled && still ==> q.announce_stall
        }),
{
}

} // verus!
