//! The base station's loop, but for the terminal and the link.

use crate::bus::command;
use crate::bus::command::{CommandSender, SenderView, DEFAULT_RETRANSMIT_INTERVAL};
use crate::msgs::mission::{Command, CommandFrame};
use crate::reals::Real64;
use crate::station::command_parse;
use crate::station::command_parse::ParseCommandError;
use crate::station::link;
use crate::station::link::LinkStatus;
use crate::telemetry::feed;
use crate::text;
use vstd::prelude::*;

verus! {

/// Microseconds between two redraws.
pub const REDRAW_INTERVAL_US: u64 = 200_000;

/// What came of a line of input.
#[derive(Clone, Copy, Debug, PartialEq, Eq, Structural)]
pub enum Typed {
    /// A command was queued, under this number.
    Queued { cmd_seq: u16 },
    /// So was an emergency stop: the disclaimer is shown at once.
    EStopQueued { cmd_seq: u16 },
    Refused(ParseCommandError),
}

/// What is due in one round of the loop.
#[derive(Clone, Copy, Debug, PartialEq, Eq)]
pub struct Round {
    /// To be sent to the rover.
    pub frame: Option<CommandFrame>,
    /// The dashboard is redrawn, with the link in this state and this command
    /// pending.
    pub redraw: Option<(LinkStatus, Option<u16>)>,
}

/// What the base station remembers.
pub struct Console {
    pub sender: CommandSender,
    /// The last command that telemetry echoed.
    pub echoed: u16,
    pub last_telemetry_us: Option<u64>,
    pub last_redraw_us: Option<u64>,
}

impl Console {
    pub fn new() -> (c: Self)
        ensures
            c.sender@ == (SenderView {
                cmd_seq: 0,
                pending: None,
                interval_us: DEFAULT_RETRANSMIT_INTERVAL,
                last_sent_us: None,
            }),
            c.echoed == 0,
            c.last_telemetry_us is None,
            c.last_redraw_us is None,
    {
        Console {
            sender: CommandSender::new(DEFAULT_RETRANSMIT_INTERVAL),
            echoed: 0,
            last_telemetry_us: None,
            last_redraw_us: None,
        }
    }

    /// The console once telemetry has arrived.
    pub open spec fn heard(self, last_cmd_seq: u16, now_us: u64) -> Console {
        Console { echoed: last_cmd_seq, last_telemetry_us: Some(now_us), ..self }
    }

    /// Telemetry has arrived, which echoes the last command that the rover
    /// applied.
    pub fn on_telemetry(&mut self, last_cmd_seq: u16, now_us: u64)
        ensures
            *final(self) == old(self).heard(last_cmd_seq, now_us),
    {
        self.echoed = last_cmd_seq;
        self.last_telemetry_us = Some(now_us);
    }

    /// A line has been typed; `coordinates` holds what its first two arguments
    /// read as numbers.
    pub fn on_line(&mut self, line: &str, coordinates: (Option<Real64>, Option<Real64>)) -> (t:
        Typed)
        ensures
            t == answer(
                old(self).sender@,
                command_parse::command_of(text::words(line@), coordinates),
            ),
            final(self).sender@ == queue_of(
                old(self).sender@,
                command_parse::command_of(text::words(line@), coordinates),
            ),
            *final(self) == (Console { sender: final(self).sender, ..*old(self) }),
            t is Refused ==> *final(self) == *old(self),
    {
        match command_parse::parse_command(line, coordinates) {
            Err(e) => Typed::Refused(e),
            Ok(cmd) => {
                self.sender.set(cmd);
                match cmd {
                    Command::EStop => Typed::EStopQueued { cmd_seq: self.sender.cmd_seq() },
                    _ => Typed::Queued { cmd_seq: self.sender.cmd_seq() },
                }
            },
        }
    }

    /// Whether the dashboard is to be redrawn.
    pub open spec fn redraw_due(self, now_us: u64) -> bool {
        match self.last_redraw_us {
            None => true,
            Some(t) => now_us >= t && now_us - t >= REDRAW_INTERVAL_US,
        }
    }

    /// The sender once the frame that is due has gone out and the echo has been
    /// seen.
    pub open spec fn sender_after(self, now_us: u64) -> SenderView {
        self.sender@.polled(now_us).echoed(self.echoed)
    }

    /// What a redraw shows, if one is due: the link, and the command that is
    /// still pending.
    pub open spec fn shown(self, now_us: u64) -> Option<(LinkStatus, Option<u16>)> {
        if self.redraw_due(now_us) {
            Some(
                (
                    link::status(feed::age_ms(self.last_telemetry_us, now_us)),
                    if self.sender_after(now_us).pending is Some {
                        Some(self.sender_after(now_us).cmd_seq)
                    } else {
                        None
                    },
                ),
            )
        } else {
            None
        }
    }

    /// When the dashboard was last redrawn, after a round.
    pub open spec fn redrawn(self, now_us: u64) -> Option<u64> {
        if self.redraw_due(now_us) {
            Some(now_us)
        } else {
            self.last_redraw_us
        }
    }

    /// One round of the loop.
    pub fn round(&mut self, now_us: u64) -> (r: Round)
        ensures
            r.frame == old(self).sender@.sends(now_us),
            r.redraw == old(self).shown(now_us),
            final(self).sender@ == old(self).sender_after(now_us),
            final(self).echoed == old(self).echoed,
            final(self).last_telemetry_us == old(self).last_telemetry_us,
            final(self).last_redraw_us == old(self).redrawn(now_us),
    {
        let frame = self.sender.poll(now_us);
        self.sender.on_telemetry(self.echoed);
        let due: bool = match self.last_redraw_us {
            None => true,
            Some(t) => now_us >= t && now_us - t >= REDRAW_INTERVAL_US,
        };
        let redraw = if due {
            self.last_redraw_us = Some(now_us);
            let age = feed::age_of(self.last_telemetry_us, now_us);
            let pending: Option<u16> = if self.sender.is_acked() {
                None
            } else {
                Some(self.sender.cmd_seq())
            };
            Some((link::classify(age), pending))
        } else {
            None
        };
        Round { frame, redraw }
    }
}

/// What is answered to a line.
pub open spec fn answer(sender: SenderView, line: Result<Command, ParseCommandError>) -> Typed {
    match line {
        Err(e) => Typed::Refused(e),
        Ok(cmd) => if cmd is EStop {
            Typed::EStopQueued { cmd_seq: command::next_seq(sender.cmd_seq) }
        } else {
            Typed::Queued { cmd_seq: command::next_seq(sender.cmd_seq) }
        },
    }
}

/// The sender after a line.
pub open spec fn queue_of(
    sender: SenderView,
    line: Result<Command, ParseCommandError>,
) -> SenderView {
    match line {
        Err(_) => sender,
        Ok(cmd) => sender.queued(cmd),
    }
}

/// A command goes out at once, and stays pending until its own number is
/// echoed.
pub proof fn law_commands_go_out_until_echoed(c: Console, now_us: u64)
    requires
        c.sender@.wf(),
        c.sender@.pending is Some,
    ensures
        c.sender@.last_sent_us is None ==> c.sender@.due(now_us),
        (c.sender_after(now_us).pending is None) == (c.echoed == c.sender@.cmd_seq),
{
}

/// A line that is refused changes nothing. Any other is answered with the number
/// under which its command is sent next, and an emergency stop is told from the
/// rest.
pub proof fn law_lines_are_answered(
    sender: SenderView,
    line: Result<Command, ParseCommandError>,
    now_us: u64,
)
    ensures
        line matches Err(e) ==> answer(sender, line) == Typed::Refused(e) && queue_of(sender, line)
            == sender,
        line matches Ok(cmd) ==> {
            &&& queue_of(sender, line).sends(now_us) matches Some(f)
            &&& f.body == cmd
            &&& cmd is EStop ==> answer(sender, line) == (Typed::EStopQueued { cmd_seq: f.cmd_seq })
            &&& !(cmd is EStop) ==> answer(sender, line) == (Typed::Queued { cmd_seq: f.cmd_seq })
        },
{
}

/// The dashboard is redrawn at once and then every fifth of a second. It shows
/// the link by the age of the last telemetry, and the number of a command until
/// the rover has echoed it.
#[verifier::rlimit(40)]
pub proof fn law_redraws(c: Console, now_us: u64)
    requires
        c.sender@.wf(),
    ensures
        c.last_redraw_us is None ==> c.shown(now_us) is Some,
        c.last_redraw_us matches Some(t) ==> (c.shown(now_us) is Some <==> now_us - t >= 200_000),
        c.shown(now_us) is Some ==> c.redrawn(now_us) == Some(now_us),
        c.shown(now_us) is None ==> c.redrawn(now_us) == c.last_redraw_us,
        c.shown(now_us) matches Some(d) ==> {
            &&& c.last_telemetry_us is None ==> d.0 is Lost
            &&& c.last_telemetry_us matches Some(t) ==> (t <= now_us ==> (d.0 is Live <==> now_us
                - t < 1_001_000))
            &&& d.0 matches LinkStatus::Live { age_ms } ==> (c.last_telemetry_us matches Some(t)
                && (t <= now_us ==> age_ms == (now_us - t) / 1000))
            &&& c.sender@.pending is None ==> d.1 is None
            &&& c.sender@.pending matches Some(f) ==> {
                &&& c.echoed == f.cmd_seq ==> d.1 is None
                &&& c.echoed != f.cmd_seq ==> d.1 == Some(f.cmd_seq)
            }
        },
{
    if let Some(t) = c.last_telemetry_us {
        if t <= now_us {
            assert((now_us - t) / 1000 > 1000 <==> now_us - t >= 1_001_000);
        }
    }
}

/// What telemetry echoes is what counts, from when it came.
pub proof fn law_telemetry_is_heard(c: Console, n: u16, now_us: u64)
    ensures
        c.heard(n, now_us).echoed == n,
        c.heard(n, now_us).last_telemetry_us == Some(now_us),
        c.heard(n, now_us).sender == c.sender,
        c.heard(n, now_us).last_redraw_us == c.last_redraw_us,
{
}

} // verus!
