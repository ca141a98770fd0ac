//! The command protocol between base and rover: idempotent datagrams with
//! sequence echo.
//!
//! The base keeps resending the same frame until it sees its `cmd_seq` echoed
//! back in the telemetry, and the rover applies whichever frame is newest by
//! that sequence number and ignores the rest. Neither side keeps a connection.

use crate::msgs::mission;
use crate::msgs::mission::{Command, CommandFrame};
use vstd::prelude::*;

verus! {

/// Default retransmit interval, microseconds.
pub const DEFAULT_RETRANSMIT_INTERVAL: u64 = 1_000_000;

/// Base-station side: owns the current command and decides when to
/// (re)transmit it.
///
/// `cmd_seq` starts at `0` and the first real command is `1`. Zero is never
/// sent, so that it can double as "nothing applied yet" on the receiver side.
pub struct CommandSender {
    cmd_seq: u16,
    pending: Option<CommandFrame>,
    interval_us: u64,
    last_sent_us: Option<u64>,
}

/// The sequence number that follows `n`, leaving out zero.
pub open spec fn next_seq(n: u16) -> u16 {
    if n == 0xffff {
        1
    } else {
        (n + 1) as u16
    }
}

/// What a sender amounts to.
pub struct SenderView {
    pub cmd_seq: u16,
    pub pending: Option<CommandFrame>,
    pub interval_us: u64,
    pub last_sent_us: Option<u64>,
}

impl View for CommandSender {
    type V = SenderView;

    closed spec fn view(&self) -> SenderView {
        SenderView {
            cmd_seq: self.cmd_seq,
            pending: self.pending,
            interval_us: self.interval_us,
            last_sent_us: self.last_sent_us,
        }
    }
}

impl SenderView {
    /// A pending command is the last one that was queued, and never has the
    /// number zero.
    pub open spec fn wf(self) -> bool {
        self.pending matches Some(f) ==> f.cmd_seq == self.cmd_seq && f.cmd_seq != 0
    }

    /// Whether there is something to put on the wire at `now_us`.
    pub open spec fn due(self, now_us: u64) -> bool {
        self.pending is Some && match self.last_sent_us {
            None => true,
            Some(t) => (if now_us >= t {
                now_us - t
            } else {
                0
            }) >= self.interval_us,
        }
    }

    /// The sender once a command has been queued.
    pub open spec fn queued(self, body: Command) -> SenderView {
        let cmd_seq = next_seq(self.cmd_seq);
        SenderView {
            cmd_seq,
            pending: Some(CommandFrame { cmd_seq, body }),
            last_sent_us: None,
            ..self
        }
    }

    /// What a poll puts on the wire.
    pub open spec fn sends(self, now_us: u64) -> Option<CommandFrame> {
        if self.due(now_us) {
            self.pending
        } else {
            None
        }
    }

    /// The sender after a poll.
    pub open spec fn polled(self, now_us: u64) -> SenderView {
        SenderView {
            last_sent_us: if self.due(now_us) {
                Some(now_us)
            } else {
                self.last_sent_us
            },
            ..self
        }
    }

    /// The sender after an echo.
    pub open spec fn echoed(self, last_cmd_seq: u16) -> SenderView {
        SenderView {
            pending: match self.pending {
                Some(f) => if f.cmd_seq == last_cmd_seq {
                    None
                } else {
                    Some(f)
                },
                None => None,
            },
            ..self
        }
    }
}

impl CommandSender {
    pub fn new(interval_us: u64) -> (s: Self)
        ensures
            s@ == (SenderView { cmd_seq: 0, pending: None, interval_us, last_sent_us: None }),
            s@.wf(),
    {
        CommandSender { cmd_seq: 0, pending: None, interval_us, last_sent_us: None }
    }

    /// Queue `body` as the command to send, replacing any command still
    /// unacknowledged. Always assigns a fresh number, even if `body` repeats
    /// the pending one, so that a repeated request restarts the clock.
    pub fn set(&mut self, body: Command)
        ensures
            final(self)@ == old(self)@.queued(body),
            final(self)@.wf(),
    {
        self.cmd_seq = if self.cmd_seq == 0xffff {
            1
        } else {
            self.cmd_seq + 1
        };
        self.pending = Some(CommandFrame { cmd_seq: self.cmd_seq, body });
        self.last_sent_us = None;
    }

    /// The frame to put on the wire now, if one is due: it was never sent, or
    /// the retransmit interval has elapsed.
    pub fn poll(&mut self, now_us: u64) -> (r: Option<CommandFrame>)
        ensures
            r == old(self)@.sends(now_us),
            final(self)@ == old(self)@.polled(now_us),
            old(self)@.wf() ==> final(self)@.wf(),
    {
        match self.pending {
            None => None,
            Some(frame) => {
                let due: bool = match self.last_sent_us {
                    None => true,
                    Some(t) => now_us.saturating_sub(t) >= self.interval_us,
                };
                if due {
                    self.last_sent_us = Some(now_us);
                    Some(frame)
                } else {
                    None
                }
            },
        }
    }

    /// Feed the echoed sequence number of a telemetry frame. Clears the pending
    /// command once it matches, which is what stops the retransmits.
    pub fn on_telemetry(&mut self, last_cmd_seq: u16)
        ensures
            final(self)@ == old(self)@.echoed(last_cmd_seq),
            old(self)@.wf() ==> final(self)@.wf(),
    {
        if let Some(frame) = self.pending {
            if frame.cmd_seq == last_cmd_seq {
                self.pending = None;
            }
        }
    }

    /// True once the pending command (if any) has been acknowledged.
    pub fn is_acked(&self) -> (r: bool)
        ensures
            r == (self@.pending is None),
    {
        self.pending.is_none()
    }

    /// The number of the most recently queued command.
    pub fn cmd_seq(&self) -> (n: u16)
        ensures
            n == self@.cmd_seq,
    {
        self.cmd_seq
    }
}

impl Default for CommandSender {
    fn default() -> (s: Self)
        ensures
            s@ == (SenderView {
                cmd_seq: 0,
                pending: None,
                interval_us: DEFAULT_RETRANSMIT_INTERVAL,
                last_sent_us: None,
            }),
    {
        CommandSender::new(DEFAULT_RETRANSMIT_INTERVAL)
    }
}

/// Rover side: applies whichever frame is newest and ignores the rest.
///
/// Zero is never a number that [`CommandSender`] sends, so the very first real
/// command, whatever its number turns out to be, gets applied.
#[derive(Debug)]
pub struct CommandReceiver {
    last_applied: Option<u16>,
}

/// The number of the last command that was applied, if any was.
impl View for CommandReceiver {
    type V = Option<u16>;

    closed spec fn view(&self) -> Option<u16> {
        self.last_applied
    }
}

impl CommandReceiver {
    pub fn new() -> (r: Self)
        ensures
            r@ == None::<u16>,
    {
        CommandReceiver { last_applied: None }
    }

    /// Apply `frame` if it is the first real command or newer than the last one
    /// applied. Returns the command when applied, `None` for a stale or
    /// duplicate frame.
    pub fn apply(&mut self, frame: CommandFrame) -> (r: Option<Command>)
        ensures
            r == obeyed(old(self)@, frame),
            final(self)@ == applied(old(self)@, frame.cmd_seq),
    {
        let takes: bool = match self.last_applied {
            None => frame.cmd_seq != 0,
            Some(last) => frame.is_newer_than(last),
        };
        if takes {
            self.last_applied = Some(frame.cmd_seq);
            Some(frame.body)
        } else {
            None
        }
    }

    /// The sequence number to echo back in the telemetry: zero while nothing
    /// has been applied.
    pub fn last_applied(&self) -> (n: u16)
        ensures
            n == echo_of(self@),
    {
        match self.last_applied {
            None => 0,
            Some(n) => n,
        }
    }
}

impl Default for CommandReceiver {
    fn default() -> (r: Self)
        ensures
            r@ == None::<u16>,
    {
        CommandReceiver::new()
    }
}

/// Whether a receiver that applied `last`, if anything, applies a frame with
/// number `seq`.
pub open spec fn accepts(last: Option<u16>, seq: u16) -> bool {
    match last {
        None => seq != 0,
        Some(n) => mission::newer(seq, n),
    }
}

/// The command that a receiver that applied `last`, if anything, takes from a
/// frame.
pub open spec fn obeyed(last: Option<u16>, frame: CommandFrame) -> Option<Command> {
    if accepts(last, frame.cmd_seq) {
        Some(frame.body)
    } else {
        None
    }
}

/// What a receiver that applied `last` has applied once a frame with number
/// `seq` was offered to it.
pub open spec fn applied(last: Option<u16>, seq: u16) -> Option<u16> {
    if accepts(last, seq) {
        Some(seq)
    } else {
        last
    }
}

/// The number that a receiver echoes.
pub open spec fn echo_of(last: Option<u16>) -> u16 {
    match last {
        None => 0,
        Some(n) => n,
    }
}

/// A sender never numbers a command zero, however long it runs.
pub proof fn law_sender_skips_zero(n: u16)
    ensures
        next_seq(n) != 0,
        n != 0xffff ==> next_seq(n) == n + 1,
{
}

/// Repeats are harmless: a frame offered again right after it was applied is
/// not applied a second time.
pub proof fn law_receiver_is_idempotent(last: Option<u16>, seq: u16)
    ensures
        applied(applied(last, seq), seq) == applied(last, seq),
        !accepts(applied(last, seq), seq),
{
}

/// The command after the one that was last applied is applied, across the
/// wraparound.
pub proof fn law_next_command_is_applied(last: u16)
    ensures
        accepts(Some(last), next_seq(last)),
{
}

/// A receiver that has applied nothing yet applies the first command that
/// reaches it, whatever its number is: a rover that restarts misses no command
/// of a base that has been counting on.
pub proof fn law_first_command_is_applied(seq: u16)
    requires
        seq != 0,
    ensures
        accepts(None, seq),
        echo_of(applied(None, seq)) == seq,
{
}

/// What can happen between a sender and a receiver while a command is pending.
pub enum Hop {
    /// The sender is polled; what it sends may be lost.
    Poll { now_us: u64, arrives: bool },
    /// A copy of a frame that was sent earlier arrives late.
    Repeat,
    /// The receiver's telemetry goes out; it may be lost.
    Echo { arrives: bool },
}

/// Both ends of the protocol, with what has happened to the command so far.
pub struct Session {
    pub sender: SenderView,
    /// What the receiver applied last, if anything.
    pub last: Option<u16>,
    /// Whether the command was ever sent.
    pub sent: bool,
    /// How often the receiver has applied it.
    pub times: nat,
}

impl Session {
    /// The session once the frame has arrived.
    pub open spec fn offered(self, frame: CommandFrame) -> Session {
        Session {
            last: applied(self.last, frame.cmd_seq),
            times: self.times + if accepts(self.last, frame.cmd_seq) {
                1nat
            } else {
                0nat
            },
            ..self
        }
    }

    /// The session one hop later; `frame` is the command that it is about.
    pub open spec fn hopped(self, frame: CommandFrame, hop: Hop) -> Session {
        match hop {
            Hop::Poll { now_us, arrives } => {
                let polled = Session {
                    sender: self.sender.polled(now_us),
                    sent: self.sent || self.sender.due(now_us),
                    ..self
                };
                if self.sender.due(now_us) && arrives {
                    polled.offered(frame)
                } else {
                    polled
                }
            },
            Hop::Repeat => if self.sent {
                self.offered(frame)
            } else {
                self
            },
            Hop::Echo { arrives } => if arrives {
                Session { sender: self.sender.echoed(echo_of(self.last)), ..self }
            } else {
                self
            },
        }
    }

    /// The session after a run of hops.
    pub open spec fn after(self, frame: CommandFrame, hops: Seq<Hop>) -> Session
        decreases hops.len(),
    {
        if hops.len() == 0 {
            self
        } else {
            self.after(frame, hops.drop_last()).hopped(frame, hops.last())
        }
    }

    /// The session of a command that was just queued, and that is new to the
    /// receiver.
    pub open spec fn fresh(self, frame: CommandFrame) -> bool {
        &&& self.sender.pending == Some(frame)
        &&& self.sender.last_sent_us is None
        &&& self.sender.wf()
        &&& accepts(self.last, frame.cmd_seq)
        &&& !self.sent
        &&& self.times == 0
    }
}

/// The handshake holds over any number of losses, repeats and delays: the
/// command is applied at most once, an acknowledged command has been applied,
/// and as long as it is not acknowledged it stays pending.
pub proof fn law_handshake_is_safe(s: Session, frame: CommandFrame, hops: Seq<Hop>)
    requires
        s.fresh(frame),
    ensures
        ({
            let e = s.after(frame, hops);
            &&& e.times <= 1
            &&& e.last == (if e.times == 1 {
                Some(frame.cmd_seq)
            } else {
                s.last
            })
            &&& e.sender.pending is None ==> e.times == 1
            &&& e.sender.pending is Some ==> e.sender.pending == Some(frame)
            &&& e.times == 1 ==> e.sent
            &&& e.sender.interval_us == s.sender.interval_us
        }),
    decreases hops.len(),
{
    if hops.len() > 0 {
        law_handshake_is_safe(s, frame, hops.drop_last());
    }
}

/// The handshake gets done: however much was lost, once one transmission
/// arrives and one echo arrives behind it, the command is applied and
/// acknowledged, and nothing is sent any more. The first transmission is due at
/// once, and a lost one again after the interval.
pub proof fn law_handshake_completes(
    s: Session,
    frame: CommandFrame,
    hops: Seq<Hop>,
    now_us: u64,
    later_us: u64,
)
    requires
        s.fresh(frame),
    ensures
        s.sender.due(now_us),
        ({
            let e = s.after(frame, hops);
            let sent = e.hopped(frame, Hop::Poll { now_us, arrives: true });
            let done = sent.hopped(frame, Hop::Echo { arrives: true });
            &&& e.sender.due(now_us) ==> done.times == 1 && done.sender.pending is None
                && !done.sender.due(later_us)
            &&& e.sender.pending is Some && e.sender.last_sent_us == Some(now_us) && later_us
                >= now_us && later_us - now_us >= s.sender.interval_us ==> e.sender.due(later_us)
        }),
{
    law_handshake_is_safe(s, frame, hops);
}

/// A queued command replaces the one before it: it is the one that is sent, at
/// once, under the number after the last, and the interval stays.
pub proof fn law_queueing(s: SenderView, body: Command, now_us: u64)
    ensures
        s.queued(body).sends(now_us) matches Some(f) && f.body == body && f.cmd_seq == s.queued(
            body,
        ).cmd_seq,
        s.cmd_seq < 0xffff ==> s.queued(body).cmd_seq == s.cmd_seq + 1,
        s.cmd_seq == 0xffff ==> s.queued(body).cmd_seq == 1,
        s.queued(body).interval_us == s.interval_us,
{
}

/// A command that was sent is not sent again before the interval has passed,
/// and then is, the same as before; a clock that runs backwards counts as no
/// time. Without a command nothing is sent. The interval is a second unless it
/// is set.
pub proof fn law_retransmissions_keep_their_pace(s: SenderView, now_us: u64, later_us: u64)
    requires
        s.interval_us > 0,
    ensures
        s.pending is None ==> s.sends(now_us) is None && s.polled(now_us) == s,
        s.sends(now_us) is None ==> s.polled(now_us) == s,
        s.sends(now_us) matches Some(f) ==> {
            let after = s.polled(now_us);
            &&& s.pending == Some(f)
            &&& after.pending == Some(f) && after.cmd_seq == s.cmd_seq && after.interval_us
                == s.interval_us
            &&& later_us - now_us < s.interval_us ==> after.sends(later_us) is None
            &&& later_us - now_us >= s.interval_us ==> after.sends(later_us) == Some(f)
        },
        DEFAULT_RETRANSMIT_INTERVAL == 1_000_000,
{
}

/// An echo acknowledges the command that has its number, and no other; it
/// changes nothing else.
pub proof fn law_echoes_acknowledge(s: SenderView, n: u16)
    ensures
        s.pending matches Some(f) ==> (s.echoed(n).pending is None <==> n == f.cmd_seq),
        s.echoed(n).pending is Some ==> s.echoed(n).pending == s.pending,
        s.echoed(n).cmd_seq == s.cmd_seq,
        s.echoed(n).interval_us == s.interval_us,
        s.echoed(n).last_sent_us == s.last_sent_us,
{
}

/// A receiver obeys a frame whose number is ahead of the last one, by less than
/// half of the numbers, and no other; what it obeys is what the frame says, and
/// the number is then the one that it echoes.
pub proof fn law_receiver_obeys_what_is_ahead(last: u16, frame: CommandFrame)
    ensures
        obeyed(Some(last), frame) is Some <==> 1 <= (frame.cmd_seq - last) % 0x1_0000 < 0x8000,
        obeyed(None, frame) is Some <==> frame.cmd_seq != 0,
        obeyed(Some(last), frame) matches Some(body) ==> body == frame.body && echo_of(
            applied(Some(last), frame.cmd_seq),
        ) == frame.cmd_seq,
        obeyed(None, frame) matches Some(body) ==> body == frame.body && echo_of(
            applied(None, frame.cmd_seq),
        ) == frame.cmd_seq,
        obeyed(Some(last), frame) is None ==> echo_of(applied(Some(last), frame.cmd_seq)) == last,
        obeyed(None, frame) is None ==> echo_of(applied(None, frame.cmd_seq)) == 0,
{
}

} // verus!
