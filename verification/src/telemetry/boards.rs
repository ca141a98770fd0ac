//! What the boards' own reports add to the health of the rover.

use crate::msgs::debug::BoardDiagnostics;
use crate::msgs::flags::HealthBits;
use crate::msgs::kinds::BoardId;
use crate::telemetry::health;
use vstd::prelude::*;

verus! {

/// What the boards have said of themselves. A failed self-test and a reset are
/// remembered for the whole run: neither heals, and a reset is over by the time
/// anyone reads of it.
pub struct BoardHealth {
    pub post_failed: bool,
    pub was_reset: bool,
    /// The latest report of the chassis board.
    pub chassis: Option<BoardDiagnostics>,
    /// The latest report of the sensors board.
    pub sensors: Option<BoardDiagnostics>,
}

/// A link that is known to run below 100 Mbit/s full duplex, or one with symbol
/// errors. A speed of zero is one that the board could not read, and no fault.
pub open spec fn weak_link(d: BoardDiagnostics) -> bool {
    (d.link_speed_mbps != 0 && (d.link_speed_mbps != 100 || !d.link_full_duplex))
        || d.phy_symbol_errors > 0
}

fn has_weak_link(d: &BoardDiagnostics) -> (r: bool)
    ensures
        r == weak_link(*d),
{
    (d.link_speed_mbps != 0 && (d.link_speed_mbps != 100 || !d.link_full_duplex))
        || d.phy_symbol_errors > 0
}

impl BoardHealth {
    pub fn new() -> (b: Self)
        ensures
            b == (BoardHealth { post_failed: false, was_reset: false, chassis: None, sensors: None }),
    {
        BoardHealth { post_failed: false, was_reset: false, chassis: None, sensors: None }
    }

    /// The latest report of a board.
    pub open spec fn latest(self, board: BoardId) -> Option<BoardDiagnostics> {
        match board {
            BoardId::Chassis => self.chassis,
            BoardId::Sensors => self.sensors,
        }
    }

    /// Whether a report tells of a reset: its cause is abnormal, or the board
    /// has been up for less time than it had been at its report before.
    pub open spec fn tells_reset(self, d: BoardDiagnostics) -> bool {
        d.reset_cause.abnormal() || match self.latest(d.board) {
            Some(prev) => d.uptime_s < prev.uptime_s,
            None => false,
        }
    }

    /// What is known once a report has come in.
    pub open spec fn noted(self, d: BoardDiagnostics) -> BoardHealth {
        BoardHealth {
            post_failed: self.post_failed || d.failed_checks().0 != 0,
            was_reset: self.was_reset || self.tells_reset(d),
            chassis: if d.board is Chassis {
                Some(d)
            } else {
                self.chassis
            },
            sensors: if d.board is Sensors {
                Some(d)
            } else {
                self.sensors
            },
        }
    }

    /// Note one report.
    pub fn on_diagnostics(&mut self, d: &BoardDiagnostics)
        ensures
            *final(self) == old(self).noted(*d),
    {
        if !d.post_ok() {
            self.post_failed = true;
        }
        let before = match d.board {
            BoardId::Chassis => self.chassis,
            BoardId::Sensors => self.sensors,
        };
        let fell: bool = match before {
            Some(prev) => d.uptime_s < prev.uptime_s,
            None => false,
        };
        if d.reset_cause.is_abnormal() || fell {
            self.was_reset = true;
        }
        match d.board {
            BoardId::Chassis => {
                self.chassis = Some(*d);
            },
            BoardId::Sensors => {
                self.sensors = Some(*d);
            },
        }
    }

    /// Whether the link of a board is weak, as far as the boards have said.
    pub open spec fn degraded(self) -> bool {
        (self.chassis matches Some(d) && weak_link(d)) || (self.sensors matches Some(d) && weak_link(
            d,
        ))
    }

    /// The health flags that the boards' reports set.
    pub open spec fn flags(self) -> HealthBits {
        HealthBits(
            health::flag(self.post_failed, HealthBits::BOARD_POST_FAIL) | health::flag(
                self.was_reset,
                HealthBits::BOARD_RESET,
            ) | health::flag(self.degraded(), HealthBits::LINK_DEGRADED),
        )
    }

    pub fn health(&self) -> (h: HealthBits)
        ensures
            h == self.flags(),
    {
        let chassis_weak: bool = match &self.chassis {
            Some(d) => has_weak_link(d),
            None => false,
        };
        let sensors_weak: bool = match &self.sensors {
            Some(d) => has_weak_link(d),
            None => false,
        };
        HealthBits(
            health::flag_if(self.post_failed, HealthBits::BOARD_POST_FAIL) | health::flag_if(
                self.was_reset,
                HealthBits::BOARD_RESET,
            ) | health::flag_if(chassis_weak || sensors_weak, HealthBits::LINK_DEGRADED),
        )
    }

    /// What is known once several reports have come in, the first one first.
    pub open spec fn after(self, reports: Seq<BoardDiagnostics>) -> BoardHealth
        decreases reports.len(),
    {
        if reports.len() == 0 {
            self
        } else {
            self.after(reports.drop_last()).noted(reports.last())
        }
    }
}

/// A failed self-test is remembered for the run: it is known exactly if one of
/// the reports so far told of one.
pub proof fn law_failed_self_tests_are_latched(b: BoardHealth, reports: Seq<BoardDiagnostics>)
    ensures
        b.after(reports).post_failed == (b.post_failed || exists|i: int|
            0 <= i < reports.len() && (#[trigger] reports[i]).failed_checks().0 != 0),
    decreases reports.len(),
{
    if reports.len() > 0 {
        let front = reports.drop_last();
        law_failed_self_tests_are_latched(b, front);
        assert(forall|i: int| 0 <= i < front.len() ==> #[trigger] front[i] == reports[i]);
        if b.after(front).post_failed && !b.post_failed {
            let i = choose|i: int|
                0 <= i < front.len() && (#[trigger] front[i]).failed_checks().0 != 0;
            assert(reports[i].failed_checks().0 != 0);
        }
        if exists|i: int| 0 <= i < reports.len() && (#[trigger] reports[i]).failed_checks().0 != 0 {
            let i = choose|i: int|
                0 <= i < reports.len() && (#[trigger] reports[i]).failed_checks().0 != 0;
            if i < front.len() {
                assert(front[i].failed_checks().0 != 0);
            }
        }
        if reports.last().failed_checks().0 != 0 {
            assert(reports[reports.len() - 1].failed_checks().0 != 0);
        }
    }
}

/// A reset is remembered for the run: whatever comes in later, it stays known.
pub proof fn law_resets_are_latched(
    b: BoardHealth,
    reports: Seq<BoardDiagnostics>,
    later: Seq<BoardDiagnostics>,
)
    ensures
        b.after(reports).was_reset ==> b.after(reports + later).was_reset,
    decreases later.len(),
{
    if later.len() == 0 {
        assert(reports + later =~= reports);
    } else {
        law_resets_are_latched(b, reports, later.drop_last());
        assert((reports + later).drop_last() =~= reports + later.drop_last());
    }
}

proof fn lemma_uptime_or_reset(b: BoardHealth, reports: Seq<BoardDiagnostics>, i: int)
    requires
        0 <= i < reports.len(),
    ensures
        b.after(reports).was_reset || (b.after(reports).latest(reports[i].board) matches Some(d)
            && d.uptime_s >= reports[i].uptime_s),
    decreases reports.len(),
{
    if i < reports.len() - 1 {
        lemma_uptime_or_reset(b, reports.drop_last(), i);
    }
}

/// A reboot is noticed: if a board reports an abnormal cause, or ever less time
/// up than in any earlier report of its own, a reset is known.
pub proof fn law_reboots_are_noticed(
    b: BoardHealth,
    reports: Seq<BoardDiagnostics>,
    i: int,
    j: int,
)
    requires
        0 <= i <= j < reports.len(),
    ensures
        reports[j].reset_cause.abnormal() ==> b.after(reports).was_reset,
        reports[i].board == reports[j].board && reports[j].uptime_s < reports[i].uptime_s
            ==> b.after(reports).was_reset,
    decreases reports.len(),
{
    if j < reports.len() - 1 {
        law_reboots_are_noticed(b, reports.drop_last(), i, j);
    } else if i < j {
        lemma_uptime_or_reset(b, reports.drop_last(), i);
    }
}

/// A report is kept for the board that it came from, and for no other.
pub proof fn law_reports_are_kept_apart(b: BoardHealth, d: BoardDiagnostics, board: BoardId)
    ensures
        b.noted(d).latest(d.board) == Some(d),
        board != d.board ==> b.noted(d).latest(board) == b.latest(board),
        d.failed_checks().0 == 0 ==> b.noted(d).post_failed == b.post_failed,
        b.noted(d).was_reset && !b.was_reset ==> d.reset_cause.abnormal() || (b.latest(d.board)
            matches Some(prev) && d.uptime_s < prev.uptime_s),
{
}

/// A link is good at full speed and full duplex without symbol errors; one whose
/// speed is not known is judged by its errors alone. One weak link is enough.
pub proof fn law_weak_links(b: BoardHealth, d: BoardDiagnostics)
    ensures
        d.phy_symbol_errors > 0 ==> weak_link(d),
        d.link_speed_mbps == 0 && d.phy_symbol_errors == 0 ==> !weak_link(d),
        d.link_speed_mbps == 100 && d.phy_symbol_errors == 0 ==> (weak_link(d)
            <==> !d.link_full_duplex),
        d.link_speed_mbps != 0 && d.link_speed_mbps != 100 ==> weak_link(d),
        weak_link(d) ==> b.noted(d).degraded(),
        b.degraded() <==> {
            ||| (b.latest(BoardId::Chassis) matches Some(e) && weak_link(e))
            ||| (b.latest(BoardId::Sensors) matches Some(e) && weak_link(e))
        },
{
}

} // verus!
