//! The dashboard, line by line. Fractions come as texts.

use crate::msgs::flags::HealthBits;
use crate::msgs::gnss::GnssFix;
use crate::msgs::mission::MissionStatus;
use crate::station::link::LinkStatus;
use crate::text;
use vstd::prelude::*;

verus! {

/// Shown with every redraw, and again right after an emergency stop is sent.
pub const ESTOP_DISCLAIMER: &'static str =
    "E-STOP is BEST-EFFORT over the network, not a safety guarantee. The guaranteed stop is the onboard firmware command watchdog (200 ms timeout + 300 ms ramp-to-zero) -- it needs no packet from here to fire.";

/// The line on the link. Never having heard anything reads differently from
/// having heard nothing for long.
pub open spec fn link_line(status: LinkStatus) -> Seq<char> {
    match status {
        LinkStatus::Live { age_ms } => "Link:     UP   (last telemetry "@ + text::dec(
            age_ms as nat,
        ) + " ms ago)"@,
        LinkStatus::Lost { age_ms } => if age_ms == u64::MAX {
            "Link:     DOWN (no telemetry received yet)"@
        } else {
            "Link:     DOWN (no telemetry for "@ + text::dec(age_ms as nat)
                + " ms) -- rover continues its mission autonomously; this link is observability + optional override only"@
        },
    }
}

pub fn format_link_line(status: LinkStatus) -> (s: String)
    ensures
        s@ == link_line(status),
{
    match status {
        LinkStatus::Live { age_ms } => {
            let mut s = text::owned("Link:     UP   (last telemetry ");
            text::push_dec(&mut s, age_ms);
            text::push_str(&mut s, " ms ago)");
            s
        },
        LinkStatus::Lost { age_ms } => if age_ms == u64::MAX {
            text::owned("Link:     DOWN (no telemetry received yet)")
        } else {
            let mut s = text::owned("Link:     DOWN (no telemetry for ");
            text::push_dec(&mut s, age_ms);
            text::push_str(
                &mut s,
                " ms) -- rover continues its mission autonomously; this link is observability + optional override only",
            );
            s
        },
    }
}

/// The fractions of a fix.
pub struct PositionTexts {
    pub lat: String,
    pub lon: String,
    pub alt: String,
    pub h_acc: String,
}

/// The line on a fix.
pub open spec fn position_line(fix: GnssFix, shown: PositionTexts) -> Seq<char> {
    "Position: "@ + shown.lat@ + ", "@ + shown.lon@ + "  alt="@ + shown.alt@ + " m  fix="@
        + fix.fix.label()@ + "  sats="@ + text::dec(fix.sats as nat) + "  h_acc="@ + shown.h_acc@
        + " m"@
}

pub fn format_position_line(fix: &GnssFix, shown: &PositionTexts) -> (s: String)
    ensures
        s@ == position_line(*fix, *shown),
{
    let mut s = text::owned("Position: ");
    text::push_str(&mut s, shown.lat.as_str());
    text::push_str(&mut s, ", ");
    text::push_str(&mut s, shown.lon.as_str());
    text::push_str(&mut s, "  alt=");
    text::push_str(&mut s, shown.alt.as_str());
    text::push_str(&mut s, " m  fix=");
    text::push_str(&mut s, fix.fix.name());
    text::push_str(&mut s, "  sats=");
    text::push_dec(&mut s, fix.sats as u64);
    text::push_str(&mut s, "  h_acc=");
    text::push_str(&mut s, shown.h_acc.as_str());
    text::push_str(&mut s, " m");
    s
}

/// The line on the speed.
pub open spec fn speed_line(speed: Seq<char>) -> Seq<char> {
    "Speed:    "@ + speed + " m/s"@
}

/// The line on the speed.
pub fn format_speed_line(speed: &str) -> (s: String)
    ensures
        s@ == speed_line(speed@),
{
    let mut s = text::owned("Speed:    ");
    text::push_str(&mut s, speed);
    text::push_str(&mut s, " m/s");
    s
}

/// The fractions of a mission's progress; the coordinates count only where
/// there is a goal.
pub struct MissionTexts {
    pub distance: String,
    pub lat: String,
    pub lon: String,
}

/// The line on the mission.
pub open spec fn mission_line(m: MissionStatus, shown: MissionTexts) -> Seq<char> {
    "Mission:  "@ + m.state.label()@ + "  active="@ + text::bool_text(m.active)@
        + "  distance_remaining="@ + shown.distance@ + " m  target=("@ + (if m.target is Some {
        shown.lat@ + ", "@ + shown.lon@
    } else {
        "none"@
    }) + ")"@
}

pub fn format_mission_line(mission: &MissionStatus, shown: &MissionTexts) -> (s: String)
    ensures
        s@ == mission_line(*mission, *shown),
{
    let mut s = text::owned("Mission:  ");
    text::push_str(&mut s, mission.state.name());
    text::push_str(&mut s, "  active=");
    text::push_bool(&mut s, mission.active);
    text::push_str(&mut s, "  distance_remaining=");
    text::push_str(&mut s, shown.distance.as_str());
    text::push_str(&mut s, " m  target=(");
    match mission.target {
        Some(_) => {
            let mut t = text::owned(shown.lat.as_str());
            text::push_str(&mut t, ", ");
            text::push_str(&mut t, shown.lon.as_str());
            text::push_str(&mut s, t.as_str());
        },
        None => {
            text::push_str(&mut s, "none");
        },
    }
    text::push_str(&mut s, ")");
    s
}

/// Volts, amperes and watts, as texts.
pub struct PowerTexts {
    pub volts: String,
    pub amps: String,
    pub watts: String,
}

/// The line on the power.
pub open spec fn power_line(shown: PowerTexts) -> Seq<char> {
    "Power:    "@ + shown.volts@ + " V  "@ + shown.amps@ + " A  "@ + shown.watts@ + " W"@
}

pub fn format_power_line(shown: &PowerTexts) -> (s: String)
    ensures
        s@ == power_line(*shown),
{
    let mut s = text::owned("Power:    ");
    text::push_str(&mut s, shown.volts.as_str());
    text::push_str(&mut s, " V  ");
    text::push_str(&mut s, shown.amps.as_str());
    text::push_str(&mut s, " A  ");
    text::push_str(&mut s, shown.watts.as_str());
    text::push_str(&mut s, " W");
    s
}

/// The label of a flag, where it is set.
pub open spec fn flag_label(health: HealthBits, bit: u16, label: &'static str) -> Seq<Seq<char>> {
    text::only_if(health.has(HealthBits(bit)), label@)
}

/// The labels of every flag that is set, lowest bit first.
pub open spec fn flag_labels(health: HealthBits) -> Seq<Seq<char>> {
    flag_label(health, HealthBits::CHASSIS_STALE, "CHASSIS_STALE") + flag_label(
        health,
        HealthBits::SENSORS_STALE,
        "SENSORS_STALE",
    ) + flag_label(health, HealthBits::LANE_STALE, "LANE_STALE") + flag_label(
        health,
        HealthBits::RTK_STALE,
        "RTK_STALE",
    ) + flag_label(health, HealthBits::BACKUP_GNSS_STALE, "BACKUP_GNSS_STALE") + flag_label(
        health,
        HealthBits::WATCHDOG_TRIPPED,
        "WATCHDOG_TRIPPED",
    ) + flag_label(health, HealthBits::STALL_DETECTED, "STALL_DETECTED") + flag_label(
        health,
        HealthBits::ESTIMATOR_DIVERGED,
        "ESTIMATOR_DIVERGED",
    ) + flag_label(health, HealthBits::BOARD_POST_FAIL, "BOARD_POST_FAIL") + flag_label(
        health,
        HealthBits::BOARD_RESET,
        "BOARD_RESET",
    ) + flag_label(health, HealthBits::LINK_DEGRADED, "LINK_DEGRADED")
}

/// The line on the health.
pub open spec fn health_line(health: HealthBits) -> Seq<char> {
    if flag_labels(health).len() == 0 {
        "Health:   OK"@
    } else {
        "Health:   "@ + text::joined(flag_labels(health), ", "@)
    }
}

fn push_flag(parts: &mut Vec<String>, health: HealthBits, bit: u16, label: &'static str)
    ensures
        text::texts(final(parts)@) == text::texts(old(parts)@) + flag_label(health, bit, label),
{
    text::push_if(parts, health.contains(HealthBits(bit)), text::owned(label));
}

pub fn format_health_line(health: HealthBits) -> (s: String)
    ensures
        s@ == health_line(health),
{
    let mut flags: Vec<String> = Vec::new();
    push_flag(&mut flags, health, HealthBits::CHASSIS_STALE, "CHASSIS_STALE");
    push_flag(&mut flags, health, HealthBits::SENSORS_STALE, "SENSORS_STALE");
    push_flag(&mut flags, health, HealthBits::LANE_STALE, "LANE_STALE");
    push_flag(&mut flags, health, HealthBits::RTK_STALE, "RTK_STALE");
    push_flag(&mut flags, health, HealthBits::BACKUP_GNSS_STALE, "BACKUP_GNSS_STALE");
    push_flag(&mut flags, health, HealthBits::WATCHDOG_TRIPPED, "WATCHDOG_TRIPPED");
    push_flag(&mut flags, health, HealthBits::STALL_DETECTED, "STALL_DETECTED");
    push_flag(&mut flags, health, HealthBits::ESTIMATOR_DIVERGED, "ESTIMATOR_DIVERGED");
    push_flag(&mut flags, health, HealthBits::BOARD_POST_FAIL, "BOARD_POST_FAIL");
    push_flag(&mut flags, health, HealthBits::BOARD_RESET, "BOARD_RESET");
    push_flag(&mut flags, health, HealthBits::LINK_DEGRADED, "LINK_DEGRADED");
    assert(text::texts(flags@) =~= flag_labels(health));
    if flags.len() == 0 {
        text::owned("Health:   OK")
    } else {
        let mut s = text::owned("Health:   ");
        let list = text::join(&flags, ", ");
        text::push_str(&mut s, list.as_str());
        s
    }
}

/// The line on the command under way.
pub open spec fn command_line(pending_cmd_seq: Option<u16>, last_acked_cmd_seq: u16) -> Seq<char> {
    (match pending_cmd_seq {
        Some(seq) => "Command:  cmd_seq="@ + text::dec(seq as nat)
            + " pending ack (rover last echoed "@,
        None => "Command:  none pending (rover last echoed "@,
    }) + text::dec(last_acked_cmd_seq as nat) + ")"@
}

pub fn format_command_line(pending_cmd_seq: Option<u16>, last_acked_cmd_seq: u16) -> (s: String)
    ensures
        s@ == command_line(pending_cmd_seq, last_acked_cmd_seq),
{
    let mut s = match pending_cmd_seq {
        Some(seq) => {
            let mut t = text::owned("Command:  cmd_seq=");
            text::push_dec(&mut t, seq as u64);
            text::push_str(&mut t, " pending ack (rover last echoed ");
            t
        },
        None => text::owned("Command:  none pending (rover last echoed "),
    };
    text::push_dec(&mut s, last_acked_cmd_seq as u64);
    text::push_str(&mut s, ")");
    s
}

/// The fractions of a whole dashboard.
pub struct DashboardTexts {
    pub rtk: PositionTexts,
    pub backup: PositionTexts,
    pub speed: String,
    pub mission: MissionTexts,
    pub power: PowerTexts,
}

/// The whole dashboard: clear the screen, then one line after the other, the
/// disclaimer among them.
pub open spec fn dashboard(
    link: LinkStatus,
    rtk: GnssFix,
    backup: GnssFix,
    mission: MissionStatus,
    health: HealthBits,
    pending_cmd_seq: Option<u16>,
    last_acked_cmd_seq: u16,
    shown: DashboardTexts,
) -> Seq<char> {
    "\x1B[2J\x1B[H"@ + "=== Rover Ground Station ===\n"@ + link_line(link) + "\n"@
        + "-- RTK --\n"@ + position_line(rtk, shown.rtk) + "\n"@ + "-- Backup GNSS --\n"@
        + position_line(backup, shown.backup) + "\n"@ + speed_line(shown.speed@)
        + "\n"@ + mission_line(mission, shown.mission) + "\n"@ + power_line(shown.power) + "\n"@
        + health_line(health) + "\n"@ + command_line(pending_cmd_seq, last_acked_cmd_seq) + "\n"@
        + ESTOP_DISCLAIMER@ + "\n"@
        + "commands: estop | cancel | goal <lat> <lon> | speed <pct> | nop\n"@
}

fn push_line(out: &mut String, line: String)
    ensures
        final(out)@ == old(out)@ + line@ + "\n"@,
{
    text::push_str(out, line.as_str());
    text::push_str(out, "\n");
}

/// Redraw everything.
pub fn render_dashboard(
    link: LinkStatus,
    rtk: &GnssFix,
    backup: &GnssFix,
    mission: &MissionStatus,
    health: HealthBits,
    pending_cmd_seq: Option<u16>,
    last_acked_cmd_seq: u16,
    shown: &DashboardTexts,
) -> (s: String)
    ensures
        s@ == dashboard(
            link,
            *rtk,
            *backup,
            *mission,
            health,
            pending_cmd_seq,
            last_acked_cmd_seq,
            *shown,
        ),
{
    let mut out = text::owned("\x1B[2J\x1B[H");
    text::push_str(&mut out, "=== Rover Ground Station ===\n");
    push_line(&mut out, format_link_line(link));
    text::push_str(&mut out, "-- RTK --\n");
    push_line(&mut out, format_position_line(rtk, &shown.rtk));
    text::push_str(&mut out, "-- Backup GNSS --\n");
    push_line(&mut out, format_position_line(backup, &shown.backup));
    push_line(&mut out, format_speed_line(shown.speed.as_str()));
    push_line(&mut out, format_mission_line(mission, &shown.mission));
    push_line(&mut out, format_power_line(&shown.power));
    push_line(&mut out, format_health_line(health));
    push_line(&mut out, format_command_line(pending_cmd_seq, last_acked_cmd_seq));
    push_line(&mut out, text::owned(ESTOP_DISCLAIMER));
    text::push_str(&mut out, "commands: estop | cancel | goal <lat> <lon> | speed <pct> | nop\n");
    out
}

/// The health reads OK exactly when none of the flags is set.
pub proof fn law_ok_means_no_flag(health: HealthBits)
    ensures
        (flag_labels(health).len() == 0) == (!health.has(HealthBits(HealthBits::CHASSIS_STALE))
            && !health.has(HealthBits(HealthBits::SENSORS_STALE)) && !health.has(
            HealthBits(HealthBits::LANE_STALE),
        ) && !health.has(HealthBits(HealthBits::RTK_STALE)) && !health.has(
            HealthBits(HealthBits::BACKUP_GNSS_STALE),
        ) && !health.has(HealthBits(HealthBits::WATCHDOG_TRIPPED)) && !health.has(
            HealthBits(HealthBits::STALL_DETECTED),
        ) && !health.has(HealthBits(HealthBits::ESTIMATOR_DIVERGED)) && !health.has(
            HealthBits(HealthBits::BOARD_POST_FAIL),
        ) && !health.has(HealthBits(HealthBits::BOARD_RESET)) && !health.has(
            HealthBits(HealthBits::LINK_DEGRADED),
        )),
{
}

/// Whether a list holds a label.
#[verifier::opaque]
spec fn lists(list: Seq<Seq<char>>, label: Seq<char>) -> bool {
    list.contains(label)
}

proof fn lemma_listed(front: Seq<Seq<char>>, cond: bool, item: Seq<char>, label: Seq<char>)
    ensures
        lists(front + text::only_if(cond, item), label) <==> lists(front, label) || (cond && item
            == label),
{
    reveal(lists);
    let all = front + text::only_if(cond, item);
    if front.contains(label) {
        let i = choose|i: int| 0 <= i < front.len() && front[i] == label;
        assert(all[i] == label);
    }
    if cond {
        assert(all[front.len() as int] == item);
    }
    if all.contains(label) {
        let i = choose|i: int| 0 <= i < all.len() && all[i] == label;
        if i < front.len() {
            assert(front[i] == label);
        }
    }
}

proof fn lemma_first_listed(cond: bool, item: Seq<char>, label: Seq<char>)
    ensures
        lists(text::only_if(cond, item), label) <==> cond && item == label,
{
    reveal(lists);
    if cond {
        assert(text::only_if(cond, item)[0] == item);
    }
}

/// Which labels are shown: those of the flags that are set.
#[verifier::rlimit(40)]
proof fn lemma_labels(health: HealthBits, label: Seq<char>)
    ensures
        lists(flag_labels(health), label) <==> {
            ||| health.has(HealthBits(1)) && label == "CHASSIS_STALE"@
            ||| health.has(HealthBits(2)) && label == "SENSORS_STALE"@
            ||| health.has(HealthBits(4)) && label == "LANE_STALE"@
            ||| health.has(HealthBits(8)) && label == "RTK_STALE"@
            ||| health.has(HealthBits(16)) && label == "BACKUP_GNSS_STALE"@
            ||| health.has(HealthBits(32)) && label == "WATCHDOG_TRIPPED"@
            ||| health.has(HealthBits(64)) && label == "STALL_DETECTED"@
            ||| health.has(HealthBits(128)) && label == "ESTIMATOR_DIVERGED"@
            ||| health.has(HealthBits(256)) && label == "BOARD_POST_FAIL"@
            ||| health.has(HealthBits(512)) && label == "BOARD_RESET"@
            ||| health.has(HealthBits(1024)) && label == "LINK_DEGRADED"@
        },
{
    let s0 = flag_label(health, 1, "CHASSIS_STALE");
    let s1 = s0 + flag_label(health, 2, "SENSORS_STALE");
    let s2 = s1 + flag_label(health, 4, "LANE_STALE");
    let s3 = s2 + flag_label(health, 8, "RTK_STALE");
    let s4 = s3 + flag_label(health, 16, "BACKUP_GNSS_STALE");
    let s5 = s4 + flag_label(health, 32, "WATCHDOG_TRIPPED");
    let s6 = s5 + flag_label(health, 64, "STALL_DETECTED");
    let s7 = s6 + flag_label(health, 128, "ESTIMATOR_DIVERGED");
    let s8 = s7 + flag_label(health, 256, "BOARD_POST_FAIL");
    let s9 = s8 + flag_label(health, 512, "BOARD_RESET");
    let s10 = s9 + flag_label(health, 1024, "LINK_DEGRADED");
    lemma_first_listed(health.has(HealthBits(1)), "CHASSIS_STALE"@, label);
    lemma_listed(s0, health.has(HealthBits(2)), "SENSORS_STALE"@, label);
    lemma_listed(s1, health.has(HealthBits(4)), "LANE_STALE"@, label);
    lemma_listed(s2, health.has(HealthBits(8)), "RTK_STALE"@, label);
    lemma_listed(s3, health.has(HealthBits(16)), "BACKUP_GNSS_STALE"@, label);
    lemma_listed(s4, health.has(HealthBits(32)), "WATCHDOG_TRIPPED"@, label);
    lemma_listed(s5, health.has(HealthBits(64)), "STALL_DETECTED"@, label);
    lemma_listed(s6, health.has(HealthBits(128)), "ESTIMATOR_DIVERGED"@, label);
    lemma_listed(s7, health.has(HealthBits(256)), "BOARD_POST_FAIL"@, label);
    lemma_listed(s8, health.has(HealthBits(512)), "BOARD_RESET"@, label);
    lemma_listed(s9, health.has(HealthBits(1024)), "LINK_DEGRADED"@, label);
}

/// The name of a flag is shown exactly if the flag is set.
#[verifier::rlimit(40)]
pub proof fn law_flags_are_named(health: HealthBits)
    ensures
        flag_labels(health).contains("CHASSIS_STALE"@) <==> health.has(HealthBits(1)),
        flag_labels(health).contains("SENSORS_STALE"@) <==> health.has(HealthBits(2)),
        flag_labels(health).contains("LANE_STALE"@) <==> health.has(HealthBits(4)),
        flag_labels(health).contains("RTK_STALE"@) <==> health.has(HealthBits(8)),
        flag_labels(health).contains("BACKUP_GNSS_STALE"@) <==> health.has(HealthBits(16)),
        flag_labels(health).contains("WATCHDOG_TRIPPED"@) <==> health.has(HealthBits(32)),
        flag_labels(health).contains("STALL_DETECTED"@) <==> health.has(HealthBits(64)),
        flag_labels(health).contains("ESTIMATOR_DIVERGED"@) <==> health.has(HealthBits(128)),
        flag_labels(health).contains("BOARD_POST_FAIL"@) <==> health.has(HealthBits(256)),
        flag_labels(health).contains("BOARD_RESET"@) <==> health.has(HealthBits(512)),
        flag_labels(health).contains("LINK_DEGRADED"@) <==> health.has(HealthBits(1024)),
{
    reveal_strlit("CHASSIS_STALE");
    reveal_strlit("SENSORS_STALE");
    reveal_strlit("LANE_STALE");
    reveal_strlit("RTK_STALE");
    reveal_strlit("BACKUP_GNSS_STALE");
    reveal_strlit("WATCHDOG_TRIPPED");
    reveal_strlit("STALL_DETECTED");
    reveal_strlit("ESTIMATOR_DIVERGED");
    reveal_strlit("BOARD_POST_FAIL");
    reveal_strlit("BOARD_RESET");
    reveal_strlit("LINK_DEGRADED");
    assert("CHASSIS_STALE"@.len() == 13 && "SENSORS_STALE"@.len() == 13 && "LANE_STALE"@.len() == 10 && "RTK_STALE"@.len() == 9 && "BACKUP_GNSS_STALE"@.len() == 17 && "WATCHDOG_TRIPPED"@.len() == 16 && "STALL_DETECTED"@.len() == 14 && "ESTIMATOR_DIVERGED"@.len() == 18 && "BOARD_POST_FAIL"@.len() == 15 && "BOARD_RESET"@.len() == 11 && "LINK_DEGRADED"@.len() == 13);
    assert("CHASSIS_STALE"@[0] == 'C' && "SENSORS_STALE"@[0] == 'S' && "LINK_DEGRADED"@[0] == 'L');
    reveal(lists);
    lemma_labels(health, "CHASSIS_STALE"@);
    lemma_labels(health, "SENSORS_STALE"@);
    lemma_labels(health, "LANE_STALE"@);
    lemma_labels(health, "RTK_STALE"@);
    lemma_labels(health, "BACKUP_GNSS_STALE"@);
    lemma_labels(health, "WATCHDOG_TRIPPED"@);
    lemma_labels(health, "STALL_DETECTED"@);
    lemma_labels(health, "ESTIMATOR_DIVERGED"@);
    lemma_labels(health, "BOARD_POST_FAIL"@);
    lemma_labels(health, "BOARD_RESET"@);
    lemma_labels(health, "LINK_DEGRADED"@);
}

/// The line on a fix gives the latitude and then the longitude, and then what
/// else is known of it.
#[verifier::rlimit(40)]
pub proof fn law_position_line(fix: GnssFix, shown: PositionTexts)
    ensures
        ({
            let line = position_line(fix, shown);
            let (a, b, c) = (
                shown.lat@.len() as int,
                shown.lon@.len() as int,
                shown.alt@.len() as int,
            );
            let q = fix.fix.label()@.len() as int;
            let n = text::dec(fix.sats as nat).len() as int;
            &&& line.subrange(10, 10 + a) == shown.lat@
            &&& line.subrange(12 + a, 12 + a + b) == shown.lon@
            &&& line.subrange(18 + a + b, 18 + a + b + c) == shown.alt@
            &&& line.subrange(26 + a + b + c, 26 + a + b + c + q) == fix.fix.label()@
            &&& line.subrange(33 + a + b + c + q, 33 + a + b + c + q + n) == text::dec(
                fix.sats as nat,
            )
            &&& (shown.h_acc@ + " m"@).is_suffix_of(line)
        }),
{
    reveal_strlit("Position: ");
    reveal_strlit(", ");
    reveal_strlit("  alt=");
    reveal_strlit(" m  fix=");
    reveal_strlit("  sats=");
    let line = position_line(fix, shown);
    let (a, b, c) = (shown.lat@.len() as int, shown.lon@.len() as int, shown.alt@.len() as int);
    let q = fix.fix.label()@.len() as int;
    let n = text::dec(fix.sats as nat).len() as int;
    assert("Position: "@.len() == 10 && ", "@.len() == 2 && "  alt="@.len() == 6 && " m  fix="@.len()
        == 8 && "  sats="@.len() == 7);
    assert(line.subrange(10, 10 + a) =~= shown.lat@);
    assert(line.subrange(12 + a, 12 + a + b) =~= shown.lon@);
    assert(line.subrange(18 + a + b, 18 + a + b + c) =~= shown.alt@);
    assert(line.subrange(26 + a + b + c, 26 + a + b + c + q) =~= fix.fix.label()@);
    assert(line.subrange(33 + a + b + c + q, 33 + a + b + c + q + n) =~= text::dec(
        fix.sats as nat,
    ));
    let tail = shown.h_acc@ + " m"@;
    assert(line.subrange(line.len() - tail.len(), line.len() as int) =~= tail);
}

/// The line on the mission gives its state, whether it is active, the distance,
/// and the goal, latitude first, if there is one.
#[verifier::rlimit(40)]
pub proof fn law_mission_line(m: MissionStatus, shown: MissionTexts)
    ensures
        ({
            let line = mission_line(m, shown);
            let a = m.state.label()@.len() as int;
            let b = text::bool_text(m.active)@.len() as int;
            let c = shown.distance@.len() as int;
            &&& line.subrange(10, 10 + a) == m.state.label()@
            &&& line.subrange(19 + a, 19 + a + b) == text::bool_text(m.active)@
            &&& line.subrange(40 + a + b, 40 + a + b + c) == shown.distance@
            &&& m.target is Some ==> (shown.lat@ + ", "@ + shown.lon@ + ")"@).is_suffix_of(line)
            &&& m.target is None ==> line.subrange(52 + a + b + c, line.len() as int) == "none"@
                + ")"@
        }),
{
    reveal_strlit("Mission:  ");
    reveal_strlit("  active=");
    reveal_strlit("  distance_remaining=");
    reveal_strlit(" m  target=(");
    let line = mission_line(m, shown);
    let a = m.state.label()@.len() as int;
    let b = text::bool_text(m.active)@.len() as int;
    let c = shown.distance@.len() as int;
    assert("Mission:  "@.len() == 10 && "  active="@.len() == 9 && "  distance_remaining="@.len()
        == 21 && " m  target=("@.len() == 12);
    assert(line.subrange(10, 10 + a) =~= m.state.label()@);
    assert(line.subrange(19 + a, 19 + a + b) =~= text::bool_text(m.active)@);
    assert(line.subrange(40 + a + b, 40 + a + b + c) =~= shown.distance@);
    if m.target is Some {
        let tail = shown.lat@ + ", "@ + shown.lon@ + ")"@;
        assert(line.subrange(line.len() - tail.len(), line.len() as int) =~= tail);
    } else {
        assert(line.subrange(52 + a + b + c, line.len() as int) =~= "none"@ + ")"@);
    }
}

/// The line on the power gives volts, amperes and watts, each with its unit.
pub proof fn law_power_line(shown: PowerTexts)
    ensures
        ({
            let line = power_line(shown);
            let (a, b) = (shown.volts@.len() as int, shown.amps@.len() as int);
            &&& line.subrange(10, 10 + a) == shown.volts@
            &&& line[11 + a] == 'V'
            &&& line.subrange(14 + a, 14 + a + b) == shown.amps@
            &&& line[15 + a + b] == 'A'
            &&& (shown.watts@ + " W"@).is_suffix_of(line)
        }),
{
    reveal_strlit("Power:    ");
    reveal_strlit(" V  ");
    reveal_strlit(" A  ");
    let line = power_line(shown);
    let (a, b) = (shown.volts@.len() as int, shown.amps@.len() as int);
    assert("Power:    "@.len() == 10 && " V  "@.len() == 4 && " A  "@.len() == 4);
    assert(" V  "@[1] == 'V' && " A  "@[1] == 'A');
    assert(line.subrange(10, 10 + a) =~= shown.volts@);
    assert(line.subrange(14 + a, 14 + a + b) =~= shown.amps@);
    let tail = shown.watts@ + " W"@;
    assert(line.subrange(line.len() - tail.len(), line.len() as int) =~= tail);
}

/// The line on the command gives the number of a pending one, and what the rover
/// echoed last.
pub proof fn law_command_line(pending: Option<u16>, echoed: u16)
    ensures
        (text::dec(echoed as nat) + ")"@).is_suffix_of(command_line(pending, echoed)),
        pending matches Some(n) ==> command_line(pending, echoed).subrange(
            18,
            18 + text::dec(n as nat).len() as int,
        ) == text::dec(n as nat),
        pending is None ==> command_line(pending, echoed).subrange(10, 14) == "none"@,
{
    reveal_strlit("Command:  cmd_seq=");
    reveal_strlit("Command:  none pending (rover last echoed ");
    reveal_strlit("none");
    let line = command_line(pending, echoed);
    let tail = text::dec(echoed as nat) + ")"@;
    assert(line.subrange(line.len() - tail.len(), line.len() as int) =~= tail);
    if let Some(n) = pending {
        assert("Command:  cmd_seq="@.len() == 18);
        assert(line.subrange(18, 18 + text::dec(n as nat).len() as int) =~= text::dec(n as nat));
    } else {
        assert(line.subrange(10, 14) =~= "none"@);
    }
}

/// The line on the link says up of a live one and down of a lost one, with the
/// age where there is one.
#[verifier::rlimit(40)]
pub proof fn law_link_line(age_ms: u64)
    ensures
        ({
            let up = link_line(LinkStatus::Live { age_ms });
            let down = link_line(LinkStatus::Lost { age_ms });
            let n = text::dec(age_ms as nat).len() as int;
            &&& up.subrange(10, 12) == "UP"@
            &&& up.subrange(31, 31 + n) == text::dec(age_ms as nat)
            &&& down.subrange(10, 14) == "DOWN"@
            &&& age_ms < u64::MAX ==> down.subrange(33, 33 + n) == text::dec(age_ms as nat)
        }),
{
    reveal_strlit("UP");
    reveal_strlit("DOWN");
    reveal_strlit("Link:     UP   (last telemetry ");
    reveal_strlit("Link:     DOWN (no telemetry for ");
    reveal_strlit("Link:     DOWN (no telemetry received yet)");
    let up = link_line(LinkStatus::Live { age_ms });
    let down = link_line(LinkStatus::Lost { age_ms });
    let n = text::dec(age_ms as nat).len() as int;
    assert("Link:     UP   (last telemetry "@.len() == 31);
    assert("Link:     DOWN (no telemetry for "@.len() == 33);
    assert(up.subrange(10, 12) =~= "UP"@);
    assert(up.subrange(31, 31 + n) =~= text::dec(age_ms as nat));
    assert(down.subrange(10, 14) =~= "DOWN"@);
    if age_ms < u64::MAX {
        assert(down.subrange(33, 33 + n) =~= text::dec(age_ms as nat));
    }
}

/// The dashboard shows the link, the primary receiver's position, the backup's,
/// the speed, the mission, the power, the health and the command, from top to
/// bottom.
#[verifier::rlimit(40)]
pub proof fn law_dashboard(
    link: LinkStatus,
    rtk: GnssFix,
    backup: GnssFix,
    mission: MissionStatus,
    health: HealthBits,
    pending: Option<u16>,
    echoed: u16,
    shown: DashboardTexts,
)
    ensures
        ({
            let d = dashboard(link, rtk, backup, mission, health, pending, echoed, shown);
            let l = link_line(link);
            let r = position_line(rtk, shown.rtk);
            let b = position_line(backup, shown.backup);
            let v = speed_line(shown.speed@);
            let m = mission_line(mission, shown.mission);
            let at_rtk = 47 + l.len() as int;
            let at_backup = at_rtk + r.len() + 19;
            let at_speed = at_backup + b.len() + 1;
            let at_mission = at_speed + v.len() + 1;
            let p = power_line(shown.power);
            let h = health_line(health);
            let c = command_line(pending, echoed);
            let at_power = at_mission + m.len() + 1;
            let at_health = at_power + p.len() + 1;
            let at_command = at_health + h.len() + 1;
            &&& d.subrange(36, 36 + l.len() as int) == l
            &&& d.subrange(at_rtk, at_rtk + r.len()) == r
            &&& d.subrange(at_backup, at_backup + b.len()) == b
            &&& d.subrange(at_speed, at_speed + v.len()) == v
            &&& d.subrange(at_mission, at_mission + m.len()) == m
            &&& d.subrange(at_power, at_power + p.len()) == p
            &&& d.subrange(at_health, at_health + h.len()) == h
            &&& d.subrange(at_command, at_command + c.len()) == c
        }),
{
    reveal_strlit("\x1B[2J\x1B[H");
    reveal_strlit("=== Rover Ground Station ===\n");
    reveal_strlit("\n");
    reveal_strlit("-- RTK --\n");
    reveal_strlit("-- Backup GNSS --\n");
    assert("\x1B[2J\x1B[H"@.len() == 7 && "=== Rover Ground Station ===\n"@.len() == 29
        && "\n"@.len() == 1 && "-- RTK --\n"@.len() == 10 && "-- Backup GNSS --\n"@.len() == 18);
    let d = dashboard(link, rtk, backup, mission, health, pending, echoed, shown);
    let l = link_line(link);
    let r = position_line(rtk, shown.rtk);
    let b = position_line(backup, shown.backup);
    let v = speed_line(shown.speed@);
    let m = mission_line(mission, shown.mission);
    let p = power_line(shown.power);
    let h = health_line(health);
    let c = command_line(pending, echoed);
    let q0 = "\x1B[2J\x1B[H"@;
    let q1 = q0 + "=== Rover Ground Station ===\n"@;
    let q2 = q1 + l;
    let q3 = q2 + "\n"@;
    let q4 = q3 + "-- RTK --\n"@;
    let q5 = q4 + r;
    let q6 = q5 + "\n"@;
    let q7 = q6 + "-- Backup GNSS --\n"@;
    let q8 = q7 + b;
    let q9 = q8 + "\n"@;
    let q10 = q9 + v;
    let q11 = q10 + "\n"@;
    let q12 = q11 + m;
    let q13 = q12 + "\n"@;
    let q14 = q13 + p;
    let q15 = q14 + "\n"@;
    let q16 = q15 + h;
    let q17 = q16 + "\n"@;
    let q18 = q17 + c;
    let q19 = q18 + "\n"@;
    let q20 = q19 + ESTOP_DISCLAIMER@;
    let q21 = q20 + "\n"@;
    let q22 = q21 + "commands: estop | cancel | goal <lat> <lon> | speed <pct> | nop\n"@;
    assert(q22 == d);
    lemma_whole(d);
    lemma_front(q21, "commands: estop | cancel | goal <lat> <lon> | speed <pct> | nop\n"@, d);
    lemma_front(q20, "\n"@, d);
    lemma_front(q19, ESTOP_DISCLAIMER@, d);
    lemma_front(q18, "\n"@, d);
    lemma_part(q17, c, d);
    lemma_front(q17, c, d);
    lemma_front(q16, "\n"@, d);
    lemma_part(q15, h, d);
    lemma_front(q15, h, d);
    lemma_front(q14, "\n"@, d);
    lemma_part(q13, p, d);
    lemma_front(q13, p, d);
    lemma_front(q12, "\n"@, d);
    lemma_part(q11, m, d);
    lemma_front(q11, m, d);
    lemma_front(q10, "\n"@, d);
    lemma_part(q9, v, d);
    lemma_front(q9, v, d);
    lemma_front(q8, "\n"@, d);
    lemma_part(q7, b, d);
    lemma_front(q7, b, d);
    lemma_front(q6, "-- Backup GNSS --\n"@, d);
    lemma_front(q5, "\n"@, d);
    lemma_part(q4, r, d);
    lemma_front(q4, r, d);
    lemma_front(q3, "-- RTK --\n"@, d);
    lemma_front(q2, "\n"@, d);
    lemma_part(q1, l, d);
    lemma_front(q1, l, d);
    lemma_front(q0, "=== Rover Ground Station ===\n"@, d);
}

/// Whether a text begins another.
#[verifier::opaque]
spec fn begins(q: Seq<char>, d: Seq<char>) -> bool {
    q.is_prefix_of(d)
}

proof fn lemma_whole(d: Seq<char>)
    ensures
        begins(d, d),
{
    reveal(begins);
    assert(d.subrange(0, d.len() as int) =~= d);
}

proof fn lemma_front(q: Seq<char>, y: Seq<char>, d: Seq<char>)
    requires
        begins(q + y, d),
    ensures
        begins(q, d),
{
    reveal(begins);
    assert(d.subrange(0, (q + y).len() as int) =~= q + y);
    assert forall|i: int| 0 <= i < q.len() implies #[trigger] q[i] == d[i] by {
        assert((q + y)[i] == q[i]);
        assert(d.subrange(0, (q + y).len() as int)[i] == d[i]);
    }
    assert(d.subrange(0, q.len() as int) =~= q);
}

proof fn lemma_part(q: Seq<char>, y: Seq<char>, d: Seq<char>)
    requires
        begins(q + y, d),
    ensures
        d.subrange(q.len() as int, (q.len() + y.len()) as int) == y,
{
    reveal(begins);
    assert(d.subrange(0, (q + y).len() as int) =~= q + y);
    assert forall|i: int| 0 <= i < y.len() implies #[trigger] y[i] == d[q.len() + i] by {
        assert((q + y)[q.len() + i] == y[i]);
        assert(d.subrange(0, (q + y).len() as int)[q.len() + i] == d[q.len() + i]);
    }
    assert(d.subrange(q.len() as int, (q.len() + y.len()) as int) =~= y);
}

} // verus!
