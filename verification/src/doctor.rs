//! Preflight: the GO/NO-GO decision over what was observed while listening.
//!
//! There are three outcomes, not two. "Never seen" sends an operator to a cable
//! or a process, "seen and bad" to a specific board. Both block the launch:
//! absence of data is never evidence of health.

use crate::msgs::debug::BoardDiagnostics;
use crate::msgs::flags::HealthBits;
use crate::msgs::telemetry::Telemetry;
use crate::reals::Real32;
use crate::text;
use vstd::prelude::*;

verus! {

/// The result of one preflight check.
#[derive(Clone, Copy, Debug, PartialEq, Eq, Structural)]
pub enum Verdict {
    /// Observed, and healthy.
    Go,
    /// Observed, and a real fault was found.
    NoGo,
    /// Never observed. Gates the launch exactly like `NoGo`, but is reported
    /// under its own label.
    NotSeen,
}

impl Verdict {
    /// The launch may proceed.
    pub open spec fn permits(self) -> bool {
        self is Go
    }

    /// The words for the verdict.
    pub open spec fn printed(self) -> &'static str {
        match self {
            Verdict::Go => "GO",
            Verdict::NoGo => "NO-GO",
            Verdict::NotSeen => "NOT SEEN",
        }
    }

    /// Whether this check permits the launch to proceed.
    pub fn is_go(self) -> (r: bool)
        ensures
            r == self.permits(),
    {
        matches!(self, Verdict::Go)
    }

    /// The label under which the verdict is printed.
    pub fn label(self) -> (s: &'static str)
        ensures
            s == self.printed(),
    {
        match self {
            Verdict::Go => "GO",
            Verdict::NoGo => "NO-GO",
            Verdict::NotSeen => "NOT SEEN",
        }
    }
}

/// One named check's outcome, with a human-readable detail explaining why.
#[derive(Clone, Debug, PartialEq, Eq)]
pub struct CheckResult {
    pub name: &'static str,
    pub verdict: Verdict,
    pub detail: String,
}

/// A check's outcome by its texts.
pub struct CheckView {
    pub name: Seq<char>,
    pub verdict: Verdict,
    pub detail: Seq<char>,
}

impl View for CheckResult {
    type V = CheckView;

    open spec fn view(&self) -> CheckView {
        CheckView { name: self.name@, verdict: self.verdict, detail: self.detail@ }
    }
}

/// Everything seen (or not) on the bus during the listen window.
///
/// The two boards are tracked separately: they share one message type, so a
/// single newest-wins slot would let a healthy sample of one hide a fault of
/// the other.
#[derive(Clone, Copy, Debug)]
pub struct Observations {
    pub chassis_diag: Option<BoardDiagnostics>,
    pub sensors_diag: Option<BoardDiagnostics>,
    pub telemetry: Option<Telemetry>,
}

impl Default for Observations {
    fn default() -> (o: Self)
        ensures
            o == (Observations { chassis_diag: None, sensors_diag: None, telemetry: None }),
    {
        Observations { chassis_diag: None, sensors_diag: None, telemetry: None }
    }
}

impl Observations {
    /// What was observed, once a diagnostics report has come in.
    pub open spec fn noted(self, d: BoardDiagnostics) -> Observations {
        match d.board {
            crate::msgs::kinds::BoardId::Chassis => Observations { chassis_diag: Some(d), ..self },
            crate::msgs::kinds::BoardId::Sensors => Observations { sensors_diag: Some(d), ..self },
        }
    }

    /// Note one diagnostics report, in the slot of the board it came from.
    pub fn on_diagnostics(&mut self, d: BoardDiagnostics)
        ensures
            *final(self) == old(self).noted(d),
    {
        match d.board {
            crate::msgs::kinds::BoardId::Chassis => {
                self.chassis_diag = Some(d);
            },
            crate::msgs::kinds::BoardId::Sensors => {
                self.sensors_diag = Some(d);
            },
        }
    }
}

/// Facts about the drivetrain, read from the configuration and never observed.
#[derive(Clone, Copy, Debug)]
pub struct DrivetrainConfig {
    pub metres_per_tick: Real32,
}

/// Facts from the configuration that the checks need.
#[derive(Clone, Copy, Debug)]
pub struct DoctorConfig {
    pub drivetrain: DrivetrainConfig,
    /// The threshold that the estimator itself uses, so that this check can
    /// never disagree with it about what "stale" means.
    pub lane_stale_ms: u16,
}

/// The real values of the details, as they are to be printed.
pub struct RealTexts {
    pub metres_per_tick: String,
    /// With four decimals.
    pub cross_track_var: String,
}

/// An outcome, put together.
pub open spec fn check(name: &'static str, verdict: Verdict, detail: Seq<char>) -> CheckView {
    CheckView { name: name@, verdict, detail }
}

fn result(name: &'static str, verdict: Verdict, detail: String) -> (r: CheckResult)
    ensures
        r@ == check(name, verdict, detail@),
{
    CheckResult { name, verdict, detail }
}

/// The feeds that never arrived.
pub open spec fn missing_feeds(obs: Observations) -> Seq<Seq<char>> {
    text::only_if(obs.chassis_diag is None, "chassis board diagnostics"@) + text::only_if(
        obs.sensors_diag is None,
        "sensors board diagnostics"@,
    ) + text::only_if(obs.telemetry is None, "rover telemetry"@)
}

/// Were all three feeds seen?
pub open spec fn feeds_reachable_view(obs: Observations) -> CheckView {
    if missing_feeds(obs).len() == 0 {
        check(
            "feeds reachable",
            Verdict::Go,
            "chassis diagnostics, sensors diagnostics, and telemetry were all seen"@,
        )
    } else {
        check(
            "feeds reachable",
            Verdict::NotSeen,
            "never received during the listen window: "@ + text::joined(missing_feeds(obs), ", "@),
        )
    }
}

fn feeds_reachable(obs: &Observations) -> (r: CheckResult)
    ensures
        r@ == feeds_reachable_view(*obs),
{
    let mut missing: Vec<String> = Vec::new();
    text::push_if(
        &mut missing,
        obs.chassis_diag.is_none(),
        text::owned("chassis board diagnostics"),
    );
    text::push_if(
        &mut missing,
        obs.sensors_diag.is_none(),
        text::owned("sensors board diagnostics"),
    );
    text::push_if(&mut missing, obs.telemetry.is_none(), text::owned("rover telemetry"));
    assert(text::texts(missing@) =~= missing_feeds(*obs));
    if missing.len() == 0 {
        result(
            "feeds reachable",
            Verdict::Go,
            text::owned("chassis diagnostics, sensors diagnostics, and telemetry were all seen"),
        )
    } else {
        let mut s = text::owned("never received during the listen window: ");
        let list = text::join(&missing, ", ");
        text::push_str(&mut s, list.as_str());
        result("feeds reachable", Verdict::NotSeen, s)
    }
}

/// One board's failed self-test, for the detail.
pub open spec fn post_failure_text(name: Seq<char>, d: BoardDiagnostics) -> Seq<char> {
    name + " (failed mask 0x"@ + text::hex4(d.failed_checks().0) + ")"@
}

fn describe_post_failure(name: &str, d: &BoardDiagnostics) -> (s: String)
    ensures
        s@ == post_failure_text(name@, *d),
{
    let mut s = text::owned(name);
    text::push_str(&mut s, " (failed mask 0x");
    text::push_hex4(&mut s, d.post_failures().0);
    text::push_str(&mut s, ")");
    s
}

/// The boards whose self-test failed a check that it ran.
pub open spec fn post_failure_list(
    chassis: BoardDiagnostics,
    sensors: BoardDiagnostics,
) -> Seq<Seq<char>> {
    text::only_if(chassis.failed_checks().0 != 0, post_failure_text("chassis"@, chassis)) + text::only_if(
        sensors.failed_checks().0 != 0,
        post_failure_text("sensors"@, sensors),
    )
}

/// Did both boards pass every self-test check that ran?
pub open spec fn post_view(obs: Observations) -> CheckView {
    match (obs.chassis_diag, obs.sensors_diag) {
        (Some(chassis), Some(sensors)) => if post_failure_list(chassis, sensors).len() == 0 {
            check(
                "board POST",
                Verdict::Go,
                "chassis and sensors both passed every POST check that ran"@,
            )
        } else {
            check(
                "board POST",
                Verdict::NoGo,
                "POST failures: "@ + text::joined(post_failure_list(chassis, sensors), "; "@),
            )
        },
        _ => check(
            "board POST",
            Verdict::NotSeen,
            "both boards' BoardDiagnostics must be seen before POST can be judged"@,
        ),
    }
}

fn post_check(obs: &Observations) -> (r: CheckResult)
    ensures
        r@ == post_view(*obs),
{
    match (obs.chassis_diag, obs.sensors_diag) {
        (Some(chassis), Some(sensors)) => {
            let mut failures: Vec<String> = Vec::new();
            text::push_if(
                &mut failures,
                !chassis.post_ok(),
                describe_post_failure("chassis", &chassis),
            );
            text::push_if(
                &mut failures,
                !sensors.post_ok(),
                describe_post_failure("sensors", &sensors),
            );
            assert(text::texts(failures@) =~= post_failure_list(chassis, sensors));
            if failures.len() == 0 {
                result(
                    "board POST",
                    Verdict::Go,
                    text::owned("chassis and sensors both passed every POST check that ran"),
                )
            } else {
                let mut s = text::owned("POST failures: ");
                let list = text::join(&failures, "; ");
                text::push_str(&mut s, list.as_str());
                result("board POST", Verdict::NoGo, s)
            }
        },
        _ => result(
            "board POST",
            Verdict::NotSeen,
            text::owned("both boards' BoardDiagnostics must be seen before POST can be judged"),
        ),
    }
}

/// One board's reset cause, for the detail.
pub open spec fn reset_text(name: Seq<char>, d: BoardDiagnostics) -> Seq<char> {
    name + " ("@ + d.reset_cause.label()@ + ")"@
}

fn describe_reset(name: &str, d: &BoardDiagnostics) -> (s: String)
    ensures
        s@ == reset_text(name@, *d),
{
    let mut s = text::owned(name);
    text::push_str(&mut s, " (");
    text::push_str(&mut s, d.reset_cause.name());
    text::push_str(&mut s, ")");
    s
}

/// The boards that reset for an abnormal reason.
pub open spec fn reset_list(chassis: BoardDiagnostics, sensors: BoardDiagnostics) -> Seq<
    Seq<char>,
> {
    text::only_if(chassis.reset_cause.abnormal(), reset_text("chassis"@, chassis)) + text::only_if(
        sensors.reset_cause.abnormal(),
        reset_text("sensors"@, sensors),
    )
}

/// Did both boards boot for a normal reason?
pub open spec fn reset_view(obs: Observations) -> CheckView {
    match (obs.chassis_diag, obs.sensors_diag) {
        (Some(chassis), Some(sensors)) => if reset_list(chassis, sensors).len() == 0 {
            check(
                "reset causes",
                Verdict::Go,
                "chassis="@ + chassis.reset_cause.label()@ + ", sensors="@
                    + sensors.reset_cause.label()@,
            )
        } else {
            check(
                "reset causes",
                Verdict::NoGo,
                "abnormal reset cause reported by: "@ + text::joined(
                    reset_list(chassis, sensors),
                    "; "@,
                ),
            )
        },
        _ => check(
            "reset causes",
            Verdict::NotSeen,
            "both boards' BoardDiagnostics must be seen before reset causes can be judged"@,
        ),
    }
}

fn reset_cause_check(obs: &Observations) -> (r: CheckResult)
    ensures
        r@ == reset_view(*obs),
{
    match (obs.chassis_diag, obs.sensors_diag) {
        (Some(chassis), Some(sensors)) => {
            let mut abnormal: Vec<String> = Vec::new();
            text::push_if(
                &mut abnormal,
                chassis.reset_cause.is_abnormal(),
                describe_reset("chassis", &chassis),
            );
            text::push_if(
                &mut abnormal,
                sensors.reset_cause.is_abnormal(),
                describe_reset("sensors", &sensors),
            );
            assert(text::texts(abnormal@) =~= reset_list(chassis, sensors));
            if abnormal.len() == 0 {
                let mut s = text::owned("chassis=");
                text::push_str(&mut s, chassis.reset_cause.name());
                text::push_str(&mut s, ", sensors=");
                text::push_str(&mut s, sensors.reset_cause.name());
                result("reset causes", Verdict::Go, s)
            } else {
                let mut s = text::owned("abnormal reset cause reported by: ");
                let list = text::join(&abnormal, "; ");
                text::push_str(&mut s, list.as_str());
                result("reset causes", Verdict::NoGo, s)
            }
        },
        _ => result(
            "reset causes",
            Verdict::NotSeen,
            text::owned(
                "both boards' BoardDiagnostics must be seen before reset causes can be judged",
            ),
        ),
    }
}

/// A link below 100 Mbit/s full duplex, or with symbol errors.
pub open spec fn degraded_link(d: BoardDiagnostics) -> bool {
    d.link_speed_mbps != 100 || !d.link_full_duplex || d.phy_symbol_errors > 0
}

/// One board's link, for the detail.
pub open spec fn link_text(name: Seq<char>, d: BoardDiagnostics) -> Seq<char> {
    name + ": "@ + text::dec(d.link_speed_mbps as nat) + " Mbit/s "@ + (if d.link_full_duplex {
        "full-duplex"@
    } else {
        "half-duplex"@
    }) + ", "@ + text::dec(d.phy_symbol_errors as nat) + " symbol error(s)"@
}

fn degraded(d: &BoardDiagnostics) -> (r: bool)
    ensures
        r == degraded_link(*d),
{
    d.link_speed_mbps != 100 || !d.link_full_duplex || d.phy_symbol_errors > 0
}

fn describe_link(name: &str, d: &BoardDiagnostics) -> (s: String)
    ensures
        s@ == link_text(name@, *d),
{
    let mut s = text::owned(name);
    text::push_str(&mut s, ": ");
    text::push_dec(&mut s, d.link_speed_mbps as u64);
    text::push_str(&mut s, " Mbit/s ");
    if d.link_full_duplex {
        text::push_str(&mut s, "full-duplex");
    } else {
        text::push_str(&mut s, "half-duplex");
    }
    text::push_str(&mut s, ", ");
    text::push_dec(&mut s, d.phy_symbol_errors as u64);
    text::push_str(&mut s, " symbol error(s)");
    s
}

/// The boards that could not tell their link speed.
pub open spec fn unknown_links(chassis: BoardDiagnostics, sensors: BoardDiagnostics) -> Seq<
    Seq<char>,
> {
    text::only_if(chassis.link_speed_mbps == 0, "chassis"@) + text::only_if(
        sensors.link_speed_mbps == 0,
        "sensors"@,
    )
}

/// The boards whose link is degraded.
pub open spec fn degraded_links(chassis: BoardDiagnostics, sensors: BoardDiagnostics) -> Seq<
    Seq<char>,
> {
    text::only_if(degraded_link(chassis), link_text("chassis"@, chassis)) + text::only_if(
        degraded_link(sensors),
        link_text("sensors"@, sensors),
    )
}

/// Are both boards' links at full speed? A speed of zero is a board that could
/// not resolve it, which is unobserved data rather than a bad link.
pub open spec fn link_quality_view(obs: Observations) -> CheckView {
    match (obs.chassis_diag, obs.sensors_diag) {
        (Some(chassis), Some(sensors)) => if unknown_links(chassis, sensors).len() > 0 {
            check(
                "board link quality",
                Verdict::NotSeen,
                text::joined(unknown_links(chassis, sensors), " and "@)
                    + " reported link speed 0 (unknown) -- the board could not read its PHY, so link quality is unjudged rather than bad"@,
            )
        } else if degraded_links(chassis, sensors).len() == 0 {
            check(
                "board link quality",
                Verdict::Go,
                "both boards report 100 Mbit/s full-duplex, zero symbol errors"@,
            )
        } else {
            check(
                "board link quality",
                Verdict::NoGo,
                "degraded link(s): "@ + text::joined(degraded_links(chassis, sensors), "; "@),
            )
        },
        _ => check(
            "board link quality",
            Verdict::NotSeen,
            "both boards' BoardDiagnostics must be seen before link quality can be judged"@,
        ),
    }
}

fn link_quality_check(obs: &Observations) -> (r: CheckResult)
    ensures
        r@ == link_quality_view(*obs),
{
    match (obs.chassis_diag, obs.sensors_diag) {
        (Some(chassis), Some(sensors)) => {
            let mut unknown: Vec<String> = Vec::new();
            text::push_if(&mut unknown, chassis.link_speed_mbps == 0, text::owned("chassis"));
            text::push_if(&mut unknown, sensors.link_speed_mbps == 0, text::owned("sensors"));
            assert(text::texts(unknown@) =~= unknown_links(chassis, sensors));
            if unknown.len() > 0 {
                let mut s = text::join(&unknown, " and ");
                text::push_str(
                    &mut s,
                    " reported link speed 0 (unknown) -- the board could not read its PHY, so link quality is unjudged rather than bad",
                );
                return result("board link quality", Verdict::NotSeen, s);
            }
            let mut bad: Vec<String> = Vec::new();
            text::push_if(&mut bad, degraded(&chassis), describe_link("chassis", &chassis));
            text::push_if(&mut bad, degraded(&sensors), describe_link("sensors", &sensors));
            assert(text::texts(bad@) =~= degraded_links(chassis, sensors));
            if bad.len() == 0 {
                result(
                    "board link quality",
                    Verdict::Go,
                    text::owned("both boards report 100 Mbit/s full-duplex, zero symbol errors"),
                )
            } else {
                let mut s = text::owned("degraded link(s): ");
                let list = text::join(&bad, "; ");
                text::push_str(&mut s, list.as_str());
                result("board link quality", Verdict::NoGo, s)
            }
        },
        _ => result(
            "board link quality",
            Verdict::NotSeen,
            text::owned(
                "both boards' BoardDiagnostics must be seen before link quality can be judged",
            ),
        ),
    }
}

/// The outcome of a check that needs telemetry and has none.
pub open spec fn no_telemetry(name: &'static str) -> CheckView {
    check(name, Verdict::NotSeen, "no Telemetry received during the listen window"@)
}

fn telemetry_missing(name: &'static str) -> (r: CheckResult)
    ensures
        r@ == no_telemetry(name),
{
    result(
        name,
        Verdict::NotSeen,
        text::owned("no Telemetry received during the listen window"),
    )
}

/// Does the rover report any health condition?
pub open spec fn health_bits_view(obs: Observations) -> CheckView {
    match obs.telemetry {
        None => no_telemetry("telemetry health bits"),
        Some(t) => if t.health.0 == 0 {
            check("telemetry health bits", Verdict::Go, "no HealthBits set"@)
        } else {
            check(
                "telemetry health bits",
                Verdict::NoGo,
                "HealthBits = 0x"@ + text::hex4(t.health.0),
            )
        },
    }
}

fn health_bits_check(obs: &Observations) -> (r: CheckResult)
    ensures
        r@ == health_bits_view(*obs),
{
    match obs.telemetry {
        None => telemetry_missing("telemetry health bits"),
        Some(t) => if t.health.is_clear() {
            result("telemetry health bits", Verdict::Go, text::owned("no HealthBits set"))
        } else {
            let mut s = text::owned("HealthBits = 0x");
            text::push_hex4(&mut s, t.health.0);
            result("telemetry health bits", Verdict::NoGo, s)
        },
    }
}

/// Is the drivetrain calibrated? Known from the configuration, so never
/// unobserved, and there is no way to skip it.
pub open spec fn drivetrain_view(cfg: DoctorConfig, shown: Seq<char>) -> CheckView {
    if Real32(0).below(cfg.drivetrain.metres_per_tick) {
        check(
            "drivetrain calibrated",
            Verdict::Go,
            "metres_per_tick = "@ + shown + " (see [drivetrain] in config/rover.toml)"@,
        )
    } else {
        check(
            "drivetrain calibrated",
            Verdict::NoGo,
            "metres_per_tick = 0.0 in [drivetrain] -- the drivetrain has never been calibrated. Run Procedures A and B in docs/RUST_REWRITE_PLAN.md section 2.6 before trusting speed_mps or driving autonomously. There is no override for this check."@,
        )
    }
}

fn drivetrain_check(cfg: &DoctorConfig, shown: &str) -> (r: CheckResult)
    ensures
        r@ == drivetrain_view(*cfg, shown@),
{
    if Real32(0).is_below(cfg.drivetrain.metres_per_tick) {
        let mut s = text::owned("metres_per_tick = ");
        text::push_str(&mut s, shown);
        text::push_str(&mut s, " (see [drivetrain] in config/rover.toml)");
        result("drivetrain calibrated", Verdict::Go, s)
    } else {
        result(
            "drivetrain calibrated",
            Verdict::NoGo,
            text::owned(
                "metres_per_tick = 0.0 in [drivetrain] -- the drivetrain has never been calibrated. Run Procedures A and B in docs/RUST_REWRITE_PLAN.md section 2.6 before trusting speed_mps or driving autonomously. There is no override for this check.",
            ),
        )
    }
}

/// Does the primary receiver have a corrected fix?
pub open spec fn rtk_view(obs: Observations) -> CheckView {
    match obs.telemetry {
        None => no_telemetry("RTK fix quality"),
        Some(t) => if t.rtk.fix.rtk() {
            check(
                "RTK fix quality",
                Verdict::Go,
                "fix = "@ + t.rtk.fix.label()@ + ", "@ + text::dec(t.rtk.sats as nat)
                    + " satellites"@,
            )
        } else {
            check(
                "RTK fix quality",
                Verdict::NoGo,
                "fix = "@ + t.rtk.fix.label()@ + " is not RtkFloat/RtkFixed ("@ + text::dec(
                    t.rtk.sats as nat,
                ) + " satellites)"@,
            )
        },
    }
}

fn rtk_check(obs: &Observations) -> (r: CheckResult)
    ensures
        r@ == rtk_view(*obs),
{
    match obs.telemetry {
        None => telemetry_missing("RTK fix quality"),
        Some(t) => {
            let mut s = text::owned("fix = ");
            text::push_str(&mut s, t.rtk.fix.name());
            if t.rtk.fix.is_rtk() {
                text::push_str(&mut s, ", ");
                text::push_dec(&mut s, t.rtk.sats as u64);
                text::push_str(&mut s, " satellites");
                result("RTK fix quality", Verdict::Go, s)
            } else {
                text::push_str(&mut s, " is not RtkFloat/RtkFixed (");
                text::push_dec(&mut s, t.rtk.sats as u64);
                text::push_str(&mut s, " satellites)");
                result("RTK fix quality", Verdict::NoGo, s)
            }
        },
    }
}

/// Is perception delivering usable lane frames?
pub open spec fn lane_view(obs: Observations, lane_stale_ms: u16) -> CheckView {
    match obs.telemetry {
        None => no_telemetry("lane detection live"),
        Some(t) => if t.state.lane_age_ms <= lane_stale_ms {
            check(
                "lane detection live",
                Verdict::Go,
                "lane_age_ms = "@ + text::dec(t.state.lane_age_ms as nat) + " (stale past "@
                    + text::dec(lane_stale_ms as nat) + ")"@,
            )
        } else {
            check(
                "lane detection live",
                Verdict::NoGo,
                "lane_age_ms = "@ + text::dec(t.state.lane_age_ms as nat)
                    + " exceeds the estimator's own stale threshold of "@ + text::dec(
                    lane_stale_ms as nat,
                ) + " ms -- perception is not delivering usable lane frames"@,
            )
        },
    }
}

fn lane_check(obs: &Observations, lane_stale_ms: u16) -> (r: CheckResult)
    ensures
        r@ == lane_view(*obs, lane_stale_ms),
{
    match obs.telemetry {
        None => telemetry_missing("lane detection live"),
        Some(t) => {
            let mut s = text::owned("lane_age_ms = ");
            text::push_dec(&mut s, t.state.lane_age_ms as u64);
            if t.state.lane_age_ms <= lane_stale_ms {
                text::push_str(&mut s, " (stale past ");
                text::push_dec(&mut s, lane_stale_ms as u64);
                text::push_str(&mut s, ")");
                result("lane detection live", Verdict::Go, s)
            } else {
                text::push_str(&mut s, " exceeds the estimator's own stale threshold of ");
                text::push_dec(&mut s, lane_stale_ms as u64);
                text::push_str(
                    &mut s,
                    " ms -- perception is not delivering usable lane frames",
                );
                result("lane detection live", Verdict::NoGo, s)
            }
        },
    }
}

/// Does the estimator trust itself?
pub open spec fn estimator_view(obs: Observations, shown: Seq<char>) -> CheckView {
    match obs.telemetry {
        None => no_telemetry("estimator converged"),
        Some(t) => if !t.health.has(HealthBits(HealthBits::ESTIMATOR_DIVERGED)) {
            check(
                "estimator converged",
                Verdict::Go,
                "cross-track variance "@ + shown + " m^2 within trust threshold"@,
            )
        } else {
            check(
                "estimator converged",
                Verdict::NoGo,
                "cross-track variance "@ + shown
                    + " m^2 exceeds the trust threshold -- HealthBits::ESTIMATOR_DIVERGED is set"@,
            )
        },
    }
}

fn estimator_check(obs: &Observations, shown: &str) -> (r: CheckResult)
    ensures
        r@ == estimator_view(*obs, shown@),
{
    match obs.telemetry {
        None => telemetry_missing("estimator converged"),
        Some(t) => {
            let mut s = text::owned("cross-track variance ");
            text::push_str(&mut s, shown);
            if !t.health.contains(HealthBits(HealthBits::ESTIMATOR_DIVERGED)) {
                text::push_str(&mut s, " m^2 within trust threshold");
                result("estimator converged", Verdict::Go, s)
            } else {
                text::push_str(
                    &mut s,
                    " m^2 exceeds the trust threshold -- HealthBits::ESTIMATOR_DIVERGED is set",
                );
                result("estimator converged", Verdict::NoGo, s)
            }
        },
    }
}

/// The nine checks, in their fixed order.
pub open spec fn report(obs: Observations, cfg: DoctorConfig, shown: RealTexts) -> Seq<CheckView> {
    seq![
        feeds_reachable_view(obs),
        post_view(obs),
        reset_view(obs),
        link_quality_view(obs),
        health_bits_view(obs),
        drivetrain_view(cfg, shown.metres_per_tick@),
        rtk_view(obs),
        lane_view(obs, cfg.lane_stale_ms),
        estimator_view(obs, shown.cross_track_var@),
    ]
}

/// The contents of a list of results.
pub open spec fn views(rs: Seq<CheckResult>) -> Seq<CheckView> {
    Seq::new(rs.len(), |i: int| rs[i]@)
}

/// Run every preflight check, in a fixed order.
pub fn evaluate(obs: &Observations, cfg: &DoctorConfig, shown: &RealTexts) -> (rs: Vec<
    CheckResult,
>)
    ensures
        views(rs@) == report(*obs, *cfg, *shown),
{
    let mut rs: Vec<CheckResult> = Vec::new();
    rs.push(feeds_reachable(obs));
    rs.push(post_check(obs));
    rs.push(reset_cause_check(obs));
    rs.push(link_quality_check(obs));
    rs.push(health_bits_check(obs));
    rs.push(drivetrain_check(cfg, shown.metres_per_tick.as_str()));
    rs.push(rtk_check(obs));
    rs.push(lane_check(obs, cfg.lane_stale_ms));
    rs.push(estimator_check(obs, shown.cross_track_var.as_str()));
    assert(views(rs@) =~= report(*obs, *cfg, *shown));
    rs
}

/// Whether every check of a report permits the launch.
pub open spec fn cleared(r: Seq<CheckView>) -> bool {
    forall|i: int| 0 <= i < r.len() ==> (#[trigger] r[i]).verdict is Go
}

/// The exit decision over the results of [`evaluate`].
pub fn all_go(rs: &Vec<CheckResult>) -> (r: bool)
    ensures
        r == cleared(views(rs@)),
{
    let mut i: usize = 0;
    while i < rs.len()
        invariant
            i <= rs@.len(),
            forall|k: int| 0 <= k < i ==> (#[trigger] views(rs@)[k]).verdict is Go,
        decreases rs@.len() - i,
    {
        if !rs[i].verdict.is_go() {
            assert(!(views(rs@)[i as int].verdict is Go));
            return false;
        }
        i = i + 1;
    }
    true
}

/// The launch is cleared exactly when everything was seen and everything that
/// was seen is healthy.
pub proof fn law_cleared(obs: Observations, cfg: DoctorConfig, shown: RealTexts)
    ensures
        cleared(report(obs, cfg, shown)) <==> {
            &&& obs.chassis_diag matches Some(c)
            &&& obs.sensors_diag matches Some(s)
            &&& obs.telemetry matches Some(t)
            &&& c.failed_checks().0 == 0 && s.failed_checks().0 == 0
            &&& !c.reset_cause.abnormal() && !s.reset_cause.abnormal()
            &&& !degraded_link(c) && !degraded_link(s)
            &&& t.health.0 == 0
            &&& Real32(0).below(cfg.drivetrain.metres_per_tick)
            &&& t.rtk.fix.rtk()
            &&& t.state.lane_age_ms <= cfg.lane_stale_ms
        },
{
    let r = report(obs, cfg, shown);
    assert(r.len() == 9);
    assert(cleared(r) ==> r[0].verdict is Go && r[1].verdict is Go && r[2].verdict is Go
        && r[3].verdict is Go && r[4].verdict is Go && r[5].verdict is Go && r[6].verdict is Go
        && r[7].verdict is Go && r[8].verdict is Go);
    assert(0u16 & 0x80u16 == 0u16) by (bit_vector);
}

/// A launch is never cleared on missing data.
pub proof fn law_missing_data_never_clears(obs: Observations, cfg: DoctorConfig, shown: RealTexts)
    requires
        obs.chassis_diag is None || obs.sensors_diag is None || obs.telemetry is None,
    ensures
        !cleared(report(obs, cfg, shown)),
{
    law_cleared(obs, cfg, shown);
}

/// With nothing observed, every check but the one on the configuration says so
/// rather than naming a fault.
pub proof fn law_nothing_seen(cfg: DoctorConfig, shown: RealTexts, i: int)
    requires
        0 <= i < 9,
        i != 5,
    ensures
        report(
            Observations { chassis_diag: None, sensors_diag: None, telemetry: None },
            cfg,
            shown,
        )[i].verdict is NotSeen,
{
}

/// A report is kept for the board that it came from; the other board's stays.
pub proof fn law_boards_are_kept_apart(obs: Observations, d: BoardDiagnostics)
    ensures
        obs.noted(d).telemetry == obs.telemetry,
        d.board is Chassis ==> obs.noted(d).chassis_diag == Some(d) && obs.noted(d).sensors_diag
            == obs.sensors_diag,
        d.board is Sensors ==> obs.noted(d).sensors_diag == Some(d) && obs.noted(d).chassis_diag
            == obs.chassis_diag,
{
}

/// Neither a fault nor missing data permits a launch, and the three verdicts are
/// printed apart.
pub proof fn law_verdicts_are_apart(v: Verdict, w: Verdict)
    ensures
        v.permits() <==> !(v is NoGo) && !(v is NotSeen),
        v.printed()@ == w.printed()@ ==> v == w,
{
    reveal_strlit("GO");
    reveal_strlit("NO-GO");
    reveal_strlit("NOT SEEN");
    assert("GO"@.len() == 2 && "NO-GO"@.len() == 5 && "NOT SEEN"@.len() == 8);
}

/// What each check says: missing data is not seen, a fault that was seen is no
/// go, and only what was seen to be healthy is a go.
#[verifier::rlimit(40)]
pub proof fn law_verdicts(obs: Observations, cfg: DoctorConfig, shown: RealTexts)
    ensures
        ({
            let r = report(obs, cfg, shown);
            let both = obs.chassis_diag is Some && obs.sensors_diag is Some;
            let (c, s, t) = (obs.chassis_diag->0, obs.sensors_diag->0, obs.telemetry->0);
            let seen = obs.telemetry is Some;
            let speeds = both && c.link_speed_mbps != 0 && s.link_speed_mbps != 0;
            &&& r[0].verdict is Go <==> both && seen
            &&& r[0].verdict is NotSeen <==> !(both && seen)
            &&& r[1].verdict is NotSeen <==> !both
            &&& r[1].verdict is NoGo <==> both && (c.failed_checks().0 != 0 || s.failed_checks().0
                != 0)
            &&& r[2].verdict is NotSeen <==> !both
            &&& r[2].verdict is NoGo <==> both && (c.reset_cause.abnormal()
                || s.reset_cause.abnormal())
            &&& r[3].verdict is NotSeen <==> !speeds
            &&& r[3].verdict is Go <==> both && c.link_speed_mbps == 100 && s.link_speed_mbps == 100
                && c.link_full_duplex && s.link_full_duplex && c.phy_symbol_errors == 0
                && s.phy_symbol_errors == 0
            &&& r[4].verdict is NotSeen <==> !seen
            &&& r[4].verdict is NoGo <==> seen && t.health.0 != 0
            &&& r[5].verdict is Go <==> Real32(0).below(cfg.drivetrain.metres_per_tick)
            &&& r[5].verdict is NoGo <==> !Real32(0).below(cfg.drivetrain.metres_per_tick)
            &&& r[6].verdict is NotSeen <==> !seen
            &&& r[6].verdict is Go <==> seen && (t.rtk.fix is RtkFloat || t.rtk.fix is RtkFixed)
            &&& r[7].verdict is NotSeen <==> !seen
            &&& r[7].verdict is NoGo <==> seen && t.state.lane_age_ms > cfg.lane_stale_ms
            &&& r[8].verdict is NotSeen <==> !seen
            &&& r[8].verdict is NoGo <==> seen && t.health.has(HealthBits(128))
        }),
{
}

/// Who is to blame is named: each board where it is the one, and the chassis
/// board first where both are.
#[verifier::rlimit(40)]
pub proof fn law_blame(c: BoardDiagnostics, s: BoardDiagnostics)
    ensures
        post_failure_list(c, s) == (if c.failed_checks().0 != 0 && s.failed_checks().0 != 0 {
            seq![post_failure_text("chassis"@, c), post_failure_text("sensors"@, s)]
        } else if c.failed_checks().0 != 0 {
            seq![post_failure_text("chassis"@, c)]
        } else if s.failed_checks().0 != 0 {
            seq![post_failure_text("sensors"@, s)]
        } else {
            Seq::empty()
        }),
        reset_list(c, s).len() == 0 <==> !c.reset_cause.abnormal() && !s.reset_cause.abnormal(),
        c.reset_cause.abnormal() ==> reset_list(c, s)[0] == reset_text("chassis"@, c),
        s.reset_cause.abnormal() ==> reset_list(c, s).last() == reset_text("sensors"@, s),
        degraded_link(c) ==> degraded_links(c, s)[0] == link_text("chassis"@, c),
        degraded_link(s) ==> degraded_links(c, s).last() == link_text("sensors"@, s),
        c.link_speed_mbps == 0 ==> unknown_links(c, s)[0] == "chassis"@,
        s.link_speed_mbps == 0 ==> unknown_links(c, s).last() == "sensors"@,
{
    assert(post_failure_list(c, s) =~= (if c.failed_checks().0 != 0 && s.failed_checks().0 != 0 {
        seq![post_failure_text("chassis"@, c), post_failure_text("sensors"@, s)]
    } else if c.failed_checks().0 != 0 {
        seq![post_failure_text("chassis"@, c)]
    } else if s.failed_checks().0 != 0 {
        seq![post_failure_text("sensors"@, s)]
    } else {
        Seq::empty()
    }));
}

/// The details give the figures: the mask of the failed checks, the cause of the
/// reset, the speed, the duplex and the errors of the link, behind the name of
/// the board.
#[verifier::rlimit(40)]
pub proof fn law_details(name: Seq<char>, d: BoardDiagnostics)
    ensures
        ({
            let n = name.len() as int;
            let (p, r, l) = (post_failure_text(name, d), reset_text(name, d), link_text(name, d));
            let k = text::dec(d.link_speed_mbps as nat).len() as int;
            &&& p.subrange(0, n) == name && r.subrange(0, n) == name && l.subrange(0, n) == name
            &&& p.subrange(n + 16, n + 20) == text::hex4(d.failed_checks().0)
            &&& r.subrange(n + 2, n + 2 + d.reset_cause.label()@.len()) == d.reset_cause.label()@
            &&& l.subrange(n + 2, n + 2 + k) == text::dec(d.link_speed_mbps as nat)
            &&& l[n + k + 10] == (if d.link_full_duplex {
                'f'
            } else {
                'h'
            })
            &&& l.subrange(n + k + 23, n + k + 23 + text::dec(d.phy_symbol_errors as nat).len())
                == text::dec(d.phy_symbol_errors as nat)
        }),
{
    reveal_strlit(" (failed mask 0x");
    reveal_strlit(" (");
    reveal_strlit(": ");
    reveal_strlit(" Mbit/s ");
    reveal_strlit("full-duplex");
    reveal_strlit("half-duplex");
    reveal_strlit(", ");
    let n = name.len() as int;
    let (p, r, l) = (post_failure_text(name, d), reset_text(name, d), link_text(name, d));
    let k = text::dec(d.link_speed_mbps as nat).len() as int;
    let e = text::dec(d.phy_symbol_errors as nat);
    assert(" (failed mask 0x"@.len() == 16 && " ("@.len() == 2 && ": "@.len() == 2
        && " Mbit/s "@.len() == 8 && ", "@.len() == 2);
    assert("full-duplex"@.len() == 11 && "half-duplex"@.len() == 11);
    assert("full-duplex"@[0] == 'f' && "half-duplex"@[0] == 'h');
    assert(p.subrange(0, n) =~= name);
    assert(r.subrange(0, n) =~= name);
    assert(l.subrange(0, n) =~= name);
    assert(p.subrange(n + 16, n + 20) =~= text::hex4(d.failed_checks().0));
    assert(r.subrange(n + 2, n + 2 + d.reset_cause.label()@.len()) =~= d.reset_cause.label()@);
    assert(l.subrange(n + 2, n + 2 + k) =~= text::dec(d.link_speed_mbps as nat));
    assert(l.subrange(n + k + 23, n + k + 23 + e.len()) =~= e);
}

/// How each verdict is printed, and how the checks are named.
pub proof fn law_printed(v: Verdict, obs: Observations, cfg: DoctorConfig, shown: RealTexts)
    ensures
        v is Go ==> v.printed()@ == "GO"@,
        v is NoGo ==> v.printed()@ == "NO-GO"@,
        v is NotSeen ==> v.printed()@ == "NOT SEEN"@,
        ({
            let r = report(obs, cfg, shown);
            &&& r.len() == 9
            &&& r[0].name == "feeds reachable"@
            &&& r[1].name == "board POST"@
            &&& r[2].name == "reset causes"@
            &&& r[3].name == "board link quality"@
            &&& r[4].name == "telemetry health bits"@
            &&& r[5].name == "drivetrain calibrated"@
            &&& r[6].name == "RTK fix quality"@
            &&& r[7].name == "lane detection live"@
            &&& r[8].name == "estimator converged"@
        }),
{
}

} // verus!
