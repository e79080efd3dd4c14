//! Restarting Chrome with its debugging port open: the launch arguments and
//! the steps of quitting, killing, launching and waiting for the port.
use vstd::prelude::*;
use crate::text::{chars_of, push_str, string_of};

verus! {

/// The debugging port Chrome is started with.
pub const DEBUG_PORT: u16 = 9222;

/// Checks after asking Chrome to quit, half a second apart.
pub const QUIT_CHECKS: u32 = 6;

/// Checks after killing Chrome, 300 ms apart.
pub const KILL_CHECKS: u32 = 10;

/// Probes of the debugging port after the launch, half a second apart.
pub const PORT_PROBES: u32 = 20;

/// The arguments of `open` that start Chrome on the dedicated profile with
/// the debugging port open.
pub open spec fn chrome_debug_args_of(profile: Seq<char>) -> Seq<Seq<char>> {
    seq![
        "-a"@,
        "Google Chrome"@,
        "--args"@,
        "--remote-debugging-port=9222"@,
        "--user-data-dir="@ + profile,
        "--profile-directory=Default"@,
        "--no-first-run"@,
        "--no-default-browser-check"@,
    ]
}

/// The launch arguments for the profile directory `profile`.
pub fn chrome_debug_args(profile: &str) -> (r: Vec<String>)
    ensures
        r.deep_view() == chrome_debug_args_of(profile@),
{
    let mut dir = chars_of("--user-data-dir=");
    push_str(&mut dir, profile);
    let mut r: Vec<String> = Vec::new();
    r.push(String::from_str("-a"));
    r.push(String::from_str("Google Chrome"));
    r.push(String::from_str("--args"));
    r.push(String::from_str("--remote-debugging-port=9222"));
    r.push(string_of(&dir));
    r.push(String::from_str("--profile-directory=Default"));
    r.push(String::from_str("--no-first-run"));
    r.push(String::from_str("--no-default-browser-check"));
    assert(r.deep_view() =~= chrome_debug_args_of(profile@));
    r
}

/// Where a restart stands. The counts are the checks or probes issued so far
/// in the current wait.
#[derive(Debug, Clone, Copy, PartialEq, Eq, Structural)]
pub enum RestartState {
    /// Chrome was asked to quit.
    Quitting { checks: u32 },
    /// The graceful wait is over; a fresh check decides on a kill.
    AfterQuit,
    /// Chrome was killed.
    Killing { checks: u32 },
    /// The kill wait is over; a fresh check decides whether to give up.
    AfterKill,
    /// Chrome was launched; the port is being probed.
    Probing { probes: u32 },
    /// Connect to the port (also when it never answered).
    Connecting,
    /// Chrome did not quit.
    Failed,
}

/// What to do next; each action but the last two ends with a report:
/// whether Chrome runs, or whether the port answers.
#[derive(Debug, Clone, Copy, PartialEq, Eq, Structural)]
pub enum RestartAction {
    /// Wait this many milliseconds, then report whether Chrome runs.
    WaitAndCheck(u64),
    /// Report whether Chrome runs.
    Check,
    /// Kill Chrome, wait this many milliseconds, then report whether it runs.
    KillWaitAndCheck(u64),
    /// Launch Chrome with the debugging port, wait this many milliseconds,
    /// then report whether the port answers.
    LaunchWaitAndProbe(u64),
    /// Wait this many milliseconds, then report whether the port answers.
    WaitAndProbe(u64),
    /// Connect to the port.
    Connect,
    /// Give up: Chrome did not quit in time.
    GiveUp,
}

/// The counts of a state stay within their waits.
pub open spec fn restart_valid(s: RestartState) -> bool {
    match s {
        RestartState::Quitting { checks } => 1 <= checks <= QUIT_CHECKS,
        RestartState::Killing { checks } => 1 <= checks <= KILL_CHECKS,
        RestartState::Probing { probes } => 1 <= probes <= PORT_PROBES,
        _ => true,
    }
}

/// The restart has ended.
pub open spec fn restart_done(s: RestartState) -> bool {
    s is Connecting || s is Failed
}

/// The next state and action, given the report on the last action
/// (`observed`: Chrome runs, or the port answers).
pub open spec fn restart_next(s: RestartState, observed: bool) -> (RestartState, RestartAction) {
    match s {
        RestartState::Quitting { checks } => if !observed || checks >= QUIT_CHECKS {
            (RestartState::AfterQuit, RestartAction::Check)
        } else {
            (RestartState::Quitting { checks: (checks + 1) as u32 }, RestartAction::WaitAndCheck(500))
        },
        RestartState::AfterQuit => if observed {
            (RestartState::Killing { checks: 1 }, RestartAction::KillWaitAndCheck(300))
        } else {
            (RestartState::AfterKill, RestartAction::Check)
        },
        RestartState::Killing { checks } => if !observed || checks >= KILL_CHECKS {
            (RestartState::AfterKill, RestartAction::Check)
        } else {
            (RestartState::Killing { checks: (checks + 1) as u32 }, RestartAction::WaitAndCheck(300))
        },
        RestartState::AfterKill => if observed {
            (RestartState::Failed, RestartAction::GiveUp)
        } else {
            (RestartState::Probing { probes: 1 }, RestartAction::LaunchWaitAndProbe(500))
        },
        RestartState::Probing { probes } => if observed || probes >= PORT_PROBES {
            (RestartState::Connecting, RestartAction::Connect)
        } else {
            (RestartState::Probing { probes: (probes + 1) as u32 }, RestartAction::WaitAndProbe(500))
        },
        RestartState::Connecting => (RestartState::Connecting, RestartAction::Connect),
        RestartState::Failed => (RestartState::Failed, RestartAction::GiveUp),
    }
}

/// The first step, once Chrome was asked to quit: wait and check.
pub fn restart_begin() -> (r: (RestartState, RestartAction))
    ensures
        r == (RestartState::Quitting { checks: 1 }, RestartAction::WaitAndCheck(500)),
        restart_valid(r.0),
{
    (RestartState::Quitting { checks: 1 }, RestartAction::WaitAndCheck(500))
}

/// The next step of a restart (see `restart_next`).
pub fn restart_step(s: RestartState, observed: bool) -> (r: (RestartState, RestartAction))
    requires
        restart_valid(s),
    ensures
        r == restart_next(s, observed),
        restart_valid(r.0),
{
    match s {
        RestartState::Quitting { checks } => if !observed || checks >= QUIT_CHECKS {
            (RestartState::AfterQuit, RestartAction::Check)
        } else {
            (RestartState::Quitting { checks: checks + 1 }, RestartAction::WaitAndCheck(500))
        },
        RestartState::AfterQuit => if observed {
            (RestartState::Killing { checks: 1 }, RestartAction::KillWaitAndCheck(300))
        } else {
            (RestartState::AfterKill, RestartAction::Check)
        },
        RestartState::Killing { checks } => if !observed || checks >= KILL_CHECKS {
            (RestartState::AfterKill, RestartAction::Check)
        } else {
            (RestartState::Killing { checks: checks + 1 }, RestartAction::WaitAndCheck(300))
        },
        RestartState::AfterKill => if observed {
            (RestartState::Failed, RestartAction::GiveUp)
        } else {
            (RestartState::Probing { probes: 1 }, RestartAction::LaunchWaitAndProbe(500))
        },
        RestartState::Probing { probes } => if observed || probes >= PORT_PROBES {
            (RestartState::Connecting, RestartAction::Connect)
        } else {
            (RestartState::Probing { probes: probes + 1 }, RestartAction::WaitAndProbe(500))
        },
        RestartState::Connecting => (RestartState::Connecting, RestartAction::Connect),
        RestartState::Failed => (RestartState::Failed, RestartAction::GiveUp),
    }
}

/// How many steps a restart can still take from a state.
pub open spec fn restart_rank(s: RestartState) -> nat {
    let r: int = match s {
        RestartState::Quitting { checks } => QUIT_CHECKS - checks + 1 + KILL_CHECKS + PORT_PROBES + 2,
        RestartState::AfterQuit => KILL_CHECKS + PORT_PROBES + 2,
        RestartState::Killing { checks } => KILL_CHECKS - checks + 1 + PORT_PROBES + 1,
        RestartState::AfterKill => PORT_PROBES + 1,
        RestartState::Probing { probes } => PORT_PROBES - probes + 1,
        RestartState::Connecting => 0,
        RestartState::Failed => 0,
    };
    if r < 0 { 0 } else { r as nat }
}

/// Every step of an unfinished restart gets closer to its end, whatever is
/// reported, so a restart ends after at most `restart_rank` of the first
/// state steps; and it gives up only when Chrome still ran at the check
/// after the kill wait.
pub proof fn lemma_restart_progress(s: RestartState, observed: bool)
    requires
        restart_valid(s),
        !restart_done(s),
    ensures
        restart_valid(restart_next(s, observed).0),
        restart_rank(restart_next(s, observed).0) < restart_rank(s),
        restart_next(s, observed).1 is GiveUp <==> (s is AfterKill && observed),
{
}

/// From its first state a restart takes at most this many steps.
pub proof fn lemma_restart_bound()
    ensures
        restart_rank(RestartState::Quitting { checks: 1 }) == QUIT_CHECKS + KILL_CHECKS + PORT_PROBES + 2,
{
}

} // verus!
