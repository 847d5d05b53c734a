//! What the agent reports of itself, as far as the rules here read it.

use vstd::prelude::*;

use crate::power::PowerStatusDto;
use crate::preferences::Preferences;

verus! {

/// Why there is no tray.
#[derive(Clone, Copy, Debug, PartialEq, Eq, Structural)]
pub enum TrayUnavailableReason {
    /// The program was built without one.
    NotBuilt,
    /// Nothing on this desktop shows trays.
    NoHost,
    /// There is no graphical session.
    NoDisplay,
    /// It could not be set up.
    InitFailed,
}

/// The tray, and whether the agent stays when the last window closes.
#[derive(Clone, Copy, Debug, PartialEq, Eq, Structural)]
pub struct ShellStatusDto {
    pub tray_available: bool,
    pub tray_unavailable_reason: Option<TrayUnavailableReason>,
    pub resident: bool,
}

impl Default for ShellStatusDto {
    fn default() -> (r: Self)
        ensures
            !r.tray_available,
            r.tray_unavailable_reason is None,
            !r.resident,
    {
        ShellStatusDto { tray_available: false, tray_unavailable_reason: None, resident: false }
    }
}

/// How many tasks there are.
#[derive(Clone, Copy, Debug, PartialEq, Eq, Structural)]
pub struct RuntimeStats {
    pub active_tasks: u32,
    pub pending_tasks: u32,
}

impl Default for RuntimeStats {
    fn default() -> (r: Self)
        ensures
            r.active_tasks == 0,
            r.pending_tasks == 0,
    {
        RuntimeStats { active_tasks: 0, pending_tasks: 0 }
    }
}

/// What the agent reports of itself.
#[derive(Debug)]
pub struct AgentSnapshot {
    pub preferences: Preferences,
    pub shell: ShellStatusDto,
    pub power: PowerStatusDto,
    pub stats: RuntimeStats,
    /// How many captured downloads wait for the user's word.
    pub pending_captures: usize,
    /// How many choices the service waits for.
    pub pending_selections: usize,
}

impl Default for AgentSnapshot {
    fn default() -> (r: Self)
        ensures
            r.preferences.entries@.len() == 0,
            !r.shell.tray_available,
            r.shell.tray_unavailable_reason is None,
            !r.shell.resident,
            r.power.armed_delay_secs is None,
            r.power.countdown_remaining_secs is None,
            r.stats.active_tasks == 0,
            r.stats.pending_tasks == 0,
            r.pending_captures == 0,
            r.pending_selections == 0,
    {
        AgentSnapshot {
            preferences: Preferences::new(),
            shell: ShellStatusDto::default(),
            power: PowerStatusDto::default(),
            stats: RuntimeStats::default(),
            pending_captures: 0,
            pending_selections: 0,
        }
    }
}

} // verus!
