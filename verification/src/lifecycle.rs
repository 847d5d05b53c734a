//! How the programs end: the agent, which takes the service down first, and the desktop program,
//! which may leave alone or take everything with it.

use vstd::prelude::*;

use crate::clock::Instant;

verus! {

/// How long the agent waits for the service to let go of its data, in seconds.
pub const DAEMON_EXIT_BUDGET_SECS: u64 = 20;

/// How long the agent waits for the service to answer, in seconds.
pub const DAEMON_SHUTDOWN_CALL_BUDGET_SECS: u64 = 5;

/// How long the desktop program waits for the agent to answer, in seconds.
pub const SHUTDOWN_REQUEST_BUDGET_SECS: u64 = 3;

/// The agent's way out.
#[derive(Clone, Copy, Debug, PartialEq, Eq, Structural)]
pub struct Lifecycle {
    pub quit_requested: bool,
}

/// What came of asking the service to go down.
#[derive(Clone, Copy, Debug, PartialEq, Eq, Structural)]
pub enum ShutdownAnswer {
    Accepted,
    Refused,
    TimedOut,
}

/// What the agent does on its way out.
#[derive(Clone, Copy, Debug, PartialEq, Eq, Structural)]
pub enum QuitStep {
    /// Wait until the service has let go of its data.
    AwaitRelease,
    Leave,
}

/// What the agent does while it waits for the service.
#[derive(Clone, Copy, Debug, PartialEq, Eq, Structural)]
pub enum WaitStep {
    Leave,
    Sleep,
}

impl Lifecycle {
    pub fn new() -> (r: Lifecycle)
        ensures
            !r.quit_requested,
    {
        Lifecycle { quit_requested: false }
    }

    pub fn quit_requested(&self) -> (r: bool)
        ensures
            r == self.quit_requested,
    {
        self.quit_requested
    }

    /// Asks the agent to leave with everything, and says whether that is to be set going: the
    /// first time only.
    pub fn request_quit(&mut self) -> (r: bool)
        ensures
            r == !old(self).quit_requested,
            final(self).quit_requested,
    {
        if self.quit_requested {
            return false;
        }
        self.quit_requested = true;
        true
    }
}

/// What the agent does once the service was asked to go down: it waits only for one that agreed.
pub fn after_shutdown_call(answer: ShutdownAnswer) -> (r: QuitStep)
    ensures
        r == if answer == ShutdownAnswer::Accepted {
            QuitStep::AwaitRelease
        } else {
            QuitStep::Leave
        },
{
    match answer {
        ShutdownAnswer::Accepted => QuitStep::AwaitRelease,
        ShutdownAnswer::Refused | ShutdownAnswer::TimedOut => QuitStep::Leave,
    }
}

/// What the agent does while it waits for the service: it leaves once the data was let go, or the
/// time is over.
pub fn wait_daemon_released(released: bool, now: Instant, deadline: Instant) -> (r: WaitStep)
    ensures
        r == if released || now.nanos >= deadline.nanos {
            WaitStep::Leave
        } else {
            WaitStep::Sleep
        },
{
    if released || now.nanos >= deadline.nanos {
        WaitStep::Leave
    } else {
        WaitStep::Sleep
    }
}

/// What came of opening the service's lock file.
#[derive(Clone, Copy, Debug, PartialEq, Eq, Structural)]
pub enum LeaseProbe {
    /// There is none.
    Missing,
    /// It cannot be opened.
    Unreadable,
    /// It was locked and let go again.
    Free,
    /// Someone holds it.
    Held,
    /// It cannot be locked.
    LockFailed,
}

/// Whether the service has let go of its data: there is no lock file, nobody holds it, or it
/// cannot be found out by locking.
pub fn daemon_lease_released(probe: LeaseProbe) -> (r: bool)
    ensures
        r == (probe == LeaseProbe::Missing || probe == LeaseProbe::Free || probe
            == LeaseProbe::LockFailed),
{
    matches!(probe, LeaseProbe::Missing | LeaseProbe::Free | LeaseProbe::LockFailed)
}

/// The desktop program's way out.
#[derive(Clone, Copy, Debug, PartialEq, Eq, Structural)]
pub struct DesktopExit {
    /// How many requests must reach the agent though their window is closed.
    pub in_flight: usize,
    /// Whether the program leaves once they did.
    pub quit_pending: bool,
    pub quitting: bool,
}

impl DesktopExit {
    pub fn new() -> (r: DesktopExit)
        ensures
            r == (DesktopExit { in_flight: 0, quit_pending: false, quitting: false }),
    {
        DesktopExit { in_flight: 0, quit_pending: false, quitting: false }
    }

    pub open spec fn holding(self) -> DesktopExit {
        DesktopExit { in_flight: (self.in_flight + 1) as usize, ..self }
    }

    /// A request sets out that must reach the agent though its window is closed.
    pub fn keep_alive(&mut self)
        requires
            old(self).in_flight < usize::MAX,
        ensures
            *final(self) == old(self).holding(),
    {
        self.in_flight = self.in_flight + 1;
    }

    pub open spec fn released(self) -> DesktopExit {
        let left = if self.in_flight == 0 {
            0
        } else {
            (self.in_flight - 1) as usize
        };
        DesktopExit { in_flight: left, quit_pending: self.quit_pending && left > 0, ..self }
    }

    /// Whether the program is to leave once a request has reached the agent: it is the last, the
    /// program was to leave, and no window was opened meanwhile.
    pub open spec fn leaves_after(self, open_windows: usize) -> bool {
        self.in_flight <= 1 && self.quit_pending && open_windows == 0
    }

    /// A request has reached the agent, or failed; whether the program is to leave now.
    pub fn request_done(&mut self, open_windows: usize) -> (r: bool)
        ensures
            *final(self) == old(self).released(),
            r == old(self).leaves_after(open_windows),
    {
        self.in_flight = self.in_flight.saturating_sub(1);
        let quit: bool = self.in_flight == 0 && self.quit_pending;
        if self.in_flight == 0 {
            self.quit_pending = false;
        }
        quit && open_windows == 0
    }

    pub open spec fn after_quit_ui(self) -> DesktopExit {
        if self.in_flight > 0 {
            DesktopExit { quit_pending: true, ..self }
        } else {
            DesktopExit { quitting: true, ..self }
        }
    }

    /// Leaves alone, and says whether the program ends now: not while a request is under way, and
    /// only once.
    pub fn quit_ui(&mut self) -> (r: bool)
        ensures
            *final(self) == old(self).after_quit_ui(),
            r == (old(self).in_flight == 0 && !old(self).quitting),
    {
        if self.in_flight > 0 {
            self.quit_pending = true;
            return false;
        }
        if self.quitting {
            return false;
        }
        self.quitting = true;
        true
    }

    /// Leaves with everything, and says whether that is to be set going: only once.
    pub fn quit_everything(&mut self) -> (r: bool)
        ensures
            r == !old(self).quitting,
            *final(self) == (DesktopExit { quitting: true, ..*old(self) }),
    {
        if self.quitting {
            return false;
        }
        self.quitting = true;
        true
    }

    /// The agent has left: so does this program.
    pub fn service_stopped(&mut self)
        ensures
            *final(self) == (DesktopExit { quitting: true, ..*old(self) }),
    {
        self.quitting = true;
    }

    /// The system ends the program; whether the agent is asked to leave too: where it would not
    /// stay, and it is known that it would not.
    pub fn shutdown_request_on_app_quit(&mut self, resident: bool, snapshot_known: bool) -> (r: bool)
        ensures
            r == (!old(self).quitting && !resident && snapshot_known),
            *final(self) == (DesktopExit { quitting: old(self).quitting || r, ..*old(self) }),
    {
        if self.quitting || resident || !snapshot_known {
            return false;
        }
        self.quitting = true;
        true
    }
}

/// While a request is under way the interface does not leave; once the last has reached the agent
/// it does, where it was to leave and shows no window.
pub proof fn law_interface_waits_for_requests(exit: DesktopExit)
    requires
        exit.in_flight == 0,
        !exit.quitting,
    ensures
        ({
            let waiting = exit.holding().after_quit_ui();
            &&& !waiting.quitting
            &&& waiting.leaves_after(0)
            &&& !waiting.leaves_after(1)
            &&& !waiting.holding().leaves_after(0)
            &&& waiting.released().after_quit_ui().quitting
        }),
{
}

/// Leaving is asked for once: the first to ask is told so, and no other.
pub proof fn law_leaving_is_asked_for_once(
    first: &mut Lifecycle,
    second: &mut Lifecycle,
    began: bool,
    again: bool,
    seen: bool,
)
    requires
        !old(first).quit_requested,
        call_ensures(Lifecycle::request_quit, (first,), began),
        *old(second) == *final(first),
        call_ensures(Lifecycle::request_quit, (second,), again),
        call_ensures(Lifecycle::quit_requested, (&*final(second),), seen),
    ensures
        began && !again && seen,
{
}

/// The agent waits for the service only where the service accepted to go, and then until it has let
/// go or the time is over.
pub proof fn law_agent_waits_while_it_helps(
    answer: ShutdownAnswer,
    step: QuitStep,
    released: bool,
    now: Instant,
    deadline: Instant,
    wait: WaitStep,
)
    requires
        call_ensures(after_shutdown_call, (answer,), step),
        call_ensures(wait_daemon_released, (released, now, deadline), wait),
    ensures
        step == QuitStep::AwaitRelease <==> answer == ShutdownAnswer::Accepted,
        released ==> wait == WaitStep::Leave,
        !released && now.nanos < deadline.nanos ==> wait == WaitStep::Sleep,
        now.nanos >= deadline.nanos ==> wait == WaitStep::Leave,
{
}

/// The service has not let go while someone holds its lock, or while the lock cannot be looked at.
pub proof fn law_held_lock_is_not_released(probe: LeaseProbe, released: bool)
    requires
        call_ensures(daemon_lease_released, (probe,), released),
    ensures
        released <==> probe != LeaseProbe::Held && probe != LeaseProbe::Unreadable,
{
}

/// A request that began and ended leaves the interface as it was, unless it was waited for: then the
/// end of the last one lets it leave, where no window is open.
pub proof fn law_last_request_lets_the_interface_leave(
    hold: &mut DesktopExit,
    quit: &mut DesktopExit,
    done: &mut DesktopExit,
    open_windows: usize,
    left: bool,
    leaves: bool,
)
    requires
        *old(hold) == (DesktopExit { in_flight: 0, quit_pending: false, quitting: false }),
        call_ensures(DesktopExit::keep_alive, (hold,), ()),
        *old(quit) == *final(hold),
        call_ensures(DesktopExit::quit_ui, (quit,), left),
        *old(done) == *final(quit),
        call_ensures(DesktopExit::request_done, (done, open_windows), leaves),
    ensures
        !left,
        leaves <==> open_windows == 0,
        final(done).in_flight == 0,
        !final(done).quit_pending,
        !final(quit).quitting,
{
}

/// Without a request under way the interface leaves at once, and only the first time.
pub proof fn law_idle_interface_leaves_at_once(
    first: &mut DesktopExit,
    second: &mut DesktopExit,
    leaves: bool,
    again: bool,
)
    requires
        *old(first) == (DesktopExit { in_flight: 0, quit_pending: false, quitting: false }),
        call_ensures(DesktopExit::quit_ui, (first,), leaves),
        *old(second) == *final(first),
        call_ensures(DesktopExit::quit_ui, (second,), again),
    ensures
        leaves && !again,
        final(first).quitting,
{
}

/// When the program goes, the service is told to go too exactly where it does not stay in the tray,
/// it was heard of, and nothing was told yet.
pub proof fn law_service_goes_with_the_program(
    exit: &mut DesktopExit,
    again: &mut DesktopExit,
    resident: bool,
    snapshot_known: bool,
    tells: bool,
    tells_again: bool,
)
    requires
        call_ensures(
            DesktopExit::shutdown_request_on_app_quit,
            (exit, resident, snapshot_known),
            tells,
        ),
        *old(again) == *final(exit),
        call_ensures(
            DesktopExit::shutdown_request_on_app_quit,
            (again, resident, snapshot_known),
            tells_again,
        ),
    ensures
        tells <==> !old(exit).quitting && !resident && snapshot_known,
        !tells_again,
{
}

/// Leaving with everything begins once, and that the service stopped counts as leaving.
pub proof fn law_leaving_with_everything_begins_once(
    first: &mut DesktopExit,
    second: &mut DesktopExit,
    stopped: &mut DesktopExit,
    began: bool,
    again: bool,
)
    requires
        !old(first).quitting,
        call_ensures(DesktopExit::quit_everything, (first,), began),
        *old(second) == *final(first),
        call_ensures(DesktopExit::quit_everything, (second,), again),
        call_ensures(DesktopExit::service_stopped, (stopped,), ()),
    ensures
        began && !again,
        final(first).quitting && final(stopped).quitting,
        final(first).in_flight == old(first).in_flight,
{
}

} // verus!
