//! Starting the download service at most once at a time, and noticing when it is gone.

use vstd::prelude::*;

use crate::text::concat;

verus! {

/// Why the service could not be started.
#[derive(Debug, PartialEq, Eq)]
pub enum SupervisorError {
    /// Its program could not be found.
    Locate(String),
    /// Its program could not be run.
    Spawn(String),
}

impl SupervisorError {
    /// The error in words.
    pub fn message(&self) -> (r: String)
        ensures
            r@ == match *self {
                SupervisorError::Locate(why) => "could not locate sibling fluxdownd: "@ + why@,
                SupervisorError::Spawn(why) => "failed to spawn fluxdownd: "@ + why@,
            },
    {
        match self {
            SupervisorError::Locate(why) => concat(
                "could not locate sibling fluxdownd: ",
                why.as_str(),
            ),
            SupervisorError::Spawn(why) => concat("failed to spawn fluxdownd: ", why.as_str()),
        }
    }
}

/// What is to be done so that the service runs.
#[derive(Clone, Copy, Debug, PartialEq, Eq, Structural)]
pub enum EnsureStep {
    /// Nothing: the service is to stay down.
    Stopped,
    /// Nothing: the service of this generation runs.
    Running(u64),
    /// Start it.
    Spawn,
}

/// The service that this program started. Each one that was started has a generation of its own.
#[derive(Clone, Copy, Debug, PartialEq, Eq, Structural)]
pub struct DaemonSupervisor {
    pub generation: u64,
    pub running: bool,
    /// Whether the service is to stay down for good.
    pub stopped: bool,
}

impl DaemonSupervisor {
    pub fn new() -> (r: DaemonSupervisor)
        ensures
            r == (DaemonSupervisor { generation: 0, running: false, stopped: false }),
    {
        DaemonSupervisor { generation: 0, running: false, stopped: false }
    }

    /// Starts the service no more.
    pub fn stop(&mut self)
        ensures
            *final(self) == (DaemonSupervisor { stopped: true, ..*old(self) }),
    {
        self.stopped = true;
    }

    pub open spec fn step(self) -> EnsureStep {
        if self.stopped {
            EnsureStep::Stopped
        } else if self.running {
            EnsureStep::Running(self.generation)
        } else {
            EnsureStep::Spawn
        }
    }

    /// What is to be done so that the service runs.
    pub fn ensure_running(&self) -> (r: EnsureStep)
        ensures
            r == self.step(),
    {
        if self.stopped {
            EnsureStep::Stopped
        } else if self.running {
            EnsureStep::Running(self.generation)
        } else {
            EnsureStep::Spawn
        }
    }

    pub open spec fn after_spawn(self) -> DaemonSupervisor {
        DaemonSupervisor {
            generation: if self.generation == u64::MAX {
                u64::MAX
            } else {
                (self.generation + 1) as u64
            },
            running: true,
            ..self
        }
    }

    /// The service was started: the generation of the one that runs now.
    pub fn spawned(&mut self) -> (r: u64)
        ensures
            *final(self) == old(self).after_spawn(),
            r == final(self).generation,
    {
        self.generation = self.generation.saturating_add(1);
        self.running = true;
        self.generation
    }

    pub open spec fn after_exit(self, generation: u64) -> DaemonSupervisor {
        DaemonSupervisor { running: self.running && self.generation != generation, ..self }
    }

    /// The service of a generation is gone. Where another was started since, that one runs on.
    pub fn exited(&mut self, generation: u64)
        ensures
            *final(self) == old(self).after_exit(generation),
    {
        if self.generation == generation {
            self.running = false;
        }
    }
}

/// While the service runs it is not started again, however often it is asked for.
pub proof fn law_one_service_at_a_time(s: DaemonSupervisor)
    ensures
        s.after_spawn().step() != EnsureStep::Spawn,
{
}

/// That an older service is gone says nothing of the one that runs; that the one that runs is gone
/// makes the next request start another, of a later generation.
pub proof fn law_generations_tell_services_apart(s: DaemonSupervisor, older: u64)
    requires
        s.generation < u64::MAX,
        older <= s.generation,
        !s.stopped,
    ensures
        ({
            let now = s.after_spawn();
            &&& older < now.generation
            &&& now.after_exit(older) == now
            &&& now.after_exit(now.generation).step() == EnsureStep::Spawn
        }),
{
}

/// Once it is to stay down, the service is started no more.
pub proof fn law_stopped_stays_stopped(s: DaemonSupervisor, generation: u64)
    requires
        s.stopped,
    ensures
        s.step() == EnsureStep::Stopped,
        s.after_exit(generation).step() == EnsureStep::Stopped,
{
}

/// The name of the service's program, beside this one.
pub fn daemon_program(windows: bool) -> (r: &'static str)
    ensures
        r@ == if windows {
            "fluxdownd.exe"@
        } else {
            "fluxdownd"@
        },
{
    if windows {
        "fluxdownd.exe"
    } else {
        "fluxdownd"
    }
}

/// The service is started where it does not run, is not started again while it runs, and is started
/// anew, under a later number, once the one that ran is gone; the end of an older one changes
/// nothing.
pub proof fn law_service_is_kept_running(
    start: &mut DaemonSupervisor,
    stray: &mut DaemonSupervisor,
    end: &mut DaemonSupervisor,
    restart: &mut DaemonSupervisor,
    first: u64,
    older: u64,
    second: u64,
    steps: Seq<EnsureStep>,
)
    requires
        *old(start) == (DaemonSupervisor { generation: old(start).generation, running: false, stopped: false }),
        old(start).generation < u64::MAX - 1,
        steps.len() == 4,
        call_ensures(DaemonSupervisor::ensure_running, (&*old(start),), steps[0]),
        call_ensures(DaemonSupervisor::spawned, (start,), first),
        call_ensures(DaemonSupervisor::ensure_running, (&*final(start),), steps[1]),
        *old(stray) == *final(start),
        older != first,
        call_ensures(DaemonSupervisor::exited, (stray, older), ()),
        call_ensures(DaemonSupervisor::ensure_running, (&*final(stray),), steps[2]),
        *old(end) == *final(stray),
        call_ensures(DaemonSupervisor::exited, (end, first), ()),
        call_ensures(DaemonSupervisor::ensure_running, (&*final(end),), steps[3]),
        *old(restart) == *final(end),
        call_ensures(DaemonSupervisor::spawned, (restart,), second),
    ensures
        steps[0] == EnsureStep::Spawn,
        steps[1] == EnsureStep::Running(first),
        steps[2] == EnsureStep::Running(first),
        steps[3] == EnsureStep::Spawn,
        second == first + 1,
{
}

/// Once it is to stay down it is started no more, whatever ends.
pub proof fn law_service_stays_down(
    stop: &mut DaemonSupervisor,
    end: &mut DaemonSupervisor,
    generation: u64,
    step: EnsureStep,
)
    requires
        call_ensures(DaemonSupervisor::stop, (stop,), ()),
        *old(end) == *final(stop),
        call_ensures(DaemonSupervisor::exited, (end, generation), ()),
        call_ensures(DaemonSupervisor::ensure_running, (&*final(end),), step),
    ensures
        step == EnsureStep::Stopped,
{
}

/// An error says what failed, and why.
pub proof fn law_supervisor_errors_say_why(why: String, locate: String, spawn: String)
    requires
        call_ensures(SupervisorError::message, (&SupervisorError::Locate(why),), locate),
        call_ensures(SupervisorError::message, (&SupervisorError::Spawn(why),), spawn),
    ensures
        locate@ == "could not locate sibling fluxdownd: "@ + why@,
        spawn@ == "failed to spawn fluxdownd: "@ + why@,
{
}

/// The service's program goes by its name, with the ending that Windows wants.
pub proof fn law_program_has_the_ending_of_its_system(windows: &str, other: &str)
    requires
        call_ensures(daemon_program, (true,), windows),
        call_ensures(daemon_program, (false,), other),
    ensures
        windows@ == "fluxdownd.exe"@,
        other@ == "fluxdownd"@,
{
}

} // verus!
