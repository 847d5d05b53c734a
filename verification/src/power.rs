//! Shutting the machine down once all downloads are done.
//!
//! It can be asked for while a task is active. When no task is active or waits any longer, a
//! countdown begins. A new task stops the countdown, but not the intention. When the countdown is
//! over the machine is shut down, once.

use vstd::prelude::*;

use crate::clock::{minutes_seconds, mm_ss, whole_secs, Duration, Instant};
use crate::windows::Platform;
use crate::text::padded;

verus! {

/// What others see of the intention: the delay that was asked for, and what is left of the
/// countdown.
#[derive(Clone, Copy, Debug, PartialEq, Eq, Structural)]
pub struct PowerStatusDto {
    pub armed_delay_secs: Option<u64>,
    pub countdown_remaining_secs: Option<u64>,
}

impl Default for PowerStatusDto {
    fn default() -> (r: Self)
        ensures
            r.armed_delay_secs is None,
            r.countdown_remaining_secs is None,
    {
        PowerStatusDto { armed_delay_secs: None, countdown_remaining_secs: None }
    }
}

/// The intention to shut down.
#[derive(Clone, Copy, Debug, PartialEq, Eq, Structural)]
pub struct ShutdownState {
    pub armed_delay: Option<Duration>,
    pub countdown_until: Option<Instant>,
}

impl ShutdownState {
    /// A countdown runs only while the intention stands.
    pub open spec fn wf(self) -> bool {
        self.countdown_until is Some ==> self.armed_delay is Some
    }

    pub open spec fn idle() -> ShutdownState {
        ShutdownState { armed_delay: None, countdown_until: None }
    }

    /// Whether no task is active or waits.
    pub open spec fn all_done(active_tasks: u32, pending_tasks: u32) -> bool {
        active_tasks == 0 && pending_tasks == 0
    }

    /// When the countdown ends, after a look at the tasks.
    pub open spec fn deadline(self, active_tasks: u32, pending_tasks: u32, now: Instant) -> Option<
        Instant,
    > {
        match self.armed_delay {
            None => None,
            Some(delay) => if !ShutdownState::all_done(active_tasks, pending_tasks) {
                None
            } else {
                match self.countdown_until {
                    Some(until) => Some(until),
                    None => Some(now.after(delay)),
                }
            },
        }
    }

    /// Whether the machine is to be shut down now.
    pub open spec fn fires(self, active_tasks: u32, pending_tasks: u32, now: Instant) -> bool {
        match self.deadline(active_tasks, pending_tasks, now) {
            Some(until) => now.nanos >= until.nanos,
            None => false,
        }
    }

    /// The intention after a look at the tasks and the clock.
    pub open spec fn advanced(self, active_tasks: u32, pending_tasks: u32, now: Instant) -> ShutdownState {
        if self.armed_delay is None {
            self
        } else if self.fires(active_tasks, pending_tasks, now) {
            ShutdownState::idle()
        } else {
            ShutdownState {
                countdown_until: self.deadline(active_tasks, pending_tasks, now),
                ..self
            }
        }
    }

    pub open spec fn seen(self, now: Instant) -> PowerStatusDto {
        PowerStatusDto {
            armed_delay_secs: match self.armed_delay {
                Some(delay) => Some(whole_secs(delay)),
                None => None,
            },
            countdown_remaining_secs: match self.countdown_until {
                Some(until) => Some(whole_secs(until.since(now))),
                None => None,
            },
        }
    }

    pub fn new() -> (r: ShutdownState)
        ensures
            r == ShutdownState::idle(),
            r.wf(),
    {
        ShutdownState { armed_delay: None, countdown_until: None }
    }

    /// Asks for a shutdown, and says whether it was accepted: a task must be active.
    pub fn arm(&mut self, delay: Duration, active_tasks: u32) -> (r: bool)
        ensures
            r == (active_tasks > 0),
            *final(self) == if active_tasks > 0 {
                ShutdownState { armed_delay: Some(delay), countdown_until: None }
            } else {
                *old(self)
            },
            old(self).wf() ==> final(self).wf(),
    {
        if active_tasks == 0 {
            return false;
        }
        self.armed_delay = Some(delay);
        self.countdown_until = None;
        true
    }

    /// Gives the intention up.
    pub fn disarm(&mut self)
        ensures
            *final(self) == ShutdownState::idle(),
            final(self).wf(),
    {
        self.armed_delay = None;
        self.countdown_until = None;
    }

    /// Looks at the tasks and the clock, and says whether the machine is to be shut down now.
    pub fn advance(&mut self, active_tasks: u32, pending_tasks: u32, now: Instant) -> (r: bool)
        requires
            old(self).armed_delay is Some && old(self).countdown_until is None ==> now.nanos + (
            old(self).armed_delay->0).nanos <= u128::MAX,
        ensures
            r == old(self).fires(active_tasks, pending_tasks, now),
            *final(self) == old(self).advanced(active_tasks, pending_tasks, now),
            old(self).wf() ==> final(self).wf(),
    {
        let delay = match self.armed_delay {
            Some(delay) => delay,
            None => {
                return false;
            },
        };
        if active_tasks == 0 && pending_tasks == 0 {
            if self.countdown_until.is_none() {
                self.countdown_until = Some(now.plus(delay));
            }
        } else {
            self.countdown_until = None;
        }
        match self.countdown_until {
            None => false,
            Some(until) => if now.nanos < until.nanos {
                false
            } else {
                self.armed_delay = None;
                self.countdown_until = None;
                true
            },
        }
    }

    /// What others see of the intention.
    pub fn status(&self, now: Instant) -> (r: PowerStatusDto)
        ensures
            r == self.seen(now),
    {
        PowerStatusDto {
            armed_delay_secs: match self.armed_delay {
                Some(delay) => Some(delay.as_secs()),
                None => None,
            },
            countdown_remaining_secs: match self.countdown_until {
                Some(until) => Some(until.saturating_duration_since(now).as_secs()),
                None => None,
            },
        }
    }
}

/// The service that keeps the intention and tells others of its changes.
#[derive(Debug)]
pub struct PowerService {
    pub state: ShutdownState,
    /// What was told last.
    pub published: PowerStatusDto,
}

impl PowerService {
    /// Whether a status must be told: it is not the one that was told last.
    pub open spec fn news(self, state: ShutdownState, now: Instant) -> Option<PowerStatusDto> {
        if state.seen(now) == self.published {
            None
        } else {
            Some(state.seen(now))
        }
    }

    pub fn new() -> (r: PowerService)
        ensures
            r.state == ShutdownState::idle(),
            r.published == (PowerStatusDto {
                armed_delay_secs: None,
                countdown_remaining_secs: None,
            }),
    {
        PowerService { state: ShutdownState::new(), published: PowerStatusDto::default() }
    }

    /// What is to be told, where the status has changed since the last time.
    fn publish(&mut self, now: Instant) -> (r: Option<PowerStatusDto>)
        ensures
            final(self).state == old(self).state,
            r == old(self).news(old(self).state, now),
            final(self).published == old(self).state.seen(now),
    {
        let status = self.state.status(now);
        if status == self.published {
            None
        } else {
            self.published = status;
            Some(status)
        }
    }

    /// Asks for a shutdown, and says whether it was accepted and what is to be told.
    pub fn arm(&mut self, delay: Duration, active_tasks: u32, now: Instant) -> (r: (
        bool,
        Option<PowerStatusDto>,
    ))
        ensures
            r.0 == (active_tasks > 0),
            final(self).state == if active_tasks > 0 {
                ShutdownState { armed_delay: Some(delay), countdown_until: None }
            } else {
                old(self).state
            },
            r.1 == old(self).news(final(self).state, now),
            final(self).published == final(self).state.seen(now),
    {
        let accepted: bool = self.state.arm(delay, active_tasks);
        let told = self.publish(now);
        (accepted, told)
    }

    /// Gives the intention up, whether it waits or counts down.
    pub fn disarm(&mut self, now: Instant) -> (r: Option<PowerStatusDto>)
        ensures
            final(self).state == ShutdownState::idle(),
            r == old(self).news(ShutdownState::idle(), now),
            final(self).published == ShutdownState::idle().seen(now),
    {
        self.state.disarm();
        self.publish(now)
    }

    /// One tick: whether the machine is to be shut down now, and what is to be told.
    pub fn tick(&mut self, active_tasks: u32, pending_tasks: u32, now: Instant) -> (r: (
        bool,
        Option<PowerStatusDto>,
    ))
        requires
            old(self).state.armed_delay is Some && old(self).state.countdown_until is None
                ==> now.nanos + (old(self).state.armed_delay->0).nanos <= u128::MAX,
        ensures
            r.0 == old(self).state.fires(active_tasks, pending_tasks, now),
            final(self).state == old(self).state.advanced(active_tasks, pending_tasks, now),
            r.1 == old(self).news(final(self).state, now),
            final(self).published == final(self).state.seen(now),
    {
        let fired: bool = self.state.advance(active_tasks, pending_tasks, now);
        let told = self.publish(now);
        (fired, told)
    }
}

/// Once the machine was told to shut down, it is not told again until a shutdown is asked for
/// anew: further looks do nothing.
pub proof fn law_countdown_fires_once(
    state: ShutdownState,
    active: u32,
    pending: u32,
    now: Instant,
    active_later: u32,
    pending_later: u32,
    later: Instant,
)
    requires
        state.fires(active, pending, now),
    ensures
        ({
            let after = state.advanced(active, pending, now);
            &&& after == ShutdownState::idle()
            &&& !after.fires(active_later, pending_later, later)
            &&& after.advanced(active_later, pending_later, later) == after
        }),
{
}

/// A task that appears during the countdown stops it and leaves the intention standing: the
/// countdown begins anew, in full, when the tasks are done again.
pub proof fn law_new_task_restarts_the_countdown(
    state: ShutdownState,
    active: u32,
    pending: u32,
    now: Instant,
    later: Instant,
)
    requires
        state.armed_delay is Some,
        !ShutdownState::all_done(active, pending),
    ensures
        ({
            let after = state.advanced(active, pending, now);
            &&& !state.fires(active, pending, now)
            &&& after.armed_delay == state.armed_delay
            &&& after.countdown_until is None
            &&& after.deadline(0, 0, later) == Some(later.after(state.armed_delay->0))
        }),
{
}

/// The machine is never shut down while a task is active or waits, nor where no shutdown was
/// asked for, nor before the countdown is over.
pub proof fn law_never_fires_early(state: ShutdownState, active: u32, pending: u32, now: Instant)
    requires
        state.fires(active, pending, now),
        state.armed_delay is Some ==> now.nanos + (state.armed_delay->0).nanos <= u128::MAX,
    ensures
        active == 0,
        pending == 0,
        state.armed_delay is Some,
        state.countdown_until is Some ==> now.nanos >= (state.countdown_until->0).nanos,
        state.countdown_until is None ==> (state.armed_delay->0).nanos == 0,
{
}

/// From the first look that finds all tasks done, the countdown takes the delay that was asked
/// for: a later look fires exactly when the delay is over.
pub proof fn law_countdown_takes_the_delay(delay: Duration, start: Instant, later: Instant)
    requires
        delay.nanos > 0,
        start.nanos + delay.nanos <= u128::MAX,
    ensures
        ({
            let armed = ShutdownState { armed_delay: Some(delay), countdown_until: None };
            let counting = armed.advanced(0, 0, start);
            &&& !armed.fires(0, 0, start)
            &&& counting.armed_delay == Some(delay)
            &&& counting.fires(0, 0, later) == (later.nanos >= start.nanos + delay.nanos)
        }),
{
}

/// What the status bar shows of the intention.
#[derive(Clone, Copy, Debug, PartialEq, Eq, Structural)]
pub struct ShutdownStatus {
    pub armed_delay: Option<Duration>,
    pub countdown_remaining: Option<Duration>,
}

pub open spec fn status_of(power: PowerStatusDto) -> ShutdownStatus {
    ShutdownStatus {
        armed_delay: match power.armed_delay_secs {
            Some(secs) => Some(Duration::of_secs(secs)),
            None => None,
        },
        countdown_remaining: match power.countdown_remaining_secs {
            Some(secs) => Some(Duration::of_secs(secs)),
            None => None,
        },
    }
}

/// What the status bar shows of the intention.
pub fn shutdown_status(power: PowerStatusDto) -> (r: ShutdownStatus)
    ensures
        r == status_of(power),
{
    ShutdownStatus {
        armed_delay: match power.armed_delay_secs {
            Some(secs) => Some(Duration::from_secs(secs)),
            None => None,
        },
        countdown_remaining: match power.countdown_remaining_secs {
            Some(secs) => Some(Duration::from_secs(secs)),
            None => None,
        },
    }
}

/// What a change of the intention asks of the main window.
#[derive(Clone, Copy, Debug, PartialEq, Eq, Structural)]
pub enum CountdownNotice {
    /// Nothing has changed.
    Keep,
    /// Show the time that is left.
    Show(Duration),
    /// Take the notice away.
    Clear,
}

/// Takes over a new state of the intention, and says what becomes of the notice in the main
/// window.
pub fn apply_power(shown: &mut ShutdownStatus, power: PowerStatusDto) -> (r: CountdownNotice)
    ensures
        *final(shown) == status_of(power),
        r == if *old(shown) == status_of(power) {
            CountdownNotice::Keep
        } else {
            match status_of(power).countdown_remaining {
                Some(remaining) => CountdownNotice::Show(remaining),
                None => CountdownNotice::Clear,
            }
        },
{
    let next = shutdown_status(power);
    if *shown == next {
        return CountdownNotice::Keep;
    }
    *shown = next;
    match next.countdown_remaining {
        Some(remaining) => CountdownNotice::Show(remaining),
        None => CountdownNotice::Clear,
    }
}

/// The time that is left, in minutes and seconds.
pub fn format_remaining(remaining: Duration) -> (r: String)
    ensures
        r@ == mm_ss(whole_secs(remaining) as nat),
{
    minutes_seconds(remaining.as_secs())
}

/// A command that switches the machine off.
#[derive(Debug)]
pub struct ShutdownCommand {
    pub program: &'static str,
    pub args: Vec<&'static str>,
}

impl ShutdownCommand {
    /// The program, and its arguments.
    pub open spec fn told(self) -> (Seq<char>, Seq<Seq<char>>) {
        (self.program@, self.args@.map_values(|arg: &'static str| arg@))
    }
}

/// The commands that switch a machine off, in the order in which they are tried until one
/// succeeds: program and arguments.
pub open spec fn shutdown_plan(platform: Platform) -> Seq<(Seq<char>, Seq<Seq<char>>)> {
    match platform {
        Platform::Windows => seq![("shutdown"@, seq!["/s"@, "/f"@, "/t"@, "0"@])],
        Platform::Macos => seq![
            ("osascript"@, seq!["-e"@, "tell app \"System Events\" to shut down"@]),
        ],
        Platform::Unix => seq![
            ("systemctl"@, seq!["poweroff"@]),
            ("loginctl"@, seq!["poweroff"@]),
        ],
    }
}

/// The commands that switch a machine off, in the order in which they are tried until one
/// succeeds.
pub fn shutdown_commands(platform: Platform) -> (r: Vec<ShutdownCommand>)
    ensures
        r@.map_values(|command: ShutdownCommand| command.told()) == shutdown_plan(platform),
{
    let r = match platform {
        Platform::Windows => vec![
            ShutdownCommand { program: "shutdown", args: vec!["/s", "/f", "/t", "0"] },
        ],
        Platform::Macos => vec![
            ShutdownCommand {
                program: "osascript",
                args: vec!["-e", "tell app \"System Events\" to shut down"],
            },
        ],
        Platform::Unix => vec![
            ShutdownCommand { program: "systemctl", args: vec!["poweroff"] },
            ShutdownCommand { program: "loginctl", args: vec!["poweroff"] },
        ],
    };
    proof {
        let plan = shutdown_plan(platform);
        let told = r@.map_values(|command: ShutdownCommand| command.told());
        assert(told.len() == plan.len());
        assert forall|i: int| 0 <= i < told.len() implies told[i] == plan[i] by {
            assert(told[i].1 =~= plan[i].1);
        }
        assert(told =~= plan);
    }
    r
}

/// A shutdown can be asked for only while a task is active; asking for it again takes the new delay
/// and begins anew, and giving it up leaves nothing standing.
pub proof fn law_shutdown_is_asked_for_and_given_up(
    ask: &mut PowerService,
    drop: &mut PowerService,
    delay: Duration,
    active: u32,
    now: Instant,
    asked: (bool, Option<PowerStatusDto>),
    dropped: Option<PowerStatusDto>,
)
    requires
        call_ensures(PowerService::arm, (ask, delay, active, now), asked),
        *old(drop) == *final(ask),
        call_ensures(PowerService::disarm, (drop, now), dropped),
    ensures
        asked.0 <==> active > 0,
        active > 0 ==> final(ask).state.armed_delay == Some(delay) && final(ask).state.countdown_until is None,
        active == 0 ==> final(ask).state == old(ask).state,
        final(drop).state.armed_delay is None,
        final(drop).state.countdown_until is None,
        final(drop).published.armed_delay_secs is None,
        final(drop).published.countdown_remaining_secs is None,
{
}

/// A shutdown that was asked for waits for the tasks, counts down, and comes when the delay is over
/// and not before: a look while tasks are left does nothing, the look that finds them done begins
/// the countdown, and a later one fires exactly from the end of the delay on.
pub proof fn law_shutdown_comes_when_the_delay_is_over(
    wait: &mut ShutdownState,
    begin: &mut ShutdownState,
    end: &mut ShutdownState,
    delay: Duration,
    active: u32,
    start: Instant,
    later: Instant,
    waited: bool,
    began: bool,
    fired: bool,
)
    requires
        old(wait).armed_delay == Some(delay),
        old(wait).countdown_until is None,
        active > 0,
        delay.nanos > 0,
        start.nanos + delay.nanos <= u128::MAX,
        call_ensures(ShutdownState::advance, (wait, active, 0u32, start), waited),
        *old(begin) == *final(wait),
        call_ensures(ShutdownState::advance, (begin, 0u32, 0u32, start), began),
        *old(end) == *final(begin),
        call_ensures(ShutdownState::advance, (end, 0u32, 0u32, later), fired),
    ensures
        !waited,
        final(wait).armed_delay == Some(delay),
        !began,
        final(begin).countdown_until is Some,
        (final(begin).countdown_until->0).nanos == start.nanos + delay.nanos,
        fired <==> later.nanos >= start.nanos + delay.nanos,
        fired ==> final(end).armed_delay is None && final(end).countdown_until is None,
        !fired ==> *final(end) == *final(begin),
{
}

/// A status is told when it differs from the one told last, and only then; what is told is what is
/// kept as told.
pub proof fn law_only_news_is_told(
    service: &mut PowerService,
    active: u32,
    pending: u32,
    now: Instant,
    looked: (bool, Option<PowerStatusDto>),
    seen: PowerStatusDto,
)
    requires
        call_ensures(PowerService::tick, (service, active, pending, now), looked),
        call_ensures(ShutdownState::status, (&final(service).state, now), seen),
    ensures
        looked.1 is None <==> seen == old(service).published,
        looked.1 is Some ==> looked.1 == Some(seen),
        final(service).published == seen,
{
}

/// The status tells the delay that was asked for and the time that is left, in whole seconds.
pub proof fn law_status_tells_delay_and_rest(
    state: &ShutdownState,
    secs: u64,
    rest: u64,
    now: Instant,
    status: PowerStatusDto,
)
    requires
        state.armed_delay == Some(Duration { nanos: (secs * 1_000_000_000) as u128 }),
        state.countdown_until == Some(Instant { nanos: (now.nanos + rest * 1_000_000_000) as u128 }),
        now.nanos + rest * 1_000_000_000 <= u128::MAX,
        call_ensures(ShutdownState::status, (state, now), status),
    ensures
        status.armed_delay_secs == Some(secs),
        status.countdown_remaining_secs == Some(rest),
{
}

/// The window shows the time that is left while a countdown runs, takes the notice away when none
/// does, and keeps it while nothing has changed.
pub proof fn law_notice_follows_the_countdown(
    shown: &mut ShutdownStatus,
    again: &mut ShutdownStatus,
    power: PowerStatusDto,
    first: CountdownNotice,
    second: CountdownNotice,
    secs: u64,
)
    requires
        call_ensures(apply_power, (shown, power), first),
        *old(again) == *final(shown),
        call_ensures(apply_power, (again, power), second),
    ensures
        second == CountdownNotice::Keep,
        first != CountdownNotice::Keep && power.countdown_remaining_secs == Some(secs) ==> match first {
            CountdownNotice::Show(left) => left.nanos == secs * 1_000_000_000,
            _ => false,
        },
        first != CountdownNotice::Keep && power.countdown_remaining_secs is None ==> first
            == CountdownNotice::Clear,
        power.armed_delay_secs is None <==> final(shown).armed_delay is None,
{
}

/// What the service tells of the shutdown is shown in the same seconds.
pub proof fn law_told_seconds_are_shown(power: PowerStatusDto, shown: ShutdownStatus, secs: u64)
    requires
        call_ensures(shutdown_status, (power,), shown),
    ensures
        power.armed_delay_secs == Some(secs) ==> shown.armed_delay is Some && (
        shown.armed_delay->0).nanos == secs * 1_000_000_000,
        power.armed_delay_secs is None ==> shown.armed_delay is None,
        power.countdown_remaining_secs == Some(secs) ==> shown.countdown_remaining is Some && (
        shown.countdown_remaining->0).nanos == secs * 1_000_000_000,
        power.countdown_remaining_secs is None ==> shown.countdown_remaining is None,
{
}

/// The rest of the countdown is written by minutes and seconds.
pub proof fn law_rest_is_written_by_minutes(m: u64, s: u64, text: String)
    requires
        s < 60,
        m <= 1_000_000,
        call_ensures(format_remaining, (Duration::of_secs((m * 60 + s) as u64),), text),
    ensures
        text@ == padded(m as nat) + ":"@ + padded(s as nat),
{
}

proof fn lemma_told(commands: Seq<ShutdownCommand>, plan: Seq<(Seq<char>, Seq<Seq<char>>)>)
    requires
        commands.map_values(|command: ShutdownCommand| command.told()) == plan,
    ensures
        commands.len() == plan.len(),
        forall|i: int| 0 <= i < plan.len() ==> (#[trigger] commands[i]).told() == plan[i],
{
    let told = commands.map_values(|command: ShutdownCommand| command.told());
    assert forall|i: int| 0 <= i < plan.len() implies (#[trigger] commands[i]).told() == plan[i] by {
        assert(told[i] == commands[i].told());
    }
}

proof fn lemma_args(command: ShutdownCommand)
    ensures
        command.told().1.len() == command.args@.len(),
        forall|i: int|
            0 <= i < command.args@.len() ==> command.told().1[i] == (#[trigger] command.args@[i])@,
{
}

/// Every system is switched off by its own program; where two can do it, the first is tried first.
pub proof fn law_systems_are_switched_off_their_way(
    windows: Vec<ShutdownCommand>,
    macos: Vec<ShutdownCommand>,
    unix: Vec<ShutdownCommand>,
)
    requires
        call_ensures(shutdown_commands, (Platform::Windows,), windows),
        call_ensures(shutdown_commands, (Platform::Macos,), macos),
        call_ensures(shutdown_commands, (Platform::Unix,), unix),
    ensures
        windows@.len() == 1 && windows@[0].program@ == "shutdown"@,
        windows@[0].args@.len() == 4 && windows@[0].args@[0]@ == "/s"@ && windows@[0].args@[3]@
            == "0"@,
        macos@.len() == 1 && macos@[0].program@ == "osascript"@,
        macos@[0].args@.len() == 2 && macos@[0].args@[0]@ == "-e"@,
        unix@.len() == 2 && unix@[0].program@ == "systemctl"@ && unix@[1].program@ == "loginctl"@,
        unix@[0].args@.len() == 1 && unix@[0].args@[0]@ == "poweroff"@,
        unix@[1].args@.len() == 1 && unix@[1].args@[0]@ == "poweroff"@,
{
    lemma_told(windows@, shutdown_plan(Platform::Windows));
    lemma_told(macos@, shutdown_plan(Platform::Macos));
    lemma_told(unix@, shutdown_plan(Platform::Unix));
    assert(windows@[0].told() == shutdown_plan(Platform::Windows)[0]);
    assert(macos@[0].told() == shutdown_plan(Platform::Macos)[0]);
    assert(unix@[0].told() == shutdown_plan(Platform::Unix)[0]);
    assert(unix@[1].told() == shutdown_plan(Platform::Unix)[1]);
    lemma_args(windows@[0]);
    lemma_args(macos@[0]);
    lemma_args(unix@[0]);
    lemma_args(unix@[1]);
    assert(windows@[0].told().1.len() == 4);
    assert(macos@[0].told().1.len() == 2);
    assert(unix@[0].told().1.len() == 1 && unix@[1].told().1.len() == 1);
}

} // verus!
