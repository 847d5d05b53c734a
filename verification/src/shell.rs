//! The agent's outer shell: whether it stays when the last window closes, when it brings the
//! desktop program up, and when it leaves.
//!
//! With a tray that the user has not switched off the agent stays. Without one it goes with the
//! interface; should the interface vanish without a word, the agent leaves after a while with
//! nothing to do. A build without a tray always stays.

use vstd::prelude::*;

use crate::capture_link::{capture_url, is_capture_url, normalize_capture_url, normalized, torrent_file_path};
use crate::clock::{Duration, Instant};
use crate::launch::{torrent_named, CaptureCall, START_MINIMIZED_TO_TRAY_KEY};
use crate::preferences::Preferences;
use crate::progress_window::PROGRESS_WINDOW_PREF;
use crate::snapshot::{AgentSnapshot, ShellStatusDto, TrayUnavailableReason};
use crate::text::texts;

verus! {

/// How long the agent waits without anything to do before it leaves, in seconds.
pub const IDLE_EXIT_GRACE_SECS: u64 = 15;

/// The preference for staying in the tray, on by default.
pub const CLOSE_TO_TRAY_KEY: &'static str = "close_to_tray";

/// Whether there is a tray.
#[derive(Clone, Copy, Debug, PartialEq, Eq, Structural)]
pub enum TrayAvailability {
    Available,
    Unavailable(TrayUnavailableReason),
}

/// What the tray or the system asks for.
#[derive(Debug, PartialEq, Eq)]
pub enum TrayAction {
    ShowWindow,
    PauseAll,
    ResumeAll,
    CancelShutdown,
    Quit,
    /// The system handed over links or torrent files.
    OpenUrls(Vec<String>),
    /// The user logs out, or the machine goes down.
    SessionEnd,
}

pub open spec fn status_for(availability: TrayAvailability, preferences: &Preferences) -> ShellStatusDto {
    match availability {
        TrayAvailability::Available => ShellStatusDto {
            tray_available: true,
            tray_unavailable_reason: None,
            resident: preferences.flag_or(CLOSE_TO_TRAY_KEY@, true),
        },
        TrayAvailability::Unavailable(reason) => ShellStatusDto {
            tray_available: false,
            tray_unavailable_reason: Some(reason),
            resident: reason == TrayUnavailableReason::NotBuilt,
        },
    }
}

/// Whether there is a tray, and whether the agent stays when the last window closes.
pub fn shell_status(availability: TrayAvailability, preferences: &Preferences) -> (r: ShellStatusDto)
    ensures
        r == status_for(availability, preferences),
{
    let close_to_tray: bool = preferences.preference_bool(CLOSE_TO_TRAY_KEY, true);
    match availability {
        TrayAvailability::Available => ShellStatusDto {
            tray_available: true,
            tray_unavailable_reason: None,
            resident: close_to_tray,
        },
        TrayAvailability::Unavailable(reason) => ShellStatusDto {
            tray_available: false,
            tray_unavailable_reason: Some(reason),
            resident: reason == TrayUnavailableReason::NotBuilt,
        },
    }
}

/// What to tell the service about choices that it waits for.
#[derive(Clone, Copy, Debug, PartialEq, Eq, Structural)]
pub enum SelectionStep {
    Nothing,
    Subscribe,
    Unsubscribe,
}

/// The shell's state.
#[derive(Debug)]
pub struct ShellState {
    pub availability: TrayAvailability,
    /// How many interfaces are connected.
    pub ui_clients: usize,
    pub resident: bool,
    pub tray_visible: bool,
    /// When the desktop program was last brought up, in milliseconds.
    pub last_prompt_launch_ms: i64,
    /// Whether the service asks this agent for choices.
    pub selection_subscribed: bool,
}

impl ShellState {
    /// Whether someone is there to be asked for choices, or can be brought up.
    pub open spec fn wants_selections(self) -> bool {
        self.ui_clients > 0 || self.tray_visible
    }

    /// What to tell the service: nothing where it knows, unless it must be told again; and
    /// nothing while it cannot be reached.
    pub open spec fn selection_step(self, force: bool, connected: bool) -> SelectionStep {
        let want = self.wants_selections();
        if (want == self.selection_subscribed && !(force && want)) || !connected {
            SelectionStep::Nothing
        } else if want {
            SelectionStep::Subscribe
        } else {
            SelectionStep::Unsubscribe
        }
    }

    /// The state once it is known what to tell the service: while it cannot be reached it knows
    /// nothing.
    pub open spec fn after_step(self, force: bool, connected: bool) -> ShellState {
        let want = self.wants_selections();
        if (want == self.selection_subscribed && !(force && want)) || connected {
            self
        } else {
            ShellState { selection_subscribed: false, ..self }
        }
    }

    pub fn new(availability: TrayAvailability, status: ShellStatusDto) -> (r: ShellState)
        ensures
            r == (ShellState {
                availability,
                ui_clients: 0,
                resident: status.resident,
                tray_visible: status.tray_available && status.resident,
                last_prompt_launch_ms: 0,
                selection_subscribed: false,
            }),
    {
        ShellState {
            availability,
            ui_clients: 0,
            resident: status.resident,
            tray_visible: status.tray_available && status.resident,
            last_prompt_launch_ms: 0,
            selection_subscribed: false,
        }
    }

    pub fn resident(&self) -> (r: bool)
        ensures
            r == self.resident,
    {
        self.resident
    }

    pub fn ui_clients(&self) -> (r: usize)
        ensures
            r == self.ui_clients,
    {
        self.ui_clients
    }

    /// Works out what to tell the service about choices. `force` is for a new connection, on
    /// which nothing was told yet.
    pub fn reconcile_selection(&mut self, force: bool, connected: bool) -> (r: SelectionStep)
        ensures
            r == old(self).selection_step(force, connected),
            *final(self) == old(self).after_step(force, connected),
    {
        let want: bool = self.ui_clients > 0 || self.tray_visible;
        if want == self.selection_subscribed && !(force && want) {
            return SelectionStep::Nothing;
        }
        if !connected {
            self.selection_subscribed = false;
            return SelectionStep::Nothing;
        }
        if want {
            SelectionStep::Subscribe
        } else {
            SelectionStep::Unsubscribe
        }
    }

    /// Takes note of the service's answer; a failure counts as not told.
    pub fn selection_answered(&mut self, step: SelectionStep, ok: bool)
        ensures
            *final(self) == (ShellState {
                selection_subscribed: match step {
                    SelectionStep::Nothing => old(self).selection_subscribed,
                    SelectionStep::Subscribe => ok,
                    SelectionStep::Unsubscribe => false,
                },
                ..*old(self)
            }),
    {
        match step {
            SelectionStep::Nothing => {},
            SelectionStep::Subscribe => {
                self.selection_subscribed = ok;
            },
            SelectionStep::Unsubscribe => {
                self.selection_subscribed = false;
            },
        }
    }

    /// An interface connected.
    pub fn ui_connected(&mut self, connected: bool) -> (r: SelectionStep)
        requires
            old(self).ui_clients < usize::MAX,
        ensures
            ({
                let joined = ShellState {
                    ui_clients: (old(self).ui_clients + 1) as usize,
                    ..*old(self)
                };
                &&& r == joined.selection_step(false, connected)
                &&& *final(self) == joined.after_step(false, connected)
            }),
    {
        self.ui_clients = self.ui_clients + 1;
        self.reconcile_selection(false, connected)
    }

    /// An interface went.
    pub fn ui_disconnected(&mut self, connected: bool) -> (r: SelectionStep)
        ensures
            ({
                let left = ShellState {
                    ui_clients: if old(self).ui_clients == 0 {
                        0
                    } else {
                        (old(self).ui_clients - 1) as usize
                    },
                    ..*old(self)
                };
                &&& r == left.selection_step(false, connected)
                &&& *final(self) == left.after_step(false, connected)
            }),
    {
        self.ui_clients = self.ui_clients.saturating_sub(1);
        self.reconcile_selection(false, connected)
    }

    /// Whether the desktop program is to be brought up for a question: no interface is there, and
    /// the last time is long enough ago.
    pub open spec fn may_launch(self, now_ms: i64, cooldown_ms: i64) -> bool {
        self.ui_clients == 0 && now_ms - self.last_prompt_launch_ms >= cooldown_ms
    }

    fn take_launch(&mut self, now_ms: i64, cooldown_ms: i64) -> (r: bool)
        ensures
            r == old(self).may_launch(now_ms, cooldown_ms),
            *final(self) == if r {
                ShellState { last_prompt_launch_ms: now_ms, ..*old(self) }
            } else {
                *old(self)
            },
    {
        if self.ui_clients > 0 || (now_ms as i128 - self.last_prompt_launch_ms as i128)
            < cooldown_ms as i128 {
            return false;
        }
        self.last_prompt_launch_ms = now_ms;
        true
    }

    /// Brings the desktop program up for a question: the arguments, where it is brought up. While
    /// the agent stays only the question is shown; else there must be a window that the download
    /// can belong to.
    pub fn launch_for_prompt(&mut self, now_ms: i64, cooldown_ms: i64) -> (r: Option<Vec<String>>)
        ensures
            r is Some <==> old(self).may_launch(now_ms, cooldown_ms),
            r is Some ==> texts((r->0)@) == if old(self).resident {
                seq!["--capture"@]
            } else {
                Seq::empty()
            },
            *final(self) == if r is Some {
                ShellState { last_prompt_launch_ms: now_ms, ..*old(self) }
            } else {
                *old(self)
            },
    {
        if !self.take_launch(now_ms, cooldown_ms) {
            return None;
        }
        let mut args: Vec<String> = Vec::new();
        if self.resident {
            args.push("--capture".to_owned());
            assert(texts(args@) =~= seq!["--capture"@]);
        } else {
            assert(texts(args@) =~= Seq::<Seq<char>>::empty());
        }
        Some(args)
    }

    /// Brings the desktop program up to show the progress of a task that was made without asking:
    /// the arguments, where the user wants such windows and it is brought up.
    pub fn launch_for_progress(
        &mut self,
        task_id: &str,
        preferences: &Preferences,
        now_ms: i64,
        cooldown_ms: i64,
    ) -> (r: Option<Vec<String>>)
        ensures
            r is Some <==> preferences.flag_or(PROGRESS_WINDOW_PREF@, true) && old(self).may_launch(now_ms, cooldown_ms),
            r is Some ==> texts((r->0)@) == (if old(self).resident {
                seq!["--capture"@]
            } else {
                Seq::empty()
            }) + seq!["--progress-task"@, task_id@],
            *final(self) == if r is Some {
                ShellState { last_prompt_launch_ms: now_ms, ..*old(self) }
            } else {
                *old(self)
            },
    {
        if !preferences.preference_bool(PROGRESS_WINDOW_PREF, true) {
            return None;
        }
        if !self.take_launch(now_ms, cooldown_ms) {
            return None;
        }
        let mut args: Vec<String> = Vec::new();
        if self.resident {
            args.push("--capture".to_owned());
        }
        args.push("--progress-task".to_owned());
        args.push(task_id.to_owned());
        assert(texts(args@) =~= (if self.resident {
            seq!["--capture"@]
        } else {
            Seq::empty()
        }) + seq!["--progress-task"@, task_id@]);
        Some(args)
    }

    /// Works out anew whether the agent stays; where that changed, what is to be published, and
    /// what to tell the service about choices.
    pub fn refresh(&mut self, current: ShellStatusDto, preferences: &Preferences, connected: bool) -> (r:
        (Option<ShellStatusDto>, SelectionStep))
        ensures
            ({
                let next = status_for(old(self).availability, preferences);
                let refreshed = ShellState {
                    resident: next.resident,
                    tray_visible: next.tray_available && next.resident,
                    ..*old(self)
                };
                if current == next {
                    &&& r == (None::<ShellStatusDto>, SelectionStep::Nothing)
                    &&& *final(self) == refreshed
                } else {
                    &&& r == (Some(next), refreshed.selection_step(false, connected))
                    &&& *final(self) == refreshed.after_step(false, connected)
                }
            }),
    {
        let next = shell_status(self.availability, preferences);
        self.resident = next.resident;
        self.tray_visible = next.tray_available && next.resident;
        if current == next {
            return (None, SelectionStep::Nothing);
        }
        let step = self.reconcile_selection(false, connected);
        (Some(next), step)
    }

    /// Whether a start at login leaves the tray alone, by the user's wish; else the desktop
    /// program comes up minimized.
    pub fn autostart_in_tray(&self, preferences: &Preferences) -> (r: bool)
        ensures
            r == (self.tray_visible && preferences.flag_or(START_MINIMIZED_TO_TRAY_KEY@, false)),
    {
        self.tray_visible && preferences.preference_bool(START_MINIMIZED_TO_TRAY_KEY, false)
    }

    /// Whether the agent may leave: it does not stay, no interface is there, and there is nothing
    /// to do.
    pub open spec fn may_leave(self, snapshot: &AgentSnapshot) -> bool {
        self.availability != TrayAvailability::Unavailable(TrayUnavailableReason::NotBuilt)
            && !self.resident && self.ui_clients == 0 && idle(snapshot)
    }

    /// Whether the agent leaves now: it could do so for the whole time that it waits first.
    pub fn should_idle_exit(
        &self,
        snapshot: &AgentSnapshot,
        idle_since: &mut Option<Instant>,
        now: Instant,
    ) -> (r: bool)
        ensures
            *final(idle_since) == idle_next(*self, snapshot, *old(idle_since), now),
            r == leaves(*self, snapshot, *old(idle_since), now),
    {
        let eligible: bool = self.availability != TrayAvailability::Unavailable(
            TrayUnavailableReason::NotBuilt,
        ) && !self.resident && self.ui_clients == 0 && snapshot_is_idle(snapshot);
        if !eligible {
            *idle_since = None;
            return false;
        }
        let since = match *idle_since {
            Some(since) => since,
            None => now,
        };
        *idle_since = Some(since);
        now.saturating_duration_since(since).nanos >= Duration::from_secs(
            IDLE_EXIT_GRACE_SECS,
        ).nanos
    }
}

pub open spec fn grace() -> Duration {
    Duration::of_secs(IDLE_EXIT_GRACE_SECS)
}

pub open spec fn idle(snapshot: &AgentSnapshot) -> bool {
    snapshot.stats.active_tasks == 0 && snapshot.stats.pending_tasks == 0
        && snapshot.pending_captures == 0 && snapshot.pending_selections == 0
        && snapshot.power.armed_delay_secs is None
}

/// Whether there is nothing to do: no task, no question, no shutdown to come.
pub fn snapshot_is_idle(snapshot: &AgentSnapshot) -> (r: bool)
    ensures
        r == idle(snapshot),
{
    snapshot.stats.active_tasks == 0 && snapshot.stats.pending_tasks == 0
        && snapshot.pending_captures == 0 && snapshot.pending_selections == 0
        && snapshot.power.armed_delay_secs.is_none()
}

/// An agent that stays, and one that was built without a tray, never leaves for want of work.
pub proof fn law_resident_agents_never_leave(
    state: ShellState,
    snapshot: &AgentSnapshot,
    preferences: &Preferences,
)
    requires
        state.resident == status_for(state.availability, preferences).resident,
        status_for(state.availability, preferences).resident,
    ensures
        !state.may_leave(snapshot),
{
}

/// Since when the agent could leave, after one more look.
pub open spec fn idle_next(
    state: ShellState,
    snapshot: &AgentSnapshot,
    since: Option<Instant>,
    now: Instant,
) -> Option<Instant> {
    if !state.may_leave(snapshot) {
        None
    } else if since is None {
        Some(now)
    } else {
        since
    }
}

/// Whether the agent leaves at a look: it could do so for the whole time that it waits first.
pub open spec fn leaves(
    state: ShellState,
    snapshot: &AgentSnapshot,
    since: Option<Instant>,
    now: Instant,
) -> bool {
    match idle_next(state, snapshot, since, now) {
        Some(at) => now.since(at).nanos >= grace().nanos,
        None => false,
    }
}

/// The agent leaves only once it could have done so for the whole time that it waits: a look at
/// which it could not begins the wait anew.
pub proof fn law_idle_exit_waits_for_the_grace(
    state: ShellState,
    snapshot: &AgentSnapshot,
    busy: ShellState,
    since: Option<Instant>,
    first: Instant,
    later: Instant,
)
    requires
        !busy.may_leave(snapshot),
        state.may_leave(snapshot),
        first.nanos <= later.nanos,
    ensures
        ({
            let reset = idle_next(busy, snapshot, since, first);
            let begun = idle_next(state, snapshot, reset, first);
            &&& !leaves(busy, snapshot, since, first)
            &&& !leaves(state, snapshot, reset, first)
            &&& leaves(state, snapshot, begun, later) == (later.nanos - first.nanos
                >= grace().nanos)
        }),
{
}

/// What the shell hears from the service.
#[derive(Clone, Copy, Debug, PartialEq, Eq, Structural)]
pub enum ShellEvent {
    /// The service waits for a choice.
    SelectionPending,
    /// The service reported everything anew.
    DaemonSnapshotReplaced,
    DaemonConnected,
    /// Some events were missed.
    Lagged,
    Other,
}

/// What the shell does then.
#[derive(Clone, Copy, Debug, PartialEq, Eq, Structural)]
pub enum ShellReaction {
    Nothing,
    /// Bring the desktop program up for a question.
    LaunchForPrompt,
    /// Tell the service again that choices are made here.
    ResubscribeSelections,
}

/// What the shell does about an event. A new connection to the service has forgotten who makes
/// choices, and events that were missed may have told of one.
pub fn handle_frame(state: &ShellState, event: ShellEvent) -> (r: ShellReaction)
    ensures
        r == match event {
            ShellEvent::SelectionPending => if state.tray_visible {
                ShellReaction::LaunchForPrompt
            } else {
                ShellReaction::Nothing
            },
            ShellEvent::DaemonSnapshotReplaced => ShellReaction::ResubscribeSelections,
            ShellEvent::DaemonConnected => ShellReaction::ResubscribeSelections,
            ShellEvent::Lagged => ShellReaction::ResubscribeSelections,
            ShellEvent::Other => ShellReaction::Nothing,
        },
{
    match event {
        ShellEvent::SelectionPending => if state.tray_visible {
            ShellReaction::LaunchForPrompt
        } else {
            ShellReaction::Nothing
        },
        ShellEvent::DaemonSnapshotReplaced | ShellEvent::DaemonConnected | ShellEvent::Lagged =>
            ShellReaction::ResubscribeSelections,
        ShellEvent::Other => ShellReaction::Nothing,
    }
}

/// What is done about an action of the tray.
#[derive(Debug)]
pub enum ActionStep {
    ShowWindow,
    PauseAll,
    ResumeAll,
    DisarmShutdown,
    Quit,
    /// Hand these to the agent, and show the main window after that where it says so.
    Submit { calls: Vec<CaptureCall>, show_window: bool },
}

/// What a handed-over text is: a link, a torrent file, or neither.
pub open spec fn opened_is(call: CaptureCall, url: Seq<char>) -> bool {
    match call {
        CaptureCall::Url(text) => capture_url(url) && text@ == normalized(url),
        CaptureCall::TorrentFile(path) => !capture_url(url) && torrent_named(url) == Some(path@),
    }
}

/// Those of the given texts that are links or torrent files.
pub open spec fn openable_texts(urls: Seq<Seq<char>>) -> Seq<Seq<char>>
    decreases urls.len(),
{
    if urls.len() == 0 {
        Seq::empty()
    } else {
        let before = openable_texts(urls.drop_last());
        let url = urls.last();
        if capture_url(url) || torrent_named(url) is Some {
            before.push(url)
        } else {
            before
        }
    }
}

/// What is handed to the agent of texts that the system handed over: links as the links that were
/// meant, torrent files by their paths; other texts are passed over.
pub fn submit_opened_urls(urls: &Vec<String>) -> (r: Vec<CaptureCall>)
    ensures
        ({
            let taken = openable_texts(texts(urls@));
            &&& r@.len() == taken.len()
            &&& forall|i: int| 0 <= i < r@.len() ==> opened_is(#[trigger] r@[i], taken[i])
        }),
{
    let ghost views = texts(urls@);
    let mut r: Vec<CaptureCall> = Vec::new();
    let mut i: usize = 0;
    while i < urls.len()
        invariant
            i <= urls@.len(),
            views == texts(urls@),
            r@.len() == openable_texts(views.take(i as int)).len(),
            forall|k: int|
                0 <= k < r@.len() ==> opened_is(
                    #[trigger] r@[k],
                    openable_texts(views.take(i as int))[k],
                ),
        decreases urls@.len() - i,
    {
        let url = urls[i].as_str();
        assert(views.take(i + 1).drop_last() =~= views.take(i as int));
        assert(views.take(i + 1).last() == url@);
        if is_capture_url(url) {
            r.push(CaptureCall::Url(normalize_capture_url(url)));
        } else if let Some(path) = torrent_file_path(url) {
            r.push(CaptureCall::TorrentFile(path));
        }
        i += 1;
    }
    assert(views.take(i as int) =~= views);
    r
}

/// What is done about an action of the tray. Links that the system handed over while no interface
/// is there and the agent does not stay bring the main window up.
pub fn handle_action(state: &ShellState, action: &TrayAction) -> (r: ActionStep)
    ensures
        match *action {
            TrayAction::ShowWindow => r is ShowWindow,
            TrayAction::PauseAll => r is PauseAll,
            TrayAction::ResumeAll => r is ResumeAll,
            TrayAction::CancelShutdown => r is DisarmShutdown,
            TrayAction::Quit => r is Quit,
            TrayAction::SessionEnd => r is Quit,
            TrayAction::OpenUrls(urls) => match r {
                ActionStep::Submit { calls, show_window } => {
                    let taken = openable_texts(texts(urls@));
                    &&& calls@.len() == taken.len()
                    &&& forall|i: int|
                        0 <= i < calls@.len() ==> opened_is(#[trigger] calls@[i], taken[i])
                    &&& show_window == (!state.resident && state.ui_clients == 0)
                },
                _ => false,
            },
        },
{
    match action {
        TrayAction::ShowWindow => ActionStep::ShowWindow,
        TrayAction::PauseAll => ActionStep::PauseAll,
        TrayAction::ResumeAll => ActionStep::ResumeAll,
        TrayAction::CancelShutdown => ActionStep::DisarmShutdown,
        TrayAction::Quit | TrayAction::SessionEnd => ActionStep::Quit,
        TrayAction::OpenUrls(urls) => ActionStep::Submit {
            calls: submit_opened_urls(urls),
            show_window: !state.resident && state.ui_clients == 0,
        },
    }
}

/// With a tray the agent stays unless the user wants otherwise; without one it goes, unless it was
/// built without, and the reason is told.
pub proof fn law_agent_stays_where_it_has_a_tray(
    preferences: &Preferences,
    reason: TrayUnavailableReason,
    with_tray: ShellStatusDto,
    without: ShellStatusDto,
)
    requires
        call_ensures(shell_status, (TrayAvailability::Available, preferences), with_tray),
        call_ensures(shell_status, (TrayAvailability::Unavailable(reason), preferences), without),
    ensures
        with_tray.tray_available && with_tray.tray_unavailable_reason is None,
        with_tray.resident <==> preferences.flag("close_to_tray"@) != Some(false),
        !without.tray_available && without.tray_unavailable_reason == Some(reason),
        without.resident <==> reason == TrayUnavailableReason::NotBuilt,
{
}

/// Choices are asked for here while an interface is connected or the tray is shown: the first
/// interface that comes asks for them, the last that goes gives them up, where there is no tray.
pub proof fn law_choices_are_asked_for_while_someone_is_there(
    come: &mut ShellState,
    answer: &mut ShellState,
    go: &mut ShellState,
    joined: SelectionStep,
    left: SelectionStep,
)
    requires
        old(come).ui_clients == 0,
        !old(come).tray_visible,
        !old(come).selection_subscribed,
        call_ensures(ShellState::ui_connected, (come, true), joined),
        *old(answer) == *final(come),
        call_ensures(ShellState::selection_answered, (answer, joined, true), ()),
        *old(go) == *final(answer),
        call_ensures(ShellState::ui_disconnected, (go, true), left),
    ensures
        joined == SelectionStep::Subscribe,
        final(come).ui_clients == 1,
        final(answer).selection_subscribed,
        left == SelectionStep::Unsubscribe,
        final(go).ui_clients == 0,
{
}

/// An interface that comes while another is there, or goes while another stays, changes nothing
/// about who is asked.
pub proof fn law_further_interfaces_change_nothing(
    come: &mut ShellState,
    go: &mut ShellState,
    joined: SelectionStep,
    left: SelectionStep,
)
    requires
        0 < old(come).ui_clients < usize::MAX,
        old(come).selection_subscribed,
        call_ensures(ShellState::ui_connected, (come, true), joined),
        *old(go) == *final(come),
        call_ensures(ShellState::ui_disconnected, (go, true), left),
    ensures
        joined == SelectionStep::Nothing && left == SelectionStep::Nothing,
        final(go).ui_clients == old(come).ui_clients,
        final(go).selection_subscribed,
{
}

/// The desktop program is brought up for a question where no interface is connected, and not again
/// before the pause is over; an agent that stays brings up only the question.
pub proof fn law_question_brings_the_program_up(
    first: &mut ShellState,
    second: &mut ShellState,
    now: i64,
    later: i64,
    cooldown: i64,
    args: Option<Vec<String>>,
    again: Option<Vec<String>>,
)
    requires
        0 <= now <= later,
        cooldown > 0,
        call_ensures(ShellState::launch_for_prompt, (first, now, cooldown), args),
        args is Some,
        *old(second) == *final(first),
        call_ensures(ShellState::launch_for_prompt, (second, later, cooldown), again),
    ensures
        old(first).ui_clients == 0,
        old(first).resident ==> texts((args->0)@) == seq!["--capture"@],
        !old(first).resident ==> (args->0)@.len() == 0,
        again is Some <==> later - now >= cooldown,
{
    assert(texts((args->0)@).len() == (args->0)@.len());
}

/// A task that is begun without asking brings the program up for its window, with the task's
/// identifier last, where such windows are wanted and no interface is connected.
pub proof fn law_begun_task_brings_its_window_up(
    shell: &mut ShellState,
    id: &str,
    preferences: &Preferences,
    now: i64,
    cooldown: i64,
    args: Option<Vec<String>>,
)
    requires
        call_ensures(
            ShellState::launch_for_progress,
            (shell, id, preferences, now, cooldown),
            args,
        ),
    ensures
        args is Some ==> texts((args->0)@).last() == id@ && texts((args->0)@)[texts(
            (args->0)@,
        ).len() - 2] == "--progress-task"@,
        old(shell).ui_clients > 0 ==> args is None,
        preferences.flag("desktop.progress_window"@) == Some(false) ==> args is None,
        preferences.flag("desktop.progress_window"@) is None && old(shell).ui_clients == 0 && now
            - old(shell).last_prompt_launch_ms >= cooldown ==> args is Some,
{
}

/// A change of the settings is told where it changes the status, and only there; afterwards the
/// shell stays as the status says.
pub proof fn law_status_changes_are_told(
    shell: &mut ShellState,
    current: ShellStatusDto,
    preferences: &Preferences,
    connected: bool,
    next: ShellStatusDto,
    told: (Option<ShellStatusDto>, SelectionStep),
    stays: bool,
)
    requires
        call_ensures(shell_status, (old(shell).availability, preferences), next),
        call_ensures(ShellState::refresh, (shell, current, preferences, connected), told),
        call_ensures(ShellState::resident, (&*final(shell),), stays),
    ensures
        current == next ==> told.0 is None,
        current != next ==> told.0 == Some(next),
        stays == next.resident,
        final(shell).tray_visible <==> next.tray_available && next.resident,
        final(shell).ui_clients == old(shell).ui_clients,
{
}

/// The agent has nothing to do exactly where no task runs or waits, nothing waits for the user's
/// word, and no shutdown was asked for.
pub proof fn law_idle_means_nothing_to_do(snapshot: &AgentSnapshot, is_idle: bool)
    requires
        call_ensures(snapshot_is_idle, (snapshot,), is_idle),
    ensures
        is_idle <==> {
            &&& snapshot.stats.active_tasks == 0
            &&& snapshot.stats.pending_tasks == 0
            &&& snapshot.pending_captures == 0
            &&& snapshot.pending_selections == 0
            &&& snapshot.power.armed_delay_secs is None
        },
{
}

/// An agent that need not stay leaves fifteen seconds after it was first seen with nothing to do and
/// nobody connected, and not before.
pub proof fn law_idle_agent_leaves_after_the_grace(
    shell: &ShellState,
    snapshot: &AgentSnapshot,
    first: &mut Option<Instant>,
    second: &mut Option<Instant>,
    now: Instant,
    later: Instant,
    at_once: bool,
    after: bool,
)
    requires
        shell.availability == TrayAvailability::Available,
        !shell.resident,
        shell.ui_clients == 0,
        call_ensures(snapshot_is_idle, (snapshot,), true),
        *old(first) is None,
        now.nanos <= later.nanos,
        call_ensures(ShellState::should_idle_exit, (shell, snapshot, first, now), at_once),
        *old(second) == *final(first),
        call_ensures(ShellState::should_idle_exit, (shell, snapshot, second, later), after),
    ensures
        !at_once,
        after <==> later.nanos - now.nanos >= 15_000_000_000,
{
}

/// A choice that the service waits for brings the program up where the tray is shown; a new
/// connection to the service asks for choices again.
pub proof fn law_pending_choice_brings_the_program_up(
    shell: &ShellState,
    pending: ShellReaction,
    connected: ShellReaction,
    replaced: ShellReaction,
    lagged: ShellReaction,
    other: ShellReaction,
)
    requires
        call_ensures(handle_frame, (shell, ShellEvent::SelectionPending), pending),
        call_ensures(handle_frame, (shell, ShellEvent::DaemonConnected), connected),
        call_ensures(handle_frame, (shell, ShellEvent::DaemonSnapshotReplaced), replaced),
        call_ensures(handle_frame, (shell, ShellEvent::Lagged), lagged),
        call_ensures(handle_frame, (shell, ShellEvent::Other), other),
    ensures
        pending == ShellReaction::LaunchForPrompt <==> shell.tray_visible,
        connected == ShellReaction::ResubscribeSelections,
        replaced == connected && lagged == connected,
        other == ShellReaction::Nothing,
{
}

/// What the tray asks for is what is done; the end of the session is leaving.
pub proof fn law_tray_does_what_it_asks(
    shell: &ShellState,
    show: ActionStep,
    pause: ActionStep,
    resume: ActionStep,
    cancel: ActionStep,
    quit: ActionStep,
    end: ActionStep,
)
    requires
        call_ensures(handle_action, (shell, &TrayAction::ShowWindow), show),
        call_ensures(handle_action, (shell, &TrayAction::PauseAll), pause),
        call_ensures(handle_action, (shell, &TrayAction::ResumeAll), resume),
        call_ensures(handle_action, (shell, &TrayAction::CancelShutdown), cancel),
        call_ensures(handle_action, (shell, &TrayAction::Quit), quit),
        call_ensures(handle_action, (shell, &TrayAction::SessionEnd), end),
    ensures
        show is ShowWindow && pause is PauseAll && resume is ResumeAll && cancel is DisarmShutdown,
        quit is Quit && end is Quit,
{
}

/// A single link that the system opens is handed over as what it stands for, and the window comes up
/// where nobody is there; what is neither a link nor a torrent file is passed over.
pub proof fn law_opened_link_is_handed_over(
    shell: &ShellState,
    urls: Vec<String>,
    url: String,
    step: ActionStep,
)
    requires
        urls@ == seq![url],
        call_ensures(handle_action, (shell, &TrayAction::OpenUrls(urls)), step),
    ensures
        match step {
            ActionStep::Submit { calls, show_window } => {
                &&& show_window <==> !shell.resident && shell.ui_clients == 0
                &&& capture_url(url@) ==> calls@.len() == 1 && match calls@[0] {
                    CaptureCall::Url(text) => text@ == normalized(url@),
                    _ => false,
                }
                &&& !capture_url(url@) && torrent_named(url@) is None ==> calls@.len() == 0
                &&& !capture_url(url@) && torrent_named(url@) is Some ==> calls@.len() == 1
                    && match calls@[0] {
                    CaptureCall::TorrentFile(path) => Some(path@) == torrent_named(url@),
                    _ => false,
                }
            },
            _ => false,
        },
{
    let list = texts(urls@);
    assert(list =~= seq![url@]);
    assert(list.drop_last() =~= Seq::empty());
    reveal_with_fuel(openable_texts, 2);
    match step {
        ActionStep::Submit { calls, show_window } => {
            if calls@.len() > 0 {
                assert(opened_is(calls@[0], openable_texts(list)[0]));
                assert(openable_texts(list)[0] == url@);
            }
        },
        _ => {},
    }
}

/// The program starts in the tray by itself only where the tray is shown and the user asked for it.
pub proof fn law_autostart_needs_a_shown_tray(
    shell: &ShellState,
    preferences: &Preferences,
    in_tray: bool,
)
    requires
        call_ensures(ShellState::autostart_in_tray, (shell, preferences), in_tray),
    ensures
        in_tray <==> shell.tray_visible && preferences.flag("start_minimized_to_tray"@) == Some(true),
{
}

/// Where nobody is connected to the service, nobody is asked; once it is back, who is wanted is asked
/// for again, and an unforced look changes nothing that is right already.
pub proof fn law_asking_needs_the_service(
    lost: &mut ShellState,
    found: &mut ShellState,
    calm: &mut ShellState,
    without: SelectionStep,
    forced: SelectionStep,
    quiet: SelectionStep,
)
    requires
        old(lost).ui_clients > 0,
        old(lost).selection_subscribed,
        call_ensures(ShellState::reconcile_selection, (lost, true, false), without),
        *old(found) == *final(lost),
        call_ensures(ShellState::reconcile_selection, (found, true, true), forced),
        old(calm).ui_clients > 0,
        old(calm).selection_subscribed,
        call_ensures(ShellState::reconcile_selection, (calm, false, true), quiet),
    ensures
        without == SelectionStep::Nothing,
        !final(lost).selection_subscribed,
        forced == SelectionStep::Subscribe,
        quiet == SelectionStep::Nothing,
        *final(calm) == *old(calm),
{
}

/// A shell begins as its status says, with nobody connected.
pub proof fn law_shell_begins_as_its_status_says(
    availability: TrayAvailability,
    status: ShellStatusDto,
    shell: ShellState,
    clients: usize,
    stays: bool,
)
    requires
        call_ensures(ShellState::new, (availability, status), shell),
        call_ensures(ShellState::ui_clients, (&shell,), clients),
        call_ensures(ShellState::resident, (&shell,), stays),
    ensures
        clients == 0,
        stays == status.resident,
        shell.tray_visible <==> status.tray_available && status.resident,
        !shell.selection_subscribed,
{
}

} // verus!
