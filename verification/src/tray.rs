//! The tray: what it shows, and what its entries do.

use vstd::prelude::*;

use crate::background_effects::{locale_of, locale_preference};
use crate::clock::{minutes_seconds, mm_ss};
use crate::power::PowerStatusDto;
use crate::shell::{TrayAction, TrayAvailability};
use crate::snapshot::{AgentSnapshot, TrayUnavailableReason};
use crate::text::{fill, filled, opt_text, padded, same};

verus! {

/// What stands beside the tray's icon while nothing else is to be said.
pub const DEFAULT_TOOLTIP: &'static str = "FluxDown";

/// Where the entry that gives up a shutdown stands: behind the window, a line, and the two
/// entries for all tasks.
pub const CANCEL_SHUTDOWN_POSITION: usize = 4;

/// All that the tray shows.
#[derive(Debug, PartialEq, Eq)]
pub struct TrayModel {
    pub visible: bool,
    pub show_window: String,
    pub pause_all: String,
    pub resume_all: String,
    /// The entry that gives up a shutdown, where one was asked for.
    pub cancel_shutdown: Option<String>,
    pub quit: String,
    pub tooltip: String,
}

/// What all that the tray shows says.
pub struct TrayView {
    pub visible: bool,
    pub show_window: Seq<char>,
    pub pause_all: Seq<char>,
    pub resume_all: Seq<char>,
    pub cancel_shutdown: Option<Seq<char>>,
    pub quit: Seq<char>,
    pub tooltip: Seq<char>,
}

impl View for TrayModel {
    type V = TrayView;

    open spec fn view(&self) -> TrayView {
        TrayView {
            visible: self.visible,
            show_window: self.show_window@,
            pause_all: self.pause_all@,
            resume_all: self.resume_all@,
            cancel_shutdown: opt_text(self.cancel_shutdown),
            quit: self.quit@,
            tooltip: self.tooltip@,
        }
    }
}

/// Whether two optional texts are the same.
pub fn same_option(a: &Option<String>, b: &Option<String>) -> (r: bool)
    ensures
        r == (opt_text(*a) == opt_text(*b)),
{
    match (a, b) {
        (Some(x), Some(y)) => same(x.as_str(), y.as_str()),
        (None, None) => true,
        _ => false,
    }
}

fn copy_option(a: &Option<String>) -> (r: Option<String>)
    ensures
        opt_text(r) == opt_text(*a),
{
    match a {
        Some(text) => Some(text.clone()),
        None => None,
    }
}

impl TrayModel {
    /// Whether the two show the same.
    pub fn is(&self, other: &TrayModel) -> (r: bool)
        ensures
            r == (self@ == other@),
    {
        self.visible == other.visible && same(
            self.show_window.as_str(),
            other.show_window.as_str(),
        ) && same(self.pause_all.as_str(), other.pause_all.as_str()) && same(
            self.resume_all.as_str(),
            other.resume_all.as_str(),
        ) && same_option(&self.cancel_shutdown, &other.cancel_shutdown) && same(
            self.quit.as_str(),
            other.quit.as_str(),
        ) && same(self.tooltip.as_str(), other.tooltip.as_str())
    }

    pub fn copy(&self) -> (r: TrayModel)
        ensures
            r@ == self@,
    {
        TrayModel {
            visible: self.visible,
            show_window: self.show_window.clone(),
            pause_all: self.pause_all.clone(),
            resume_all: self.resume_all.clone(),
            cancel_shutdown: copy_option(&self.cancel_shutdown),
            quit: self.quit.clone(),
            tooltip: self.tooltip.clone(),
        }
    }
}

/// Where the tray is shown.
pub trait TrayPort {
    /// Whether this may be shown here; anything may, unless the port says otherwise.
    open spec fn accepts(&self, model: TrayView) -> bool {
        true
    }

    /// Whether this was handed over to be shown here.
    open spec fn was_handed(&self, model: TrayView) -> bool {
        true
    }

    /// Shows this from now on.
    fn apply(&self, model: &TrayModel)
        requires
            self.accepts(model@),
        ensures
            self.was_handed(model@),
    ;
}

/// What decides what the tray shows.
#[derive(Debug, PartialEq, Eq)]
pub struct Inputs {
    pub visible: bool,
    /// The chosen language; nothing for that of the system.
    pub locale: Option<String>,
    pub power: PowerStatusDto,
}

/// What decides what the tray shows.
pub struct InputsView {
    pub visible: bool,
    pub locale: Option<Seq<char>>,
    pub power: PowerStatusDto,
}

impl View for Inputs {
    type V = InputsView;

    open spec fn view(&self) -> InputsView {
        InputsView { visible: self.visible, locale: opt_text(self.locale), power: self.power }
    }
}

pub open spec fn inputs_of(snapshot: &AgentSnapshot) -> InputsView {
    InputsView {
        visible: snapshot.shell.tray_available && snapshot.shell.resident,
        locale: locale_of(&snapshot.preferences),
        power: snapshot.power,
    }
}

impl Inputs {
    /// Reads what decides what the tray shows.
    pub fn read(snapshot: &AgentSnapshot) -> (r: Inputs)
        ensures
            r@ == inputs_of(snapshot),
    {
        Inputs {
            visible: snapshot.shell.tray_available && snapshot.shell.resident,
            locale: locale_preference(&snapshot.preferences),
            power: snapshot.power,
        }
    }

    /// Whether the two decide the same.
    pub fn is(&self, other: &Inputs) -> (r: bool)
        ensures
            r == (self@ == other@),
    {
        self.visible == other.visible && self.power == other.power && same_option(
            &self.locale,
            &other.locale,
        )
    }
}

/// The words of the tray, in one language. The last is a template with a place for `time`.
#[derive(Debug)]
pub struct TrayStrings {
    pub show_window: String,
    pub pause_all: String,
    pub resume_all: String,
    pub cancel_shutdown: String,
    pub quit: String,
    pub shutdown_countdown: String,
}

/// What the tray shows.
pub open spec fn tray_of(strings: TrayStrings, inputs: InputsView) -> TrayView {
    TrayView {
        visible: inputs.visible,
        show_window: strings.show_window@,
        pause_all: strings.pause_all@,
        resume_all: strings.resume_all@,
        cancel_shutdown: match inputs.power.armed_delay_secs {
            Some(_) => Some(strings.cancel_shutdown@),
            None => None,
        },
        quit: strings.quit@,
        tooltip: match inputs.power.countdown_remaining_secs {
            Some(remaining) => filled(
                strings.shutdown_countdown@,
                "time"@,
                mm_ss(remaining as nat),
            ),
            None => DEFAULT_TOOLTIP@,
        },
    }
}

/// What the tray shows: while a shutdown counts down, what is left of it; and where one was asked
/// for, the entry that gives it up.
pub fn build(strings: &TrayStrings, inputs: &Inputs) -> (r: TrayModel)
    ensures
        r@ == tray_of(*strings, inputs@),
{
    let tooltip = match inputs.power.countdown_remaining_secs {
        Some(remaining) => {
            let time = format_remaining(remaining);
            fill(strings.shutdown_countdown.as_str(), "time", time.as_str())
        },
        None => DEFAULT_TOOLTIP.to_owned(),
    };
    TrayModel {
        visible: inputs.visible,
        show_window: strings.show_window.clone(),
        pause_all: strings.pause_all.clone(),
        resume_all: strings.resume_all.clone(),
        cancel_shutdown: match inputs.power.armed_delay_secs {
            Some(_) => Some(strings.cancel_shutdown.clone()),
            None => None,
        },
        quit: strings.quit.clone(),
        tooltip,
    }
}

/// The time that is left, in minutes and seconds.
pub fn format_remaining(total_secs: u64) -> (r: String)
    ensures
        r@ == mm_ss(total_secs as nat),
{
    minutes_seconds(total_secs)
}

/// Shows the tray anew where what decides it has changed.
#[derive(Debug)]
pub struct TrayPresenter {
    pub last: Option<Inputs>,
}

impl TrayPresenter {
    pub open spec fn shown(&self) -> Option<InputsView> {
        match self.last {
            Some(inputs) => Some(inputs@),
            None => None,
        }
    }

    pub fn new() -> (r: TrayPresenter)
        ensures
            r.last is None,
    {
        TrayPresenter { last: None }
    }

    /// Whether the tray is to be shown anew, and in which language: nothing inside stands for
    /// that of the system.
    pub fn changed(&self, snapshot: &AgentSnapshot) -> (r: Option<Option<String>>)
        ensures
            (match r {
                Some(locale) => Some(opt_text(locale)),
                None => None,
            }) == if self.shown() == Some(inputs_of(snapshot)) {
                None
            } else {
                Some(inputs_of(snapshot).locale)
            },
    {
        let inputs = Inputs::read(snapshot);
        let known: bool = match &self.last {
            Some(last) => last.is(&inputs),
            None => false,
        };
        if known {
            None
        } else {
            Some(inputs.locale)
        }
    }

    /// What the tray shows from now on, with the words of the language in force; nothing where
    /// what decides it has not changed.
    pub fn next_model(&mut self, snapshot: &AgentSnapshot, strings: &TrayStrings) -> (r: Option<
        TrayModel,
    >)
        ensures
            (match r {
                Some(model) => Some(model@),
                None => None,
            }) == if old(self).shown() == Some(inputs_of(snapshot)) {
                None
            } else {
                Some(tray_of(*strings, inputs_of(snapshot)))
            },
            final(self).shown() == Some(inputs_of(snapshot)),
    {
        let inputs = Inputs::read(snapshot);
        let known: bool = match &self.last {
            Some(last) => last.is(&inputs),
            None => false,
        };
        if known {
            return None;
        }
        let model = build(strings, &inputs);
        self.last = Some(inputs);
        Some(model)
    }

    /// Shows the tray anew where what decides it has changed, and says whether it did: the port
    /// is handed what [`TrayPresenter::next_model`] gives. That is all that the port must accept,
    /// so that it is handed this and nothing else.
    pub fn update<P: TrayPort>(&mut self, port: &P, snapshot: &AgentSnapshot, strings: &TrayStrings) -> (r:
        bool)
        requires
            old(self).shown() != Some(inputs_of(snapshot)) ==> port.accepts(
                tray_of(*strings, inputs_of(snapshot)),
            ),
        ensures
            r == (old(self).shown() != Some(inputs_of(snapshot))),
            r ==> port.was_handed(tray_of(*strings, inputs_of(snapshot))),
            final(self).shown() == Some(inputs_of(snapshot)),
    {
        match self.next_model(snapshot, strings) {
            Some(model) => {
                port.apply(&model);
                true
            },
            None => false,
        }
    }
}

/// The entries of the tray's menu.
#[derive(Clone, Copy, Debug, PartialEq, Eq, Structural)]
pub struct MenuIds {
    pub show: u32,
    pub pause: u32,
    pub resume: u32,
    pub cancel_shutdown: u32,
    pub quit: u32,
}

impl MenuIds {
    /// What a chosen entry asks for.
    pub fn action(&self, id: u32) -> (r: Option<TrayAction>)
        ensures
            r == if id == self.show {
                Some(TrayAction::ShowWindow)
            } else if id == self.pause {
                Some(TrayAction::PauseAll)
            } else if id == self.resume {
                Some(TrayAction::ResumeAll)
            } else if id == self.cancel_shutdown {
                Some(TrayAction::CancelShutdown)
            } else if id == self.quit {
                Some(TrayAction::Quit)
            } else {
                None
            },
    {
        if id == self.show {
            Some(TrayAction::ShowWindow)
        } else if id == self.pause {
            Some(TrayAction::PauseAll)
        } else if id == self.resume {
            Some(TrayAction::ResumeAll)
        } else if id == self.cancel_shutdown {
            Some(TrayAction::CancelShutdown)
        } else if id == self.quit {
            Some(TrayAction::Quit)
        } else {
            None
        }
    }
}

/// What becomes of the entry that gives up a shutdown.
#[derive(Clone, Copy, Debug, PartialEq, Eq, Structural)]
pub enum CancelEntry {
    /// It is not there and stays away.
    Absent,
    /// It is there and is named anew.
    Rename,
    /// It is named and put into the menu at this place.
    InsertAt(usize),
    /// It is taken out.
    Remove,
}

/// What the menu of the tray holds.
#[derive(Debug)]
pub struct TrayUi {
    pub cancel_inserted: bool,
    pub applied: Option<TrayModel>,
}

impl TrayUi {
    pub open spec fn entry_change(self, model: TrayView) -> CancelEntry {
        match (model.cancel_shutdown, self.cancel_inserted) {
            (Some(_), false) => CancelEntry::InsertAt(CANCEL_SHUTDOWN_POSITION),
            (Some(_), true) => CancelEntry::Rename,
            (None, true) => CancelEntry::Remove,
            (None, false) => CancelEntry::Absent,
        }
    }

    pub open spec fn showing(self) -> Option<TrayView> {
        match self.applied {
            Some(model) => Some(model@),
            None => None,
        }
    }

    pub fn new() -> (r: TrayUi)
        ensures
            !r.cancel_inserted,
            r.applied is None,
    {
        TrayUi { cancel_inserted: false, applied: None }
    }

    /// Takes over what the tray is to show, and what becomes of the entry that gives up a
    /// shutdown; nothing where the tray shows it already.
    pub fn apply(&mut self, model: &TrayModel) -> (r: Option<CancelEntry>)
        ensures
            final(self).cancel_inserted == old(self).cancel_inserted,
            final(self).showing() == Some(model@),
            r == if old(self).showing() == Some(model@) {
                None
            } else {
                Some(old(self).entry_change(model@))
            },
    {
        let known: bool = match &self.applied {
            Some(applied) => applied.is(model),
            None => false,
        };
        if known {
            return None;
        }
        let change = match (model.cancel_shutdown.is_some(), self.cancel_inserted) {
            (true, false) => CancelEntry::InsertAt(CANCEL_SHUTDOWN_POSITION),
            (true, true) => CancelEntry::Rename,
            (false, true) => CancelEntry::Remove,
            (false, false) => CancelEntry::Absent,
        };
        self.applied = Some(model.copy());
        Some(change)
    }

    /// Takes note of whether the menu let itself be changed.
    pub fn menu_changed(&mut self, change: CancelEntry, done: bool)
        ensures
            final(self).applied == old(self).applied,
            final(self).cancel_inserted == match change {
                CancelEntry::InsertAt(_) => old(self).cancel_inserted || done,
                CancelEntry::Remove => old(self).cancel_inserted && !done,
                _ => old(self).cancel_inserted,
            },
    {
        if done {
            match change {
                CancelEntry::InsertAt(_) => {
                    self.cancel_inserted = true;
                },
                CancelEntry::Remove => {
                    self.cancel_inserted = false;
                },
                _ => {},
            }
        }
    }
}

/// Where the menu lets itself be changed, the entry that gives up a shutdown is there exactly
/// while one is asked for.
pub proof fn law_cancel_entry_follows_the_shutdown(ui: TrayUi, model: TrayView)
    ensures
        (match ui.entry_change(model) {
            CancelEntry::InsertAt(_) => true,
            CancelEntry::Remove => false,
            _ => ui.cancel_inserted,
        }) == (model.cancel_shutdown is Some),
{
}

/// The icon of the tray on a desktop that does not tint it.
#[derive(Clone, Copy, Debug, PartialEq, Eq, Structural)]
pub enum TrayIconTheme {
    OnDark,
    OnLight,
}

/// The icon for the task bar, and whether it is another than the one shown. A task bar whose
/// setting cannot be read counts as dark.
pub fn taskbar_icon(light_setting: Option<u32>, shown_dark: bool) -> (r: (TrayIconTheme, bool))
    ensures
        ({
            let dark = match light_setting {
                Some(light) => light == 0,
                None => true,
            };
            &&& r.0 == if dark {
                TrayIconTheme::OnDark
            } else {
                TrayIconTheme::OnLight
            }
            &&& r.1 == (dark != shown_dark)
        }),
{
    let dark: bool = match light_setting {
        Some(light) => light == 0,
        None => true,
    };
    (
        if dark {
            TrayIconTheme::OnDark
        } else {
            TrayIconTheme::OnLight
        },
        dark != shown_dark,
    )
}

/// Whether there can be a tray: a graphical session, an event loop, something that shows trays,
/// and an icon that could be set up.
pub fn tray_availability(
    has_display: bool,
    has_event_loop: bool,
    has_host: bool,
    created: bool,
) -> (r: TrayAvailability)
    ensures
        r == if !has_display {
            TrayAvailability::Unavailable(TrayUnavailableReason::NoDisplay)
        } else if !has_event_loop {
            TrayAvailability::Unavailable(TrayUnavailableReason::InitFailed)
        } else if !has_host {
            TrayAvailability::Unavailable(TrayUnavailableReason::NoHost)
        } else if !created {
            TrayAvailability::Unavailable(TrayUnavailableReason::InitFailed)
        } else {
            TrayAvailability::Available
        },
{
    if !has_display {
        TrayAvailability::Unavailable(TrayUnavailableReason::NoDisplay)
    } else if !has_event_loop {
        TrayAvailability::Unavailable(TrayUnavailableReason::InitFailed)
    } else if !has_host {
        TrayAvailability::Unavailable(TrayUnavailableReason::NoHost)
    } else if !created {
        TrayAvailability::Unavailable(TrayUnavailableReason::InitFailed)
    } else {
        TrayAvailability::Available
    }
}

/// What the loop that hosts the tray hears of.
#[derive(Debug)]
pub enum HostEvent {
    /// The tray is to show something else.
    Apply,
    /// The agent is done.
    RuntimeFinished,
    /// The agent could not be started.
    SpawnFailed,
    /// The system handed over links or files.
    Opened(Vec<String>),
    /// The user opened the program again.
    Reopen,
    /// A button of the mouse was pressed or let go over the icon.
    Click { left: bool, released: bool },
    /// The loop is about to end.
    LoopDestroyed,
    Other,
}

/// What the loop that hosts the tray does.
#[derive(Debug)]
pub enum HostStep {
    Nothing,
    Apply,
    /// Take the icon away and end the loop.
    Exit,
    Send(TrayAction),
    /// Tell the agent that the session ends, and wait for it a while.
    EndSession,
    /// Take the icon away.
    DropIcon,
}

/// What the loop that hosts the tray does about an event. `finished` says whether the agent is
/// done; afterwards it says so again.
pub fn host_step(finished: &mut bool, event: HostEvent) -> (r: HostStep)
    ensures
        *final(finished) == (*old(finished) || event is RuntimeFinished || event is SpawnFailed),
        match event {
            HostEvent::Apply => r is Apply,
            HostEvent::RuntimeFinished => r is Exit,
            HostEvent::SpawnFailed => r is Exit,
            HostEvent::Opened(urls) => r == HostStep::Send(TrayAction::OpenUrls(urls)),
            HostEvent::Reopen => r == HostStep::Send(TrayAction::ShowWindow),
            HostEvent::Click { left, released } => if left && released {
                r == HostStep::Send(TrayAction::ShowWindow)
            } else {
                r is Nothing
            },
            HostEvent::LoopDestroyed => if *old(finished) {
                r is DropIcon
            } else {
                r is EndSession
            },
            HostEvent::Other => r is Nothing,
        },
{
    match event {
        HostEvent::Apply => HostStep::Apply,
        HostEvent::RuntimeFinished | HostEvent::SpawnFailed => {
            *finished = true;
            HostStep::Exit
        },
        HostEvent::Opened(urls) => HostStep::Send(TrayAction::OpenUrls(urls)),
        HostEvent::Reopen => HostStep::Send(TrayAction::ShowWindow),
        HostEvent::Click { left, released } => if left && released {
            HostStep::Send(TrayAction::ShowWindow)
        } else {
            HostStep::Nothing
        },
        HostEvent::LoopDestroyed => if *finished {
            HostStep::DropIcon
        } else {
            HostStep::EndSession
        },
        HostEvent::Other => HostStep::Nothing,
    }
}

/// The tray shows its entries by their words, the one that gives a shutdown up only while one is
/// asked for, and over it the time that is left while a countdown runs.
pub proof fn law_tray_shows_how_things_stand(
    snapshot: &AgentSnapshot,
    strings: &TrayStrings,
    inputs: Inputs,
    tray: TrayModel,
    minutes: u64,
    seconds: u64,
)
    requires
        call_ensures(Inputs::read, (snapshot,), inputs),
        call_ensures(build, (strings, &inputs), tray),
        seconds < 60,
        minutes <= 1_000_000,
    ensures
        tray.visible <==> snapshot.shell.tray_available && snapshot.shell.resident,
        tray.show_window@ == strings.show_window@,
        tray.pause_all@ == strings.pause_all@,
        tray.resume_all@ == strings.resume_all@,
        tray.quit@ == strings.quit@,
        snapshot.power.armed_delay_secs is Some ==> opt_text(tray.cancel_shutdown) == Some(
            strings.cancel_shutdown@,
        ),
        snapshot.power.armed_delay_secs is None ==> tray.cancel_shutdown is None,
        snapshot.power.countdown_remaining_secs is None ==> tray.tooltip@ == "FluxDown"@,
        snapshot.power.countdown_remaining_secs == Some((minutes * 60 + seconds) as u64)
            ==> tray.tooltip@ == filled(
            strings.shutdown_countdown@,
            "time"@,
            padded(minutes as nat) + ":"@ + padded(seconds as nat),
        ),
{
}

/// The tray is drawn anew exactly where what it shows depends on something that changed; the same
/// state twice draws it once.
pub proof fn law_tray_is_drawn_when_it_changes(
    first: &mut TrayPresenter,
    second: &mut TrayPresenter,
    snapshot: &AgentSnapshot,
    strings: &TrayStrings,
    drawn: Option<TrayModel>,
    again: Option<TrayModel>,
    asked: Option<Option<String>>,
)
    requires
        old(first).last is None,
        call_ensures(TrayPresenter::next_model, (first, snapshot, strings), drawn),
        *old(second) == *final(first),
        call_ensures(TrayPresenter::next_model, (second, snapshot, strings), again),
        call_ensures(TrayPresenter::changed, (&*final(first), snapshot), asked),
    ensures
        drawn is Some,
        again is None,
        asked is None,
{
}

/// Each entry of the tray's menu asks for what it is for.
pub proof fn law_menu_entries_ask_for_their_own(
    ids: &MenuIds,
    show: Option<TrayAction>,
    pause: Option<TrayAction>,
    resume: Option<TrayAction>,
    cancel: Option<TrayAction>,
    quit: Option<TrayAction>,
)
    requires
        ids.show != ids.pause && ids.show != ids.resume && ids.show != ids.cancel_shutdown && ids.show
            != ids.quit,
        ids.pause != ids.resume && ids.pause != ids.cancel_shutdown && ids.pause != ids.quit,
        ids.resume != ids.cancel_shutdown && ids.resume != ids.quit && ids.cancel_shutdown
            != ids.quit,
        call_ensures(MenuIds::action, (ids, ids.show), show),
        call_ensures(MenuIds::action, (ids, ids.pause), pause),
        call_ensures(MenuIds::action, (ids, ids.resume), resume),
        call_ensures(MenuIds::action, (ids, ids.cancel_shutdown), cancel),
        call_ensures(MenuIds::action, (ids, ids.quit), quit),
    ensures
        show == Some(TrayAction::ShowWindow),
        pause == Some(TrayAction::PauseAll),
        resume == Some(TrayAction::ResumeAll),
        cancel == Some(TrayAction::CancelShutdown),
        quit == Some(TrayAction::Quit),
{
}

/// What is shown already is not shown again; the entry that gives a shutdown up is put in when one is
/// asked for, and taken out when it is given up.
pub proof fn law_entry_comes_and_goes(
    show: &mut TrayUi,
    put: &mut TrayUi,
    hide: &mut TrayUi,
    asked: &TrayModel,
    given_up: &TrayModel,
    first: Option<CancelEntry>,
    second: Option<CancelEntry>,
)
    requires
        old(show).applied is None,
        !old(show).cancel_inserted,
        asked.cancel_shutdown is Some,
        given_up.cancel_shutdown is None,
        call_ensures(TrayUi::apply, (show, asked), first),
        *old(put) == *final(show),
        first is Some,
        call_ensures(TrayUi::menu_changed, (put, first->0, true), ()),
        *old(hide) == *final(put),
        call_ensures(TrayUi::apply, (hide, given_up), second),
    ensures
        first == Some(CancelEntry::InsertAt(4)),
        final(put).cancel_inserted,
        second == Some(CancelEntry::Remove),
{
}

/// The icon is made for the colour of the task bar, which counts as dark where it cannot be read, and
/// changes only where that does.
pub proof fn law_icon_fits_the_task_bar(
    shown_dark: bool,
    unread: (TrayIconTheme, bool),
    dark: (TrayIconTheme, bool),
    light: (TrayIconTheme, bool),
)
    requires
        call_ensures(taskbar_icon, (None, shown_dark), unread),
        call_ensures(taskbar_icon, (Some(0u32), shown_dark), dark),
        call_ensures(taskbar_icon, (Some(1u32), shown_dark), light),
    ensures
        unread == dark,
        dark.0 == TrayIconTheme::OnDark && light.0 == TrayIconTheme::OnLight,
        dark.1 <==> !shown_dark,
        light.1 <==> shown_dark,
{
}

/// There is a tray exactly where there is a display, a loop and a host for it and it could be made;
/// the first thing that is missing is the reason.
pub proof fn law_tray_needs_all_of_these(
    has_display: bool,
    has_event_loop: bool,
    has_host: bool,
    created: bool,
    found: TrayAvailability,
)
    requires
        call_ensures(tray_availability, (has_display, has_event_loop, has_host, created), found),
    ensures
        found == TrayAvailability::Available <==> has_display && has_event_loop && has_host && created,
        !has_display <==> found == TrayAvailability::Unavailable(TrayUnavailableReason::NoDisplay),
        has_display && has_event_loop && !has_host ==> found == TrayAvailability::Unavailable(
            TrayUnavailableReason::NoHost,
        ),
{
}

/// A left click that is let go shows the window, as opening the program again does; links that the
/// system hands over are passed on; the end of the loop tells the session's end where the agent is
/// not done.
pub proof fn law_host_passes_on_what_the_user_does(
    click: &mut bool,
    press: &mut bool,
    reopen: &mut bool,
    open: &mut bool,
    end: &mut bool,
    urls: Vec<String>,
    clicked: HostStep,
    pressed: HostStep,
    reopened: HostStep,
    opened: HostStep,
    ended: HostStep,
)
    requires
        call_ensures(host_step, (click, HostEvent::Click { left: true, released: true }), clicked),
        call_ensures(host_step, (press, HostEvent::Click { left: true, released: false }), pressed),
        call_ensures(host_step, (reopen, HostEvent::Reopen), reopened),
        call_ensures(host_step, (open, HostEvent::Opened(urls)), opened),
        call_ensures(host_step, (end, HostEvent::LoopDestroyed), ended),
    ensures
        clicked == HostStep::Send(TrayAction::ShowWindow),
        reopened == clicked,
        pressed is Nothing,
        opened == HostStep::Send(TrayAction::OpenUrls(urls)),
        *old(end) ==> ended is DropIcon,
        !*old(end) ==> ended is EndSession,
        *final(click) == *old(click),
{
}

} // verus!
