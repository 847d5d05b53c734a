//! How the desktop program starts: its command line, whether it is the first instance, and what
//! it does with links and torrent files that it was handed.

use vstd::prelude::*;

use crate::background_effects::LOCALE_PREF;
use crate::capture_link::{
    capture_url, is_capture_url, normalize_capture_url, normalized, path_of, torrent_file_path,
};
use crate::preferences::Preferences;
use crate::snapshot::{AgentSnapshot, RuntimeStats, ShellStatusDto};
use crate::text::{folded, has_prefix, has_suffix, opt_text, same, starts_with, texts};

verus! {

/// What the command line asks for.
#[derive(Debug, PartialEq, Eq)]
pub struct LaunchOptions {
    /// Start with the main window minimized.
    pub minimized: bool,
    /// Started for a question to the user: only the window that asks it opens.
    pub capture_only: bool,
    /// Only bring up a program that runs; start none.
    pub activate_existing: bool,
    /// Links to hand over.
    pub urls: Vec<String>,
    /// Paths of torrent files to hand over.
    pub torrent_files: Vec<String>,
    /// A task that was made without asking and counts as begun by the user.
    pub progress_task: Option<String>,
}

/// What a command line asks for.
pub struct LaunchView {
    pub minimized: bool,
    pub capture_only: bool,
    pub activate_existing: bool,
    pub urls: Seq<Seq<char>>,
    pub torrent_files: Seq<Seq<char>>,
    pub progress_task: Option<Seq<char>>,
}

impl View for LaunchOptions {
    type V = LaunchView;

    open spec fn view(&self) -> LaunchView {
        LaunchView {
            minimized: self.minimized,
            capture_only: self.capture_only,
            activate_existing: self.activate_existing,
            urls: texts(self.urls@),
            torrent_files: texts(self.torrent_files@),
            progress_task: opt_text(self.progress_task),
        }
    }
}

pub open spec fn bare_launch() -> LaunchView {
    LaunchView {
        minimized: false,
        capture_only: false,
        activate_existing: false,
        urls: Seq::empty(),
        torrent_files: Seq::empty(),
        progress_task: None,
    }
}

/// The torrent file that an argument names.
pub open spec fn torrent_named(value: Seq<char>) -> Option<Seq<char>> {
    if has_suffix(folded(path_of(value)), folded(".torrent"@)) {
        Some(path_of(value))
    } else {
        None
    }
}

/// What is asked for after one more argument that is no flag with a value.
pub open spec fn with_arg(view: LaunchView, arg: Seq<char>) -> LaunchView {
    if arg == "--minimized"@ || arg == "--start-minimized"@ {
        LaunchView { minimized: true, ..view }
    } else if arg == "--capture"@ {
        LaunchView { capture_only: true, ..view }
    } else if arg == "--activate-existing"@ {
        LaunchView { activate_existing: true, ..view }
    } else if capture_url(arg) {
        LaunchView { urls: view.urls.push(arg), ..view }
    } else if has_prefix(arg, "--"@) {
        view
    } else {
        match torrent_named(arg) {
            Some(path) => LaunchView { torrent_files: view.torrent_files.push(path), ..view },
            None => view,
        }
    }
}

/// What is asked for after the remaining arguments.
pub open spec fn with_args(view: LaunchView, args: Seq<Seq<char>>) -> LaunchView
    decreases args.len(),
{
    if args.len() == 0 {
        view
    } else if args[0] == "--progress-task"@ {
        if args.len() == 1 {
            LaunchView { progress_task: None, ..view }
        } else {
            with_args(
                LaunchView {
                    progress_task: if args[1].len() == 0 {
                        None
                    } else {
                        Some(args[1])
                    },
                    ..view
                },
                args.skip(2),
            )
        }
    } else {
        with_args(with_arg(view, args[0]), args.skip(1))
    }
}

impl Default for LaunchOptions {
    fn default() -> (r: Self)
        ensures
            r@ == bare_launch(),
    {
        let r = LaunchOptions {
            minimized: false,
            capture_only: false,
            activate_existing: false,
            urls: Vec::new(),
            torrent_files: Vec::new(),
            progress_task: None,
        };
        assert(texts(r.urls@) =~= Seq::<Seq<char>>::empty());
        assert(texts(r.torrent_files@) =~= Seq::<Seq<char>>::empty());
        r
    }
}

impl LaunchOptions {
    /// Reads the command line. Whether torrent files exist is not asked here.
    pub fn from_args(args: Vec<String>) -> (r: LaunchOptions)
        ensures
            r@ == with_args(bare_launch(), texts(args@)),
    {
        let ghost views = texts(args@);
        let mut options = LaunchOptions::default();
        let mut i: usize = 0;
        assert(views.skip(0) =~= views);
        while i < args.len()
            invariant
                i <= args@.len(),
                views == texts(args@),
                views.len() == args@.len(),
                with_args(options@, views.skip(i as int)) == with_args(bare_launch(), views),
            decreases args@.len() - i,
        {
            let arg = args[i].as_str();
            let ghost rest = views.skip(i as int);
            let ghost before = options@;
            assert(rest[0] == arg@);
            assert(rest.skip(1) =~= views.skip(i + 1));
            if same(arg, "--progress-task") {
                if i + 1 < args.len() {
                    assert(rest[1] == args@[i + 1]@);
                    assert(rest.skip(2) =~= views.skip(i + 2));
                    let value = args[i + 1].clone();
                    options.progress_task = if value.as_str().is_empty() {
                        None
                    } else {
                        Some(value)
                    };
                    i += 2;
                } else {
                    options.progress_task = None;
                    i += 1;
                    assert(views.skip(i as int).len() == 0);
                }
            } else {
                options.take_arg(arg);
                i += 1;
            }
        }
        options
    }

    /// Sorts out texts that the system handed over while the program runs: links, and torrent
    /// files. Whether these exist is not asked here.
    pub fn from_opened(urls: &Vec<String>) -> (r: LaunchOptions)
        ensures
            r@ == (LaunchView {
                urls: links_among(texts(urls@)),
                torrent_files: torrents_among(texts(urls@)),
                ..bare_launch()
            }),
    {
        let ghost views = texts(urls@);
        let mut options = LaunchOptions::default();
        let mut i: usize = 0;
        while i < urls.len()
            invariant
                i <= urls@.len(),
                views == texts(urls@),
                options@ == (LaunchView {
                    urls: links_among(views.take(i as int)),
                    torrent_files: torrents_among(views.take(i as int)),
                    ..bare_launch()
                }),
            decreases urls@.len() - i,
        {
            let url = urls[i].as_str();
            let ghost before = options@;
            assert(views.take(i + 1).drop_last() =~= views.take(i as int));
            assert(views.take(i + 1).last() == url@);
            if is_capture_url(url) {
                options.urls.push(url.to_owned());
                assert(texts(options.urls@) =~= before.urls.push(url@));
            }
            if let Some(path) = torrent_file_path(url) {
                options.torrent_files.push(path);
                assert(texts(options.torrent_files@) =~= before.torrent_files.push(path@));
            }
            i += 1;
        }
        assert(views.take(i as int) =~= views);
        options
    }

    fn take_arg(&mut self, arg: &str)
        ensures
            final(self)@ == with_arg(old(self)@, arg@),
    {
        let ghost before = self@;
        if same(arg, "--minimized") || same(arg, "--start-minimized") {
            self.minimized = true;
        } else if same(arg, "--capture") {
            self.capture_only = true;
        } else if same(arg, "--activate-existing") {
            self.activate_existing = true;
        } else if is_capture_url(arg) {
            self.urls.push(arg.to_owned());
            assert(texts(self.urls@) =~= before.urls.push(arg@));
        } else if starts_with(arg, "--") {
        } else if let Some(path) = torrent_file_path(arg) {
            self.torrent_files.push(path);
            assert(texts(self.torrent_files@) =~= before.torrent_files.push(path@));
        }
    }

    /// Keeps only those torrent files that exist.
    pub fn keep_existing(&mut self, exists_at: &Vec<bool>)
        requires
            exists_at@.len() == old(self).torrent_files@.len(),
        ensures
            final(self)@ == (LaunchView {
                torrent_files: picked(old(self)@.torrent_files, exists_at@),
                ..old(self)@
            }),
    {
        let ghost all = texts(self.torrent_files@);
        let mut kept: Vec<String> = Vec::new();
        let mut i: usize = 0;
        assert(texts(kept@) =~= picked(all.take(0), exists_at@.take(0)));
        while i < self.torrent_files.len()
            invariant
                i <= self.torrent_files@.len(),
                all == texts(self.torrent_files@),
                exists_at@.len() == self.torrent_files@.len(),
                texts(kept@) == picked(all.take(i as int), exists_at@.take(i as int)),
            decreases self.torrent_files@.len() - i,
        {
            let ghost was = texts(kept@);
            assert(all.take(i + 1).drop_last() =~= all.take(i as int));
            assert(exists_at@.take(i + 1).drop_last() =~= exists_at@.take(i as int));
            assert(all.take(i + 1).last() == self.torrent_files@[i as int]@);
            if exists_at[i] {
                kept.push(self.torrent_files[i].clone());
                assert(texts(kept@) =~= was.push(self.torrent_files@[i as int]@));
            }
            i += 1;
        }
        assert(all.take(i as int) =~= all);
        assert(exists_at@.take(i as int) =~= exists_at@);
        self.torrent_files = kept;
    }

    pub open spec fn plain(view: LaunchView) -> bool {
        !view.minimized && !view.capture_only && !view.activate_existing && view.urls.len() == 0
            && view.torrent_files.len() == 0
    }

    /// Whether this is an ordinary start: nothing was handed over, and no mode is set.
    pub fn is_plain(&self) -> (r: bool)
        ensures
            r == LaunchOptions::plain(self@),
    {
        assert(texts(self.urls@).len() == self.urls@.len());
        assert(texts(self.torrent_files@).len() == self.torrent_files@.len());
        !self.minimized && !self.capture_only && !self.activate_existing && self.urls.len() == 0
            && self.torrent_files.len() == 0
    }
}

/// Those of the given texts that are links.
pub open spec fn links_among(list: Seq<Seq<char>>) -> Seq<Seq<char>>
    decreases list.len(),
{
    if list.len() == 0 {
        Seq::empty()
    } else if capture_url(list.last()) {
        links_among(list.drop_last()).push(list.last())
    } else {
        links_among(list.drop_last())
    }
}

/// The torrent files that the given texts name.
pub open spec fn torrents_among(list: Seq<Seq<char>>) -> Seq<Seq<char>>
    decreases list.len(),
{
    if list.len() == 0 {
        Seq::empty()
    } else {
        match torrent_named(list.last()) {
            Some(path) => torrents_among(list.drop_last()).push(path),
            None => torrents_among(list.drop_last()),
        }
    }
}

/// Those of the given texts that are marked.
pub open spec fn picked(list: Seq<Seq<char>>, marks: Seq<bool>) -> Seq<Seq<char>>
    decreases list.len(),
{
    if list.len() == 0 || marks.len() != list.len() {
        Seq::empty()
    } else {
        let before = picked(list.drop_last(), marks.drop_last());
        if marks.last() {
            before.push(list.last())
        } else {
            before
        }
    }
}

/// A start without arguments is an ordinary one, and each argument that sets a mode or hands
/// something over makes it another.
pub proof fn law_only_bare_launch_is_plain(view: LaunchView, arg: Seq<char>)
    ensures
        LaunchOptions::plain(bare_launch()),
        LaunchOptions::plain(with_arg(view, arg)) ==> LaunchOptions::plain(view),
        arg == "--minimized"@ || arg == "--start-minimized"@ || arg == "--capture"@ || arg
            == "--activate-existing"@ || capture_url(arg) ==> !LaunchOptions::plain(
            with_arg(view, arg),
        ),
{
}

/// The preference for starting with the tray alone.
pub const START_MINIMIZED_TO_TRAY_KEY: &'static str = "start_minimized_to_tray";

/// Whether a program that started the service shows only the tray: the user wants it, and the
/// tray can be seen. Else it would run with neither window nor tray.
pub fn start_in_tray(snapshot: &AgentSnapshot) -> (r: bool)
    ensures
        r == (snapshot.shell.tray_available && snapshot.shell.resident
            && snapshot.preferences.flag_or(START_MINIMIZED_TO_TRAY_KEY@, false)),
{
    snapshot.shell.tray_available && snapshot.shell.resident
        && snapshot.preferences.preference_bool(START_MINIMIZED_TO_TRAY_KEY, false)
}

/// What an instance tells the one that runs.
#[derive(Debug, PartialEq, Eq)]
pub struct ActivateMessage {
    pub urls: Vec<String>,
    pub files: Vec<String>,
    /// Whether the main window is to come up.
    pub activate: bool,
}

fn copy_list(list: &Vec<String>) -> (r: Vec<String>)
    ensures
        r@ == list@,
{
    let mut r: Vec<String> = Vec::new();
    let mut i: usize = 0;
    while i < list.len()
        invariant
            i <= list@.len(),
            r@ =~= list@.take(i as int),
        decreases list@.len() - i,
    {
        r.push(list[i].clone());
        i += 1;
    }
    assert(r@ =~= list@);
    r
}

/// What this instance tells the one that runs.
pub fn activate_message(options: &LaunchOptions) -> (r: ActivateMessage)
    ensures
        r.urls@ == options.urls@,
        r.files@ == options.torrent_files@,
        r.activate == (options.activate_existing || !options.capture_only),
{
    ActivateMessage {
        urls: copy_list(&options.urls),
        files: copy_list(&options.torrent_files),
        activate: options.activate_existing || !options.capture_only,
    }
}

/// What came of telling the instance that runs.
#[derive(Clone, Copy, Debug, PartialEq, Eq, Structural)]
pub enum SendOutcome {
    Delivered,
    /// It may yet come to listen, or go.
    Retryable,
    Failed,
}

/// What an instance does next to find out whether it is the first.
#[derive(Clone, Copy, Debug, PartialEq, Eq, Structural)]
pub enum LaunchStep {
    /// It is the first: go on.
    BecomePrimary,
    /// There is none to bring up: leave.
    NoPrimary,
    /// Tell the one that runs.
    Send,
    /// It was told: leave.
    Activated,
    /// Wait a little and try again.
    Retry,
    /// It cannot be told: leave with an error.
    Fail,
}

/// What an instance does once it tried to take the lock: whoever has it is the first; but an
/// instance that is only to bring up another never becomes the first itself.
pub fn after_lock(acquired: bool, activate_existing: bool) -> (r: LaunchStep)
    ensures
        r == if !acquired {
            LaunchStep::Send
        } else if activate_existing {
            LaunchStep::NoPrimary
        } else {
            LaunchStep::BecomePrimary
        },
{
    if !acquired {
        LaunchStep::Send
    } else if activate_existing {
        LaunchStep::NoPrimary
    } else {
        LaunchStep::BecomePrimary
    }
}

/// What an instance does once it tried to tell the one that runs. Before the deadline a failure
/// that may pass is tried again, with the lock first.
pub fn after_send(outcome: SendOutcome, before_deadline: bool) -> (r: LaunchStep)
    ensures
        r == match outcome {
            SendOutcome::Delivered => LaunchStep::Activated,
            SendOutcome::Retryable => if before_deadline {
                LaunchStep::Retry
            } else {
                LaunchStep::Fail
            },
            SendOutcome::Failed => LaunchStep::Fail,
        },
{
    match outcome {
        SendOutcome::Delivered => LaunchStep::Activated,
        SendOutcome::Retryable => if before_deadline {
            LaunchStep::Retry
        } else {
            LaunchStep::Fail
        },
        SendOutcome::Failed => LaunchStep::Fail,
    }
}

/// What the first instance opens.
#[derive(Clone, Copy, Debug, PartialEq, Eq, Structural)]
pub enum StartMode {
    /// No window of its own; leave where there turns out to be nothing to ask.
    ConfirmOnly,
    /// The main window, minimized, once the session is settled.
    Minimized,
    /// The main window, once the session is settled.
    Normal,
}

/// What the first instance opens.
pub fn start_mode(options: &LaunchOptions) -> (r: StartMode)
    ensures
        r == if options.capture_only {
            StartMode::ConfirmOnly
        } else if options.minimized {
            StartMode::Minimized
        } else {
            StartMode::Normal
        },
{
    if options.capture_only {
        StartMode::ConfirmOnly
    } else if options.minimized {
        StartMode::Minimized
    } else {
        StartMode::Normal
    }
}

/// Whether a program that was started for a question leaves: what it was handed has reached the
/// agent, the first snapshot has come, and there was nothing to ask.
pub fn leaves_unasked(submitted: bool, snapshot_seen: bool, open_windows: usize) -> (r: bool)
    ensures
        r == (submitted && snapshot_seen && open_windows == 0),
{
    submitted && snapshot_seen && open_windows == 0
}

/// Something that is handed to the agent.
#[derive(Debug, PartialEq, Eq)]
pub enum CaptureCall {
    Url(String),
    TorrentFile(String),
}

pub open spec fn call_is_url(call: CaptureCall, url: Seq<char>) -> bool {
    match call {
        CaptureCall::Url(text) => text@ == url,
        CaptureCall::TorrentFile(_) => false,
    }
}

pub open spec fn call_is_file(call: CaptureCall, path: Seq<char>) -> bool {
    match call {
        CaptureCall::TorrentFile(text) => text@ == path,
        CaptureCall::Url(_) => false,
    }
}

/// What is handed to the agent: the links that were meant, then the torrent files.
pub fn capture_calls(urls: &Vec<String>, files: &Vec<String>) -> (r: Vec<CaptureCall>)
    ensures
        r@.len() == urls@.len() + files@.len(),
        forall|i: int|
            0 <= i < urls@.len() ==> call_is_url(#[trigger] r@[i], normalized(urls@[i]@)),
        forall|i: int|
            urls@.len() <= i < r@.len() ==> call_is_file(
                #[trigger] r@[i],
                files@[i - urls@.len()]@,
            ),
{
    let mut r: Vec<CaptureCall> = Vec::new();
    let mut i: usize = 0;
    while i < urls.len()
        invariant
            i <= urls@.len(),
            r@.len() == i,
            forall|k: int| 0 <= k < i ==> call_is_url(#[trigger] r@[k], normalized(urls@[k]@)),
        decreases urls@.len() - i,
    {
        r.push(CaptureCall::Url(normalize_capture_url(urls[i].as_str())));
        i += 1;
    }
    let ghost n = urls@.len() as int;
    let mut j: usize = 0;
    while j < files.len()
        invariant
            j <= files@.len(),
            n == urls@.len(),
            r@.len() == n + j,
            forall|k: int| 0 <= k < n ==> call_is_url(#[trigger] r@[k], normalized(urls@[k]@)),
            forall|k: int|
                n <= k < n + j ==> call_is_file(#[trigger] r@[k], files@[k - n]@),
        decreases files@.len() - j,
    {
        r.push(CaptureCall::TorrentFile(files[j].clone()));
        j += 1;
    }
    r
}

/// The file that holds the token for the agent, by what is set: its path, the agent's data
/// directory, or the user's data directory.
pub enum TokenPath {
    Given(String),
    /// `agent.token` in the given directory.
    InAgentDir(String),
    /// `agent/agent.token` in the given directory.
    InDataDir(String),
    /// `agent.token` in the working directory.
    Local,
}

/// Where the token for the agent is.
pub fn agent_token_path(
    token_file: Option<String>,
    agent_dir: Option<String>,
    data_dir: Option<String>,
) -> (r: TokenPath)
    ensures
        r == match (token_file, agent_dir, data_dir) {
            (Some(path), _, _) => TokenPath::Given(path),
            (None, Some(dir), _) => TokenPath::InAgentDir(dir),
            (None, None, Some(dir)) => TokenPath::InDataDir(dir),
            (None, None, None) => TokenPath::Local,
        },
{
    match (token_file, agent_dir, data_dir) {
        (Some(path), _, _) => TokenPath::Given(path),
        (None, Some(dir), _) => TokenPath::InAgentDir(dir),
        (None, None, Some(dir)) => TokenPath::InDataDir(dir),
        (None, None, None) => TokenPath::Local,
    }
}

/// What the desktop program keeps of the session: it decides how windows close and how things
/// look.
#[derive(Debug)]
pub struct Desktop {
    pub preferences: Preferences,
    pub runtime_stats: RuntimeStats,
    pub shell: ShellStatusDto,
    /// Whether the program is on its way out.
    pub quitting: bool,
}

/// What the session tells the desktop program.
#[derive(Debug)]
pub enum DesktopSignal {
    Snapshot { preferences: Preferences, stats: RuntimeStats, shell: ShellStatusDto },
    PreferencesChanged { preferences: Preferences },
    ShellChanged { shell: ShellStatusDto },
    StatsChanged { stats: RuntimeStats },
    ServiceStopped,
    Other,
}

impl Desktop {
    pub fn new() -> (r: Desktop)
        ensures
            r.preferences.entries@.len() == 0,
            r.runtime_stats == (RuntimeStats { active_tasks: 0, pending_tasks: 0 }),
            r.shell == (ShellStatusDto {
                tray_available: false,
                tray_unavailable_reason: None,
                resident: false,
            }),
            !r.quitting,
    {
        Desktop {
            preferences: Preferences::new(),
            runtime_stats: RuntimeStats::default(),
            shell: ShellStatusDto::default(),
            quitting: false,
        }
    }

    pub fn active_task_count(&self) -> (r: u32)
        ensures
            r == self.runtime_stats.active_tasks,
    {
        self.runtime_stats.active_tasks
    }

    /// Takes note of a signal, and says whether appearance and language are to be set anew.
    pub fn fold(&mut self, signal: DesktopSignal) -> (r: bool)
        ensures
            r == (signal is Snapshot || signal is PreferencesChanged),
            *final(self) == match signal {
                DesktopSignal::Snapshot { preferences, stats, shell } => Desktop {
                    preferences,
                    runtime_stats: stats,
                    shell,
                    ..*old(self)
                },
                DesktopSignal::PreferencesChanged { preferences } => Desktop {
                    preferences,
                    ..*old(self)
                },
                DesktopSignal::ShellChanged { shell } => Desktop { shell, ..*old(self) },
                DesktopSignal::StatsChanged { stats } => Desktop {
                    runtime_stats: stats,
                    ..*old(self)
                },
                DesktopSignal::ServiceStopped => Desktop { quitting: true, ..*old(self) },
                DesktopSignal::Other => *old(self),
            },
    {
        match signal {
            DesktopSignal::Snapshot { preferences, stats, shell } => {
                self.preferences = preferences;
                self.runtime_stats = stats;
                self.shell = shell;
                true
            },
            DesktopSignal::PreferencesChanged { preferences } => {
                self.preferences = preferences;
                true
            },
            DesktopSignal::ShellChanged { shell } => {
                self.shell = shell;
                false
            },
            DesktopSignal::StatsChanged { stats } => {
                self.runtime_stats = stats;
                false
            },
            DesktopSignal::ServiceStopped => {
                self.quitting = true;
                false
            },
            DesktopSignal::Other => false,
        }
    }
}

/// How things look by the preferences.
#[derive(Debug, PartialEq, Eq)]
pub struct Appearance {
    /// The language to change to; nothing where the preferences name none.
    pub locale: Option<String>,
    pub show_activity_rss: bool,
    pub show_activity_theme: bool,
}

/// How things look by the preferences. `system_locale` is the language of the system.
pub fn appearance(preferences: &Preferences, system_locale: &str) -> (r: Appearance)
    ensures
        opt_text(r.locale) == match preferences.text(LOCALE_PREF@) {
            Some(locale) => Some(
                if locale == "system"@ {
                    system_locale@
                } else {
                    locale
                },
            ),
            None => None,
        },
        r.show_activity_rss == preferences.flag_or("ui.show_activity_rss"@, true),
        r.show_activity_theme == preferences.flag_or("ui.show_activity_theme"@, true),
{
    let locale = match preferences.preference_text(LOCALE_PREF) {
        Some(locale) => if same(locale, "system") {
            Some(system_locale.to_owned())
        } else {
            Some(locale.to_owned())
        },
        None => None,
    };
    Appearance {
        locale,
        show_activity_rss: preferences.preference_bool("ui.show_activity_rss", true),
        show_activity_theme: preferences.preference_bool("ui.show_activity_theme", true),
    }
}

/// Whether an argument is one of those that set how the program starts.
spec fn sets_mode(arg: Seq<char>) -> bool {
    arg == "--minimized"@ || arg == "--start-minimized"@ || arg == "--capture"@ || arg
        == "--activate-existing"@
}

proof fn lemma_args_count(view: LaunchView, args: Seq<Seq<char>>, url: Seq<char>)
    requires
        !args.contains("--progress-task"@),
    ensures
        ({
            let after = with_args(view, args);
            &&& after.minimized == (view.minimized || args.contains("--minimized"@)
                || args.contains("--start-minimized"@))
            &&& after.capture_only == (view.capture_only || args.contains("--capture"@))
            &&& after.activate_existing == (view.activate_existing || args.contains(
                "--activate-existing"@,
            ))
            &&& after.urls.contains(url) == (view.urls.contains(url) || (args.contains(url)
                && capture_url(url) && !sets_mode(url)))
            &&& after.progress_task == view.progress_task
        }),
    decreases args.len(),
{
    if args.len() > 0 {
        let arg = args[0];
        let rest = args.skip(1);
        let next = with_arg(view, arg);
        assert(args.contains(arg));
        assert forall|x: Seq<char>| #[trigger] args.contains(x) == (x == arg || rest.contains(x)) by {
            if args.contains(x) && x != arg {
                let i = choose|i: int| 0 <= i < args.len() && args[i] == x;
                assert(rest[i - 1] == x);
            }
            if rest.contains(x) {
                let i = choose|i: int| 0 <= i < rest.len() && rest[i] == x;
                assert(args[i + 1] == x);
            }
        }
        lemma_args_count(next, rest, url);
        reveal_strlit("--minimized");
        reveal_strlit("--start-minimized");
        reveal_strlit("--capture");
        reveal_strlit("--activate-existing");
        assert("--minimized"@.len() == 11 && "--start-minimized"@.len() == 17 && "--capture"@.len()
            == 9 && "--activate-existing"@.len() == 19);
        if capture_url(arg) && !sets_mode(arg) {
            let more = view.urls.push(arg);
            assert(more[view.urls.len() as int] == arg);
            if view.urls.contains(url) {
                let i = choose|i: int| 0 <= i < view.urls.len() && view.urls[i] == url;
                assert(more[i] == url);
            }
            if more.contains(url) && url != arg {
                let i = choose|i: int| 0 <= i < more.len() && more[i] == url;
                assert(view.urls[i] == url);
            }
        }
    }
}

/// An argument counts wherever it stands: each of those that set how the program starts sets that
/// and nothing else, and every link is handed over.
pub proof fn law_arguments_count_wherever_they_stand(
    args: Vec<String>,
    options: LaunchOptions,
    url: Seq<char>,
)
    requires
        call_ensures(LaunchOptions::from_args, (args,), options),
        !texts(args@).contains("--progress-task"@),
    ensures
        options.minimized <==> texts(args@).contains("--minimized"@) || texts(args@).contains(
            "--start-minimized"@,
        ),
        options.capture_only <==> texts(args@).contains("--capture"@),
        options.activate_existing <==> texts(args@).contains("--activate-existing"@),
        texts(args@).contains(url) && capture_url(url) && url[0] != '-' ==> texts(
            options.urls@,
        ).contains(url),
        texts(options.urls@).contains(url) ==> texts(args@).contains(url) && capture_url(url),
        options.progress_task is None,
{
    lemma_args_count(bare_launch(), texts(args@), url);
    reveal_strlit("--minimized");
    reveal_strlit("--start-minimized");
    reveal_strlit("--capture");
    reveal_strlit("--activate-existing");
}

/// A task that was begun without asking is named after its argument, and is the only thing that is
/// named so.
pub proof fn law_progress_task_is_named_after_its_argument(
    id: String,
    flag: String,
    args: Vec<String>,
    options: LaunchOptions,
)
    requires
        flag@ == "--progress-task"@,
        id@.len() > 0,
        args@ == seq![flag, id],
        call_ensures(LaunchOptions::from_args, (args,), options),
    ensures
        opt_text(options.progress_task) == Some(id@),
        options.urls@.len() == 0,
        options.torrent_files@.len() == 0,
        !options.minimized && !options.capture_only && !options.activate_existing,
{
    let list = texts(args@);
    assert(list =~= seq![flag@, id@]);
    assert(list.skip(2) =~= Seq::empty());
    reveal_with_fuel(with_args, 2);
    assert(texts(options.urls@).len() == options.urls@.len());
    assert(texts(options.torrent_files@).len() == options.torrent_files@.len());
}

proof fn lemma_among(list: Seq<Seq<char>>, value: Seq<char>)
    ensures
        links_among(list).contains(value) <==> list.contains(value) && capture_url(value),
        torrents_among(list).contains(value) <==> exists|i: int|
            0 <= i < list.len() && torrent_named(#[trigger] list[i]) == Some(value),
    decreases list.len(),
{
    if list.len() > 0 {
        let rest = list.drop_last();
        let last = list.last();
        lemma_among(rest, value);
        assert(list[list.len() - 1] == last);
        let links = links_among(rest);
        let more = links_among(list);
        if links.contains(value) {
            let i = choose|i: int| 0 <= i < links.len() && links[i] == value;
            assert(more[i] == value);
        }
        if capture_url(last) {
            assert(more[links.len() as int] == last);
        }
        if more.contains(value) && value != last {
            let i = choose|i: int| 0 <= i < more.len() && more[i] == value;
            assert(links[i] == value);
        }
        if rest.contains(value) {
            let i = choose|i: int| 0 <= i < rest.len() && rest[i] == value;
            assert(list[i] == value);
        }
        if list.contains(value) && value != last {
            let i = choose|i: int| 0 <= i < list.len() && list[i] == value;
            assert(rest[i] == value);
        }
        let files = torrents_among(rest);
        let all = torrents_among(list);
        if files.contains(value) {
            let i = choose|i: int| 0 <= i < files.len() && files[i] == value;
            assert(all[i] == value);
        }
        if torrent_named(last) == Some(value) {
            assert(all[files.len() as int] == value);
        }
        if all.contains(value) && !files.contains(value) {
            let i = choose|i: int| 0 <= i < all.len() && all[i] == value;
            assert(i == files.len());
        }
        if exists|i: int| 0 <= i < rest.len() && torrent_named(#[trigger] rest[i]) == Some(value) {
            let i = choose|i: int|
                0 <= i < rest.len() && torrent_named(#[trigger] rest[i]) == Some(value);
            assert(list[i] == rest[i]);
        }
        if exists|i: int| 0 <= i < list.len() && torrent_named(#[trigger] list[i]) == Some(value) {
            let i = choose|i: int|
                0 <= i < list.len() && torrent_named(#[trigger] list[i]) == Some(value);
            if i < rest.len() {
                assert(rest[i] == list[i]);
            }
        }
    }
}

/// What the system opens with the program is handed over: every link, and the path of every torrent
/// file.
pub proof fn law_opened_things_are_handed_over(
    urls: &Vec<String>,
    options: LaunchOptions,
    value: Seq<char>,
)
    requires
        call_ensures(LaunchOptions::from_opened, (urls,), options),
    ensures
        texts(options.urls@).contains(value) <==> texts(urls@).contains(value) && capture_url(value),
        texts(options.torrent_files@).contains(value) <==> exists|i: int|
            0 <= i < urls@.len() && torrent_named((#[trigger] urls@[i])@) == Some(value),
        !options.minimized && !options.capture_only && !options.activate_existing,
{
    let list = texts(urls@);
    lemma_among(list, value);
    assert forall|i: int| 0 <= i < list.len() implies #[trigger] list[i] == urls@[i]@ by {}
    if exists|i: int| 0 <= i < list.len() && torrent_named(#[trigger] list[i]) == Some(value) {
        let i = choose|i: int| 0 <= i < list.len() && torrent_named(#[trigger] list[i]) == Some(value);
        assert(torrent_named(urls@[i]@) == Some(value));
    }
    if exists|i: int| 0 <= i < urls@.len() && torrent_named((#[trigger] urls@[i])@) == Some(value) {
        let i = choose|i: int|
            0 <= i < urls@.len() && torrent_named((#[trigger] urls@[i])@) == Some(value);
        assert(torrent_named(list[i]) == Some(value));
    }
}

/// A second instance tells the first what it was started with; the first comes up unless the second
/// was started only to ask a question.
pub proof fn law_second_instance_tells_the_first(options: &LaunchOptions, message: ActivateMessage)
    requires
        call_ensures(activate_message, (options,), message),
    ensures
        message.urls@ == options.urls@,
        message.files@ == options.torrent_files@,
        options.activate_existing ==> message.activate,
        !options.capture_only ==> message.activate,
        options.capture_only && !options.activate_existing ==> !message.activate,
{
}

/// Who gets the lock is the first, unless it was only to bring another up; who does not tells the
/// one that has it, tries again until the deadline while that may help, and fails else.
pub proof fn law_one_instance_is_the_first(
    acquired: bool,
    activate_existing: bool,
    before_deadline: bool,
    outcome: SendOutcome,
    step: LaunchStep,
    next: LaunchStep,
)
    requires
        call_ensures(after_lock, (acquired, activate_existing), step),
        call_ensures(after_send, (outcome, before_deadline), next),
    ensures
        step == LaunchStep::BecomePrimary <==> acquired && !activate_existing,
        step == LaunchStep::Send <==> !acquired,
        step == LaunchStep::NoPrimary <==> acquired && activate_existing,
        next == LaunchStep::Activated <==> outcome == SendOutcome::Delivered,
        next == LaunchStep::Retry <==> outcome == SendOutcome::Retryable && before_deadline,
        outcome == SendOutcome::Failed ==> next == LaunchStep::Fail,
{
}

/// A start for a question opens only that, whatever else was asked for; a minimized start opens the
/// window minimized.
pub proof fn law_start_opens_what_was_asked_for(options: &LaunchOptions, mode: StartMode)
    requires
        call_ensures(start_mode, (options,), mode),
    ensures
        mode == StartMode::ConfirmOnly <==> options.capture_only,
        mode == StartMode::Minimized <==> options.minimized && !options.capture_only,
{
}

/// Links go before files, each in its order, links as what they stand for.
pub proof fn law_calls_come_in_order(
    urls: &Vec<String>,
    files: &Vec<String>,
    calls: Vec<CaptureCall>,
    i: int,
)
    requires
        call_ensures(capture_calls, (urls, files), calls),
        0 <= i < calls@.len(),
    ensures
        calls@.len() == urls@.len() + files@.len(),
        i < urls@.len() ==> match calls@[i] {
            CaptureCall::Url(text) => text@ == normalized(urls@[i]@),
            _ => false,
        },
        i >= urls@.len() ==> match calls@[i] {
            CaptureCall::TorrentFile(text) => text@ == files@[i - urls@.len()]@,
            _ => false,
        },
{
    if i < urls@.len() {
        assert(call_is_url(calls@[i], normalized(urls@[i]@)));
    } else {
        assert(call_is_file(calls@[i], files@[i - urls@.len()]@));
    }
}

/// The program starts in the tray only where there is one, it stays there, and the user asked for
/// it.
pub proof fn law_tray_start_needs_a_tray(snapshot: &AgentSnapshot, in_tray: bool)
    requires
        call_ensures(start_in_tray, (snapshot,), in_tray),
    ensures
        in_tray <==> snapshot.shell.tray_available && snapshot.shell.resident
            && snapshot.preferences.flag("start_minimized_to_tray"@) == Some(true),
{
}

/// A start for a question leaves by itself only when its question was handed over, the state is
/// known and no window is open.
pub proof fn law_question_start_leaves_when_done(
    submitted: bool,
    snapshot_seen: bool,
    open_windows: usize,
    leaves: bool,
)
    requires
        call_ensures(leaves_unasked, (submitted, snapshot_seen, open_windows), leaves),
    ensures
        open_windows > 0 ==> !leaves,
        !submitted || !snapshot_seen ==> !leaves,
        submitted && snapshot_seen && open_windows == 0 ==> leaves,
{
}

/// The desktop program keeps what it was told last of each thing: settings, counts and tray; what
/// is told of one leaves the others.
pub proof fn law_desktop_keeps_what_it_was_told(
    desktop: &mut Desktop,
    stats: RuntimeStats,
    news: bool,
    active: u32,
)
    requires
        call_ensures(Desktop::fold, (desktop, DesktopSignal::StatsChanged { stats }), news),
        call_ensures(Desktop::active_task_count, (&*final(desktop),), active),
    ensures
        active == stats.active_tasks,
        !news,
        final(desktop).preferences == old(desktop).preferences,
        final(desktop).shell == old(desktop).shell,
        final(desktop).quitting == old(desktop).quitting,
{
}

/// A language that is chosen is used, and that of the system where the system's is chosen; the two
/// pages of the bar are shown unless switched off, each by its own setting.
pub proof fn law_appearance_follows_the_settings(
    preferences: &Preferences,
    system: &str,
    look: Appearance,
)
    requires
        call_ensures(appearance, (preferences, system), look),
    ensures
        preferences.text("general.locale"@) == Some("system"@) ==> opt_text(look.locale) == Some(
            system@,
        ),
        preferences.text("general.locale"@) matches Some(chosen) ==> (chosen != "system"@ ==> opt_text(
            look.locale,
        ) == Some(chosen)),
        preferences.text("general.locale"@) is None ==> look.locale is None,
        look.show_activity_rss <==> preferences.flag("ui.show_activity_rss"@) != Some(false),
        look.show_activity_theme <==> preferences.flag("ui.show_activity_theme"@) != Some(false),
{
}

/// The token is looked for where it was said to be, then in the agent's folder, then in that of the
/// data.
pub proof fn law_token_is_looked_for_in_order(
    token_file: Option<String>,
    agent_dir: Option<String>,
    data_dir: Option<String>,
    path: TokenPath,
)
    requires
        call_ensures(agent_token_path, (token_file, agent_dir, data_dir), path),
    ensures
        token_file matches Some(file) ==> path == TokenPath::Given(file),
        token_file is None ==> (agent_dir matches Some(dir) ==> path == TokenPath::InAgentDir(dir)),
        token_file is None && agent_dir is None ==> (data_dir matches Some(dir) ==> path
            == TokenPath::InDataDir(dir)),
        token_file is None && agent_dir is None && data_dir is None ==> path == TokenPath::Local,
{
}

proof fn lemma_picked(list: Seq<Seq<char>>, marks: Seq<bool>, value: Seq<char>)
    requires
        marks.len() == list.len(),
    ensures
        picked(list, marks).contains(value) <==> exists|i: int|
            0 <= i < list.len() && #[trigger] list[i] == value && marks[i],
    decreases list.len(),
{
    if list.len() > 0 {
        let rest = list.drop_last();
        let left = marks.drop_last();
        lemma_picked(rest, left, value);
        let before = picked(rest, left);
        let after = picked(list, marks);
        let n = rest.len() as int;
        assert(list[n] == list.last() && marks[n] == marks.last());
        if before.contains(value) {
            let i = choose|i: int| 0 <= i < before.len() && before[i] == value;
            assert(after[i] == value);
        }
        if marks.last() {
            assert(after[before.len() as int] == list.last());
        }
        if after.contains(value) && !before.contains(value) {
            let i = choose|i: int| 0 <= i < after.len() && after[i] == value;
            assert(i == before.len());
        }
        if exists|i: int| 0 <= i < rest.len() && #[trigger] rest[i] == value && left[i] {
            let i = choose|i: int| 0 <= i < rest.len() && #[trigger] rest[i] == value && left[i];
            assert(list[i] == value && marks[i]);
        }
        if exists|i: int| 0 <= i < list.len() && #[trigger] list[i] == value && marks[i] {
            let i = choose|i: int| 0 <= i < list.len() && #[trigger] list[i] == value && marks[i];
            if i < n {
                assert(rest[i] == value && left[i]);
            }
        }
    }
}

/// Of the torrent files that were handed over those that exist are kept, and nothing else changes.
pub proof fn law_existing_files_are_kept(
    options: &mut LaunchOptions,
    exists_at: &Vec<bool>,
    value: Seq<char>,
)
    requires
        exists_at@.len() == old(options).torrent_files@.len(),
        call_ensures(LaunchOptions::keep_existing, (options, exists_at), ()),
    ensures
        texts(final(options).torrent_files@).contains(value) <==> exists|i: int|
            0 <= i < exists_at@.len() && texts(old(options).torrent_files@)[i] == value
                && #[trigger] exists_at@[i],
        texts(final(options).urls@) == texts(old(options).urls@),
        final(options).minimized == old(options).minimized,
{
    let list = texts(old(options).torrent_files@);
    lemma_picked(list, exists_at@, value);
    assert(final(options)@.torrent_files == picked(list, exists_at@));
    if exists|i: int| 0 <= i < list.len() && #[trigger] list[i] == value && exists_at@[i] {
        let i = choose|i: int| 0 <= i < list.len() && #[trigger] list[i] == value && exists_at@[i];
        assert(exists_at@[i]);
    }
    assert(final(options)@.urls == old(options)@.urls);
    assert(final(options)@.minimized == old(options)@.minimized);
}

/// A start is plain exactly where it was asked for nothing.
pub proof fn law_plain_start_asks_for_nothing(options: &LaunchOptions, plain: bool)
    requires
        call_ensures(LaunchOptions::is_plain, (options,), plain),
    ensures
        plain <==> {
            &&& !options.minimized
            &&& !options.capture_only
            &&& !options.activate_existing
            &&& options.urls@.len() == 0
            &&& options.torrent_files@.len() == 0
        },
{
    assert(texts(options.urls@).len() == options.urls@.len());
    assert(texts(options.torrent_files@).len() == options.torrent_files@.len());
}

} // verus!
