//! The window of one task: what it says while the task runs and when it is done, and when it
//! closes.

use vstd::prelude::*;

use crate::clock::{h_mm_ss, hours_minutes_seconds};
use crate::context_menu::{CommandView, DownloadsCommand};
use crate::controls::{state_color, status_color, ColorRole, FluxIcon};
use crate::order::{stable_order, stable_sort};
use crate::table_cells::{
    bytes_progress, dotted, progress_text, shown_eta, shown_speed, speed_shown, eta_shown,
    with_dot,
};
use crate::tasks::{DownloadTaskView, TaskState};
use crate::text::{
    concat, decimal, decimal_int, number, opt_text, same, signed_number,
};

verus! {

/// What the window tells its host.
#[derive(Clone, Copy, Debug, PartialEq, Eq, Structural)]
pub enum ProgressWindowEvent {
    /// Close the window: the task was deleted, or the user stopped it.
    Close,
    /// A file or folder was handed to the system: close the window once the program that opens
    /// it has come to the front.
    HandedOff,
    /// The user chose whether the window says that the task is done.
    ShowCompletionChanged(bool),
}

/// What becomes of the window when a command succeeds.
#[derive(Clone, Copy, Debug, PartialEq, Eq, Structural)]
pub enum AfterSuccess {
    Stay,
    Close,
    HandOff,
}

/// What went wrong last.
#[derive(Clone, Copy, Debug, PartialEq, Eq, Structural)]
pub enum PageError {
    /// The service cannot be reached.
    Disconnected,
    /// A command failed.
    ActionFailed,
}

/// A part of a download that has a connection of its own.
#[derive(Clone, Copy, Debug, PartialEq, Eq, Structural)]
pub struct Segment {
    pub index: i32,
    pub start_byte: i64,
    /// The last byte of the part.
    pub end_byte: i64,
    pub downloaded_bytes: i64,
    /// Whether a connection works on it, where that is known.
    pub active: Option<bool>,
}

/// What the service reports of a running task.
#[derive(Debug)]
pub struct TaskRuntime {
    pub parallelism_limit: Option<u64>,
    pub connected_peers: Option<u64>,
    pub segments: Vec<Segment>,
}

/// An event of the session, as far as the window of a task hears of it.
#[derive(Debug, PartialEq, Eq)]
pub enum PageEvent {
    TaskDeleted { task_id: String },
    ConnectionChanged { connected: bool },
    Other,
}

/// The window's state.
#[derive(Debug)]
pub struct ProgressWindowView {
    pub task_id: String,
    pub runtime: Option<TaskRuntime>,
    pub show_completion: bool,
    pub parts_expanded: bool,
    /// Whether the host was told to close the window.
    pub closed: bool,
    pub last_error: Option<PageError>,
}

/// The title of a task's window: its name, with how far it is in front while it runs.
pub open spec fn title_of(row: DownloadTaskView) -> Option<Seq<char>> {
    if row.name@.len() == 0 {
        None
    } else if row.state == TaskState::Completed || row.size_bytes == 0 {
        Some(row.name@)
    } else {
        Some(row.progress_label@ + " "@ + row.name@)
    }
}

pub open spec fn disconnected(connected: bool) -> Option<PageError> {
    if connected {
        None
    } else {
        Some(PageError::Disconnected)
    }
}

impl ProgressWindowView {
    /// The state after the window was asked to close.
    pub open spec fn when_closed(self) -> ProgressWindowView {
        ProgressWindowView { closed: true, ..self }
    }

    /// The host is told to close the window once.
    pub open spec fn close_event(self) -> Option<ProgressWindowEvent> {
        if self.closed {
            None
        } else {
            Some(ProgressWindowEvent::Close)
        }
    }

    pub fn new(task_id: String, show_completion: bool) -> (r: ProgressWindowView)
        ensures
            r == (ProgressWindowView {
                task_id,
                runtime: None,
                show_completion,
                parts_expanded: false,
                closed: false,
                last_error: None,
            }),
    {
        ProgressWindowView {
            task_id,
            runtime: None,
            show_completion,
            parts_expanded: false,
            closed: false,
            last_error: None,
        }
    }

    pub fn task_id(&self) -> (r: &str)
        ensures
            r@ == self.task_id@,
    {
        self.task_id.as_str()
    }

    /// The window's title, where the task is known and has a name.
    pub fn title(&self, row: Option<&DownloadTaskView>) -> (r: Option<String>)
        ensures
            opt_text(r) == match row {
                Some(row) => title_of(*row),
                None => None,
            },
    {
        match row {
            None => None,
            Some(row) => {
                if row.name.as_str().is_empty() {
                    return None;
                }
                if row.state == TaskState::Completed || row.size_bytes == 0 {
                    Some(row.name.clone())
                } else {
                    let mut title = concat(row.progress_label.as_str(), " ");
                    title.append(row.name.as_str());
                    Some(title)
                }
            },
        }
    }

    /// Takes over the choice of whether the window says that the task is done, and says whether
    /// it changed.
    pub fn set_show_completion(&mut self, value: bool) -> (r: bool)
        ensures
            r == (old(self).show_completion != value),
            *final(self) == (ProgressWindowView { show_completion: value, ..*old(self) }),
    {
        let changed: bool = self.show_completion != value;
        self.show_completion = value;
        changed
    }

    fn close(&mut self) -> (r: Option<ProgressWindowEvent>)
        ensures
            r == old(self).close_event(),
            *final(self) == old(self).when_closed(),
    {
        if self.closed {
            None
        } else {
            self.closed = true;
            Some(ProgressWindowEvent::Close)
        }
    }

    /// Takes over the state of all tasks: what is known of this one, and whether it is there at
    /// all. Without a task the window closes.
    pub fn replace_snapshot(
        &mut self,
        connected: bool,
        task_present: bool,
        runtime: Option<TaskRuntime>,
    ) -> (r: Option<ProgressWindowEvent>)
        ensures
            r == if task_present {
                None
            } else {
                old(self).close_event()
            },
            *final(self) == (ProgressWindowView {
                last_error: disconnected(connected),
                runtime,
                closed: old(self).closed || !task_present,
                ..*old(self)
            }),
    {
        self.last_error = if connected {
            None
        } else {
            Some(PageError::Disconnected)
        };
        self.refresh(task_present, runtime)
    }

    fn refresh(&mut self, task_present: bool, runtime: Option<TaskRuntime>) -> (r: Option<
        ProgressWindowEvent,
    >)
        ensures
            r == if task_present {
                None
            } else {
                old(self).close_event()
            },
            *final(self) == (ProgressWindowView {
                runtime,
                closed: old(self).closed || !task_present,
                ..*old(self)
            }),
    {
        self.runtime = runtime;
        if task_present {
            None
        } else {
            self.close()
        }
    }

    /// Takes note of an event. `changed` says whether the tasks changed by it; what is known of
    /// the task afterwards comes with it.
    pub fn apply_event(
        &mut self,
        event: &PageEvent,
        changed: bool,
        task_present: bool,
        runtime: Option<TaskRuntime>,
    ) -> (r: Option<ProgressWindowEvent>)
        ensures
            ({
                let deleted = match *event {
                    PageEvent::TaskDeleted { task_id } => task_id@ == old(self).task_id@,
                    _ => false,
                };
                let error = match *event {
                    PageEvent::ConnectionChanged { connected } => disconnected(connected),
                    _ => old(self).last_error,
                };
                if deleted {
                    &&& r == old(self).close_event()
                    &&& *final(self) == old(self).when_closed()
                } else if changed {
                    &&& r == if task_present {
                        None
                    } else {
                        old(self).close_event()
                    }
                    &&& *final(self) == (ProgressWindowView {
                        last_error: error,
                        runtime,
                        closed: old(self).closed || !task_present,
                        ..*old(self)
                    })
                } else {
                    &&& r is None
                    &&& *final(self) == (ProgressWindowView { last_error: error, ..*old(self) })
                }
            }),
    {
        match event {
            PageEvent::TaskDeleted { task_id } => {
                if same(task_id.as_str(), self.task_id.as_str()) {
                    return self.close();
                }
            },
            PageEvent::ConnectionChanged { connected } => {
                self.last_error = if *connected {
                    None
                } else {
                    Some(PageError::Disconnected)
                };
            },
            PageEvent::Other => {},
        }
        if changed {
            self.refresh(task_present, runtime)
        } else {
            None
        }
    }

    /// The session is out of touch: what was reported of the task no longer counts.
    pub fn mark_stale(&mut self)
        ensures
            *final(self) == (ProgressWindowView {
                runtime: None,
                last_error: Some(PageError::Disconnected),
                ..*old(self)
            }),
    {
        self.runtime = None;
        self.last_error = Some(PageError::Disconnected);
    }

    /// Follows up a command: a failure is shown, a success closes the window where the command
    /// asks for it.
    pub fn command_done(&mut self, failed: bool, then_do: AfterSuccess) -> (r: Option<
        ProgressWindowEvent,
    >)
        ensures
            if failed {
                &&& r is None
                &&& *final(self) == (ProgressWindowView {
                    last_error: Some(PageError::ActionFailed),
                    ..*old(self)
                })
            } else {
                match then_do {
                    AfterSuccess::Stay => r is None && *final(self) == *old(self),
                    AfterSuccess::Close => r == old(self).close_event() && *final(self)
                        == old(self).when_closed(),
                    AfterSuccess::HandOff => *final(self) == old(self).when_closed() && r
                        == if old(self).closed {
                        None
                    } else {
                        Some(ProgressWindowEvent::HandedOff)
                    },
                }
            },
    {
        if failed {
            self.last_error = Some(PageError::ActionFailed);
            return None;
        }
        match then_do {
            AfterSuccess::Stay => None,
            AfterSuccess::Close => self.close(),
            AfterSuccess::HandOff => if self.closed {
                None
            } else {
                self.closed = true;
                Some(ProgressWindowEvent::HandedOff)
            },
        }
    }

    /// The command of the pause button: to pause what is under way or waits, to resume the rest.
    pub fn toggle_pause(&self, state: Option<TaskState>) -> (r: Option<DownloadsCommand>)
        ensures
            (match r {
                Some(command) => Some(command@),
                None => None,
            }) == match state {
                Some(TaskState::Downloading) => Some(CommandView::Pause(self.task_id@)),
                Some(TaskState::Pending) => Some(CommandView::Pause(self.task_id@)),
                Some(_) => Some(CommandView::Resume(self.task_id@)),
                None => None,
            },
    {
        match state {
            None => None,
            Some(TaskState::Downloading) | Some(TaskState::Pending) => Some(
                DownloadsCommand::Pause { task_id: self.task_id.clone() },
            ),
            Some(_) => Some(DownloadsCommand::Resume { task_id: self.task_id.clone() }),
        }
    }

    /// The command that stops the task: it is paused, and the window closes.
    pub fn stop(&self) -> (r: (DownloadsCommand, AfterSuccess))
        ensures
            r.0@ == CommandView::Pause(self.task_id@),
            r.1 == AfterSuccess::Close,
    {
        (DownloadsCommand::Pause { task_id: self.task_id.clone() }, AfterSuccess::Close)
    }

    /// The command that opens the file.
    pub fn open_file(&self) -> (r: (DownloadsCommand, AfterSuccess))
        ensures
            r.0@ == CommandView::OpenTask(self.task_id@),
            r.1 == AfterSuccess::HandOff,
    {
        (DownloadsCommand::OpenTask { task_id: self.task_id.clone() }, AfterSuccess::HandOff)
    }

    /// The command that shows the file in its folder.
    pub fn show_in_folder(&self) -> (r: (DownloadsCommand, AfterSuccess))
        ensures
            r.0@ == CommandView::RevealTask(self.task_id@),
            r.1 == AfterSuccess::HandOff,
    {
        (DownloadsCommand::RevealTask { task_id: self.task_id.clone() }, AfterSuccess::HandOff)
    }

    /// The user chose whether the window says that the task is done.
    pub fn toggle_show_completion(&mut self, value: bool) -> (r: ProgressWindowEvent)
        ensures
            r == ProgressWindowEvent::ShowCompletionChanged(value),
            *final(self) == (ProgressWindowView { show_completion: value, ..*old(self) }),
    {
        self.show_completion = value;
        ProgressWindowEvent::ShowCompletionChanged(value)
    }

    /// Opens or folds the list of parts.
    pub fn toggle_parts(&mut self)
        ensures
            *final(self) == (ProgressWindowView {
                parts_expanded: !old(self).parts_expanded,
                ..*old(self)
            }),
    {
        self.parts_expanded = !self.parts_expanded;
    }

    /// The switch that opens or folds the list of parts.
    pub fn parts_toggle(&self) -> (r: PartsToggle)
        ensures
            r.label_key@ == if self.parts_expanded {
                "progressWindowPartsHide"@
            } else {
                "progressWindowPartsShow"@
            },
            r.icon == if self.parts_expanded {
                FluxIcon::ChevronDown
            } else {
                FluxIcon::ChevronRight
            },
    {
        if self.parts_expanded {
            PartsToggle { label_key: "progressWindowPartsHide", icon: FluxIcon::ChevronDown }
        } else {
            PartsToggle { label_key: "progressWindowPartsShow", icon: FluxIcon::ChevronRight }
        }
    }
}

/// The switch that opens or folds the list of parts.
#[derive(Clone, Copy, Debug, PartialEq, Eq)]
pub struct PartsToggle {
    /// The name of its text.
    pub label_key: &'static str,
    pub icon: FluxIcon,
}

/// The host is told to close the window at most once: after it was told, neither an event nor a
/// command tells it again.
pub proof fn law_window_closes_once(view: ProgressWindowView)
    requires
        view.closed,
    ensures
        view.close_event() is None,
        view.when_closed() == view,
{
}

/// What the window says while the task runs.
#[derive(Debug)]
pub struct ProgressPanel {
    pub name: String,
    pub state_label: String,
    pub state_color: ColorRole,
    /// The protocol, and how much is there of how much.
    pub meta: String,
    pub progress_label: String,
    /// How many parts the download has, where it has more than one.
    pub segments: Option<usize>,
    pub speed: String,
    /// Whether the speed stands out.
    pub speed_emphasized: bool,
    pub remaining: String,
    /// The name of the label of the connections: peers of a torrent, else transfers.
    pub connections_label: &'static str,
    pub connections: String,
    pub save_dir: String,
    pub share_url: String,
    /// Why the task failed.
    pub failure: Option<String>,
    /// Whether the button pauses the task, not resumes it.
    pub can_pause: bool,
}

/// What stands where nothing is known.
pub open spec fn dash() -> Seq<char> {
    "—"@
}

pub open spec fn or_dash(text: Option<Seq<char>>) -> Seq<char> {
    match text {
        Some(text) => text,
        None => dash(),
    }
}

fn text_or_dash(text: Option<String>) -> (r: String)
    ensures
        r@ == or_dash(opt_text(text)),
{
    match text {
        Some(text) => text,
        None => "—".to_owned(),
    }
}

/// The number of connections, of how many at most where that is known.
pub open spec fn transfers_text(count: u64, limit: Option<u64>) -> Seq<char> {
    match limit {
        Some(limit) => decimal(count as nat) + " / "@ + decimal(limit as nat),
        None => decimal(count as nat),
    }
}

/// What the window says of the connections while the task downloads.
pub open spec fn connections_of(row: DownloadTaskView, runtime: Option<TaskRuntime>) -> Option<
    Seq<char>,
> {
    if row.state != TaskState::Downloading {
        None
    } else if row.is_bt {
        match runtime {
            Some(runtime) => match runtime.connected_peers {
                Some(peers) => if row.runtime_connected {
                    Some(decimal(peers as nat))
                } else {
                    None
                },
                None => None,
            },
            None => None,
        }
    } else {
        match row.active_transfers {
            Some(count) => Some(
                transfers_text(
                    count,
                    match runtime {
                        Some(runtime) => runtime.parallelism_limit,
                        None => None,
                    },
                ),
            ),
            None => None,
        }
    }
}

/// The number of parts that is shown: that of a download in parts that is no torrent.
pub open spec fn parts_shown(row: DownloadTaskView, runtime: Option<TaskRuntime>) -> Option<nat> {
    match runtime {
        Some(runtime) => if !row.is_bt && runtime.segments@.len() > 1 {
            Some(runtime.segments@.len())
        } else {
            None
        },
        None => None,
    }
}

/// What the window says while the task runs.
pub open spec fn panel_is(
    row: DownloadTaskView,
    runtime: Option<TaskRuntime>,
    panel: ProgressPanel,
) -> bool {
    let downloading = row.state == TaskState::Downloading;
    &&& panel.name@ == row.name@
    &&& panel.state_label@ == row.facts.state_label@
    &&& panel.state_color == state_color(row.state)
    &&& panel.meta@ == dotted(row.protocol_label@, progress_text(row))
    &&& panel.progress_label@ == row.progress_label@
    &&& (match panel.segments {
        Some(count) => Some(count as nat),
        None => None,
    }) == parts_shown(row, runtime)
    &&& panel.speed@ == or_dash(
        if downloading {
            shown_speed(row)
        } else {
            None
        },
    )
    &&& panel.speed_emphasized == downloading
    &&& panel.remaining@ == or_dash(
        if downloading {
            shown_eta(row)
        } else {
            None
        },
    )
    &&& panel.connections_label@ == if row.is_bt {
        "detailConnectedPeers"@
    } else {
        "detailActiveTransfers"@
    }
    &&& panel.connections@ == or_dash(connections_of(row, runtime))
    &&& panel.save_dir@ == row.save_dir@
    &&& panel.share_url@ == row.share_url@
    &&& opt_text(panel.failure) == if row.state == TaskState::Failed && row.error_message@.len()
        > 0 {
        Some(row.error_message@)
    } else {
        None
    }
    &&& panel.can_pause == (downloading || row.state == TaskState::Pending)
}

/// What the window says of the connections while the task downloads.
fn connections_text(row: &DownloadTaskView, runtime: &Option<TaskRuntime>) -> (r: Option<String>)
    ensures
        opt_text(r) == connections_of(*row, *runtime),
{
    if row.state != TaskState::Downloading {
        return None;
    }
    if row.is_bt {
        return match runtime {
            Some(runtime) => match runtime.connected_peers {
                Some(peers) => if row.runtime_connected {
                    Some(number(peers))
                } else {
                    None
                },
                None => None,
            },
            None => None,
        };
    }
    match row.active_transfers {
        None => None,
        Some(count) => {
            let limit = match runtime {
                Some(runtime) => runtime.parallelism_limit,
                None => None,
            };
            let digits = number(count);
            match limit {
                None => Some(digits),
                Some(limit) => {
                    let most = number(limit);
                    let mut r = concat(digits.as_str(), " / ");
                    r.append(most.as_str());
                    Some(r)
                },
            }
        },
    }
}

/// What the window says while the task runs.
pub fn progress_panel(row: &DownloadTaskView, runtime: &Option<TaskRuntime>) -> (r: ProgressPanel)
    ensures
        panel_is(*row, *runtime, r),
{
    let downloading: bool = row.state == TaskState::Downloading;
    let size_label = bytes_progress(row);
    let meta = with_dot(row.protocol_label.as_str(), size_label.as_str());
    let speed = if downloading {
        speed_shown(row)
    } else {
        None
    };
    let eta = if downloading {
        eta_shown(row)
    } else {
        None
    };
    let segments = match runtime {
        Some(runtime) => if !row.is_bt && runtime.segments.len() > 1 {
            Some(runtime.segments.len())
        } else {
            None
        },
        None => None,
    };
    let failure = if row.state == TaskState::Failed && !row.error_message.as_str().is_empty() {
        Some(row.error_message.clone())
    } else {
        None
    };
    ProgressPanel {
        name: row.name.clone(),
        state_label: row.facts.state_label.clone(),
        state_color: status_color(row.state),
        meta,
        progress_label: row.progress_label.clone(),
        segments,
        speed: text_or_dash(speed),
        speed_emphasized: downloading,
        remaining: text_or_dash(eta),
        connections_label: if row.is_bt {
            "detailConnectedPeers"
        } else {
            "detailActiveTransfers"
        },
        connections: text_or_dash(connections_text(row, runtime)),
        save_dir: row.save_dir.clone(),
        share_url: row.share_url.clone(),
        failure,
        can_pause: downloading || row.state == TaskState::Pending,
    }
}

/// A line of the list of parts.
#[derive(Debug)]
pub struct PartRow {
    /// The part's number, counted from one.
    pub label: String,
    /// The name of the text that says what the part is doing.
    pub status_key: &'static str,
    /// Whether a connection works on it.
    pub active: bool,
    pub downloaded: u64,
    pub size: u64,
}

/// The size of a part; nothing where it ends before it begins.
pub open spec fn part_size(s: Segment) -> int {
    let size = s.end_byte - s.start_byte + 1;
    if size < 0 {
        0
    } else {
        size
    }
}

pub open spec fn part_done(s: Segment) -> int {
    if s.downloaded_bytes < 0 {
        0
    } else {
        s.downloaded_bytes as int
    }
}

/// Whether the size of a part can be worked out.
pub open spec fn part_fits(s: Segment) -> bool {
    i64::MIN <= s.end_byte - s.start_byte && s.end_byte - s.start_byte + 1 <= i64::MAX
}

/// What the list says of a part. `running` tells whether the task downloads.
pub open spec fn part_is(s: Segment, running: bool, row: PartRow) -> bool {
    &&& row.label@ == "#"@ + decimal_int(s.index + 1)
    &&& row.size == part_size(s)
    &&& row.downloaded == part_done(s)
    &&& row.active == (running && s.active == Some(true))
    &&& row.status_key@ == if part_size(s) > 0 && part_done(s) >= part_size(s) {
        "statusCompleted"@
    } else if !running {
        "statusPaused"@
    } else if s.active == Some(true) {
        "statusDownloading"@
    } else {
        "progressWindowPartWaiting"@
    }
}

/// What the list says of a part.
pub fn part_row(s: &Segment, running: bool) -> (r: PartRow)
    requires
        part_fits(*s),
    ensures
        part_is(*s, running, r),
{
    let span: i64 = s.end_byte - s.start_byte + 1;
    let size: u64 = if span < 0 {
        0
    } else {
        span as u64
    };
    let downloaded: u64 = if s.downloaded_bytes < 0 {
        0
    } else {
        s.downloaded_bytes as u64
    };
    let working: bool = match s.active {
        Some(active) => active,
        None => false,
    };
    let digits = signed_number(s.index as i64 + 1);
    PartRow {
        label: concat("#", digits.as_str()),
        status_key: if size > 0 && downloaded >= size {
            "statusCompleted"
        } else if !running {
            "statusPaused"
        } else if working {
            "statusDownloading"
        } else {
            "progressWindowPartWaiting"
        },
        active: working && running,
        downloaded,
        size,
    }
}

/// The rule that orders parts: by number.
pub open spec fn part_rule(segments: Seq<Segment>) -> spec_fn(int, int) -> bool {
    |a: int, b: int| segments[a].index < segments[b].index
}

/// Whether the list shows the parts by number, parts of the same number in the order in which
/// they were reported.
pub open spec fn parts_are(segments: Seq<Segment>, running: bool, rows: Seq<PartRow>) -> bool {
    exists|order: Seq<usize>| #[trigger]
        stable_order(order, segments.len(), part_rule(segments)) && rows.len() == segments.len()
            && forall|i: int|
            0 <= i < rows.len() ==> part_is(segments[order[i] as int], running, #[trigger] rows[i])
}

/// The list of parts.
pub fn part_rows(segments: &Vec<Segment>, running: bool) -> (r: Vec<PartRow>)
    requires
        forall|i: int| 0 <= i < segments@.len() ==> part_fits(#[trigger] segments@[i]),
    ensures
        parts_are(segments@, running, r@),
{
    let n: usize = segments.len();
    let ghost rule = part_rule(segments@);
    let less = |a: usize, b: usize| -> (x: bool)
        requires
            a < segments@.len() && b < segments@.len(),
        ensures
            x == (segments@[a as int].index < segments@[b as int].index),
        { segments[a].index < segments[b].index };
    let order = stable_sort(n, less, Ghost(rule));
    let mut r: Vec<PartRow> = Vec::new();
    let mut i: usize = 0;
    while i < n
        invariant
            i <= n,
            n == segments@.len(),
            order@.len() == n,
            forall|k: int| 0 <= k < n ==> (#[trigger] order@[k]) < n,
            forall|k: int| 0 <= k < n ==> part_fits(#[trigger] segments@[k]),
            r@.len() == i,
            forall|k: int|
                0 <= k < i ==> part_is(segments@[order@[k] as int], running, #[trigger] r@[k]),
        decreases n - i,
    {
        assert(part_fits(segments@[order@[i as int] as int]));
        r.push(part_row(&segments[order[i]], running));
        i += 1;
    }
    assert(stable_order(order@, segments@.len(), part_rule(segments@)));
    r
}

/// What the window says when the task is done.
#[derive(Debug)]
pub struct CompletedPanel {
    pub name: String,
    pub save_dir: String,
    /// The size, and how long the download took where that is known.
    pub size: String,
    pub elapsed: Option<String>,
    /// Whether the file is gone.
    pub missing: bool,
    /// The name of the headline's text.
    pub headline: &'static str,
    pub badge: FluxIcon,
    /// The colour of the headline and the badge.
    pub color: ColorRole,
}

impl CompletedPanel {
    /// The size, with how long the download took where that is known, in the words for it.
    pub open spec fn meta_text(self, duration_label: Seq<char>) -> Seq<char> {
        match self.elapsed {
            Some(elapsed) => dotted(self.size@, duration_label + " "@ + elapsed@),
            None => self.size@,
        }
    }

    /// The line on size and duration. `duration_label` is the word for the latter.
    pub fn meta(&self, duration_label: &str) -> (r: String)
        ensures
            r@ == self.meta_text(duration_label@),
    {
        match &self.elapsed {
            Some(elapsed) => {
                let mut took = concat(duration_label, " ");
                took.append(elapsed.as_str());
                with_dot(self.size.as_str(), took.as_str())
            },
            None => self.size.clone(),
        }
    }
}

/// What the window says when the task is done.
pub open spec fn completed_is(row: DownloadTaskView, panel: CompletedPanel) -> bool {
    let elapsed = row.completed_at_secs - row.created_at_secs;
    &&& panel.name@ == row.name@
    &&& panel.save_dir@ == row.save_dir@
    &&& panel.size@ == if row.size_bytes > 0 {
        row.size_text@
    } else {
        row.downloaded_text@
    }
    &&& opt_text(panel.elapsed) == if elapsed > 0 {
        Some(h_mm_ss(elapsed as nat))
    } else {
        None
    }
    &&& panel.missing == row.file_missing
    &&& panel.headline@ == if row.file_missing {
        "statusFileMissing"@
    } else {
        "downloadCompleted"@
    }
    &&& panel.badge == if row.file_missing {
        FluxIcon::CircleAlert
    } else {
        FluxIcon::Check
    }
    &&& panel.color == if row.file_missing {
        ColorRole::Warning
    } else {
        ColorRole::Success
    }
}

/// What the window says when the task is done.
pub fn completed_panel(row: &DownloadTaskView) -> (r: CompletedPanel)
    requires
        i64::MIN <= row.completed_at_secs - row.created_at_secs <= i64::MAX,
    ensures
        completed_is(*row, r),
{
    let elapsed: i64 = row.completed_at_secs - row.created_at_secs;
    CompletedPanel {
        name: row.name.clone(),
        save_dir: row.save_dir.clone(),
        size: if row.size_bytes > 0 {
            row.size_text.clone()
        } else {
            row.downloaded_text.clone()
        },
        elapsed: if elapsed > 0 {
            Some(format_elapsed(elapsed as u64))
        } else {
            None
        },
        missing: row.file_missing,
        headline: if row.file_missing {
            "statusFileMissing"
        } else {
            "downloadCompleted"
        },
        badge: if row.file_missing {
            FluxIcon::CircleAlert
        } else {
            FluxIcon::Check
        },
        color: if row.file_missing {
            ColorRole::Warning
        } else {
            ColorRole::Success
        },
    }
}

/// A time that passed: minutes and seconds, with the hours in front from one hour on.
pub fn format_elapsed(seconds: u64) -> (r: String)
    ensures
        r@ == h_mm_ss(seconds as nat),
{
    hours_minutes_seconds(seconds)
}

/// Which of its two views a task's window shows.
#[derive(Clone, Copy, Debug, PartialEq, Eq, Structural)]
pub enum WindowContent {
    Progress,
    Completed,
    /// There is no such task.
    Empty,
}

/// Which of its two views a task's window shows.
pub fn window_content(state: Option<TaskState>) -> (r: WindowContent)
    ensures
        r == match state {
            Some(TaskState::Completed) => WindowContent::Completed,
            Some(_) => WindowContent::Progress,
            None => WindowContent::Empty,
        },
{
    match state {
        Some(TaskState::Completed) => WindowContent::Completed,
        Some(_) => WindowContent::Progress,
        None => WindowContent::Empty,
    }
}

/// The button of the window pauses a task that runs or waits and resumes any other; stopping
/// pauses it and closes the window; opening and showing hand the window over. All of them are for
/// the window's own task.
pub proof fn law_window_acts_on_its_task(
    view: &ProgressWindowView,
    state: TaskState,
    toggled: Option<DownloadsCommand>,
    none: Option<DownloadsCommand>,
    stopped: (DownloadsCommand, AfterSuccess),
    opened: (DownloadsCommand, AfterSuccess),
    shown: (DownloadsCommand, AfterSuccess),
)
    requires
        call_ensures(ProgressWindowView::toggle_pause, (view, Some(state)), toggled),
        call_ensures(ProgressWindowView::toggle_pause, (view, None), none),
        call_ensures(ProgressWindowView::stop, (view,), stopped),
        call_ensures(ProgressWindowView::open_file, (view,), opened),
        call_ensures(ProgressWindowView::show_in_folder, (view,), shown),
    ensures
        state == TaskState::Downloading || state == TaskState::Pending ==> match toggled {
            Some(DownloadsCommand::Pause { task_id }) => task_id@ == view.task_id@,
            _ => false,
        },
        state != TaskState::Downloading && state != TaskState::Pending ==> match toggled {
            Some(DownloadsCommand::Resume { task_id }) => task_id@ == view.task_id@,
            _ => false,
        },
        none is None,
        match stopped.0 {
            DownloadsCommand::Pause { task_id } => task_id@ == view.task_id@,
            _ => false,
        },
        stopped.1 == AfterSuccess::Close,
        match opened.0 {
            DownloadsCommand::OpenTask { task_id } => task_id@ == view.task_id@,
            _ => false,
        },
        opened.1 == AfterSuccess::HandOff,
        match shown.0 {
            DownloadsCommand::RevealTask { task_id } => task_id@ == view.task_id@,
            _ => false,
        },
        shown.1 == AfterSuccess::HandOff,
{
}

/// The title names the task, with how far it is in front of it while that means something.
pub proof fn law_title_names_the_task(
    view: &ProgressWindowView,
    row: &DownloadTaskView,
    title: Option<String>,
)
    requires
        call_ensures(ProgressWindowView::title, (view, Some(row)), title),
    ensures
        row.name@.len() == 0 ==> title is None,
        row.name@.len() > 0 && row.state == TaskState::Completed ==> opt_text(title) == Some(row.name@),
        row.name@.len() > 0 && row.size_bytes == 0 ==> opt_text(title) == Some(row.name@),
        row.name@.len() > 0 && row.state != TaskState::Completed && row.size_bytes != 0 ==> opt_text(
            title,
        ) == Some(row.progress_label@ + " "@ + row.name@),
{
}

/// The window of a task that is gone closes, and tells so once: a second report of the same
/// closes nothing.
pub proof fn law_gone_task_closes_its_window(
    first: &mut ProgressWindowView,
    second: &mut ProgressWindowView,
    connected: bool,
    runtime: Option<TaskRuntime>,
    told: Option<ProgressWindowEvent>,
    again: Option<ProgressWindowEvent>,
)
    requires
        !old(first).closed,
        call_ensures(
            ProgressWindowView::replace_snapshot,
            (first, connected, false, runtime),
            told,
        ),
        *old(second) == *final(first),
        call_ensures(
            ProgressWindowView::replace_snapshot,
            (second, connected, false, runtime),
            again,
        ),
    ensures
        told == Some(ProgressWindowEvent::Close),
        again is None,
        final(first).closed,
        final(first).last_error is None <==> connected,
{
}

/// A failed command says so and leaves the window open; what the window shows of a lost
/// connection goes when the connection comes back.
pub proof fn law_failures_are_shown(
    failing: &mut ProgressWindowView,
    losing: &mut ProgressWindowView,
    finding: &mut ProgressWindowView,
    then_do: AfterSuccess,
    told: Option<ProgressWindowEvent>,
    lost: Option<ProgressWindowEvent>,
    found: Option<ProgressWindowEvent>,
)
    requires
        call_ensures(ProgressWindowView::command_done, (failing, true, then_do), told),
        call_ensures(
            ProgressWindowView::apply_event,
            (losing, &PageEvent::ConnectionChanged { connected: false }, false, true, None),
            lost,
        ),
        *old(finding) == *final(losing),
        call_ensures(
            ProgressWindowView::apply_event,
            (finding, &PageEvent::ConnectionChanged { connected: true }, false, true, None),
            found,
        ),
    ensures
        told is None,
        final(failing).last_error == Some(PageError::ActionFailed),
        final(failing).closed == old(failing).closed,
        final(losing).last_error == Some(PageError::Disconnected),
        final(finding).last_error is None,
{
}

/// What the panel says of a task: speed and remaining time only while it runs, its failure only
/// where it failed with a message, pausing offered while it runs or waits.
pub proof fn law_panel_says_what_is_going_on(
    row: &DownloadTaskView,
    runtime: &Option<TaskRuntime>,
    panel: ProgressPanel,
)
    requires
        call_ensures(progress_panel, (row, runtime), panel),
    ensures
        panel.name@ == row.name@,
        panel.save_dir@ == row.save_dir@,
        panel.share_url@ == row.share_url@,
        panel.progress_label@ == row.progress_label@,
        row.state != TaskState::Downloading ==> panel.speed@ == "—"@ && panel.remaining@ == "—"@
            && panel.connections@ == "—"@ && !panel.speed_emphasized,
        row.state == TaskState::Downloading && row.speed_bytes_per_second is Some
            && row.speed_bytes_per_second->0 > 0 ==> panel.speed@ == row.speed_text@ + "/s"@,
        row.state == TaskState::Downloading && row.eta_seconds is Some && row.eta_seconds->0 <= 86_400
            ==> panel.remaining@ == row.eta_text@,
        panel.failure is Some <==> row.state == TaskState::Failed && row.error_message@.len() > 0,
        panel.failure matches Some(failure) ==> failure@ == row.error_message@,
        panel.can_pause <==> row.state == TaskState::Downloading || row.state == TaskState::Pending,
        row.is_bt ==> panel.segments is None,
        row.size_bytes > 0 ==> panel.meta@ == row.protocol_label@ + " · "@ + (row.downloaded_text@
            + " / "@ + row.size_text@),
{
}

/// A part counts both its first and its last byte; it is numbered from one; it is done when all of
/// it is there, paused when the task does not run, and else under way or waiting as its connection
/// says.
pub proof fn law_part_is_done_when_all_is_there(s: &Segment, running: bool, row: PartRow)
    requires
        call_ensures(part_row, (s, running), row),
        s.start_byte <= s.end_byte,
        s.downloaded_bytes >= 0,
    ensures
        row.size + s.start_byte == s.end_byte + 1,
        row.downloaded == s.downloaded_bytes,
        row.label@ == "#"@ + decimal_int(s.index + 1),
        s.downloaded_bytes > s.end_byte - s.start_byte ==> row.status_key@ == "statusCompleted"@,
        s.downloaded_bytes <= s.end_byte - s.start_byte ==> {
            &&& !running ==> row.status_key@ == "statusPaused"@
            &&& running && s.active == Some(true) ==> row.status_key@ == "statusDownloading"@
            &&& running && s.active != Some(true) ==> row.status_key@ == "progressWindowPartWaiting"@
        },
        row.active <==> running && s.active == Some(true),
{
}

/// The parts stand in order of their numbers, as many as there are.
pub proof fn law_parts_stand_by_number(
    segments: Seq<Segment>,
    running: bool,
    rows: Seq<PartRow>,
    i: int,
    j: int,
) -> (at: (int, int))
    requires
        parts_are(segments, running, rows),
        0 <= i < j < rows.len(),
    ensures
        rows.len() == segments.len(),
        0 <= at.0 < segments.len() && 0 <= at.1 < segments.len(),
        rows[i].label@ == "#"@ + decimal_int(segments[at.0].index + 1),
        rows[j].label@ == "#"@ + decimal_int(segments[at.1].index + 1),
        segments[at.0].index <= segments[at.1].index,
        at.0 != at.1,
{
    let less = part_rule(segments);
    let order = choose|order: Seq<usize>| #[trigger]
        stable_order(order, segments.len(), less) && rows.len() == segments.len() && forall|i: int|
            0 <= i < rows.len() ==> part_is(segments[order[i] as int], running, #[trigger] rows[i]);
    assert(crate::order::stands_before(less, order[i] as int, order[j] as int));
    assert(part_is(segments[order[i] as int], running, rows[i]));
    assert(part_is(segments[order[j] as int], running, rows[j]));
    (order[i] as int, order[j] as int)
}

/// What the completion view says: the size where it is known, how long the task took where its
/// times say so, and a warning where the file is gone.
pub proof fn law_completion_says_size_and_time(
    row: &DownloadTaskView,
    panel: CompletedPanel,
    took: String,
)
    requires
        call_ensures(completed_panel, (row,), panel),
        row.created_at_secs < row.completed_at_secs,
        row.completed_at_secs - row.created_at_secs <= i64::MAX,
        call_ensures(
            format_elapsed,
            ((row.completed_at_secs - row.created_at_secs) as u64,),
            took,
        ),
    ensures
        panel.name@ == row.name@,
        panel.save_dir@ == row.save_dir@,
        opt_text(panel.elapsed) == Some(took@),
        row.size_bytes > 0 ==> panel.size@ == row.size_text@,
        row.size_bytes <= 0 ==> panel.size@ == row.downloaded_text@,
        panel.missing == row.file_missing,
        row.file_missing ==> panel.headline@ == "statusFileMissing"@ && panel.color
            == ColorRole::Warning && panel.badge == FluxIcon::CircleAlert,
        !row.file_missing ==> panel.headline@ == "downloadCompleted"@ && panel.color
            == ColorRole::Success && panel.badge == FluxIcon::Check,
{
}

/// A window shows the completion view exactly for a task that is done, and nothing without a task.
pub proof fn law_window_shows_what_its_task_is(state: Option<TaskState>, content: WindowContent)
    requires
        call_ensures(window_content, (state,), content),
    ensures
        content == WindowContent::Completed <==> state == Some(TaskState::Completed),
        content == WindowContent::Empty <==> state is None,
{
}

/// The switch for the completion view tells its new value and keeps it; setting the value it has
/// changes nothing.
pub proof fn law_switch_tells_its_value(
    turn: &mut ProgressWindowView,
    set: &mut ProgressWindowView,
    value: bool,
    told: ProgressWindowEvent,
    changed: bool,
)
    requires
        call_ensures(ProgressWindowView::toggle_show_completion, (turn, value), told),
        *old(set) == *final(turn),
        call_ensures(ProgressWindowView::set_show_completion, (set, value), changed),
    ensures
        told == ProgressWindowEvent::ShowCompletionChanged(value),
        final(turn).show_completion == value,
        !changed,
        *final(set) == *final(turn),
        final(turn).task_id == old(turn).task_id,
{
}

/// The list of parts is folded out and in; the button says which it will do.
pub proof fn law_parts_fold_out_and_in(
    first: &mut ProgressWindowView,
    second: &mut ProgressWindowView,
    open: PartsToggle,
    shut: PartsToggle,
)
    requires
        !old(first).parts_expanded,
        call_ensures(ProgressWindowView::parts_toggle, (&*old(first),), shut),
        call_ensures(ProgressWindowView::toggle_parts, (first,), ()),
        call_ensures(ProgressWindowView::parts_toggle, (&*final(first),), open),
        *old(second) == *final(first),
        call_ensures(ProgressWindowView::toggle_parts, (second,), ()),
    ensures
        shut.label_key@ == "progressWindowPartsShow"@ && shut.icon == FluxIcon::ChevronRight,
        open.label_key@ == "progressWindowPartsHide"@ && open.icon == FluxIcon::ChevronDown,
        final(first).parts_expanded,
        *final(second) == *old(first),
{
}

/// A window that lost touch says so and knows nothing of what runs.
pub proof fn law_lost_window_knows_nothing(view: &mut ProgressWindowView, id: &str)
    requires
        call_ensures(ProgressWindowView::mark_stale, (view,), ()),
        call_ensures(ProgressWindowView::task_id, (&*final(view),), id),
    ensures
        final(view).runtime is None,
        final(view).last_error == Some(PageError::Disconnected),
        id@ == old(view).task_id@,
        final(view).closed == old(view).closed,
{
}

/// Every part is listed, in the order of their numbers.
pub proof fn law_every_part_is_listed(segments: &Vec<Segment>, running: bool, rows: Vec<PartRow>, i: int, j: int)
    requires
        call_ensures(part_rows, (segments, running), rows),
        0 <= i < j < rows@.len(),
    ensures
        rows@.len() == segments@.len(),
        exists|a: int, b: int|
            0 <= a < segments@.len() && 0 <= b < segments@.len() && a != b
                && (#[trigger] segments@[a]).index <= (#[trigger] segments@[b]).index
                && rows@[i].label@ == "#"@ + decimal_int(segments@[a].index + 1) && rows@[j].label@
                == "#"@ + decimal_int(segments@[b].index + 1),
{
    let at = law_parts_stand_by_number(segments@, running, rows@, i, j);
    assert(segments@[at.0].index <= segments@[at.1].index);
}

/// The completion view says the size, and behind it how long it took where that is known.
pub proof fn law_completion_line_has_size_first(panel: &CompletedPanel, label: &str, line: String)
    requires
        call_ensures(CompletedPanel::meta, (panel, label), line),
    ensures
        panel.elapsed is None ==> line@ == panel.size@,
        panel.elapsed matches Some(took) ==> line@ == panel.size@ + " · "@ + (label@ + " "@ + took@),
{
}

} // verus!
