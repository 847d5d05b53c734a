//! What the cells, headers and menus of the task table say, and how its settings change.

use vstd::prelude::*;

use crate::columns::{
    column_at, DownloadColumn, shown_column, shown_count, shown_indexes, DownloadColumnKind, SortDir, ViewSortKey,
};
use crate::context_menu::{actions_of, row_actions, RowAction};
use crate::controls::FluxIcon;
use crate::task_table::{DownloadTableDelegate, TableStrings, ViewPrefs, VisibleRow};
use crate::tasks::{DownloadTaskView, RowId, TaskKind, TaskState, TaskStore};
use crate::text::{
    concat, decimal, find_key, number, opt_text, same, split, split_parts, strip_prefix, stripped,
    texts, trim, trimmed, value_of, lemma_split_nonempty, Separator,
};
use crate::text_laws::law_prefix_is_what_it_begins_with;

verus! {

/// A remaining time beyond a day is no estimate.
pub const MAX_ETA_SECS: u64 = 86_400;

/// Two texts with a dot between them.
pub open spec fn dotted(a: Seq<char>, b: Seq<char>) -> Seq<char> {
    a + " · "@ + b
}

/// Two texts with a dot between them.
pub fn with_dot(a: &str, b: &str) -> (r: String)
    ensures
        r@ == dotted(a@, b@),
{
    let mut r = concat(a, " · ");
    r.append(b);
    r
}

/// The speed that is shown: a known one above zero.
pub open spec fn shown_speed(task: DownloadTaskView) -> Option<Seq<char>> {
    match task.speed_bytes_per_second {
        Some(speed) => if speed > 0 {
            Some(task.speed_text@ + "/s"@)
        } else {
            None
        },
        None => None,
    }
}

/// The remaining time that is shown: a known one of a day at most.
pub open spec fn shown_eta(task: DownloadTaskView) -> Option<Seq<char>> {
    match task.eta_seconds {
        Some(seconds) => if seconds <= MAX_ETA_SECS {
            Some(task.eta_text@)
        } else {
            None
        },
        None => None,
    }
}

pub fn speed_shown(task: &DownloadTaskView) -> (r: Option<String>)
    ensures
        opt_text(r) == shown_speed(*task),
{
    match task.speed_bytes_per_second {
        Some(speed) => if speed > 0 {
            Some(concat(task.speed_text.as_str(), "/s"))
        } else {
            None
        },
        None => None,
    }
}

pub fn eta_shown(task: &DownloadTaskView) -> (r: Option<String>)
    ensures
        opt_text(r) == shown_eta(*task),
{
    match task.eta_seconds {
        Some(seconds) => if seconds <= MAX_ETA_SECS {
            Some(task.eta_text.clone())
        } else {
            None
        },
        None => None,
    }
}

/// What a task's state says: while it downloads, the speed and the remaining time as far as they
/// are known; else the state's name.
pub open spec fn status_text(strings: TableStrings, task: DownloadTaskView) -> Seq<char> {
    if task.state != TaskState::Downloading {
        task.facts.state_label@
    } else {
        match (shown_speed(task), shown_eta(task)) {
            (Some(speed), Some(eta)) => dotted(speed, eta),
            (Some(speed), None) => speed,
            (None, Some(eta)) => eta,
            (None, None) => strings.status_downloading@,
        }
    }
}

/// How much is there of how much; where the size is unknown, only how much is there.
pub open spec fn progress_text(task: DownloadTaskView) -> Seq<char> {
    if task.size_bytes > 0 {
        task.downloaded_text@ + " / "@ + task.size_text@
    } else {
        task.downloaded_text@
    }
}

/// How much is there of how much; where the size is unknown, only how much is there.
pub fn bytes_progress(task: &DownloadTaskView) -> (r: String)
    ensures
        r@ == progress_text(*task),
{
    if task.size_bytes > 0 {
        let mut r = concat(task.downloaded_text.as_str(), " / ");
        r.append(task.size_text.as_str());
        r
    } else {
        task.downloaded_text.clone()
    }
}

/// The peers that are shown: those of a torrent whose transfer is followed.
pub open spec fn shown_peers(task: DownloadTaskView) -> Option<u64> {
    if task.runtime_connected && task.is_bt {
        task.connected_peers
    } else {
        None
    }
}

/// A count with its unit.
pub open spec fn counted(n: u64, unit: Seq<char>) -> Seq<char> {
    decimal(n as nat) + " "@ + unit
}

pub fn count_text(n: u64, unit: &str) -> (r: String)
    ensures
        r@ == counted(n, unit@),
{
    let digits = number(n);
    let mut r = concat(digits.as_str(), " ");
    r.append(unit);
    r
}

/// How many connections and peers work on a task.
pub open spec fn transfer_text(strings: TableStrings, task: DownloadTaskView) -> Option<
    Seq<char>,
> {
    match (task.active_transfers, shown_peers(task)) {
        (Some(active), Some(peers)) => Some(
            dotted(
                counted(active, strings.active_transfers@),
                counted(peers, strings.connected_peers@),
            ),
        ),
        (Some(active), None) => Some(counted(active, strings.active_transfers@)),
        (None, Some(peers)) => Some(counted(peers, strings.connected_peers@)),
        (None, None) => None,
    }
}

/// The first line of a text, trimmed, unless nothing is left of it.
pub open spec fn first_line(s: Seq<char>) -> Option<Seq<char>> {
    let line = trimmed(split(s, Separator::Exactly('\n'))[0]);
    if line.len() == 0 {
        None
    } else {
        Some(line)
    }
}

/// The second line of a task's state: how far it is and what works on it, or why it failed.
pub open spec fn detail_text(strings: TableStrings, task: DownloadTaskView) -> Option<Seq<char>> {
    match task.state {
        TaskState::Downloading => Some(
            match transfer_text(strings, task) {
                Some(transfers) => dotted(progress_text(task), transfers),
                None => progress_text(task),
            },
        ),
        TaskState::Paused => Some(progress_text(task)),
        TaskState::Failed => first_line(task.error_message@),
        TaskState::Pending => None,
        TaskState::Completed => None,
    }
}

/// The label of a sort of file.
pub open spec fn kind_text(strings: TableStrings, kind: TaskKind) -> Seq<char> {
    match kind {
        TaskKind::Video => strings.category_video@,
        TaskKind::Audio => strings.category_audio@,
        TaskKind::Document => strings.category_document@,
        TaskKind::Image => strings.category_image@,
        TaskKind::Archive => strings.category_archive@,
        TaskKind::DiskImage => strings.category_archive@,
        TaskKind::Application => strings.category_program@,
        TaskKind::Mobile => strings.category_program@,
        TaskKind::Other => strings.category_other@,
    }
}

/// The head of a column.
pub open spec fn column_label(strings: TableStrings, kind: DownloadColumnKind) -> Seq<char> {
    match kind {
        DownloadColumnKind::FileName => strings.col_file_name@,
        DownloadColumnKind::Progress => strings.col_progress@,
        DownloadColumnKind::Size => strings.col_size@,
        DownloadColumnKind::Speed => strings.col_speed@,
        DownloadColumnKind::Eta => strings.col_eta@,
        DownloadColumnKind::Status => strings.col_status@,
        DownloadColumnKind::Created => strings.col_created@,
        DownloadColumnKind::Protocol => strings.col_protocol@,
        DownloadColumnKind::Source => strings.col_source@,
        DownloadColumnKind::Queue => strings.col_queue@,
    }
}

/// The cell of a file's name.
#[derive(Debug, PartialEq, Eq)]
pub struct FileCell {
    pub name: String,
    /// Whether the name is still being asked for.
    pub loading: bool,
    /// The second line: the sort of file, and the site where one is known.
    pub meta: Option<String>,
}

/// The cell of a task's state.
#[derive(Debug, PartialEq, Eq)]
pub struct StatusCell {
    pub label: String,
    /// The second line.
    pub detail: Option<String>,
    pub tooltip: Option<String>,
}

/// A cell of one line. Where nothing is known it holds a dash.
#[derive(Debug, PartialEq, Eq)]
pub struct MetaCell {
    pub text: String,
    pub known: bool,
    pub numeric: bool,
}

/// What stands in a cell of the table.
#[derive(Debug, PartialEq, Eq)]
pub enum Cell {
    Blank,
    /// The header of a group.
    GroupHeader,
    /// The check box or icon in front of a task.
    Selection,
    File(FileCell),
    /// A bar and a percentage; nothing for a task that is done.
    Progress { shown: bool },
    Status(StatusCell),
    Meta(MetaCell),
}

pub open spec fn is_meta(cell: Cell, text: Option<Seq<char>>, numeric: bool) -> bool {
    match cell {
        Cell::Meta(meta) => meta.numeric == numeric && match text {
            Some(text) => meta.known && meta.text@ == text,
            None => !meta.known && meta.text@ == "—"@,
        },
        _ => false,
    }
}

fn meta_cell(text: Option<String>, numeric: bool) -> (r: Cell)
    ensures
        is_meta(r, opt_text(text), numeric),
{
    match text {
        Some(text) => Cell::Meta(MetaCell { text, known: true, numeric }),
        None => Cell::Meta(MetaCell { text: "—".to_owned(), known: false, numeric }),
    }
}

impl DownloadTableDelegate {
    pub open spec fn file_cell_is(&self, task: DownloadTaskView, cell: FileCell) -> bool {
        &&& cell.loading == task.metadata_pending
        &&& cell.name@ == if task.metadata_pending {
            self.strings.metadata_loading@
        } else {
            task.name@
        }
        &&& opt_text(cell.meta) == if self.prefs.density.two_line && !task.metadata_pending {
            let kind = kind_text(self.strings, task.kind);
            Some(
                if task.facts.source_site@.len() == 0 {
                    kind
                } else {
                    dotted(kind, task.facts.source_site@)
                },
            )
        } else {
            None
        }
    }

    /// A failed task always tells the whole reason when it is pointed at; other details are told
    /// there where a row has no second line.
    pub open spec fn status_cell_is(&self, task: DownloadTaskView, cell: StatusCell) -> bool {
        let detail = detail_text(self.strings, task);
        &&& cell.label@ == status_text(self.strings, task)
        &&& opt_text(cell.detail) == if self.prefs.density.two_line {
            detail
        } else {
            None
        }
        &&& opt_text(cell.tooltip) == if task.state == TaskState::Failed && trimmed(
            task.error_message@,
        ).len() > 0 {
            Some(task.error_message@)
        } else if self.prefs.density.two_line {
            None
        } else {
            detail
        }
    }

    pub open spec fn queue_name(&self, queue_id: Seq<char>) -> Seq<char> {
        match value_of(self.queue_names@, queue_id) {
            Some(name) => name,
            None => queue_id,
        }
    }

    /// What a column says of a task.
    pub open spec fn cell_is(&self, task: DownloadTaskView, kind: DownloadColumnKind, cell: Cell) -> bool {
        let downloading = task.state == TaskState::Downloading;
        match kind {
            DownloadColumnKind::FileName => match cell {
                Cell::File(file) => self.file_cell_is(task, file),
                _ => false,
            },
            DownloadColumnKind::Progress => cell == (Cell::Progress {
                shown: task.state != TaskState::Completed,
            }),
            DownloadColumnKind::Status => match cell {
                Cell::Status(status) => self.status_cell_is(task, status),
                _ => false,
            },
            DownloadColumnKind::Size => is_meta(
                cell,
                if task.size_bytes > 0 {
                    Some(task.size_text@)
                } else {
                    None
                },
                true,
            ),
            DownloadColumnKind::Speed => is_meta(
                cell,
                if downloading {
                    shown_speed(task)
                } else {
                    None
                },
                true,
            ),
            DownloadColumnKind::Eta => is_meta(
                cell,
                if downloading {
                    shown_eta(task)
                } else {
                    None
                },
                true,
            ),
            DownloadColumnKind::Created => is_meta(
                cell,
                if task.created_at_secs > 0 {
                    Some(task.created_text@)
                } else {
                    None
                },
                true,
            ),
            DownloadColumnKind::Protocol => is_meta(cell, Some(task.protocol_label@), false),
            DownloadColumnKind::Source => is_meta(cell, Some(task.facts.source_site@), false),
            DownloadColumnKind::Queue => is_meta(
                cell,
                Some(self.queue_name(task.queue_id@)),
                false,
            ),
        }
    }

    /// What a task's state says.
    pub fn status_label(&self, task: &DownloadTaskView) -> (r: String)
        ensures
            r@ == status_text(self.strings, *task),
    {
        if task.state != TaskState::Downloading {
            return task.facts.state_label.clone();
        }
        match (speed_shown(task), eta_shown(task)) {
            (Some(speed), Some(eta)) => with_dot(speed.as_str(), eta.as_str()),
            (Some(speed), None) => speed,
            (None, Some(eta)) => eta,
            (None, None) => self.strings.status_downloading.clone(),
        }
    }

    /// How many connections and peers work on a task.
    pub fn transfer_detail(&self, task: &DownloadTaskView) -> (r: Option<String>)
        ensures
            opt_text(r) == transfer_text(self.strings, *task),
    {
        let peers = if task.runtime_connected && task.is_bt {
            task.connected_peers
        } else {
            None
        };
        match (task.active_transfers, peers) {
            (Some(active), Some(peers)) => {
                let a = count_text(active, self.strings.active_transfers.as_str());
                let b = count_text(peers, self.strings.connected_peers.as_str());
                Some(with_dot(a.as_str(), b.as_str()))
            },
            (Some(active), None) => Some(
                count_text(active, self.strings.active_transfers.as_str()),
            ),
            (None, Some(peers)) => Some(count_text(peers, self.strings.connected_peers.as_str())),
            (None, None) => None,
        }
    }

    /// The second line of a task's state.
    pub fn status_detail(&self, task: &DownloadTaskView) -> (r: Option<String>)
        ensures
            opt_text(r) == detail_text(self.strings, *task),
    {
        match task.state {
            TaskState::Downloading => {
                let bytes = bytes_progress(task);
                match self.transfer_detail(task) {
                    Some(transfers) => Some(with_dot(bytes.as_str(), transfers.as_str())),
                    None => Some(bytes),
                }
            },
            TaskState::Paused => Some(bytes_progress(task)),
            TaskState::Failed => {
                let lines = split_parts(task.error_message.as_str(), Separator::Exactly('\n'));
                proof {
                    lemma_split_nonempty(task.error_message@, Separator::Exactly('\n'));
                    assert(texts(lines@).len() == lines@.len());
                    assert(texts(lines@)[0] == lines@[0]@);
                }
                let line = trim(lines[0].as_str());
                if line.as_str().is_empty() {
                    None
                } else {
                    Some(line)
                }
            },
            TaskState::Pending | TaskState::Completed => None,
        }
    }

    /// The label of a sort of file.
    pub fn kind_label(&self, kind: TaskKind) -> (r: String)
        ensures
            r@ == kind_text(self.strings, kind),
    {
        match kind {
            TaskKind::Video => self.strings.category_video.clone(),
            TaskKind::Audio => self.strings.category_audio.clone(),
            TaskKind::Document => self.strings.category_document.clone(),
            TaskKind::Image => self.strings.category_image.clone(),
            TaskKind::Archive | TaskKind::DiskImage => self.strings.category_archive.clone(),
            TaskKind::Application | TaskKind::Mobile => self.strings.category_program.clone(),
            TaskKind::Other => self.strings.category_other.clone(),
        }
    }

    /// The head of a column.
    pub fn label(&self, kind: DownloadColumnKind) -> (r: String)
        ensures
            r@ == column_label(self.strings, kind),
    {
        match kind {
            DownloadColumnKind::FileName => self.strings.col_file_name.clone(),
            DownloadColumnKind::Progress => self.strings.col_progress.clone(),
            DownloadColumnKind::Size => self.strings.col_size.clone(),
            DownloadColumnKind::Speed => self.strings.col_speed.clone(),
            DownloadColumnKind::Eta => self.strings.col_eta.clone(),
            DownloadColumnKind::Status => self.strings.col_status.clone(),
            DownloadColumnKind::Created => self.strings.col_created.clone(),
            DownloadColumnKind::Protocol => self.strings.col_protocol.clone(),
            DownloadColumnKind::Source => self.strings.col_source.clone(),
            DownloadColumnKind::Queue => self.strings.col_queue.clone(),
        }
    }

    fn file_cell(&self, task: &DownloadTaskView) -> (r: FileCell)
        ensures
            self.file_cell_is(*task, r),
    {
        let meta = if self.prefs.density.two_line && !task.metadata_pending {
            let kind = self.kind_label(task.kind);
            if task.facts.source_site.as_str().is_empty() {
                Some(kind)
            } else {
                Some(with_dot(kind.as_str(), task.facts.source_site.as_str()))
            }
        } else {
            None
        };
        FileCell {
            name: if task.metadata_pending {
                self.strings.metadata_loading.clone()
            } else {
                task.name.clone()
            },
            loading: task.metadata_pending,
            meta,
        }
    }

    fn status_cell(&self, task: &DownloadTaskView) -> (r: StatusCell)
        ensures
            self.status_cell_is(*task, r),
    {
        let detail = self.status_detail(task);
        let reason = trim(task.error_message.as_str());
        let failed: bool = task.state == TaskState::Failed && !reason.as_str().is_empty();
        let label = self.status_label(task);
        if self.prefs.density.two_line {
            StatusCell {
                label,
                detail,
                tooltip: if failed {
                    Some(task.error_message.clone())
                } else {
                    None
                },
            }
        } else {
            StatusCell {
                label,
                detail: None,
                tooltip: if failed {
                    Some(task.error_message.clone())
                } else {
                    detail
                },
            }
        }
    }

    /// What a column says of a task.
    pub fn cell(&self, task: &DownloadTaskView, kind: DownloadColumnKind) -> (r: Cell)
        ensures
            self.cell_is(*task, kind, r),
    {
        let downloading: bool = task.state == TaskState::Downloading;
        match kind {
            DownloadColumnKind::FileName => Cell::File(self.file_cell(task)),
            DownloadColumnKind::Progress => Cell::Progress {
                shown: task.state != TaskState::Completed,
            },
            DownloadColumnKind::Status => Cell::Status(self.status_cell(task)),
            DownloadColumnKind::Size => meta_cell(
                if task.size_bytes > 0 {
                    Some(task.size_text.clone())
                } else {
                    None
                },
                true,
            ),
            DownloadColumnKind::Speed => meta_cell(
                if downloading {
                    speed_shown(task)
                } else {
                    None
                },
                true,
            ),
            DownloadColumnKind::Eta => meta_cell(
                if downloading {
                    eta_shown(task)
                } else {
                    None
                },
                true,
            ),
            DownloadColumnKind::Created => meta_cell(
                if task.created_at_secs > 0 {
                    Some(task.created_text.clone())
                } else {
                    None
                },
                true,
            ),
            DownloadColumnKind::Protocol => meta_cell(Some(task.protocol_label.clone()), false),
            DownloadColumnKind::Source => meta_cell(Some(task.facts.source_site.clone()), false),
            DownloadColumnKind::Queue => {
                let name = match find_key(&self.queue_names, task.queue_id.as_str()) {
                    Some(i) => self.queue_names[i].1.clone(),
                    None => task.queue_id.clone(),
                };
                meta_cell(Some(name), false)
            },
        }
    }

    /// What stands in a row and a column of the table. Column zero is the selection column; the
    /// header of a group stands in column one.
    pub fn cell_at(&self, row_ix: usize, col_ix: usize, store: &TaskStore) -> (r: Cell)
        ensures
            if row_ix >= self.visible@.len() {
                r == Cell::Blank
            } else {
                match self.visible@[row_ix as int] {
                    VisibleRow::GroupHeader { .. } => r == if col_ix == 1 {
                        Cell::GroupHeader
                    } else {
                        Cell::Blank
                    },
                    VisibleRow::Task(id) => if !store.holds(id) {
                        r == Cell::Blank
                    } else if col_ix == 0 {
                        r == Cell::Selection
                    } else {
                        match column_at(self.layout.columns@, col_ix as int) {
                            Some(column) => self.cell_is(
                                store.all()[store.index_of(id)],
                                column.kind,
                                r,
                            ),
                            None => r == Cell::Blank,
                        }
                    },
                }
            },
    {
        if row_ix >= self.visible.len() {
            return Cell::Blank;
        }
        match &self.visible[row_ix] {
            VisibleRow::GroupHeader { .. } => if col_ix == 1 {
                Cell::GroupHeader
            } else {
                Cell::Blank
            },
            VisibleRow::Task(id) => match store.row(*id) {
                None => Cell::Blank,
                Some(task) => if col_ix == 0 {
                    Cell::Selection
                } else {
                    match shown_column(&self.layout.columns, col_ix) {
                        Some(column) => self.cell(task, column.kind),
                        None => Cell::Blank,
                    }
                },
            },
        }
    }

    /// The buttons that a cell shows under the pointer: those of its task, in the last column.
    pub fn actions_at(&self, row_ix: usize, col_ix: usize, store: &TaskStore) -> (r: Vec<RowAction>)
        ensures
            r@ == if row_ix < self.visible@.len() && col_ix > 0 && col_ix == shown_indexes(
                self.layout.columns@,
            ).len() {
                match self.visible@[row_ix as int] {
                    VisibleRow::Task(id) => if store.holds(id) {
                        let task = store.all()[store.index_of(id)];
                        actions_of(task.state, task.key@.0)
                    } else {
                        Seq::empty()
                    },
                    VisibleRow::GroupHeader { .. } => Seq::empty(),
                }
            } else {
                Seq::empty()
            },
    {
        if row_ix >= self.visible.len() || col_ix == 0 || col_ix != shown_count(
            &self.layout.columns,
        ) {
            return Vec::new();
        }
        match &self.visible[row_ix] {
            VisibleRow::Task(id) => match store.row(*id) {
                Some(task) => row_actions(task.state, task.key.is_local()),
                None => Vec::new(),
            },
            VisibleRow::GroupHeader { .. } => Vec::new(),
        }
    }

    /// The direction that the head of a column shows: that of the sort in force, unless it has
    /// none.
    pub fn sort_arrow(&self, kind: DownloadColumnKind) -> (r: Option<SortDir>)
        ensures
            r == arrow_of(self.prefs, kind),
    {
        match kind.sort_key() {
            Some(key) => if key == self.prefs.sort_key && key != ViewSortKey::Smart {
                Some(self.prefs.sort_dir)
            } else {
                None
            },
            None => None,
        }
    }
}

/// The direction that the head of a column shows.
pub open spec fn arrow_of(prefs: ViewPrefs, kind: DownloadColumnKind) -> Option<SortDir> {
    match kind.sorts_by() {
        Some(key) => if key == prefs.sort_key && key != ViewSortKey::Smart {
            Some(prefs.sort_dir)
        } else {
            None
        },
        None => None,
    }
}

/// How many of the first `n` local tasks are in a group, and how many of these are done.
pub open spec fn group_counts(local: Seq<DownloadTaskView>, group_id: Seq<char>, n: int) -> (
    nat,
    nat,
)
    decreases n,
{
    if n <= 0 {
        (0, 0)
    } else {
        let (done, total) = group_counts(local, group_id, n - 1);
        let task = local[n - 1];
        if task.group_id@ == group_id {
            (
                if task.state == TaskState::Completed {
                    done + 1
                } else {
                    done
                },
                total + 1,
            )
        } else {
            (done, total)
        }
    }
}

/// The group that a bucket's key names, where the bucket is one of a group of tasks.
pub open spec fn group_of_key(key: Seq<char>) -> Option<Seq<char>> {
    match stripped(key, "group:"@) {
        Some(id) => if id.len() == 0 {
            None
        } else {
            Some(id)
        },
        None => None,
    }
}

/// The group that a bucket's key names.
pub fn group_id_of(key: &str) -> (r: Option<String>)
    ensures
        opt_text(r) == group_of_key(key@),
{
    match strip_prefix(key, "group:") {
        Some(id) => if id.as_str().is_empty() {
            None
        } else {
            Some(id)
        },
        None => None,
    }
}

/// How many tasks of a group are done, of how many; nothing for other groupings.
pub fn group_progress(key: &str, store: &TaskStore) -> (r: Option<(usize, usize)>)
    ensures
        match (group_of_key(key@), r) {
            (Some(id), Some((done, total))) => (done as nat, total as nat) == group_counts(
                store.local@,
                id,
                store.local@.len() as int,
            ),
            (None, None) => true,
            _ => false,
        },
{
    match group_id_of(key) {
        None => None,
        Some(id) => {
            let mut done: usize = 0;
            let mut total: usize = 0;
            let mut i: usize = 0;
            while i < store.local.len()
                invariant
                    i <= store.local@.len(),
                    done <= total <= i,
                    (done as nat, total as nat) == group_counts(store.local@, id@, i as int),
                decreases store.local@.len() - i,
            {
                let task = &store.local[i];
                if same(task.group_id.as_str(), id.as_str()) {
                    if task.state == TaskState::Completed {
                        done += 1;
                    }
                    total += 1;
                }
                i += 1;
            }
            Some((done, total))
        },
    }
}

/// The entries of the context menu of a group.
#[derive(Clone, Copy, Debug, PartialEq, Eq, Structural)]
pub enum GroupMenuEntry {
    PauseAll,
    ResumeAll,
    RetryFailed,
    OpenFolder,
    CopySourceLink,
    Separator,
    Delete,
    DeleteWithFiles,
    OpenInWindow,
}

pub open spec fn has_failed_member(local: Seq<DownloadTaskView>, group_id: Seq<char>) -> bool {
    exists|i: int|
        0 <= i < local.len() && (#[trigger] local[i]).group_id@ == group_id && local[i].state
            == TaskState::Failed
}

/// The context menu of a group: retrying is offered where one of its tasks failed. Tasks that
/// are in no group have none.
pub open spec fn group_menu_of(local: Seq<DownloadTaskView>, group_id: Seq<char>) -> Seq<
    GroupMenuEntry,
> {
    if group_id.len() == 0 {
        Seq::empty()
    } else {
        let retry = if has_failed_member(local, group_id) {
            seq![GroupMenuEntry::RetryFailed]
        } else {
            Seq::empty()
        };
        seq![GroupMenuEntry::PauseAll, GroupMenuEntry::ResumeAll] + retry + seq![
            GroupMenuEntry::OpenFolder,
            GroupMenuEntry::CopySourceLink,
            GroupMenuEntry::Separator,
            GroupMenuEntry::Delete,
            GroupMenuEntry::DeleteWithFiles,
            GroupMenuEntry::OpenInWindow,
        ]
    }
}

/// The context menu of a group.
pub fn group_context_menu(group_id: &str, store: &TaskStore) -> (r: Vec<GroupMenuEntry>)
    ensures
        r@ == group_menu_of(store.local@, group_id@),
{
    let mut r: Vec<GroupMenuEntry> = Vec::new();
    if group_id.is_empty() {
        return r;
    }
    let mut failed: bool = false;
    let mut i: usize = 0;
    while i < store.local.len()
        invariant
            i <= store.local@.len(),
            failed == (exists|k: int|
                0 <= k < i && (#[trigger] store.local@[k]).group_id@ == group_id@
                    && store.local@[k].state == TaskState::Failed),
        decreases store.local@.len() - i,
    {
        let task = &store.local[i];
        if task.state == TaskState::Failed && same(task.group_id.as_str(), group_id) {
            assert(store.local@[i as int].group_id@ == group_id@);
            failed = true;
        }
        i += 1;
    }
    r.push(GroupMenuEntry::PauseAll);
    r.push(GroupMenuEntry::ResumeAll);
    if failed {
        r.push(GroupMenuEntry::RetryFailed);
    }
    r.push(GroupMenuEntry::OpenFolder);
    r.push(GroupMenuEntry::CopySourceLink);
    r.push(GroupMenuEntry::Separator);
    r.push(GroupMenuEntry::Delete);
    r.push(GroupMenuEntry::DeleteWithFiles);
    r.push(GroupMenuEntry::OpenInWindow);
    assert(r@ =~= group_menu_of(store.local@, group_id@));
    r
}

/// What the context menu of a row is about.
#[derive(Debug, PartialEq, Eq)]
pub enum MenuTarget {
    Nothing,
    /// The selected tasks.
    Selection,
    /// A group: of tasks that belong together, by its identifier; another one by its key.
    Group(String),
}

/// What the context menu of a group's header is about: a group of tasks by its identifier, any
/// other group by its key. Tasks that are in no group have no menu.
pub open spec fn menu_id_of_key(key: Seq<char>) -> Option<Seq<char>> {
    let id = match stripped(key, "group:"@) {
        Some(id) => id,
        None => key,
    };
    if id.len() == 0 {
        None
    } else {
        Some(id)
    }
}

impl DownloadTableDelegate {
    /// What the context menu of a row is about: the selection on a task, the group on the header
    /// of a group, and nothing elsewhere.
    pub fn menu_target(&self, row_ix: usize) -> (r: MenuTarget)
        ensures
            if row_ix >= self.visible@.len() {
                r == MenuTarget::Nothing
            } else {
                match self.visible@[row_ix as int] {
                    VisibleRow::Task(_) => r == MenuTarget::Selection,
                    VisibleRow::GroupHeader { key, .. } => match menu_id_of_key(key@) {
                        Some(id) => match r {
                            MenuTarget::Group(group_id) => group_id@ == id,
                            _ => false,
                        },
                        None => r == MenuTarget::Nothing,
                    },
                }
            },
    {
        if row_ix >= self.visible.len() {
            return MenuTarget::Nothing;
        }
        match &self.visible[row_ix] {
            VisibleRow::Task(_) => MenuTarget::Selection,
            VisibleRow::GroupHeader { key, .. } => {
                let id = match strip_prefix(key.as_str(), "group:") {
                    Some(id) => id,
                    None => key.clone(),
                };
                if id.as_str().is_empty() {
                    MenuTarget::Nothing
                } else {
                    MenuTarget::Group(id)
                }
            },
        }
    }
}

/// The icon of a button of a row.
pub fn action_icon(action: RowAction) -> (r: FluxIcon)
    ensures
        r == match action {
            RowAction::Pause => FluxIcon::Pause,
            RowAction::Resume => FluxIcon::Play,
            RowAction::Retry => FluxIcon::RotateCw,
            RowAction::Open => FluxIcon::ExternalLink,
            RowAction::Reveal => FluxIcon::FolderOpen,
        },
{
    match action {
        RowAction::Pause => FluxIcon::Pause,
        RowAction::Resume => FluxIcon::Play,
        RowAction::Retry => FluxIcon::RotateCw,
        RowAction::Open => FluxIcon::ExternalLink,
        RowAction::Reveal => FluxIcon::FolderOpen,
    }
}

/// How many connections work on a task, and how many others it is connected to where it is of that
/// sort and is running, each with its unit.
pub proof fn law_connections_are_counted(
    d: &DownloadTableDelegate,
    task: &DownloadTaskView,
    active: u64,
    peers: u64,
    detail: Option<String>,
)
    requires
        call_ensures(DownloadTableDelegate::transfer_detail, (d, task), detail),
    ensures
        task.active_transfers is None && !task.is_bt ==> detail is None,
        task.active_transfers == Some(active) && (!task.is_bt || !task.runtime_connected) ==> opt_text(
            detail,
        ) == Some(decimal(active as nat) + " "@ + d.strings.active_transfers@),
        task.active_transfers is None && task.is_bt && task.runtime_connected
            && task.connected_peers == Some(peers) ==> opt_text(detail) == Some(
            decimal(peers as nat) + " "@ + d.strings.connected_peers@,
        ),
        task.active_transfers == Some(active) && task.is_bt && task.runtime_connected
            && task.connected_peers == Some(peers) ==> opt_text(detail) == Some(
            decimal(active as nat) + " "@ + d.strings.active_transfers@ + " · "@ + (decimal(
                peers as nat,
            ) + " "@ + d.strings.connected_peers@),
        ),
{
}

/// A cell of the table is that of the task in its row and the column at its place; the first one
/// selects, and headers of groups fill one.
pub proof fn law_cells_meet_rows_and_columns(
    d: &DownloadTableDelegate,
    store: &TaskStore,
    row_ix: usize,
    col_ix: usize,
    id: RowId,
    column: DownloadColumn,
    cell: Cell,
)
    requires
        row_ix < d.visible@.len(),
        d.visible@[row_ix as int] == VisibleRow::Task(id),
        store.holds(id),
        call_ensures(DownloadTableDelegate::cell_at, (d, row_ix, col_ix, store), cell),
    ensures
        col_ix == 0 ==> cell is Selection,
        col_ix > 0 && column_at(d.layout.columns@, col_ix as int) == Some(column) && column.kind
            == DownloadColumnKind::Status ==> match cell {
            Cell::Status(status) => status.label@ == status_text(
                d.strings,
                store.all()[store.index_of(id)],
            ),
            _ => false,
        },
        col_ix > 0 && column_at(d.layout.columns@, col_ix as int) == Some(column) && column.kind
            == DownloadColumnKind::Progress ==> cell is Progress,
        col_ix > 0 && column_at(d.layout.columns@, col_ix as int) is None ==> cell is Blank,
{
}

/// Beyond the rows there is nothing, and the row of a group's header shows that header once.
pub proof fn law_header_rows_show_the_header(
    d: &DownloadTableDelegate,
    store: &TaskStore,
    row_ix: usize,
    first: Cell,
    second: Cell,
    third: Cell,
)
    requires
        call_ensures(DownloadTableDelegate::cell_at, (d, row_ix, 0usize, store), first),
        call_ensures(DownloadTableDelegate::cell_at, (d, row_ix, 1usize, store), second),
        call_ensures(DownloadTableDelegate::cell_at, (d, row_ix, 2usize, store), third),
    ensures
        row_ix >= d.visible@.len() ==> first is Blank && second is Blank && third is Blank,
        row_ix < d.visible@.len() && d.visible@[row_ix as int] is GroupHeader ==> first is Blank
            && second is GroupHeader && third is Blank,
{
}

/// The buttons of a row stand in its last column and are those of its task; headers have none.
pub proof fn law_buttons_stand_in_the_last_column(
    d: &DownloadTableDelegate,
    store: &TaskStore,
    row_ix: usize,
    col_ix: usize,
    id: RowId,
    actions: Vec<RowAction>,
)
    requires
        call_ensures(DownloadTableDelegate::actions_at, (d, row_ix, col_ix, store), actions),
        row_ix < d.visible@.len(),
        d.visible@[row_ix as int] == VisibleRow::Task(id),
        store.holds(id),
        shown_indexes(d.layout.columns@).len() > 0,
    ensures
        col_ix != shown_indexes(d.layout.columns@).len() ==> actions@.len() == 0,
        col_ix == shown_indexes(d.layout.columns@).len() ==> {
            let task = store.all()[store.index_of(id)];
            &&& task.state == TaskState::Downloading ==> actions@.contains(RowAction::Pause)
            &&& task.state == TaskState::Paused ==> actions@.contains(RowAction::Resume)
            &&& task.state == TaskState::Failed ==> actions@.contains(RowAction::Retry)
            &&& task.key@.0 ==> actions@.contains(RowAction::Reveal)
            &&& !task.key@.0 ==> !actions@.contains(RowAction::Reveal)
        },
{
    let a = actions@;
    if a.len() > 0 {
        assert(a.contains(a[0]));
    }
    if a.len() > 1 {
        assert(a.contains(a[1]));
    }
}

/// The menu over a row is about the selection where the row is a task, and about the group where it is
/// a group's header: by its identifier where it is a group of tasks, else by its key.
pub proof fn law_menu_is_about_its_row(
    d: &DownloadTableDelegate,
    row_ix: usize,
    key: String,
    label: String,
    count: usize,
    collapsed: bool,
    id: Seq<char>,
    target: MenuTarget,
)
    requires
        call_ensures(DownloadTableDelegate::menu_target, (d, row_ix), target),
    ensures
        row_ix >= d.visible@.len() ==> target is Nothing,
        row_ix < d.visible@.len() && d.visible@[row_ix as int] is Task ==> target is Selection,
        row_ix < d.visible@.len() && d.visible@[row_ix as int] == (VisibleRow::GroupHeader {
            key,
            label,
            count,
            collapsed,
        }) && key@ == "group:"@ + id && id.len() > 0 ==> match target {
            MenuTarget::Group(group) => group@ == id,
            _ => false,
        },
        row_ix < d.visible@.len() && d.visible@[row_ix as int] == (VisibleRow::GroupHeader {
            key,
            label,
            count,
            collapsed,
        }) && key@ == "group:"@ ==> target is Nothing,
{
    law_prefix_is_what_it_begins_with(key@, "group:"@, id);
    law_prefix_is_what_it_begins_with(key@, "group:"@, Seq::empty());
    assert("group:"@ + Seq::<char>::empty() =~= "group:"@);
}

/// Each button of a row has its own icon.
pub proof fn law_buttons_have_their_icons(action: RowAction, icon: FluxIcon)
    requires
        call_ensures(action_icon, (action,), icon),
    ensures
        icon == FluxIcon::Pause <==> action == RowAction::Pause,
        icon == FluxIcon::Play <==> action == RowAction::Resume,
        icon == FluxIcon::RotateCw <==> action == RowAction::Retry,
        icon == FluxIcon::ExternalLink <==> action == RowAction::Open,
        icon == FluxIcon::FolderOpen <==> action == RowAction::Reveal,
{
}

/// A sort of file is called by its category; disk images count as archives and programs for phones
/// as programs.
pub proof fn law_sorts_of_file_are_called_by_category(
    d: &DownloadTableDelegate,
    kind: TaskKind,
    label: String,
)
    requires
        call_ensures(DownloadTableDelegate::kind_label, (d, kind), label),
    ensures
        kind == TaskKind::Video ==> label@ == d.strings.category_video@,
        kind == TaskKind::Audio ==> label@ == d.strings.category_audio@,
        kind == TaskKind::Document ==> label@ == d.strings.category_document@,
        kind == TaskKind::Image ==> label@ == d.strings.category_image@,
        kind == TaskKind::Archive || kind == TaskKind::DiskImage ==> label@
            == d.strings.category_archive@,
        kind == TaskKind::Application || kind == TaskKind::Mobile ==> label@
            == d.strings.category_program@,
        kind == TaskKind::Other ==> label@ == d.strings.category_other@,
{
}

/// The second line of a failed task is the first line of its message.
pub proof fn law_failed_task_shows_the_first_line(
    d: &DownloadTableDelegate,
    task: &DownloadTaskView,
    line: Seq<char>,
    rest: Seq<char>,
    detail: Option<String>,
)
    requires
        task.state == TaskState::Failed,
        !line.contains('\n'),
        task.error_message@ == line || task.error_message@ == line + seq!['\n'] + rest,
        call_ensures(DownloadTableDelegate::status_detail, (d, task), detail),
    ensures
        trimmed(line).len() > 0 ==> opt_text(detail) == Some(trimmed(line)),
        trimmed(line).len() == 0 ==> detail is None,
{
    lemma_first_part(line, rest, 0);
    lemma_first_part(line, rest, rest.len() as int);
    assert(rest.take(rest.len() as int) =~= rest);
    lemma_unsplit_line(line);
}

proof fn lemma_unsplit_line(line: Seq<char>)
    requires
        !line.contains('\n'),
    ensures
        split(line, Separator::Exactly('\n')) == seq![line],
    decreases line.len(),
{
    let sep = Separator::Exactly('\n');
    if line.len() > 0 {
        let start = line.drop_last();
        assert forall|i: int| 0 <= i < start.len() implies start[i] != '\n' by {
            assert(line.contains(line[i]));
        }
        lemma_unsplit_line(start);
        assert(line.contains(line.last()));
        assert(start.push(line.last()) =~= line);
        assert(split(line, sep) =~= seq![line]);
    } else {
        assert(line =~= Seq::empty());
    }
}

proof fn lemma_first_part(line: Seq<char>, rest: Seq<char>, n: int)
    requires
        !line.contains('\n'),
        0 <= n <= rest.len(),
    ensures
        split(line + seq!['\n'] + rest.take(n), Separator::Exactly('\n')).len() >= 2,
        split(line + seq!['\n'] + rest.take(n), Separator::Exactly('\n'))[0] == line,
    decreases n,
{
    let sep = Separator::Exactly('\n');
    let s = line + seq!['\n'] + rest.take(n);
    if n == 0 {
        assert(s =~= line.push('\n'));
        assert(s.drop_last() =~= line);
        lemma_unsplit_line(line);
    } else {
        lemma_first_part(line, rest, n - 1);
        assert(s.drop_last() =~= line + seq!['\n'] + rest.take(n - 1));
        let before = split(s.drop_last(), sep);
        if !sep.splits(s.last()) {
            assert(split(s, sep)[0] == before[0]);
        }
    }
}

} // verus!
