//! The heads of the task table's columns, the headers of its groups, and the cell that selects a
//! row.

use vstd::prelude::*;

use crate::columns::{
    column_at, shown_column, DownloadColumn, DownloadColumnKind, SortDir, TableLayout, ViewSortKey,
    FILE_NAME_MAX_WIDTH, MAX_COLUMN_WIDTH, SELECTION_COLUMN_WIDTH,
};
use crate::controls::{icon_of_kind, kind_icon, CheckState, FluxIcon};
use crate::table_cells::{arrow_of, column_label, group_counts, group_of_key, group_progress};
use crate::table_selection::header_state;
use crate::task_table::{keys_shown, DownloadTableDelegate, VisibleRow};
use crate::tasks::{DownloadTaskView, TaskStore};
use crate::text::{decimal, number, opt_text};

verus! {

/// The head of a column.
#[derive(Debug, PartialEq, Eq)]
pub enum HeaderCell {
    /// The check box that selects all tasks; while none is selected it shows under the pointer
    /// alone.
    SelectAll { state: CheckState, only_on_hover: bool },
    Title {
        label: String,
        arrow: Option<FluxIcon>,
        /// Whether the head stands at the right side, with the arrow before the label, as the
        /// numbers below it do.
        right_aligned: bool,
        /// Whether a click sorts by the column.
        sorts: bool,
    },
    Blank,
}

pub open spec fn arrow_icon(dir: Option<SortDir>) -> Option<FluxIcon> {
    match dir {
        Some(SortDir::Asc) => Some(FluxIcon::ArrowUp),
        Some(SortDir::Desc) => Some(FluxIcon::ArrowDown),
        None => None,
    }
}

/// How a column lies in the table.
#[derive(Debug, PartialEq, Eq)]
pub struct ColumnFrame {
    pub key: &'static str,
    pub label: String,
    pub width: u32,
    pub min_width: u32,
    pub max_width: u32,
    /// Whether it can be dragged to another width, and to another place.
    pub adjustable: bool,
}

/// The header of a group.
#[derive(Debug, PartialEq, Eq)]
pub struct GroupHeaderCell {
    pub icon: FluxIcon,
    pub label: String,
    pub count: String,
    /// How many of a group's tasks are done, of how many.
    pub progress: Option<String>,
}

/// What stands in a row's selection cell while no task is selected and no pointer is over the row.
#[derive(Clone, Copy, Debug, PartialEq, Eq, Structural)]
pub enum SelectionGlyph {
    /// The task's data are still being fetched.
    Spinner,
    Kind(FluxIcon),
}

/// The cell that selects a row.
#[derive(Clone, Copy, Debug, PartialEq, Eq, Structural)]
pub struct SelectionCell {
    pub mark: CheckState,
    /// What stands in place of the check box until the pointer is over the row; nothing where
    /// the check box shows all the time.
    pub glyph: Option<SelectionGlyph>,
}

impl DownloadTableDelegate {
    /// Whether this is the head of a column of data.
    pub open spec fn title_is(&self, kind: DownloadColumnKind, head: HeaderCell) -> bool {
        match head {
            HeaderCell::Title { label, arrow, right_aligned, sorts } => {
                &&& label@ == column_label(self.strings, kind)
                &&& arrow == arrow_icon(arrow_of(self.prefs, kind))
                &&& right_aligned == kind.numeric()
                &&& sorts == (kind.sorts_by() is Some)
            },
            _ => false,
        }
    }

    /// The head of the column at an index; index zero is the selection column.
    pub fn header_cell(&self, col_ix: usize, store: &TaskStore) -> (r: HeaderCell)
        ensures
            if col_ix == 0 {
                let state = header_state(keys_shown(store, self.visible@), self.selected_tasks@);
                r == (HeaderCell::SelectAll {
                    state,
                    only_on_hover: state == CheckState::Unchecked,
                })
            } else {
                match column_at(self.layout.columns@, col_ix as int) {
                    Some(column) => self.title_is(column.kind, r),
                    None => r == HeaderCell::Blank,
                }
            },
    {
        if col_ix == 0 {
            let state = self.header_check_state(store);
            return HeaderCell::SelectAll {
                state,
                only_on_hover: matches!(state, CheckState::Unchecked),
            };
        }
        match shown_column(&self.layout.columns, col_ix) {
            None => HeaderCell::Blank,
            Some(column) => HeaderCell::Title {
                label: self.label(column.kind),
                arrow: match self.sort_arrow(column.kind) {
                    Some(SortDir::Asc) => Some(FluxIcon::ArrowUp),
                    Some(SortDir::Desc) => Some(FluxIcon::ArrowDown),
                    None => None,
                },
                right_aligned: column.kind.is_numeric(),
                sorts: column.kind.sort_key().is_some(),
            },
        }
    }

    /// Whether this is how a column of data lies in the table.
    pub open spec fn frame_is(&self, column: DownloadColumn, frame: ColumnFrame) -> bool {
        let for_names = column.kind == DownloadColumnKind::FileName;
        &&& frame.key@ == column.kind.key_of()
        &&& frame.label@ == column_label(self.strings, column.kind)
        &&& frame.min_width == column.kind.least_width()
        &&& frame.adjustable
        &&& frame.width == if for_names {
            self.layout.wanted_file_width(self.layout.viewport_width)
        } else {
            column.width
        }
        &&& frame.max_width == if for_names {
            FILE_NAME_MAX_WIDTH
        } else {
            MAX_COLUMN_WIDTH
        }
    }

    /// How the column at an index lies in the table; nothing where there is none. The selection
    /// column stays as it is. The column of file names takes what the others leave, until it is
    /// dragged, and that width counts as applied.
    pub fn column(&mut self, col_ix: usize) -> (r: Option<ColumnFrame>)
        ensures
            match r {
                None => col_ix != 0 && column_at(old(self).layout.columns@, col_ix as int) is None,
                Some(frame) => if col_ix == 0 {
                    &&& frame.key@ == "selection"@
                    &&& frame.label@.len() == 0
                    &&& frame.width == SELECTION_COLUMN_WIDTH
                    &&& frame.min_width == SELECTION_COLUMN_WIDTH
                    &&& frame.max_width == SELECTION_COLUMN_WIDTH
                    &&& !frame.adjustable
                } else {
                    match column_at(old(self).layout.columns@, col_ix as int) {
                        Some(column) => old(self).frame_is(column, frame),
                        None => false,
                    }
                },
            },
            *final(self) == match column_at(old(self).layout.columns@, col_ix as int) {
                Some(column) => if column.kind == DownloadColumnKind::FileName {
                    DownloadTableDelegate {
                        layout: TableLayout {
                            applied_file_width: old(self).layout.wanted_file_width(
                                old(self).layout.viewport_width,
                            ),
                            ..old(self).layout
                        },
                        ..*old(self)
                    }
                } else {
                    *old(self)
                },
                None => *old(self),
            },
    {
        if col_ix == 0 {
            return Some(
                ColumnFrame {
                    key: "selection",
                    label: String::new(),
                    width: SELECTION_COLUMN_WIDTH,
                    min_width: SELECTION_COLUMN_WIDTH,
                    max_width: SELECTION_COLUMN_WIDTH,
                    adjustable: false,
                },
            );
        }
        match shown_column(&self.layout.columns, col_ix) {
            None => None,
            Some(column) => {
                let label = self.label(column.kind);
                let (width, max_width) = if column.kind == DownloadColumnKind::FileName {
                    (self.layout.apply_file_name_width(), FILE_NAME_MAX_WIDTH)
                } else {
                    (column.width, MAX_COLUMN_WIDTH)
                };
                Some(
                    ColumnFrame {
                        key: column.kind.key(),
                        label,
                        width,
                        min_width: column.kind.min_width(),
                        max_width,
                        adjustable: true,
                    },
                )
            },
        }
    }

    /// The height of a row, which headers and tasks share.
    pub fn row_height(&self) -> (r: u32)
        ensures
            r == self.prefs.density.row_height,
    {
        self.prefs.density.row_height
    }

    /// Whether this is the header of a group.
    pub open spec fn header_shows(
        store: &TaskStore,
        key: Seq<char>,
        label: Seq<char>,
        count: nat,
        collapsed: bool,
        head: GroupHeaderCell,
    ) -> bool {
        &&& head.icon == if collapsed {
            FluxIcon::ChevronRight
        } else {
            FluxIcon::ChevronDown
        }
        &&& head.label@ == label
        &&& head.count@ == decimal(count)
        &&& opt_text(head.progress) == match group_of_key(key) {
            Some(id) => {
                let (done, total) = group_counts(store.local@, id, store.local@.len() as int);
                Some(decimal(done) + "/"@ + decimal(total))
            },
            None => None,
        }
    }

    /// The header of the group in a row, with how far the group is where it is one of tasks that
    /// belong together.
    pub fn group_header(&self, row_ix: usize, store: &TaskStore) -> (r: Option<GroupHeaderCell>)
        ensures
            if row_ix >= self.visible@.len() {
                r is None
            } else {
                match self.visible@[row_ix as int] {
                    VisibleRow::Task(_) => r is None,
                    VisibleRow::GroupHeader { key, label, count, collapsed } => r is Some
                        && DownloadTableDelegate::header_shows(
                        store,
                        key@,
                        label@,
                        count as nat,
                        collapsed,
                        r->0,
                    ),
                }
            },
    {
        if row_ix >= self.visible.len() {
            return None;
        }
        match &self.visible[row_ix] {
            VisibleRow::Task(_) => None,
            VisibleRow::GroupHeader { key, label, count, collapsed } => {
                let progress = match group_progress(key.as_str(), store) {
                    Some((done, total)) => {
                        let mut text = number(done as u64);
                        text.append("/");
                        text.append(number(total as u64).as_str());
                        Some(text)
                    },
                    None => None,
                };
                Some(
                    GroupHeaderCell {
                        icon: if *collapsed {
                            FluxIcon::ChevronRight
                        } else {
                            FluxIcon::ChevronDown
                        },
                        label: label.clone(),
                        count: number(*count as u64),
                        progress,
                    },
                )
            },
        }
    }

    /// The cell that selects a task's row: as soon as a task is selected, every check box shows.
    pub fn selection_cell(&self, task: &DownloadTaskView) -> (r: SelectionCell)
        ensures
            r.mark == if self.selected_tasks@.contains(task.key@) {
                CheckState::Checked
            } else {
                CheckState::Unchecked
            },
            r.glyph == if self.selected_tasks.keys@.len() > 0 {
                None
            } else if task.metadata_pending {
                Some(SelectionGlyph::Spinner)
            } else {
                Some(SelectionGlyph::Kind(icon_of_kind(task.kind)))
            },
    {
        let mark = if self.selected_tasks.contains(&task.key) {
            CheckState::Checked
        } else {
            CheckState::Unchecked
        };
        let glyph = if !self.selected_tasks.is_empty() {
            None
        } else if task.metadata_pending {
            Some(SelectionGlyph::Spinner)
        } else {
            Some(SelectionGlyph::Kind(kind_icon(task.kind)))
        };
        SelectionCell { mark, glyph }
    }
}

/// The head of a column names it, and shows an arrow exactly where the table is sorted by it: upwards
/// for rising, downwards for falling order.
pub proof fn law_head_shows_the_order(
    d: &DownloadTableDelegate,
    store: &TaskStore,
    col_ix: usize,
    column: DownloadColumn,
    head: HeaderCell,
)
    requires
        col_ix > 0,
        column_at(d.layout.columns@, col_ix as int) == Some(column),
        call_ensures(DownloadTableDelegate::header_cell, (d, col_ix, store), head),
    ensures
        match head {
            HeaderCell::Title { label, arrow, right_aligned, sorts } => {
                &&& column.kind == DownloadColumnKind::FileName ==> label@
                    == d.strings.col_file_name@ && sorts && !right_aligned
                &&& column.kind == DownloadColumnKind::Size ==> label@ == d.strings.col_size@ && sorts
                    && right_aligned
                &&& column.kind == DownloadColumnKind::Progress ==> label@ == d.strings.col_progress@
                    && sorts && !right_aligned
                &&& column.kind == DownloadColumnKind::Status ==> label@ == d.strings.col_status@
                    && sorts && !right_aligned
                &&& column.kind == DownloadColumnKind::Created ==> label@ == d.strings.col_created@
                    && sorts && right_aligned
                &&& column.kind == DownloadColumnKind::Speed ==> label@ == d.strings.col_speed@
                    && sorts && right_aligned
                &&& column.kind == DownloadColumnKind::Eta ==> label@ == d.strings.col_eta@ && !sorts
                    && right_aligned
                &&& column.kind == DownloadColumnKind::Protocol ==> label@ == d.strings.col_protocol@
                    && !sorts
                &&& column.kind == DownloadColumnKind::Source ==> label@ == d.strings.col_source@
                    && !sorts
                &&& column.kind == DownloadColumnKind::Queue ==> label@ == d.strings.col_queue@
                    && !sorts
                &&& arrow is Some <==> {
                    ||| column.kind == DownloadColumnKind::FileName && d.prefs.sort_key
                        == ViewSortKey::Name
                    ||| column.kind == DownloadColumnKind::Size && d.prefs.sort_key
                        == ViewSortKey::Size
                    ||| column.kind == DownloadColumnKind::Progress && d.prefs.sort_key
                        == ViewSortKey::Progress
                    ||| column.kind == DownloadColumnKind::Created && d.prefs.sort_key
                        == ViewSortKey::Created
                    ||| column.kind == DownloadColumnKind::Speed && d.prefs.sort_key
                        == ViewSortKey::Speed
                }
                &&& arrow == Some(FluxIcon::ArrowUp) ==> d.prefs.sort_dir == SortDir::Asc
                &&& arrow == Some(FluxIcon::ArrowDown) ==> d.prefs.sort_dir == SortDir::Desc
                &&& arrow is Some ==> arrow == Some(FluxIcon::ArrowUp) || arrow == Some(
                    FluxIcon::ArrowDown,
                )
            },
            _ => false,
        },
{
}

/// The first head selects everything: it says whether all, some or none of the shown tasks are
/// selected, and hides while none is.
pub proof fn law_first_head_selects_everything(
    d: &DownloadTableDelegate,
    store: &TaskStore,
    head: HeaderCell,
    i: int,
)
    requires
        call_ensures(DownloadTableDelegate::header_cell, (d, 0usize, store), head),
        0 <= i < keys_shown(store, d.visible@).len(),
    ensures
        match head {
            HeaderCell::SelectAll { state, only_on_hover } => {
                &&& state == CheckState::Checked ==> d.selected_tasks@.contains(
                    keys_shown(store, d.visible@)[i],
                )
                &&& state == CheckState::Unchecked ==> !d.selected_tasks@.contains(
                    keys_shown(store, d.visible@)[i],
                )
                &&& only_on_hover <==> state == CheckState::Unchecked
            },
            _ => false,
        },
{
}

/// The header of a group points down while the group is open and aside while it is folded, and shows
/// the group's name and how many tasks it holds.
pub proof fn law_group_header_says_what_it_holds(
    d: &DownloadTableDelegate,
    store: &TaskStore,
    row_ix: usize,
    key: String,
    label: String,
    count: usize,
    collapsed: bool,
    head: Option<GroupHeaderCell>,
)
    requires
        row_ix < d.visible@.len(),
        d.visible@[row_ix as int] == (VisibleRow::GroupHeader { key, label, count, collapsed }),
        call_ensures(DownloadTableDelegate::group_header, (d, row_ix, store), head),
    ensures
        head is Some,
        (head->0).icon == FluxIcon::ChevronRight <==> collapsed,
        (head->0).icon == FluxIcon::ChevronDown <==> !collapsed,
        (head->0).label@ == label@,
        (head->0).count@ == decimal(count as nat),
        (head->0).progress is Some <==> group_of_key(key@) is Some,
{
}

/// The cell in front of a task is ticked exactly where the task is selected; while nothing is, it
/// shows the sort of file, or that the file is being asked about.
pub proof fn law_cell_is_ticked_where_selected(
    d: &DownloadTableDelegate,
    task: &DownloadTaskView,
    cell: SelectionCell,
)
    requires
        call_ensures(DownloadTableDelegate::selection_cell, (d, task), cell),
    ensures
        cell.mark == CheckState::Checked <==> d.selected_tasks@.contains(task.key@),
        cell.mark == CheckState::Unchecked <==> !d.selected_tasks@.contains(task.key@),
        d.selected_tasks.keys@.len() > 0 ==> cell.glyph is None,
        d.selected_tasks.keys@.len() == 0 && task.metadata_pending ==> cell.glyph == Some(
            SelectionGlyph::Spinner,
        ),
        d.selected_tasks.keys@.len() == 0 && !task.metadata_pending ==> cell.glyph == Some(
            SelectionGlyph::Kind(icon_of_kind(task.kind)),
        ),
{
}

/// A column is given its own width, the column of file names what the layout leaves for it; none may
/// become narrower than its least width.
pub proof fn law_frames_have_their_widths(
    d: &mut DownloadTableDelegate,
    col_ix: usize,
    column: DownloadColumn,
    frame: Option<ColumnFrame>,
)
    requires
        col_ix > 0,
        column_at(old(d).layout.columns@, col_ix as int) == Some(column),
        call_ensures(DownloadTableDelegate::column, (d, col_ix), frame),
    ensures
        frame is Some,
        (frame->0).key@ == column.kind.key_of(),
        (frame->0).min_width == column.kind.least_width(),
        column.kind != DownloadColumnKind::FileName ==> (frame->0).width == column.width && (
        frame->0).max_width == 480_000 && *final(d) == *old(d),
        column.kind == DownloadColumnKind::FileName ==> (frame->0).max_width == 1_600_000 && final(
            d).layout.applied_file_width == (frame->0).width,
        (frame->0).adjustable,
{
}

} // verus!
