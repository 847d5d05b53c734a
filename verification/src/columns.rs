//! The columns of the task table: which there are, in what order they stand, which of them are
//! shown, and how wide they are.
//!
//! Widths are whole thousandths of a logical pixel.

use vstd::prelude::*;

use crate::text::same;

verus! {

/// The width of the selection column.
pub const SELECTION_COLUMN_WIDTH: u32 = 36_000;

/// How wide a column can be dragged.
pub const MAX_COLUMN_WIDTH: u32 = 480_000;

/// How wide the column of file names can be dragged.
pub const FILE_NAME_MAX_WIDTH: u32 = 1_600_000;

/// The blank at the table's right side.
pub const TABLE_TRAILING_GUTTER: u32 = 8_000;

/// Two widths that differ by less count as the same.
pub const WIDTH_TOLERANCE: u32 = 500;

/// The left and right padding of a cell.
pub const CELL_PADDING_X: u32 = 8_000;

/// The room of the percentage beside a progress bar.
pub const PROGRESS_LABEL_WIDTH: u32 = 32_000;

/// The gap between a progress bar and its percentage.
pub const PROGRESS_GAP: u32 = 8_000;

/// What the tasks are sorted by.
#[derive(Clone, Copy, Debug, PartialEq, Eq, Structural)]
pub enum ViewSortKey {
    /// By state, without a direction.
    Smart,
    Name,
    Progress,
    Size,
    Speed,
    Created,
}

/// The direction of a sort.
#[derive(Clone, Copy, Debug, PartialEq, Eq, Structural)]
pub enum SortDir {
    Asc,
    Desc,
}

/// The columns that hold data.
#[derive(Clone, Copy, Debug, PartialEq, Eq, Structural)]
pub enum DownloadColumnKind {
    FileName,
    Progress,
    Size,
    Speed,
    Eta,
    Status,
    Created,
    Protocol,
    Source,
    Queue,
}

/// The columns in the order in which they stand by default.
pub open spec fn default_order() -> Seq<DownloadColumnKind> {
    seq![
        DownloadColumnKind::FileName,
        DownloadColumnKind::Size,
        DownloadColumnKind::Progress,
        DownloadColumnKind::Status,
        DownloadColumnKind::Created,
        DownloadColumnKind::Speed,
        DownloadColumnKind::Eta,
        DownloadColumnKind::Protocol,
        DownloadColumnKind::Source,
        DownloadColumnKind::Queue,
    ]
}

/// The columns in the order in which they stand by default.
pub fn all_kinds() -> (r: [DownloadColumnKind; 10])
    ensures
        r@ == default_order(),
{
    let r = [
        DownloadColumnKind::FileName,
        DownloadColumnKind::Size,
        DownloadColumnKind::Progress,
        DownloadColumnKind::Status,
        DownloadColumnKind::Created,
        DownloadColumnKind::Speed,
        DownloadColumnKind::Eta,
        DownloadColumnKind::Protocol,
        DownloadColumnKind::Source,
        DownloadColumnKind::Queue,
    ];
    assert(r@ =~= default_order());
    r
}

impl DownloadColumnKind {
    pub open spec fn key_of(self) -> Seq<char> {
        match self {
            DownloadColumnKind::FileName => "file_name"@,
            DownloadColumnKind::Progress => "progress"@,
            DownloadColumnKind::Size => "size"@,
            DownloadColumnKind::Speed => "speed"@,
            DownloadColumnKind::Eta => "eta"@,
            DownloadColumnKind::Status => "status"@,
            DownloadColumnKind::Created => "created"@,
            DownloadColumnKind::Protocol => "protocol"@,
            DownloadColumnKind::Source => "source"@,
            DownloadColumnKind::Queue => "queue"@,
        }
    }

    /// The name under which preferences keep the column.
    pub fn key(self) -> (r: &'static str)
        ensures
            r@ == self.key_of(),
    {
        match self {
            DownloadColumnKind::FileName => "file_name",
            DownloadColumnKind::Progress => "progress",
            DownloadColumnKind::Size => "size",
            DownloadColumnKind::Speed => "speed",
            DownloadColumnKind::Eta => "eta",
            DownloadColumnKind::Status => "status",
            DownloadColumnKind::Created => "created",
            DownloadColumnKind::Protocol => "protocol",
            DownloadColumnKind::Source => "source",
            DownloadColumnKind::Queue => "queue",
        }
    }

    /// Where the column stands by default.
    pub open spec fn place(self) -> int {
        match self {
            DownloadColumnKind::FileName => 0,
            DownloadColumnKind::Size => 1,
            DownloadColumnKind::Progress => 2,
            DownloadColumnKind::Status => 3,
            DownloadColumnKind::Created => 4,
            DownloadColumnKind::Speed => 5,
            DownloadColumnKind::Eta => 6,
            DownloadColumnKind::Protocol => 7,
            DownloadColumnKind::Source => 8,
            DownloadColumnKind::Queue => 9,
        }
    }

    /// The column that preferences keep under a name.
    pub fn from_key(key: &str) -> (r: Option<DownloadColumnKind>)
        ensures
            match r {
                Some(kind) => kind.key_of() == key@,
                None => forall|kind: DownloadColumnKind| #[trigger] kind.key_of() != key@,
            },
    {
        let kinds = all_kinds();
        let mut i: usize = 0;
        while i < 10
            invariant
                i <= 10,
                kinds@ == default_order(),
                forall|k: int| 0 <= k < i ==> (#[trigger] default_order()[k]).key_of() != key@,
            decreases 10 - i,
        {
            if same(kinds[i].key(), key) {
                return Some(kinds[i]);
            }
            i += 1;
        }
        assert forall|kind: DownloadColumnKind| #[trigger] kind.key_of() != key@ by {
            assert(default_order()[kind.place()] == kind);
        }
        None
    }

    pub open spec fn shown_by_default(self) -> bool {
        self == DownloadColumnKind::FileName || self == DownloadColumnKind::Size || self
            == DownloadColumnKind::Progress || self == DownloadColumnKind::Status || self
            == DownloadColumnKind::Created
    }

    /// Whether the column is shown unless the user says otherwise.
    pub fn default_visible(self) -> (r: bool)
        ensures
            r == self.shown_by_default(),
    {
        matches!(
            self,
            DownloadColumnKind::FileName
            | DownloadColumnKind::Size
            | DownloadColumnKind::Progress
            | DownloadColumnKind::Status
            | DownloadColumnKind::Created
        )
    }

    pub open spec fn usual_width(self) -> u32 {
        match self {
            DownloadColumnKind::FileName => 240_000,
            DownloadColumnKind::Progress => 150_000,
            DownloadColumnKind::Size => 84_000,
            DownloadColumnKind::Speed => 90_000,
            DownloadColumnKind::Eta => 84_000,
            DownloadColumnKind::Status => 140_000,
            DownloadColumnKind::Created => 150_000,
            DownloadColumnKind::Protocol => 64_000,
            DownloadColumnKind::Source => 148_000,
            DownloadColumnKind::Queue => 88_000,
        }
    }

    /// The width of the column unless the user says otherwise.
    pub fn default_width(self) -> (r: u32)
        ensures
            r == self.usual_width(),
    {
        match self {
            DownloadColumnKind::FileName => 240_000,
            DownloadColumnKind::Progress => 150_000,
            DownloadColumnKind::Size => 84_000,
            DownloadColumnKind::Speed => 90_000,
            DownloadColumnKind::Eta => 84_000,
            DownloadColumnKind::Status => 140_000,
            DownloadColumnKind::Created => 150_000,
            DownloadColumnKind::Protocol => 64_000,
            DownloadColumnKind::Source => 148_000,
            DownloadColumnKind::Queue => 88_000,
        }
    }

    pub open spec fn least_width(self) -> u32 {
        match self {
            DownloadColumnKind::FileName => 160_000,
            DownloadColumnKind::Progress => 110_000,
            DownloadColumnKind::Size => 64_000,
            DownloadColumnKind::Speed => 72_000,
            DownloadColumnKind::Eta => 64_000,
            DownloadColumnKind::Status => 84_000,
            DownloadColumnKind::Created => 140_000,
            DownloadColumnKind::Protocol => 56_000,
            DownloadColumnKind::Source => 96_000,
            DownloadColumnKind::Queue => 72_000,
        }
    }

    /// The width below which the column does not go.
    pub fn min_width(self) -> (r: u32)
        ensures
            r == self.least_width(),
    {
        match self {
            DownloadColumnKind::FileName => 160_000,
            DownloadColumnKind::Progress => 110_000,
            DownloadColumnKind::Size => 64_000,
            DownloadColumnKind::Speed => 72_000,
            DownloadColumnKind::Eta => 64_000,
            DownloadColumnKind::Status => 84_000,
            DownloadColumnKind::Created => 140_000,
            DownloadColumnKind::Protocol => 56_000,
            DownloadColumnKind::Source => 96_000,
            DownloadColumnKind::Queue => 72_000,
        }
    }

    pub open spec fn numeric(self) -> bool {
        self == DownloadColumnKind::Size || self == DownloadColumnKind::Speed || self
            == DownloadColumnKind::Eta || self == DownloadColumnKind::Created
    }

    /// Whether the column holds numbers, which stand at its right side.
    pub fn is_numeric(self) -> (r: bool)
        ensures
            r == self.numeric(),
    {
        matches!(
            self,
            DownloadColumnKind::Size
            | DownloadColumnKind::Speed
            | DownloadColumnKind::Eta
            | DownloadColumnKind::Created
        )
    }

    pub open spec fn sorts_by(self) -> Option<ViewSortKey> {
        match self {
            DownloadColumnKind::FileName => Some(ViewSortKey::Name),
            DownloadColumnKind::Progress => Some(ViewSortKey::Progress),
            DownloadColumnKind::Size => Some(ViewSortKey::Size),
            DownloadColumnKind::Speed => Some(ViewSortKey::Speed),
            DownloadColumnKind::Created => Some(ViewSortKey::Created),
            DownloadColumnKind::Status => Some(ViewSortKey::Smart),
            _ => None,
        }
    }

    /// What a click on the column's head sorts by.
    pub fn sort_key(self) -> (r: Option<ViewSortKey>)
        ensures
            r == self.sorts_by(),
    {
        match self {
            DownloadColumnKind::FileName => Some(ViewSortKey::Name),
            DownloadColumnKind::Progress => Some(ViewSortKey::Progress),
            DownloadColumnKind::Size => Some(ViewSortKey::Size),
            DownloadColumnKind::Speed => Some(ViewSortKey::Speed),
            DownloadColumnKind::Created => Some(ViewSortKey::Created),
            DownloadColumnKind::Status => Some(ViewSortKey::Smart),
            _ => None,
        }
    }

    pub open spec fn first_dir(self) -> SortDir {
        if self == DownloadColumnKind::FileName {
            SortDir::Asc
        } else {
            SortDir::Desc
        }
    }

    /// The direction that the first click on the column's head gives.
    pub fn default_sort_dir(self) -> (r: SortDir)
        ensures
            r == self.first_dir(),
    {
        match self {
            DownloadColumnKind::FileName => SortDir::Asc,
            _ => SortDir::Desc,
        }
    }
}

/// Every column is kept under a name of its own.
pub proof fn law_column_keys_differ(a: DownloadColumnKind, b: DownloadColumnKind)
    requires
        a.key_of() == b.key_of(),
    ensures
        a == b,
{
    reveal_strlit("file_name");
    reveal_strlit("progress");
    reveal_strlit("size");
    reveal_strlit("speed");
    reveal_strlit("eta");
    reveal_strlit("status");
    reveal_strlit("created");
    reveal_strlit("protocol");
    reveal_strlit("source");
    reveal_strlit("queue");
    let x = a.key_of();
    let y = b.key_of();
    assert(x.len() == y.len());
    assert(x[0] == y[0] && x[1] == y[1] && x[2] == y[2] && x[3] == y[3]);
}

/// A column with the user's choices.
#[derive(Clone, Copy, Debug, PartialEq, Eq, Structural)]
pub struct DownloadColumn {
    pub kind: DownloadColumnKind,
    pub width: u32,
    pub visible: bool,
}

pub open spec fn default_column(kind: DownloadColumnKind) -> DownloadColumn {
    DownloadColumn { kind, width: kind.usual_width(), visible: kind.shown_by_default() }
}

impl DownloadColumn {
    pub fn new(kind: DownloadColumnKind) -> (r: DownloadColumn)
        ensures
            r == default_column(kind),
    {
        DownloadColumn { kind, width: kind.default_width(), visible: kind.default_visible() }
    }
}

/// A column as preferences keep it.
#[derive(Debug, PartialEq, Eq)]
pub struct ColumnPref {
    pub key: String,
    pub visible: bool,
    pub width: u32,
}

pub open spec fn kind_of_key(key: Seq<char>) -> Option<DownloadColumnKind> {
    if exists|kind: DownloadColumnKind| #[trigger] kind.key_of() == key {
        Some(choose|kind: DownloadColumnKind| #[trigger] kind.key_of() == key)
    } else {
        None
    }
}

/// The column that a preference describes: a width below the least one is passed over.
pub open spec fn column_of_pref(pref: ColumnPref) -> Option<DownloadColumn> {
    match kind_of_key(pref.key@) {
        Some(kind) => Some(
            DownloadColumn {
                kind,
                visible: pref.visible,
                width: if pref.width >= kind.least_width() {
                    pref.width
                } else {
                    kind.usual_width()
                },
            },
        ),
        None => None,
    }
}

/// The columns that preferences describe, unknown names left out.
pub open spec fn named_columns(prefs: Seq<ColumnPref>) -> Seq<DownloadColumn>
    decreases prefs.len(),
{
    if prefs.len() == 0 {
        Seq::empty()
    } else {
        let before = named_columns(prefs.drop_last());
        match column_of_pref(prefs.last()) {
            Some(column) => before.push(column),
            None => before,
        }
    }
}

pub open spec fn has_kind(columns: Seq<DownloadColumn>, kind: DownloadColumnKind) -> bool {
    exists|i: int| 0 <= i < columns.len() && (#[trigger] columns[i]).kind == kind
}

/// The columns with those among the first `n` of the default order that are missing put behind.
pub open spec fn completed_up_to(columns: Seq<DownloadColumn>, n: int) -> Seq<DownloadColumn>
    decreases n,
{
    if n <= 0 {
        columns
    } else {
        let before = completed_up_to(columns, n - 1);
        let kind = default_order()[n - 1];
        if has_kind(before, kind) {
            before
        } else {
            before.push(default_column(kind))
        }
    }
}

pub open spec fn some_shown(columns: Seq<DownloadColumn>) -> bool {
    exists|i: int| 0 <= i < columns.len() && (#[trigger] columns[i]).visible
}

/// The columns that preferences give: the described ones in their order, the missing ones behind
/// them in the default order, and the first one shown where none is.
pub open spec fn columns_of_prefs(prefs: Seq<ColumnPref>) -> Seq<DownloadColumn> {
    let columns = completed_up_to(named_columns(prefs), 10);
    if some_shown(columns) {
        columns
    } else {
        columns.update(0, (DownloadColumn { visible: true, ..columns[0] }))
    }
}

pub open spec fn default_columns() -> Seq<DownloadColumn> {
    default_order().map_values(|kind: DownloadColumnKind| default_column(kind))
}

/// What holds of the columns at all times: every kind is among them, and one of them is shown.
pub open spec fn columns_wf(columns: Seq<DownloadColumn>) -> bool {
    &&& forall|kind: DownloadColumnKind| #[trigger] has_kind(columns, kind)
    &&& some_shown(columns)
}

proof fn lemma_completed_has(columns: Seq<DownloadColumn>, n: int)
    requires
        0 <= n <= 10,
    ensures
        forall|i: int|
            0 <= i < n ==> has_kind(completed_up_to(columns, n), #[trigger] default_order()[i]),
    decreases n,
{
    if n > 0 {
        lemma_completed_has(columns, n - 1);
        let before = completed_up_to(columns, n - 1);
        let after = completed_up_to(columns, n);
        assert forall|i: int| 0 <= i < n implies has_kind(after, #[trigger] default_order()[i]) by {
            if i < n - 1 {
                assert(has_kind(before, default_order()[i]));
                let k = choose|k: int|
                    0 <= k < before.len() && (#[trigger] before[k]).kind == default_order()[i];
                assert(after[k] == before[k]);
            } else if !has_kind(before, default_order()[i]) {
                assert(after[before.len() as int].kind == default_order()[i]);
            }
        }
    }
}

/// Whatever the preferences say, every column is there and one of them is shown.
pub proof fn law_prefs_give_complete_columns(prefs: Seq<ColumnPref>)
    ensures
        columns_wf(columns_of_prefs(prefs)),
{
    let columns = completed_up_to(named_columns(prefs), 10);
    lemma_completed_has(named_columns(prefs), 10);
    let r = columns_of_prefs(prefs);
    assert forall|kind: DownloadColumnKind| #[trigger] has_kind(r, kind) by {
        assert(default_order()[kind.place()] == kind);
        assert(has_kind(columns, kind));
        let k = choose|k: int| 0 <= k < columns.len() && (#[trigger] columns[k]).kind == kind;
        assert(r[k].kind == kind);
    }
    assert(has_kind(columns, DownloadColumnKind::FileName));
    if !some_shown(columns) {
        assert(r[0].visible);
    }
}

pub proof fn lemma_default_columns_wf()
    ensures
        columns_wf(default_columns()),
{
    let r = default_columns();
    assert forall|kind: DownloadColumnKind| #[trigger] has_kind(r, kind) by {
        assert(default_order()[kind.place()] == kind);
        assert(r[kind.place()].kind == kind);
    }
    assert(r[0].visible);
}

proof fn lemma_kind_of_key(kind: DownloadColumnKind)
    ensures
        kind_of_key(kind.key_of()) == Some(kind),
{
    let found = choose|k: DownloadColumnKind| #[trigger] k.key_of() == kind.key_of();
    law_column_keys_differ(found, kind);
}

/// The columns that preferences give.
pub fn columns_from_prefs(prefs: &Vec<ColumnPref>) -> (r: Vec<DownloadColumn>)
    ensures
        r@ == columns_of_prefs(prefs@),
{
    let mut columns: Vec<DownloadColumn> = Vec::new();
    let mut i: usize = 0;
    while i < prefs.len()
        invariant
            i <= prefs@.len(),
            columns@ == named_columns(prefs@.take(i as int)),
        decreases prefs@.len() - i,
    {
        let pref = &prefs[i];
        assert(prefs@.take(i + 1).drop_last() =~= prefs@.take(i as int));
        if let Some(kind) = DownloadColumnKind::from_key(pref.key.as_str()) {
            proof {
                lemma_kind_of_key(kind);
            }
            let mut column = DownloadColumn::new(kind);
            column.visible = pref.visible;
            if pref.width >= kind.min_width() {
                column.width = pref.width;
            }
            columns.push(column);
        }
        i += 1;
    }
    assert(prefs@.take(i as int) =~= prefs@);
    let ghost named = columns@;
    let kinds = all_kinds();
    let mut k: usize = 0;
    while k < 10
        invariant
            k <= 10,
            kinds@ == default_order(),
            columns@ == completed_up_to(named, k as int),
        decreases 10 - k,
    {
        if position_of(&columns, kinds[k]).is_none() {
            columns.push(DownloadColumn::new(kinds[k]));
        }
        k += 1;
    }
    proof {
        lemma_completed_has(named, 10);
        assert(default_order()[0] == DownloadColumnKind::FileName);
        assert(has_kind(columns@, DownloadColumnKind::FileName));
    }
    if shown_count(&columns) == 0 {
        proof {
            lemma_shown_count(columns@);
        }
        let first = columns[0];
        columns.set(0, DownloadColumn { visible: true, ..first });
    } else {
        proof {
            lemma_shown_count(columns@);
        }
    }
    columns
}

/// The index of the first column of a kind.
pub fn position_of(columns: &Vec<DownloadColumn>, kind: DownloadColumnKind) -> (r: Option<usize>)
    ensures
        match r {
            Some(i) => i < columns@.len() && columns@[i as int].kind == kind && forall|k: int|
                0 <= k < i ==> (#[trigger] columns@[k]).kind != kind,
            None => !has_kind(columns@, kind),
        },
        r is Some ==> has_kind(columns@, kind),
{
    let mut i: usize = 0;
    while i < columns.len()
        invariant
            i <= columns@.len(),
            forall|k: int| 0 <= k < i ==> (#[trigger] columns@[k]).kind != kind,
        decreases columns@.len() - i,
    {
        if columns[i].kind == kind {
            return Some(i);
        }
        i += 1;
    }
    None
}

/// The indexes of the shown columns, in order.
pub open spec fn shown_indexes(columns: Seq<DownloadColumn>) -> Seq<int>
    decreases columns.len(),
{
    if columns.len() == 0 {
        Seq::empty()
    } else {
        let before = shown_indexes(columns.drop_last());
        if columns.last().visible {
            before.push(columns.len() - 1)
        } else {
            before
        }
    }
}

pub proof fn lemma_shown_indexes(columns: Seq<DownloadColumn>)
    ensures
        forall|i: int|
            0 <= i < shown_indexes(columns).len() ==> 0 <= #[trigger] shown_indexes(columns)[i]
                < columns.len() && columns[shown_indexes(columns)[i]].visible,
        forall|i: int, j: int|
            0 <= i < j < shown_indexes(columns).len() ==> shown_indexes(columns)[i]
                < shown_indexes(columns)[j],
        shown_indexes(columns).len() <= columns.len(),
    decreases columns.len(),
{
    if columns.len() > 0 {
        lemma_shown_indexes(columns.drop_last());
    }
}

pub proof fn lemma_shown_count(columns: Seq<DownloadColumn>)
    ensures
        shown_indexes(columns).len() > 0 <==> some_shown(columns),
    decreases columns.len(),
{
    if columns.len() > 0 {
        let t = columns.drop_last();
        lemma_shown_count(t);
        if some_shown(t) {
            let i = choose|i: int| 0 <= i < t.len() && (#[trigger] t[i]).visible;
            assert(columns[i].visible);
        }
        if some_shown(columns) && !columns.last().visible {
            let i = choose|i: int| 0 <= i < columns.len() && (#[trigger] columns[i]).visible;
            assert(t[i].visible);
        }
        if columns.last().visible {
            assert(columns[columns.len() - 1].visible);
        }
    }
}

/// The indexes of the shown columns, in order.
pub fn shown_positions(columns: &Vec<DownloadColumn>) -> (r: Vec<usize>)
    ensures
        r@.len() == shown_indexes(columns@).len(),
        forall|i: int| 0 <= i < r@.len() ==> (#[trigger] r@[i]) == shown_indexes(columns@)[i],
{
    let mut r: Vec<usize> = Vec::new();
    let mut i: usize = 0;
    while i < columns.len()
        invariant
            i <= columns@.len(),
            r@.len() == shown_indexes(columns@.take(i as int)).len(),
            forall|k: int|
                0 <= k < r@.len() ==> (#[trigger] r@[k]) == shown_indexes(
                    columns@.take(i as int),
                )[k],
        decreases columns@.len() - i,
    {
        assert(columns@.take(i + 1).drop_last() =~= columns@.take(i as int));
        if columns[i].visible {
            r.push(i);
        }
        i += 1;
    }
    assert(columns@.take(i as int) =~= columns@);
    r
}

/// How many columns are shown.
pub fn shown_count(columns: &Vec<DownloadColumn>) -> (r: usize)
    ensures
        r == shown_indexes(columns@).len(),
{
    shown_positions(columns).len()
}

/// The shown column at an index of the table. Index zero is the selection column.
pub open spec fn column_at(columns: Seq<DownloadColumn>, col_ix: int) -> Option<DownloadColumn> {
    if 1 <= col_ix <= shown_indexes(columns).len() {
        Some(columns[shown_indexes(columns)[col_ix - 1]])
    } else {
        None
    }
}

/// The shown column at an index of the table. Index zero is the selection column.
pub fn shown_column(columns: &Vec<DownloadColumn>, col_ix: usize) -> (r: Option<DownloadColumn>)
    ensures
        r == column_at(columns@, col_ix as int),
{
    let positions = shown_positions(columns);
    if col_ix == 0 || col_ix > positions.len() {
        return None;
    }
    proof {
        lemma_shown_indexes(columns@);
        assert(positions@[col_ix - 1] == shown_indexes(columns@)[col_ix - 1]);
    }
    Some(columns[positions[col_ix - 1]])
}

/// The list with the item at `from` moved to `to`.
pub open spec fn moved<T>(s: Seq<T>, from: int, to: int) -> Seq<T> {
    s.remove(from).insert(to, s[from])
}

/// Moving a column changes nothing but the order: the same columns are there, each as it was.
pub proof fn law_move_keeps_columns(columns: Seq<DownloadColumn>, from: int, to: int)
    requires
        0 <= from < columns.len(),
        0 <= to < columns.len(),
    ensures
        moved(columns, from, to).to_multiset() == columns.to_multiset(),
        moved(columns, from, to)[to] == columns[from],
        columns_wf(columns) ==> columns_wf(moved(columns, from, to)),
{
    let r = moved(columns, from, to);
    vstd::seq_lib::to_multiset_remove(columns, from);
    vstd::seq_lib::to_multiset_insert(columns.remove(from), to, columns[from]);
    columns.to_multiset_ensures();
    assert(columns.to_multiset().contains(columns[from]));
    assert(columns.to_multiset().remove(columns[from]).insert(columns[from])
        =~= columns.to_multiset());
    if columns_wf(columns) {
        r.to_multiset_ensures();
        assert forall|kind: DownloadColumnKind| #[trigger] has_kind(r, kind) by {
            assert(has_kind(columns, kind));
            let i = choose|i: int| 0 <= i < columns.len() && (#[trigger] columns[i]).kind == kind;
            assert(columns.to_multiset().contains(columns[i]));
            assert(r.contains(columns[i]));
        }
        let i = choose|i: int| 0 <= i < columns.len() && (#[trigger] columns[i]).visible;
        assert(columns.to_multiset().contains(columns[i]));
        assert(r.contains(columns[i]));
    }
}

/// Moves a shown column to the place of another; both are indexes of the table. An index that
/// names no shown column moves nothing.
pub fn move_shown_column(columns: &mut Vec<DownloadColumn>, from_ix: usize, to_ix: usize)
    ensures
        ({
            let shown = shown_indexes(old(columns)@);
            if 1 <= from_ix <= shown.len() && 1 <= to_ix <= shown.len() {
                final(columns)@ == moved(old(columns)@, shown[from_ix - 1], shown[to_ix - 1])
            } else {
                final(columns)@ == old(columns)@
            }
        }),
{
    if from_ix == 0 || to_ix == 0 {
        return;
    }
    let positions = shown_positions(columns);
    if from_ix > positions.len() || to_ix > positions.len() {
        return;
    }
    proof {
        lemma_shown_indexes(columns@);
        assert(positions@[from_ix - 1] == shown_indexes(columns@)[from_ix - 1]);
        assert(positions@[to_ix - 1] == shown_indexes(columns@)[to_ix - 1]);
    }
    let from: usize = positions[from_ix - 1];
    let to: usize = positions[to_ix - 1];
    let column = columns.remove(from);
    columns.insert(to, column);
}

/// Moves the column of one kind to the place of another.
pub fn move_column_kind(
    columns: &mut Vec<DownloadColumn>,
    from: DownloadColumnKind,
    to: DownloadColumnKind,
)
    ensures
        ({
            let before = old(columns)@;
            let i = first_of(before, from);
            let j = first_of(before, to);
            if has_kind(before, from) && has_kind(before, to) && i != j {
                final(columns)@ == moved(before, i, j)
            } else {
                final(columns)@ == before
            }
        }),
{
    let from_ix = position_of(columns, from);
    let to_ix = position_of(columns, to);
    if let (Some(i), Some(j)) = (from_ix, to_ix) {
        proof {
            lemma_first_of(columns@, from, i as int);
            lemma_first_of(columns@, to, j as int);
        }
        if i != j {
            let column = columns.remove(i);
            columns.insert(j, column);
        }
    }
}

/// The index of the first column of a kind; the number of columns where there is none.
pub open spec fn first_of(columns: Seq<DownloadColumn>, kind: DownloadColumnKind) -> int
    decreases columns.len(),
{
    if columns.len() == 0 || columns[0].kind == kind {
        0
    } else {
        1 + first_of(columns.drop_first(), kind)
    }
}

pub proof fn lemma_first_of(columns: Seq<DownloadColumn>, kind: DownloadColumnKind, i: int)
    requires
        0 <= i < columns.len(),
        columns[i].kind == kind,
        forall|k: int| 0 <= k < i ==> (#[trigger] columns[k]).kind != kind,
    ensures
        first_of(columns, kind) == i,
    decreases columns.len(),
{
    if i > 0 {
        assert(columns[0].kind != kind);
        let rest = columns.drop_first();
        assert forall|k: int| 0 <= k < i - 1 implies (#[trigger] rest[k]).kind != kind by {
            assert(columns[k + 1].kind != kind);
        }
        lemma_first_of(rest, kind, i - 1);
    }
}

/// Shows or hides the column of a kind, and says whether that changed anything. The last shown
/// column is not hidden.
pub fn set_column_visible(
    columns: &mut Vec<DownloadColumn>,
    kind: DownloadColumnKind,
    visible: bool,
) -> (r: bool)
    requires
        columns_wf(old(columns)@),
    ensures
        columns_wf(final(columns)@),
        ({
            let before = old(columns)@;
            let i = first_of(before, kind);
            let changes = before[i].visible != visible && (visible || shown_indexes(before).len()
                > 1);
            &&& r == changes
            &&& changes ==> final(columns)@ == before.update(
                i,
                (DownloadColumn { visible, ..before[i] }),
            )
            &&& !changes ==> final(columns)@ == before
        }),
{
    assert(has_kind(columns@, kind));
    let found = position_of(columns, kind);
    if !visible && shown_count(columns) <= 1 {
        proof {
            lemma_shown_count(columns@);
        }
        return false;
    }
    match found {
        None => false,
        Some(i) => {
            proof {
                lemma_first_of(columns@, kind, i as int);
            }
            let column = columns[i];
            if column.visible == visible {
                return false;
            }
            let ghost before = columns@;
            columns.set(i, DownloadColumn { visible, ..column });
            proof {
                let after = columns@;
                assert forall|k: DownloadColumnKind| #[trigger] has_kind(after, k) by {
                    assert(has_kind(before, k));
                    let j = choose|j: int|
                        0 <= j < before.len() && (#[trigger] before[j]).kind == k;
                    assert(after[j].kind == k);
                }
                if visible {
                    assert(after[i as int].visible);
                } else {
                    lemma_shown_indexes(before);
                    let shown = shown_indexes(before);
                    assert(shown[0] < shown[1]);
                    let j = if shown[0] == i {
                        shown[1]
                    } else {
                        shown[0]
                    };
                    assert(after[j] == before[j]);
                    assert(before[j].visible);
                }
            }
            true
        },
    }
}

/// The columns as they stand by default.
pub fn reset_columns() -> (r: Vec<DownloadColumn>)
    ensures
        r@ == default_columns(),
        columns_wf(r@),
{
    let kinds = all_kinds();
    let mut r: Vec<DownloadColumn> = Vec::new();
    let mut i: usize = 0;
    while i < 10
        invariant
            i <= 10,
            kinds@ == default_order(),
            r@ == default_columns().take(i as int),
        decreases 10 - i,
    {
        r.push(DownloadColumn::new(kinds[i]));
        assert(r@ =~= default_columns().take(i + 1));
        i += 1;
    }
    assert(r@ =~= default_columns());
    proof {
        lemma_default_columns_wf();
    }
    r
}

pub open spec fn pref_is(pref: ColumnPref, column: DownloadColumn) -> bool {
    pref.key@ == column.kind.key_of() && pref.visible == column.visible && pref.width
        == column.width
}

/// The columns as preferences keep them.
pub fn column_prefs(columns: &Vec<DownloadColumn>) -> (r: Vec<ColumnPref>)
    ensures
        r@.len() == columns@.len(),
        forall|i: int| 0 <= i < r@.len() ==> pref_is(#[trigger] r@[i], columns@[i]),
{
    let mut r: Vec<ColumnPref> = Vec::new();
    let mut i: usize = 0;
    while i < columns.len()
        invariant
            i <= columns@.len(),
            r@.len() == i,
            forall|k: int| 0 <= k < i ==> pref_is(#[trigger] r@[k], columns@[k]),
        decreases columns@.len() - i,
    {
        let column = columns[i];
        r.push(
            ColumnPref {
                key: column.kind.key().to_owned(),
                visible: column.visible,
                width: column.width,
            },
        );
        i += 1;
    }
    r
}

/// Preferences give back the columns that they keep, where no width is below the least one.
pub proof fn law_prefs_round_trip(columns: Seq<DownloadColumn>, prefs: Seq<ColumnPref>)
    requires
        columns_wf(columns),
        prefs.len() == columns.len(),
        forall|i: int| 0 <= i < prefs.len() ==> pref_is(#[trigger] prefs[i], columns[i]),
        forall|i: int|
            0 <= i < columns.len() ==> (#[trigger] columns[i]).width
                >= columns[i].kind.least_width(),
    ensures
        columns_of_prefs(prefs) == columns,
{
    lemma_named(columns, prefs);
    lemma_complete_unchanged(columns, 10);
}

proof fn lemma_named(columns: Seq<DownloadColumn>, prefs: Seq<ColumnPref>)
    requires
        prefs.len() == columns.len(),
        forall|i: int| 0 <= i < prefs.len() ==> pref_is(#[trigger] prefs[i], columns[i]),
        forall|i: int|
            0 <= i < columns.len() ==> (#[trigger] columns[i]).width
                >= columns[i].kind.least_width(),
    ensures
        named_columns(prefs) == columns,
    decreases columns.len(),
{
    if columns.len() == 0 {
        assert(named_columns(prefs) =~= columns);
    } else {
        lemma_named(columns.drop_last(), prefs.drop_last());
        let last = columns.last();
        assert(pref_is(prefs[prefs.len() - 1], columns[columns.len() - 1]));
        lemma_kind_of_key(last.kind);
        assert(column_of_pref(prefs.last()) == Some(last));
        assert(columns.drop_last().push(last) =~= columns);
    }
}

proof fn lemma_complete_unchanged(columns: Seq<DownloadColumn>, n: int)
    requires
        columns_wf(columns),
    ensures
        completed_up_to(columns, n) == columns,
    decreases n,
{
    if n > 0 {
        lemma_complete_unchanged(columns, n - 1);
        assert(has_kind(columns, default_order()[n - 1]));
    }
}

pub open spec fn clamped(w: u32, low: u32, high: u32) -> u32 {
    if w < low {
        low
    } else if w > high {
        high
    } else {
        w
    }
}

/// `w`, or the nearer bound where it is out of bounds.
pub fn clamp(w: u32, low: u32, high: u32) -> (r: u32)
    ensures
        r == clamped(w, low, high),
{
    if w < low {
        low
    } else if w > high {
        high
    } else {
        w
    }
}

/// Whether two widths count as different.
pub open spec fn widths_differ(a: u32, b: u32) -> bool {
    a - b >= WIDTH_TOLERANCE || b - a >= WIDTH_TOLERANCE
}

fn widths_apart(a: u32, b: u32) -> (r: bool)
    ensures
        r == widths_differ(a, b),
{
    if a >= b {
        a - b >= WIDTH_TOLERANCE
    } else {
        b - a >= WIDTH_TOLERANCE
    }
}

/// The widths of the shown columns other than that of file names, taken together.
pub open spec fn other_widths(columns: Seq<DownloadColumn>) -> nat
    decreases columns.len(),
{
    if columns.len() == 0 {
        0
    } else {
        let column = columns.last();
        other_widths(columns.drop_last()) + if column.visible && column.kind
            != DownloadColumnKind::FileName {
            column.width as nat
        } else {
            0
        }
    }
}

/// The width that the table gives the column at index `p`, where it shows it and knows its
/// width. The first of the widths is that of the selection column.
pub open spec fn given_width(columns: Seq<DownloadColumn>, widths: Seq<u32>, p: int) -> Option<
    u32,
> {
    let ix = shown_indexes(columns.take(p)).len() + 1;
    if columns[p].visible && ix < widths.len() {
        Some(widths[ix as int])
    } else {
        None
    }
}

/// The column at index `p` with the width that the table gives it.
pub open spec fn synced_column(
    columns: Seq<DownloadColumn>,
    widths: Seq<u32>,
    p: int,
) -> DownloadColumn {
    let column = columns[p];
    match given_width(columns, widths, p) {
        Some(w) => if column.kind == DownloadColumnKind::FileName {
            column
        } else {
            DownloadColumn {
                width: clamped(w, column.kind.least_width(), MAX_COLUMN_WIDTH),
                ..column
            }
        },
        None => column,
    }
}

/// The width to which the user dragged the column of file names, looked for among the first `n`
/// columns: the table gives it a width other than the one last applied.
pub open spec fn dragged_width(
    columns: Seq<DownloadColumn>,
    widths: Seq<u32>,
    applied: u32,
    n: int,
) -> Option<u32>
    decreases n,
{
    if n <= 0 {
        None
    } else {
        let before = dragged_width(columns, widths, applied, n - 1);
        match given_width(columns, widths, n - 1) {
            Some(w) => if columns[n - 1].kind == DownloadColumnKind::FileName && widths_differ(
                w,
                applied,
            ) {
                Some(
                    clamped(w, DownloadColumnKind::FileName.least_width(), FILE_NAME_MAX_WIDTH),
                )
            } else {
                before
            },
            None => before,
        }
    }
}

/// How the columns lie in the table's viewport.
#[derive(Debug)]
pub struct TableLayout {
    pub columns: Vec<DownloadColumn>,
    /// The width that the user gave the column of file names.
    pub file_name_width: Option<u32>,
    /// The width of the viewport; zero until it is measured.
    pub viewport_width: u32,
    /// The width of the column of file names that the table last applied.
    pub applied_file_width: u32,
    /// The room that the vertical scroll bar takes.
    pub scrollbar_width: u32,
}

impl TableLayout {
    pub open spec fn wf(&self) -> bool {
        columns_wf(self.columns@)
    }

    /// The width that the column of file names should have: the one that the user gave it;
    /// else what the other columns leave of the viewport, but not below its least width.
    pub open spec fn wanted_file_width(&self, viewport: u32) -> u32 {
        let least = DownloadColumnKind::FileName.least_width();
        match self.file_name_width {
            Some(w) => clamped(w, least, FILE_NAME_MAX_WIDTH),
            None => if viewport == 0 {
                if has_kind(self.columns@, DownloadColumnKind::FileName) {
                    let w = self.columns@[first_of(
                        self.columns@,
                        DownloadColumnKind::FileName,
                    )].width;
                    if w < least {
                        least
                    } else {
                        w
                    }
                } else {
                    least
                }
            } else {
                let left = viewport - (SELECTION_COLUMN_WIDTH + other_widths(self.columns@)
                    + TABLE_TRAILING_GUTTER + self.scrollbar_width);
                if left < least {
                    least
                } else {
                    left as u32
                }
            },
        }
    }

    pub open spec fn shows_file_name(&self) -> bool {
        exists|i: int|
            0 <= i < self.columns@.len() && (#[trigger] self.columns@[i]).visible
                && self.columns@[i].kind == DownloadColumnKind::FileName
    }

    pub fn new(scrollbar_width: u32) -> (r: TableLayout)
        ensures
            r.wf(),
            r.columns@ == default_columns(),
            r.file_name_width is None,
            r.viewport_width == 0,
            r.applied_file_width == 0,
            r.scrollbar_width == scrollbar_width,
    {
        TableLayout {
            columns: reset_columns(),
            file_name_width: None,
            viewport_width: 0,
            applied_file_width: 0,
            scrollbar_width,
        }
    }

    /// Takes over the widths to which the user dragged the columns, and says whether anything
    /// changed. `widths` starts with the selection column.
    ///
    /// The column of file names follows the viewport until it is dragged itself: from then on it
    /// keeps the width that the user gave it.
    pub fn sync_column_widths(&mut self, widths: &[u32]) -> (r: bool)
        ensures
            ({
                let before = old(self).columns@;
                let after = final(self).columns@;
                let dragged = dragged_width(
                    before,
                    widths@,
                    old(self).applied_file_width,
                    before.len() as int,
                );
                &&& after.len() == before.len()
                &&& forall|p: int|
                    0 <= p < after.len() ==> #[trigger] after[p] == synced_column(
                        before,
                        widths@,
                        p,
                    )
                &&& final(self).file_name_width == match dragged {
                    Some(w) => Some(w),
                    None => old(self).file_name_width,
                }
                &&& final(self).applied_file_width == match dragged {
                    Some(w) => w,
                    None => old(self).applied_file_width,
                }
                &&& r == (dragged is Some || after != before)
            }),
            final(self).viewport_width == old(self).viewport_width,
            final(self).scrollbar_width == old(self).scrollbar_width,
            old(self).wf() ==> final(self).wf(),
    {
        let ghost before = self.columns@;
        let applied: u32 = self.applied_file_width;
        let mut dragged: Option<u32> = None;
        let mut changed: bool = false;
        let mut shown: usize = 0;
        let mut i: usize = 0;
        while i < self.columns.len()
            invariant
                i <= before.len(),
                self.columns@.len() == before.len(),
                shown == shown_indexes(before.take(i as int)).len(),
                shown <= i,
                dragged == dragged_width(before, widths@, applied, i as int),
                forall|p: int|
                    0 <= p < i ==> #[trigger] self.columns@[p] == synced_column(
                        before,
                        widths@,
                        p,
                    ),
                forall|p: int|
                    i <= p < before.len() ==> #[trigger] self.columns@[p] == before[p],
                changed == (exists|p: int|
                    0 <= p < i && #[trigger] synced_column(before, widths@, p) != before[p]),
                self.file_name_width == old(self).file_name_width,
                self.applied_file_width == old(self).applied_file_width,
                self.viewport_width == old(self).viewport_width,
                self.scrollbar_width == old(self).scrollbar_width,
            decreases before.len() - i,
        {
            proof {
                assert(before.take(i + 1).drop_last() =~= before.take(i as int));
            }
            let column = self.columns[i];
            if column.visible {
                assert(shown_indexes(before.take(i + 1)).len() == shown + 1);
                if shown + 1 < widths.len() {
                    let w: u32 = widths[shown + 1];
                    if column.kind == DownloadColumnKind::FileName {
                        if widths_apart(w, applied) {
                            dragged =
                            Some(
                                clamp(
                                    w,
                                    DownloadColumnKind::FileName.min_width(),
                                    FILE_NAME_MAX_WIDTH,
                                ),
                            );
                        }
                    } else {
                        let width: u32 = clamp(w, column.kind.min_width(), MAX_COLUMN_WIDTH);
                        if column.width != width {
                            self.columns.set(i, DownloadColumn { width, ..column });
                            assert(synced_column(before, widths@, i as int) != before[i as int]);
                            changed = true;
                        }
                    }
                }
                shown += 1;
            }
            i += 1;
        }
        if let Some(width) = dragged {
            self.file_name_width = Some(width);
            self.applied_file_width = width;
        }
        proof {
            let after = self.columns@;
            if changed {
                let p = choose|p: int|
                    0 <= p < before.len() && #[trigger] synced_column(before, widths@, p)
                        != before[p];
                assert(after[p] != before[p]);
            } else {
                assert forall|p: int| 0 <= p < before.len() implies after[p] == before[p] by {
                    assert(synced_column(before, widths@, p) == before[p]);
                }
                assert(after =~= before);
            }
            if columns_wf(before) {
                assert forall|kind: DownloadColumnKind| #[trigger] has_kind(after, kind) by {
                    assert(has_kind(before, kind));
                    let k = choose|k: int|
                        0 <= k < before.len() && (#[trigger] before[k]).kind == kind;
                    assert(after[k].kind == kind);
                }
                let k = choose|k: int| 0 <= k < before.len() && (#[trigger] before[k]).visible;
                assert(after[k].visible);
            }
        }
        changed || dragged.is_some()
    }

    /// The width that the column of file names should have in a viewport of the given width.
    pub fn file_name_width_for(&self, viewport: u32) -> (r: u32)
        ensures
            r == self.wanted_file_width(viewport),
    {
        let least: u32 = DownloadColumnKind::FileName.min_width();
        if let Some(width) = self.file_name_width {
            return clamp(width, least, FILE_NAME_MAX_WIDTH);
        }
        if viewport == 0 {
            return match position_of(&self.columns, DownloadColumnKind::FileName) {
                Some(i) => {
                    proof {
                        lemma_first_of(
                            self.columns@,
                            DownloadColumnKind::FileName,
                            i as int,
                        );
                    }
                    let w: u32 = self.columns[i].width;
                    if w < least {
                        least
                    } else {
                        w
                    }
                },
                None => least,
            };
        }
        let mut others: u128 = 0;
        let mut i: usize = 0;
        while i < self.columns.len()
            invariant
                i <= self.columns@.len(),
                others == other_widths(self.columns@.take(i as int)),
                others <= i * 0xffff_ffff,
            decreases self.columns@.len() - i,
        {
            assert(self.columns@.take(i + 1).drop_last() =~= self.columns@.take(i as int));
            let column = self.columns[i];
            if column.visible && column.kind != DownloadColumnKind::FileName {
                others += column.width as u128;
            }
            i += 1;
        }
        assert(self.columns@.take(i as int) =~= self.columns@);
        let reserved: u128 = SELECTION_COLUMN_WIDTH as u128 + others + TABLE_TRAILING_GUTTER as u128
            + self.scrollbar_width as u128;
        if viewport as u128 >= reserved + least as u128 {
            (viewport as u128 - reserved) as u32
        } else {
            least
        }
    }

    /// Whether the column of file names is shown.
    pub fn file_name_visible(&self) -> (r: bool)
        ensures
            r == self.shows_file_name(),
    {
        let mut i: usize = 0;
        while i < self.columns.len()
            invariant
                i <= self.columns@.len(),
                forall|k: int|
                    0 <= k < i ==> !((#[trigger] self.columns@[k]).visible && self.columns@[k].kind
                        == DownloadColumnKind::FileName),
            decreases self.columns@.len() - i,
        {
            let column = self.columns[i];
            if column.visible && column.kind == DownloadColumnKind::FileName {
                assert(self.columns@[i as int].visible);
                return true;
            }
            i += 1;
        }
        false
    }

    /// Whether a viewport of the given width asks for another layout: its width is new, or the
    /// column of file names does not have the width that it should.
    pub fn viewport_needs_sync(&self, viewport: u32) -> (r: bool)
        ensures
            r == (widths_differ(self.viewport_width, viewport) || (self.shows_file_name()
                && widths_differ(self.wanted_file_width(viewport), self.applied_file_width))),
    {
        widths_apart(self.viewport_width, viewport) || (self.file_name_visible() && widths_apart(
            self.file_name_width_for(viewport),
            self.applied_file_width,
        ))
    }

    /// Applies the width that the column of file names should have.
    pub fn apply_file_name_width(&mut self) -> (r: u32)
        ensures
            r == old(self).wanted_file_width(old(self).viewport_width),
            *final(self) == (TableLayout { applied_file_width: r, ..*old(self) }),
    {
        let width: u32 = self.file_name_width_for(self.viewport_width);
        self.applied_file_width = width;
        width
    }

    /// Takes over the width of the viewport, and says whether the column of file names needs
    /// another width.
    pub fn set_viewport_width(&mut self, viewport: u32) -> (r: bool)
        ensures
            *final(self) == (TableLayout { viewport_width: viewport, ..*old(self) }),
            r == (old(self).shows_file_name() && widths_differ(
                old(self).wanted_file_width(viewport),
                old(self).applied_file_width,
            )),
    {
        self.viewport_width = viewport;
        self.file_name_visible() && widths_apart(
            self.file_name_width_for(viewport),
            self.applied_file_width,
        )
    }

    /// Puts the columns back as they stand by default, and lets the column of file names follow
    /// the viewport again.
    pub fn reset_columns(&mut self)
        ensures
            final(self).columns@ == default_columns(),
            final(self).file_name_width is None,
            final(self).wf(),
            final(self).viewport_width == old(self).viewport_width,
            final(self).applied_file_width == old(self).applied_file_width,
            final(self).scrollbar_width == old(self).scrollbar_width,
    {
        self.columns = reset_columns();
        self.file_name_width = None;
    }

    /// The width of the bar inside the progress column: what the paddings, the percentage and
    /// the gap leave of it.
    pub fn progress_bar_width(&self) -> (r: u32)
        ensures
            ({
                let column = if has_kind(self.columns@, DownloadColumnKind::Progress) {
                    self.columns@[first_of(self.columns@, DownloadColumnKind::Progress)].width
                } else {
                    DownloadColumnKind::Progress.least_width()
                };
                let rest = column - 2 * CELL_PADDING_X - PROGRESS_LABEL_WIDTH - PROGRESS_GAP;
                r == if rest < 0 {
                    0
                } else {
                    rest
                }
            }),
    {
        let width: u32 = match position_of(&self.columns, DownloadColumnKind::Progress) {
            Some(i) => {
                proof {
                    lemma_first_of(self.columns@, DownloadColumnKind::Progress, i as int);
                }
                self.columns[i].width
            },
            None => DownloadColumnKind::Progress.min_width(),
        };
        width.saturating_sub(2 * CELL_PADDING_X + PROGRESS_LABEL_WIDTH + PROGRESS_GAP)
    }
}

/// Once the width for a viewport was applied, the same viewport asks for nothing more.
pub proof fn law_applied_layout_is_settled(layout: TableLayout, viewport: u32)
    requires
        layout.viewport_width == viewport,
        layout.applied_file_width == layout.wanted_file_width(viewport),
    ensures
        !(widths_differ(layout.viewport_width, viewport) || (layout.shows_file_name()
            && widths_differ(layout.wanted_file_width(viewport), layout.applied_file_width))),
{
}

/// While the column of file names follows the viewport, it takes up every change of the
/// viewport's width, as long as it stays above its least width.
pub proof fn law_file_name_absorbs_the_rest(layout: TableLayout, narrow: u32, wide: u32)
    requires
        layout.file_name_width is None,
        0 < narrow <= wide,
        layout.wanted_file_width(narrow) > DownloadColumnKind::FileName.least_width(),
    ensures
        layout.wanted_file_width(wide) - layout.wanted_file_width(narrow) == wide - narrow,
{
}

/// The width of the column of file names is never below its least width.
pub proof fn law_file_name_keeps_least_width(layout: TableLayout, viewport: u32)
    ensures
        layout.wanted_file_width(viewport) >= DownloadColumnKind::FileName.least_width(),
{
}

/// A moved item stands where it was moved to, and taking it out there leaves what taking it out at
/// its old place leaves: the others keep their order.
pub proof fn law_moved_item_stands_at_its_place<T>(s: Seq<T>, from: int, to: int)
    requires
        0 <= from < s.len(),
        0 <= to < s.len(),
    ensures
        moved(s, from, to).len() == s.len(),
        moved(s, from, to)[to] == s[from],
        moved(s, from, to).remove(to) == s.remove(from),
{
    assert(moved(s, from, to).remove(to) =~= s.remove(from));
}

pub proof fn lemma_all_shown(columns: Seq<DownloadColumn>)
    requires
        forall|i: int| 0 <= i < columns.len() ==> (#[trigger] columns[i]).visible,
    ensures
        shown_indexes(columns).len() == columns.len(),
        forall|i: int|
            0 <= i < columns.len() ==> #[trigger] shown_indexes(columns)[i] == i,
    decreases columns.len(),
{
    if columns.len() > 0 {
        let rest = columns.drop_last();
        assert forall|i: int| 0 <= i < rest.len() implies (#[trigger] rest[i]).visible by {
            assert(rest[i] == columns[i]);
        }
        lemma_all_shown(rest);
        assert(columns[columns.len() - 1] == columns.last());
    }
}

/// Dragging one shown column onto another puts it there and shifts the others, without changing
/// their order; a place that shows no column changes nothing.
pub proof fn law_dragged_column_stands_where_it_was_put(
    columns: &mut Vec<DownloadColumn>,
    from_ix: usize,
    to_ix: usize,
)
    requires
        forall|i: int| 0 <= i < old(columns)@.len() ==> (#[trigger] old(columns)@[i]).visible,
        call_ensures(move_shown_column, (columns, from_ix, to_ix), ()),
    ensures
        1 <= from_ix <= old(columns)@.len() && 1 <= to_ix <= old(columns)@.len() ==> {
            &&& final(columns)@.len() == old(columns)@.len()
            &&& final(columns)@[to_ix - 1] == old(columns)@[from_ix - 1]
            &&& final(columns)@.remove(to_ix - 1) == old(columns)@.remove(from_ix - 1)
        },
        from_ix == 0 || from_ix > old(columns)@.len() || to_ix == 0 || to_ix > old(columns)@.len()
            ==> final(columns)@ == old(columns)@,
{
    let before = old(columns)@;
    lemma_all_shown(before);
    if 1 <= from_ix <= before.len() && 1 <= to_ix <= before.len() {
        assert(shown_indexes(before)[from_ix - 1] == from_ix - 1);
        assert(shown_indexes(before)[to_ix - 1] == to_ix - 1);
        law_moved_item_stands_at_its_place(before, from_ix - 1, to_ix - 1);
    }
}

proof fn lemma_shown_in_order(columns: Seq<DownloadColumn>)
    ensures
        forall|i: int|
            0 <= i < shown_indexes(columns).len() ==> 0 <= #[trigger] shown_indexes(columns)[i]
                < columns.len() && columns[shown_indexes(columns)[i]].visible,
        forall|i: int, j: int|
            0 <= i < j < shown_indexes(columns).len() ==> #[trigger] shown_indexes(columns)[i]
                < #[trigger] shown_indexes(columns)[j],
        forall|p: int|
            0 <= p < columns.len() && (#[trigger] columns[p]).visible ==> shown_indexes(
                columns,
            ).contains(p),
    decreases columns.len(),
{
    if columns.len() > 0 {
        let rest = columns.drop_last();
        lemma_shown_in_order(rest);
        let before = shown_indexes(rest);
        let after = shown_indexes(columns);
        let n = rest.len() as int;
        assert(columns[n] == columns.last());
        assert forall|i: int| 0 <= i < after.len() implies 0 <= #[trigger] after[i] < columns.len()
            && columns[after[i]].visible by {
            if i < before.len() {
                assert(after[i] == before[i]);
                assert(rest[before[i]] == columns[before[i]]);
            }
        }
        assert forall|i: int, j: int| 0 <= i < j < after.len() implies #[trigger] after[i]
            < #[trigger] after[j] by {
            assert(after[i] == before[i]);
            if j < before.len() {
                assert(after[j] == before[j]);
            }
        }
        assert forall|p: int|
            0 <= p < columns.len() && (#[trigger] columns[p]).visible implies after.contains(p) by {
            if p < n {
                assert(rest[p] == columns[p]);
                let i = choose|i: int| 0 <= i < before.len() && before[i] == p;
                assert(after[i] == p);
            } else {
                assert(after[before.len() as int] == n);
            }
        }
    }
}

/// The table shows the columns that are to be shown, all of them and in their order: at each place
/// from the second on stands one that is shown, a later place shows a later one, and none is left
/// out.
pub proof fn law_shown_columns_stand_in_order(
    columns: &Vec<DownloadColumn>,
    a: usize,
    b: usize,
    first: Option<DownloadColumn>,
    second: Option<DownloadColumn>,
    p: int,
)
    requires
        call_ensures(shown_column, (columns, a), first),
        call_ensures(shown_column, (columns, b), second),
        1 <= a < b,
        second is Some,
        0 <= p < columns@.len(),
    ensures
        first is Some && (first->0).visible && (second->0).visible,
        exists|i: int, j: int|
            0 <= i < j < columns@.len() && #[trigger] columns@[i] == first->0
                && #[trigger] columns@[j] == second->0,
        columns@[p].visible ==> exists|k: int|
            1 <= k <= shown_indexes(columns@).len() && #[trigger] column_at(columns@, k) == Some(
                columns@[p],
            ),
{
    lemma_shown_in_order(columns@);
    let shown = shown_indexes(columns@);
    let i = shown[a - 1];
    let j = shown[b - 1];
    assert(columns@[i] == first->0 && columns@[j] == second->0 && i < j);
    if columns@[p].visible {
        let k = choose|k: int| 0 <= k < shown.len() && shown[k] == p;
        assert(column_at(columns@, k + 1) == Some(columns@[p]));
    }
}

/// A column that is hidden and shown again is as it was; the last one that is shown cannot be
/// hidden.
pub proof fn law_hidden_column_comes_back(
    hide: &mut Vec<DownloadColumn>,
    show: &mut Vec<DownloadColumn>,
    kind: DownloadColumnKind,
    i: int,
    hidden: bool,
    shown: bool,
)
    requires
        0 <= i < old(hide)@.len(),
        old(hide)@[i].kind == kind,
        forall|k: int| 0 <= k < i ==> (#[trigger] old(hide)@[k]).kind != kind,
        old(hide)@[i].visible,
        call_ensures(set_column_visible, (hide, kind, false), hidden),
        *old(show) == *final(hide),
        call_ensures(set_column_visible, (show, kind, true), shown),
    ensures
        hidden <==> shown_indexes(old(hide)@).len() > 1,
        hidden ==> !final(hide)@[i].visible && shown && final(show)@ == old(hide)@,
        !hidden ==> final(hide)@ == old(hide)@ && !shown,
        forall|k: int|
            0 <= k < old(hide)@.len() && k != i ==> final(hide)@[k] == #[trigger] old(hide)@[k],
{
    let before = old(hide)@;
    let after = final(hide)@;
    lemma_first_of(before, kind, i);
    if hidden {
        assert(after[i].kind == kind);
        assert forall|k: int| 0 <= k < i implies (#[trigger] after[k]).kind != kind by {
            assert(before[k].kind != kind);
        }
        lemma_first_of(after, kind, i);
        assert(final(show)@ =~= before);
    }
}

/// Every column is kept by its own name and found by it again.
pub proof fn law_column_is_found_by_its_name(kind: DownloadColumnKind, key: &str)
    requires
        call_ensures(DownloadColumnKind::key, (kind,), key),
    ensures
        kind_of_key(key@) == Some(kind),
        kind == DownloadColumnKind::FileName ==> key@ == "file_name"@,
        kind == DownloadColumnKind::Progress ==> key@ == "progress"@,
        kind == DownloadColumnKind::Size ==> key@ == "size"@,
        kind == DownloadColumnKind::Speed ==> key@ == "speed"@,
        kind == DownloadColumnKind::Status ==> key@ == "status"@,
        kind == DownloadColumnKind::Created ==> key@ == "created"@,
        kind == DownloadColumnKind::Queue ==> key@ == "queue"@,
{
    lemma_kind_of_key(kind);
}

/// No column begins narrower than it may become, or wider than any may.
pub proof fn law_columns_begin_within_bounds(kind: DownloadColumnKind, usual: u32, least: u32)
    requires
        call_ensures(DownloadColumnKind::default_width, (kind,), usual),
        call_ensures(DownloadColumnKind::min_width, (kind,), least),
    ensures
        least <= usual <= 480_000,
        least >= 56_000,
{
}

/// A width is kept within its bounds, and left alone where it is.
pub proof fn law_widths_are_kept_within_bounds(w: u32, low: u32, high: u32, kept_width: u32)
    requires
        low <= high,
        call_ensures(clamp, (w, low, high), kept_width),
    ensures
        low <= kept_width <= high,
        low <= w <= high ==> kept_width == w,
        w < low ==> kept_width == low,
        w > high ==> kept_width == high,
{
}

/// Widths that the user drags are taken over within their bounds; hidden columns and the column of
/// file names keep theirs, and nothing but widths changes.
pub proof fn law_dragged_widths_are_taken_over(
    layout: &mut TableLayout,
    widths: &[u32],
    changed: bool,
    p: int,
)
    requires
        call_ensures(TableLayout::sync_column_widths, (layout, widths), changed),
        0 <= p < old(layout).columns@.len(),
    ensures
        final(layout).columns@.len() == old(layout).columns@.len(),
        final(layout).columns@[p].kind == old(layout).columns@[p].kind,
        final(layout).columns@[p].visible == old(layout).columns@[p].visible,
        !old(layout).columns@[p].visible ==> final(layout).columns@[p].width == old(
            layout).columns@[p].width,
        old(layout).columns@[p].kind == DownloadColumnKind::FileName ==> final(
            layout).columns@[p].width == old(layout).columns@[p].width,
        final(layout).columns@[p].width != old(layout).columns@[p].width ==> final(
            layout).columns@[p].kind.least_width() <= final(layout).columns@[p].width <= 480_000 && changed,
        final(layout).viewport_width == old(layout).viewport_width,
{
    let before = old(layout).columns@;
    let after = final(layout).columns@;
    assert(after[p] == synced_column(before, widths@, p));
    let kind = before[p].kind;
    assert(kind.least_width() <= 480_000);
}

/// The column of file names takes what the others leave of the viewport.
pub proof fn law_file_names_take_the_rest(
    layout: &TableLayout,
    viewport: u32,
    width: u32,
)
    requires
        layout.file_name_width is None,
        viewport > 0,
        call_ensures(TableLayout::file_name_width_for, (layout, viewport), width),
    ensures
        width >= 160_000,
        width > 160_000 ==> width + 36_000 + other_widths(layout.columns@) + 8_000
            + layout.scrollbar_width == viewport,
{
}

/// A width that was chosen for the file names is the one they get, within its bounds.
pub proof fn law_chosen_width_is_kept(layout: &TableLayout, viewport: u32, w: u32, width: u32)
    requires
        layout.file_name_width == Some(w),
        call_ensures(TableLayout::file_name_width_for, (layout, viewport), width),
    ensures
        160_000 <= w <= 1_600_000 ==> width == w,
        160_000 <= width <= 1_600_000,
{
}

/// Resetting brings back the columns as they are at the beginning, in whatever state they were, and
/// lets the column of file names follow the viewport again.
pub proof fn law_reset_forgets_all_changes(
    a: &mut TableLayout,
    b: &mut TableLayout,
    width: u32,
    fresh: TableLayout,
)
    requires
        call_ensures(TableLayout::reset_columns, (a,), ()),
        call_ensures(TableLayout::reset_columns, (b,), ()),
        call_ensures(TableLayout::new, (width,), fresh),
    ensures
        final(a).columns@ == final(b).columns@,
        final(a).columns@ == fresh.columns@,
        final(a).file_name_width is None,
        final(a).viewport_width == old(a).viewport_width,
{
}

/// A preference for a column counts: the column is shown or hidden as it says, and as wide as it
/// says unless that is too narrow.
pub proof fn law_preference_counts(pref: ColumnPref, kind: DownloadColumnKind)
    requires
        pref.key@ == kind.key_of(),
    ensures
        column_of_pref(pref) is Some,
        (column_of_pref(pref)->0).kind == kind,
        (column_of_pref(pref)->0).visible == pref.visible,
        pref.width >= kind.least_width() ==> (column_of_pref(pref)->0).width == pref.width,
        pref.width < kind.least_width() ==> (column_of_pref(pref)->0).width == kind.usual_width(),
{
    lemma_kind_of_key(kind);
}

/// The table starts with all columns, five of them shown: name, size, progress, state and the day it
/// was made.
pub proof fn law_first_columns_shown(kind: DownloadColumnKind, shown: bool, numeric: bool)
    requires
        call_ensures(DownloadColumnKind::default_visible, (kind,), shown),
        call_ensures(DownloadColumnKind::is_numeric, (kind,), numeric),
    ensures
        shown <==> kind == DownloadColumnKind::FileName || kind == DownloadColumnKind::Size || kind
            == DownloadColumnKind::Progress || kind == DownloadColumnKind::Status || kind
            == DownloadColumnKind::Created,
        numeric <==> kind == DownloadColumnKind::Size || kind == DownloadColumnKind::Speed || kind
            == DownloadColumnKind::Eta || kind == DownloadColumnKind::Created,
{
}

/// Columns that were kept as preferences come back as they were: as many, in their order, each as wide
/// and as visible as it was.
pub proof fn law_kept_columns_come_back(
    columns: &Vec<DownloadColumn>,
    prefs: Vec<ColumnPref>,
    again: Vec<DownloadColumn>,
)
    requires
        columns_wf(columns@),
        forall|i: int|
            0 <= i < columns@.len() ==> (#[trigger] columns@[i]).width
                >= columns@[i].kind.least_width(),
        call_ensures(column_prefs, (columns,), prefs),
        call_ensures(columns_from_prefs, (&prefs,), again),
    ensures
        again@ == columns@,
{
    law_prefs_round_trip(columns@, prefs@);
}

/// The place of a column is the first of its kind.
pub proof fn law_position_is_the_first(
    columns: &Vec<DownloadColumn>,
    kind: DownloadColumnKind,
    found: Option<usize>,
    i: int,
)
    requires
        call_ensures(position_of, (columns, kind), found),
        0 <= i < columns@.len(),
    ensures
        found is Some ==> columns@[(found->0) as int].kind == kind,
        columns@[i].kind == kind ==> found is Some && found->0 <= i,
{
}

/// As many places as there are shown columns.
pub proof fn law_places_are_counted(
    columns: &Vec<DownloadColumn>,
    places: Vec<usize>,
    n: usize,
    i: int,
)
    requires
        call_ensures(shown_positions, (columns,), places),
        call_ensures(shown_count, (columns,), n),
        0 <= i < places@.len(),
    ensures
        places@.len() == n,
        places@[i] < columns@.len(),
        columns@[places@[i] as int].visible,
{
    lemma_shown_in_order(columns@);
}

/// Moving a column by its kind puts it where the other one stands.
pub proof fn law_kind_is_moved_to_the_other(
    columns: &mut Vec<DownloadColumn>,
    from: DownloadColumnKind,
    to: DownloadColumnKind,
    i: int,
    j: int,
)
    requires
        call_ensures(move_column_kind, (columns, from, to), ()),
        0 <= i < old(columns)@.len(),
        0 <= j < old(columns)@.len(),
        old(columns)@[i].kind == from,
        forall|k: int| 0 <= k < i ==> (#[trigger] old(columns)@[k]).kind != from,
        old(columns)@[j].kind == to,
        forall|k: int| 0 <= k < j ==> (#[trigger] old(columns)@[k]).kind != to,
    ensures
        final(columns)@[j] == old(columns)@[i],
        final(columns)@.remove(j) == old(columns)@.remove(i),
{
    let before = old(columns)@;
    lemma_first_of(before, from, i);
    lemma_first_of(before, to, j);
    law_moved_item_stands_at_its_place(before, i, j);
}

/// A viewport that did not change by much, with the width for it applied, asks for nothing; one that
/// did asks where the column of file names is shown.
pub proof fn law_viewport_asks_when_it_changes(
    set: &mut TableLayout,
    apply: &mut TableLayout,
    viewport: u32,
    asks: bool,
    applied: u32,
    still: bool,
    wanted: u32,
    shows: bool,
)
    requires
        call_ensures(TableLayout::set_viewport_width, (set, viewport), asks),
        call_ensures(TableLayout::file_name_visible, (&*old(set),), shows),
        call_ensures(TableLayout::file_name_width_for, (&*old(set), viewport), wanted),
        *old(apply) == *final(set),
        call_ensures(TableLayout::apply_file_name_width, (apply,), applied),
        call_ensures(TableLayout::viewport_needs_sync, (&*final(apply), viewport), still),
    ensures
        asks ==> shows,
        shows && wanted >= old(set).applied_file_width + 500 ==> asks,
        wanted == old(set).applied_file_width ==> !asks,
        final(set).viewport_width == viewport,
        applied == wanted,
        !still,
{
    let a = *final(set);
    let b = *final(apply);
    assert(a.wanted_file_width(viewport) == old(set).wanted_file_width(viewport));
    assert(b.wanted_file_width(viewport) == applied);
}

/// The bar fills its column, less what stands beside it.
pub proof fn law_bar_fills_its_column(layout: &TableLayout, i: int, width: u32)
    requires
        call_ensures(TableLayout::progress_bar_width, (layout,), width),
        0 <= i < layout.columns@.len(),
        layout.columns@[i].kind == DownloadColumnKind::Progress,
        forall|k: int|
            0 <= k < i ==> (#[trigger] layout.columns@[k]).kind != DownloadColumnKind::Progress,
    ensures
        layout.columns@[i].width >= 56_000 ==> width + 56_000 == layout.columns@[i].width,
        layout.columns@[i].width < 56_000 ==> width == 0,
{
    lemma_first_of(layout.columns@, DownloadColumnKind::Progress, i);
    assert(has_kind(layout.columns@, DownloadColumnKind::Progress));
}

} // verus!
