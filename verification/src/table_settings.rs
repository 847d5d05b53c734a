//! What decides the rows and columns of the task table, and how it changes: labels, names,
//! filter, search, preferences, sort, collapsed groups. Each change that matters marks the rows
//! for being worked out again.

use vstd::prelude::*;

use crate::columns::{
    column_at, columns_from_prefs, columns_of_prefs, default_columns, dragged_width, first_of,
    has_kind, law_move_keeps_columns, law_moved_item_stands_at_its_place,
    law_prefs_give_complete_columns, lemma_all_shown, lemma_first_of, lemma_shown_indexes,
    move_column_kind, move_shown_column, moved, set_column_visible, shown_indexes, synced_column,
    ColumnPref, DownloadColumn, DownloadColumnKind, SortDir, TableLayout, ViewSortKey,
};
use crate::task_table::{
    Density, DeviceAliases, DownloadTableDelegate, TableFilter, TableStrings, ViewGroupBy,
    ViewPrefs, ALL_FILTER,
};
use crate::tasks::{DownloadTaskView, KeySet, TaskStore};
use crate::text::{
    list_contains, lowercase, same, texts, to_lowercase, trim, trimmed,
};

verus! {

pub open spec fn pair_views(pairs: Seq<(String, String)>) -> Seq<(Seq<char>, Seq<char>)> {
    pairs.map_values(|p: (String, String)| (p.0@, p.1@))
}

/// Whether two lists of pairs are the same.
pub fn same_pairs(a: &Vec<(String, String)>, b: &Vec<(String, String)>) -> (r: bool)
    ensures
        r == (pair_views(a@) == pair_views(b@)),
{
    if a.len() != b.len() {
        assert(pair_views(a@).len() != pair_views(b@).len());
        return false;
    }
    let mut i: usize = 0;
    while i < a.len()
        invariant
            i <= a@.len(),
            a@.len() == b@.len(),
            forall|k: int| 0 <= k < i ==> #[trigger] pair_views(a@)[k] == pair_views(b@)[k],
        decreases a@.len() - i,
    {
        if !same(a[i].0.as_str(), b[i].0.as_str()) || !same(a[i].1.as_str(), b[i].1.as_str()) {
            assert(pair_views(a@)[i as int] != pair_views(b@)[i as int]);
            return false;
        }
        i += 1;
    }
    assert(pair_views(a@) =~= pair_views(b@));
    true
}

/// Whether two lists of texts are the same.
pub fn same_lists(a: &Vec<String>, b: &Vec<String>) -> (r: bool)
    ensures
        r == (texts(a@) == texts(b@)),
{
    if a.len() != b.len() {
        assert(texts(a@).len() != texts(b@).len());
        return false;
    }
    let mut i: usize = 0;
    while i < a.len()
        invariant
            i <= a@.len(),
            a@.len() == b@.len(),
            forall|k: int| 0 <= k < i ==> #[trigger] texts(a@)[k] == texts(b@)[k],
        decreases a@.len() - i,
    {
        if !same(a[i].as_str(), b[i].as_str()) {
            assert(texts(a@)[i as int] != texts(b@)[i as int]);
            return false;
        }
        i += 1;
    }
    assert(texts(a@) =~= texts(b@));
    true
}

pub open spec fn alias_views(list: Seq<DeviceAliases>) -> Seq<(Seq<char>, Seq<Seq<char>>)> {
    list.map_values(|d: DeviceAliases| (d.device@, texts(d.aliases@)))
}

/// Whether two lists of devices with their other names are the same.
pub fn same_aliases(a: &Vec<DeviceAliases>, b: &Vec<DeviceAliases>) -> (r: bool)
    ensures
        r == (alias_views(a@) == alias_views(b@)),
{
    if a.len() != b.len() {
        assert(alias_views(a@).len() != alias_views(b@).len());
        return false;
    }
    let mut i: usize = 0;
    while i < a.len()
        invariant
            i <= a@.len(),
            a@.len() == b@.len(),
            forall|k: int| 0 <= k < i ==> #[trigger] alias_views(a@)[k] == alias_views(b@)[k],
        decreases a@.len() - i,
    {
        if !same(a[i].device.as_str(), b[i].device.as_str()) || !same_lists(
            &a[i].aliases,
            &b[i].aliases,
        ) {
            assert(alias_views(a@)[i as int] != alias_views(b@)[i as int]);
            return false;
        }
        i += 1;
    }
    assert(alias_views(a@) =~= alias_views(b@));
    true
}

/// What a filter says.
pub enum FilterView {
    Download(Seq<char>),
    Queue(Seq<char>),
    LocalDevice,
    Device(Seq<char>),
    Group(Seq<char>),
}

impl View for TableFilter {
    type V = FilterView;

    open spec fn view(&self) -> FilterView {
        match self {
            TableFilter::Download(id) => FilterView::Download(id@),
            TableFilter::Queue(id) => FilterView::Queue(id@),
            TableFilter::LocalDevice => FilterView::LocalDevice,
            TableFilter::Device(id) => FilterView::Device(id@),
            TableFilter::Group(id) => FilterView::Group(id@),
        }
    }
}

impl TableFilter {
    /// Whether the two filters say the same.
    pub fn is(&self, other: &TableFilter) -> (r: bool)
        ensures
            r == (self@ == other@),
    {
        match (self, other) {
            (TableFilter::Download(a), TableFilter::Download(b)) => same(a.as_str(), b.as_str()),
            (TableFilter::LocalDevice, TableFilter::LocalDevice) => true,
            (TableFilter::Queue(a), TableFilter::Queue(b)) => same(a.as_str(), b.as_str()),
            (TableFilter::Device(a), TableFilter::Device(b)) => same(a.as_str(), b.as_str()),
            (TableFilter::Group(a), TableFilter::Group(b)) => same(a.as_str(), b.as_str()),
            _ => false,
        }
    }
}

pub open spec fn pref_views(prefs: Seq<ColumnPref>) -> Seq<(Seq<char>, bool, u32)> {
    prefs.map_values(|p: ColumnPref| (p.key@, p.visible, p.width))
}

fn same_column_prefs(a: &Vec<ColumnPref>, b: &Vec<ColumnPref>) -> (r: bool)
    ensures
        r == (pref_views(a@) == pref_views(b@)),
{
    if a.len() != b.len() {
        assert(pref_views(a@).len() != pref_views(b@).len());
        return false;
    }
    let mut i: usize = 0;
    while i < a.len()
        invariant
            i <= a@.len(),
            a@.len() == b@.len(),
            forall|k: int| 0 <= k < i ==> #[trigger] pref_views(a@)[k] == pref_views(b@)[k],
        decreases a@.len() - i,
    {
        if a[i].visible != b[i].visible || a[i].width != b[i].width || !same(
            a[i].key.as_str(),
            b[i].key.as_str(),
        ) {
            assert(pref_views(a@)[i as int] != pref_views(b@)[i as int]);
            return false;
        }
        i += 1;
    }
    assert(pref_views(a@) =~= pref_views(b@));
    true
}

impl ViewPrefs {
    /// Whether the two say the same.
    pub open spec fn alike(&self, other: &ViewPrefs) -> bool {
        &&& self.group_by == other.group_by
        &&& self.sort_key == other.sort_key
        &&& self.sort_dir == other.sort_dir
        &&& self.density == other.density
        &&& texts(self.collapsed@) == texts(other.collapsed@)
        &&& pref_views(self.columns@) == pref_views(other.columns@)
        &&& self.file_name_width == other.file_name_width
    }

    pub fn is(&self, other: &ViewPrefs) -> (r: bool)
        ensures
            r == self.alike(other),
    {
        let widths: bool = match (self.file_name_width, other.file_name_width) {
            (Some(a), Some(b)) => a == b,
            (None, None) => true,
            _ => false,
        };
        self.group_by == other.group_by && self.sort_key == other.sort_key && self.sort_dir
            == other.sort_dir && self.density == other.density && widths && same_lists(
            &self.collapsed,
            &other.collapsed,
        ) && same_column_prefs(&self.columns, &other.columns)
    }
}

/// The height of a row until the user chooses another density, in thousandths of a pixel.
pub const DEFAULT_ROW_HEIGHT: u32 = 36_000;

impl Default for ViewPrefs {
    fn default() -> (r: Self)
        ensures
            r.group_by == ViewGroupBy::Off,
            r.sort_key == ViewSortKey::Smart,
            r.sort_dir == SortDir::Desc,
            r.density == (Density { two_line: false, row_height: DEFAULT_ROW_HEIGHT }),
            r.collapsed@.len() == 0,
            r.columns@.len() == 0,
            r.file_name_width is None,
    {
        ViewPrefs {
            group_by: ViewGroupBy::Off,
            sort_key: ViewSortKey::Smart,
            sort_dir: SortDir::Desc,
            density: Density { two_line: false, row_height: DEFAULT_ROW_HEIGHT },
            collapsed: Vec::new(),
            columns: Vec::new(),
            file_name_width: None,
        }
    }
}

/// What the sidebar has chosen.
#[derive(Debug, PartialEq, Eq)]
pub enum SidebarSelection {
    /// A download filter, by its identifier.
    Download(String),
    Queue(String),
    LocalDevice,
    Device(String),
}

/// The filter for what the sidebar has chosen.
pub fn filter_for(selection: &SidebarSelection) -> (r: TableFilter)
    ensures
        r@ == match *selection {
            SidebarSelection::Download(id) => FilterView::Download(id@),
            SidebarSelection::Queue(id) => FilterView::Queue(id@),
            SidebarSelection::LocalDevice => FilterView::LocalDevice,
            SidebarSelection::Device(id) => FilterView::Device(id@),
        },
{
    match selection {
        SidebarSelection::Download(id) => TableFilter::Download(id.clone()),
        SidebarSelection::Queue(id) => TableFilter::Queue(id.clone()),
        SidebarSelection::LocalDevice => TableFilter::LocalDevice,
        SidebarSelection::Device(id) => TableFilter::Device(id.clone()),
    }
}

impl DownloadTableDelegate {
    /// A table that shows nothing yet.
    pub fn new(strings: TableStrings, scrollbar_width: u32) -> (r: DownloadTableDelegate)
        ensures
            r.wf(),
            r.strings == strings,
            r.layout.columns@ == default_columns(),
            r.layout.scrollbar_width == scrollbar_width,
            r.layout.viewport_width == 0,
            r.layout.applied_file_width == 0,
            r.visible@.len() == 0,
            r.seen_generation == u64::MAX,
            r.view_dirty,
            !r.columns_dirty,
            r.selected_tasks@ == Set::<(bool, Seq<char>)>::empty(),
            r.selection_anchor is None,
            r.filter@ == FilterView::Download(ALL_FILTER@),
            r.query@ == Seq::<char>::empty(),
            r.prefs.group_by == ViewGroupBy::Off,
            r.prefs.sort_key == ViewSortKey::Smart,
            r.prefs.sort_dir == SortDir::Desc,
            r.prefs.file_name_width is None,
            r.prefs.columns@.len() == 0,
            r.prefs.collapsed@.len() == 0,
            r.prefs.density == (Density { two_line: false, row_height: DEFAULT_ROW_HEIGHT }),
            r.categories@.len() == 0,
            r.queue_names@.len() == 0,
            r.group_names@.len() == 0,
            r.device_aliases@.len() == 0,
    {
        DownloadTableDelegate {
            strings,
            layout: TableLayout::new(scrollbar_width),
            visible: Vec::new(),
            seen_generation: u64::MAX,
            view_dirty: true,
            columns_dirty: false,
            selected_tasks: KeySet::new(),
            selection_anchor: None,
            filter: TableFilter::Download(ALL_FILTER.to_owned()),
            query: String::new(),
            prefs: ViewPrefs::default(),
            categories: Vec::new(),
            queue_names: Vec::new(),
            group_names: Vec::new(),
            device_aliases: Vec::new(),
        }
    }

    pub fn set_strings(&mut self, strings: TableStrings)
        ensures
            *final(self) == (DownloadTableDelegate { strings, view_dirty: true, ..*old(self) }),
    {
        self.strings = strings;
        self.view_dirty = true;
    }

    pub fn set_categories(&mut self, categories: Vec<(String, String)>)
        ensures
            *final(self) == if pair_views(old(self).categories@) == pair_views(categories@) {
                *old(self)
            } else {
                DownloadTableDelegate { categories, view_dirty: true, ..*old(self) }
            },
    {
        if !same_pairs(&self.categories, &categories) {
            self.categories = categories;
            self.view_dirty = true;
        }
    }

    pub fn set_queue_names(&mut self, queues: Vec<(String, String)>)
        ensures
            *final(self) == if pair_views(old(self).queue_names@) == pair_views(queues@) {
                *old(self)
            } else {
                DownloadTableDelegate { queue_names: queues, view_dirty: true, ..*old(self) }
            },
    {
        if !same_pairs(&self.queue_names, &queues) {
            self.queue_names = queues;
            self.view_dirty = true;
        }
    }

    pub fn set_group_names(&mut self, groups: Vec<(String, String)>)
        ensures
            *final(self) == if pair_views(old(self).group_names@) == pair_views(groups@) {
                *old(self)
            } else {
                DownloadTableDelegate { group_names: groups, view_dirty: true, ..*old(self) }
            },
    {
        if !same_pairs(&self.group_names, &groups) {
            self.group_names = groups;
            self.view_dirty = true;
        }
    }

    pub fn set_device_aliases(&mut self, aliases: Vec<DeviceAliases>)
        ensures
            *final(self) == if alias_views(old(self).device_aliases@) == alias_views(aliases@) {
                *old(self)
            } else {
                DownloadTableDelegate { device_aliases: aliases, view_dirty: true, ..*old(self) }
            },
    {
        if !same_aliases(&self.device_aliases, &aliases) {
            self.device_aliases = aliases;
            self.view_dirty = true;
        }
    }

    pub fn set_filter(&mut self, filter: TableFilter)
        ensures
            *final(self) == if old(self).filter@ == filter@ {
                *old(self)
            } else {
                DownloadTableDelegate { filter, view_dirty: true, ..*old(self) }
            },
    {
        if !self.filter.is(&filter) {
            self.filter = filter;
            self.view_dirty = true;
        }
    }

    /// Searches for a text, white space around it and capitals left out of account.
    pub fn set_query(&mut self, query: &str)
        ensures
            final(self).query@ == lowercase(trimmed(query@)),
            ({
                let changed = old(self).query@ != lowercase(trimmed(query@));
                *final(self) == (DownloadTableDelegate {
                    query: final(self).query,
                    view_dirty: old(self).view_dirty || changed,
                    ..*old(self)
                })
            }),
    {
        let wanted = trim(query);
        let wanted = to_lowercase(wanted.as_str());
        if !same(self.query.as_str(), wanted.as_str()) {
            self.query = wanted;
            self.view_dirty = true;
        }
    }

    /// Takes over new preferences; the columns follow them unless they name none.
    pub fn set_prefs(&mut self, prefs: ViewPrefs)
        requires
            old(self).wf(),
        ensures
            final(self).wf(),
            old(self).prefs.alike(&prefs) ==> *final(self) == *old(self),
            !old(self).prefs.alike(&prefs) ==> {
                &&& final(self).prefs == prefs
                &&& final(self).view_dirty
                &&& final(self).columns_dirty
                &&& final(self).layout.columns@ == if prefs.columns@.len() == 0 {
                    old(self).layout.columns@
                } else {
                    columns_of_prefs(prefs.columns@)
                }
                &&& final(self).layout.file_name_width == prefs.file_name_width
                &&& final(self).layout.viewport_width == old(self).layout.viewport_width
                &&& final(self).layout.applied_file_width == old(self).layout.applied_file_width
                &&& final(self).layout.scrollbar_width == old(self).layout.scrollbar_width
                &&& *final(self) == (DownloadTableDelegate {
                    prefs: final(self).prefs,
                    layout: final(self).layout,
                    view_dirty: true,
                    columns_dirty: true,
                    ..*old(self)
                })
            },
    {
        if self.prefs.is(&prefs) {
            return;
        }
        if prefs.columns.len() > 0 {
            self.layout.columns = columns_from_prefs(&prefs.columns);
            proof {
                law_prefs_give_complete_columns(prefs.columns@);
            }
        }
        self.layout.file_name_width = prefs.file_name_width;
        self.columns_dirty = true;
        self.prefs = prefs;
        self.view_dirty = true;
    }

    /// Whether the table's head must be built again; asking clears it.
    pub fn take_columns_dirty(&mut self) -> (r: bool)
        ensures
            r == old(self).columns_dirty,
            *final(self) == (DownloadTableDelegate { columns_dirty: false, ..*old(self) }),
    {
        let dirty: bool = self.columns_dirty;
        self.columns_dirty = false;
        dirty
    }

    /// Takes a click on the head of a column, and says whether the sort changed: the sort in
    /// force turns round, unless it has no direction; another column sorts by its own key, in
    /// its first direction.
    pub fn toggle_sort(&mut self, kind: DownloadColumnKind) -> (r: bool)
        ensures
            match kind.sorts_by() {
                None => !r && *final(self) == *old(self),
                Some(key) => if old(self).prefs.sort_key == key && key == ViewSortKey::Smart {
                    !r && *final(self) == *old(self)
                } else {
                    &&& r
                    &&& final(self).prefs.sort_key == key
                    &&& final(self).prefs.sort_dir == if old(self).prefs.sort_key == key {
                        if old(self).prefs.sort_dir == SortDir::Asc {
                            SortDir::Desc
                        } else {
                            SortDir::Asc
                        }
                    } else {
                        kind.first_dir()
                    }
                    &&& *final(self) == (DownloadTableDelegate {
                        prefs: ViewPrefs {
                            sort_key: final(self).prefs.sort_key,
                            sort_dir: final(self).prefs.sort_dir,
                            ..old(self).prefs
                        },
                        view_dirty: true,
                        ..*old(self)
                    })
                },
            },
    {
        match kind.sort_key() {
            None => false,
            Some(key) => {
                if self.prefs.sort_key == key {
                    if key == ViewSortKey::Smart {
                        return false;
                    }
                    self.prefs.sort_dir = match self.prefs.sort_dir {
                        SortDir::Asc => SortDir::Desc,
                        SortDir::Desc => SortDir::Asc,
                    };
                } else {
                    self.prefs.sort_key = key;
                    self.prefs.sort_dir = kind.default_sort_dir();
                }
                self.view_dirty = true;
                true
            },
        }
    }

    /// Collapses a group, or opens it where it is collapsed.
    pub fn toggle_group_collapsed(&mut self, key: &str)
        ensures
            forall|k: Seq<char>| #[trigger]
                final(self).is_collapsed(k) == if k == key@ {
                    !old(self).is_collapsed(k)
                } else {
                    old(self).is_collapsed(k)
                },
            *final(self) == (DownloadTableDelegate {
                prefs: ViewPrefs { collapsed: final(self).prefs.collapsed, ..old(self).prefs },
                view_dirty: true,
                ..*old(self)
            }),
    {
        let ghost before = texts(self.prefs.collapsed@);
        if list_contains(&self.prefs.collapsed, key) {
            let mut kept: Vec<String> = Vec::new();
            let mut i: usize = 0;
            while i < self.prefs.collapsed.len()
                invariant
                    i <= self.prefs.collapsed@.len(),
                    before == texts(self.prefs.collapsed@),
                    forall|k: Seq<char>| #[trigger]
                        texts(kept@).contains(k) <==> k != key@ && before.take(i as int).contains(
                            k,
                        ),
                decreases self.prefs.collapsed@.len() - i,
            {
                let entry = &self.prefs.collapsed[i];
                let ghost was = texts(kept@);
                assert(before.take(i + 1) =~= before.take(i as int).push(entry@));
                if !same(entry.as_str(), key) {
                    kept.push(entry.clone());
                    assert(texts(kept@) =~= was.push(entry@));
                }
                proof {
                    lemma_push_contains(before.take(i as int), entry@);
                    lemma_push_contains(was, entry@);
                }
                i += 1;
            }
            assert(before.take(i as int) =~= before);
            self.prefs.collapsed = kept;
        } else {
            self.prefs.collapsed.push(key.to_owned());
            proof {
                assert(texts(self.prefs.collapsed@) =~= before.push(key@));
                lemma_push_contains(before, key@);
            }
        }
        self.view_dirty = true;
    }

    /// Takes over the widths to which the user dragged the columns; see
    /// [`TableLayout::sync_column_widths`].
    pub fn sync_column_widths(&mut self, widths: &[u32]) -> (r: bool)
        requires
            old(self).wf(),
        ensures
            final(self).wf(),
            ({
                let before = old(self).layout.columns@;
                let after = final(self).layout.columns@;
                let dragged = dragged_width(
                    before,
                    widths@,
                    old(self).layout.applied_file_width,
                    before.len() as int,
                );
                &&& after.len() == before.len()
                &&& forall|p: int|
                    0 <= p < after.len() ==> #[trigger] after[p] == synced_column(
                        before,
                        widths@,
                        p,
                    )
                &&& final(self).prefs.file_name_width == match dragged {
                    Some(w) => Some(w),
                    None => old(self).prefs.file_name_width,
                }
                &&& final(self).layout.applied_file_width == match dragged {
                    Some(w) => w,
                    None => old(self).layout.applied_file_width,
                }
                &&& r == (dragged is Some || after != before)
                &&& only_layout_differs(final(self), old(self))
            }),
    {
        let changed: bool = self.layout.sync_column_widths(widths);
        self.prefs.file_name_width = self.layout.file_name_width;
        changed
    }

    /// Puts the columns back as they stand by default.
    pub fn reset_columns(&mut self)
        requires
            old(self).wf(),
        ensures
            final(self).wf(),
            final(self).layout.columns@ == default_columns(),
            final(self).prefs.file_name_width is None,
            final(self).layout.applied_file_width == old(self).layout.applied_file_width,
            only_layout_differs(final(self), old(self)),
    {
        self.layout.reset_columns();
        self.prefs.file_name_width = None;
    }

    /// Moves a shown column to the place of another; both are indexes of the table.
    pub fn move_column(&mut self, col_ix: usize, to_ix: usize)
        requires
            old(self).wf(),
        ensures
            final(self).wf(),
            ({
                let before = old(self).layout.columns@;
                let shown = shown_indexes(before);
                final(self).layout.columns@ == if 1 <= col_ix <= shown.len() && 1 <= to_ix
                    <= shown.len() {
                    moved(before, shown[col_ix - 1], shown[to_ix - 1])
                } else {
                    before
                }
            }),
            only_columns_differ(final(self), old(self)),
    {
        let ghost before = self.layout.columns@;
        move_shown_column(&mut self.layout.columns, col_ix, to_ix);
        proof {
            lemma_shown_indexes(before);
            let shown = shown_indexes(before);
            if 1 <= col_ix <= shown.len() && 1 <= to_ix <= shown.len() {
                law_move_keeps_columns(before, shown[col_ix - 1], shown[to_ix - 1]);
            }
        }
    }

    /// Moves a column to the place of another, shown or not.
    pub fn move_column_kind(&mut self, from: DownloadColumnKind, to: DownloadColumnKind)
        requires
            old(self).wf(),
        ensures
            final(self).wf(),
            ({
                let before = old(self).layout.columns@;
                let i = first_of(before, from);
                let j = first_of(before, to);
                final(self).layout.columns@ == if has_kind(before, from) && has_kind(before, to)
                    && i != j {
                    moved(before, i, j)
                } else {
                    before
                }
            }),
            only_columns_differ(final(self), old(self)),
    {
        let ghost before = self.layout.columns@;
        move_column_kind(&mut self.layout.columns, from, to);
        proof {
            let i = first_of(before, from);
            let j = first_of(before, to);
            lemma_first_in(before, from);
            lemma_first_in(before, to);
            if has_kind(before, from) && has_kind(before, to) && i != j {
                law_move_keeps_columns(before, i, j);
            }
        }
    }

    /// Shows or hides a column, and says whether anything changed; the last column that is shown
    /// stays.
    pub fn set_column_visible(&mut self, kind: DownloadColumnKind, visible: bool) -> (r: bool)
        requires
            old(self).wf(),
        ensures
            final(self).wf(),
            ({
                let before = old(self).layout.columns@;
                let i = first_of(before, kind);
                &&& r == (before[i].visible != visible && (visible || shown_indexes(before).len()
                    > 1))
                &&& final(self).layout.columns@ == if r {
                    before.update(i, (DownloadColumn { visible, ..before[i] }))
                } else {
                    before
                }
            }),
            only_columns_differ(final(self), old(self)),
    {
        set_column_visible(&mut self.layout.columns, kind, visible)
    }
}

/// Whether two tables differ in nothing but the widths and places of their columns.
pub open spec fn only_layout_differs(a: &DownloadTableDelegate, b: &DownloadTableDelegate) -> bool {
    &&& *a == (DownloadTableDelegate {
        layout: a.layout,
        prefs: ViewPrefs { file_name_width: a.prefs.file_name_width, ..b.prefs },
        ..*b
    })
    &&& a.layout.viewport_width == b.layout.viewport_width
    &&& a.layout.scrollbar_width == b.layout.scrollbar_width
    &&& a.layout.file_name_width == a.prefs.file_name_width
}

/// Whether two tables differ in nothing but their columns.
pub open spec fn only_columns_differ(a: &DownloadTableDelegate, b: &DownloadTableDelegate) -> bool {
    *a == (DownloadTableDelegate {
        layout: TableLayout { columns: a.layout.columns, ..b.layout },
        ..*b
    })
}

proof fn lemma_first_in(columns: Seq<DownloadColumn>, kind: DownloadColumnKind)
    ensures
        has_kind(columns, kind) ==> 0 <= first_of(columns, kind) < columns.len(),
    decreases columns.len(),
{
    if has_kind(columns, kind) && columns[0].kind != kind {
        let k = choose|k: int| 0 <= k < columns.len() && (#[trigger] columns[k]).kind == kind;
        let rest = columns.drop_first();
        assert(rest[k - 1].kind == kind);
        lemma_first_in(rest, kind);
    }
}

proof fn lemma_push_contains(s: Seq<Seq<char>>, x: Seq<char>)
    ensures
        forall|k: Seq<char>| #[trigger] s.push(x).contains(k) <==> s.contains(k) || k == x,
{
    assert forall|k: Seq<char>| #[trigger] s.push(x).contains(k) <==> s.contains(k) || k == x by {
        if s.contains(k) {
            let i = choose|i: int| 0 <= i < s.len() && s[i] == k;
            assert(s.push(x)[i] == k);
        }
        if s.push(x).contains(k) {
            let i = choose|i: int| 0 <= i < s.push(x).len() && s.push(x)[i] == k;
            if i < s.len() {
                assert(s[i] == k);
            }
        }
        assert(s.push(x)[s.len() as int] == x);
    }
}

/// How many of the first `n` tasks of a list are in a queue.
pub open spec fn queued_count(local: Seq<DownloadTaskView>, queue_id: Seq<char>, n: int) -> nat
    decreases n,
{
    if n <= 0 {
        0
    } else {
        queued_count(local, queue_id, n - 1) + if local[n - 1].queue_id@ == queue_id {
            1nat
        } else {
            0
        }
    }
}

/// How many local tasks are in a queue.
pub fn count_in_queue(store: &TaskStore, queue_id: &str) -> (r: usize)
    ensures
        r == queued_count(store.local@, queue_id@, store.local@.len() as int),
{
    let mut r: usize = 0;
    let mut i: usize = 0;
    while i < store.local.len()
        invariant
            i <= store.local@.len(),
            r <= i,
            r == queued_count(store.local@, queue_id@, i as int),
        decreases store.local@.len() - i,
    {
        if same(store.local[i].queue_id.as_str(), queue_id) {
            r += 1;
        }
        i += 1;
    }
    r
}

/// How many of the first `n` tasks a download filter takes.
pub open spec fn accepted_count(all: Seq<DownloadTaskView>, filter: Seq<char>, n: int) -> nat
    decreases n,
{
    if n <= 0 {
        0
    } else {
        accepted_count(all, filter, n - 1) + if all[n - 1].passes(filter) {
            1nat
        } else {
            0
        }
    }
}

/// How many tasks the download filter with an identifier takes.
pub fn count_matching(store: &TaskStore, filter: &str) -> (r: usize)
    requires
        store.all().len() <= usize::MAX,
    ensures
        r == accepted_count(store.all(), filter@, store.all().len() as int),
{
    let mut r: usize = 0;
    let mut i: usize = 0;
    while i < store.local.len()
        invariant
            i <= store.local@.len(),
            r <= i,
            r == accepted_count(store.all(), filter@, i as int),
        decreases store.local@.len() - i,
    {
        assert(store.all()[i as int] == store.local@[i as int]);
        if list_contains(&store.local[i].accepted_by, filter) {
            r += 1;
        }
        i += 1;
    }
    let ghost n = store.local@.len() as int;
    let mut j: usize = 0;
    while j < store.remote.len()
        invariant
            j <= store.remote@.len(),
            n == store.local@.len(),
            store.all().len() <= usize::MAX,
            r <= n + j,
            r == accepted_count(store.all(), filter@, n + j),
        decreases store.remote@.len() - j,
    {
        assert(store.all()[n + j] == store.remote@[j as int]);
        if list_contains(&store.remote[j].accepted_by, filter) {
            r += 1;
        }
        j += 1;
    }
    r
}

/// Names and words that are set are the ones in force, and where they differ from those before, the
/// rows are worked out anew; the same ones again change nothing.
pub proof fn law_set_names_are_in_force(
    d: &mut DownloadTableDelegate,
    again: &mut DownloadTableDelegate,
    queues: Vec<(String, String)>,
)
    requires
        call_ensures(DownloadTableDelegate::set_queue_names, (d, queues), ()),
        *old(again) == *final(d),
        call_ensures(DownloadTableDelegate::set_queue_names, (again, queues), ()),
    ensures
        pair_views(final(d).queue_names@) == pair_views(queues@),
        pair_views(old(d).queue_names@) != pair_views(queues@) ==> final(d).view_dirty,
        pair_views(old(d).queue_names@) == pair_views(queues@) ==> *final(d) == *old(d),
        *final(again) == *final(d),
        final(d).categories == old(d).categories,
        final(d).group_names == old(d).group_names,
{
}

/// The categories, the groups and the other names of devices are set alike, each apart from the
/// others.
pub proof fn law_categories_groups_and_devices_are_set_apart(
    a: &mut DownloadTableDelegate,
    b: &mut DownloadTableDelegate,
    c: &mut DownloadTableDelegate,
    categories: Vec<(String, String)>,
    groups: Vec<(String, String)>,
    aliases: Vec<DeviceAliases>,
)
    requires
        call_ensures(DownloadTableDelegate::set_categories, (a, categories), ()),
        call_ensures(DownloadTableDelegate::set_group_names, (b, groups), ()),
        call_ensures(DownloadTableDelegate::set_device_aliases, (c, aliases), ()),
    ensures
        pair_views(final(a).categories@) == pair_views(categories@),
        final(a).queue_names == old(a).queue_names && final(a).group_names == old(a).group_names,
        pair_views(old(a).categories@) != pair_views(categories@) ==> final(a).view_dirty,
        pair_views(final(b).group_names@) == pair_views(groups@),
        final(b).queue_names == old(b).queue_names && final(b).categories == old(b).categories,
        pair_views(old(b).group_names@) != pair_views(groups@) ==> final(b).view_dirty,
        alias_views(final(c).device_aliases@) == alias_views(aliases@),
        final(c).queue_names == old(c).queue_names && final(c).filter == old(c).filter,
        alias_views(old(c).device_aliases@) != alias_views(aliases@) ==> final(c).view_dirty,
{
}

/// Two lists of pairs are the same where they are of one length and each pair is the other's.
pub proof fn law_same_pairs_are_the_same(
    a: &Vec<(String, String)>,
    b: &Vec<(String, String)>,
    alike: bool,
    i: int,
)
    requires
        call_ensures(same_pairs, (a, b), alike),
        0 <= i < a@.len(),
    ensures
        alike ==> a@.len() == b@.len() && a@[i].0@ == b@[i].0@ && a@[i].1@ == b@[i].1@,
        a@.len() == b@.len() && (forall|k: int|
            0 <= k < a@.len() ==> (#[trigger] a@[k]).0@ == b@[k].0@ && a@[k].1@ == b@[k].1@)
            ==> alike,
{
    let x = pair_views(a@);
    let y = pair_views(b@);
    assert(x.len() == a@.len() && y.len() == b@.len());
    if alike {
        assert(x[i] == y[i]);
    }
    if a@.len() == b@.len() && (forall|k: int|
        0 <= k < a@.len() ==> (#[trigger] a@[k]).0@ == b@[k].0@ && a@[k].1@ == b@[k].1@) {
        assert forall|k: int| 0 <= k < x.len() implies x[k] == y[k] by {
            assert(a@[k].0@ == b@[k].0@);
        }
        assert(x =~= y);
    }
}

/// Preferences that are set are in force: grouping, sorting, density and width are theirs, and their
/// columns where they name any; filter, search and selection stay.
pub proof fn law_set_preferences_are_in_force(d: &mut DownloadTableDelegate, prefs: ViewPrefs)
    requires
        call_ensures(DownloadTableDelegate::set_prefs, (d, prefs), ()),
    ensures
        final(d).prefs.group_by == prefs.group_by,
        final(d).prefs.sort_key == prefs.sort_key,
        final(d).prefs.sort_dir == prefs.sort_dir,
        final(d).prefs.density == prefs.density,
        final(d).prefs.file_name_width == prefs.file_name_width,
        texts(final(d).prefs.collapsed@) == texts(prefs.collapsed@),
        !old(d).prefs.alike(&prefs) ==> final(d).view_dirty && final(d).columns_dirty,
        !old(d).prefs.alike(&prefs) && prefs.columns@.len() == 0 ==> final(d).layout.columns@ == old(
            d).layout.columns@,
        !old(d).prefs.alike(&prefs) && prefs.columns@.len() > 0 ==> final(d).layout.columns@
            == columns_of_prefs(prefs.columns@),
        final(d).filter == old(d).filter,
        final(d).query == old(d).query,
        final(d).selected_tasks == old(d).selected_tasks,
{
}

/// Preferences that differ in anything are not alike.
pub proof fn law_alike_preferences_agree(a: &ViewPrefs, b: &ViewPrefs, alike: bool)
    requires
        call_ensures(ViewPrefs::is, (a, b), alike),
    ensures
        a.group_by != b.group_by ==> !alike,
        a.sort_key != b.sort_key ==> !alike,
        a.sort_dir != b.sort_dir ==> !alike,
        a.density != b.density ==> !alike,
        a.file_name_width != b.file_name_width ==> !alike,
        texts(a.collapsed@) != texts(b.collapsed@) ==> !alike,
        a.columns@.len() != b.columns@.len() ==> !alike,
        *a == *b ==> alike,
{
    assert(pref_views(a.columns@).len() == a.columns@.len());
    assert(pref_views(b.columns@).len() == b.columns@.len());
}

/// That the columns changed is told once.
pub proof fn law_changed_columns_are_told_once(
    first: &mut DownloadTableDelegate,
    second: &mut DownloadTableDelegate,
    told: bool,
    again: bool,
)
    requires
        call_ensures(DownloadTableDelegate::take_columns_dirty, (first,), told),
        *old(second) == *final(first),
        call_ensures(DownloadTableDelegate::take_columns_dirty, (second,), again),
    ensures
        told == old(first).columns_dirty,
        !again,
        final(first).layout == old(first).layout,
{
}

/// Words that are set are in force, and the rows are worked out anew.
pub proof fn law_set_words_are_in_force(d: &mut DownloadTableDelegate, strings: TableStrings)
    requires
        call_ensures(DownloadTableDelegate::set_strings, (d, strings), ()),
    ensures
        final(d).strings == strings,
        final(d).view_dirty,
        final(d).filter == old(d).filter && final(d).query == old(d).query,
{
}

/// Moving a column by its kind puts it where the other stands; neither the rows nor anything else of
/// the table changes.
pub proof fn law_column_is_moved_by_its_kind(
    d: &mut DownloadTableDelegate,
    from: DownloadColumnKind,
    to: DownloadColumnKind,
    i: int,
    j: int,
)
    requires
        call_ensures(DownloadTableDelegate::move_column_kind, (d, from, to), ()),
        0 <= i < old(d).layout.columns@.len(),
        0 <= j < old(d).layout.columns@.len(),
        old(d).layout.columns@[i].kind == from,
        forall|k: int| 0 <= k < i ==> (#[trigger] old(d).layout.columns@[k]).kind != from,
        old(d).layout.columns@[j].kind == to,
        forall|k: int| 0 <= k < j ==> (#[trigger] old(d).layout.columns@[k]).kind != to,
    ensures
        final(d).layout.columns@.len() == old(d).layout.columns@.len(),
        final(d).layout.columns@[j] == old(d).layout.columns@[i],
        final(d).layout.columns@.remove(j) == old(d).layout.columns@.remove(i),
        final(d).visible == old(d).visible,
        final(d).prefs == old(d).prefs,
{
    let before = old(d).layout.columns@;
    lemma_first_of(before, from, i);
    lemma_first_of(before, to, j);
    law_moved_item_stands_at_its_place(before, i, j);
}

/// Moving a shown column by its place puts it at the other place; a place that shows none changes
/// nothing.
pub proof fn law_column_is_moved_by_its_place(
    d: &mut DownloadTableDelegate,
    col_ix: usize,
    to_ix: usize,
    from: DownloadColumn,
)
    requires
        call_ensures(DownloadTableDelegate::move_column, (d, col_ix, to_ix), ()),
        forall|i: int|
            0 <= i < old(d).layout.columns@.len() ==> (#[trigger] old(d).layout.columns@[i]).visible,
        column_at(old(d).layout.columns@, col_ix as int) == Some(from),
        1 <= to_ix <= old(d).layout.columns@.len(),
    ensures
        column_at(final(d).layout.columns@, to_ix as int) == Some(from),
        final(d).prefs == old(d).prefs,
        final(d).visible == old(d).visible,
{
    let before = old(d).layout.columns@;
    let after = final(d).layout.columns@;
    lemma_all_shown(before);
    let i = col_ix - 1;
    let j = to_ix - 1;
    assert(shown_indexes(before)[i] == i && shown_indexes(before)[j] == j);
    law_moved_item_stands_at_its_place(before, i, j);
    law_move_keeps_columns(before, i, j);
    assert forall|k: int| 0 <= k < after.len() implies (#[trigger] after[k]).visible by {
        if k == j {
            assert(after[k] == before[i]);
        } else {
            let m = if k < j {
                k
            } else {
                k - 1
            };
            assert(after.remove(j)[m] == after[k]);
            assert(before.remove(i)[m] == after[k]);
            if m < i {
                assert(before[m] == after[k]);
            } else {
                assert(before[m + 1] == after[k]);
            }
        }
    }
    lemma_all_shown(after);
    assert(shown_indexes(after)[j] == j);
}

} // verus!
