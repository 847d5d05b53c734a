//! The task table: which tasks it shows, in what order and under which group headers, which of
//! them are selected, and what its cells say.

use vstd::prelude::*;

use crate::columns::{ColumnPref, SortDir, TableLayout, ViewSortKey};
use crate::order::{
    lemma_stable_order_distinct, lemma_text_total, lemma_text_transitive, stable_order,
    stable_sort, stands_before, text_before, text_less, weak_order,
};
use crate::tasks::{
    key_views, DownloadTaskView, KeySet, RowId, RowKey, TaskSource, TaskState, TaskStore,
};
use crate::text::{
    concat, contains_part, find_key, has_part, index_of_key, list_contains, lowercase, same, texts,
    to_lowercase, value_of,
};

verus! {

/// What the rows are grouped by.
#[derive(Clone, Copy, Debug, PartialEq, Eq, Structural)]
pub enum ViewGroupBy {
    Off,
    Status,
    Date,
    Type,
    Queue,
    Site,
    Group,
}

/// How closely the rows stand. Two densities with as many lines may differ in height.
#[derive(Clone, Copy, Debug, PartialEq, Eq, Structural)]
pub struct Density {
    /// Whether a row has two lines.
    pub two_line: bool,
    /// The height of a row, in thousandths of a pixel.
    pub row_height: u32,
}

/// What the user chose for the table.
#[derive(Debug)]
pub struct ViewPrefs {
    pub group_by: ViewGroupBy,
    pub sort_key: ViewSortKey,
    pub sort_dir: SortDir,
    pub density: Density,
    /// The keys of the collapsed groups.
    pub collapsed: Vec<String>,
    /// The columns as last kept.
    pub columns: Vec<ColumnPref>,
    pub file_name_width: Option<u32>,
}

/// The identifier of the download filter that is in force at first.
pub const ALL_FILTER: &'static str = "all";

/// Which tasks the sidebar's selection shows.
#[derive(Debug, PartialEq, Eq)]
pub enum TableFilter {
    /// Those that the download filter with this identifier takes.
    Download(String),
    /// The local tasks of a queue.
    Queue(String),
    /// The tasks of this machine.
    LocalDevice,
    /// The tasks of another device, known by one of its names.
    Device(String),
    /// The tasks of a group.
    Group(String),
}

/// A device with the other names under which its tasks may come.
#[derive(Debug)]
pub struct DeviceAliases {
    pub device: String,
    pub aliases: Vec<String>,
}

/// The words that the table shows, in the user's language.
#[derive(Debug)]
pub struct TableStrings {
    pub category_video: String,
    pub category_audio: String,
    pub category_document: String,
    pub category_image: String,
    pub category_archive: String,
    pub category_program: String,
    pub category_other: String,
    pub remote_tasks: String,
    pub ungrouped: String,
    pub status_downloading: String,
    pub active_transfers: String,
    pub connected_peers: String,
    pub metadata_loading: String,
    pub col_file_name: String,
    pub col_progress: String,
    pub col_size: String,
    pub col_speed: String,
    pub col_eta: String,
    pub col_status: String,
    pub col_created: String,
    pub col_protocol: String,
    pub col_source: String,
    pub col_queue: String,
}

/// A row of the table.
#[derive(Debug)]
pub enum VisibleRow {
    Task(RowId),
    GroupHeader { key: String, label: String, count: usize, collapsed: bool },
}

/// What a row of the table shows: the task at an index of the store, or a group header.
pub enum RowView {
    Task(int),
    Header(Seq<char>, Seq<char>, nat, bool),
}

/// A group: its key, its label, and its place among the groups.
#[derive(Debug)]
pub struct GroupBucket {
    pub key: String,
    pub label: String,
    pub order: i128,
}

/// What a group is: its key, its label, and its place among the groups.
pub struct BucketView {
    pub key: Seq<char>,
    pub label: Seq<char>,
    pub order: int,
}

impl View for GroupBucket {
    type V = BucketView;

    open spec fn view(&self) -> BucketView {
        BucketView { key: self.key@, label: self.label@, order: self.order as int }
    }
}

/// The table's state.
#[derive(Debug)]
pub struct DownloadTableDelegate {
    pub strings: TableStrings,
    pub layout: TableLayout,
    pub visible: Vec<VisibleRow>,
    pub seen_generation: u64,
    pub view_dirty: bool,
    pub columns_dirty: bool,
    pub selected_tasks: KeySet,
    pub selection_anchor: Option<RowKey>,
    pub filter: TableFilter,
    /// What the user searches for, in small letters.
    pub query: String,
    pub prefs: ViewPrefs,
    /// The categories in order: identifier and label.
    pub categories: Vec<(String, String)>,
    /// The queues in order: identifier and name.
    pub queue_names: Vec<(String, String)>,
    /// The groups: identifier and name.
    pub group_names: Vec<(String, String)>,
    pub device_aliases: Vec<DeviceAliases>,
}

/// The other names of a device.
pub open spec fn aliases_of(list: Seq<DeviceAliases>, device: Seq<char>) -> Seq<Seq<char>>
    decreases list.len(),
{
    if list.len() == 0 {
        Seq::empty()
    } else if list[0].device@ == device {
        texts(list[0].aliases@)
    } else {
        aliases_of(list.drop_first(), device)
    }
}

/// Whether a search finds a task whose name, link and site are given in small letters: the query
/// is empty, or part of one of them.
pub open spec fn query_hits(
    query: Seq<char>,
    name: Seq<char>,
    url: Seq<char>,
    site: Seq<char>,
) -> bool {
    query.len() == 0 || has_part(name, query) || has_part(url, query) || has_part(site, query)
}

/// Whether a search finds a task whose name, link and site are given in small letters.
pub fn query_finds(query: &str, name: &str, url: &str, site: &str) -> (r: bool)
    ensures
        r == query_hits(query@, name@, url@, site@),
{
    query.is_empty() || contains_part(name, query) || contains_part(url, query) || contains_part(
        site,
        query,
    )
}

pub open spec fn query_takes(query: Seq<char>, task: DownloadTaskView) -> bool {
    query_hits(query, lowercase(task.name@), lowercase(task.url@), lowercase(task.site@))
}

pub open spec fn filter_takes(
    filter: TableFilter,
    aliases: Seq<DeviceAliases>,
    task: DownloadTaskView,
) -> bool {
    match filter {
        TableFilter::Download(filter) => task.passes(filter@),
        TableFilter::Queue(queue_id) => task.source == TaskSource::Local && task.queue_id@
            == queue_id@,
        TableFilter::LocalDevice => task.source == TaskSource::Local,
        TableFilter::Device(device) => task.source == TaskSource::Remote && (task.from_device@
            == device@ || aliases_of(aliases, device@).contains(task.from_device@)),
        TableFilter::Group(group_id) => task.group_id@ == group_id@,
    }
}

/// Whether `a` comes before `b` among the tasks: by rank, and by place where the ranks are equal.
pub open spec fn goes_before(all: Seq<DownloadTaskView>, a: int, b: int) -> bool {
    all[a].rank < all[b].rank || (all[a].rank == all[b].rank && a < b)
}

/// The order of groups: by place, then by label.
pub open spec fn bucket_before(a: BucketView, b: BucketView) -> bool {
    a.order < b.order || (a.order == b.order && text_before(a.label, b.label))
}

impl DownloadTableDelegate {
    /// What holds of the table at all times.
    pub open spec fn wf(&self) -> bool {
        &&& self.layout.wf()
        &&& self.selected_tasks.wf()
        &&& self.prefs.file_name_width == self.layout.file_name_width
    }

    /// Whether the table shows a task, be it in a collapsed group: filter and search take it.
    pub open spec fn takes(&self, task: DownloadTaskView) -> bool {
        filter_takes(self.filter, self.device_aliases@, task) && query_takes(self.query@, task)
    }

    /// The group of a task.
    pub open spec fn bucket_of(&self, task: DownloadTaskView) -> BucketView {
        let facts = task.facts;
        match self.prefs.group_by {
            ViewGroupBy::Off => BucketView { key: Seq::empty(), label: Seq::empty(), order: 0 },
            ViewGroupBy::Status => BucketView {
                key: "status:"@ + facts.state_key@,
                label: facts.state_label@,
                order: facts.state_rank as int,
            },
            ViewGroupBy::Date => BucketView {
                key: "date:"@ + facts.date_key@,
                label: facts.date_label@,
                order: facts.date_order as int,
            },
            ViewGroupBy::Type => BucketView {
                key: "type:"@ + facts.category_id@,
                label: match value_of(self.categories@, facts.category_id@) {
                    Some(label) => label,
                    None => self.strings.category_other@,
                },
                order: if value_of(self.categories@, facts.category_id@) is Some {
                    index_of_key(self.categories@, facts.category_id@)
                } else {
                    i64::MAX as int
                },
            },
            ViewGroupBy::Queue => if task.source == TaskSource::Remote {
                BucketView {
                    key: "queue:remote"@,
                    label: self.strings.remote_tasks@,
                    order: i64::MAX as int,
                }
            } else {
                BucketView {
                    key: "queue:"@ + task.queue_id@,
                    label: match value_of(self.queue_names@, task.queue_id@) {
                        Some(name) => name,
                        None => task.queue_id@,
                    },
                    order: if value_of(self.queue_names@, task.queue_id@) is Some {
                        index_of_key(self.queue_names@, task.queue_id@)
                    } else {
                        i64::MAX - 1
                    },
                }
            },
            ViewGroupBy::Site => {
                let label = if facts.source_site@.len() == 0 {
                    facts.unknown_site@
                } else {
                    facts.source_site@
                };
                BucketView { key: "site:"@ + label, label, order: 0 }
            },
            ViewGroupBy::Group => if task.group_id@.len() == 0 {
                BucketView {
                    key: "group:"@,
                    label: self.strings.ungrouped@,
                    order: i64::MAX as int,
                }
            } else {
                BucketView {
                    key: "group:"@ + task.group_id@,
                    label: match value_of(self.group_names@, task.group_id@) {
                        Some(name) => name,
                        None => task.group_id@,
                    },
                    order: 0,
                }
            },
        }
    }

    /// Whether `rows` lists the tasks that the table shows, each once, in their order.
    pub open spec fn arranged(&self, all: Seq<DownloadTaskView>, rows: Seq<int>) -> bool {
        &&& forall|i: int|
            0 <= i < rows.len() ==> 0 <= #[trigger] rows[i] < all.len() && self.takes(all[rows[i]])
        &&& forall|p: int| 0 <= p < all.len() && self.takes(#[trigger] all[p]) ==> rows.contains(p)
        &&& forall|i: int, j: int|
            0 <= i < j < rows.len() ==> goes_before(all, #[trigger] rows[i], #[trigger] rows[j])
    }

    /// The first row of each group, in the order in which the groups first occur.
    pub open spec fn heads(&self, all: Seq<DownloadTaskView>, rows: Seq<int>) -> Seq<int>
        decreases rows.len(),
    {
        if rows.len() == 0 {
            Seq::empty()
        } else {
            let before = self.heads(all, rows.drop_last());
            if self.has_head(all, before, rows.last()) {
                before
            } else {
                before.push(rows.last())
            }
        }
    }

    /// Whether the group of a row is among the groups of the given rows.
    pub open spec fn has_head(&self, all: Seq<DownloadTaskView>, heads: Seq<int>, row: int) -> bool {
        exists|i: int|
            0 <= i < heads.len() && self.bucket_of(all[#[trigger] heads[i]]).key == self.bucket_of(
                all[row],
            ).key
    }

    /// The rows of a group, in order.
    pub open spec fn members(
        &self,
        all: Seq<DownloadTaskView>,
        rows: Seq<int>,
        key: Seq<char>,
    ) -> Seq<int>
        decreases rows.len(),
    {
        if rows.len() == 0 {
            Seq::empty()
        } else {
            let before = self.members(all, rows.drop_last(), key);
            if self.bucket_of(all[rows.last()]).key == key {
                before.push(rows.last())
            } else {
                before
            }
        }
    }

    pub open spec fn is_collapsed(&self, key: Seq<char>) -> bool {
        texts(self.prefs.collapsed@).contains(key)
    }

    /// A group as the table shows it: its header, and its rows unless it is collapsed.
    pub open spec fn block(
        &self,
        all: Seq<DownloadTaskView>,
        rows: Seq<int>,
        head: int,
    ) -> Seq<RowView> {
        let bucket = self.bucket_of(all[head]);
        let members = self.members(all, rows, bucket.key);
        let collapsed = self.is_collapsed(bucket.key);
        let header = seq![RowView::Header(bucket.key, bucket.label, members.len(), collapsed)];
        if collapsed {
            header
        } else {
            header + task_rows(members)
        }
    }

    /// The first `n` groups of an order, one after the other.
    pub open spec fn blocks(
        &self,
        all: Seq<DownloadTaskView>,
        rows: Seq<int>,
        order: Seq<usize>,
        n: int,
    ) -> Seq<RowView>
        decreases n,
    {
        if n <= 0 {
            Seq::empty()
        } else {
            self.blocks(all, rows, order, n - 1) + self.block(
                all,
                rows,
                self.heads(all, rows)[order[n - 1] as int],
            )
        }
    }

    /// Which of two groups goes first.
    pub open spec fn group_rule(
        &self,
        all: Seq<DownloadTaskView>,
        heads: Seq<int>,
    ) -> spec_fn(int, int) -> bool {
        |a: int, b: int|
            bucket_before(self.bucket_of(all[heads[a]]), self.bucket_of(all[heads[b]]))
    }

    /// Whether `view` is what the table shows of rows in their order: the rows themselves, or
    /// their groups in the stable order of groups.
    pub open spec fn laid_out(
        &self,
        all: Seq<DownloadTaskView>,
        rows: Seq<int>,
        order: Seq<usize>,
        view: Seq<RowView>,
    ) -> bool {
        if self.prefs.group_by == ViewGroupBy::Off {
            view == task_rows(rows)
        } else {
            let heads = self.heads(all, rows);
            &&& stable_order(order, heads.len(), self.group_rule(all, heads))
            &&& view == self.blocks(all, rows, order, order.len() as int)
        }
    }

    /// Whether `view` is what the table shows of the given tasks.
    pub open spec fn shows(&self, all: Seq<DownloadTaskView>, view: Seq<RowView>) -> bool {
        exists|rows: Seq<int>, order: Seq<usize>|
            self.arranged(all, rows) && #[trigger] self.laid_out(all, rows, order, view)
    }

    /// Whether a search finds the task.
    fn matches_query(&self, task: &DownloadTaskView) -> (r: bool)
        ensures
            r == query_takes(self.query@, *task),
    {
        if self.query.as_str().is_empty() {
            return true;
        }
        let name = to_lowercase(task.name.as_str());
        let url = to_lowercase(task.url.as_str());
        let site = to_lowercase(task.site.as_str());
        query_finds(self.query.as_str(), name.as_str(), url.as_str(), site.as_str())
    }

    /// Whether the filter takes the task.
    fn matches_filter(&self, task: &DownloadTaskView) -> (r: bool)
        ensures
            r == filter_takes(self.filter, self.device_aliases@, *task),
    {
        match &self.filter {
            TableFilter::Download(filter) => list_contains(&task.accepted_by, filter.as_str()),
            TableFilter::Queue(queue_id) => task.source == TaskSource::Local && same(
                task.queue_id.as_str(),
                queue_id.as_str(),
            ),
            TableFilter::LocalDevice => task.source == TaskSource::Local,
            TableFilter::Device(device) => task.source == TaskSource::Remote && (same(
                task.from_device.as_str(),
                device.as_str(),
            ) || alias_listed(&self.device_aliases, device.as_str(), task.from_device.as_str())),
            TableFilter::Group(group_id) => same(task.group_id.as_str(), group_id.as_str()),
        }
    }

    /// Whether the table shows the task, be it in a collapsed group.
    pub fn accepts(&self, task: &DownloadTaskView) -> (r: bool)
        ensures
            r == self.takes(*task),
    {
        self.matches_filter(task) && self.matches_query(task)
    }

    /// The group of a task.
    pub fn group_bucket(&self, task: &DownloadTaskView) -> (r: GroupBucket)
        ensures
            r@ == self.bucket_of(*task),
    {
        let facts = &task.facts;
        match self.prefs.group_by {
            ViewGroupBy::Off => GroupBucket {
                key: String::new(),
                label: String::new(),
                order: 0,
            },
            ViewGroupBy::Status => GroupBucket {
                key: concat("status:", facts.state_key.as_str()),
                label: facts.state_label.clone(),
                order: facts.state_rank as i128,
            },
            ViewGroupBy::Date => GroupBucket {
                key: concat("date:", facts.date_key.as_str()),
                label: facts.date_label.clone(),
                order: facts.date_order as i128,
            },
            ViewGroupBy::Type => {
                let id = facts.category_id.as_str();
                let key = concat("type:", id);
                match find_key(&self.categories, id) {
                    Some(i) => GroupBucket {
                        key,
                        label: self.categories[i].1.clone(),
                        order: i as i128,
                    },
                    None => GroupBucket {
                        key,
                        label: self.strings.category_other.clone(),
                        order: i64::MAX as i128,
                    },
                }
            },
            ViewGroupBy::Queue => {
                if task.source == TaskSource::Remote {
                    return GroupBucket {
                        key: "queue:remote".to_owned(),
                        label: self.strings.remote_tasks.clone(),
                        order: i64::MAX as i128,
                    };
                }
                let id = task.queue_id.as_str();
                let key = concat("queue:", id);
                match find_key(&self.queue_names, id) {
                    Some(i) => GroupBucket {
                        key,
                        label: self.queue_names[i].1.clone(),
                        order: i as i128,
                    },
                    None => GroupBucket {
                        key,
                        label: task.queue_id.clone(),
                        order: i64::MAX as i128 - 1,
                    },
                }
            },
            ViewGroupBy::Site => {
                let label = if facts.source_site.as_str().is_empty() {
                    facts.unknown_site.clone()
                } else {
                    facts.source_site.clone()
                };
                GroupBucket { key: concat("site:", label.as_str()), label, order: 0 }
            },
            ViewGroupBy::Group => {
                let id = task.group_id.as_str();
                if id.is_empty() {
                    return GroupBucket {
                        key: "group:".to_owned(),
                        label: self.strings.ungrouped.clone(),
                        order: i64::MAX as i128,
                    };
                }
                let label = match find_key(&self.group_names, id) {
                    Some(i) => self.group_names[i].1.clone(),
                    None => task.group_id.clone(),
                };
                GroupBucket { key: concat("group:", id), label, order: 0 }
            },
        }
    }
}

pub open spec fn task_rows(rows: Seq<int>) -> Seq<RowView> {
    rows.map_values(|p: int| RowView::Task(p))
}

/// Whether a name is among the other names of a device.
fn alias_listed(list: &Vec<DeviceAliases>, device: &str, name: &str) -> (r: bool)
    ensures
        r == aliases_of(list@, device@).contains(name@),
{
    let mut i: usize = 0;
    assert(list@.skip(0) =~= list@);
    while i < list.len()
        invariant
            i <= list@.len(),
            aliases_of(list@, device@) == aliases_of(list@.skip(i as int), device@),
        decreases list@.len() - i,
    {
        assert(list@.skip(i as int)[0] == list@[i as int]);
        assert(list@.skip(i as int).drop_first() =~= list@.skip(i + 1));
        if same(list[i].device.as_str(), device) {
            return list_contains(&list[i].aliases, name);
        }
        i += 1;
    }
    false
}

/// The indexes of places in the list of all tasks.
pub open spec fn indexes(store: &TaskStore, ids: Seq<RowId>) -> Seq<int> {
    ids.map_values(|id: RowId| store.index_of(id))
}

pub open spec fn all_held(store: &TaskStore, ids: Seq<RowId>) -> bool {
    forall|i: int| 0 <= i < ids.len() ==> store.holds(#[trigger] ids[i])
}

/// Whether a row of the table is a header or names a place of the store that holds a task.
pub open spec fn row_held(store: &TaskStore, row: VisibleRow) -> bool {
    match row {
        VisibleRow::Task(id) => store.holds(id),
        VisibleRow::GroupHeader { .. } => true,
    }
}

/// Whether every row that is no header names a place of the store that holds a task.
pub open spec fn rows_held(store: &TaskStore, rows: Seq<VisibleRow>) -> bool {
    forall|i: int| 0 <= i < rows.len() ==> row_held(store, #[trigger] rows[i])
}

/// What a row of the table shows.
pub open spec fn row_view(store: &TaskStore, row: VisibleRow) -> RowView {
    match row {
        VisibleRow::Task(id) => RowView::Task(store.index_of(id)),
        VisibleRow::GroupHeader { key, label, count, collapsed } => RowView::Header(
            key@,
            label@,
            count as nat,
            collapsed,
        ),
    }
}

pub open spec fn row_views(store: &TaskStore, rows: Seq<VisibleRow>) -> Seq<RowView> {
    rows.map_values(|row: VisibleRow| row_view(store, row))
}

/// A group with the places of its tasks.
#[derive(Debug)]
struct GroupRows {
    bucket: GroupBucket,
    rows: Vec<RowId>,
}

pub proof fn lemma_bucket_rule(d: &DownloadTableDelegate, all: Seq<DownloadTaskView>, heads: Seq<int>)
    ensures
        weak_order(heads.len(), d.group_rule(all, heads)),
{
    let rule = d.group_rule(all, heads);
    assert forall|a: int, b: int|
        0 <= a < heads.len() && 0 <= b < heads.len() && #[trigger] rule(a, b) implies !rule(
        b,
        a,
    ) by {
        let x = d.bucket_of(all[heads[a]]);
        let y = d.bucket_of(all[heads[b]]);
        lemma_text_total(x.label, y.label);
    }
    assert forall|a: int, b: int, c: int|
        0 <= a < heads.len() && 0 <= b < heads.len() && 0 <= c < heads.len() && #[trigger] rule(
            a,
            b,
        ) implies (#[trigger] rule(a, c) || rule(c, b)) by {
        let x = d.bucket_of(all[heads[a]]);
        let y = d.bucket_of(all[heads[b]]);
        let z = d.bucket_of(all[heads[c]]);
        if !rule(a, c) && !rule(c, b) {
            lemma_text_total(x.label, z.label);
            lemma_text_total(z.label, y.label);
            if x.order == z.order && z.order == y.order {
                if text_before(z.label, x.label) && text_before(x.label, y.label) {
                    lemma_text_transitive(z.label, x.label, y.label);
                }
            }
        }
    }
}

pub proof fn lemma_heads_distinct(d: &DownloadTableDelegate, all: Seq<DownloadTaskView>, rows: Seq<int>)
    ensures
        ({
            let heads = d.heads(all, rows);
            forall|i: int, j: int|
                0 <= i < heads.len() && 0 <= j < heads.len() && i != j ==> d.bucket_of(
                    all[#[trigger] heads[i]],
                ).key != d.bucket_of(all[#[trigger] heads[j]]).key
        }),
    decreases rows.len(),
{
    if rows.len() > 0 {
        lemma_heads_distinct(d, all, rows.drop_last());
        let before = d.heads(all, rows.drop_last());
        let heads = d.heads(all, rows);
        assert forall|i: int, j: int|
            0 <= i < heads.len() && 0 <= j < heads.len() && i != j implies d.bucket_of(
            all[#[trigger] heads[i]],
        ).key != d.bucket_of(all[#[trigger] heads[j]]).key by {
            if !d.has_head(all, before, rows.last()) {
                if i < before.len() {
                    assert(heads[i] == before[i]);
                }
                if j < before.len() {
                    assert(heads[j] == before[j]);
                }
            }
        }
    }
}

impl DownloadTableDelegate {
    /// The tasks that the table shows, in their order.
    fn arranged_rows(&self, store: &TaskStore) -> (r: Vec<RowId>)
        ensures
            all_held(store, r@),
            self.arranged(store.all(), indexes(store, r@)),
    {
        let ghost all = store.all();
        let ghost n_local = store.local@.len() as int;
        let mut hits: Vec<RowId> = Vec::new();
        let mut ranks: Vec<i64> = Vec::new();
        let mut i: usize = 0;
        while i < store.local.len()
            invariant
                i <= store.local@.len(),
                all == store.all(),
                n_local == store.local@.len(),
                self.hit_list(store, hits@, ranks@, i as int),
            decreases store.local@.len() - i,
        {
            assert(all[i as int] == store.local@[i as int]);
            if self.accepts(&store.local[i]) {
                let ghost before = hits@;
                hits.push(RowId::Local(i));
                ranks.push(store.local[i].rank);
                proof {
                    self.lemma_hit(store, before, ranks@.drop_last(), i as int, RowId::Local(i));
                    assert(ranks@ =~= ranks@.drop_last().push(all[i as int].rank));
                }
            }
            i += 1;
        }
        let mut j: usize = 0;
        while j < store.remote.len()
            invariant
                j <= store.remote@.len(),
                all == store.all(),
                n_local == store.local@.len(),
                self.hit_list(store, hits@, ranks@, n_local + j),
            decreases store.remote@.len() - j,
        {
            assert(all[n_local + j] == store.remote@[j as int]);
            if self.accepts(&store.remote[j]) {
                let ghost before = hits@;
                hits.push(RowId::Remote(j));
                ranks.push(store.remote[j].rank);
                proof {
                    self.lemma_hit(store, before, ranks@.drop_last(), n_local + j, RowId::Remote(j));
                    assert(ranks@ =~= ranks@.drop_last().push(all[n_local + j].rank));
                }
            }
            j += 1;
        }
        let n: usize = hits.len();
        let ghost rule = |a: int, b: int| ranks@[a] < ranks@[b];
        let less = |a: usize, b: usize| -> (x: bool)
            requires
                a < ranks@.len() && b < ranks@.len(),
            ensures
                x == (ranks@[a as int] < ranks@[b as int]),
            { ranks[a] < ranks[b] };
        let order = stable_sort(n, less, Ghost(rule));
        let mut r: Vec<RowId> = Vec::new();
        let mut k: usize = 0;
        while k < order.len()
            invariant
                k <= order@.len(),
                order@.len() == n,
                n == hits@.len(),
                forall|x: int| 0 <= x < n ==> (#[trigger] order@[x]) < n,
                r@.len() == k,
                forall|x: int| 0 <= x < k ==> #[trigger] r@[x] == hits@[order@[x] as int],
            decreases order@.len() - k,
        {
            r.push(hits[order[k]]);
            k += 1;
        }
        proof {
            let rows = indexes(store, r@);
            let hit_ix = indexes(store, hits@);
            assert forall|x: int| 0 <= x < rows.len() implies #[trigger] rows[x]
                == hit_ix[order@[x] as int] by {
                assert(r@[x] == hits@[order@[x] as int]);
            }
            assert forall|x: int| 0 <= x < rows.len() implies 0 <= #[trigger] rows[x] < all.len()
                && self.takes(all[rows[x]]) by {
                assert(rows[x] == hit_ix[order@[x] as int]);
                assert(store.holds(hits@[order@[x] as int]));
            }
            assert forall|p: int| 0 <= p < all.len() && self.takes(#[trigger] all[p]) implies rows.contains(
            p) by {
                let h = choose|h: int| 0 <= h < hit_ix.len() && hit_ix[h] == p;
                assert(hit_ix.contains(p));
                lemma_order_onto(order@, n as nat, rule, h);
                let x = choose|x: int| 0 <= x < order@.len() && order@[x] == h;
                assert(rows[x] == p);
            }
            assert forall|x: int, y: int| 0 <= x < y < rows.len() implies goes_before(
                all,
                #[trigger] rows[x],
                #[trigger] rows[y],
            ) by {
                let a = order@[x] as int;
                let b = order@[y] as int;
                assert(stands_before(rule, a, b));
                assert(rows[x] == hit_ix[a] && rows[y] == hit_ix[b]);
            }
            assert forall|x: int| 0 <= x < r@.len() implies store.holds(#[trigger] r@[x]) by {
                assert(r@[x] == hits@[order@[x] as int]);
            }
        }
        r
    }

    /// Whether `hits` lists the shown tasks among the first `n` of the store, in the store's
    /// order, and `ranks` their ranks.
    spec fn hit_list(&self, store: &TaskStore, hits: Seq<RowId>, ranks: Seq<i64>, n: int) -> bool {
        let all = store.all();
        let ix = indexes(store, hits);
        &&& ranks.len() == hits.len()
        &&& all_held(store, hits)
        &&& forall|h: int|
            0 <= h < hits.len() ==> 0 <= #[trigger] ix[h] < n && self.takes(all[ix[h]]) && ranks[h]
                == all[ix[h]].rank
        &&& forall|p: int| 0 <= p < n && self.takes(#[trigger] all[p]) ==> ix.contains(p)
        &&& forall|h: int, k: int| 0 <= h < k < hits.len() ==> #[trigger] ix[h] < #[trigger] ix[k]
    }

    proof fn lemma_hit(
        &self,
        store: &TaskStore,
        hits: Seq<RowId>,
        ranks: Seq<i64>,
        n: int,
        id: RowId,
    )
        requires
            self.hit_list(store, hits, ranks, n),
            0 <= n < store.all().len(),
            store.holds(id),
            store.index_of(id) == n,
            self.takes(store.all()[n]),
        ensures
            self.hit_list(store, hits.push(id), ranks.push(store.all()[n].rank), n + 1),
    {
        let all = store.all();
        let ix = indexes(store, hits);
        let after = indexes(store, hits.push(id));
        assert(after =~= ix.push(n));
        assert forall|h: int| 0 <= h < after.len() implies 0 <= #[trigger] after[h] < n + 1
            && self.takes(all[after[h]]) by {
            if h < ix.len() {
                assert(after[h] == ix[h]);
            }
        }
        assert forall|h: int| 0 <= h < after.len() implies ranks.push(all[n].rank)[h]
            == all[#[trigger] after[h]].rank by {
            if h < ix.len() {
                assert(after[h] == ix[h]);
            }
        }
        assert forall|p: int| 0 <= p < n + 1 && self.takes(#[trigger] all[p]) implies after.contains(
            p,
        ) by {
            if p < n {
                let h = choose|h: int| 0 <= h < ix.len() && ix[h] == p;
                assert(ix.contains(p));
                assert(after[h] == p);
            } else {
                assert(after[ix.len() as int] == n);
            }
        }
        assert forall|h: int, k: int| 0 <= h < k < after.len() implies #[trigger] after[h]
            < #[trigger] after[k] by {
            assert(after[h] == ix[h]);
            if k < ix.len() {
                assert(after[k] == ix[k]);
            }
        }
        assert forall|h: int| 0 <= h < hits.push(id).len() implies store.holds(
            #[trigger] hits.push(id)[h],
        ) by {
            if h < hits.len() {
                assert(hits.push(id)[h] == hits[h]);
            }
        }
    }
}

/// A stable order reaches every index.
pub proof fn lemma_order_onto(order: Seq<usize>, n: nat, less: spec_fn(int, int) -> bool, h: int)
    requires
        stable_order(order, n, less),
        weak_order(n, less),
        0 <= h < n,
    ensures
        exists|x: int| 0 <= x < order.len() && order[x] == h,
{
    lemma_stable_order_distinct(order, n, less);
    lemma_pigeonhole(order, n, h);
}

/// A list of `n` different indexes below `n` names each of them.
proof fn lemma_pigeonhole(order: Seq<usize>, n: nat, h: int)
    requires
        order.len() == n,
        order.no_duplicates(),
        forall|i: int| 0 <= i < n ==> (#[trigger] order[i]) < n,
        0 <= h < n,
    ensures
        exists|x: int| 0 <= x < order.len() && order[x] == h,
{
    let named = order.map_values(|x: usize| x as int);
    let s = named.to_set();
    let below = vstd::set_lib::set_int_range(0, n as int);
    vstd::set_lib::lemma_int_range(0, n as int);
    assert forall|i: int, j: int| 0 <= i < named.len() && 0 <= j < named.len() && i != j implies named[i]
        != named[j] by {
        assert(order[i] != order[j]);
    }
    named.unique_seq_to_set();
    assert forall|x: int| s.contains(x) implies below.contains(x) by {
        let i = choose|i: int| 0 <= i < named.len() && named[i] == x;
        assert(order[i] < n);
    }
    assert(s.subset_of(below));
    vstd::set_lib::lemma_subset_equality(s, below);
    assert(below.contains(h));
    assert(s.contains(h));
    let x = choose|x: int| 0 <= x < named.len() && named[x] == h;
    assert(order[x] == h);
}

impl DownloadTableDelegate {
    /// Whether `groups` are the groups of the given rows, in the order of their first rows.
    spec fn grouped(
        &self,
        store: &TaskStore,
        rows: Seq<int>,
        groups: Seq<GroupRows>,
    ) -> bool {
        let all = store.all();
        let heads = self.heads(all, rows);
        &&& groups.len() == heads.len()
        &&& forall|g: int|
            0 <= g < groups.len() ==> self.is_group(store, rows, heads[g], #[trigger] groups[g])
    }

    spec fn is_group(
        &self,
        store: &TaskStore,
        rows: Seq<int>,
        head: int,
        group: GroupRows,
    ) -> bool {
        let bucket = self.bucket_of(store.all()[head]);
        &&& group.bucket@ == bucket
        &&& all_held(store, group.rows@)
        &&& indexes(store, group.rows@) == self.members(store.all(), rows, bucket.key)
    }

    /// The groups of the given rows, in the order of their first rows.
    fn group_rows(&self, store: &TaskStore, rows: &Vec<RowId>) -> (r: Vec<GroupRows>)
        requires
            all_held(store, rows@),
        ensures
            self.grouped(store, indexes(store, rows@), r@),
    {
        let ghost all = store.all();
        let ghost ix = indexes(store, rows@);
        let mut groups: Vec<GroupRows> = Vec::new();
        let mut i: usize = 0;
        assert(self.heads(all, ix.take(0)) =~= Seq::empty());
        while i < rows.len()
            invariant
                i <= rows@.len(),
                all == store.all(),
                ix == indexes(store, rows@),
                all_held(store, rows@),
                self.grouped(store, ix.take(i as int), groups@),
            decreases rows@.len() - i,
        {
            let ghost seen = ix.take(i as int);
            let ghost now = ix.take(i + 1);
            let ghost heads = self.heads(all, seen);
            let ghost before = groups@;
            let id = rows[i];
            proof {
                assert(now.drop_last() =~= seen);
                assert(now.last() == store.index_of(id));
                assert(store.holds(rows@[i as int]));
                lemma_heads_distinct(self, all, seen);
            }
            match store.row(id) {
                None => {
                    assert(false);
                },
                Some(task) => {
                    let bucket = self.group_bucket(task);
                    let mut g: usize = 0;
                    while g < groups.len() && !same(
                        groups[g].bucket.key.as_str(),
                        bucket.key.as_str(),
                    )
                        invariant
                            g <= groups@.len(),
                            groups@ == before,
                            forall|k: int|
                                0 <= k < g ==> (#[trigger] groups@[k]).bucket.key@ != bucket.key@,
                        decreases groups@.len() - g,
                    {
                        g += 1;
                    }
                    if g < groups.len() {
                        groups[g].rows.push(id);
                        proof {
                            let key = bucket.key@;
                            assert(self.is_group(store, seen, heads[g as int], before[g as int]));
                            assert(self.has_head(all, heads, now.last())) by {
                                assert(self.bucket_of(all[heads[g as int]]).key == key);
                            }
                            assert(self.heads(all, now) == heads);
                            assert forall|k: int| 0 <= k < groups@.len() implies self.is_group(
                                store,
                                now,
                                heads[k],
                                #[trigger] groups@[k],
                            ) by {
                                assert(self.is_group(store, seen, heads[k], before[k]));
                                if k == g {
                                    assert(groups@[k].rows@ =~= before[k].rows@.push(id));
                                    assert(indexes(store, groups@[k].rows@) =~= indexes(
                                        store,
                                        before[k].rows@,
                                    ).push(store.index_of(id)));
                                } else {
                                    assert(groups@[k] == before[k]);
                                    assert(self.bucket_of(all[heads[k]]).key != key);
                                }
                            }
                        }
                    } else {
                        let mut first: Vec<RowId> = Vec::new();
                        first.push(id);
                        groups.push(GroupRows { bucket, rows: first });
                        proof {
                            let key = bucket.key@;
                            assert forall|k: int| 0 <= k < heads.len() implies self.bucket_of(
                                all[#[trigger] heads[k]],
                            ).key != key by {
                                assert(self.is_group(store, seen, heads[k], before[k]));
                                assert(before[k].bucket.key@ != key);
                            }
                            assert(!self.has_head(all, heads, now.last()));
                            assert(self.heads(all, now) == heads.push(now.last()));
                            self.lemma_no_members(all, seen, key);
                            assert forall|k: int| 0 <= k < groups@.len() implies self.is_group(
                                store,
                                now,
                                heads.push(now.last())[k],
                                #[trigger] groups@[k],
                            ) by {
                                if k < heads.len() {
                                    assert(self.is_group(store, seen, heads[k], before[k]));
                                    assert(groups@[k] == before[k]);
                                    assert(self.bucket_of(all[heads[k]]).key != key);
                                } else {
                                    assert(indexes(store, groups@[k].rows@) =~= seq![
                                        now.last(),
                                    ]);
                                    assert(self.members(all, now, key) =~= seq![now.last()]);
                                }
                            }
                        }
                    }
                },
            }
            i += 1;
        }
        assert(ix.take(i as int) =~= ix);
        groups
    }

    /// A group without a first row has no rows.
    proof fn lemma_no_members(&self, all: Seq<DownloadTaskView>, rows: Seq<int>, key: Seq<char>)
        requires
            forall|k: int|
                0 <= k < self.heads(all, rows).len() ==> self.bucket_of(
                    all[#[trigger] self.heads(all, rows)[k]],
                ).key != key,
        ensures
            self.members(all, rows, key) == Seq::<int>::empty(),
        decreases rows.len(),
    {
        if rows.len() > 0 {
            let before = self.heads(all, rows.drop_last());
            let heads = self.heads(all, rows);
            assert forall|k: int| 0 <= k < before.len() implies self.bucket_of(
                all[#[trigger] before[k]],
            ).key != key by {
                assert(heads[k] == before[k]);
            }
            self.lemma_no_members(all, rows.drop_last(), key);
            if self.bucket_of(all[rows.last()]).key == key {
                if self.has_head(all, before, rows.last()) {
                    let k = choose|k: int|
                        0 <= k < before.len() && self.bucket_of(all[#[trigger] before[k]]).key
                            == self.bucket_of(all[rows.last()]).key;
                    assert(heads[k] == before[k]);
                } else {
                    assert(heads[before.len() as int] == rows.last());
                }
            }
        }
    }

    /// What the table shows of the tasks in the store.
    pub fn compute_visible(&self, store: &TaskStore) -> (r: Vec<VisibleRow>)
        ensures
            self.shows(store.all(), row_views(store, r@)),
            rows_held(store, r@),
    {
        let ghost all = store.all();
        let rows = self.arranged_rows(store);
        let ghost ix = indexes(store, rows@);
        let mut visible: Vec<VisibleRow> = Vec::new();
        if self.prefs.group_by == ViewGroupBy::Off {
            push_tasks(&mut visible, &rows, Ghost(store));
            assert(row_views(store, visible@) =~= task_rows(ix));
            assert(self.laid_out(all, ix, Seq::empty(), row_views(store, visible@)));
            return visible;
        }
        let groups = self.group_rows(store, &rows);
        let ghost heads = self.heads(all, ix);
        let ghost rule = self.group_rule(all, heads);
        proof {
            lemma_bucket_rule(self, all, heads);
        }
        let less = |a: usize, b: usize| -> (x: bool)
            requires
                a < groups@.len() && b < groups@.len(),
            ensures
                x == bucket_before(groups@[a as int].bucket@, groups@[b as int].bucket@),
            { bucket_less(&groups[a].bucket, &groups[b].bucket) };
        proof {
            assert forall|a: usize, b: usize, x: bool|
                a < groups@.len() && b < groups@.len() && call_ensures(less, (a, b), x) implies x
                == rule(a as int, b as int) by {
                assert(self.is_group(store, ix, heads[a as int], groups@[a as int]));
                assert(self.is_group(store, ix, heads[b as int], groups@[b as int]));
            }
        }
        let order = stable_sort(groups.len(), less, Ghost(rule));
        let mut k: usize = 0;
        assert(row_views(store, visible@) =~= self.blocks(all, ix, order@, 0));
        while k < order.len()
            invariant
                k <= order@.len(),
                all == store.all(),
                ix == indexes(store, rows@),
                heads == self.heads(all, ix),
                self.grouped(store, ix, groups@),
                stable_order(order@, groups@.len(), rule),
                row_views(store, visible@) == self.blocks(all, ix, order@, k as int),
                rows_held(store, visible@),
            decreases order@.len() - k,
        {
            let ghost before = row_views(store, visible@);
            assert(order@[k as int] < groups@.len());
            let group = &groups[order[k]];
            let ghost head = heads[order@[k as int] as int];
            assert(self.is_group(store, ix, head, groups@[order@[k as int] as int]));
            let collapsed: bool = list_contains(&self.prefs.collapsed, group.bucket.key.as_str());
            visible.push(
                VisibleRow::GroupHeader {
                    key: group.bucket.key.clone(),
                    label: group.bucket.label.clone(),
                    count: group.rows.len(),
                    collapsed,
                },
            );
            proof {
                let bucket = self.bucket_of(all[head]);
                let members = self.members(all, ix, bucket.key);
                assert(members.len() == group.rows@.len()) by {
                    assert(indexes(store, group.rows@).len() == group.rows@.len());
                }
                assert(row_views(store, visible@) =~= before.push(
                    RowView::Header(bucket.key, bucket.label, members.len(), collapsed),
                ));
            }
            if !collapsed {
                let ghost with_header = row_views(store, visible@);
                push_tasks(&mut visible, &group.rows, Ghost(store));
                proof {
                    assert(task_rows(indexes(store, group.rows@)).len() == group.rows@.len());
                    assert(row_views(store, visible@) =~= with_header + task_rows(
                        indexes(store, group.rows@),
                    ));
                }
            }
            proof {
                assert(row_views(store, visible@) =~= before + self.block(all, ix, head));
            }
            k += 1;
        }
        assert(self.laid_out(all, ix, order@, row_views(store, visible@)));
        visible
    }
}

/// Puts a row for each task behind the others.
fn push_tasks(visible: &mut Vec<VisibleRow>, rows: &Vec<RowId>, Ghost(store): Ghost<&TaskStore>)
    requires
        all_held(store, rows@),
        rows_held(store, old(visible)@),
    ensures
        rows_held(store, final(visible)@),
        row_views(store, final(visible)@) == row_views(store, old(visible)@) + task_rows(
            indexes(store, rows@),
        ),
{
    let ghost start = row_views(store, visible@);
    let ghost shown = task_rows(indexes(store, rows@));
    let mut i: usize = 0;
    assert(start =~= start + shown.take(0));
    while i < rows.len()
        invariant
            i <= rows@.len(),
            shown == task_rows(indexes(store, rows@)),
            row_views(store, visible@) == start + shown.take(i as int),
            all_held(store, rows@),
            rows_held(store, visible@),
        decreases rows@.len() - i,
    {
        let ghost before = row_views(store, visible@);
        visible.push(VisibleRow::Task(rows[i]));
        assert(row_views(store, visible@) =~= before.push(
            RowView::Task(store.index_of(rows@[i as int])),
        ));
        assert(shown.take(i + 1) =~= shown.take(i as int).push(
            RowView::Task(store.index_of(rows@[i as int])),
        ));
        assert(row_views(store, visible@) =~= start + shown.take(i + 1));
        i += 1;
    }
    assert(shown.take(i as int) =~= shown);
}

/// Which of two groups goes first.
fn bucket_less(a: &GroupBucket, b: &GroupBucket) -> (r: bool)
    ensures
        r == bucket_before(a@, b@),
{
    if a.order == b.order {
        text_less(a.label.as_str(), b.label.as_str())
    } else {
        a.order < b.order
    }
}

/// The keys of the tasks among the given rows, in order.
pub open spec fn keys_shown(store: &TaskStore, rows: Seq<VisibleRow>) -> Seq<(bool, Seq<char>)>
    decreases rows.len(),
{
    if rows.len() == 0 {
        Seq::empty()
    } else {
        let before = keys_shown(store, rows.drop_last());
        match key_shown(store, rows.last()) {
            Some(key) => before.push(key),
            None => before,
        }
    }
}

/// The key of the task that a row shows.
pub open spec fn key_shown(store: &TaskStore, row: VisibleRow) -> Option<(bool, Seq<char>)> {
    match row {
        VisibleRow::Task(id) => if store.holds(id) {
            Some(store.all()[store.index_of(id)].key@)
        } else {
            None
        },
        VisibleRow::GroupHeader { .. } => None,
    }
}

/// The index of the first occurrence of a key; the number of keys where there is none.
pub open spec fn first_key(keys: Seq<(bool, Seq<char>)>, key: (bool, Seq<char>)) -> int
    decreases keys.len(),
{
    if keys.len() == 0 || keys[0] == key {
        0
    } else {
        1 + first_key(keys.drop_first(), key)
    }
}

pub proof fn lemma_first_key(keys: Seq<(bool, Seq<char>)>, key: (bool, Seq<char>))
    ensures
        0 <= first_key(keys, key) <= keys.len(),
        first_key(keys, key) < keys.len() <==> keys.contains(key),
        first_key(keys, key) < keys.len() ==> keys[first_key(keys, key)] == key,
    decreases keys.len(),
{
    if keys.len() > 0 {
        let rest = keys.drop_first();
        lemma_first_key(rest, key);
        if keys[0] != key && keys.contains(key) {
            let i = choose|i: int| 0 <= i < keys.len() && keys[i] == key;
            assert(rest[i - 1] == key);
        }
        if rest.contains(key) {
            let i = choose|i: int| 0 <= i < rest.len() && rest[i] == key;
            assert(keys[i + 1] == key);
        }
        if keys[0] == key {
            assert(keys.contains(key));
        }
    }
}

/// The index of the first occurrence of a key.
pub(crate) fn find_row_key(keys: &Vec<RowKey>, key: &RowKey) -> (r: Option<usize>)
    ensures
        match r {
            Some(i) => i < keys@.len() && i == first_key(key_views(keys@), key@),
            None => !key_views(keys@).contains(key@),
        },
        r is Some ==> key_views(keys@).contains(key@),
{
    let ghost views = key_views(keys@);
    let mut i: usize = 0;
    assert(views.skip(0) =~= views);
    while i < keys.len()
        invariant
            i <= keys@.len(),
            views == key_views(keys@),
            first_key(views, key@) == i + first_key(views.skip(i as int), key@),
        decreases keys@.len() - i,
    {
        assert(views.skip(i as int)[0] == keys@[i as int]@);
        assert(views.skip(i as int).drop_first() =~= views.skip(i + 1));
        if keys[i].is(key) {
            proof {
                lemma_first_key(views, key@);
            }
            return Some(i);
        }
        i += 1;
    }
    proof {
        lemma_first_key(views, key@);
    }
    None
}

/// Whether a key names a task that the store holds.
pub open spec fn live(store: &TaskStore, key: (bool, Seq<char>)) -> bool {
    store.find(key) is Some
}

/// Counts and kinds of the selected tasks.
#[derive(Clone, Copy, Debug, PartialEq, Eq, Structural)]
pub struct SelectionSummary {
    pub count: usize,
    pub any: bool,
    /// One of them is local.
    pub any_local: bool,
    /// One of them is under way or waits for its turn.
    pub any_active: bool,
    /// One of them is paused or failed.
    pub any_resumable: bool,
}

impl Default for SelectionSummary {
    fn default() -> (r: Self)
        ensures
            r == (SelectionSummary {
                count: 0,
                any: false,
                any_local: false,
                any_active: false,
                any_resumable: false,
            }),
    {
        SelectionSummary {
            count: 0,
            any: false,
            any_local: false,
            any_active: false,
            any_resumable: false,
        }
    }
}

pub open spec fn state_of(store: &TaskStore, key: (bool, Seq<char>)) -> TaskState {
    store.all()[store.find(key)->0].state
}

/// What a summary of the given keys says.
pub open spec fn summary_of(
    store: &TaskStore,
    keys: Set<(bool, Seq<char>)>,
    r: SelectionSummary,
) -> bool {
    let held = keys.filter(|k: (bool, Seq<char>)| live(store, k));
    &&& r.count == held.len()
    &&& r.any == (held.len() > 0)
    &&& r.any_local == exists|k: (bool, Seq<char>)| #[trigger] held.contains(k) && k.0
    &&& r.any_active == exists|k: (bool, Seq<char>)| #[trigger] held.contains(k) && (state_of(
        store,
        k,
    ) == TaskState::Downloading || state_of(store, k) == TaskState::Pending)
    &&& r.any_resumable == exists|k: (bool, Seq<char>)| #[trigger] held.contains(k) && (state_of(
        store,
        k,
    ) == TaskState::Paused || state_of(store, k) == TaskState::Failed)
}

impl DownloadTableDelegate {
    /// The keys of the tasks that the table shows, in order.
    pub fn visible_task_keys(&self, store: &TaskStore) -> (r: Vec<RowKey>)
        ensures
            key_views(r@) == keys_shown(store, self.visible@),
    {
        let mut r: Vec<RowKey> = Vec::new();
        let mut i: usize = 0;
        assert(key_views(r@) =~= keys_shown(store, self.visible@.take(0)));
        while i < self.visible.len()
            invariant
                i <= self.visible@.len(),
                key_views(r@) == keys_shown(store, self.visible@.take(i as int)),
            decreases self.visible@.len() - i,
        {
            assert(self.visible@.take(i + 1).drop_last() =~= self.visible@.take(i as int));
            let ghost before = key_views(r@);
            if let Some(key) = self.row_key_at(i, store) {
                r.push(key);
                assert(key_views(r@) =~= before.push(key@));
            }
            i += 1;
        }
        assert(self.visible@.take(i as int) =~= self.visible@);
        r
    }

    /// The key of the task in a row.
    pub fn row_key_at(&self, row_ix: usize, store: &TaskStore) -> (r: Option<RowKey>)
        ensures
            (match r {
                Some(key) => Some(key@),
                None => None,
            }) == if row_ix < self.visible@.len() {
                key_shown(store, self.visible@[row_ix as int])
            } else {
                None
            },
    {
        if row_ix >= self.visible.len() {
            return None;
        }
        match &self.visible[row_ix] {
            VisibleRow::Task(id) => match store.row(*id) {
                Some(task) => Some(task.key.clone()),
                None => None,
            },
            VisibleRow::GroupHeader { .. } => None,
        }
    }

    /// The key of the group whose header stands in a row.
    pub fn group_key_at(&self, row_ix: usize) -> (r: Option<&str>)
        ensures
            (match r {
                Some(key) => Some(key@),
                None => None,
            }) == if row_ix < self.visible@.len() {
                match self.visible@[row_ix as int] {
                    VisibleRow::GroupHeader { key, .. } => Some(key@),
                    VisibleRow::Task(_) => None,
                }
            } else {
                None
            },
    {
        if row_ix >= self.visible.len() {
            return None;
        }
        match &self.visible[row_ix] {
            VisibleRow::GroupHeader { key, .. } => Some(key.as_str()),
            VisibleRow::Task(_) => None,
        }
    }

    /// Works out the rows again where the store or anything that decides them has changed, and
    /// says whether it did. The selection then keeps only tasks that filter and search still
    /// take: what was deleted or filtered away is selected no longer, what a collapsed group
    /// hides stays selected.
    pub fn refresh_view(&mut self, store: &TaskStore) -> (r: bool)
        requires
            old(self).wf(),
        ensures
            final(self).wf(),
            r == (old(self).view_dirty || old(self).seen_generation != store.generation),
            !r ==> *final(self) == *old(self),
            r ==> {
                &&& final(self).seen_generation == store.generation
                &&& !final(self).view_dirty
                &&& old(self).shows(store.all(), row_views(store, final(self).visible@))
                &&& rows_held(store, final(self).visible@)
                &&& final(self).selected_tasks@ == old(self).selected_tasks@.filter(
                    |k: (bool, Seq<char>)| old(self).keeps(store, k),
                )
                &&& final(self).selection_anchor == match old(self).selection_anchor {
                    Some(key) => if final(self).selected_tasks@.contains(key@) {
                        Some(key)
                    } else {
                        None
                    },
                    None => None,
                }
                &&& final(self).same_settings(old(self))
                &&& final(self).columns_dirty == old(self).columns_dirty
                &&& final(self).layout == old(self).layout
            },
    {
        if !self.view_dirty && store.generation == self.seen_generation {
            return false;
        }
        let visible = self.compute_visible(store);
        self.seen_generation = store.generation;
        self.view_dirty = false;
        self.visible = visible;
        let mut kept = KeySet::new();
        let mut i: usize = 0;
        let ghost keys = key_views(self.selected_tasks.keys@);
        proof {
            lemma_same_settings(self, old(self));
            assert(kept@ =~= keys.take(0).to_set().filter(
                |k: (bool, Seq<char>)| old(self).keeps(store, k),
            ));
        }
        while i < self.selected_tasks.keys.len()
            invariant
                i <= self.selected_tasks.keys@.len(),
                keys == key_views(self.selected_tasks.keys@),
                kept.wf(),
                self.same_settings(old(self)),
                kept@ == keys.take(i as int).to_set().filter(
                    |k: (bool, Seq<char>)| old(self).keeps(store, k),
                ),
            decreases self.selected_tasks.keys@.len() - i,
        {
            let key = &self.selected_tasks.keys[i];
            let ghost before = kept@;
            let keep: bool = match store.get(key) {
                Some(task) => self.accepts(task),
                None => false,
            };
            proof {
                lemma_same_settings(self, old(self));
                assert(keep == old(self).keeps(store, key@));
                lemma_take_set(keys, i as int);
            }
            if keep {
                kept.insert(key.clone());
            }
            assert(kept@ =~= keys.take(i + 1).to_set().filter(
                |k: (bool, Seq<char>)| old(self).keeps(store, k),
            ));
            i += 1;
        }
        assert(keys.take(i as int) =~= keys);
        self.selected_tasks = kept;
        let drop_anchor: bool = match &self.selection_anchor {
            Some(key) => !self.selected_tasks.contains(key),
            None => false,
        };
        if drop_anchor {
            self.selection_anchor = None;
        }
        true
    }

    /// Whether the selection keeps a key: it names a task that filter and search take.
    pub open spec fn keeps(&self, store: &TaskStore, key: (bool, Seq<char>)) -> bool {
        live(store, key) && self.takes(store.all()[store.find(key)->0])
    }

    /// Whether all that decides the rows is the same.
    pub open spec fn same_settings(&self, other: &Self) -> bool {
        &&& self.strings == other.strings
        &&& self.filter == other.filter
        &&& self.query == other.query
        &&& self.prefs == other.prefs
        &&& self.categories == other.categories
        &&& self.queue_names == other.queue_names
        &&& self.group_names == other.group_names
        &&& self.device_aliases == other.device_aliases
    }
}

proof fn lemma_same_settings(a: &DownloadTableDelegate, b: &DownloadTableDelegate)
    ensures
        a.same_settings(b) ==> forall|task: DownloadTaskView| #[trigger] a.takes(task) == b.takes(task),
{
}

pub proof fn lemma_take_set(keys: Seq<(bool, Seq<char>)>, i: int)
    requires
        0 <= i < keys.len(),
    ensures
        keys.take(i + 1).to_set() == keys.take(i).to_set().insert(keys[i]),
{
    let a = keys.take(i);
    let b = keys.take(i + 1);
    assert forall|k: (bool, Seq<char>)| #[trigger] b.to_set().contains(k) == a.to_set().insert(
        keys[i],
    ).contains(k) by {
        if a.contains(k) {
            let j = choose|j: int| 0 <= j < a.len() && a[j] == k;
            assert(b[j] == k);
        }
        if b.contains(k) {
            let j = choose|j: int| 0 <= j < b.len() && b[j] == k;
            if j < i {
                assert(a[j] == k);
            }
        }
        assert(b[i] == keys[i]);
    }
    assert(b.to_set() =~= a.to_set().insert(keys[i]));
}

} // verus!
