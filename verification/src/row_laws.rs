//! What holds of the rows of the task table: which filter takes a task, which group it falls
//! into, what its cells say, and what selecting and sorting do.

use vstd::prelude::*;

use crate::columns::{DownloadColumnKind, SortDir, ViewSortKey};
use crate::table_cells::{
    bytes_progress, group_context_menu, group_counts, group_id_of, group_progress, Cell,
    GroupMenuEntry, MetaCell,
};
use crate::table_selection::range_between;
use crate::table_settings::{
    accepted_count, count_in_queue, count_matching, filter_for, queued_count, SidebarSelection,
};
use crate::task_table::{
    aliases_of, first_key, goes_before, keys_shown, live, state_of, DeviceAliases,
    DownloadTableDelegate, GroupBucket, RowView, SelectionSummary, TableFilter, ViewGroupBy,
};
use crate::tasks::{DownloadTaskView, RowKey, TaskSource, TaskState, TaskStore};
use crate::text::{
    has_prefix, index_of_key, lemma_value_of, lowercase, opt_text, texts, trimmed, value_of,
};
use crate::text_laws::{blank, law_prefix_is_what_it_begins_with, law_trimming_ignores_the_ends};

verus! {

/// Without a search, a local task shows under this machine and under its own queue and no other;
/// a remote one shows under its own device and never under this machine or a queue. A task of a
/// group shows under that group, and under the download filters that accept it.
pub proof fn law_filters_take_their_tasks(
    d: &DownloadTableDelegate,
    task: &DownloadTaskView,
    taken: bool,
)
    requires
        call_ensures(DownloadTableDelegate::accepts, (d, task), taken),
        d.query@.len() == 0,
    ensures
        d.filter is LocalDevice ==> (taken <==> task.source == TaskSource::Local),
        d.filter matches TableFilter::Queue(id) ==> (task.source == TaskSource::Local ==> (taken
            <==> task.queue_id@ == id@)),
        d.filter is Queue ==> (task.source == TaskSource::Remote ==> !taken),
        d.filter is Device ==> (task.source == TaskSource::Local ==> !taken),
        d.filter matches TableFilter::Device(id) ==> (task.source == TaskSource::Remote
            && task.from_device@ == id@ ==> taken),
        d.filter matches TableFilter::Group(id) ==> (taken <==> task.group_id@ == id@),
        d.filter matches TableFilter::Download(id) ==> (taken <==> texts(
            task.accepted_by@,
        ).contains(id@)),
{
}

/// A remote task shows under a device exactly where it comes from that device, or from one of the
/// other names that are listed for it; names of another device are no matter.
pub proof fn law_device_is_known_by_its_names(
    d: &DownloadTableDelegate,
    task: &DownloadTaskView,
    device: String,
    names: DeviceAliases,
    taken: bool,
)
    requires
        call_ensures(DownloadTableDelegate::accepts, (d, task), taken),
        d.query@.len() == 0,
        d.filter == TableFilter::Device(device),
        task.source == TaskSource::Remote,
        d.device_aliases@ == seq![names],
    ensures
        names.device@ == device@ ==> (taken <==> task.from_device@ == device@ || texts(
            names.aliases@,
        ).contains(task.from_device@)),
        names.device@ != device@ ==> (taken <==> task.from_device@ == device@),
{
    let list = d.device_aliases@;
    reveal_with_fuel(aliases_of, 2);
    assert(list.drop_first() =~= Seq::empty());
}

/// Every entry of the sidebar filters by what it stands for.
pub proof fn law_sidebar_filters_by_its_entry(
    d: &DownloadTableDelegate,
    id: String,
    task: &DownloadTaskView,
    filter: TableFilter,
    taken: bool,
)
    requires
        call_ensures(filter_for, (&SidebarSelection::Queue(id),), filter),
        d.filter == filter,
        d.query@.len() == 0,
        call_ensures(DownloadTableDelegate::accepts, (d, task), taken),
    ensures
        taken <==> task.source == TaskSource::Local && task.queue_id@ == id@,
{
}

/// Without groups the rows stand by rank, and tasks of one rank in the order in which the store
/// holds them.
pub proof fn law_rows_stand_by_rank(
    d: &DownloadTableDelegate,
    all: Seq<DownloadTaskView>,
    view: Seq<RowView>,
    i: int,
    j: int,
    p: int,
    q: int,
)
    requires
        d.shows(all, view),
        d.prefs.group_by == ViewGroupBy::Off,
        0 <= i < j < view.len(),
        view[i] == RowView::Task(p),
        view[j] == RowView::Task(q),
    ensures
        all[p].rank <= all[q].rank,
        all[p].rank == all[q].rank ==> p < q,
{
    let (rows, order) = choose|rows: Seq<int>, order: Seq<usize>|
        d.arranged(all, rows) && #[trigger] d.laid_out(all, rows, order, view);
    assert(rows[i] == p && rows[j] == q);
    assert(goes_before(all, rows[i], rows[j]));
}

/// Two tasks fall into one group exactly where they have in common what the table groups by: the
/// state, the day, the category, the queue, the site or the group.
pub proof fn law_group_is_what_tasks_have_in_common(
    d: &DownloadTableDelegate,
    a: &DownloadTaskView,
    b: &DownloadTaskView,
    x: GroupBucket,
    y: GroupBucket,
)
    requires
        call_ensures(DownloadTableDelegate::group_bucket, (d, a), x),
        call_ensures(DownloadTableDelegate::group_bucket, (d, b), y),
    ensures
        d.prefs.group_by == ViewGroupBy::Status ==> (x.key@ == y.key@ <==> a.facts.state_key@
            == b.facts.state_key@),
        d.prefs.group_by == ViewGroupBy::Date ==> (x.key@ == y.key@ <==> a.facts.date_key@
            == b.facts.date_key@),
        d.prefs.group_by == ViewGroupBy::Type ==> (x.key@ == y.key@ <==> a.facts.category_id@
            == b.facts.category_id@),
        d.prefs.group_by == ViewGroupBy::Group ==> (x.key@ == y.key@ <==> a.group_id@
            == b.group_id@),
        d.prefs.group_by == ViewGroupBy::Queue && a.source == TaskSource::Local && b.source
            == TaskSource::Local ==> (x.key@ == y.key@ <==> a.queue_id@ == b.queue_id@),
        d.prefs.group_by == ViewGroupBy::Queue && a.source == TaskSource::Remote && b.source
            == TaskSource::Remote ==> x.key@ == y.key@,
        d.prefs.group_by == ViewGroupBy::Site && a.facts.source_site@.len() > 0
            && b.facts.source_site@.len() > 0 ==> (x.key@ == y.key@ <==> a.facts.source_site@
            == b.facts.source_site@),
{
    lemma_same_end("status:"@, a.facts.state_key@, b.facts.state_key@);
    lemma_same_end("date:"@, a.facts.date_key@, b.facts.date_key@);
    lemma_same_end("type:"@, a.facts.category_id@, b.facts.category_id@);
    lemma_same_end("group:"@, a.group_id@, b.group_id@);
    lemma_same_end("queue:"@, a.queue_id@, b.queue_id@);
    lemma_same_end("site:"@, a.facts.source_site@, b.facts.source_site@);
    assert("group:"@ + Seq::<char>::empty() =~= "group:"@);
    if a.group_id@.len() == 0 {
        assert(a.group_id@ =~= Seq::empty());
    }
    if b.group_id@.len() == 0 {
        assert(b.group_id@ =~= Seq::empty());
    }
}

proof fn lemma_same_end(start: Seq<char>, a: Seq<char>, b: Seq<char>)
    ensures
        start + a == start + b <==> a == b,
{
    law_prefix_is_what_it_begins_with(start + a, start, a);
    law_prefix_is_what_it_begins_with(start + b, start, b);
}

/// A group is called what its tasks have in common: a state or a day by its own label, a category,
/// a queue or a group by the name that is listed for it, a site by itself.
pub proof fn law_group_is_called_by_its_name(
    d: &DownloadTableDelegate,
    task: &DownloadTaskView,
    bucket: GroupBucket,
)
    requires
        call_ensures(DownloadTableDelegate::group_bucket, (d, task), bucket),
    ensures
        d.prefs.group_by == ViewGroupBy::Status ==> bucket.label@ == task.facts.state_label@
            && bucket.order == task.facts.state_rank,
        d.prefs.group_by == ViewGroupBy::Date ==> bucket.label@ == task.facts.date_label@
            && bucket.order == task.facts.date_order,
        d.prefs.group_by == ViewGroupBy::Site ==> bucket.label@ == if task.facts.source_site@.len()
            > 0 {
            task.facts.source_site@
        } else {
            task.facts.unknown_site@
        },
        d.prefs.group_by == ViewGroupBy::Type ==> (value_of(
            d.categories@,
            task.facts.category_id@,
        ) matches Some(name) ==> bucket.label@ == name),
        d.prefs.group_by == ViewGroupBy::Queue && task.source == TaskSource::Local ==> (value_of(
            d.queue_names@,
            task.queue_id@,
        ) matches Some(name) ==> bucket.label@ == name),
        d.prefs.group_by == ViewGroupBy::Queue && task.source == TaskSource::Remote ==> bucket.label@
            == d.strings.remote_tasks@,
        d.prefs.group_by == ViewGroupBy::Group && task.group_id@.len() > 0 ==> (value_of(
            d.group_names@,
            task.group_id@,
        ) matches Some(name) ==> bucket.label@ == name),
        d.prefs.group_by == ViewGroupBy::Group && task.group_id@.len() == 0 ==> bucket.label@
            == d.strings.ungrouped@,
{
}

/// Of two listed queues the one listed first stands first; a listed queue stands before one that is
/// not, and that before the remote tasks. Categories stand alike.
pub proof fn law_listed_groups_stand_as_listed(
    d: &DownloadTableDelegate,
    a: &DownloadTaskView,
    b: &DownloadTaskView,
    x: GroupBucket,
    y: GroupBucket,
)
    requires
        call_ensures(DownloadTableDelegate::group_bucket, (d, a), x),
        call_ensures(DownloadTableDelegate::group_bucket, (d, b), y),
        d.queue_names@.len() < i64::MAX - 1,
        d.categories@.len() < i64::MAX,
    ensures
        d.prefs.group_by == ViewGroupBy::Queue && a.source == TaskSource::Local && b.source
            == TaskSource::Local && value_of(d.queue_names@, a.queue_id@) is Some ==> {
            &&& value_of(d.queue_names@, b.queue_id@) is None ==> x.order < y.order
            &&& value_of(d.queue_names@, b.queue_id@) is Some ==> (x.order < y.order <==> index_of_key(
                d.queue_names@,
                a.queue_id@,
            ) < index_of_key(d.queue_names@, b.queue_id@))
        },
        d.prefs.group_by == ViewGroupBy::Queue && a.source == TaskSource::Local && b.source
            == TaskSource::Remote ==> x.order < y.order,
        d.prefs.group_by == ViewGroupBy::Type && value_of(d.categories@, a.facts.category_id@) is Some
            ==> {
            &&& value_of(d.categories@, b.facts.category_id@) is None ==> x.order < y.order
            &&& value_of(d.categories@, b.facts.category_id@) is Some ==> (x.order < y.order <==> index_of_key(
                d.categories@,
                a.facts.category_id@,
            ) < index_of_key(d.categories@, b.facts.category_id@))
        },
{
    lemma_value_of(d.queue_names@, a.queue_id@);
    lemma_value_of(d.queue_names@, b.queue_id@);
    lemma_value_of(d.categories@, a.facts.category_id@);
    lemma_value_of(d.categories@, b.facts.category_id@);
}

/// A running task says how fast it is and how long it will take, each where it is known; the time
/// only where it is at most a day. A task that does not run says its state.
pub proof fn law_running_task_says_speed_and_time(
    d: &DownloadTableDelegate,
    task: &DownloadTaskView,
    label: String,
    speed: u64,
    eta: u64,
)
    requires
        call_ensures(DownloadTableDelegate::status_label, (d, task), label),
    ensures
        task.state != TaskState::Downloading ==> label@ == task.facts.state_label@,
        task.state == TaskState::Downloading && task.speed_bytes_per_second == Some(speed) && speed
            > 0 && task.eta_seconds == Some(eta) && eta <= 86_400 ==> label@ == task.speed_text@
            + "/s"@ + " · "@ + task.eta_text@,
        task.state == TaskState::Downloading && task.speed_bytes_per_second == Some(speed) && speed
            > 0 && (task.eta_seconds is None || (task.eta_seconds == Some(eta) && eta > 86_400))
            ==> label@ == task.speed_text@ + "/s"@,
        task.state == TaskState::Downloading && (task.speed_bytes_per_second is None
            || task.speed_bytes_per_second == Some(0u64)) && task.eta_seconds == Some(eta) && eta
            <= 86_400 ==> label@ == task.eta_text@,
        task.state == TaskState::Downloading && task.speed_bytes_per_second is None
            && task.eta_seconds is None ==> label@ == d.strings.status_downloading@,
{
}

/// How far a task is: what is there of how much, or only what is there while the size is unknown.
pub proof fn law_progress_says_how_far(task: &DownloadTaskView, text: String)
    requires
        call_ensures(bytes_progress, (task,), text),
    ensures
        task.size_bytes > 0 ==> text@ == task.downloaded_text@ + " / "@ + task.size_text@,
        task.size_bytes <= 0 ==> text@ == task.downloaded_text@,
{
}

/// Every column shows its own value of the task, and a dash where that is not known.
pub proof fn law_columns_show_their_own_value(
    d: &DownloadTableDelegate,
    task: &DownloadTaskView,
    kind: DownloadColumnKind,
    cell: Cell,
    meta: MetaCell,
)
    requires
        call_ensures(DownloadTableDelegate::cell, (d, task, kind), cell),
        cell == Cell::Meta(meta),
    ensures
        !meta.known ==> meta.text@ == "—"@,
        kind == DownloadColumnKind::Size ==> meta.known == (task.size_bytes > 0) && (meta.known
            ==> meta.text@ == task.size_text@),
        kind == DownloadColumnKind::Speed ==> (meta.known ==> task.state == TaskState::Downloading
            && meta.text@ == task.speed_text@ + "/s"@),
        kind == DownloadColumnKind::Speed && task.state == TaskState::Downloading ==> (meta.known
            <==> task.speed_bytes_per_second is Some && task.speed_bytes_per_second->0 > 0),
        kind == DownloadColumnKind::Eta ==> (meta.known ==> task.state == TaskState::Downloading
            && meta.text@ == task.eta_text@),
        kind == DownloadColumnKind::Eta && task.state == TaskState::Downloading ==> (meta.known <==>
            task.eta_seconds is Some && task.eta_seconds->0 <= 86_400),
        kind == DownloadColumnKind::Created ==> meta.known == (task.created_at_secs > 0) && (
        meta.known ==> meta.text@ == task.created_text@),
        kind == DownloadColumnKind::Protocol ==> meta.known && meta.text@ == task.protocol_label@,
        kind == DownloadColumnKind::Source ==> meta.known && meta.text@ == task.facts.source_site@,
        kind == DownloadColumnKind::Queue ==> meta.known && meta.text@ == match value_of(
            d.queue_names@,
            task.queue_id@,
        ) {
            Some(name) => name,
            None => task.queue_id@,
        },
        meta.numeric <==> kind == DownloadColumnKind::Size || kind == DownloadColumnKind::Speed
            || kind == DownloadColumnKind::Eta || kind == DownloadColumnKind::Created,
        kind != DownloadColumnKind::FileName && kind != DownloadColumnKind::Progress && kind
            != DownloadColumnKind::Status,
{
}

/// The column of file names shows the name, or that it is being asked for; progress is shown until
/// the task is done.
pub proof fn law_file_and_progress_cells(
    d: &DownloadTableDelegate,
    task: &DownloadTaskView,
    file: Cell,
    progress: Cell,
)
    requires
        call_ensures(DownloadTableDelegate::cell, (d, task, DownloadColumnKind::FileName), file),
        call_ensures(
            DownloadTableDelegate::cell,
            (d, task, DownloadColumnKind::Progress),
            progress,
        ),
    ensures
        match file {
            Cell::File(cell) => {
                &&& cell.loading == task.metadata_pending
                &&& !task.metadata_pending ==> cell.name@ == task.name@
                &&& task.metadata_pending ==> cell.name@ == d.strings.metadata_loading@
                    && cell.meta is None
                &&& !d.prefs.density.two_line ==> cell.meta is None
                &&& d.prefs.density.two_line && !task.metadata_pending ==> cell.meta is Some
            },
            _ => false,
        },
        progress == (Cell::Progress { shown: task.state != TaskState::Completed }),
{
}

/// A task that failed with a message shows the whole message as its tooltip.
pub proof fn law_failure_is_told_in_full(
    d: &DownloadTableDelegate,
    task: &DownloadTaskView,
    status: Cell,
)
    requires
        call_ensures(DownloadTableDelegate::cell, (d, task, DownloadColumnKind::Status), status),
        task.state == TaskState::Failed,
        trimmed(task.error_message@).len() > 0,
    ensures
        match status {
            Cell::Status(cell) => opt_text(cell.tooltip) == Some(task.error_message@) && cell.label@
                == task.facts.state_label@ && (!d.prefs.density.two_line ==> cell.detail is None),
            _ => false,
        },
{
}

/// The second line of a task: how far it is while it runs or is paused, nothing while it waits or
/// when it is done.
pub proof fn law_second_line_says_how_far(
    d: &DownloadTableDelegate,
    task: &DownloadTaskView,
    detail: Option<String>,
    progress: String,
)
    requires
        call_ensures(DownloadTableDelegate::status_detail, (d, task), detail),
        call_ensures(bytes_progress, (task,), progress),
    ensures
        task.state == TaskState::Paused ==> opt_text(detail) == Some(progress@),
        task.state == TaskState::Downloading ==> detail is Some && has_prefix(
            detail->0@,
            progress@,
        ),
        task.state == TaskState::Downloading && task.active_transfers is None
            && !task.runtime_connected ==> opt_text(detail) == Some(progress@),
        task.state == TaskState::Pending || task.state == TaskState::Completed ==> detail is None,
{
    if task.state == TaskState::Downloading {
        let text = detail->0@;
        match crate::table_cells::transfer_text(d.strings, *task) {
            Some(transfers) => {
                assert(text =~= progress@ + (" · "@ + transfers));
                law_prefix_is_what_it_begins_with(text, progress@, " · "@ + transfers);
            },
            None => {
                assert(text =~= progress@ + Seq::<char>::empty());
                law_prefix_is_what_it_begins_with(text, progress@, Seq::empty());
            },
        }
    }
}

/// The indexes below `n` at which `holds` is true.
pub open spec fn places(n: int, holds: spec_fn(int) -> bool) -> Set<int> {
    Set::new(|p: int| 0 <= p < n && holds(p))
}

proof fn lemma_places_step(n: int, holds: spec_fn(int) -> bool)
    requires
        n > 0,
        places(n - 1, holds).finite(),
    ensures
        places(n, holds).finite(),
        places(n, holds).len() == places(n - 1, holds).len() + if holds(n - 1) {
            1int
        } else {
            0
        },
{
    let before = places(n - 1, holds);
    if holds(n - 1) {
        assert(places(n, holds) =~= before.insert(n - 1));
    } else {
        assert(places(n, holds) =~= before);
    }
}

proof fn lemma_counts(
    tasks: Seq<DownloadTaskView>,
    id: Seq<char>,
    n: int,
    in_group: spec_fn(int) -> bool,
    done: spec_fn(int) -> bool,
    queued: spec_fn(int) -> bool,
    accepted: spec_fn(int) -> bool,
)
    requires
        0 <= n <= tasks.len(),
        forall|p: int|
            0 <= p < tasks.len() ==> in_group(p) == ((#[trigger] tasks[p]).group_id@ == id) && done(
                p,
            ) == (tasks[p].group_id@ == id && tasks[p].state == TaskState::Completed) && queued(p)
                == (tasks[p].queue_id@ == id) && accepted(p) == texts(
                tasks[p].accepted_by@,
            ).contains(id),
    ensures
        places(n, in_group).finite(),
        places(n, done).finite(),
        places(n, queued).finite(),
        places(n, accepted).finite(),
        group_counts(tasks, id, n).1 == places(n, in_group).len(),
        group_counts(tasks, id, n).0 == places(n, done).len(),
        queued_count(tasks, id, n) == places(n, queued).len(),
        accepted_count(tasks, id, n) == places(n, accepted).len(),
    decreases n,
{
    if n == 0 {
        assert(places(0, in_group) =~= Set::empty());
        assert(places(0, done) =~= Set::empty());
        assert(places(0, queued) =~= Set::empty());
        assert(places(0, accepted) =~= Set::empty());
    } else {
        lemma_counts(tasks, id, n - 1, in_group, done, queued, accepted);
        lemma_places_step(n, in_group);
        lemma_places_step(n, done);
        lemma_places_step(n, queued);
        lemma_places_step(n, accepted);
        assert(tasks[n - 1].group_id@ == id <==> in_group(n - 1));
    }
}

/// The progress of a group counts the local tasks that belong to it, and those of them that are
/// done.
pub proof fn law_group_progress_counts_its_tasks(
    id: Seq<char>,
    key: &str,
    store: &TaskStore,
    progress: Option<(usize, usize)>,
)
    requires
        call_ensures(group_progress, (key, store), progress),
        key@ == "group:"@ + id,
        id.len() > 0,
    ensures
        progress is Some,
        (progress->0).1 == places(
            store.local@.len() as int,
            |p: int| store.local@[p].group_id@ == id,
        ).len(),
        (progress->0).0 == places(
            store.local@.len() as int,
            |p: int|
                store.local@[p].group_id@ == id && store.local@[p].state == TaskState::Completed,
        ).len(),
{
    law_prefix_is_what_it_begins_with(key@, "group:"@, id);
    lemma_counts(
        store.local@,
        id,
        store.local@.len() as int,
        |p: int| store.local@[p].group_id@ == id,
        |p: int| store.local@[p].group_id@ == id && store.local@[p].state == TaskState::Completed,
        |p: int| store.local@[p].queue_id@ == id,
        |p: int| texts(store.local@[p].accepted_by@).contains(id),
    );
}

/// The number beside a queue is that of the local tasks in it; the number beside a download filter
/// is that of the tasks, local and remote, that it accepts.
pub proof fn law_sidebar_counts_tasks(store: &TaskStore, id: &str, queued: usize, accepted: usize)
    requires
        call_ensures(count_in_queue, (store, id), queued),
        call_ensures(count_matching, (store, id), accepted),
    ensures
        queued == places(
            store.local@.len() as int,
            |p: int| store.local@[p].queue_id@ == id@,
        ).len(),
        accepted == places(
            store.all().len() as int,
            |p: int| texts(store.all()[p].accepted_by@).contains(id@),
        ).len(),
{
    lemma_counts(
        store.local@,
        id@,
        store.local@.len() as int,
        |p: int| store.local@[p].group_id@ == id@,
        |p: int| store.local@[p].group_id@ == id@ && store.local@[p].state == TaskState::Completed,
        |p: int| store.local@[p].queue_id@ == id@,
        |p: int| texts(store.local@[p].accepted_by@).contains(id@),
    );
    lemma_counts(
        store.all(),
        id@,
        store.all().len() as int,
        |p: int| store.all()[p].group_id@ == id@,
        |p: int| store.all()[p].group_id@ == id@ && store.all()[p].state == TaskState::Completed,
        |p: int| store.all()[p].queue_id@ == id@,
        |p: int| texts(store.all()[p].accepted_by@).contains(id@),
    );
}

/// The menu of a group offers to try again what failed exactly where one of its local tasks
/// failed; the rest of it is always there, and no group has no menu.
pub proof fn law_group_menu_retries_failures(
    group_id: &str,
    store: &TaskStore,
    menu: Vec<GroupMenuEntry>,
)
    requires
        call_ensures(group_context_menu, (group_id, store), menu),
    ensures
        group_id@.len() == 0 ==> menu@.len() == 0,
        group_id@.len() > 0 ==> {
            &&& menu@.contains(GroupMenuEntry::RetryFailed) <==> exists|i: int|
                0 <= i < store.local@.len() && (#[trigger] store.local@[i]).group_id@ == group_id@
                    && store.local@[i].state == TaskState::Failed
            &&& menu@.contains(GroupMenuEntry::PauseAll)
            &&& menu@.contains(GroupMenuEntry::ResumeAll)
            &&& menu@.contains(GroupMenuEntry::Delete)
            &&& menu@.contains(GroupMenuEntry::DeleteWithFiles)
        },
{
    let m = menu@;
    if group_id@.len() > 0 {
        assert(m[0] == GroupMenuEntry::PauseAll);
        assert(m[1] == GroupMenuEntry::ResumeAll);
        assert(m[m.len() - 3] == GroupMenuEntry::Delete);
        assert(m[m.len() - 2] == GroupMenuEntry::DeleteWithFiles);
        if crate::table_cells::has_failed_member(store.local@, group_id@) {
            assert(m[2] == GroupMenuEntry::RetryFailed);
        }
        if m.contains(GroupMenuEntry::RetryFailed) {
            let k = choose|k: int| 0 <= k < m.len() && m[k] == GroupMenuEntry::RetryFailed;
            assert(k == 2);
        }
    }
}

/// The header of a group knows its group: a group's key gives its identifier back, and the key of
/// tasks without a group, or of another way to group, gives none.
pub proof fn law_group_key_gives_its_group(id: Seq<char>, key: &str, found: Option<String>)
    requires
        call_ensures(group_id_of, (key,), found),
    ensures
        key@ == "group:"@ + id && id.len() > 0 ==> opt_text(found) == Some(id),
        key@ == "group:"@ ==> found is None,
        !has_prefix(key@, "group:"@) ==> found is None,
{
    law_prefix_is_what_it_begins_with(key@, "group:"@, id);
    law_prefix_is_what_it_begins_with(key@, "group:"@, Seq::empty());
    assert("group:"@ + Seq::<char>::empty() =~= "group:"@);
}

/// With the shift key, the tasks from the last clicked one to the clicked one are selected, both
/// with them, in whichever direction, and no others.
pub proof fn law_shift_selects_from_one_to_the_other(
    keys: Seq<(bool, Seq<char>)>,
    i: int,
    j: int,
    k: int,
)
    requires
        keys.no_duplicates(),
        0 <= i < keys.len(),
        0 <= j < keys.len(),
        0 <= k < keys.len(),
    ensures
        range_between(keys, keys[i], keys[j]).contains(keys[k]) <==> (i <= k <= j || j <= k <= i),
{
    lemma_first_place(keys, i);
    lemma_first_place(keys, j);
    let (lo, hi) = if i <= j {
        (i, j)
    } else {
        (j, i)
    };
    let part = keys.subrange(lo, hi + 1);
    if lo <= k <= hi {
        assert(part[k - lo] == keys[k]);
    }
    if part.contains(keys[k]) {
        let x = choose|x: int| 0 <= x < part.len() && part[x] == keys[k];
        assert(keys[lo + x] == keys[k]);
    }
}

proof fn lemma_first_place(keys: Seq<(bool, Seq<char>)>, i: int)
    requires
        keys.no_duplicates(),
        0 <= i < keys.len(),
    ensures
        first_key(keys, keys[i]) == i,
    decreases keys.len(),
{
    if i > 0 {
        assert(keys[0] != keys[i]);
        let rest = keys.drop_first();
        assert forall|a: int, b: int|
            0 <= a < rest.len() && 0 <= b < rest.len() && a != b implies rest[a] != rest[b] by {
            assert(keys[a + 1] != keys[b + 1]);
        }
        lemma_first_place(rest, i - 1);
        assert(rest[i - 1] == keys[i]);
    }
}

/// The box in the header turns everything on, and when everything is on, off again.
pub proof fn law_header_box_turns_all_on_and_off(
    d: &mut DownloadTableDelegate,
    e: &mut DownloadTableDelegate,
    store: &TaskStore,
)
    requires
        old(d).selected_tasks@ == Set::<(bool, Seq<char>)>::empty(),
        call_ensures(DownloadTableDelegate::toggle_all_tasks, (d, store), ()),
        *old(e) == *final(d),
        call_ensures(DownloadTableDelegate::toggle_all_tasks, (e, store), ()),
    ensures
        final(d).selected_tasks@ == keys_shown(store, old(d).visible@).to_set(),
        final(e).selected_tasks@ == Set::<(bool, Seq<char>)>::empty(),
{
    let keys = keys_shown(store, old(d).visible@);
    crate::table_selection::law_select_all_checks_the_header(keys);
    if keys.len() == 0 {
        assert(keys.to_set() =~= Set::empty());
    }
}

/// The summary of a selection of one task is that task's: one, local or not, active while it runs
/// or waits, to be resumed while it is paused or failed.
pub proof fn law_summary_of_one_task(
    d: &DownloadTableDelegate,
    store: &TaskStore,
    key: (bool, Seq<char>),
    summary: SelectionSummary,
)
    requires
        call_ensures(DownloadTableDelegate::selection_summary, (d, store), summary),
        d.selected_tasks@ == Set::<(bool, Seq<char>)>::empty().insert(key),
        live(store, key),
    ensures
        summary.count == 1,
        summary.any,
        summary.any_local <==> key.0,
        summary.any_active <==> state_of(store, key) == TaskState::Downloading || state_of(
            store,
            key,
        ) == TaskState::Pending,
        summary.any_resumable <==> state_of(store, key) == TaskState::Paused || state_of(store, key)
            == TaskState::Failed,
{
    let held = d.selected_tasks@.filter(|k: (bool, Seq<char>)| live(store, k));
    assert(held =~= Set::<(bool, Seq<char>)>::empty().insert(key));
    assert(held.contains(key));
}

/// A task that is gone counts for nothing in the summary of the selection.
pub proof fn law_summary_leaves_out_what_is_gone(
    d: &DownloadTableDelegate,
    store: &TaskStore,
    key: (bool, Seq<char>),
    summary: SelectionSummary,
)
    requires
        call_ensures(DownloadTableDelegate::selection_summary, (d, store), summary),
        d.selected_tasks@ == Set::<(bool, Seq<char>)>::empty().insert(key),
        !live(store, key),
    ensures
        summary.count == 0,
        !summary.any,
        !summary.any_local,
        !summary.any_active,
        !summary.any_resumable,
{
    let held = d.selected_tasks@.filter(|k: (bool, Seq<char>)| live(store, k));
    assert(held =~= Set::<(bool, Seq<char>)>::empty());
}

/// Opening the menu on a task of the selection keeps the selection; on another task it selects
/// that one alone.
pub proof fn law_menu_keeps_the_selection_it_opens_on(d: &mut DownloadTableDelegate, key: RowKey)
    requires
        call_ensures(DownloadTableDelegate::select_task_for_context_menu, (d, key), ()),
    ensures
        final(d).selected_tasks@.contains(key@),
        old(d).selected_tasks@.contains(key@) ==> final(d).selected_tasks@ == old(d).selected_tasks@,
        !old(d).selected_tasks@.contains(key@) ==> forall|k: (bool, Seq<char>)| #[trigger]
            final(d).selected_tasks@.contains(k) ==> k == key@,
{
}

/// Clicking the heading of a column sorts by that column, names upwards and the rest downwards;
/// clicking it again turns the direction round, and once more turns it back.
pub proof fn law_heading_turns_the_order_round(
    d: &mut DownloadTableDelegate,
    e: &mut DownloadTableDelegate,
    kind: DownloadColumnKind,
    key: ViewSortKey,
    first: bool,
    second: bool,
)
    requires
        kind == DownloadColumnKind::FileName && key == ViewSortKey::Name || kind
            == DownloadColumnKind::Progress && key == ViewSortKey::Progress || kind
            == DownloadColumnKind::Size && key == ViewSortKey::Size || kind
            == DownloadColumnKind::Speed && key == ViewSortKey::Speed || kind
            == DownloadColumnKind::Created && key == ViewSortKey::Created,
        old(d).prefs.sort_key != key,
        call_ensures(DownloadTableDelegate::toggle_sort, (d, kind), first),
        *old(e) == *final(d),
        call_ensures(DownloadTableDelegate::toggle_sort, (e, kind), second),
    ensures
        first && second,
        final(d).prefs.sort_key == key,
        final(e).prefs.sort_key == key,
        kind == DownloadColumnKind::FileName ==> final(d).prefs.sort_dir == SortDir::Asc
            && final(e).prefs.sort_dir == SortDir::Desc,
        kind != DownloadColumnKind::FileName ==> final(d).prefs.sort_dir == SortDir::Desc
            && final(e).prefs.sort_dir == SortDir::Asc,
        final(d).view_dirty,
        final(d).prefs.group_by == old(d).prefs.group_by,
        final(d).filter == old(d).filter,
        final(d).query == old(d).query,
{
}

/// Folding a group twice leaves every group as it was; folding it once changes that group alone.
pub proof fn law_folding_twice_changes_nothing(
    d: &mut DownloadTableDelegate,
    e: &mut DownloadTableDelegate,
    key: &str,
    other: Seq<char>,
)
    requires
        call_ensures(DownloadTableDelegate::toggle_group_collapsed, (d, key), ()),
        *old(e) == *final(d),
        call_ensures(DownloadTableDelegate::toggle_group_collapsed, (e, key), ()),
    ensures
        final(d).is_collapsed(key@) != old(d).is_collapsed(key@),
        other != key@ ==> final(d).is_collapsed(other) == old(d).is_collapsed(other),
        final(e).is_collapsed(other) == old(d).is_collapsed(other),
{
}

/// White space around a search makes no difference; the search is kept in small letters.
pub proof fn law_search_is_trimmed(
    d: &mut DownloadTableDelegate,
    before: Seq<char>,
    query: Seq<char>,
    after: Seq<char>,
    typed: &str,
)
    requires
        blank(before),
        blank(after),
        query.len() > 0 ==> !crate::text::white_space(query[0]) && !crate::text::white_space(
            query.last(),
        ),
        typed@ == before + query + after,
        call_ensures(DownloadTableDelegate::set_query, (d, typed), ()),
    ensures
        final(d).query@ == lowercase(query),
        final(d).filter == old(d).filter,
        final(d).prefs == old(d).prefs,
        old(d).query@ != lowercase(query) ==> final(d).view_dirty,
{
    law_trimming_ignores_the_ends(before, query, after);
}

/// After a filter was set it is in force, and the rows are worked out anew where it is another.
pub proof fn law_set_filter_is_in_force(
    d: &mut DownloadTableDelegate,
    filter: TableFilter,
    task: &DownloadTaskView,
    taken: bool,
)
    requires
        filter is LocalDevice,
        old(d).query@.len() == 0,
        call_ensures(DownloadTableDelegate::set_filter, (d, filter), ()),
        call_ensures(DownloadTableDelegate::accepts, (&*final(d), task), taken),
    ensures
        taken <==> task.source == TaskSource::Local,
        !(old(d).filter is LocalDevice) ==> final(d).view_dirty,
        final(d).query == old(d).query,
        final(d).prefs == old(d).prefs,
{
}

} // verus!
