//! What holds of the task table as a whole.

use vstd::prelude::*;

use crate::order::{lemma_stable_order_distinct, stable_order, stands_before};
use crate::task_table::{
    filter_takes, goes_before, key_shown, keys_shown, live, lemma_bucket_rule, lemma_heads_distinct, lemma_order_onto,
    query_finds, row_held, row_views, rows_held, task_rows, DownloadTableDelegate, RowView, ViewGroupBy,
    ViewPrefs, VisibleRow,
};
use crate::tasks::{key_views, DownloadTaskView, RowId, RowKey, TaskStore};
use crate::text::{has_part, lowercase};
use crate::text_laws::law_part_stands_between;

verus! {

/// Two lists in the same strict order that hold the same items are the same.
proof fn lemma_sorted_unique(a: Seq<int>, b: Seq<int>, before: spec_fn(int, int) -> bool)
    requires
        forall|i: int, j: int| 0 <= i < j < a.len() ==> before(#[trigger] a[i], #[trigger] a[j]),
        forall|i: int, j: int| 0 <= i < j < b.len() ==> before(#[trigger] b[i], #[trigger] b[j]),
        forall|x: int| #[trigger] a.contains(x) <==> b.contains(x),
        forall|x: int, y: int|
            a.contains(x) && a.contains(y) && #[trigger] before(x, y) ==> !before(y, x),
    ensures
        a == b,
    decreases a.len(),
{
    if a.len() == 0 {
        if b.len() > 0 {
            assert(b.contains(b[0]));
            assert(a.contains(b[0]));
        }
        assert(a =~= b);
    } else {
        assert(a.contains(a[0]));
        let i = choose|i: int| 0 <= i < b.len() && b[i] == a[0];
        assert(b.contains(b[0]));
        let j = choose|j: int| 0 <= j < a.len() && a[j] == b[0];
        assert(a.contains(b[0]));
        if i > 0 && j > 0 {
            assert(before(b[0], b[i]));
            assert(before(a[0], a[j]));
        }
        assert(a[0] == b[0]);
        let x = a.drop_first();
        let y = b.drop_first();
        assert forall|v: int| #[trigger] x.contains(v) <==> y.contains(v) by {
            if x.contains(v) {
                let k = choose|k: int| 0 <= k < x.len() && x[k] == v;
                assert(a[k + 1] == v);
                assert(a.contains(v));
                assert(b.contains(v));
                let m = choose|m: int| 0 <= m < b.len() && b[m] == v;
                if m == 0 {
                    assert(before(a[0], a[k + 1]));
                }
                assert(y[m - 1] == v);
            }
            if y.contains(v) {
                let k = choose|k: int| 0 <= k < y.len() && y[k] == v;
                assert(b[k + 1] == v);
                assert(b.contains(v));
                assert(a.contains(v));
                let m = choose|m: int| 0 <= m < a.len() && a[m] == v;
                if m == 0 {
                    assert(before(b[0], b[k + 1]));
                }
                assert(x[m - 1] == v);
            }
        }
        assert forall|k: int, m: int| 0 <= k < m < x.len() implies before(
            #[trigger] x[k],
            #[trigger] x[m],
        ) by {
            assert(before(a[k + 1], a[m + 1]));
        }
        assert forall|k: int, m: int| 0 <= k < m < y.len() implies before(
            #[trigger] y[k],
            #[trigger] y[m],
        ) by {
            assert(before(b[k + 1], b[m + 1]));
        }
        assert forall|v: int, w: int|
            x.contains(v) && x.contains(w) && #[trigger] before(v, w) implies !before(w, v) by {
            let k = choose|k: int| 0 <= k < x.len() && x[k] == v;
            let m = choose|m: int| 0 <= m < x.len() && x[m] == w;
            assert(a[k + 1] == v && a[m + 1] == w);
            assert(a.contains(v) && a.contains(w));
        }
        lemma_sorted_unique(x, y, before);
        assert(a =~= seq![a[0]] + x);
        assert(b =~= seq![b[0]] + y);
    }
}

proof fn lemma_arranged_unique(
    d: &DownloadTableDelegate,
    all: Seq<DownloadTaskView>,
    a: Seq<int>,
    b: Seq<int>,
)
    requires
        d.arranged(all, a),
        d.arranged(all, b),
    ensures
        a == b,
{
    assert forall|x: int| #[trigger] a.contains(x) <==> b.contains(x) by {
        if a.contains(x) {
            let i = choose|i: int| 0 <= i < a.len() && a[i] == x;
            assert(d.takes(all[a[i]]));
        }
        if b.contains(x) {
            let i = choose|i: int| 0 <= i < b.len() && b[i] == x;
            assert(d.takes(all[b[i]]));
        }
    }
    lemma_sorted_unique(a, b, |x: int, y: int| goes_before(all, x, y));
}

proof fn lemma_stable_order_unique(
    a: Seq<usize>,
    b: Seq<usize>,
    n: nat,
    less: spec_fn(int, int) -> bool,
)
    requires
        crate::order::weak_order(n, less),
        stable_order(a, n, less),
        stable_order(b, n, less),
    ensures
        a == b,
{
    let x = a.map_values(|v: usize| v as int);
    let y = b.map_values(|v: usize| v as int);
    assert forall|v: int| #[trigger] x.contains(v) <==> y.contains(v) by {
        if x.contains(v) {
            let i = choose|i: int| 0 <= i < x.len() && x[i] == v;
            assert(a[i] < n);
            lemma_order_onto(b, n, less, v);
            let j = choose|j: int| 0 <= j < b.len() && b[j] == v;
            assert(y[j] == v);
        }
        if y.contains(v) {
            let i = choose|i: int| 0 <= i < y.len() && y[i] == v;
            assert(b[i] < n);
            lemma_order_onto(a, n, less, v);
            let j = choose|j: int| 0 <= j < a.len() && a[j] == v;
            assert(x[j] == v);
        }
    }
    let before = |v: int, w: int| stands_before(less, v, w);
    assert forall|i: int, j: int| 0 <= i < j < x.len() implies before(
        #[trigger] x[i],
        #[trigger] x[j],
    ) by {
        assert(stands_before(less, a[i] as int, a[j] as int));
    }
    assert forall|i: int, j: int| 0 <= i < j < y.len() implies before(
        #[trigger] y[i],
        #[trigger] y[j],
    ) by {
        assert(stands_before(less, b[i] as int, b[j] as int));
    }
    assert forall|v: int, w: int|
        x.contains(v) && x.contains(w) && #[trigger] before(v, w) implies !before(w, v) by {
        let i = choose|i: int| 0 <= i < x.len() && x[i] == v;
        let j = choose|j: int| 0 <= j < x.len() && x[j] == w;
        assert(a[i] < n && a[j] < n);
    }
    lemma_sorted_unique(x, y, before);
    assert forall|i: int| 0 <= i < a.len() implies a[i] == b[i] by {
        assert(x[i] == y[i]);
    }
    assert(a =~= b);
}

/// The tasks, the filter, the search and the preferences fix what the table shows, to the order
/// of its rows.
pub proof fn law_view_is_determined(
    d: &DownloadTableDelegate,
    all: Seq<DownloadTaskView>,
    a: Seq<RowView>,
    b: Seq<RowView>,
)
    requires
        d.shows(all, a),
        d.shows(all, b),
    ensures
        a == b,
{
    let (rows_a, order_a) = choose|rows: Seq<int>, order: Seq<usize>|
        d.arranged(all, rows) && #[trigger] d.laid_out(all, rows, order, a);
    let (rows_b, order_b) = choose|rows: Seq<int>, order: Seq<usize>|
        d.arranged(all, rows) && #[trigger] d.laid_out(all, rows, order, b);
    lemma_arranged_unique(d, all, rows_a, rows_b);
    if d.prefs.group_by != ViewGroupBy::Off {
        let heads = d.heads(all, rows_a);
        lemma_bucket_rule(d, all, heads);
        lemma_stable_order_unique(order_a, order_b, heads.len(), d.group_rule(all, heads));
    }
}

/// Every row belongs to the group of one of the first rows, and to the members of that group.
proof fn lemma_member(
    d: &DownloadTableDelegate,
    all: Seq<DownloadTaskView>,
    rows: Seq<int>,
    p: int,
    key: Seq<char>,
)
    ensures
        d.members(all, rows, key).contains(p) <==> rows.contains(p) && d.bucket_of(all[p]).key
            == key,
        rows.contains(p) ==> d.has_head(all, d.heads(all, rows), p),
    decreases rows.len(),
{
    if rows.len() > 0 {
        let rest = rows.drop_last();
        lemma_member(d, all, rest, p, key);
        let before = d.members(all, rest, key);
        let after = d.members(all, rows, key);
        if rest.contains(p) {
            let i = choose|i: int| 0 <= i < rest.len() && rest[i] == p;
            assert(rows[i] == p);
        }
        if rows.contains(p) && rows.last() != p {
            let i = choose|i: int| 0 <= i < rows.len() && rows[i] == p;
            assert(rest[i] == p);
        }
        if rows.last() == p {
            assert(rows[rows.len() - 1] == p);
        }
        if before.contains(p) {
            let i = choose|i: int| 0 <= i < before.len() && before[i] == p;
            assert(after[i] == p);
        }
        if after.contains(p) && !before.contains(p) {
            let i = choose|i: int| 0 <= i < after.len() && after[i] == p;
            assert(i == before.len() || before[i] == p);
        }
        if rows.last() == p && d.bucket_of(all[p]).key == key {
            assert(after[before.len() as int] == p);
        }
        let heads_before = d.heads(all, rest);
        let heads = d.heads(all, rows);
        if rest.contains(p) {
            let k = choose|k: int|
                0 <= k < heads_before.len() && d.bucket_of(all[#[trigger] heads_before[k]]).key
                    == d.bucket_of(all[p]).key;
            assert(heads[k] == heads_before[k]);
        } else if rows.last() == p && !d.has_head(all, heads_before, p) {
            assert(heads[heads_before.len() as int] == p);
        }
    }
}

/// Every first row is one of the rows.
proof fn lemma_head_is_row(
    d: &DownloadTableDelegate,
    all: Seq<DownloadTaskView>,
    rows: Seq<int>,
    k: int,
)
    requires
        0 <= k < d.heads(all, rows).len(),
    ensures
        rows.contains(d.heads(all, rows)[k]),
    decreases rows.len(),
{
    if rows.len() > 0 {
        let rest = rows.drop_last();
        let before = d.heads(all, rest);
        if k < before.len() {
            lemma_head_is_row(d, all, rest, k);
            let i = choose|i: int| 0 <= i < rest.len() && rest[i] == before[k];
            assert(rows[i] == before[k]);
        } else {
            assert(rows[rows.len() - 1] == rows.last());
        }
    }
}

proof fn lemma_block_holds(
    d: &DownloadTableDelegate,
    all: Seq<DownloadTaskView>,
    rows: Seq<int>,
    head: int,
    p: int,
)
    ensures
        ({
            let key = d.bucket_of(all[head]).key;
            d.block(all, rows, head).contains(RowView::Task(p)) <==> !d.is_collapsed(key)
                && rows.contains(p) && d.bucket_of(all[p]).key == key
        }),
{
    let key = d.bucket_of(all[head]).key;
    let members = d.members(all, rows, key);
    let block = d.block(all, rows, head);
    lemma_member(d, all, rows, p, key);
    if !d.is_collapsed(key) {
        let shown = task_rows(members);
        if members.contains(p) {
            let i = choose|i: int| 0 <= i < members.len() && members[i] == p;
            assert(shown[i] == RowView::Task(p));
            assert(block[i + 1] == RowView::Task(p));
        }
        if block.contains(RowView::Task(p)) {
            let i = choose|i: int| 0 <= i < block.len() && block[i] == RowView::Task(p);
            assert(i > 0);
            assert(shown[i - 1] == RowView::Task(p));
            assert(members[i - 1] == p);
        }
    } else {
        assert(block.len() == 1);
        if block.contains(RowView::Task(p)) {
            let i = choose|i: int| 0 <= i < block.len() && block[i] == RowView::Task(p);
            assert(i == 0);
        }
    }
}

proof fn lemma_blocks_hold(
    d: &DownloadTableDelegate,
    all: Seq<DownloadTaskView>,
    rows: Seq<int>,
    order: Seq<usize>,
    n: int,
    p: int,
)
    requires
        0 <= n <= order.len(),
        forall|i: int| 0 <= i < order.len() ==> (#[trigger] order[i]) < d.heads(all, rows).len(),
    ensures
        d.blocks(all, rows, order, n).contains(RowView::Task(p)) <==> exists|i: int|
            0 <= i < n && d.block(all, rows, d.heads(all, rows)[#[trigger] order[i] as int]).contains(
                RowView::Task(p),
            ),
    decreases n,
{
    if n > 0 {
        lemma_blocks_hold(d, all, rows, order, n - 1, p);
        let before = d.blocks(all, rows, order, n - 1);
        let last = d.block(all, rows, d.heads(all, rows)[order[n - 1] as int]);
        let row = RowView::Task(p);
        let view = before + last;
        if view.contains(row) {
            let i = choose|i: int| 0 <= i < view.len() && view[i] == row;
            if i < before.len() {
                assert(before[i] == row);
            } else {
                assert(last[i - before.len()] == row);
            }
        }
        if before.contains(row) {
            let i = choose|i: int| 0 <= i < before.len() && before[i] == row;
            assert(view[i] == row);
        }
        if last.contains(row) {
            let i = choose|i: int| 0 <= i < last.len() && last[i] == row;
            assert(view[before.len() + i] == row);
        }
    }
}

/// The table shows a task exactly where filter and search take it and no collapsed group hides
/// it.
pub proof fn law_table_shows_what_it_takes(
    d: &DownloadTableDelegate,
    all: Seq<DownloadTaskView>,
    view: Seq<RowView>,
    p: int,
)
    requires
        d.shows(all, view),
        0 <= p < all.len(),
    ensures
        view.contains(RowView::Task(p)) <==> d.takes(all[p]) && (d.prefs.group_by
            == ViewGroupBy::Off || !d.is_collapsed(d.bucket_of(all[p]).key)),
{
    let (rows, order) = choose|rows: Seq<int>, order: Seq<usize>|
        d.arranged(all, rows) && #[trigger] d.laid_out(all, rows, order, view);
    let row = RowView::Task(p);
    assert(rows.contains(p) <==> d.takes(all[p])) by {
        if rows.contains(p) {
            let i = choose|i: int| 0 <= i < rows.len() && rows[i] == p;
            assert(d.takes(all[rows[i]]));
        }
    }
    if d.prefs.group_by == ViewGroupBy::Off {
        if rows.contains(p) {
            let i = choose|i: int| 0 <= i < rows.len() && rows[i] == p;
            assert(view[i] == row);
        }
        if view.contains(row) {
            let i = choose|i: int| 0 <= i < view.len() && view[i] == row;
            assert(rows[i] == p);
        }
    } else {
        let heads = d.heads(all, rows);
        lemma_bucket_rule(d, all, heads);
        lemma_blocks_hold(d, all, rows, order, order.len() as int, p);
        let key = d.bucket_of(all[p]).key;
        if rows.contains(p) && !d.is_collapsed(key) {
            lemma_member(d, all, rows, p, key);
            let k = choose|k: int|
                0 <= k < heads.len() && d.bucket_of(all[#[trigger] heads[k]]).key == key;
            lemma_order_onto(order, heads.len(), d.group_rule(all, heads), k);
            let i = choose|i: int| 0 <= i < order.len() && order[i] == k;
            lemma_block_holds(d, all, rows, heads[order[i] as int], p);
            assert(d.block(all, rows, heads[order[i] as int]).contains(row));
        }
        if view.contains(row) {
            let i = choose|i: int|
                0 <= i < order.len() && d.block(all, rows, heads[#[trigger] order[i] as int]).contains(
                    row,
                );
            lemma_block_holds(d, all, rows, heads[order[i] as int], p);
        }
    }
}

/// No group that the table shows is empty, and a header's count is the number of the shown
/// tasks in its group, collapsed or not.
pub proof fn law_headers_count_their_group(
    d: &DownloadTableDelegate,
    all: Seq<DownloadTaskView>,
    rows: Seq<int>,
    k: int,
)
    requires
        d.arranged(all, rows),
        0 <= k < d.heads(all, rows).len(),
    ensures
        ({
            let bucket = d.bucket_of(all[d.heads(all, rows)[k]]);
            let members = d.members(all, rows, bucket.key);
            &&& members.len() > 0
            &&& d.block(all, rows, d.heads(all, rows)[k])[0] == RowView::Header(
                bucket.key,
                bucket.label,
                members.len(),
                d.is_collapsed(bucket.key),
            )
            &&& forall|p: int|
                0 <= p < all.len() ==> (#[trigger] members.contains(p) <==> d.takes(all[p])
                    && d.bucket_of(all[p]).key == bucket.key)
        }),
{
    let head = d.heads(all, rows)[k];
    let bucket = d.bucket_of(all[head]);
    let members = d.members(all, rows, bucket.key);
    lemma_head_is_row(d, all, rows, k);
    lemma_member(d, all, rows, head, bucket.key);
    assert(members.contains(head));
    assert forall|p: int| 0 <= p < all.len() implies (#[trigger] members.contains(p) <==> d.takes(
        all[p],
    ) && d.bucket_of(all[p]).key == bucket.key) by {
        lemma_member(d, all, rows, p, bucket.key);
        if rows.contains(p) {
            let i = choose|i: int| 0 <= i < rows.len() && rows[i] == p;
            assert(d.takes(all[rows[i]]));
        }
    }
}

/// Grouping, sorting and collapsing leave the selection alone: which tasks stay selected depends
/// on filter and search, and not on the other preferences.
pub proof fn law_collapsing_keeps_the_selection(
    d: DownloadTableDelegate,
    prefs: ViewPrefs,
    store: &TaskStore,
    key: (bool, Seq<char>),
)
    ensures
        (DownloadTableDelegate { prefs, ..d }).keeps(store, key) == d.keeps(store, key),
{
}

/// The tasks among the rows, in order.
pub open spec fn tasks_in(view: Seq<RowView>) -> Seq<int>
    decreases view.len(),
{
    if view.len() == 0 {
        Seq::empty()
    } else {
        let before = tasks_in(view.drop_last());
        match view.last() {
            RowView::Task(p) => before.push(p),
            RowView::Header(_, _, _, _) => before,
        }
    }
}

/// The sum of the counts of all headers.
pub open spec fn header_total(view: Seq<RowView>) -> nat
    decreases view.len(),
{
    if view.len() == 0 {
        0
    } else {
        header_total(view.drop_last()) + match view.last() {
            RowView::Task(_) => 0,
            RowView::Header(_, _, count, _) => count,
        }
    }
}

proof fn lemma_rows_append(a: Seq<RowView>, b: Seq<RowView>)
    ensures
        tasks_in(a + b) == tasks_in(a) + tasks_in(b),
        header_total(a + b) == header_total(a) + header_total(b),
    decreases b.len(),
{
    if b.len() == 0 {
        assert(a + b =~= a);
        assert(tasks_in(a) + tasks_in(b) =~= tasks_in(a));
    } else {
        lemma_rows_append(a, b.drop_last());
        assert((a + b).drop_last() =~= a + b.drop_last());
        assert((a + b).last() == b.last());
        assert(tasks_in(a + b) =~= tasks_in(a) + tasks_in(b));
    }
}

proof fn lemma_task_rows(rows: Seq<int>)
    ensures
        tasks_in(task_rows(rows)) == rows,
        header_total(task_rows(rows)) == 0,
    decreases rows.len(),
{
    if rows.len() > 0 {
        lemma_task_rows(rows.drop_last());
        assert(task_rows(rows).drop_last() =~= task_rows(rows.drop_last()));
        assert(rows.drop_last().push(rows.last()) =~= rows);
    }
}

/// The rows of the first `n` groups of an order, one group after the other; those of collapsed
/// groups only where `hidden` says so.
spec fn listed(
    d: &DownloadTableDelegate,
    all: Seq<DownloadTaskView>,
    rows: Seq<int>,
    order: Seq<usize>,
    hidden: bool,
    n: int,
) -> Seq<int>
    decreases n,
{
    if n <= 0 {
        Seq::empty()
    } else {
        let key = d.bucket_of(all[d.heads(all, rows)[order[n - 1] as int]]).key;
        listed(d, all, rows, order, hidden, n - 1) + if hidden || !d.is_collapsed(key) {
            d.members(all, rows, key)
        } else {
            Seq::empty()
        }
    }
}

proof fn lemma_blocks_list(
    d: &DownloadTableDelegate,
    all: Seq<DownloadTaskView>,
    rows: Seq<int>,
    order: Seq<usize>,
    n: int,
)
    ensures
        ({
            let view = d.blocks(all, rows, order, n);
            &&& tasks_in(view) == listed(d, all, rows, order, false, n)
            &&& header_total(view) == listed(d, all, rows, order, true, n).len()
        }),
    decreases n,
{
    if n > 0 {
        lemma_blocks_list(d, all, rows, order, n - 1);
        let head = d.heads(all, rows)[order[n - 1] as int];
        let bucket = d.bucket_of(all[head]);
        let members = d.members(all, rows, bucket.key);
        let header = seq![
            RowView::Header(bucket.key, bucket.label, members.len(), d.is_collapsed(bucket.key)),
        ];
        lemma_task_rows(members);
        lemma_rows_append(header, task_rows(members));
        lemma_rows_append(d.blocks(all, rows, order, n - 1), d.block(all, rows, head));
        reveal_with_fuel(tasks_in, 2);
        reveal_with_fuel(header_total, 2);
        assert(header.drop_last() =~= Seq::empty());
        assert(tasks_in(header) =~= Seq::empty());
        assert(header_total(header) == members.len());
        assert(tasks_in(header) + members =~= members);
    }
}

proof fn lemma_members_once(
    d: &DownloadTableDelegate,
    all: Seq<DownloadTaskView>,
    rows: Seq<int>,
    key: Seq<char>,
)
    requires
        rows.no_duplicates(),
    ensures
        d.members(all, rows, key).no_duplicates(),
    decreases rows.len(),
{
    if rows.len() > 0 {
        let rest = rows.drop_last();
        lemma_members_once(d, all, rest, key);
        lemma_member(d, all, rest, rows.last(), key);
        if rest.contains(rows.last()) {
            let i = choose|i: int| 0 <= i < rest.len() && rest[i] == rows.last();
            assert(rows[i] == rows[rows.len() - 1]);
        }
        let before = d.members(all, rest, key);
        assert(!before.contains(rows.last()));
        assert forall|i: int, j: int|
            0 <= i < before.push(rows.last()).len() && 0 <= j < before.push(rows.last()).len() && i
                != j implies before.push(rows.last())[i] != before.push(rows.last())[j] by {
            if i < before.len() {
                assert(before.contains(before[i]));
            }
            if j < before.len() {
                assert(before.contains(before[j]));
            }
        }
    }
}

/// Every row of the first `n` groups is listed once, and nothing else is.
proof fn lemma_listed(
    d: &DownloadTableDelegate,
    all: Seq<DownloadTaskView>,
    rows: Seq<int>,
    order: Seq<usize>,
    hidden: bool,
    n: int,
)
    requires
        rows.no_duplicates(),
        order.no_duplicates(),
        0 <= n <= order.len(),
        forall|i: int| 0 <= i < order.len() ==> (#[trigger] order[i]) < d.heads(all, rows).len(),
    ensures
        listed(d, all, rows, order, hidden, n).no_duplicates(),
        forall|p: int| #[trigger]
            listed(d, all, rows, order, hidden, n).contains(p) ==> rows.contains(p) && exists|i: int|
                0 <= i < n && d.bucket_of(
                    all[d.heads(all, rows)[#[trigger] order[i] as int]],
                ).key == d.bucket_of(all[p]).key,
        hidden ==> forall|p: int, i: int|
            rows.contains(p) && 0 <= i < n && d.bucket_of(
                all[d.heads(all, rows)[#[trigger] order[i] as int]],
            ).key == d.bucket_of(all[p]).key ==> #[trigger] listed(
                d,
                all,
                rows,
                order,
                hidden,
                n,
            ).contains(p),
    decreases n,
{
    if n > 0 {
        lemma_listed(d, all, rows, order, hidden, n - 1);
        lemma_heads_distinct(d, all, rows);
        let heads = d.heads(all, rows);
        let key = d.bucket_of(all[heads[order[n - 1] as int]]).key;
        let before = listed(d, all, rows, order, hidden, n - 1);
        let added = if hidden || !d.is_collapsed(key) {
            d.members(all, rows, key)
        } else {
            Seq::empty()
        };
        let now = listed(d, all, rows, order, hidden, n);
        assert(now == before + added);
        lemma_members_once(d, all, rows, key);
        assert forall|p: int| added.contains(p) implies rows.contains(p) && d.bucket_of(all[p]).key
            == key by {
            lemma_member(d, all, rows, p, key);
        }
        assert forall|p: int| before.contains(p) implies d.bucket_of(all[p]).key != key by {
            let i = choose|i: int|
                0 <= i < n - 1 && d.bucket_of(all[heads[#[trigger] order[i] as int]]).key
                    == d.bucket_of(all[p]).key;
            assert(order[i] != order[n - 1]);
        }
        assert forall|i: int, j: int|
            0 <= i < now.len() && 0 <= j < now.len() && i != j implies now[i] != now[j] by {
            if i < before.len() {
                assert(before.contains(now[i]));
            } else {
                assert(added[i - before.len()] == now[i]);
                assert(added.contains(now[i]));
            }
            if j < before.len() {
                assert(before.contains(now[j]));
            } else {
                assert(added[j - before.len()] == now[j]);
                assert(added.contains(now[j]));
            }
        }
        assert forall|p: int| #[trigger] now.contains(p) implies rows.contains(p) && exists|i: int|
            0 <= i < n && d.bucket_of(all[heads[#[trigger] order[i] as int]]).key == d.bucket_of(
                all[p],
            ).key by {
            let k = choose|k: int| 0 <= k < now.len() && now[k] == p;
            if k < before.len() {
                assert(before[k] == p && before.contains(p));
                let i = choose|i: int|
                    0 <= i < n - 1 && d.bucket_of(all[heads[#[trigger] order[i] as int]]).key
                        == d.bucket_of(all[p]).key;
                assert(0 <= i < n);
            } else {
                assert(added[k - before.len()] == p && added.contains(p));
                assert(d.bucket_of(all[heads[order[n - 1] as int]]).key == d.bucket_of(all[p]).key);
            }
        }
        if hidden {
            assert forall|p: int, i: int|
                rows.contains(p) && 0 <= i < n && d.bucket_of(
                    all[heads[#[trigger] order[i] as int]],
                ).key == d.bucket_of(all[p]).key implies #[trigger] now.contains(p) by {
                if i < n - 1 {
                    assert(before.contains(p));
                    let k = choose|k: int| 0 <= k < before.len() && before[k] == p;
                    assert(now[k] == p);
                } else {
                    lemma_member(d, all, rows, p, key);
                    let k = choose|k: int| 0 <= k < added.len() && added[k] == p;
                    assert(now[before.len() + k] == p);
                }
            }
        }
    }
}

proof fn lemma_arranged_once(
    d: &DownloadTableDelegate,
    all: Seq<DownloadTaskView>,
    rows: Seq<int>,
)
    requires
        d.arranged(all, rows),
    ensures
        rows.no_duplicates(),
{
    assert forall|i: int, j: int|
        0 <= i < rows.len() && 0 <= j < rows.len() && i != j implies rows[i] != rows[j] by {
        if i < j {
            assert(goes_before(all, rows[i], rows[j]));
        } else {
            assert(goes_before(all, rows[j], rows[i]));
        }
    }
}

/// The table shows no task twice.
pub proof fn law_table_shows_each_task_once(
    d: &DownloadTableDelegate,
    all: Seq<DownloadTaskView>,
    view: Seq<RowView>,
)
    requires
        d.shows(all, view),
    ensures
        tasks_in(view).no_duplicates(),
{
    let (rows, order) = choose|rows: Seq<int>, order: Seq<usize>|
        d.arranged(all, rows) && #[trigger] d.laid_out(all, rows, order, view);
    lemma_arranged_once(d, all, rows);
    if d.prefs.group_by == ViewGroupBy::Off {
        lemma_task_rows(rows);
    } else {
        let heads = d.heads(all, rows);
        lemma_bucket_rule(d, all, heads);
        lemma_stable_order_distinct(order, heads.len(), d.group_rule(all, heads));
        lemma_listed(d, all, rows, order, false, order.len() as int);
        lemma_blocks_list(d, all, rows, order, order.len() as int);
    }
}

/// The tasks that filter and search take.
pub open spec fn taken(d: &DownloadTableDelegate, all: Seq<DownloadTaskView>) -> Set<int> {
    Set::new(|p: int| 0 <= p < all.len() && d.takes(all[p]))
}

/// Where the table groups its tasks, the counts of the headers add up to the number of tasks that
/// filter and search take.
pub proof fn law_header_counts_add_up(
    d: &DownloadTableDelegate,
    all: Seq<DownloadTaskView>,
    view: Seq<RowView>,
)
    requires
        d.shows(all, view),
        d.prefs.group_by != ViewGroupBy::Off,
    ensures
        header_total(view) == taken(d, all).len(),
{
    let (rows, order) = choose|rows: Seq<int>, order: Seq<usize>|
        d.arranged(all, rows) && #[trigger] d.laid_out(all, rows, order, view);
    let heads = d.heads(all, rows);
    let n = order.len() as int;
    lemma_arranged_once(d, all, rows);
    lemma_bucket_rule(d, all, heads);
    lemma_stable_order_distinct(order, heads.len(), d.group_rule(all, heads));
    lemma_listed(d, all, rows, order, true, n);
    lemma_blocks_list(d, all, rows, order, n);
    let list = listed(d, all, rows, order, true, n);
    assert forall|p: int| list.to_set().contains(p) == taken(d, all).contains(p) by {
        if list.contains(p) {
            let i = choose|i: int| 0 <= i < rows.len() && rows[i] == p;
            assert(d.takes(all[rows[i]]));
        }
        if taken(d, all).contains(p) {
            assert(rows.contains(p));
            let key = d.bucket_of(all[p]).key;
            lemma_member(d, all, rows, p, key);
            let k = choose|k: int|
                0 <= k < heads.len() && d.bucket_of(all[#[trigger] heads[k]]).key == key;
            lemma_order_onto(order, heads.len(), d.group_rule(all, heads), k);
            let i = choose|i: int| 0 <= i < order.len() && order[i] == k;
            assert(d.bucket_of(all[heads[order[i] as int]]).key == key);
            assert(list.contains(p));
        }
    }
    assert(list.to_set() =~= taken(d, all));
    list.unique_seq_to_set();
}

proof fn lemma_keys_shown(store: &TaskStore, rows: Seq<VisibleRow>, key: (bool, Seq<char>))
    ensures
        keys_shown(store, rows).contains(key) <==> exists|i: int|
            0 <= i < rows.len() && key_shown(store, #[trigger] rows[i]) == Some(key),
    decreases rows.len(),
{
    if rows.len() > 0 {
        let rest = rows.drop_last();
        lemma_keys_shown(store, rest, key);
        let before = keys_shown(store, rest);
        let now = keys_shown(store, rows);
        if before.contains(key) {
            let i = choose|i: int|
                0 <= i < rest.len() && key_shown(store, #[trigger] rest[i]) == Some(key);
            assert(rows[i] == rest[i]);
            let k = choose|k: int| 0 <= k < before.len() && before[k] == key;
            assert(now[k] == key);
        }
        if key_shown(store, rows.last()) == Some(key) {
            assert(rows[rows.len() - 1] == rows.last());
            assert(now[before.len() as int] == key);
        }
        if now.contains(key) && !before.contains(key) {
            let k = choose|k: int| 0 <= k < now.len() && now[k] == key;
            assert(k == before.len());
        }
        if exists|i: int| 0 <= i < rows.len() && key_shown(store, #[trigger] rows[i]) == Some(key) {
            let i = choose|i: int|
                0 <= i < rows.len() && key_shown(store, #[trigger] rows[i]) == Some(key);
            if i < rest.len() {
                assert(rest[i] == rows[i]);
            }
        }
    }
}

/// The rows that the table works out give, by their keys, exactly the tasks that filter and search
/// take and no collapsed group hides, local and remote ones alike.
pub proof fn law_rows_give_the_keys_of_what_is_taken(
    d: &DownloadTableDelegate,
    store: &TaskStore,
    visible: Seq<VisibleRow>,
    key: (bool, Seq<char>),
)
    requires
        d.shows(store.all(), row_views(store, visible)),
        rows_held(store, visible),
    ensures
        keys_shown(store, visible).contains(key) <==> exists|p: int|
            0 <= p < store.all().len() && (#[trigger] store.all()[p]).key@ == key && d.takes(
                store.all()[p],
            ) && (d.prefs.group_by == ViewGroupBy::Off || !d.is_collapsed(
                d.bucket_of(store.all()[p]).key,
            )),
{
    let all = store.all();
    let view = row_views(store, visible);
    lemma_keys_shown(store, visible, key);
    if keys_shown(store, visible).contains(key) {
        let i = choose|i: int|
            0 <= i < visible.len() && key_shown(store, #[trigger] visible[i]) == Some(key);
        assert(row_held(store, visible[i]));
        match visible[i] {
            VisibleRow::Task(id) => {
                let p = store.index_of(id);
                assert(view[i] == RowView::Task(p));
                assert(view.contains(RowView::Task(p)));
                law_table_shows_what_it_takes(d, all, view, p);
                assert(all[p].key@ == key);
            },
            VisibleRow::GroupHeader { .. } => {},
        }
    }
    if exists|p: int|
        0 <= p < all.len() && (#[trigger] all[p]).key@ == key && d.takes(all[p]) && (
        d.prefs.group_by == ViewGroupBy::Off || !d.is_collapsed(d.bucket_of(all[p]).key)) {
        let p = choose|p: int|
            0 <= p < all.len() && (#[trigger] all[p]).key@ == key && d.takes(all[p]) && (
            d.prefs.group_by == ViewGroupBy::Off || !d.is_collapsed(d.bucket_of(all[p]).key));
        law_table_shows_what_it_takes(d, all, view, p);
        let i = choose|i: int| 0 <= i < view.len() && view[i] == RowView::Task(p);
        assert(row_held(store, visible[i]));
        assert(key_shown(store, visible[i]) == Some(key));
    }
}

/// A search that is not empty leaves, of the tasks that the filter takes, exactly those that have
/// it in their name, in their link or in their site, each in small letters. To occur in one of the
/// three is enough, whatever the two others say.
pub proof fn law_search_looks_at_name_link_and_site(
    d: &DownloadTableDelegate,
    all: Seq<DownloadTaskView>,
    view: Seq<RowView>,
    p: int,
)
    requires
        d.shows(all, view),
        0 <= p < all.len(),
        d.query@.len() > 0,
        filter_takes(d.filter, d.device_aliases@, all[p]),
        d.prefs.group_by == ViewGroupBy::Off || !d.is_collapsed(d.bucket_of(all[p]).key),
    ensures
        has_part(lowercase(all[p].name@), d.query@) ==> view.contains(RowView::Task(p)),
        has_part(lowercase(all[p].url@), d.query@) ==> view.contains(RowView::Task(p)),
        has_part(lowercase(all[p].site@), d.query@) ==> view.contains(RowView::Task(p)),
        view.contains(RowView::Task(p)) ==> has_part(lowercase(all[p].name@), d.query@) || has_part(
            lowercase(all[p].url@),
            d.query@,
        ) || has_part(lowercase(all[p].site@), d.query@),
{
    law_table_shows_what_it_takes(d, all, view, p);
}

/// A search finds every task whose name, link or site, in small letters, is the search with
/// anything before it and anything after it.
pub proof fn law_search_finds_what_stands_within(
    d: &DownloadTableDelegate,
    all: Seq<DownloadTaskView>,
    view: Seq<RowView>,
    p: int,
    before: Seq<char>,
    after: Seq<char>,
)
    requires
        d.shows(all, view),
        0 <= p < all.len(),
        filter_takes(d.filter, d.device_aliases@, all[p]),
        d.prefs.group_by == ViewGroupBy::Off || !d.is_collapsed(d.bucket_of(all[p]).key),
        ({
            let found = before + d.query@ + after;
            ||| lowercase(all[p].name@) == found
            ||| lowercase(all[p].url@) == found
            ||| lowercase(all[p].site@) == found
        }),
    ensures
        view.contains(RowView::Task(p)),
{
    law_table_shows_what_it_takes(d, all, view, p);
    let found = before + d.query@ + after;
    law_part_stands_between(found, d.query@);
    assert(has_part(found, d.query@));
}

/// An empty search hides nothing that the filter takes.
pub proof fn law_empty_search_hides_nothing(
    d: &DownloadTableDelegate,
    all: Seq<DownloadTaskView>,
    view: Seq<RowView>,
    p: int,
)
    requires
        d.shows(all, view),
        0 <= p < all.len(),
        d.query@.len() == 0,
        d.prefs.group_by == ViewGroupBy::Off,
    ensures
        view.contains(RowView::Task(p)) <==> filter_takes(d.filter, d.device_aliases@, all[p]),
{
    law_table_shows_what_it_takes(d, all, view, p);
}

/// What a search finds does not depend on which of name, link and site is which: it answers alike
/// with any two of them exchanged, and says yes where it does for one alone.
pub proof fn law_search_treats_the_three_alike(
    query: &str,
    name: &str,
    url: &str,
    site: &str,
    found: bool,
    exchanged: bool,
    turned: bool,
)
    requires
        call_ensures(query_finds, (query, name, url, site), found),
        call_ensures(query_finds, (query, url, name, site), exchanged),
        call_ensures(query_finds, (query, url, site, name), turned),
    ensures
        found == exchanged,
        found == turned,
        query@.len() > 0 ==> (found <==> {
            ||| has_part(name@, query@)
            ||| has_part(url@, query@)
            ||| has_part(site@, query@)
        }),
        query@.len() == 0 ==> found,
{
}

/// Working the rows out anew after the store changed shows what filter and search take, and keeps of
/// the selection what they take and the store holds; without a change nothing is done.
pub proof fn law_refresh_shows_the_store_as_it_is(
    d: &mut DownloadTableDelegate,
    store: &TaskStore,
    changed: bool,
    key: (bool, Seq<char>),
    p: int,
)
    requires
        call_ensures(DownloadTableDelegate::refresh_view, (d, store), changed),
        old(d).prefs.group_by == ViewGroupBy::Off,
        old(d).query@.len() == 0,
        0 <= p < store.all().len(),
    ensures
        changed <==> old(d).view_dirty || old(d).seen_generation != store.generation,
        !changed ==> *final(d) == *old(d),
        changed ==> {
            &&& !final(d).view_dirty
            &&& final(d).seen_generation == store.generation
            &&& row_views(store, final(d).visible@).contains(RowView::Task(p)) <==> filter_takes(
                old(d).filter,
                old(d).device_aliases@,
                store.all()[p],
            )
            &&& final(d).selected_tasks@.contains(key) ==> old(d).selected_tasks@.contains(key)
                && live(store, key)
            &&& old(d).selected_tasks@.contains(key) && live(store, key) && filter_takes(
                old(d).filter,
                old(d).device_aliases@,
                store.all()[store.find(key)->0],
            ) ==> final(d).selected_tasks@.contains(key)
            &&& final(d).filter == old(d).filter
            &&& final(d).prefs == old(d).prefs
        },
{
    if changed {
        let view = row_views(store, final(d).visible@);
        let before = old(d);
        law_table_shows_what_it_takes(&*before, store.all(), view, p);
    }
}

/// A second look at an unchanged store does nothing.
pub proof fn law_second_refresh_does_nothing(
    first: &mut DownloadTableDelegate,
    second: &mut DownloadTableDelegate,
    store: &TaskStore,
    changed: bool,
    again: bool,
)
    requires
        call_ensures(DownloadTableDelegate::refresh_view, (first, store), changed),
        *old(second) == *final(first),
        call_ensures(DownloadTableDelegate::refresh_view, (second, store), again),
    ensures
        !again,
        *final(second) == *final(first),
{
}

/// The rows that are worked out are those of the tasks that are taken, each standing for its own task:
/// the key at a row is that of the task there, and a group's header has a key of its own.
pub proof fn law_rows_stand_for_their_tasks(
    d: &DownloadTableDelegate,
    store: &TaskStore,
    row_ix: usize,
    id: RowId,
    key: Option<RowKey>,
    group: Option<&str>,
)
    requires
        call_ensures(DownloadTableDelegate::row_key_at, (d, row_ix, store), key),
        call_ensures(DownloadTableDelegate::group_key_at, (d, row_ix), group),
    ensures
        row_ix >= d.visible@.len() ==> key is None && group is None,
        row_ix < d.visible@.len() && d.visible@[row_ix as int] == VisibleRow::Task(id) ==> {
            &&& group is None
            &&& store.holds(id) ==> key is Some && (key->0)@ == store.all()[store.index_of(id)].key@
            &&& !store.holds(id) ==> key is None
        },
        row_ix < d.visible@.len() && d.visible@[row_ix as int] is GroupHeader ==> key is None
            && group is Some,
{
}

/// The keys of the shown tasks are exactly those that stand at the table's rows.
pub proof fn law_shown_keys_are_those_of_the_rows(
    d: &DownloadTableDelegate,
    store: &TaskStore,
    keys: Vec<RowKey>,
    key: (bool, Seq<char>),
)
    requires
        call_ensures(DownloadTableDelegate::visible_task_keys, (d, store), keys),
    ensures
        key_views(keys@).contains(key) <==> exists|i: int|
            0 <= i < d.visible@.len() && key_shown(store, #[trigger] d.visible@[i]) == Some(key),
{
    lemma_keys_shown(store, d.visible@, key);
}

/// A task that the table works out rows for is among them exactly where filter and search take it,
/// without groups.
pub proof fn law_computed_rows_are_what_is_taken(
    d: &DownloadTableDelegate,
    store: &TaskStore,
    rows: Vec<VisibleRow>,
    p: int,
    taken: bool,
)
    requires
        call_ensures(DownloadTableDelegate::compute_visible, (d, store), rows),
        d.prefs.group_by == ViewGroupBy::Off,
        0 <= p < store.all().len(),
        call_ensures(DownloadTableDelegate::accepts, (d, &store.all()[p]), taken),
    ensures
        row_views(store, rows@).contains(RowView::Task(p)) <==> taken,
{
    law_table_shows_what_it_takes(d, store.all(), row_views(store, rows@), p);
}

} // verus!
