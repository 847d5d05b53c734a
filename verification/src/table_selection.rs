//! The selection of the task table: clicks, ranges, the header's check box, and what the
//! selected tasks have in common.

use vstd::prelude::*;

use crate::controls::CheckState;
use crate::context_menu::{facts_of, menu_facts, TaskMenuFacts};
use crate::order::{stable_sort, stands_before, weak_order};
use crate::task_table::{
    find_row_key, first_key, keys_shown, lemma_first_key, lemma_take_set, live, state_of,
    summary_of, DownloadTableDelegate, SelectionSummary,
};
use crate::tasks::{key_before, key_views, lemma_key_before, RowKey, TaskState, TaskStore};
use crate::row_laws::law_shift_selects_from_one_to_the_other;

verus! {

/// The keys that lie between two keys of a list, both included.
pub open spec fn range_between(
    keys: Seq<(bool, Seq<char>)>,
    a: (bool, Seq<char>),
    b: (bool, Seq<char>),
) -> Set<(bool, Seq<char>)> {
    let i = first_key(keys, a);
    let j = first_key(keys, b);
    if i <= j {
        keys.subrange(i, j + 1).to_set()
    } else {
        keys.subrange(j, i + 1).to_set()
    }
}

/// Whether the two states of a table differ in the selection at most.
pub open spec fn only_selection_differs(
    a: &DownloadTableDelegate,
    b: &DownloadTableDelegate,
) -> bool {
    &&& a.same_settings(b)
    &&& a.layout == b.layout
    &&& a.visible == b.visible
    &&& a.seen_generation == b.seen_generation
    &&& a.view_dirty == b.view_dirty
    &&& a.columns_dirty == b.columns_dirty
}

/// What a click on a task leaves selected. With shift, the tasks between the anchor and the
/// clicked one, where the table shows both; else with the secondary key the clicked task is
/// switched on or off; else it alone is selected.
pub open spec fn clicked(
    keys: Seq<(bool, Seq<char>)>,
    selected: Set<(bool, Seq<char>)>,
    anchor: Option<(bool, Seq<char>)>,
    key: (bool, Seq<char>),
    shift: bool,
    secondary: bool,
) -> Set<(bool, Seq<char>)> {
    if shift && anchor is Some && keys.contains(anchor->0) && keys.contains(key) {
        range_between(keys, anchor->0, key)
    } else if secondary {
        if selected.contains(key) {
            selected.remove(key)
        } else {
            selected.insert(key)
        }
    } else {
        Set::empty().insert(key)
    }
}

pub open spec fn anchor_view(anchor: Option<RowKey>) -> Option<(bool, Seq<char>)> {
    match anchor {
        Some(key) => Some(key@),
        None => None,
    }
}

/// What the header's check box shows: whether none, all or some of the shown tasks are selected.
pub open spec fn header_state(
    keys: Seq<(bool, Seq<char>)>,
    selected: Set<(bool, Seq<char>)>,
) -> CheckState {
    if forall|i: int| 0 <= i < keys.len() ==> !selected.contains(#[trigger] keys[i]) {
        CheckState::Unchecked
    } else if forall|i: int| 0 <= i < keys.len() ==> selected.contains(#[trigger] keys[i]) {
        CheckState::Checked
    } else {
        CheckState::Indeterminate
    }
}

impl DownloadTableDelegate {
    /// Selects every task that the table shows.
    pub fn select_all_tasks(&mut self, store: &TaskStore)
        requires
            old(self).wf(),
        ensures
            final(self).wf(),
            final(self).selected_tasks@ == keys_shown(store, old(self).visible@).to_set(),
            final(self).selection_anchor is None,
            only_selection_differs(final(self), old(self)),
    {
        let keys = self.visible_task_keys(store);
        self.selected_tasks.clear();
        self.selected_tasks.extend(&keys, 0, keys.len());
        self.selection_anchor = None;
        proof {
            assert(keys@.subrange(0, keys@.len() as int) =~= keys@);
            assert(self.selected_tasks@ =~= key_views(keys@).to_set());
        }
    }

    /// Selects nothing.
    pub fn clear_selection(&mut self)
        requires
            old(self).wf(),
        ensures
            final(self).wf(),
            final(self).selected_tasks@ == Set::<(bool, Seq<char>)>::empty(),
            final(self).selection_anchor is None,
            only_selection_differs(final(self), old(self)),
    {
        self.selected_tasks.clear();
        self.selection_anchor = None;
    }

    /// Takes a click on a task.
    pub fn select_task(&mut self, key: RowKey, shift: bool, secondary: bool, store: &TaskStore)
        requires
            old(self).wf(),
        ensures
            final(self).wf(),
            final(self).selected_tasks@ == clicked(
                keys_shown(store, old(self).visible@),
                old(self).selected_tasks@,
                anchor_view(old(self).selection_anchor),
                key@,
                shift,
                secondary,
            ),
            anchor_view(final(self).selection_anchor) == Some(key@),
            only_selection_differs(final(self), old(self)),
    {
        if shift {
            if let Some(anchor) = &self.selection_anchor {
                let keys = self.visible_task_keys(store);
                let ghost views = key_views(keys@);
                let from = find_row_key(&keys, anchor);
                let to = find_row_key(&keys, &key);
                if let (Some(i), Some(j)) = (from, to) {
                    let (start, end) = if i <= j {
                        (i, j)
                    } else {
                        (j, i)
                    };
                    proof {
                        assert(key_views(keys@.subrange(start as int, end + 1)) =~= views.subrange(
                            start as int,
                            end + 1,
                        ));
                    }
                    let ghost range = range_between(views, anchor@, key@);
                    let shown: usize = keys.len();
                    assert(end < shown);
                    self.selected_tasks.clear();
                    self.selected_tasks.extend(&keys, start, end + 1);
                    assert(self.selected_tasks@ =~= range);
                    self.selection_anchor = Some(key);
                    return;
                }
            }
        }
        if secondary {
            if !self.selected_tasks.remove(&key) {
                proof {
                    assert(old(self).selected_tasks@.remove(key@) =~= old(self).selected_tasks@);
                }
                self.selected_tasks.insert(key.clone());
            }
        } else {
            self.selected_tasks.clear();
            self.selected_tasks.insert(key.clone());
        }
        self.selection_anchor = Some(key);
    }

    /// Takes a click on the check box of a task.
    pub fn toggle_task(&mut self, key: RowKey)
        requires
            old(self).wf(),
        ensures
            final(self).wf(),
            final(self).selected_tasks@ == if old(self).selected_tasks@.contains(key@) {
                old(self).selected_tasks@.remove(key@)
            } else {
                old(self).selected_tasks@.insert(key@)
            },
            anchor_view(final(self).selection_anchor) == Some(key@),
            only_selection_differs(final(self), old(self)),
    {
        if !self.selected_tasks.remove(&key) {
            assert(old(self).selected_tasks@.remove(key@) =~= old(self).selected_tasks@);
            self.selected_tasks.insert(key.clone());
        }
        self.selection_anchor = Some(key);
    }

    /// Prepares the selection for the context menu of a task: a task that is not selected is
    /// selected alone.
    pub fn select_task_for_context_menu(&mut self, key: RowKey)
        requires
            old(self).wf(),
        ensures
            final(self).wf(),
            final(self).selected_tasks@ == if old(self).selected_tasks@.contains(key@) {
                old(self).selected_tasks@
            } else {
                Set::empty().insert(key@)
            },
            anchor_view(final(self).selection_anchor) == Some(key@),
            only_selection_differs(final(self), old(self)),
    {
        if !self.selected_tasks.contains(&key) {
            self.selected_tasks.clear();
            self.selected_tasks.insert(key.clone());
        }
        self.selection_anchor = Some(key);
    }

    /// The selected keys, local ones first, each kind by identifier.
    pub fn selected_keys(&self) -> (r: Vec<RowKey>)
        requires
            self.wf(),
        ensures
            key_views(r@).to_set() == self.selected_tasks@,
            forall|i: int, j: int|
                0 <= i < j < r@.len() ==> key_before(#[trigger] r@[i]@, #[trigger] r@[j]@),
            r@.len() == self.selected_tasks.keys@.len(),
    {
        let keys = &self.selected_tasks.keys;
        let ghost views = key_views(keys@);
        let n: usize = keys.len();
        let ghost rule = |a: int, b: int| key_before(views[a], views[b]);
        let less = |a: usize, b: usize| -> (x: bool)
            requires
                a < keys@.len() && b < keys@.len(),
            ensures
                x == key_before(keys@[a as int]@, keys@[b as int]@),
            { keys[a].less(&keys[b]) };
        proof {
            assert forall|a: usize, b: usize, x: bool|
                a < n && b < n && call_ensures(less, (a, b), x) implies x == rule(
                a as int,
                b as int,
            ) by {
                assert(views[a as int] == keys@[a as int]@ && views[b as int] == keys@[b as int]@);
            }
            assert forall|a: int, b: int|
                0 <= a < n && 0 <= b < n && #[trigger] rule(a, b) implies !rule(b, a) by {
                lemma_key_before(views[a], views[b], views[a]);
            }
            assert forall|a: int, b: int, c: int|
                0 <= a < n && 0 <= b < n && 0 <= c < n && #[trigger] rule(a, b) implies (
            #[trigger] rule(a, c) || rule(c, b)) by {
                lemma_key_before(views[a], views[c], views[b]);
                lemma_key_before(views[c], views[b], views[a]);
                lemma_key_before(views[c], views[a], views[b]);
            }
            assert(weak_order(n as nat, rule));
        }
        let order = stable_sort(n, less, Ghost(rule));
        let mut r: Vec<RowKey> = Vec::new();
        let mut k: usize = 0;
        while k < order.len()
            invariant
                k <= order@.len(),
                order@.len() == n,
                n == keys@.len(),
                views == key_views(keys@),
                forall|x: int| 0 <= x < n ==> (#[trigger] order@[x]) < n,
                r@.len() == k,
                forall|x: int| 0 <= x < k ==> (#[trigger] r@[x])@ == views[order@[x] as int],
            decreases order@.len() - k,
        {
            assert(views[order@[k as int] as int] == keys@[order@[k as int] as int]@);
            r.push(keys[order[k]].clone());
            k += 1;
        }
        proof {
            let got = key_views(r@);
            assert forall|i: int, j: int| 0 <= i < j < r@.len() implies key_before(
                #[trigger] r@[i]@,
                #[trigger] r@[j]@,
            ) by {
                let a = order@[i] as int;
                let b = order@[j] as int;
                assert(stands_before(rule, a, b));
                if !key_before(views[a], views[b]) {
                    lemma_key_before(views[a], views[b], views[a]);
                    assert(views[a] == views[b]);
                    assert(a < b);
                }
            }
            assert forall|key: (bool, Seq<char>)| got.to_set().contains(key)
                == self.selected_tasks@.contains(key) by {
                if got.contains(key) {
                    let x = choose|x: int| 0 <= x < got.len() && got[x] == key;
                    assert(r@[x]@ == views[order@[x] as int]);
                    assert(views.contains(key));
                }
                if views.contains(key) {
                    let h = choose|h: int| 0 <= h < views.len() && views[h] == key;
                    crate::task_table::lemma_order_onto(order@, n as nat, rule, h);
                    let x = choose|x: int| 0 <= x < order@.len() && order@[x] == h;
                    assert(r@[x]@ == views[order@[x] as int]);
                    assert(got[x] == key);
                }
            }
            assert(got.to_set() =~= self.selected_tasks@);
        }
        r
    }

    /// What the header's check box shows.
    pub fn header_check_state(&self, store: &TaskStore) -> (r: CheckState)
        ensures
            r == header_state(keys_shown(store, self.visible@), self.selected_tasks@),
    {
        let keys = self.visible_task_keys(store);
        let ghost views = key_views(keys@);
        let mut any: bool = false;
        let mut every: bool = true;
        let mut i: usize = 0;
        while i < keys.len()
            invariant
                i <= keys@.len(),
                views == key_views(keys@),
                any == (exists|k: int|
                    0 <= k < i && self.selected_tasks@.contains(#[trigger] views[k])),
                every == (forall|k: int|
                    0 <= k < i ==> self.selected_tasks@.contains(#[trigger] views[k])),
            decreases keys@.len() - i,
        {
            assert(views[i as int] == keys@[i as int]@);
            if self.selected_tasks.contains(&keys[i]) {
                any = true;
            } else {
                every = false;
            }
            i += 1;
        }
        if !any {
            CheckState::Unchecked
        } else if every {
            CheckState::Checked
        } else {
            CheckState::Indeterminate
        }
    }

    /// Takes a click on the header's check box: where all are selected none is, else all are.
    pub fn toggle_all_tasks(&mut self, store: &TaskStore)
        requires
            old(self).wf(),
        ensures
            final(self).wf(),
            ({
                let keys = keys_shown(store, old(self).visible@);
                final(self).selected_tasks@ == if header_state(keys, old(self).selected_tasks@)
                    == CheckState::Checked {
                    Set::empty()
                } else {
                    keys.to_set()
                }
            }),
            final(self).selection_anchor is None,
            only_selection_differs(final(self), old(self)),
    {
        if self.header_check_state(store) == CheckState::Checked {
            self.clear_selection();
        } else {
            self.select_all_tasks(store);
        }
    }

    /// Counts the selected tasks that the store still holds, and says what can be done to them.
    pub fn selection_summary(&self, store: &TaskStore) -> (r: SelectionSummary)
        requires
            self.wf(),
        ensures
            summary_of(store, self.selected_tasks@, r),
    {
        let keys = &self.selected_tasks.keys;
        let ghost views = key_views(keys@);
        let mut r = SelectionSummary::default();
        let mut i: usize = 0;
        proof {
            assert(views.take(0).to_set().filter(|k: (bool, Seq<char>)| live(store, k))
                =~= Set::empty());
        }
        while i < keys.len()
            invariant
                i <= keys@.len(),
                keys@ == self.selected_tasks.keys@,
                views == key_views(keys@),
                views.no_duplicates(),
                r.count <= i,
                views.take(i as int).to_set().filter(
                    |k: (bool, Seq<char>)| live(store, k),
                ).finite(),
                summary_of(store, views.take(i as int).to_set(), r),
            decreases keys@.len() - i,
        {
            let key = &keys[i];
            let ghost before = views.take(i as int).to_set();
            let ghost held = before.filter(|k: (bool, Seq<char>)| live(store, k));
            let ghost after = views.take(i + 1).to_set();
            let ghost held_after = after.filter(|k: (bool, Seq<char>)| live(store, k));
            let ghost was = r;
            proof {
                lemma_take_set(views, i as int);
                assert(views[i as int] == key@);
                assert(!before.contains(key@)) by {
                    if before.contains(key@) {
                        let j = choose|j: int|
                            0 <= j < views.take(i as int).len() && views.take(i as int)[j] == key@;
                        assert(views[j] == views[i as int]);
                    }
                }
            }
            if let Some(task) = store.get(key) {
                proof {
                    assert(held_after =~= held.insert(key@));
                    assert(held_after.contains(key@));
                    assert forall|k: (bool, Seq<char>)| held.contains(k) implies held_after.contains(
                        k,
                    ) by {}
                }
                r.count = r.count + 1;
                r.any = true;
                if key.is_local() {
                    r.any_local = true;
                }
                match task.state {
                    TaskState::Downloading | TaskState::Pending => {
                        r.any_active = true;
                    },
                    TaskState::Paused | TaskState::Failed => {
                        r.any_resumable = true;
                    },
                    TaskState::Completed => {},
                }
                proof {
                    lemma_summary_grows(store, before, after, key@, was, r);
                }
            } else {
                assert(held_after =~= held);
            }
            i += 1;
        }
        assert(views.take(i as int) =~= views);
        r
    }

    /// What the context menu needs to know of the selected tasks, with their keys; nothing where
    /// none is selected or one of them is gone.
    pub fn selected_menu_facts(&self, store: &TaskStore) -> (r: Option<
        (Vec<RowKey>, Vec<TaskMenuFacts>),
    >)
        requires
            self.wf(),
        ensures
            match r {
                None => self.selected_tasks@ =~= Set::empty() || exists|k: (bool, Seq<char>)| #[trigger]
                    self.selected_tasks@.contains(k) && !live(store, k),
                Some((keys, facts)) => {
                    &&& keys@.len() > 0
                    &&& key_views(keys@).to_set() == self.selected_tasks@
                    &&& forall|i: int, j: int|
                        0 <= i < j < keys@.len() ==> key_before(
                            #[trigger] keys@[i]@,
                            #[trigger] keys@[j]@,
                        )
                    &&& facts@.len() == keys@.len()
                    &&& forall|i: int|
                        0 <= i < keys@.len() ==> live(store, #[trigger] keys@[i]@) && facts@[i]
                            == facts_of(store.all()[store.find(keys@[i]@)->0])
                },
            },
    {
        let keys = self.selected_keys();
        if keys.len() == 0 {
            assert(self.selected_tasks@ =~= Set::empty());
            return None;
        }
        let mut facts: Vec<TaskMenuFacts> = Vec::new();
        let mut i: usize = 0;
        while i < keys.len()
            invariant
                i <= keys@.len(),
                facts@.len() == i,
                key_views(keys@).to_set() == self.selected_tasks@,
                forall|k: int|
                    0 <= k < i ==> live(store, #[trigger] keys@[k]@) && facts@[k] == facts_of(
                        store.all()[store.find(keys@[k]@)->0],
                    ),
            decreases keys@.len() - i,
        {
            match store.get(&keys[i]) {
                Some(task) => facts.push(menu_facts(task)),
                None => {
                    proof {
                        assert(key_views(keys@)[i as int] == keys@[i as int]@);
                        assert(self.selected_tasks@.contains(keys@[i as int]@));
                    }
                    return None;
                },
            }
            i += 1;
        }
        Some((keys, facts))
    }
}

proof fn lemma_summary_grows(
    store: &TaskStore,
    before: Set<(bool, Seq<char>)>,
    after: Set<(bool, Seq<char>)>,
    key: (bool, Seq<char>),
    was: SelectionSummary,
    r: SelectionSummary,
)
    requires
        summary_of(store, before, was),
        before.filter(|k: (bool, Seq<char>)| live(store, k)).finite(),
        after == before.insert(key),
        !before.contains(key),
        live(store, key),
        r.count == was.count + 1,
        r.any,
        r.any_local == (was.any_local || key.0),
        r.any_active == (was.any_active || state_of(store, key) == TaskState::Downloading
            || state_of(store, key) == TaskState::Pending),
        r.any_resumable == (was.any_resumable || state_of(store, key) == TaskState::Paused
            || state_of(store, key) == TaskState::Failed),
    ensures
        summary_of(store, after, r),
        after.filter(|k: (bool, Seq<char>)| live(store, k)).finite(),
{
    let held = before.filter(|k: (bool, Seq<char>)| live(store, k));
    let held_after = after.filter(|k: (bool, Seq<char>)| live(store, k));
    assert(held_after =~= held.insert(key));
    assert(held_after.contains(key));
    assert forall|k: (bool, Seq<char>)| #[trigger] held_after.contains(k) implies k == key
        || held.contains(k) by {}
    assert forall|k: (bool, Seq<char>)| #[trigger] held.contains(k) implies held_after.contains(
        k,
    ) by {}
}

/// A click without keys selects the clicked task and nothing else, and clicking it again with
/// the secondary key takes it out.
pub proof fn law_plain_click_selects_one(
    keys: Seq<(bool, Seq<char>)>,
    selected: Set<(bool, Seq<char>)>,
    anchor: Option<(bool, Seq<char>)>,
    key: (bool, Seq<char>),
)
    ensures
        clicked(keys, selected, anchor, key, false, false) == Set::empty().insert(key),
        clicked(
            keys,
            clicked(keys, selected, anchor, key, false, false),
            Some(key),
            key,
            false,
            true,
        ) =~= Set::<(bool, Seq<char>)>::empty(),
{
}

/// With the secondary key, clicking a task twice leaves the selection as it was.
pub proof fn law_secondary_click_twice_changes_nothing(
    keys: Seq<(bool, Seq<char>)>,
    selected: Set<(bool, Seq<char>)>,
    anchor: Option<(bool, Seq<char>)>,
    key: (bool, Seq<char>),
)
    ensures
        clicked(
            keys,
            clicked(keys, selected, anchor, key, false, true),
            Some(key),
            key,
            false,
            true,
        ) == selected,
{
    let once = clicked(keys, selected, anchor, key, false, true);
    let twice = clicked(keys, once, Some(key), key, false, true);
    assert(twice =~= selected);
}

/// A range does not depend on the end at which it was begun, holds both ends, and holds only
/// tasks that the table shows.
pub proof fn law_range_is_symmetric(
    keys: Seq<(bool, Seq<char>)>,
    a: (bool, Seq<char>),
    b: (bool, Seq<char>),
)
    requires
        keys.contains(a),
        keys.contains(b),
    ensures
        range_between(keys, a, b) == range_between(keys, b, a),
        range_between(keys, a, b).contains(a),
        range_between(keys, a, b).contains(b),
        range_between(keys, a, b).subset_of(keys.to_set()),
{
    lemma_first_key(keys, a);
    lemma_first_key(keys, b);
    let i = first_key(keys, a);
    let j = first_key(keys, b);
    let (lo, hi) = if i <= j {
        (i, j)
    } else {
        (j, i)
    };
    let part = keys.subrange(lo, hi + 1);
    assert(part[0] == keys[lo]);
    assert(part[hi - lo] == keys[hi]);
    assert forall|k: (bool, Seq<char>)| part.to_set().contains(k) implies keys.to_set().contains(
        k,
    ) by {
        let x = choose|x: int| 0 <= x < part.len() && part[x] == k;
        assert(keys[lo + x] == k);
    }
}

/// After all tasks were selected, the header's check box is checked, unless there is no task.
pub proof fn law_select_all_checks_the_header(keys: Seq<(bool, Seq<char>)>)
    ensures
        header_state(keys, keys.to_set()) == if keys.len() == 0 {
            CheckState::Unchecked
        } else {
            CheckState::Checked
        },
        header_state(keys, Set::empty()) == CheckState::Unchecked,
{
    assert forall|i: int| 0 <= i < keys.len() implies keys.to_set().contains(
        #[trigger] keys[i],
    ) by {}
    if keys.len() > 0 {
        assert(keys.to_set().contains(keys[0]));
    }
}

/// Selecting all selects every task that the table shows and nothing else, and clearing leaves
/// nothing; neither touches what the table shows.
pub proof fn law_all_and_nothing_can_be_selected(
    all: &mut DownloadTableDelegate,
    none: &mut DownloadTableDelegate,
    store: &TaskStore,
    key: (bool, Seq<char>),
    state: CheckState,
)
    requires
        call_ensures(DownloadTableDelegate::select_all_tasks, (all, store), ()),
        *old(none) == *final(all),
        call_ensures(DownloadTableDelegate::clear_selection, (none,), ()),
        call_ensures(DownloadTableDelegate::header_check_state, (&*final(none), store), state),
    ensures
        final(all).selected_tasks@.contains(key) <==> keys_shown(store, old(all).visible@).contains(
            key,
        ),
        !final(none).selected_tasks@.contains(key),
        state == CheckState::Unchecked,
        final(all).visible == old(all).visible,
        final(all).selection_anchor is None && final(none).selection_anchor is None,
{
}

/// A plain click selects the clicked task alone; with the secondary key it turns that task on or off
/// and leaves the others; with the shift key it selects from the task that was clicked last.
pub proof fn law_click_selects_as_its_keys_say(
    d: &mut DownloadTableDelegate,
    key: RowKey,
    store: &TaskStore,
    shift: bool,
    secondary: bool,
    other: (bool, Seq<char>),
    from: int,
    to: int,
    k: int,
)
    requires
        call_ensures(DownloadTableDelegate::select_task, (d, key, shift, secondary, store), ()),
        keys_shown(store, old(d).visible@).no_duplicates(),
        0 <= from < keys_shown(store, old(d).visible@).len(),
        0 <= to < keys_shown(store, old(d).visible@).len(),
        0 <= k < keys_shown(store, old(d).visible@).len(),
        anchor_view(old(d).selection_anchor) == Some(keys_shown(store, old(d).visible@)[from]),
        key@ == keys_shown(store, old(d).visible@)[to],
        other != key@,
    ensures
        !shift && !secondary ==> final(d).selected_tasks@.contains(key@) && !final(
            d).selected_tasks@.contains(other),
        !shift && secondary ==> final(d).selected_tasks@.contains(key@) != old(
            d).selected_tasks@.contains(key@) && final(d).selected_tasks@.contains(other) == old(
            d).selected_tasks@.contains(other),
        shift ==> (final(d).selected_tasks@.contains(keys_shown(store, old(d).visible@)[k]) <==> (from
            <= k <= to || to <= k <= from)),
        anchor_view(final(d).selection_anchor) == Some(key@),
{
    let keys = keys_shown(store, old(d).visible@);
    law_shift_selects_from_one_to_the_other(keys, from, to, k);
    assert(keys.contains(keys[from]) && keys.contains(keys[to]));
}

/// Ticking a task's box turns it on or off and leaves the others; ticking it twice changes nothing.
pub proof fn law_box_turns_its_task(
    first: &mut DownloadTableDelegate,
    second: &mut DownloadTableDelegate,
    key: RowKey,
    other: (bool, Seq<char>),
)
    requires
        call_ensures(DownloadTableDelegate::toggle_task, (first, key), ()),
        *old(second) == *final(first),
        call_ensures(DownloadTableDelegate::toggle_task, (second, key), ()),
    ensures
        final(first).selected_tasks@.contains(key@) != old(first).selected_tasks@.contains(key@),
        other != key@ ==> final(first).selected_tasks@.contains(other) == old(
            first).selected_tasks@.contains(other),
        final(second).selected_tasks@ == old(first).selected_tasks@,
{
    assert(final(second).selected_tasks@ =~= old(first).selected_tasks@);
}

/// The selected tasks are given all, each once, the local ones first.
pub proof fn law_selected_tasks_are_given_once(
    d: &DownloadTableDelegate,
    keys: Vec<RowKey>,
    i: int,
    j: int,
)
    requires
        call_ensures(DownloadTableDelegate::selected_keys, (d,), keys),
        0 <= i < j < keys@.len(),
    ensures
        d.selected_tasks@.contains(keys@[i]@),
        keys@[i]@ != keys@[j]@,
        keys@[j]@.0 ==> keys@[i]@.0,
{
    assert(key_before(keys@[i]@, keys@[j]@));
    let views = key_views(keys@);
    assert(views[i] == keys@[i]@);
    assert(views.contains(keys@[i]@));
    lemma_key_before(keys@[i]@, keys@[j]@, keys@[i]@);
}

/// The menu over the selection knows each of the selected tasks, in their order; where nothing is
/// selected, or one of them is gone, there is none.
pub proof fn law_menu_knows_the_selected_tasks(
    d: &DownloadTableDelegate,
    store: &TaskStore,
    found: Option<(Vec<RowKey>, Vec<TaskMenuFacts>)>,
    key: (bool, Seq<char>),
    i: int,
)
    requires
        call_ensures(DownloadTableDelegate::selected_menu_facts, (d, store), found),
    ensures
        d.selected_tasks@ == Set::<(bool, Seq<char>)>::empty() ==> found is None,
        d.selected_tasks@.contains(key) && !live(store, key) ==> found is None,
        found is Some && 0 <= i < (found->0).0@.len() ==> {
            &&& (found->0).1@.len() == (found->0).0@.len()
            &&& (found->0).1@[i].is_local == (found->0).0@[i]@.0
            &&& (found->0).1@[i].state == state_of(store, (found->0).0@[i]@)
            &&& d.selected_tasks@.contains((found->0).0@[i]@)
        },
{
    if found is Some {
        let keys = (found->0).0@;
        let views = key_views(keys);
        assert(views.len() > 0);
        assert(views[0] == keys[0]@);
        assert(views.contains(views[0]));
        assert(d.selected_tasks@.contains(views[0]));
        if d.selected_tasks@.contains(key) {
            assert(views.contains(key));
            let k = choose|k: int| 0 <= k < views.len() && views[k] == key;
            assert(live(store, keys[k]@));
        }
        if 0 <= i < keys.len() {
            assert(live(store, keys[i]@));
            assert(views[i] == keys[i]@);
            assert(views.contains(keys[i]@));
            let n = store.all().len() as int;
            crate::tasks::lemma_found(store, keys[i]@, n, 0);
        }
    }
}

} // verus!
