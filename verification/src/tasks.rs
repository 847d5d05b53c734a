//! Download tasks as the tables and windows see them: their states, their keys, and the store
//! that holds the local and the remote ones.

use vstd::prelude::*;

use crate::order::{lemma_text_total, lemma_text_transitive, text_before, text_less};
use crate::text::{same, texts};

verus! {

/// What a task is doing.
#[derive(Clone, Copy, Debug, PartialEq, Eq, Structural)]
pub enum TaskState {
    Downloading,
    Pending,
    Paused,
    Failed,
    Completed,
}

/// Where a task runs.
#[derive(Clone, Copy, Debug, PartialEq, Eq, Structural)]
pub enum TaskSource {
    Local,
    Remote,
}

/// What sort of file a task downloads.
#[derive(Clone, Copy, Debug, PartialEq, Eq, Structural)]
pub enum TaskKind {
    Video,
    Audio,
    Document,
    Image,
    Archive,
    DiskImage,
    Application,
    Mobile,
    Other,
}

/// Names a task: a task of this machine or one of another device, by its identifier.
#[derive(Debug, PartialEq, Eq)]
pub enum RowKey {
    Local(String),
    Remote(String),
}

impl View for RowKey {
    type V = (bool, Seq<char>);

    open spec fn view(&self) -> (bool, Seq<char>) {
        match self {
            RowKey::Local(id) => (true, id@),
            RowKey::Remote(id) => (false, id@),
        }
    }
}

impl Clone for RowKey {
    fn clone(&self) -> (r: Self)
        ensures
            r@ == self@,
    {
        match self {
            RowKey::Local(id) => RowKey::Local(id.clone()),
            RowKey::Remote(id) => RowKey::Remote(id.clone()),
        }
    }
}

/// The order of keys: local ones first, each kind by identifier.
pub open spec fn key_before(a: (bool, Seq<char>), b: (bool, Seq<char>)) -> bool {
    (a.0 && !b.0) || (a.0 == b.0 && text_before(a.1, b.1))
}

impl RowKey {
    /// Whether the task runs on this machine.
    pub fn is_local(&self) -> (r: bool)
        ensures
            r == self@.0,
    {
        match self {
            RowKey::Local(_) => true,
            RowKey::Remote(_) => false,
        }
    }

    /// The task's identifier.
    pub fn task_id(&self) -> (r: &str)
        ensures
            r@ == self@.1,
    {
        match self {
            RowKey::Local(id) => id.as_str(),
            RowKey::Remote(id) => id.as_str(),
        }
    }

    /// Whether the two keys name the same task.
    pub fn is(&self, other: &RowKey) -> (r: bool)
        ensures
            r == (self@ == other@),
    {
        self.is_local() == other.is_local() && same(self.task_id(), other.task_id())
    }

    /// Whether this key comes first.
    pub fn less(&self, other: &RowKey) -> (r: bool)
        ensures
            r == key_before(self@, other@),
    {
        if self.is_local() == other.is_local() {
            text_less(self.task_id(), other.task_id())
        } else {
            self.is_local()
        }
    }
}

pub proof fn lemma_key_before(a: (bool, Seq<char>), b: (bool, Seq<char>), c: (bool, Seq<char>))
    ensures
        key_before(a, b) || key_before(b, a) || a == b,
        !(key_before(a, b) && key_before(b, a)),
        key_before(a, b) && key_before(b, c) ==> key_before(a, c),
{
    lemma_text_total(a.1, b.1);
    if text_before(a.1, b.1) && text_before(b.1, c.1) {
        lemma_text_transitive(a.1, b.1, c.1);
    }
}

/// A set of keys, each held once.
#[derive(Debug)]
pub struct KeySet {
    pub keys: Vec<RowKey>,
}

/// The views of a list of keys.
pub open spec fn key_views(keys: Seq<RowKey>) -> Seq<(bool, Seq<char>)> {
    keys.map_values(|k: RowKey| k@)
}

impl View for KeySet {
    type V = Set<(bool, Seq<char>)>;

    open spec fn view(&self) -> Set<(bool, Seq<char>)> {
        key_views(self.keys@).to_set()
    }
}

impl KeySet {
    /// Whether no key is held twice.
    pub open spec fn wf(&self) -> bool {
        key_views(self.keys@).no_duplicates()
    }

    pub fn new() -> (r: KeySet)
        ensures
            r.wf(),
            r@ == Set::<(bool, Seq<char>)>::empty(),
            r.keys@.len() == 0,
    {
        let r = KeySet { keys: Vec::new() };
        assert(key_views(r.keys@) =~= Seq::empty());
        assert(r@ =~= Set::empty());
        r
    }

    /// Where a key is held.
    fn position(&self, key: &RowKey) -> (r: Option<usize>)
        ensures
            match r {
                Some(i) => i < self.keys@.len() && self.keys@[i as int]@ == key@,
                None => !self@.contains(key@),
            },
            r is Some ==> self@.contains(key@),
    {
        let mut i: usize = 0;
        while i < self.keys.len()
            invariant
                i <= self.keys@.len(),
                forall|k: int| 0 <= k < i ==> (#[trigger] self.keys@[k])@ != key@,
            decreases self.keys@.len() - i,
        {
            if self.keys[i].is(key) {
                assert(key_views(self.keys@)[i as int] == key@);
                return Some(i);
            }
            i += 1;
        }
        assert forall|k: int| 0 <= k < key_views(self.keys@).len() implies key_views(self.keys@)[k]
            != key@ by {
            assert(self.keys@[k]@ != key@);
        }
        None
    }

    pub fn contains(&self, key: &RowKey) -> (r: bool)
        ensures
            r == self@.contains(key@),
    {
        self.position(key).is_some()
    }

    pub fn is_empty(&self) -> (r: bool)
        ensures
            r == (self@ =~= Set::empty()),
            r == (self.keys@.len() == 0),
    {
        proof {
            if self.keys@.len() > 0 {
                assert(key_views(self.keys@)[0] == self.keys@[0]@);
                assert(self@.contains(self.keys@[0]@));
            }
        }
        self.keys.len() == 0
    }

    pub fn len(&self) -> (r: usize)
        requires
            self.wf(),
        ensures
            r == self@.len(),
            self@.finite(),
    {
        proof {
            key_views(self.keys@).unique_seq_to_set();
        }
        self.keys.len()
    }

    /// Adds a key that may be held already.
    pub fn insert(&mut self, key: RowKey)
        requires
            old(self).wf(),
        ensures
            final(self).wf(),
            final(self)@ == old(self)@.insert(key@),
    {
        if self.contains(&key) {
            assert(self@.insert(key@) =~= self@);
        } else {
            let ghost before = key_views(self.keys@);
            let ghost view = key@;
            self.keys.push(key);
            proof {
                let after = key_views(self.keys@);
                assert(after =~= before.push(view));
                assert forall|k: (bool, Seq<char>)| #[trigger] after.to_set().contains(k)
                    == before.to_set().insert(view).contains(k) by {
                    if before.contains(k) {
                        let i = choose|i: int| 0 <= i < before.len() && before[i] == k;
                        assert(after[i] == k);
                    }
                    assert(after[before.len() as int] == view);
                }
                assert(self@ =~= before.to_set().insert(view));
            }
        }
    }

    /// Takes a key out, and says whether it was held.
    pub fn remove(&mut self, key: &RowKey) -> (r: bool)
        requires
            old(self).wf(),
        ensures
            final(self).wf(),
            final(self)@ == old(self)@.remove(key@),
            r == old(self)@.contains(key@),
    {
        match self.position(key) {
            None => {
                assert(self@.remove(key@) =~= self@);
                false
            },
            Some(i) => {
                let ghost before = key_views(self.keys@);
                self.keys.remove(i);
                proof {
                    let after = key_views(self.keys@);
                    assert(after =~= before.remove(i as int));
                    assert forall|k: (bool, Seq<char>)| #[trigger] after.to_set().contains(k)
                        == before.to_set().remove(key@).contains(k) by {
                        if before.contains(k) && k != key@ {
                            let j = choose|j: int| 0 <= j < before.len() && before[j] == k;
                            if j < i {
                                assert(after[j] == k);
                            } else {
                                assert(after[j - 1] == k);
                            }
                        }
                        if after.contains(k) {
                            let j = choose|j: int| 0 <= j < after.len() && after[j] == k;
                            let at = if j < i {
                                j
                            } else {
                                j + 1
                            };
                            assert(before[at] == k);
                            assert(before[i as int] == key@ && at != i);
                        }
                    }
                    assert(self@ =~= before.to_set().remove(key@));
                }
                true
            },
        }
    }

    pub fn clear(&mut self)
        ensures
            final(self).wf(),
            final(self)@ == Set::<(bool, Seq<char>)>::empty(),
    {
        self.keys.clear();
        assert(key_views(self.keys@) =~= Seq::empty());
        assert(self@ =~= Set::empty());
    }

    /// Adds each of the given keys.
    pub fn extend(&mut self, keys: &Vec<RowKey>, from: usize, to: usize)
        requires
            old(self).wf(),
            from <= to <= keys@.len(),
        ensures
            final(self).wf(),
            final(self)@ == old(self)@.union(
                key_views(keys@.subrange(from as int, to as int)).to_set(),
            ),
    {
        let mut i: usize = from;
        let ghost start = self@;
        assert(key_views(keys@.subrange(from as int, from as int)).to_set() =~= Set::empty());
        assert(self@ =~= start.union(key_views(keys@.subrange(from as int, from as int)).to_set()));
        while i < to
            invariant
                self.wf(),
                from <= i <= to <= keys@.len(),
                self@ =~= start.union(key_views(keys@.subrange(from as int, i as int)).to_set()),
            decreases to - i,
        {
            self.insert(keys[i].clone());
            proof {
                let a = key_views(keys@.subrange(from as int, i as int));
                let b = key_views(keys@.subrange(from as int, i + 1));
                assert(b =~= a.push(keys@[i as int]@));
                assert forall|k: (bool, Seq<char>)| #[trigger] b.to_set().contains(k)
                    == a.to_set().insert(keys@[i as int]@).contains(k) by {
                    if a.contains(k) {
                        let j = choose|j: int| 0 <= j < a.len() && a[j] == k;
                        assert(b[j] == k);
                    }
                    assert(b[a.len() as int] == keys@[i as int]@);
                }
            }
            i += 1;
        }
    }
}

/// What the grouping of the table needs to know of a task and other parts of the program work
/// out: the names, labels and ranks of its state, its date, its category and its site.
#[derive(Debug)]
pub struct GroupFacts {
    pub state_key: String,
    pub state_label: String,
    pub state_rank: i32,
    pub date_key: String,
    pub date_label: String,
    pub date_order: u32,
    pub category_id: String,
    /// The site the task comes from; empty where none is known.
    pub source_site: String,
    /// What stands for the site where none is known.
    pub unknown_site: String,
}

/// A task as the tables show it. Sizes, speeds and times come with the text that shows them.
#[derive(Debug)]
pub struct DownloadTaskView {
    pub key: RowKey,
    pub source: TaskSource,
    pub state: TaskState,
    pub kind: TaskKind,
    pub name: String,
    pub url: String,
    pub site: String,
    pub queue_id: String,
    pub group_id: String,
    pub from_device: String,
    pub error_message: String,
    pub boosted: bool,
    /// Whether the file's name and size are still being asked for.
    pub metadata_pending: bool,
    pub size_bytes: i64,
    pub size_text: String,
    pub downloaded_text: String,
    pub speed_bytes_per_second: Option<u64>,
    pub speed_text: String,
    pub eta_seconds: Option<u64>,
    pub eta_text: String,
    pub created_at_secs: i64,
    pub created_text: String,
    pub completed_at_secs: i64,
    /// How far the task is, as a percentage.
    pub progress_label: String,
    pub save_dir: String,
    pub share_url: String,
    /// Whether the file of a task that is done is gone.
    pub file_missing: bool,
    pub protocol_label: String,
    pub is_bt: bool,
    /// How many connections work on the task, where that is known.
    pub active_transfers: Option<u64>,
    pub runtime_connected: bool,
    pub connected_peers: Option<u64>,
    pub facts: GroupFacts,
    /// The place of the task under the sort rule in force; tasks of equal rank keep their order.
    pub rank: i64,
    /// The identifiers of the download filters of the sidebar that take the task.
    pub accepted_by: Vec<String>,
}

impl DownloadTaskView {
    /// Whether the download filter with an identifier takes the task.
    pub open spec fn passes(self, filter: Seq<char>) -> bool {
        texts(self.accepted_by@).contains(filter)
    }
}

/// The place of a task in the store.
#[derive(Clone, Copy, Debug, PartialEq, Eq, Structural)]
pub enum RowId {
    Local(usize),
    Remote(usize),
}

/// All tasks: those of this machine and those of other devices.
#[derive(Debug)]
pub struct TaskStore {
    pub local: Vec<DownloadTaskView>,
    pub remote: Vec<DownloadTaskView>,
    /// Counts the changes of the store.
    pub generation: u64,
}

impl TaskStore {
    /// The tasks in order: the local ones, then the remote ones.
    pub open spec fn all(&self) -> Seq<DownloadTaskView> {
        self.local@ + self.remote@
    }

    /// The index of a place in the list of all tasks.
    pub open spec fn index_of(&self, id: RowId) -> int {
        match id {
            RowId::Local(i) => i as int,
            RowId::Remote(i) => self.local@.len() + i,
        }
    }

    /// Whether a place holds a task.
    pub open spec fn holds(&self, id: RowId) -> bool {
        match id {
            RowId::Local(i) => i < self.local@.len(),
            RowId::Remote(i) => i < self.remote@.len(),
        }
    }

    /// The index of the first task with the given key among the first `n` of all tasks.
    pub open spec fn find_up_to(&self, key: (bool, Seq<char>), n: int) -> Option<int>
        decreases n,
    {
        if n <= 0 {
            None
        } else {
            match self.find_up_to(key, n - 1) {
                Some(i) => Some(i),
                None => if self.all()[n - 1].key@ == key {
                    Some(n - 1)
                } else {
                    None
                },
            }
        }
    }

    /// The index of the first task with the given key.
    pub open spec fn find(&self, key: (bool, Seq<char>)) -> Option<int> {
        self.find_up_to(key, self.all().len() as int)
    }

    pub fn new() -> (r: TaskStore)
        ensures
            r.local@.len() == 0,
            r.remote@.len() == 0,
            r.generation == 0,
    {
        TaskStore { local: Vec::new(), remote: Vec::new(), generation: 0 }
    }

    /// Replaces the tasks of this machine.
    pub fn replace_local(&mut self, rows: Vec<DownloadTaskView>)
        ensures
            final(self).local == rows,
            final(self).remote == old(self).remote,
            final(self).generation == if old(self).generation == u64::MAX {
                0
            } else {
                old(self).generation + 1
            },
    {
        self.local = rows;
        self.generation = self.generation.wrapping_add(1);
    }

    /// Replaces the tasks of other devices.
    pub fn replace_remote(&mut self, rows: Vec<DownloadTaskView>)
        ensures
            final(self).remote == rows,
            final(self).local == old(self).local,
            final(self).generation == if old(self).generation == u64::MAX {
                0
            } else {
                old(self).generation + 1
            },
    {
        self.remote = rows;
        self.generation = self.generation.wrapping_add(1);
    }

    /// The task at a place.
    pub fn row(&self, id: RowId) -> (r: Option<&DownloadTaskView>)
        ensures
            match r {
                Some(task) => self.holds(id) && *task == self.all()[self.index_of(id)],
                None => !self.holds(id),
            },
    {
        match id {
            RowId::Local(i) => if i < self.local.len() {
                Some(&self.local[i])
            } else {
                None
            },
            RowId::Remote(i) => if i < self.remote.len() {
                Some(&self.remote[i])
            } else {
                None
            },
        }
    }

    /// The first task with the given key.
    pub fn get(&self, key: &RowKey) -> (r: Option<&DownloadTaskView>)
        ensures
            match r {
                Some(task) => self.find(key@) is Some && *task == self.all()[self.find(key@)->0],
                None => self.find(key@) is None,
            },
            r is Some ==> 0 <= self.find(key@)->0 < self.all().len(),
    {
        let ghost total = self.all().len() as int;
        let mut i: usize = 0;
        while i < self.local.len()
            invariant
                i <= self.local@.len(),
                self.find_up_to(key@, i as int) is None,
                total == self.all().len(),
            decreases self.local@.len() - i,
        {
            assert(self.all()[i as int] == self.local@[i as int]);
            if self.local[i].key.is(key) {
                proof {
                    assert(self.find_up_to(key@, i + 1) == Some(i as int));
                    self.lemma_find_stable(key@, i + 1, total);
                }
                return Some(&self.local[i]);
            }
            i += 1;
        }
        let ghost n = self.local@.len() as int;
        let mut j: usize = 0;
        while j < self.remote.len()
            invariant
                j <= self.remote@.len(),
                n == self.local@.len(),
                self.find_up_to(key@, n + j) is None,
                total == self.all().len(),
            decreases self.remote@.len() - j,
        {
            assert(self.all()[n + j] == self.remote@[j as int]);
            if self.remote[j].key.is(key) {
                proof {
                    assert(self.find_up_to(key@, n + j + 1) == Some(n + j));
                    self.lemma_find_stable(key@, n + j + 1, total);
                }
                return Some(&self.remote[j]);
            }
            j += 1;
        }
        None
    }

    proof fn lemma_find_stable(&self, key: (bool, Seq<char>), n: int, m: int)
        requires
            0 <= n <= m,
            self.find_up_to(key, n) is Some,
        ensures
            self.find_up_to(key, m) == self.find_up_to(key, n),
        decreases m - n,
    {
        if n < m {
            self.lemma_find_stable(key, n, m - 1);
        }
    }
}

/// A key says where its task runs and which it is; two keys are the same where both are.
pub proof fn law_keys_name_tasks(
    id: String,
    other: String,
    local: bool,
    remote: bool,
    same_sort: bool,
    across: bool,
)
    requires
        call_ensures(RowKey::is_local, (&RowKey::Local(id),), local),
        call_ensures(RowKey::is_local, (&RowKey::Remote(id),), remote),
        call_ensures(RowKey::is, (&RowKey::Local(id), &RowKey::Local(other)), same_sort),
        call_ensures(RowKey::is, (&RowKey::Local(id), &RowKey::Remote(other)), across),
    ensures
        local && !remote,
        same_sort <==> id@ == other@,
        !across,
{
}

/// Local tasks come before remote ones; among each they come by identifier.
pub proof fn law_local_keys_come_first(
    id: String,
    other: String,
    across: bool,
    back: bool,
    among: bool,
)
    requires
        call_ensures(RowKey::less, (&RowKey::Local(id), &RowKey::Remote(other)), across),
        call_ensures(RowKey::less, (&RowKey::Remote(other), &RowKey::Local(id)), back),
        call_ensures(RowKey::less, (&RowKey::Remote(id), &RowKey::Remote(other)), among),
    ensures
        across && !back,
        among <==> text_before(id@, other@),
{
}

/// A set holds a key after it was put in and not after it was taken out; others stay as they were.
pub proof fn law_set_holds_what_was_put_in(
    put: &mut KeySet,
    take: &mut KeySet,
    key: RowKey,
    other: &RowKey,
    held: bool,
    was_there: bool,
    left: bool,
    other_before: bool,
    other_after: bool,
)
    requires
        other@ != key@,
        call_ensures(KeySet::contains, (&*old(put), other), other_before),
        call_ensures(KeySet::insert, (put, key), ()),
        call_ensures(KeySet::contains, (&*final(put), &key), held),
        *old(take) == *final(put),
        call_ensures(KeySet::remove, (take, &key), was_there),
        call_ensures(KeySet::contains, (&*final(take), &key), left),
        call_ensures(KeySet::contains, (&*final(take), other), other_after),
    ensures
        held && was_there && !left,
        other_before == other_after,
{
}

/// A task is found by its key where one has it, and what is found has that key; a local one is found
/// before a remote one.
pub proof fn law_task_is_found_by_its_key(
    store: &TaskStore,
    key: &RowKey,
    found: Option<&DownloadTaskView>,
    p: int,
)
    requires
        call_ensures(TaskStore::get, (store, key), found),
        0 <= p < store.local@.len() + store.remote@.len(),
    ensures
        found is Some ==> found->0.key@ == key@,
        p < store.local@.len() && store.local@[p].key@ == key@ ==> found is Some,
        p >= store.local@.len() && store.remote@[p - store.local@.len()].key@ == key@
            ==> found is Some,
        found is Some ==> store.local@.contains(*found->0) || store.remote@.contains(*found->0),
{
    let n = store.all().len() as int;
    lemma_found(store, key@, n, p);
    if found is Some {
        let i = store.find(key@)->0;
        if i < store.local@.len() {
            assert(store.local@[i] == *found->0);
        } else {
            assert(store.remote@[i - store.local@.len()] == *found->0);
        }
    }
}

pub proof fn lemma_found(store: &TaskStore, key: (bool, Seq<char>), n: int, p: int)
    requires
        0 <= n <= store.all().len(),
    ensures
        store.find_up_to(key, n) matches Some(i) ==> 0 <= i < n && store.all()[i].key@ == key,
        0 <= p < n && store.all()[p].key@ == key ==> store.find_up_to(key, n) is Some,
    decreases n,
{
    if n > 0 {
        lemma_found(store, key, n - 1, p);
    }
}

/// Replacing the tasks of one sort leaves the other, and counts as a change.
pub proof fn law_replacing_counts_as_a_change(
    local: &mut TaskStore,
    remote: &mut TaskStore,
    rows: Vec<DownloadTaskView>,
    i: usize,
    found: Option<&DownloadTaskView>,
)
    requires
        call_ensures(TaskStore::replace_local, (local, rows), ()),
        call_ensures(TaskStore::replace_remote, (remote, rows), ()),
        call_ensures(TaskStore::row, (&*final(local), RowId::Local(i)), found),
    ensures
        final(local).generation != old(local).generation,
        final(remote).generation != old(remote).generation,
        final(local).remote == old(local).remote,
        final(remote).local == old(remote).local,
        i < rows@.len() ==> found == Some(&rows@[i as int]),
        i >= rows@.len() ==> found is None,
{
}

/// A cleared set holds nothing; a part of a list that is put in is held, and nothing else is added.
pub proof fn law_set_takes_a_part_of_a_list(
    clear: &mut KeySet,
    extend: &mut KeySet,
    keys: &Vec<RowKey>,
    from: usize,
    to: usize,
    i: int,
    empty: bool,
    key: (bool, Seq<char>),
)
    requires
        from <= to <= keys@.len(),
        from <= i < to,
        call_ensures(KeySet::clear, (clear,), ()),
        call_ensures(KeySet::is_empty, (&*final(clear),), empty),
        *old(extend) == *final(clear),
        call_ensures(KeySet::extend, (extend, keys, from, to), ()),
    ensures
        empty,
        final(extend)@.contains(keys@[i]@),
        final(extend)@.contains(key) ==> exists|k: int|
            from <= k < to && (#[trigger] keys@[k])@ == key,
{
    let part = keys@.subrange(from as int, to as int);
    let views = key_views(part);
    assert(views[i - from] == keys@[i]@);
    assert(views.contains(keys@[i]@));
    if final(extend)@.contains(key) {
        assert(views.contains(key));
        let k = choose|k: int| 0 <= k < views.len() && views[k] == key;
        assert(keys@[from + k]@ == key);
    }
}

} // verus!
