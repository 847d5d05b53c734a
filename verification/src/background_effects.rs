//! What goes on in the background while downloads run: telling that they are done, and keeping
//! the machine awake.

use vstd::hash_map::StringHashMap;
use vstd::prelude::*;

use crate::clock::{Duration, Instant};
use crate::notification::{completion_notice, notice_of, notice_words, CompletionStrings};
use crate::preferences::Preferences;
use crate::text::{opt_text, same, texts};

verus! {

/// A notification waits until nothing more was done for this long, in milliseconds.
pub const NOTIFY_DEBOUNCE_MILLIS: u64 = 800;

/// A notification waits no longer than this after the first download it tells of, in seconds.
pub const NOTIFY_MAX_WAIT_SECS: u64 = 3;

/// The preference for notifications, on by default.
pub const NOTIFY_ON_COMPLETE_PREF: &'static str = "download.notify_on_complete";

pub const NOTIFY_ON_COMPLETE_DEFAULT: bool = true;

/// The preference for keeping the machine awake, off by default.
pub const KEEP_AWAKE_PREF: &'static str = "download.keep_awake";

pub const KEEP_AWAKE_DEFAULT: bool = false;

/// The preference for the language.
pub const LOCALE_PREF: &'static str = "general.locale";

/// A task as the service reports it, as far as the background hears of it.
#[derive(Debug)]
pub struct TaskRecord {
    pub task_id: String,
    pub file_name: String,
    pub status: i32,
}

pub open spec fn debounce() -> Duration {
    Duration::of_millis(NOTIFY_DEBOUNCE_MILLIS)
}

pub open spec fn max_wait() -> Duration {
    Duration::of_secs(NOTIFY_MAX_WAIT_SECS)
}

/// Downloads that are done and not told of yet.
#[derive(Debug)]
pub struct PendingCompletions {
    pub file_names: Vec<String>,
    /// The language of the last of them; nothing for that of the system.
    pub locale: Option<String>,
    pub started_at: Option<Instant>,
    pub flush_at: Option<Instant>,
}

impl Default for PendingCompletions {
    fn default() -> (r: Self)
        ensures
            r.file_names@.len() == 0,
            r.locale is None,
            r.started_at is None,
            r.flush_at is None,
    {
        PendingCompletions {
            file_names: Vec::new(),
            locale: None,
            started_at: None,
            flush_at: None,
        }
    }
}

/// When a notification is shown: after a quiet while, but not later than the longest wait after
/// the first download.
pub open spec fn flush_time(started: Instant, now: Instant) -> Instant {
    let quiet = now.after(debounce());
    let latest = started.after(max_wait());
    if quiet.nanos <= latest.nanos {
        quiet
    } else {
        latest
    }
}

impl PendingCompletions {
    /// A notification is due only where a download waits for it.
    pub open spec fn wf(&self) -> bool {
        (self.started_at is Some <==> self.flush_at is Some) && (self.flush_at is None
            ==> self.file_names@.len() == 0)
    }

    /// The moment of the first download, counting the present one.
    pub open spec fn first_at(&self, now: Instant) -> Instant {
        match self.started_at {
            Some(at) => at,
            None => now,
        }
    }

    /// Adds downloads that are done, and works out anew when the notification is shown.
    pub fn push(&mut self, file_names: Vec<String>, locale: Option<String>, now: Instant)
        requires
            now.nanos + debounce().nanos <= u128::MAX,
            old(self).first_at(now).nanos + max_wait().nanos <= u128::MAX,
        ensures
            texts(final(self).file_names@) == texts(old(self).file_names@) + texts(file_names@),
            final(self).locale == locale,
            final(self).started_at == Some(old(self).first_at(now)),
            final(self).flush_at == Some(flush_time(old(self).first_at(now), now)),
            final(self).wf(),
    {
        let mut file_names = file_names;
        let ghost a = self.file_names@;
        let ghost b = file_names@;
        self.file_names.append(&mut file_names);
        assert(texts(self.file_names@) =~= texts(a) + texts(b));
        self.locale = locale;
        let started_at = match self.started_at {
            Some(at) => at,
            None => now,
        };
        self.started_at = Some(started_at);
        let quiet = now.plus(Duration::from_millis(NOTIFY_DEBOUNCE_MILLIS));
        let latest = started_at.plus(Duration::from_secs(NOTIFY_MAX_WAIT_SECS));
        self.flush_at = if quiet.nanos <= latest.nanos {
            Some(quiet)
        } else {
            Some(latest)
        };
    }

    /// Takes what is to be told now.
    pub fn take(&mut self) -> (r: PendingCompletions)
        ensures
            r == *old(self),
            final(self).file_names@.len() == 0,
            final(self).locale is None,
            final(self).started_at is None,
            final(self).flush_at is None,
    {
        let mut batch = PendingCompletions::default();
        std::mem::swap(self, &mut batch);
        batch
    }
}

/// However many downloads follow each other, a notification comes no later than the longest wait
/// after the first of them, and no earlier than a quiet while after the last unless that is the
/// longest wait.
pub proof fn law_notification_never_waits_past_the_cap(started: Instant, now: Instant)
    requires
        started.nanos <= now.nanos,
        now.nanos + debounce().nanos <= u128::MAX,
        started.nanos + max_wait().nanos <= u128::MAX,
    ensures
        flush_time(started, now).nanos <= started.nanos + max_wait().nanos,
        flush_time(started, now).nanos <= now.nanos + debounce().nanos,
        flush_time(started, now).nanos == now.nanos + debounce().nanos || flush_time(
            started,
            now,
        ).nanos == started.nanos + max_wait().nanos,
{
}

pub open spec fn locale_of(preferences: &Preferences) -> Option<Seq<char>> {
    match preferences.text(LOCALE_PREF@) {
        Some(locale) => if locale == "system"@ {
            None
        } else {
            Some(locale)
        },
        None => None,
    }
}

/// The language that was chosen; nothing where that of the system is to be followed.
pub fn locale_preference(preferences: &Preferences) -> (r: Option<String>)
    ensures
        opt_text(r) == locale_of(preferences),
{
    match preferences.preference_text(LOCALE_PREF) {
        Some(locale) => if same(locale, "system") {
            None
        } else {
            Some(locale.to_owned())
        },
        None => None,
    }
}

/// The identifiers of the given tasks.
pub open spec fn task_ids(tasks: Seq<TaskRecord>) -> Seq<Seq<char>> {
    tasks.map_values(|t: TaskRecord| t.task_id@)
}

/// The known states after the first `n` tasks were looked at.
pub open spec fn statuses_after(
    tasks: Seq<TaskRecord>,
    statuses: Map<Seq<char>, i32>,
    n: int,
) -> Map<Seq<char>, i32>
    decreases n,
{
    if n <= 0 {
        statuses
    } else {
        statuses_after(tasks, statuses, n - 1).insert(tasks[n - 1].task_id@, tasks[n - 1].status)
    }
}

/// Whether a task that is looked at was known and not done, and now is.
pub open spec fn becomes_done(task: TaskRecord, known: Map<Seq<char>, i32>) -> bool {
    task.status == 3 && known.contains_key(task.task_id@) && known[task.task_id@] != 3
}

/// The names of those among the first `n` tasks that became done.
pub open spec fn completions_after(
    tasks: Seq<TaskRecord>,
    statuses: Map<Seq<char>, i32>,
    n: int,
) -> Seq<Seq<char>>
    decreases n,
{
    if n <= 0 {
        Seq::empty()
    } else {
        let before = completions_after(tasks, statuses, n - 1);
        let task = tasks[n - 1];
        if becomes_done(task, statuses_after(tasks, statuses, n - 1)) {
            before.push(task.file_name@)
        } else {
            before
        }
    }
}

/// The known states of the given tasks alone.
pub open spec fn only_known(known: Map<Seq<char>, i32>, ids: Seq<Seq<char>>) -> Map<Seq<char>, i32> {
    Map::new(|id: Seq<char>| known.contains_key(id) && ids.contains(id), |id: Seq<char>| known[id])
}

/// The states in which the tasks were last seen.
pub struct TaskStatuses {
    pub by_id: StringHashMap<i32>,
}

impl View for TaskStatuses {
    type V = Map<Seq<char>, i32>;

    open spec fn view(&self) -> Map<Seq<char>, i32> {
        self.by_id@
    }
}

impl TaskStatuses {
    pub fn new() -> (r: TaskStatuses)
        ensures
            r@ == Map::<Seq<char>, i32>::empty(),
    {
        TaskStatuses { by_id: StringHashMap::new() }
    }

    /// The state in which a task was last seen.
    pub fn get(&self, task_id: &str) -> (r: Option<i32>)
        ensures
            r == if self@.contains_key(task_id@) {
                Some(self@[task_id@])
            } else {
                None
            },
    {
        match self.by_id.get(task_id) {
            Some(status) => Some(*status),
            None => None,
        }
    }
}

/// Brings the known states of the tasks up to date, and gives the names of those that became
/// done. A task that was not known is only noted; one that is gone is forgotten. Where the user
/// wants no notifications, none is named.
pub fn take_new_completions(
    preferences: &Preferences,
    tasks: &Vec<TaskRecord>,
    statuses: &mut TaskStatuses,
) -> (r: Vec<String>)
    ensures
        texts(r@) == if preferences.flag_or(NOTIFY_ON_COMPLETE_PREF@, NOTIFY_ON_COMPLETE_DEFAULT) {
            completions_after(tasks@, old(statuses)@, tasks@.len() as int)
        } else {
            Seq::empty()
        },
        final(statuses)@ == only_known(
            statuses_after(tasks@, old(statuses)@, tasks@.len() as int),
            task_ids(tasks@),
        ),
{
    let enabled: bool = preferences.preference_bool(
        NOTIFY_ON_COMPLETE_PREF,
        NOTIFY_ON_COMPLETE_DEFAULT,
    );
    let ghost start = statuses@;
    let mut completed: Vec<String> = Vec::new();
    let mut i: usize = 0;
    assert(texts(completed@) =~= Seq::<Seq<char>>::empty());
    while i < tasks.len()
        invariant
            i <= tasks@.len(),
            statuses@ == statuses_after(tasks@, start, i as int),
            texts(completed@) == if enabled {
                completions_after(tasks@, start, i as int)
            } else {
                Seq::empty()
            },
        decreases tasks@.len() - i,
    {
        let task = &tasks[i];
        let ghost was = texts(completed@);
        let done: bool = match statuses.get(task.task_id.as_str()) {
            Some(previous) => enabled && task.status == 3 && previous != 3,
            None => false,
        };
        if done {
            completed.push(task.file_name.clone());
            assert(texts(completed@) =~= was.push(task.file_name@));
        }
        statuses.by_id.insert(task.task_id.clone(), task.status);
        i += 1;
    }
    let ghost all = statuses@;
    let ghost ids = task_ids(tasks@);
    let mut pruned: StringHashMap<i32> = StringHashMap::new();
    let mut j: usize = 0;
    assert(pruned@ =~= only_known(all, ids.take(0)));
    while j < tasks.len()
        invariant
            j <= tasks@.len(),
            all == statuses@,
            ids == task_ids(tasks@),
            pruned@ == only_known(all, ids.take(j as int)),
        decreases tasks@.len() - j,
    {
        let task = &tasks[j];
        proof {
            lemma_take_contains(ids, j as int);
            assert(ids[j as int] == task.task_id@);
        }
        if let Some(status) = statuses.get(task.task_id.as_str()) {
            pruned.insert(task.task_id.clone(), status);
        }
        assert(pruned@ =~= only_known(all, ids.take(j + 1)));
        j += 1;
    }
    assert(ids.take(j as int) =~= ids);
    statuses.by_id = pruned;
    completed
}

proof fn lemma_take_contains(s: Seq<Seq<char>>, i: int)
    requires
        0 <= i < s.len(),
    ensures
        forall|x: Seq<char>| #[trigger]
            s.take(i + 1).contains(x) <==> s.take(i).contains(x) || x == s[i],
{
    let a = s.take(i);
    let b = s.take(i + 1);
    assert forall|x: Seq<char>| #[trigger] b.contains(x) <==> a.contains(x) || x == s[i] by {
        if a.contains(x) {
            let k = choose|k: int| 0 <= k < a.len() && a[k] == x;
            assert(b[k] == x);
        }
        if b.contains(x) {
            let k = choose|k: int| 0 <= k < b.len() && b[k] == x;
            if k < i {
                assert(a[k] == x);
            }
        }
        assert(b[i] == s[i]);
    }
}

proof fn lemma_statuses_known(
    tasks: Seq<TaskRecord>,
    statuses: Map<Seq<char>, i32>,
    n: int,
    k: int,
)
    requires
        task_ids(tasks).no_duplicates(),
        0 <= n <= tasks.len(),
        0 <= k < tasks.len(),
    ensures
        k < n ==> statuses_after(tasks, statuses, n).contains_key(tasks[k].task_id@)
            && statuses_after(tasks, statuses, n)[tasks[k].task_id@] == tasks[k].status,
        k >= n ==> (statuses_after(tasks, statuses, n).contains_key(tasks[k].task_id@)
            == statuses.contains_key(tasks[k].task_id@) && (statuses.contains_key(
            tasks[k].task_id@,
        ) ==> statuses_after(tasks, statuses, n)[tasks[k].task_id@]
            == statuses[tasks[k].task_id@])),
    decreases n,
{
    if n > 0 {
        lemma_statuses_known(tasks, statuses, n - 1, k);
        if k != n - 1 {
            assert(task_ids(tasks)[k] != task_ids(tasks)[n - 1]);
        }
    }
}

proof fn lemma_no_completions(tasks: Seq<TaskRecord>, statuses: Map<Seq<char>, i32>, n: int)
    requires
        task_ids(tasks).no_duplicates(),
        0 <= n <= tasks.len(),
        forall|k: int|
            0 <= k < tasks.len() ==> !becomes_done(#[trigger] tasks[k], statuses),
    ensures
        completions_after(tasks, statuses, n) == Seq::<Seq<char>>::empty(),
    decreases n,
{
    if n > 0 {
        lemma_no_completions(tasks, statuses, n - 1);
        lemma_statuses_known(tasks, statuses, n - 1, n - 1);
        assert(!becomes_done(tasks[n - 1], statuses));
    }
}

/// A task is told of once for each time it becomes done: looking at the same tasks again names
/// none.
pub proof fn law_completions_are_told_once(tasks: Seq<TaskRecord>, statuses: Map<Seq<char>, i32>)
    requires
        task_ids(tasks).no_duplicates(),
    ensures
        ({
            let known = only_known(
                statuses_after(tasks, statuses, tasks.len() as int),
                task_ids(tasks),
            );
            completions_after(tasks, known, tasks.len() as int) == Seq::<Seq<char>>::empty()
        }),
{
    let n = tasks.len() as int;
    let known = only_known(statuses_after(tasks, statuses, n), task_ids(tasks));
    assert forall|k: int| 0 <= k < tasks.len() implies !becomes_done(
        #[trigger] tasks[k],
        known,
    ) by {
        lemma_statuses_known(tasks, statuses, n, k);
        assert(task_ids(tasks)[k] == tasks[k].task_id@);
        assert(task_ids(tasks).contains(tasks[k].task_id@));
    }
    lemma_no_completions(tasks, known, n);
}

/// A task that was not known is not told of, though it is done; and one that is gone is known no
/// longer, so that it counts as new when it comes back.
pub proof fn law_new_tasks_are_only_noted(tasks: Seq<TaskRecord>, statuses: Map<Seq<char>, i32>)
    requires
        task_ids(tasks).no_duplicates(),
        forall|k: int|
            0 <= k < tasks.len() ==> !statuses.contains_key((#[trigger] tasks[k]).task_id@),
    ensures
        completions_after(tasks, statuses, tasks.len() as int) == Seq::<Seq<char>>::empty(),
        forall|id: Seq<char>|
            !task_ids(tasks).contains(id) ==> !(#[trigger] only_known(
                statuses_after(tasks, statuses, tasks.len() as int),
                task_ids(tasks),
            ).contains_key(id)),
{
    assert forall|k: int| 0 <= k < tasks.len() implies !becomes_done(
        #[trigger] tasks[k],
        statuses,
    ) by {
        assert(!statuses.contains_key(tasks[k].task_id@));
    }
    lemma_no_completions(tasks, statuses, tasks.len() as int);
}

pub open spec fn any_active(tasks: Seq<TaskRecord>) -> bool {
    exists|i: int|
        0 <= i < tasks.len() && ((#[trigger] tasks[i]).status == 1 || tasks[i].status == 5)
}

/// Whether the machine is to be kept awake: the user wants it, and a task downloads or prepares
/// to.
pub open spec fn keep_awake_wanted(preferences: &Preferences, tasks: Seq<TaskRecord>) -> bool {
    preferences.flag_or(KEEP_AWAKE_PREF@, KEEP_AWAKE_DEFAULT) && any_active(tasks)
}

/// Whether the machine is to be kept awake: the user wants it, and a task downloads or prepares
/// to.
pub fn should_keep_awake(preferences: &Preferences, tasks: &Vec<TaskRecord>) -> (r: bool)
    ensures
        r == keep_awake_wanted(preferences, tasks@),
{
    if !preferences.preference_bool(KEEP_AWAKE_PREF, KEEP_AWAKE_DEFAULT) {
        return false;
    }
    let mut i: usize = 0;
    while i < tasks.len()
        invariant
            i <= tasks@.len(),
            preferences.flag_or(KEEP_AWAKE_PREF@, KEEP_AWAKE_DEFAULT),
            forall|k: int|
                0 <= k < i ==> !((#[trigger] tasks@[k]).status == 1 || tasks@[k].status == 5),
        decreases tasks@.len() - i,
    {
        let status: i32 = tasks[i].status;
        if status == 1 || status == 5 {
            assert(tasks@[i as int].status == status);
            return true;
        }
        i += 1;
    }
    false
}

/// What becomes of the hold that keeps the machine awake.
#[derive(Clone, Copy, Debug, PartialEq, Eq, Structural)]
pub enum AwakeStep {
    Keep,
    Acquire,
    Release,
}

/// What becomes of the hold that keeps the machine awake: it is taken where it is wanted and not
/// held, and let go where it is not wanted.
pub fn reconcile_awake(should_hold: bool, held: bool) -> (r: AwakeStep)
    ensures
        r == awake_step(should_hold, held),
{
    if should_hold && !held {
        AwakeStep::Acquire
    } else if !should_hold && held {
        AwakeStep::Release
    } else {
        AwakeStep::Keep
    }
}

/// What goes on in the background: the tasks' known states, the downloads to tell of, and whether
/// the machine is kept awake.
pub struct BackgroundEffects {
    pub statuses: TaskStatuses,
    pub pending: PendingCompletions,
    /// Whether the hold that keeps the machine awake is held.
    pub awake: bool,
}

/// What becomes of the hold that keeps the machine awake.
pub open spec fn awake_step(wanted: bool, held: bool) -> AwakeStep {
    if wanted && !held {
        AwakeStep::Acquire
    } else if !wanted && held {
        AwakeStep::Release
    } else {
        AwakeStep::Keep
    }
}

impl BackgroundEffects {
    /// Begins with the tasks that are there, of which none is told, and says what becomes of the
    /// hold that keeps the machine awake.
    pub fn start(preferences: &Preferences, tasks: &Vec<TaskRecord>) -> (r: (
        BackgroundEffects,
        AwakeStep,
    ))
        ensures
            r.0.statuses@ == statuses_after(
                tasks@,
                Map::<Seq<char>, i32>::empty(),
                tasks@.len() as int,
            ),
            r.0.pending.file_names@.len() == 0,
            r.0.pending.locale is None,
            r.0.pending.flush_at is None,
            r.0.pending.wf(),
            !r.0.awake,
            r.1 == awake_step(keep_awake_wanted(preferences, tasks@), false),
    {
        let mut statuses = TaskStatuses::new();
        let mut i: usize = 0;
        while i < tasks.len()
            invariant
                i <= tasks@.len(),
                statuses@ == statuses_after(tasks@, Map::<Seq<char>, i32>::empty(), i as int),
            decreases tasks@.len() - i,
        {
            statuses.by_id.insert(tasks[i].task_id.clone(), tasks[i].status);
            i += 1;
        }
        let step = reconcile_awake(should_keep_awake(preferences, tasks), false);
        (BackgroundEffects { statuses, pending: PendingCompletions::default(), awake: false }, step)
    }

    /// The names to tell of when the tasks are looked at.
    pub open spec fn newly_done(&self, preferences: &Preferences, tasks: Seq<TaskRecord>) -> Seq<
        Seq<char>,
    > {
        if preferences.flag_or(NOTIFY_ON_COMPLETE_PREF@, NOTIFY_ON_COMPLETE_DEFAULT) {
            completions_after(tasks, self.statuses@, tasks.len() as int)
        } else {
            Seq::empty()
        }
    }

    /// Looks at the tasks: those that became done wait to be told of, in the language of now, and
    /// the hold that keeps the machine awake is taken or let go.
    pub fn look(&mut self, preferences: &Preferences, tasks: &Vec<TaskRecord>, now: Instant) -> (r:
        AwakeStep)
        requires
            now.nanos + debounce().nanos <= u128::MAX,
            old(self).pending.first_at(now).nanos + max_wait().nanos <= u128::MAX,
            old(self).pending.wf(),
        ensures
            r == awake_step(keep_awake_wanted(preferences, tasks@), old(self).awake),
            final(self).awake == old(self).awake,
            final(self).statuses@ == only_known(
                statuses_after(tasks@, old(self).statuses@, tasks@.len() as int),
                task_ids(tasks@),
            ),
            final(self).pending.wf(),
            ({
                let done = old(self).newly_done(preferences, tasks@);
                let first = old(self).pending.first_at(now);
                if done.len() == 0 {
                    final(self).pending == old(self).pending
                } else {
                    &&& texts(final(self).pending.file_names@) == texts(
                        old(self).pending.file_names@,
                    ) + done
                    &&& opt_text(final(self).pending.locale) == locale_of(preferences)
                    &&& final(self).pending.started_at == Some(first)
                    &&& final(self).pending.flush_at == Some(flush_time(first, now))
                }
            }),
    {
        let completed = take_new_completions(preferences, tasks, &mut self.statuses);
        assert(texts(completed@).len() == completed@.len());
        if completed.len() > 0 {
            self.pending.push(completed, locale_preference(preferences), now);
        }
        reconcile_awake(should_keep_awake(preferences, tasks), self.awake)
    }

    /// Takes note of whether the hold that keeps the machine awake could be taken.
    pub fn awake_changed(&mut self, step: AwakeStep, taken: bool)
        ensures
            final(self).statuses == old(self).statuses,
            final(self).pending == old(self).pending,
            final(self).awake == match step {
                AwakeStep::Keep => old(self).awake,
                AwakeStep::Acquire => taken,
                AwakeStep::Release => false,
            },
    {
        match step {
            AwakeStep::Keep => {},
            AwakeStep::Acquire => {
                self.awake = taken;
            },
            AwakeStep::Release => {
                self.awake = false;
            },
        }
    }

    /// Tells of the downloads that wait, all in one notification, in the given words or in
    /// English.
    pub fn flush(&mut self, strings: Option<&CompletionStrings>) -> (r: Option<(String, String)>)
        ensures
            (match r {
                None => None,
                Some((title, body)) => Some((title@, body@)),
            }) == notice_of(texts(old(self).pending.file_names@), notice_words(strings)),
            final(self).pending.file_names@.len() == 0,
            final(self).pending.locale is None,
            final(self).pending.flush_at is None,
            final(self).pending.wf(),
            final(self).statuses == old(self).statuses,
            final(self).awake == old(self).awake,
    {
        let batch = self.pending.take();
        completion_notice(&batch.file_names, strings)
    }
}

proof fn lemma_not_yet_noted(
    tasks: Seq<TaskRecord>,
    statuses: Map<Seq<char>, i32>,
    n: int,
    k: int,
)
    requires
        task_ids(tasks).no_duplicates(),
        0 <= n <= k < tasks.len(),
    ensures
        ({
            let id = tasks[k].task_id@;
            let known = statuses_after(tasks, statuses, n);
            &&& known.contains_key(id) == statuses.contains_key(id)
            &&& statuses.contains_key(id) ==> known[id] == statuses[id]
        }),
    decreases n,
{
    if n > 0 {
        lemma_not_yet_noted(tasks, statuses, n - 1, k);
        assert(task_ids(tasks)[n - 1] != task_ids(tasks)[k]);
    }
}

proof fn lemma_told(
    tasks: Seq<TaskRecord>,
    statuses: Map<Seq<char>, i32>,
    n: int,
    name: Seq<char>,
)
    requires
        task_ids(tasks).no_duplicates(),
        0 <= n <= tasks.len(),
    ensures
        completions_after(tasks, statuses, n).contains(name) <==> exists|k: int|
            0 <= k < n && (#[trigger] tasks[k]).file_name@ == name && tasks[k].status == 3
                && statuses.contains_key(tasks[k].task_id@) && statuses[tasks[k].task_id@] != 3,
    decreases n,
{
    if n > 0 {
        lemma_told(tasks, statuses, n - 1, name);
        lemma_not_yet_noted(tasks, statuses, n - 1, n - 1);
        let before = completions_after(tasks, statuses, n - 1);
        let after = completions_after(tasks, statuses, n);
        let task = tasks[n - 1];
        if before.contains(name) {
            let i = choose|i: int| 0 <= i < before.len() && before[i] == name;
            assert(after[i] == name);
        }
        if becomes_done(task, statuses_after(tasks, statuses, n - 1)) && task.file_name@ == name {
            assert(after[before.len() as int] == name);
        }
        if after.contains(name) && !before.contains(name) {
            let i = choose|i: int| 0 <= i < after.len() && after[i] == name;
            assert(i == before.len());
        }
    }
}

/// A download is told of exactly where its task was known, was not done before and is done now;
/// where the user wants no notifications, none is.
pub proof fn law_download_is_told_of_when_it_becomes_done(
    preferences: &Preferences,
    tasks: &Vec<TaskRecord>,
    statuses: &mut TaskStatuses,
    names: Vec<String>,
    name: Seq<char>,
)
    requires
        task_ids(tasks@).no_duplicates(),
        call_ensures(take_new_completions, (preferences, tasks, statuses), names),
    ensures
        preferences.flag("download.notify_on_complete"@) != Some(false) ==> (texts(
            names@,
        ).contains(name) <==> exists|k: int|
            0 <= k < tasks@.len() && (#[trigger] tasks@[k]).file_name@ == name && tasks@[k].status
                == 3 && old(statuses)@.contains_key(tasks@[k].task_id@) && old(
                statuses)@[tasks@[k].task_id@] != 3),
        preferences.flag("download.notify_on_complete"@) == Some(false) ==> names@.len() == 0,
{
    lemma_told(tasks@, old(statuses)@, tasks@.len() as int, name);
    assert(texts(names@).len() == names@.len());
}

/// After a look, every task that was reported is known in the state it was reported in, and no other
/// task is known.
pub proof fn law_reported_states_are_known(
    preferences: &Preferences,
    tasks: &Vec<TaskRecord>,
    statuses: &mut TaskStatuses,
    names: Vec<String>,
    k: int,
    id: &str,
    known: Option<i32>,
)
    requires
        task_ids(tasks@).no_duplicates(),
        call_ensures(take_new_completions, (preferences, tasks, statuses), names),
        call_ensures(TaskStatuses::get, (&*final(statuses), id), known),
        0 <= k < tasks@.len(),
    ensures
        id@ == tasks@[k].task_id@ ==> known == Some(tasks@[k].status),
        (forall|j: int| 0 <= j < tasks@.len() ==> (#[trigger] tasks@[j]).task_id@ != id@)
            ==> known is None,
{
    lemma_statuses_known(tasks@, old(statuses)@, tasks@.len() as int, k);
    assert(task_ids(tasks@)[k] == tasks@[k].task_id@);
    assert(task_ids(tasks@).contains(tasks@[k].task_id@));
    if task_ids(tasks@).contains(id@) {
        let j = choose|j: int| 0 <= j < task_ids(tasks@).len() && task_ids(tasks@)[j] == id@;
        assert(tasks@[j].task_id@ == id@);
    }
}

/// The machine is kept awake exactly where the user wants it and a task downloads or prepares to;
/// the user has to ask for it.
pub proof fn law_active_tasks_keep_the_machine_awake(
    preferences: &Preferences,
    tasks: &Vec<TaskRecord>,
    wanted: bool,
)
    requires
        call_ensures(should_keep_awake, (preferences, tasks), wanted),
    ensures
        wanted <==> preferences.flag("download.keep_awake"@) == Some(true) && exists|i: int|
            0 <= i < tasks@.len() && ((#[trigger] tasks@[i]).status == 1 || tasks@[i].status == 5),
{
}

/// The hold that keeps the machine awake ends up held exactly where it is wanted, and a second look
/// changes nothing.
pub proof fn law_hold_follows_what_is_wanted(
    effects: &mut BackgroundEffects,
    wanted: bool,
    step: AwakeStep,
    next: AwakeStep,
)
    requires
        call_ensures(reconcile_awake, (wanted, old(effects).awake), step),
        call_ensures(BackgroundEffects::awake_changed, (effects, step, true), ()),
        call_ensures(reconcile_awake, (wanted, final(effects).awake), next),
    ensures
        final(effects).awake == wanted,
        next == AwakeStep::Keep,
        step == AwakeStep::Keep <==> old(effects).awake == wanted,
{
}

/// A hold that could not be taken is not held.
pub proof fn law_hold_that_failed_is_not_held(effects: &mut BackgroundEffects)
    requires
        call_ensures(
            BackgroundEffects::awake_changed,
            (effects, AwakeStep::Acquire, false),
            (),
        ),
    ensures
        !final(effects).awake,
{
}

/// Downloads that are done one after the other are gathered in that order; the time of the
/// notification is put off by 800 milliseconds with each, up to three seconds after the first.
pub proof fn law_downloads_are_gathered(
    first: &mut PendingCompletions,
    second: &mut PendingCompletions,
    a: Vec<String>,
    b: Vec<String>,
    locale: Option<String>,
    at: Instant,
    later: Instant,
)
    requires
        old(first).started_at is None,
        old(first).file_names@.len() == 0,
        at.nanos <= later.nanos,
        later.nanos + 3_000_000_000 <= u128::MAX,
        call_ensures(PendingCompletions::push, (first, a, locale, at), ()),
        *old(second) == *final(first),
        call_ensures(PendingCompletions::push, (second, b, locale, later), ()),
    ensures
        texts(final(second).file_names@) == texts(a@) + texts(b@),
        final(first).flush_at is Some,
        (final(first).flush_at->0).nanos == at.nanos + 800_000_000,
        final(second).flush_at is Some,
        (final(second).flush_at->0).nanos == if later.nanos + 800_000_000 <= at.nanos
            + 3_000_000_000 {
            later.nanos + 800_000_000
        } else {
            at.nanos + 3_000_000_000
        },
{
    assert(texts(old(first).file_names@) =~= Seq::<Seq<char>>::empty());
    assert(texts(old(first).file_names@) + texts(a@) =~= texts(a@));
}

/// The notification tells of all that was gathered, and nothing of it is left; telling again tells
/// nothing.
pub proof fn law_gathered_downloads_are_told_once(
    first: &mut BackgroundEffects,
    second: &mut BackgroundEffects,
    strings: &CompletionStrings,
    told: Option<(String, String)>,
    again: Option<(String, String)>,
)
    requires
        call_ensures(BackgroundEffects::flush, (first, Some(strings)), told),
        *old(second) == *final(first),
        call_ensures(BackgroundEffects::flush, (second, Some(strings)), again),
    ensures
        told is None <==> old(first).pending.file_names@.len() == 0,
        old(first).pending.file_names@.len() == 1 ==> (told->0).1@ == old(
            first).pending.file_names@[0]@,
        again is None,
        final(first).pending.flush_at is None,
{
    assert(texts(old(first).pending.file_names@).len() == old(first).pending.file_names@.len());
    assert(texts(old(second).pending.file_names@).len() == old(second).pending.file_names@.len());
}

/// The language is the one that was chosen; that of the system counts as none.
pub proof fn law_language_is_the_chosen_one(preferences: &Preferences, locale: Option<String>)
    requires
        call_ensures(locale_preference, (preferences,), locale),
    ensures
        preferences.text("general.locale"@) is None ==> locale is None,
        preferences.text("general.locale"@) == Some("system"@) ==> locale is None,
        preferences.text("general.locale"@) matches Some(chosen) ==> (chosen != "system"@ ==> opt_text(
            locale,
        ) == Some(chosen)),
{
}

} // verus!
