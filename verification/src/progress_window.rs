//! When a task gets a window of its own: one that shows its progress, and one that says it is
//! done.
//!
//! Only tasks that the user began by hand get windows: [`ProgressWindowTracker::arm`] records
//! such a start, and what queues, restarts, feeds and batches begin never comes this way. A task
//! that becomes active gets its progress window. When it is done, an open window turns to the
//! completion view, or closes where the settings say so; where the user closed the window
//! meanwhile, a completion window opens once.

use vstd::hash_map::StringHashMap;
use vstd::hash_set::StringHashSet;
use vstd::prelude::*;

use crate::preferences::Preferences;

verus! {

/// The preference for progress windows; on unless it says otherwise.
pub const PROGRESS_WINDOW_PREF: &'static str = "desktop.progress_window";

/// The preference for completion windows; on unless it says otherwise.
pub const COMPLETION_WINDOW_PREF: &'static str = "desktop.completion_window";

/// The states of a task as the service numbers them.
pub const STATUS_DOWNLOADING: i32 = 1;

pub const STATUS_PAUSED: i32 = 2;

pub const STATUS_COMPLETED: i32 = 3;

pub const STATUS_ERROR: i32 = 4;

pub const STATUS_PREPARING: i32 = 5;

/// Which windows the user wants.
#[derive(Clone, Copy, Debug, PartialEq, Eq, Structural)]
pub struct ProgressWindowPrefs {
    pub progress: bool,
    pub completion: bool,
}

impl Default for ProgressWindowPrefs {
    fn default() -> (r: Self)
        ensures
            r.progress,
            r.completion,
    {
        ProgressWindowPrefs { progress: true, completion: true }
    }
}

impl ProgressWindowPrefs {
    /// Reads the two preferences; one that is missing or no flag counts as on.
    pub fn from_preferences(values: &Preferences) -> (r: ProgressWindowPrefs)
        ensures
            r.progress == values.flag_or(PROGRESS_WINDOW_PREF@, true),
            r.completion == values.flag_or(COMPLETION_WINDOW_PREF@, true),
    {
        ProgressWindowPrefs {
            progress: values.preference_bool(PROGRESS_WINDOW_PREF, true),
            completion: values.preference_bool(COMPLETION_WINDOW_PREF, true),
        }
    }
}

/// What is to be done with the window of a task.
#[derive(Clone, Copy, Debug, PartialEq, Eq, Structural)]
pub enum ProgressWindowEffect {
    /// Open the progress window and bring it to the front.
    OpenProgress,
    /// Open the completion window behind the others.
    OpenCompletion,
    /// Close the open window.
    Close,
}

/// Which tasks the user began, and what was chosen in their windows.
pub struct ProgressWindowTracker {
    /// Begun by the user and not seen active yet.
    pub armed: StringHashSet,
    /// Begun by the user, seen active and not done yet.
    pub user_started: StringHashSet,
    /// Chosen in a task's window: whether it says that the task is done.
    pub completion_override: StringHashMap<bool>,
}

/// What a tracker holds.
pub struct TrackerView {
    pub armed: Set<Seq<char>>,
    pub started: Set<Seq<char>>,
    pub overrides: Map<Seq<char>, bool>,
}

impl View for ProgressWindowTracker {
    type V = TrackerView;

    open spec fn view(&self) -> TrackerView {
        TrackerView {
            armed: self.armed@,
            started: self.user_started@,
            overrides: self.completion_override@,
        }
    }
}

impl TrackerView {
    /// Whether a task that is done says so in its window: its own choice goes before the setting.
    pub open spec fn shows_completion(self, id: Seq<char>, prefs: ProgressWindowPrefs) -> bool {
        if self.overrides.contains_key(id) {
            self.overrides[id]
        } else {
            prefs.completion
        }
    }

    /// The tracker after a task was seen in a state.
    pub open spec fn after(self, id: Seq<char>, status: i32) -> TrackerView {
        if status == STATUS_DOWNLOADING || status == STATUS_PREPARING {
            TrackerView {
                armed: self.armed.remove(id),
                started: if self.armed.contains(id) {
                    self.started.insert(id)
                } else {
                    self.started
                },
                ..self
            }
        } else if status == STATUS_COMPLETED {
            TrackerView {
                armed: self.armed.remove(id),
                started: self.started.remove(id),
                ..self
            }
        } else if status == STATUS_PAUSED || status == STATUS_ERROR {
            TrackerView { armed: self.armed.remove(id), ..self }
        } else {
            self
        }
    }

    /// What is to be done when a task is seen in a state.
    pub open spec fn effect(
        self,
        id: Seq<char>,
        status: i32,
        window_open: bool,
        prefs: ProgressWindowPrefs,
    ) -> Option<ProgressWindowEffect> {
        if status == STATUS_DOWNLOADING || status == STATUS_PREPARING {
            if self.armed.contains(id) && prefs.progress && !window_open {
                Some(ProgressWindowEffect::OpenProgress)
            } else {
                None
            }
        } else if status == STATUS_COMPLETED {
            let show = self.shows_completion(id, prefs);
            if window_open {
                if show {
                    None
                } else {
                    Some(ProgressWindowEffect::Close)
                }
            } else if (self.armed.contains(id) || self.started.contains(id)) && show {
                Some(ProgressWindowEffect::OpenCompletion)
            } else {
                None
            }
        } else {
            None
        }
    }

    /// Whether the user began the task and it is not done.
    pub open spec fn begun(self, id: Seq<char>) -> bool {
        self.armed.contains(id) || self.started.contains(id)
    }
}

impl Default for ProgressWindowTracker {
    fn default() -> (r: Self)
        ensures
            r@.armed == Set::<Seq<char>>::empty(),
            r@.started == Set::<Seq<char>>::empty(),
            r@.overrides == Map::<Seq<char>, bool>::empty(),
    {
        ProgressWindowTracker {
            armed: StringHashSet::new(),
            user_started: StringHashSet::new(),
            completion_override: StringHashMap::new(),
        }
    }
}

impl ProgressWindowTracker {
    /// Records that the user began a task. The task's present state is to be observed right
    /// after, since the state may have been reported before the answer to the command.
    pub fn arm(&mut self, task_id: &str)
        ensures
            final(self)@ == (TrackerView { armed: old(self)@.armed.insert(task_id@), ..old(self)@ }),
    {
        self.armed.insert(task_id.to_owned());
    }

    /// Whether a start by the user still waits for the task to become active.
    pub fn is_armed(&self, task_id: &str) -> (r: bool)
        ensures
            r == self@.armed.contains(task_id@),
    {
        self.armed.contains(task_id)
    }

    /// Whether a task that is done says so in its window.
    pub fn show_completion(&self, task_id: &str, prefs: ProgressWindowPrefs) -> (r: bool)
        ensures
            r == self@.shows_completion(task_id@, prefs),
    {
        match self.completion_override.get(task_id) {
            Some(value) => *value,
            None => prefs.completion,
        }
    }

    /// Records what was chosen in a task's window.
    pub fn set_completion_override(&mut self, task_id: &str, value: bool)
        ensures
            final(self)@ == (TrackerView {
                overrides: old(self)@.overrides.insert(task_id@, value),
                ..old(self)@
            }),
    {
        self.completion_override.insert(task_id.to_owned(), value);
    }

    /// Drops all that is known of a task that was deleted.
    pub fn forget(&mut self, task_id: &str)
        ensures
            final(self)@ == (TrackerView {
                armed: old(self)@.armed.remove(task_id@),
                started: old(self)@.started.remove(task_id@),
                overrides: old(self)@.overrides.remove(task_id@),
            }),
    {
        self.armed.remove(task_id);
        self.user_started.remove(task_id);
        self.completion_override.remove(task_id);
    }

    /// Takes note of a task's state. `window_open` says whether the task has a window.
    pub fn observe(
        &mut self,
        task_id: &str,
        status: i32,
        window_open: bool,
        prefs: ProgressWindowPrefs,
    ) -> (r: Option<ProgressWindowEffect>)
        ensures
            final(self)@ == old(self)@.after(task_id@, status),
            r == old(self)@.effect(task_id@, status, window_open, prefs),
    {
        if status == STATUS_DOWNLOADING || status == STATUS_PREPARING {
            if !self.armed.remove(task_id) {
                assert(old(self)@.armed.remove(task_id@) =~= old(self)@.armed);
                return None;
            }
            self.user_started.insert(task_id.to_owned());
            if prefs.progress && !window_open {
                Some(ProgressWindowEffect::OpenProgress)
            } else {
                None
            }
        } else if status == STATUS_COMPLETED {
            let armed: bool = self.armed.remove(task_id);
            let started: bool = self.user_started.remove(task_id) || armed;
            let show: bool = self.show_completion(task_id, prefs);
            if window_open {
                if show {
                    None
                } else {
                    Some(ProgressWindowEffect::Close)
                }
            } else if started && show {
                Some(ProgressWindowEffect::OpenCompletion)
            } else {
                None
            }
        } else if status == STATUS_PAUSED || status == STATUS_ERROR {
            self.armed.remove(task_id);
            None
        } else {
            None
        }
    }
}

/// One report of a task's state: the state, whether it has a window, and the settings.
pub struct Observation {
    pub status: i32,
    pub window_open: bool,
    pub prefs: ProgressWindowPrefs,
}

/// What can happen to a tracker.
pub enum TrackerStep {
    /// The user began a task.
    Arm(Seq<char>),
    /// A task was reported.
    Observe(Seq<char>, Observation),
    /// It was asked, in a task's window or on its behalf, whether completion shows.
    AskCompletion(Seq<char>),
    /// It was chosen in a task's window whether completion shows.
    Override(Seq<char>, bool),
    /// A task was deleted.
    Forget(Seq<char>),
}

impl TrackerView {
    /// The tracker after a step.
    pub open spec fn stepped(self, step: TrackerStep) -> TrackerView {
        match step {
            TrackerStep::Arm(id) => TrackerView { armed: self.armed.insert(id), ..self },
            TrackerStep::Observe(id, o) => self.after(id, o.status),
            TrackerStep::AskCompletion(_) => self,
            TrackerStep::Override(id, value) => TrackerView {
                overrides: self.overrides.insert(id, value),
                ..self
            },
            TrackerStep::Forget(id) => TrackerView {
                armed: self.armed.remove(id),
                started: self.started.remove(id),
                overrides: self.overrides.remove(id),
            },
        }
    }

    /// What is to be done for a task at a step.
    pub open spec fn done_for(self, id: Seq<char>, step: TrackerStep) -> Option<
        ProgressWindowEffect,
    > {
        match step {
            TrackerStep::Observe(seen, o) => if seen == id {
                self.effect(id, o.status, o.window_open, o.prefs)
            } else {
                None
            },
            _ => None,
        }
    }
}

/// The tracker after several steps.
pub open spec fn after_steps(tracker: TrackerView, steps: Seq<TrackerStep>) -> TrackerView
    decreases steps.len(),
{
    if steps.len() == 0 {
        tracker
    } else {
        after_steps(tracker, steps.drop_last()).stepped(steps.last())
    }
}

proof fn lemma_not_begun(tracker: TrackerView, id: Seq<char>, steps: Seq<TrackerStep>)
    requires
        !tracker.begun(id),
        forall|k: int| 0 <= k < steps.len() ==> #[trigger] steps[k] != TrackerStep::Arm(id),
    ensures
        !after_steps(tracker, steps).begun(id),
    decreases steps.len(),
{
    if steps.len() > 0 {
        let rest = steps.drop_last();
        assert forall|k: int| 0 <= k < rest.len() implies #[trigger] rest[k] != TrackerStep::Arm(
            id,
        ) by {
            assert(steps[k] == rest[k]);
        }
        lemma_not_begun(tracker, id, rest);
        assert(steps[steps.len() - 1] != TrackerStep::Arm(id));
    }
}

/// A task that the user did not begin never gets a window, whatever happens to it and to other
/// tasks: reports, starts of others, choices, and deletions in any order.
pub proof fn law_unarmed_tasks_never_open_windows(
    tracker: TrackerView,
    id: Seq<char>,
    steps: Seq<TrackerStep>,
    i: int,
)
    requires
        !tracker.begun(id),
        0 <= i < steps.len(),
        forall|k: int| 0 <= k < i ==> #[trigger] steps[k] != TrackerStep::Arm(id),
    ensures
        ({
            let effect = after_steps(tracker, steps.take(i)).done_for(id, steps[i]);
            &&& effect != Some(ProgressWindowEffect::OpenProgress)
            &&& effect != Some(ProgressWindowEffect::OpenCompletion)
        }),
{
    let before = steps.take(i);
    assert forall|k: int| 0 <= k < before.len() implies #[trigger] before[k] != TrackerStep::Arm(
        id,
    ) by {
        assert(steps[k] == before[k]);
    }
    lemma_not_begun(tracker, id, before);
}

/// A start by the user opens at most one progress window and at most one completion window: of
/// two steps with no start of the task between them, at most one opens a window of either sort,
/// whatever happens in between.
pub proof fn law_each_window_opens_once(
    tracker: TrackerView,
    id: Seq<char>,
    steps: Seq<TrackerStep>,
    i: int,
    j: int,
    effect: ProgressWindowEffect,
)
    requires
        0 <= i < j < steps.len(),
        forall|k: int| i < k < j ==> #[trigger] steps[k] != TrackerStep::Arm(id),
        effect == ProgressWindowEffect::OpenProgress || effect
            == ProgressWindowEffect::OpenCompletion,
        after_steps(tracker, steps.take(i)).done_for(id, steps[i]) == Some(effect),
    ensures
        after_steps(tracker, steps.take(j)).done_for(id, steps[j]) != Some(effect),
{
    let before = after_steps(tracker, steps.take(i));
    let then = before.stepped(steps[i]);
    let between = steps.subrange(i + 1, j);
    assert(steps.take(i + 1).drop_last() =~= steps.take(i));
    assert(after_steps(tracker, steps.take(i + 1)) == then);
    lemma_steps_append(tracker, steps.take(i + 1), between);
    assert(steps.take(i + 1) + between =~= steps.take(j));
    assert forall|k: int| 0 <= k < between.len() implies #[trigger] between[k] != TrackerStep::Arm(
        id,
    ) by {
        assert(steps[i + 1 + k] == between[k]);
    }
    if effect == ProgressWindowEffect::OpenProgress {
        lemma_not_armed(then, id, between);
    } else {
        lemma_not_begun(then, id, between);
    }
}

proof fn lemma_not_armed(tracker: TrackerView, id: Seq<char>, steps: Seq<TrackerStep>)
    requires
        !tracker.armed.contains(id),
        forall|k: int| 0 <= k < steps.len() ==> #[trigger] steps[k] != TrackerStep::Arm(id),
    ensures
        !after_steps(tracker, steps).armed.contains(id),
    decreases steps.len(),
{
    if steps.len() > 0 {
        let rest = steps.drop_last();
        assert forall|k: int| 0 <= k < rest.len() implies #[trigger] rest[k] != TrackerStep::Arm(
            id,
        ) by {
            assert(steps[k] == rest[k]);
        }
        lemma_not_armed(tracker, id, rest);
        assert(steps[steps.len() - 1] != TrackerStep::Arm(id));
    }
}

proof fn lemma_steps_append(tracker: TrackerView, a: Seq<TrackerStep>, b: Seq<TrackerStep>)
    ensures
        after_steps(tracker, a + b) == after_steps(after_steps(tracker, a), b),
    decreases b.len(),
{
    if b.len() == 0 {
        assert(a + b =~= a);
    } else {
        lemma_steps_append(tracker, a, b.drop_last());
        assert((a + b).drop_last() =~= a + b.drop_last());
        assert((a + b).last() == b.last());
    }
}

/// A report on one task changes nothing for the others.
pub proof fn law_tasks_are_independent(
    tracker: TrackerView,
    id: Seq<char>,
    status: i32,
    other: Seq<char>,
)
    requires
        id != other,
    ensures
        tracker.after(id, status).armed.contains(other) == tracker.armed.contains(other),
        tracker.after(id, status).started.contains(other) == tracker.started.contains(other),
        tracker.after(id, status).overrides == tracker.overrides,
{
}

/// A start by the user outlasts the time that the task waits for its turn: only becoming active,
/// being done, being paused and failing use it up.
pub proof fn law_waiting_keeps_the_start(tracker: TrackerView, id: Seq<char>, status: i32)
    requires
        status < STATUS_DOWNLOADING || status > STATUS_PREPARING,
    ensures
        tracker.after(id, status) == tracker,
{
}

/// Which tasks the interface waits for before it goes: begun by the user, with no window yet.
pub struct ProgressWindows {
    pub tracker: ProgressWindowTracker,
    pub waiting: StringHashSet,
}

/// What is to be done for a task.
#[derive(Clone, Copy, Debug, PartialEq, Eq, Structural)]
pub struct ProgressStep {
    pub effect: Option<ProgressWindowEffect>,
    /// The wait of the interface for the task that was begun before is over.
    pub release: bool,
    /// The interface is to begin to wait for the task.
    pub hold: bool,
}

/// An event of the session, as far as it concerns windows of tasks.
#[derive(Debug, PartialEq, Eq)]
pub enum ProgressEvent {
    /// A task is in a state.
    TaskStatus { task_id: String, status: i32 },
    /// Captured links were made into tasks without asking.
    CaptureTasksStarted { task_ids: Vec<String> },
    TaskDeleted { task_id: String },
    /// All tasks were reported anew.
    TasksReplaced,
    Other,
}

/// What an event asks for.
#[derive(Debug, PartialEq, Eq)]
pub enum ProgressRequest {
    /// Observe the task in this state.
    Observe { task_id: String, status: i32 },
    /// Treat the task as begun by the user.
    UserStarted { task_id: String },
    /// Forget the task.
    Forget { task_id: String },
    /// Observe every task in its present state.
    ObserveAll,
    Nothing,
}

/// What an event asks for. Tasks made from captured links count as begun by the user where there
/// is exactly one.
pub fn progress_request(event: &ProgressEvent) -> (r: ProgressRequest)
    ensures
        match *event {
            ProgressEvent::TaskStatus { task_id, status } => match r {
                ProgressRequest::Observe { task_id: id, status: s } => id@ == task_id@ && s
                    == status,
                _ => false,
            },
            ProgressEvent::CaptureTasksStarted { task_ids } => if task_ids@.len() == 1 {
                match r {
                    ProgressRequest::UserStarted { task_id: id } => id@ == task_ids@[0]@,
                    _ => false,
                }
            } else {
                r == ProgressRequest::Nothing
            },
            ProgressEvent::TaskDeleted { task_id } => match r {
                ProgressRequest::Forget { task_id: id } => id@ == task_id@,
                _ => false,
            },
            ProgressEvent::TasksReplaced => r == ProgressRequest::ObserveAll,
            ProgressEvent::Other => r == ProgressRequest::Nothing,
        },
{
    match event {
        ProgressEvent::TaskStatus { task_id, status } => ProgressRequest::Observe {
            task_id: task_id.clone(),
            status: *status,
        },
        ProgressEvent::CaptureTasksStarted { task_ids } => if task_ids.len() == 1 {
            ProgressRequest::UserStarted { task_id: task_ids[0].clone() }
        } else {
            ProgressRequest::Nothing
        },
        ProgressEvent::TaskDeleted { task_id } => ProgressRequest::Forget {
            task_id: task_id.clone(),
        },
        ProgressEvent::TasksReplaced => ProgressRequest::ObserveAll,
        ProgressEvent::Other => ProgressRequest::Nothing,
    }
}

impl ProgressWindows {
    /// The interface waits only for starts that still wait for their task.
    pub open spec fn wf(&self) -> bool {
        self.waiting@.subset_of(self.tracker@.armed)
    }

    pub fn new() -> (r: ProgressWindows)
        ensures
            r.wf(),
            r.tracker@.armed == Set::<Seq<char>>::empty(),
            r.tracker@.started == Set::<Seq<char>>::empty(),
            r.tracker@.overrides == Map::<Seq<char>, bool>::empty(),
            r.waiting@ == Set::<Seq<char>>::empty(),
    {
        ProgressWindows { tracker: ProgressWindowTracker::default(), waiting: StringHashSet::new() }
    }

    /// Stops waiting for a task whose start no longer waits, and says whether it did.
    fn release_if_resolved(&mut self, task_id: &str) -> (r: bool)
        ensures
            final(self).tracker == old(self).tracker,
            r == (!old(self).tracker@.armed.contains(task_id@) && old(self).waiting@.contains(
                task_id@,
            )),
            final(self).waiting@ == if old(self).tracker@.armed.contains(task_id@) {
                old(self).waiting@
            } else {
                old(self).waiting@.remove(task_id@)
            },
    {
        if self.tracker.is_armed(task_id) {
            return false;
        }
        self.waiting.remove(task_id)
    }

    /// Takes note of a task's state.
    pub fn observe(
        &mut self,
        task_id: &str,
        status: i32,
        window_open: bool,
        prefs: ProgressWindowPrefs,
    ) -> (r: ProgressStep)
        requires
            old(self).wf(),
        ensures
            final(self).wf(),
            final(self).tracker@ == old(self).tracker@.after(task_id@, status),
            r.effect == old(self).tracker@.effect(task_id@, status, window_open, prefs),
            r.release == (old(self).waiting@.contains(task_id@)
                && !final(self).tracker@.armed.contains(task_id@)),
            !r.hold,
            final(self).waiting@ == if r.release {
                old(self).waiting@.remove(task_id@)
            } else {
                old(self).waiting@
            },
    {
        let effect = self.tracker.observe(task_id, status, window_open, prefs);
        let release: bool = self.release_if_resolved(task_id);
        proof {
            if !old(self).waiting@.contains(task_id@) {
                assert(old(self).waiting@.remove(task_id@) =~= old(self).waiting@);
            }
        }
        ProgressStep { effect, release, hold: false }
    }

    /// The user began a task. Its present state, where it is known, is observed at once. While
    /// the start then still waits, the interface waits for it, from now on: a wait for an earlier
    /// start of the task is over either way.
    pub fn user_started(
        &mut self,
        task_id: &str,
        status: Option<i32>,
        window_open: bool,
        prefs: ProgressWindowPrefs,
    ) -> (r: ProgressStep)
        requires
            old(self).wf(),
        ensures
            final(self).wf(),
            ({
                let armed = TrackerView {
                    armed: old(self).tracker@.armed.insert(task_id@),
                    ..old(self).tracker@
                };
                &&& final(self).tracker@ == match status {
                    Some(status) => armed.after(task_id@, status),
                    None => armed,
                }
                &&& r.effect == match status {
                    Some(status) => armed.effect(task_id@, status, window_open, prefs),
                    None => None,
                }
            }),
            r.hold == final(self).tracker@.armed.contains(task_id@),
            r.release == old(self).waiting@.contains(task_id@),
            final(self).waiting@ == if r.hold {
                old(self).waiting@.insert(task_id@)
            } else {
                old(self).waiting@.remove(task_id@)
            },
    {
        self.tracker.arm(task_id);
        let mut step = ProgressStep { effect: None, release: false, hold: false };
        if let Some(status) = status {
            step = self.observe(task_id, status, window_open, prefs);
        }
        if self.tracker.is_armed(task_id) {
            step.release = self.waiting.contains(task_id);
            self.waiting.insert(task_id.to_owned());
            step.hold = true;
        } else {
            assert(self.waiting@ =~= old(self).waiting@.remove(task_id@));
        }
        step
    }

    /// Drops all that is known of a task that was deleted, and says whether the interface waited
    /// for it.
    pub fn forget(&mut self, task_id: &str) -> (r: bool)
        requires
            old(self).wf(),
        ensures
            final(self).wf(),
            final(self).tracker@ == (TrackerView {
                armed: old(self).tracker@.armed.remove(task_id@),
                started: old(self).tracker@.started.remove(task_id@),
                overrides: old(self).tracker@.overrides.remove(task_id@),
            }),
            final(self).waiting@ == old(self).waiting@.remove(task_id@),
            r == old(self).waiting@.contains(task_id@),
    {
        self.tracker.forget(task_id);
        self.release_if_resolved(task_id)
    }
}

/// A task that the user began gets its progress window when it becomes active, once: the next
/// report opens none. When it is done after the window was closed, a completion window opens, and
/// again only once.
pub proof fn law_started_task_gets_its_windows(
    begin: &mut ProgressWindowTracker,
    run: &mut ProgressWindowTracker,
    on: &mut ProgressWindowTracker,
    end: &mut ProgressWindowTracker,
    past: &mut ProgressWindowTracker,
    id: &str,
    prefs: ProgressWindowPrefs,
    effects: Seq<Option<ProgressWindowEffect>>,
)
    requires
        prefs.progress,
        prefs.completion,
        !old(begin)@.overrides.contains_key(id@),
        effects.len() == 4,
        call_ensures(ProgressWindowTracker::arm, (begin, id), ()),
        *old(run) == *final(begin),
        call_ensures(ProgressWindowTracker::observe, (run, id, 1i32, false, prefs), effects[0]),
        *old(on) == *final(run),
        call_ensures(ProgressWindowTracker::observe, (on, id, 1i32, false, prefs), effects[1]),
        *old(end) == *final(on),
        call_ensures(ProgressWindowTracker::observe, (end, id, 3i32, false, prefs), effects[2]),
        *old(past) == *final(end),
        call_ensures(ProgressWindowTracker::observe, (past, id, 3i32, false, prefs), effects[3]),
    ensures
        effects[0] == Some(ProgressWindowEffect::OpenProgress),
        effects[1] is None,
        effects[2] == Some(ProgressWindowEffect::OpenCompletion),
        effects[3] is None,
{
}

/// Preparing counts as becoming active; waiting, being paused and failing open nothing.
pub proof fn law_only_active_and_done_open_windows(
    tracker: &mut ProgressWindowTracker,
    id: &str,
    status: i32,
    window_open: bool,
    prefs: ProgressWindowPrefs,
    effect: Option<ProgressWindowEffect>,
)
    requires
        old(tracker)@.armed.contains(id@),
        call_ensures(
            ProgressWindowTracker::observe,
            (tracker, id, status, window_open, prefs),
            effect,
        ),
    ensures
        (status == 1 || status == 5) && prefs.progress && !window_open ==> effect == Some(
            ProgressWindowEffect::OpenProgress,
        ),
        (status == 1 || status == 5) && (window_open || !prefs.progress) ==> effect is None,
        status != 1 && status != 3 && status != 5 ==> effect is None,
        status == 2 || status == 4 ==> !final(tracker)@.armed.contains(id@),
        status == 0 ==> final(tracker)@.armed.contains(id@),
{
}

/// When a task is done, an open window stays where the completion view is wanted and closes where
/// it is not; what the user chose for the task counts before the settings.
pub proof fn law_open_window_stays_or_closes(
    tracker: &mut ProgressWindowTracker,
    id: &str,
    prefs: ProgressWindowPrefs,
    effect: Option<ProgressWindowEffect>,
)
    requires
        call_ensures(ProgressWindowTracker::observe, (tracker, id, 3i32, true, prefs), effect),
    ensures
        !old(tracker)@.overrides.contains_key(id@) ==> (effect is None <==> prefs.completion),
        old(tracker)@.overrides.contains_key(id@) ==> (effect is None <==> old(tracker)@.overrides[id@]),
        effect is Some ==> effect == Some(ProgressWindowEffect::Close),
{
}

/// What the user chose for one task is what is shown for it, and changes nothing for another;
/// forgetting the task forgets the choice and the start.
pub proof fn law_choice_is_for_its_task(
    choose_for: &mut ProgressWindowTracker,
    drop: &mut ProgressWindowTracker,
    id: &str,
    other: Seq<char>,
    value: bool,
    prefs: ProgressWindowPrefs,
    shown: bool,
    after: bool,
)
    requires
        call_ensures(
            ProgressWindowTracker::set_completion_override,
            (choose_for, id, value),
            (),
        ),
        call_ensures(ProgressWindowTracker::show_completion, (&*final(choose_for), id, prefs), shown),
        *old(drop) == *final(choose_for),
        call_ensures(ProgressWindowTracker::forget, (drop, id), ()),
        call_ensures(ProgressWindowTracker::show_completion, (&*final(drop), id, prefs), after),
        other != id@,
    ensures
        shown == value,
        after == prefs.completion,
        !final(drop)@.armed.contains(id@),
        !final(drop)@.started.contains(id@),
        final(drop)@.armed.contains(other) == old(choose_for)@.armed.contains(other),
        final(drop)@.overrides.contains_key(other) == old(choose_for)@.overrides.contains_key(other),
{
}

/// Both sorts of window are wanted unless a setting says otherwise, each by a setting of its own.
pub proof fn law_windows_are_wanted_by_default(values: &Preferences, prefs: ProgressWindowPrefs)
    requires
        call_ensures(ProgressWindowPrefs::from_preferences, (values,), prefs),
    ensures
        values.flag("desktop.progress_window"@) is None ==> prefs.progress,
        values.flag("desktop.completion_window"@) is None ==> prefs.completion,
        values.flag("desktop.progress_window"@) matches Some(on) ==> prefs.progress == on,
        values.flag("desktop.completion_window"@) matches Some(on) ==> prefs.completion == on,
{
}

/// One captured link that was begun without asking counts as begun by the user; several do not. A
/// report is observed as it is, and a task that is deleted is forgotten.
pub proof fn law_events_ask_for_their_step(
    id: String,
    status: i32,
    ids: Vec<String>,
    started: ProgressRequest,
    reported: ProgressRequest,
    deleted: ProgressRequest,
)
    requires
        call_ensures(
            progress_request,
            (&ProgressEvent::CaptureTasksStarted { task_ids: ids },),
            started,
        ),
        call_ensures(progress_request, (&ProgressEvent::TaskStatus { task_id: id, status },), reported),
        call_ensures(progress_request, (&ProgressEvent::TaskDeleted { task_id: id },), deleted),
    ensures
        ids@.len() == 1 ==> match started {
            ProgressRequest::UserStarted { task_id } => task_id@ == ids@[0]@,
            _ => false,
        },
        ids@.len() != 1 ==> started is Nothing,
        match reported {
            ProgressRequest::Observe { task_id, status: seen } => task_id@ == id@ && seen == status,
            _ => false,
        },
        match deleted {
            ProgressRequest::Forget { task_id } => task_id@ == id@,
            _ => false,
        },
{
}

/// A start whose task is not active yet is held, and let go when the task becomes active, which
/// then opens its window.
pub proof fn law_held_start_is_let_go(
    start: &mut ProgressWindows,
    run: &mut ProgressWindows,
    id: &str,
    prefs: ProgressWindowPrefs,
    held: ProgressStep,
    gone: ProgressStep,
)
    requires
        prefs.progress,
        call_ensures(ProgressWindows::user_started, (start, id, None, false, prefs), held),
        *old(run) == *final(start),
        call_ensures(ProgressWindows::observe, (run, id, 1i32, false, prefs), gone),
    ensures
        held.hold,
        held.effect is None,
        final(start).waiting@.contains(id@),
        gone.release,
        gone.effect == Some(ProgressWindowEffect::OpenProgress),
        !final(run).waiting@.contains(id@),
{
}

/// A start that was noted is known until it is used up.
pub proof fn law_noted_start_is_known(
    note: &mut ProgressWindowTracker,
    run: &mut ProgressWindowTracker,
    id: &str,
    prefs: ProgressWindowPrefs,
    noted: bool,
    effect: Option<ProgressWindowEffect>,
    left: bool,
)
    requires
        call_ensures(ProgressWindowTracker::arm, (note, id), ()),
        call_ensures(ProgressWindowTracker::is_armed, (&*final(note), id), noted),
        *old(run) == *final(note),
        call_ensures(ProgressWindowTracker::observe, (run, id, 1i32, true, prefs), effect),
        call_ensures(ProgressWindowTracker::is_armed, (&*final(run), id), left),
    ensures
        noted,
        !left,
{
}

} // verus!
