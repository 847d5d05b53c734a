//! The windows of the desktop program: what closing the main one means, where progress windows
//! open, and how captured downloads get into the form for new ones.

use vstd::hash_set::StringHashSet;
use vstd::prelude::*;

use crate::background_effects::{NOTIFY_ON_COMPLETE_DEFAULT, NOTIFY_ON_COMPLETE_PREF};
use crate::preferences::Preferences;
use crate::progress_window::{COMPLETION_WINDOW_PREF, PROGRESS_WINDOW_PREF};
use crate::text::{opt_text, texts};

verus! {

/// What closing the main window means.
#[derive(Clone, Copy, Debug, PartialEq, Eq, Structural)]
pub enum CloseDecision {
    /// The window closes; the agent stays.
    Close,
    /// The window stays until the program leaves with everything.
    QuitEverything,
    /// The same once the user agreed, since downloads will pause.
    Confirm,
}

/// What closing the main window means. Where the agent stays, or it is not known yet whether it
/// does, only the window closes: downloads are never stopped by mistake.
pub fn should_close(resident: bool, snapshot_known: bool, active_tasks: u32) -> (r: CloseDecision)
    ensures
        r == if resident || !snapshot_known {
            CloseDecision::Close
        } else if active_tasks == 0 {
            CloseDecision::QuitEverything
        } else {
            CloseDecision::Confirm
        },
{
    if resident || !snapshot_known {
        return CloseDecision::Close;
    }
    if active_tasks == 0 {
        CloseDecision::QuitEverything
    } else {
        CloseDecision::Confirm
    }
}

/// The pages of the main window.
#[derive(Clone, Copy, Debug, PartialEq, Eq, Structural)]
pub enum Route {
    Downloads,
    Rss,
    Webhooks,
}

impl Route {
    /// The page's identifier.
    pub fn id(self) -> (r: &'static str)
        ensures
            r@ == match self {
                Route::Downloads => "downloads"@,
                Route::Rss => "rss"@,
                Route::Webhooks => "webhooks"@,
            },
    {
        match self {
            Route::Downloads => "downloads",
            Route::Rss => "rss",
            Route::Webhooks => "webhooks",
        }
    }

    /// Whether the page can be hidden.
    pub fn optional(self) -> (r: bool)
        ensures
            r == (self != Route::Downloads),
    {
        !matches!(self, Route::Downloads)
    }

    pub open spec fn shown(self, preferences: &Preferences) -> bool {
        match self {
            Route::Rss => preferences.flag_or("ui.show_activity_rss"@, true),
            _ => true,
        }
    }

    /// Whether the page is offered, by the preferences.
    pub fn visible(self, preferences: &Preferences) -> (r: bool)
        ensures
            r == self.shown(preferences),
    {
        match self {
            Route::Rss => preferences.preference_bool("ui.show_activity_rss", true),
            _ => true,
        }
    }
}

/// The pages that are offered, in their order.
pub open spec fn routes_of(preferences: &Preferences) -> Seq<Route> {
    if Route::Rss.shown(preferences) {
        seq![Route::Downloads, Route::Rss, Route::Webhooks]
    } else {
        seq![Route::Downloads, Route::Webhooks]
    }
}

/// The pages that are offered, in their order.
pub fn visible_routes(preferences: &Preferences) -> (r: Vec<Route>)
    ensures
        r@ == routes_of(preferences),
{
    let mut r: Vec<Route> = Vec::new();
    r.push(Route::Downloads);
    if Route::Rss.visible(preferences) {
        r.push(Route::Rss);
    }
    r.push(Route::Webhooks);
    assert(r@ =~= routes_of(preferences));
    r
}

/// How far a progress window is moved off the middle for each that is open, in pixels.
pub const CASCADE_STEP: u32 = 28;

/// How often it is moved before it starts over.
pub const CASCADE_MAX: usize = 5;

/// How far a new progress window is moved off the middle, so that windows do not cover each
/// other.
pub fn cascade_offset(open: usize) -> (r: u32)
    ensures
        r == CASCADE_STEP * (open % (CASCADE_MAX + 1) as usize),
{
    let steps: usize = open % (CASCADE_MAX + 1);
    CASCADE_STEP * steps as u32
}

/// How a progress window opens.
#[derive(Clone, Copy, Debug, PartialEq, Eq, Structural)]
pub struct ProgressOpening {
    pub focus: bool,
    /// Whether it floats above the windows of other programs.
    pub popup: bool,
    /// Whether it comes to the front.
    pub bring_to_front: bool,
    /// Whether it asks for attention.
    pub request_attention: bool,
}

/// The systems that differ in how windows open.
#[derive(Clone, Copy, Debug, PartialEq, Eq, Structural)]
pub enum Platform {
    Macos,
    Windows,
    Unix,
}

/// How a progress window opens: one that the user asked for comes to the front; one that tells of
/// a task that is done floats or asks for attention, and takes no focus.
pub fn progress_opening(activate: bool, platform: Platform) -> (r: ProgressOpening)
    ensures
        r == (ProgressOpening {
            focus: activate,
            popup: !activate && platform != Platform::Unix,
            bring_to_front: activate,
            request_attention: !activate && platform == Platform::Unix,
        }),
{
    ProgressOpening {
        focus: activate,
        popup: !activate && platform != Platform::Unix,
        bring_to_front: activate,
        request_attention: !activate && platform == Platform::Unix,
    }
}

/// The captured downloads that were put into the form already.
pub struct CaptureDispatch {
    pub handed: StringHashSet,
}

/// Those among the first `n` waiting downloads that are put into the form now: neither handed
/// before, nor twice in the list.
pub open spec fn fresh_captures(pending: Seq<Seq<char>>, handed: Set<Seq<char>>, n: int) -> Seq<
    Seq<char>,
>
    decreases n,
{
    if n <= 0 {
        Seq::empty()
    } else {
        let before = fresh_captures(pending, handed, n - 1);
        let id = pending[n - 1];
        if handed.contains(id) || pending.take(n - 1).contains(id) {
            before
        } else {
            before.push(id)
        }
    }
}

/// What becomes of the form for new downloads.
#[derive(Debug, PartialEq, Eq)]
pub enum FormStep {
    /// Nothing is new and no form is open.
    Nothing,
    /// The open form drops what is gone, takes these, and comes to the front where there are any.
    Update { fresh: Vec<String> },
    /// A form opens with these.
    Open { fresh: Vec<String> },
}

impl CaptureDispatch {
    pub fn new() -> (r: CaptureDispatch)
        ensures
            r.handed@ == Set::<Seq<char>>::empty(),
    {
        CaptureDispatch { handed: StringHashSet::new() }
    }

    /// Takes note of the downloads that wait, and says what becomes of the form. What waits is
    /// put into the form once; what no longer waits is forgotten.
    pub fn sync(&mut self, pending: &Vec<String>, form_open: bool) -> (r: FormStep)
        ensures
            final(self).handed@ == texts(pending@).to_set(),
            ({
                let fresh = fresh_captures(
                    texts(pending@),
                    old(self).handed@,
                    pending@.len() as int,
                );
                match r {
                    FormStep::Nothing => !form_open && fresh.len() == 0,
                    FormStep::Update { fresh: list } => form_open && texts(list@) == fresh,
                    FormStep::Open { fresh: list } => !form_open && fresh.len() > 0 && texts(list@)
                        == fresh,
                }
            }),
    {
        let ghost ids = texts(pending@);
        let mut handed: StringHashSet = StringHashSet::new();
        let mut fresh: Vec<String> = Vec::new();
        let mut i: usize = 0;
        assert(handed@ =~= ids.take(0).to_set());
        assert(texts(fresh@) =~= Seq::<Seq<char>>::empty());
        while i < pending.len()
            invariant
                i <= pending@.len(),
                ids == texts(pending@),
                self.handed@ == old(self).handed@,
                handed@ == ids.take(i as int).to_set(),
                texts(fresh@) == fresh_captures(ids, old(self).handed@, i as int),
            decreases pending@.len() - i,
        {
            let id = &pending[i];
            let ghost was = texts(fresh@);
            assert(ids[i as int] == id@);
            let known: bool = self.handed.contains(id.as_str()) || handed.contains(id.as_str());
            if !known {
                fresh.push(id.clone());
                assert(texts(fresh@) =~= was.push(id@));
            }
            handed.insert(id.clone());
            proof {
                lemma_take_insert(ids, i as int);
            }
            i += 1;
        }
        assert(ids.take(i as int) =~= ids);
        self.handed = handed;
        assert(texts(fresh@).len() == fresh@.len());
        if form_open {
            FormStep::Update { fresh }
        } else if fresh.len() == 0 {
            FormStep::Nothing
        } else {
            FormStep::Open { fresh }
        }
    }
}

proof fn lemma_take_insert(s: Seq<Seq<char>>, i: int)
    requires
        0 <= i < s.len(),
    ensures
        s.take(i + 1).to_set() == s.take(i).to_set().insert(s[i]),
{
    let a = s.take(i);
    let b = s.take(i + 1);
    assert forall|x: Seq<char>| #[trigger] b.to_set().contains(x) == a.to_set().insert(
        s[i],
    ).contains(x) by {
        if a.contains(x) {
            let k = choose|k: int| 0 <= k < a.len() && a[k] == x;
            assert(b[k] == x);
        }
        if b.contains(x) {
            let k = choose|k: int| 0 <= k < b.len() && b[k] == x;
            if k < i {
                assert(a[k] == x);
            }
        }
        assert(b[i] == s[i]);
    }
    assert(b.to_set() =~= a.to_set().insert(s[i]));
}

proof fn lemma_no_fresh(pending: Seq<Seq<char>>, handed: Set<Seq<char>>, n: int)
    requires
        0 <= n <= pending.len(),
        forall|i: int| 0 <= i < pending.len() ==> handed.contains(#[trigger] pending[i]),
    ensures
        fresh_captures(pending, handed, n) == Seq::<Seq<char>>::empty(),
    decreases n,
{
    if n > 0 {
        lemma_no_fresh(pending, handed, n - 1);
        assert(handed.contains(pending[n - 1]));
    }
}

/// A waiting download is put into the form once: as long as it waits it is not put there again,
/// though the form was closed meanwhile.
pub proof fn law_captures_are_handed_once(pending: Seq<Seq<char>>)
    ensures
        fresh_captures(pending, pending.to_set(), pending.len() as int)
            == Seq::<Seq<char>>::empty(),
{
    assert forall|i: int| 0 <= i < pending.len() implies pending.to_set().contains(
        #[trigger] pending[i],
    ) by {}
    lemma_no_fresh(pending, pending.to_set(), pending.len() as int);
}

/// The task that counts as begun by the user after a form was sent: the only one that was made,
/// where it starts at once.
pub fn started_by_form(created: &Vec<String>, starts_immediately: bool) -> (r: Option<String>)
    ensures
        opt_text(r) == if created@.len() == 1 && starts_immediately {
            Some(created@[0]@)
        } else {
            None
        },
{
    if created.len() == 1 && starts_immediately {
        Some(created[0].clone())
    } else {
        None
    }
}

/// What came of the form for new downloads.
#[derive(Debug, PartialEq, Eq)]
pub struct SubmitOutcome {
    /// Whether every command was carried out.
    pub ok: bool,
    /// The task that counts as begun by the user.
    pub started: Option<String>,
    /// The name of the text that the main window shows.
    pub notice_key: &'static str,
}

/// The tasks that the first `n` answers name as made; a command that failed names none.
pub open spec fn created_ids(answers: Seq<Result<Vec<String>, ()>>, n: int) -> Seq<Seq<char>>
    decreases n,
{
    if n <= 0 {
        Seq::empty()
    } else {
        match answers[n - 1] {
            Ok(ids) => created_ids(answers, n - 1) + texts(ids@),
            Err(_) => created_ids(answers, n - 1),
        }
    }
}

/// Sums up the answers to the commands of the form: it went well where all did, and exactly one
/// task that starts at once counts as begun by the user.
pub fn submit(answers: &Vec<Result<Vec<String>, ()>>, starts_immediately: bool) -> (r: SubmitOutcome)
    ensures
        r.ok == (forall|i: int| 0 <= i < answers@.len() ==> (#[trigger] answers@[i]) is Ok),
        opt_text(r.started) == ({
            let created = created_ids(answers@, answers@.len() as int);
            if created.len() == 1 && starts_immediately {
                Some(created[0])
            } else {
                None
            }
        }),
        r.notice_key@ == if r.ok {
            "taskCreatedToast"@
        } else {
            "localServiceActionFailed"@
        },
{
    let mut ok: bool = true;
    let mut created: Vec<String> = Vec::new();
    let mut i: usize = 0;
    assert(texts(created@) =~= Seq::<Seq<char>>::empty());
    while i < answers.len()
        invariant
            i <= answers@.len(),
            ok == (forall|k: int| 0 <= k < i ==> (#[trigger] answers@[k]) is Ok),
            texts(created@) == created_ids(answers@, i as int),
        decreases answers@.len() - i,
    {
        match &answers[i] {
            Ok(ids) => {
                let ghost before = texts(created@);
                let mut j: usize = 0;
                assert(before + texts(ids@).take(0) =~= before);
                while j < ids.len()
                    invariant
                        j <= ids@.len(),
                        texts(created@) == before + texts(ids@).take(j as int),
                    decreases ids@.len() - j,
                {
                    let ghost was = texts(created@);
                    created.push(ids[j].clone());
                    assert(texts(created@) =~= was.push(ids@[j as int]@));
                    assert(was.push(ids@[j as int]@) =~= before + texts(ids@).take(j + 1));
                    j += 1;
                }
                assert(texts(ids@).take(j as int) =~= texts(ids@));
                assert(answers@[i as int] == Ok::<Vec<String>, ()>(*ids));
            },
            Err(_) => {
                assert(answers@[i as int] is Err);
                ok = false;
            },
        }
        i += 1;
    }
    assert(texts(created@).len() == created@.len());
    let notice_key = if ok {
        "taskCreatedToast"
    } else {
        "localServiceActionFailed"
    };
    SubmitOutcome { ok, started: started_by_form(&created, starts_immediately), notice_key }
}

/// What a window hears of that waits for another program to take the front.
#[derive(Clone, Copy, Debug, PartialEq, Eq, Structural)]
pub enum HandoffEvent {
    /// The file or folder was handed over just now.
    Begun,
    /// The window came to the front or left it.
    ActivationChanged,
    /// The other program took too long.
    TimedOut,
}

/// Whether a window that handed a file over closes now: once it is no longer in front, so that
/// the next window of this program does not cover the other one; and at the latest when the time
/// is over.
pub fn close_after_handoff(event: HandoffEvent, window_active: bool) -> (r: bool)
    ensures
        r == (event == HandoffEvent::TimedOut || !window_active),
{
    matches!(event, HandoffEvent::TimedOut) || !window_active
}

/// A switch of the settings' page on notifications.
#[derive(Clone, Copy, Debug)]
pub struct PrefSwitch {
    pub label_key: &'static str,
    pub desc_key: &'static str,
    pub pref: &'static str,
    pub default: bool,
}

/// The switches of the settings' page on notifications.
pub fn notify_switches() -> (r: [PrefSwitch; 3])
    ensures
        r@[0].label_key@ == "notifyOnComplete"@,
        r@[0].desc_key@ == "notifyOnCompleteDesc"@,
        r@[0].pref@ == NOTIFY_ON_COMPLETE_PREF@,
        r@[0].default == NOTIFY_ON_COMPLETE_DEFAULT,
        r@[1].label_key@ == "showProgressWindow"@,
        r@[1].desc_key@ == "showProgressWindowDesc"@,
        r@[1].pref@ == PROGRESS_WINDOW_PREF@,
        r@[1].default,
        r@[2].label_key@ == "showCompletionWindow"@,
        r@[2].desc_key@ == "showCompletionWindowDesc"@,
        r@[2].pref@ == COMPLETION_WINDOW_PREF@,
        r@[2].default,
{
    [
        PrefSwitch {
            label_key: "notifyOnComplete",
            desc_key: "notifyOnCompleteDesc",
            pref: NOTIFY_ON_COMPLETE_PREF,
            default: true,
        },
        PrefSwitch {
            label_key: "showProgressWindow",
            desc_key: "showProgressWindowDesc",
            pref: PROGRESS_WINDOW_PREF,
            default: true,
        },
        PrefSwitch {
            label_key: "showCompletionWindow",
            desc_key: "showCompletionWindowDesc",
            pref: COMPLETION_WINDOW_PREF,
            default: true,
        },
    ]
}

/// Closing the main window never stops downloads unasked: it only closes where the agent stays or is
/// not heard of yet, asks where tasks are active, and leaves where none is.
pub proof fn law_closing_never_stops_downloads_unasked(
    resident: bool,
    known: bool,
    active: u32,
    decision: CloseDecision,
)
    requires
        call_ensures(should_close, (resident, known, active), decision),
    ensures
        resident ==> decision == CloseDecision::Close,
        !known ==> decision == CloseDecision::Close,
        decision == CloseDecision::QuitEverything ==> active == 0,
        !resident && known && active > 0 ==> decision == CloseDecision::Confirm,
        !resident && known && active == 0 ==> decision == CloseDecision::QuitEverything,
{
}

/// The page of downloads is always there and first; the page of feeds can be switched off.
pub proof fn law_downloads_are_always_there(preferences: &Preferences, routes: Vec<Route>)
    requires
        call_ensures(visible_routes, (preferences,), routes),
    ensures
        routes@.len() >= 2,
        routes@[0] == Route::Downloads,
        routes@.last() == Route::Webhooks,
        routes@.contains(Route::Rss) <==> preferences.flag("ui.show_activity_rss"@) != Some(false),
{
    if preferences.flag("ui.show_activity_rss"@) != Some(false) {
        assert(routes@[1] == Route::Rss);
    }
}

/// Windows that open one after the other stand each a step further, and begin anew after six.
pub proof fn law_windows_are_cascaded(
    open: usize,
    first: u32,
    here: u32,
    next: u32,
    round: u32,
)
    requires
        open < usize::MAX - 6,
        call_ensures(cascade_offset, (0usize,), first),
        call_ensures(cascade_offset, (open,), here),
        call_ensures(cascade_offset, ((open + 1) as usize,), next),
        call_ensures(cascade_offset, ((open + 6) as usize,), round),
    ensures
        first == 0,
        round == here,
        next == here + 28 || next == 0,
        here < 28 * 6,
        here % 28 == 0,
{
}

/// A window that the user asked for takes the focus; one that opens by itself takes none, and floats
/// or asks for attention as the system has it.
pub proof fn law_window_takes_focus_when_asked_for(
    platform: Platform,
    asked: ProgressOpening,
    unasked: ProgressOpening,
)
    requires
        call_ensures(progress_opening, (true, platform), asked),
        call_ensures(progress_opening, (false, platform), unasked),
    ensures
        asked.focus && asked.bring_to_front && !asked.popup && !asked.request_attention,
        !unasked.focus && !unasked.bring_to_front,
        unasked.popup != unasked.request_attention,
        unasked.request_attention <==> platform == Platform::Unix,
{
}

proof fn lemma_fresh(pending: Seq<Seq<char>>, handed: Set<Seq<char>>, n: int, id: Seq<char>)
    requires
        0 <= n <= pending.len(),
    ensures
        fresh_captures(pending, handed, n).contains(id) <==> pending.take(n).contains(id)
            && !handed.contains(id),
    decreases n,
{
    if n > 0 {
        lemma_fresh(pending, handed, n - 1, id);
        let before = fresh_captures(pending, handed, n - 1);
        let after = fresh_captures(pending, handed, n);
        let was = pending.take(n - 1);
        let now = pending.take(n);
        assert(now =~= was.push(pending[n - 1]));
        assert(now[n - 1] == pending[n - 1]);
        if was.contains(id) {
            let i = choose|i: int| 0 <= i < was.len() && was[i] == id;
            assert(now[i] == id);
        }
        if now.contains(id) && id != pending[n - 1] {
            let i = choose|i: int| 0 <= i < now.len() && now[i] == id;
            assert(was[i] == id);
        }
        if before.contains(id) {
            let i = choose|i: int| 0 <= i < before.len() && before[i] == id;
            assert(after[i] == id);
        }
        if !(handed.contains(pending[n - 1]) || was.contains(pending[n - 1])) {
            assert(after[before.len() as int] == pending[n - 1]);
        }
        if after.contains(id) && !before.contains(id) {
            let i = choose|i: int| 0 <= i < after.len() && after[i] == id;
            assert(i == before.len());
        }
    } else {
        assert(pending.take(0) =~= Seq::empty());
    }
}

/// A form opens for downloads that wait and were not put into one yet; an open form takes exactly
/// those; nothing happens where there are none and no form is open.
pub proof fn law_waiting_downloads_reach_a_form(
    dispatch: &mut CaptureDispatch,
    pending: &Vec<String>,
    form_open: bool,
    step: FormStep,
    id: Seq<char>,
)
    requires
        call_ensures(CaptureDispatch::sync, (dispatch, pending, form_open), step),
    ensures
        step is Update <==> form_open,
        match step {
            FormStep::Open { fresh } => fresh@.len() > 0 && (texts(fresh@).contains(id) <==> texts(
                pending@,
            ).contains(id) && !old(dispatch).handed@.contains(id)),
            FormStep::Update { fresh } => texts(fresh@).contains(id) <==> texts(pending@).contains(id)
                && !old(dispatch).handed@.contains(id),
            FormStep::Nothing => texts(pending@).contains(id) ==> old(dispatch).handed@.contains(id),
        },
        final(dispatch).handed@.contains(id) <==> texts(pending@).contains(id),
{
    let list = texts(pending@);
    lemma_fresh(list, old(dispatch).handed@, list.len() as int, id);
    assert(list.take(list.len() as int) =~= list);
    match step {
        FormStep::Open { fresh } => {
            assert(texts(fresh@).len() == fresh@.len());
        },
        FormStep::Nothing => {
            let fresh = fresh_captures(list, old(dispatch).handed@, list.len() as int);
            if fresh.contains(id) {
                let i = choose|i: int| 0 <= i < fresh.len() && fresh[i] == id;
            }
        },
        _ => {},
    }
}

/// A form that made one task which starts at once reports it as begun by the user; several tasks, and
/// one that waits, are not. A command that failed is said.
pub proof fn law_form_reports_a_single_start(
    answers: &Vec<Result<Vec<String>, ()>>,
    ids: Vec<String>,
    id: String,
    starts: bool,
    outcome: SubmitOutcome,
)
    requires
        answers@ == seq![Ok::<Vec<String>, ()>(ids)],
        ids@ == seq![id],
        call_ensures(submit, (answers, starts), outcome),
    ensures
        outcome.ok,
        outcome.notice_key@ == "taskCreatedToast"@,
        starts ==> opt_text(outcome.started) == Some(id@),
        !starts ==> outcome.started is None,
{
    reveal_with_fuel(created_ids, 2);
    assert(texts(ids@) =~= seq![id@]);
    assert(Seq::<Seq<char>>::empty() + texts(ids@) =~= seq![id@]);
}

/// One failed command makes the whole form fail, and says so.
pub proof fn law_one_failure_is_a_failure(
    answers: &Vec<Result<Vec<String>, ()>>,
    i: int,
    starts: bool,
    outcome: SubmitOutcome,
)
    requires
        0 <= i < answers@.len(),
        answers@[i] is Err,
        call_ensures(submit, (answers, starts), outcome),
    ensures
        !outcome.ok,
        outcome.notice_key@ == "localServiceActionFailed"@,
{
}

/// A window that handed its file over closes once it is no longer in front, or when the time is
/// over; not while it is in front.
pub proof fn law_window_closes_behind_the_other(active: bool, event: HandoffEvent, closes: bool)
    requires
        call_ensures(close_after_handoff, (event, active), closes),
    ensures
        !active ==> closes,
        event == HandoffEvent::TimedOut ==> closes,
        active && event != HandoffEvent::TimedOut ==> !closes,
{
}

/// The switches on the page of notifications turn the settings that they name: notices on completion,
/// progress windows, completion windows, all on at first.
pub proof fn law_switches_turn_their_settings(switches: [PrefSwitch; 3])
    requires
        call_ensures(notify_switches, (), switches),
    ensures
        switches@[0].pref@ == "download.notify_on_complete"@ && switches@[0].default,
        switches@[1].pref@ == "desktop.progress_window"@ && switches@[1].default,
        switches@[2].pref@ == "desktop.completion_window"@ && switches@[2].default,
        switches@[0].label_key@ == "notifyOnComplete"@,
        switches@[1].label_key@ == "showProgressWindow"@,
        switches@[2].label_key@ == "showCompletionWindow"@,
{
}

/// One task that a form made and that starts at once counts as begun by the user; none else does.
pub proof fn law_single_made_task_is_begun(created: &Vec<String>, starts: bool, begun: Option<String>)
    requires
        call_ensures(started_by_form, (created, starts), begun),
    ensures
        created@.len() == 1 && starts ==> opt_text(begun) == Some(created@[0]@),
        created@.len() != 1 || !starts ==> begun is None,
{
}

/// The pages have names of their own, and only that of downloads cannot be switched off.
pub proof fn law_pages_have_their_names(route: Route, id: &str, optional: bool)
    requires
        call_ensures(Route::id, (route,), id),
        call_ensures(Route::optional, (route,), optional),
    ensures
        route == Route::Downloads ==> id@ == "downloads"@,
        route == Route::Rss ==> id@ == "rss"@,
        route == Route::Webhooks ==> id@ == "webhooks"@,
        !optional <==> route == Route::Downloads,
{
}

} // verus!
