//! What can be done with tasks: the entries of the context menu, the buttons of a row, and the
//! commands that they and the toolbar give.

use vstd::prelude::*;

use crate::tasks::{key_views, DownloadTaskView, RowKey, TaskState};
use crate::text::{has_prefix, starts_with, texts};

verus! {

/// What the context menu needs to know of a task.
#[derive(Clone, Copy, Debug, PartialEq, Eq, Structural)]
pub struct TaskMenuFacts {
    pub is_local: bool,
    pub state: TaskState,
    pub boosted: bool,
    /// Whether the link stands for a torrent file, which cannot be downloaded again.
    pub is_torrent_sentinel: bool,
    /// Whether the task failed with the message of a plugin that can be passed over.
    pub is_plugin_retry_error: bool,
}

/// What the message of a task that failed in a plugin starts with.
pub const PLUGIN_ERROR_PREFIX: &'static str = "[插件]";

/// What the link of a task that was made from a torrent file starts with.
pub const TORRENT_SENTINEL: &'static str = "torrent-file://";

/// The entries of the context menu.
#[derive(Clone, Copy, Debug, PartialEq, Eq, Structural)]
pub enum MenuEntry {
    Resume,
    Pause,
    IgnorePluginRetry,
    Boost,
    CancelBoost,
    OpenFile,
    OpenFolder,
    Rename,
    Redownload,
    CopyUrl,
    MoveToQueue,
    Separator,
    Delete,
    DeleteWithFiles,
    OpenInWindow,
}

pub open spec fn facts_of(task: DownloadTaskView) -> TaskMenuFacts {
    TaskMenuFacts {
        is_local: task.key@.0,
        state: task.state,
        boosted: task.boosted,
        is_torrent_sentinel: has_prefix(task.url@, TORRENT_SENTINEL@),
        is_plugin_retry_error: task.state == TaskState::Failed && has_prefix(
            task.error_message@,
            PLUGIN_ERROR_PREFIX@,
        ),
    }
}

/// What the context menu needs to know of the given task.
pub fn menu_facts(task: &DownloadTaskView) -> (r: TaskMenuFacts)
    ensures
        r == facts_of(*task),
{
    TaskMenuFacts {
        is_local: task.key.is_local(),
        state: task.state,
        boosted: task.boosted,
        is_torrent_sentinel: starts_with(task.url.as_str(), TORRENT_SENTINEL),
        is_plugin_retry_error: task.state == TaskState::Failed && starts_with(
            task.error_message.as_str(),
            PLUGIN_ERROR_PREFIX,
        ),
    }
}

/// A task that can be resumed: it is neither done nor under way.
pub open spec fn resumable(t: TaskMenuFacts) -> bool {
    t.state != TaskState::Completed && t.state != TaskState::Downloading
}

/// A task that can be paused: it is under way or waits for its turn.
pub open spec fn pausable(t: TaskMenuFacts) -> bool {
    t.state == TaskState::Downloading || t.state == TaskState::Pending
}

/// A task whose file can be opened.
pub open spec fn openable(t: TaskMenuFacts) -> bool {
    t.is_local && t.state == TaskState::Completed
}

/// A task that can be downloaded again.
pub open spec fn redownloadable(t: TaskMenuFacts) -> bool {
    t.is_local && (t.state == TaskState::Completed || t.state == TaskState::Failed)
        && !t.is_torrent_sentinel
}

/// Whether an entry belongs in the menu of a selection. An entry asks that every selected task
/// takes it; to resume, to pause and to open in a window, one such task is enough. To rename, to
/// boost and to pass over a plugin, exactly one task must be selected.
pub open spec fn applies(sel: Seq<TaskMenuFacts>, entry: MenuEntry) -> bool {
    let single = sel.len() == 1;
    sel.len() > 0 && match entry {
        MenuEntry::Resume => exists|i: int| 0 <= i < sel.len() && resumable(#[trigger] sel[i]),
        MenuEntry::Pause => exists|i: int| 0 <= i < sel.len() && pausable(#[trigger] sel[i]),
        MenuEntry::IgnorePluginRetry => single && sel[0].state == TaskState::Failed
            && sel[0].is_plugin_retry_error,
        MenuEntry::Boost => single && sel[0].is_local && !sel[0].boosted,
        MenuEntry::CancelBoost => single && sel[0].is_local && sel[0].boosted,
        MenuEntry::OpenFile => forall|i: int| 0 <= i < sel.len() ==> openable(#[trigger] sel[i]),
        MenuEntry::OpenFolder => forall|i: int|
            0 <= i < sel.len() ==> (#[trigger] sel[i]).is_local,
        MenuEntry::Rename => single && sel[0].is_local,
        MenuEntry::Redownload => forall|i: int|
            0 <= i < sel.len() ==> redownloadable(#[trigger] sel[i]),
        MenuEntry::MoveToQueue => forall|i: int|
            0 <= i < sel.len() ==> (#[trigger] sel[i]).is_local,
        MenuEntry::OpenInWindow => exists|i: int|
            0 <= i < sel.len() && (#[trigger] sel[i]).is_local,
        MenuEntry::CopyUrl
        | MenuEntry::Separator
        | MenuEntry::Delete
        | MenuEntry::DeleteWithFiles => true,
    }
}

/// All entries, in the order in which the menu shows them.
pub open spec fn entry_order() -> Seq<MenuEntry> {
    seq![
        MenuEntry::Resume,
        MenuEntry::Pause,
        MenuEntry::IgnorePluginRetry,
        MenuEntry::CancelBoost,
        MenuEntry::Boost,
        MenuEntry::OpenFile,
        MenuEntry::OpenFolder,
        MenuEntry::Rename,
        MenuEntry::Redownload,
        MenuEntry::CopyUrl,
        MenuEntry::MoveToQueue,
        MenuEntry::Separator,
        MenuEntry::Delete,
        MenuEntry::DeleteWithFiles,
        MenuEntry::OpenInWindow,
    ]
}

/// The menu of a selection: the entries that belong in it, in their order.
pub open spec fn menu_of(sel: Seq<TaskMenuFacts>) -> Seq<MenuEntry> {
    menu_up_to(sel, entry_order().len() as int)
}

pub open spec fn menu_up_to(sel: Seq<TaskMenuFacts>, n: int) -> Seq<MenuEntry>
    decreases n,
{
    if n <= 0 {
        Seq::empty()
    } else if applies(sel, entry_order()[n - 1]) {
        menu_up_to(sel, n - 1).push(entry_order()[n - 1])
    } else {
        menu_up_to(sel, n - 1)
    }
}

/// The entries that the context menu shows for the selected tasks.
pub fn context_menu_items(selection: &[TaskMenuFacts]) -> (r: Vec<MenuEntry>)
    ensures
        r@ == menu_of(selection@),
{
    let ghost sel = selection@;
    let mut items: Vec<MenuEntry> = Vec::new();
    let n: usize = selection.len();
    let mut any_resumable: bool = false;
    let mut any_pausable: bool = false;
    let mut any_local: bool = false;
    let mut all_openable: bool = true;
    let mut all_local: bool = true;
    let mut all_redownloadable: bool = true;
    let mut i: usize = 0;
    while i < n
        invariant
            sel == selection@,
            n == sel.len(),
            i <= n,
            any_resumable == (exists|k: int| 0 <= k < i && resumable(#[trigger] sel[k])),
            any_pausable == (exists|k: int| 0 <= k < i && pausable(#[trigger] sel[k])),
            any_local == (exists|k: int| 0 <= k < i && (#[trigger] sel[k]).is_local),
            all_openable == (forall|k: int| 0 <= k < i ==> openable(#[trigger] sel[k])),
            all_local == (forall|k: int| 0 <= k < i ==> (#[trigger] sel[k]).is_local),
            all_redownloadable == (forall|k: int|
                0 <= k < i ==> redownloadable(#[trigger] sel[k])),
        decreases n - i,
    {
        let task = selection[i];
        let done: bool = task.state == TaskState::Completed;
        let under_way: bool = task.state == TaskState::Downloading;
        let failed: bool = task.state == TaskState::Failed;
        if !done && !under_way {
            assert(resumable(sel[i as int]));
            any_resumable = true;
        }
        if under_way || task.state == TaskState::Pending {
            assert(pausable(sel[i as int]));
            any_pausable = true;
        }
        if task.is_local {
            assert(sel[i as int].is_local);
            any_local = true;
        } else {
            assert(!sel[i as int].is_local);
            all_local = false;
        }
        if !(task.is_local && done) {
            assert(!openable(sel[i as int]));
            all_openable = false;
        }
        if !(task.is_local && (done || failed) && !task.is_torrent_sentinel) {
            assert(!redownloadable(sel[i as int]));
            all_redownloadable = false;
        }
        i += 1;
    }
    proof {
        reveal_with_fuel(menu_up_to, 16);
    }
    if n == 0 {
        assert(items@ =~= menu_of(sel));
        return items;
    }
    if any_resumable {
        items.push(MenuEntry::Resume);
    }
    if any_pausable {
        items.push(MenuEntry::Pause);
    }
    assert(items@ =~= menu_up_to(sel, 2));
    if n == 1 {
        let only = selection[0];
        if only.state == TaskState::Failed && only.is_plugin_retry_error {
            items.push(MenuEntry::IgnorePluginRetry);
        }
        if only.is_local {
            if only.boosted {
                items.push(MenuEntry::CancelBoost);
            } else {
                items.push(MenuEntry::Boost);
            }
        }
    }
    assert(items@ =~= menu_up_to(sel, 5));
    if all_openable {
        items.push(MenuEntry::OpenFile);
    }
    if all_local {
        items.push(MenuEntry::OpenFolder);
    }
    if n == 1 && selection[0].is_local {
        items.push(MenuEntry::Rename);
    }
    assert(items@ =~= menu_up_to(sel, 8));
    if all_redownloadable {
        items.push(MenuEntry::Redownload);
    }
    items.push(MenuEntry::CopyUrl);
    if all_local {
        items.push(MenuEntry::MoveToQueue);
    }
    assert(items@ =~= menu_up_to(sel, 11));
    items.push(MenuEntry::Separator);
    items.push(MenuEntry::Delete);
    items.push(MenuEntry::DeleteWithFiles);
    if any_local {
        items.push(MenuEntry::OpenInWindow);
    }
    assert(items@ =~= menu_of(sel));
    items
}

proof fn lemma_menu_holds(sel: Seq<TaskMenuFacts>, n: int, entry: MenuEntry)
    requires
        0 <= n <= entry_order().len(),
    ensures
        menu_up_to(sel, n).contains(entry) <==> applies(sel, entry) && exists|i: int|
            0 <= i < n && entry_order()[i] == entry,
    decreases n,
{
    if n > 0 {
        lemma_menu_holds(sel, n - 1, entry);
        let before = menu_up_to(sel, n - 1);
        let after = menu_up_to(sel, n);
        if before.contains(entry) {
            let i = choose|i: int| 0 <= i < before.len() && before[i] == entry;
            assert(after[i] == entry);
        }
        if after.contains(entry) && !before.contains(entry) {
            let i = choose|i: int| 0 <= i < after.len() && after[i] == entry;
            assert(i == before.len() || before[i] == entry);
            assert(entry_order()[n - 1] == entry);
        }
        if entry_order()[n - 1] == entry && applies(sel, entry) {
            assert(after[before.len() as int] == entry);
        }
    }
}

/// The menu shows an entry exactly where it belongs there.
pub proof fn law_menu_shows_what_applies(sel: Seq<TaskMenuFacts>, entry: MenuEntry)
    ensures
        menu_of(sel).contains(entry) <==> applies(sel, entry),
{
    lemma_menu_holds(sel, entry_order().len() as int, entry);
    let place: int = match entry {
        MenuEntry::Resume => 0,
        MenuEntry::Pause => 1,
        MenuEntry::IgnorePluginRetry => 2,
        MenuEntry::CancelBoost => 3,
        MenuEntry::Boost => 4,
        MenuEntry::OpenFile => 5,
        MenuEntry::OpenFolder => 6,
        MenuEntry::Rename => 7,
        MenuEntry::Redownload => 8,
        MenuEntry::CopyUrl => 9,
        MenuEntry::MoveToQueue => 10,
        MenuEntry::Separator => 11,
        MenuEntry::Delete => 12,
        MenuEntry::DeleteWithFiles => 13,
        MenuEntry::OpenInWindow => 14,
    };
    assert(entry_order()[place] == entry);
}

/// An entry that every selected task must take stays away from a larger selection once a part of
/// it cannot take the entry: opening, moving and downloading again shrink as a selection grows.
pub proof fn law_menu_intersects(a: Seq<TaskMenuFacts>, b: Seq<TaskMenuFacts>, entry: MenuEntry)
    requires
        a.len() > 0,
        entry == MenuEntry::OpenFile || entry == MenuEntry::OpenFolder || entry
            == MenuEntry::Redownload || entry == MenuEntry::MoveToQueue,
        menu_of(a + b).contains(entry),
    ensures
        menu_of(a).contains(entry),
{
    law_menu_shows_what_applies(a + b, entry);
    law_menu_shows_what_applies(a, entry);
    assert forall|i: int| 0 <= i < a.len() implies #[trigger] a[i] == (a + b)[i] by {}
}

/// What the toolbar can be asked to do.
#[derive(Clone, Copy, Debug, PartialEq, Eq, Structural)]
pub enum ToolbarCommand {
    Resume,
    Pause,
    PauseAll,
    ResumeAll,
    Delete,
    Open,
    Reveal,
}

/// The buttons that a row shows under the pointer.
#[derive(Clone, Copy, Debug, PartialEq, Eq, Structural)]
pub enum RowAction {
    Pause,
    Resume,
    /// Resumes a failed task.
    Retry,
    Open,
    Reveal,
}

impl RowAction {
    pub open spec fn command_of(self) -> ToolbarCommand {
        match self {
            RowAction::Pause => ToolbarCommand::Pause,
            RowAction::Resume => ToolbarCommand::Resume,
            RowAction::Retry => ToolbarCommand::Resume,
            RowAction::Open => ToolbarCommand::Open,
            RowAction::Reveal => ToolbarCommand::Reveal,
        }
    }

    /// The command that the button gives.
    pub fn command(self) -> (r: ToolbarCommand)
        ensures
            r == self.command_of(),
    {
        match self {
            RowAction::Pause => ToolbarCommand::Pause,
            RowAction::Resume | RowAction::Retry => ToolbarCommand::Resume,
            RowAction::Open => ToolbarCommand::Open,
            RowAction::Reveal => ToolbarCommand::Reveal,
        }
    }

    pub open spec fn id_of(self) -> Seq<char> {
        match self {
            RowAction::Pause => "download-row-action-pause"@,
            RowAction::Resume => "download-row-action-resume"@,
            RowAction::Retry => "download-row-action-retry"@,
            RowAction::Open => "download-row-action-open"@,
            RowAction::Reveal => "download-row-action-reveal"@,
        }
    }

    /// The identifier of the button's element.
    pub fn id(self) -> (r: &'static str)
        ensures
            r@ == self.id_of(),
    {
        match self {
            RowAction::Pause => "download-row-action-pause",
            RowAction::Resume => "download-row-action-resume",
            RowAction::Retry => "download-row-action-retry",
            RowAction::Open => "download-row-action-open",
            RowAction::Reveal => "download-row-action-reveal",
        }
    }
}

/// The buttons of a row: to pause what is under way, to resume what is paused, to retry what
/// failed, to open what is done and local; and for every local task to show it in its folder.
pub open spec fn actions_of(state: TaskState, is_local: bool) -> Seq<RowAction> {
    let first = match state {
        TaskState::Downloading => seq![RowAction::Pause],
        TaskState::Pending => seq![RowAction::Pause],
        TaskState::Paused => seq![RowAction::Resume],
        TaskState::Failed => seq![RowAction::Retry],
        TaskState::Completed => if is_local {
            seq![RowAction::Open]
        } else {
            Seq::empty()
        },
    };
    if is_local {
        first.push(RowAction::Reveal)
    } else {
        first
    }
}

/// The buttons of a row.
pub fn row_actions(state: TaskState, is_local: bool) -> (r: Vec<RowAction>)
    ensures
        r@ == actions_of(state, is_local),
{
    let mut r: Vec<RowAction> = Vec::new();
    match state {
        TaskState::Downloading | TaskState::Pending => r.push(RowAction::Pause),
        TaskState::Paused => r.push(RowAction::Resume),
        TaskState::Failed => r.push(RowAction::Retry),
        TaskState::Completed => if is_local {
            r.push(RowAction::Open);
        },
    }
    if is_local {
        r.push(RowAction::Reveal);
    }
    assert(r@ =~= actions_of(state, is_local));
    r
}

/// A command that is sent to the service.
#[derive(Debug, PartialEq, Eq)]
pub enum DownloadsCommand {
    Resume { task_id: String },
    Pause { task_id: String },
    Delete { task_id: String, delete_files: bool },
    OpenTask { task_id: String },
    RevealTask { task_id: String },
    /// Forwarded to the device that runs the task.
    RemoteCommand { task_id: String, action: String },
    PauseAll,
    ResumeAll,
    /// Downloads a task again, from a request of its own.
    Redownload { start_paused: bool },
}

/// What a command says.
pub enum CommandView {
    Resume(Seq<char>),
    Pause(Seq<char>),
    Delete(Seq<char>, bool),
    OpenTask(Seq<char>),
    RevealTask(Seq<char>),
    RemoteCommand(Seq<char>, Seq<char>),
    PauseAll,
    ResumeAll,
    Redownload(bool),
}

impl View for DownloadsCommand {
    type V = CommandView;

    open spec fn view(&self) -> CommandView {
        match self {
            DownloadsCommand::Resume { task_id } => CommandView::Resume(task_id@),
            DownloadsCommand::Pause { task_id } => CommandView::Pause(task_id@),
            DownloadsCommand::Delete { task_id, delete_files } => CommandView::Delete(
                task_id@,
                *delete_files,
            ),
            DownloadsCommand::OpenTask { task_id } => CommandView::OpenTask(task_id@),
            DownloadsCommand::RevealTask { task_id } => CommandView::RevealTask(task_id@),
            DownloadsCommand::RemoteCommand { task_id, action } => CommandView::RemoteCommand(
                task_id@,
                action@,
            ),
            DownloadsCommand::PauseAll => CommandView::PauseAll,
            DownloadsCommand::ResumeAll => CommandView::ResumeAll,
            DownloadsCommand::Redownload { start_paused } => CommandView::Redownload(
                *start_paused,
            ),
        }
    }
}

/// The command that does one thing to one task. A remote task can be resumed, paused and deleted
/// by its device; it has no file here to open or show. What concerns all tasks is no command of
/// one.
pub open spec fn command_for(key: (bool, Seq<char>), action: ToolbarCommand) -> Option<
    CommandView,
> {
    if key.0 {
        match action {
            ToolbarCommand::Resume => Some(CommandView::Resume(key.1)),
            ToolbarCommand::Pause => Some(CommandView::Pause(key.1)),
            ToolbarCommand::Delete => Some(CommandView::Delete(key.1, false)),
            ToolbarCommand::Open => Some(CommandView::OpenTask(key.1)),
            ToolbarCommand::Reveal => Some(CommandView::RevealTask(key.1)),
            ToolbarCommand::PauseAll => None,
            ToolbarCommand::ResumeAll => None,
        }
    } else {
        match action {
            ToolbarCommand::Resume => Some(CommandView::RemoteCommand(key.1, "resume"@)),
            ToolbarCommand::Pause => Some(CommandView::RemoteCommand(key.1, "pause"@)),
            ToolbarCommand::Delete => Some(CommandView::RemoteCommand(key.1, "delete"@)),
            _ => None,
        }
    }
}

/// The command that does `action` to one task.
pub fn task_command(key: &RowKey, action: ToolbarCommand) -> (r: Option<DownloadsCommand>)
    ensures
        (match r {
            Some(command) => Some(command@),
            None => None,
        }) == command_for(key@, action),
{
    let task_id = key.task_id().to_owned();
    if !key.is_local() {
        return match action {
            ToolbarCommand::Resume => Some(
                DownloadsCommand::RemoteCommand { task_id, action: "resume".to_owned() },
            ),
            ToolbarCommand::Pause => Some(
                DownloadsCommand::RemoteCommand { task_id, action: "pause".to_owned() },
            ),
            ToolbarCommand::Delete => Some(
                DownloadsCommand::RemoteCommand { task_id, action: "delete".to_owned() },
            ),
            ToolbarCommand::Open
            | ToolbarCommand::Reveal
            | ToolbarCommand::PauseAll
            | ToolbarCommand::ResumeAll => None,
        };
    }
    match action {
        ToolbarCommand::Resume => Some(DownloadsCommand::Resume { task_id }),
        ToolbarCommand::Pause => Some(DownloadsCommand::Pause { task_id }),
        ToolbarCommand::Delete => Some(DownloadsCommand::Delete { task_id, delete_files: false }),
        ToolbarCommand::Open => Some(DownloadsCommand::OpenTask { task_id }),
        ToolbarCommand::Reveal => Some(DownloadsCommand::RevealTask { task_id }),
        ToolbarCommand::PauseAll | ToolbarCommand::ResumeAll => None,
    }
}

pub open spec fn command_views(commands: Seq<DownloadsCommand>) -> Seq<CommandView> {
    commands.map_values(|c: DownloadsCommand| c@)
}

/// The commands that do one thing to each of the tasks, for those that can take it.
pub open spec fn commands_for_keys(
    keys: Seq<(bool, Seq<char>)>,
    action: ToolbarCommand,
) -> Seq<CommandView>
    decreases keys.len(),
{
    if keys.len() == 0 {
        Seq::empty()
    } else {
        let before = commands_for_keys(keys.drop_last(), action);
        match command_for(keys.last(), action) {
            Some(command) => before.push(command),
            None => before,
        }
    }
}

/// The commands of a toolbar button for the selected tasks.
pub open spec fn commands_for(
    keys: Seq<(bool, Seq<char>)>,
    action: ToolbarCommand,
) -> Seq<CommandView> {
    match action {
        ToolbarCommand::PauseAll => seq![CommandView::PauseAll],
        ToolbarCommand::ResumeAll => seq![CommandView::ResumeAll],
        _ => commands_for_keys(keys, action),
    }
}

/// The commands of a toolbar button for the selected tasks, in their order.
pub fn commands_for_selection(keys: &Vec<RowKey>, action: ToolbarCommand) -> (r: Vec<
    DownloadsCommand,
>)
    ensures
        command_views(r@) == commands_for(key_views(keys@), action),
{
    let mut r: Vec<DownloadsCommand> = Vec::new();
    match action {
        ToolbarCommand::PauseAll => {
            r.push(DownloadsCommand::PauseAll);
            assert(command_views(r@) =~= seq![CommandView::PauseAll]);
            return r;
        },
        ToolbarCommand::ResumeAll => {
            r.push(DownloadsCommand::ResumeAll);
            assert(command_views(r@) =~= seq![CommandView::ResumeAll]);
            return r;
        },
        _ => {},
    }
    let ghost views = key_views(keys@);
    let mut i: usize = 0;
    assert(command_views(r@) =~= commands_for_keys(views.take(0), action));
    while i < keys.len()
        invariant
            i <= keys@.len(),
            views == key_views(keys@),
            command_views(r@) == commands_for_keys(views.take(i as int), action),
        decreases keys@.len() - i,
    {
        let ghost before = command_views(r@);
        assert(views.take(i + 1).drop_last() =~= views.take(i as int));
        assert(views.take(i + 1).last() == keys@[i as int]@);
        if let Some(command) = task_command(&keys[i], action) {
            r.push(command);
            assert(command_views(r@) =~= before.push(command@));
        }
        i += 1;
    }
    assert(views.take(views.len() as int) =~= views);
    r
}

/// What the user began by hand, where a list of commands says so.
#[derive(Debug, PartialEq, Eq)]
pub enum InteractiveStart {
    /// The task that was resumed.
    Resumed(String),
    /// The tasks that the reply names as made.
    Created,
}

pub open spec fn interactive_start_of(commands: Seq<CommandView>) -> Option<Option<Seq<char>>> {
    if commands.len() != 1 {
        None
    } else {
        match commands[0] {
            CommandView::Resume(task_id) => Some(Some(task_id)),
            CommandView::Redownload(start_paused) => if start_paused {
                None
            } else {
                Some(None)
            },
            _ => None,
        }
    }
}

/// Whether the commands are one deliberate start of one task: a single resume, or a single
/// download made again that does not wait. Batches are not.
pub fn interactive_start(commands: &Vec<DownloadsCommand>) -> (r: Option<InteractiveStart>)
    ensures
        (match r {
            None => None,
            Some(InteractiveStart::Resumed(id)) => Some(Some(id@)),
            Some(InteractiveStart::Created) => Some(None),
        }) == interactive_start_of(command_views(commands@)),
{
    if commands.len() != 1 {
        return None;
    }
    assert(command_views(commands@)[0] == commands@[0]@);
    match &commands[0] {
        DownloadsCommand::Resume { task_id } => Some(InteractiveStart::Resumed(task_id.clone())),
        DownloadsCommand::Redownload { start_paused } => if *start_paused {
            None
        } else {
            Some(InteractiveStart::Created)
        },
        _ => None,
    }
}

/// What is to be done once a command was answered.
#[derive(Debug, PartialEq, Eq)]
pub struct CommandOutcome {
    /// Whether the page shows that the action failed.
    pub failed: bool,
    /// The tasks to report as started by the user.
    pub started: Vec<String>,
}

/// Follows up a command: a failure is shown; a success of a deliberate start reports the resumed
/// task, or the tasks that the reply names as made.
pub fn after_command(
    start: Option<InteractiveStart>,
    created: Result<Vec<String>, ()>,
) -> (r: CommandOutcome)
    ensures
        r.failed == (created is Err),
        texts(r.started@) == match (start, created) {
            (Some(InteractiveStart::Resumed(id)), Ok(_)) => seq![id@],
            (Some(InteractiveStart::Created), Ok(ids)) => texts(ids@),
            _ => Seq::<Seq<char>>::empty(),
        },
{
    match (start, created) {
        (Some(InteractiveStart::Resumed(id)), Ok(_)) => {
            let mut started: Vec<String> = Vec::new();
            started.push(id);
            assert(texts(started@) =~= seq![id@]);
            CommandOutcome { failed: false, started }
        },
        (Some(InteractiveStart::Created), Ok(ids)) => CommandOutcome { failed: false, started: ids },
        (None, Ok(_)) => {
            let started: Vec<String> = Vec::new();
            assert(texts(started@) =~= Seq::<Seq<char>>::empty());
            CommandOutcome { failed: false, started }
        },
        (_, Err(_)) => {
            let started: Vec<String> = Vec::new();
            assert(texts(started@) =~= Seq::<Seq<char>>::empty());
            CommandOutcome { failed: true, started }
        },
    }
}

/// On a task of this machine pausing gives a pause command for that task, resuming a resume
/// command, opening an open command, showing a reveal command and deleting a delete command that
/// leaves the files.
pub proof fn law_local_action_gives_its_command(
    id: String,
    action: ToolbarCommand,
    command: Option<DownloadsCommand>,
)
    requires
        call_ensures(task_command, (&RowKey::Local(id), action), command),
    ensures
        action == ToolbarCommand::Pause ==> match command {
            Some(DownloadsCommand::Pause { task_id }) => task_id@ == id@,
            _ => false,
        },
        action == ToolbarCommand::Resume ==> match command {
            Some(DownloadsCommand::Resume { task_id }) => task_id@ == id@,
            _ => false,
        },
        action == ToolbarCommand::Open ==> match command {
            Some(DownloadsCommand::OpenTask { task_id }) => task_id@ == id@,
            _ => false,
        },
        action == ToolbarCommand::Reveal ==> match command {
            Some(DownloadsCommand::RevealTask { task_id }) => task_id@ == id@,
            _ => false,
        },
        action == ToolbarCommand::Delete ==> match command {
            Some(DownloadsCommand::Delete { task_id, delete_files }) => task_id@ == id@
                && !delete_files,
            _ => false,
        },
        action == ToolbarCommand::PauseAll || action == ToolbarCommand::ResumeAll ==> command is None,
{
}

/// On a task of another device, pausing, resuming and deleting are forwarded under their names for
/// that task; there is nothing here to open or show.
pub proof fn law_remote_action_is_forwarded(
    id: String,
    action: ToolbarCommand,
    command: Option<DownloadsCommand>,
)
    requires
        call_ensures(task_command, (&RowKey::Remote(id), action), command),
    ensures
        action == ToolbarCommand::Pause ==> match command {
            Some(DownloadsCommand::RemoteCommand { task_id, action }) => task_id@ == id@ && action@
                == "pause"@,
            _ => false,
        },
        action == ToolbarCommand::Resume ==> match command {
            Some(DownloadsCommand::RemoteCommand { task_id, action }) => task_id@ == id@ && action@
                == "resume"@,
            _ => false,
        },
        action == ToolbarCommand::Delete ==> match command {
            Some(DownloadsCommand::RemoteCommand { task_id, action }) => task_id@ == id@ && action@
                == "delete"@,
            _ => false,
        },
        action == ToolbarCommand::Open || action == ToolbarCommand::Reveal ==> command is None,
        action == ToolbarCommand::PauseAll || action == ToolbarCommand::ResumeAll ==> command is None,
{
}

/// Two different actions never give the same command for one task, local or remote, and one action
/// never gives the same command for two tasks.
pub proof fn law_commands_tell_actions_and_tasks_apart(
    a: &RowKey,
    b: &RowKey,
    first: ToolbarCommand,
    second: ToolbarCommand,
    x: Option<DownloadsCommand>,
    y: Option<DownloadsCommand>,
)
    requires
        call_ensures(task_command, (a, first), x),
        call_ensures(task_command, (b, second), y),
        x is Some,
        y is Some,
        a@ != b@ || first != second,
    ensures
        x != y,
{
    reveal_strlit("resume");
    reveal_strlit("pause");
    reveal_strlit("delete");
    assert("resume"@.len() == 6 && "pause"@.len() == 5 && "delete"@.len() == 6);
    assert("resume"@[0] != "delete"@[0]);
}

proof fn lemma_commands_for_each(
    keys: Seq<(bool, Seq<char>)>,
    action: ToolbarCommand,
    command: CommandView,
)
    ensures
        commands_for_keys(keys, action).contains(command) <==> exists|i: int|
            0 <= i < keys.len() && command_for(#[trigger] keys[i], action) == Some(command),
        commands_for_keys(keys, action).len() <= keys.len(),
        (forall|i: int| 0 <= i < keys.len() ==> command_for(#[trigger] keys[i], action) is Some)
            ==> commands_for_keys(keys, action).len() == keys.len(),
    decreases keys.len(),
{
    if keys.len() > 0 {
        let rest = keys.drop_last();
        lemma_commands_for_each(rest, action, command);
        let before = commands_for_keys(rest, action);
        let after = commands_for_keys(keys, action);
        assert(keys[keys.len() - 1] == keys.last());
        if before.contains(command) {
            let i = choose|i: int| 0 <= i < before.len() && before[i] == command;
            assert(after[i] == command);
        }
        if command_for(keys.last(), action) == Some(command) {
            assert(after[before.len() as int] == command);
        }
        if after.contains(command) && !before.contains(command) {
            let i = choose|i: int| 0 <= i < after.len() && after[i] == command;
            assert(i == before.len());
        }
        if exists|i: int| 0 <= i < rest.len() && command_for(#[trigger] rest[i], action) == Some(command) {
            let i = choose|i: int|
                0 <= i < rest.len() && command_for(#[trigger] rest[i], action) == Some(command);
            assert(keys[i] == rest[i]);
        }
        if exists|i: int| 0 <= i < keys.len() && command_for(#[trigger] keys[i], action) == Some(command) {
            let i = choose|i: int|
                0 <= i < keys.len() && command_for(#[trigger] keys[i], action) == Some(command);
            if i < rest.len() {
                assert(rest[i] == keys[i]);
            }
        }
        if forall|i: int| 0 <= i < keys.len() ==> command_for(#[trigger] keys[i], action) is Some {
            assert forall|i: int| 0 <= i < rest.len() implies command_for(
                #[trigger] rest[i],
                action,
            ) is Some by {
                assert(rest[i] == keys[i]);
            }
        }
    }
}

/// What is done to a selection is done to each of its tasks and to no other: pausing a selection
/// of local tasks pauses exactly those, as many as there are.
pub proof fn law_selection_is_paused_one_by_one(
    keys: &Vec<RowKey>,
    commands: Vec<DownloadsCommand>,
    id: String,
)
    requires
        call_ensures(commands_for_selection, (keys, ToolbarCommand::Pause), commands),
        forall|i: int| 0 <= i < keys@.len() ==> (#[trigger] keys@[i])@.0,
    ensures
        commands@.len() == keys@.len(),
        (exists|i: int| 0 <= i < keys@.len() && (#[trigger] keys@[i])@ == (true, id@)) <==> exists|
            i: int,
        |
            0 <= i < commands@.len() && match #[trigger] commands@[i] {
                DownloadsCommand::Pause { task_id } => task_id@ == id@,
                _ => false,
            },
{
    let views = key_views(keys@);
    let sent = command_views(commands@);
    let command = CommandView::Pause(id@);
    lemma_commands_for_each(views, ToolbarCommand::Pause, command);
    assert forall|i: int| 0 <= i < views.len() implies command_for(
        #[trigger] views[i],
        ToolbarCommand::Pause,
    ) is Some by {
        assert(views[i] == keys@[i]@);
    }
    assert(sent.len() == commands@.len());
    if exists|i: int| 0 <= i < keys@.len() && (#[trigger] keys@[i])@ == (true, id@) {
        let i = choose|i: int| 0 <= i < keys@.len() && (#[trigger] keys@[i])@ == (true, id@);
        assert(views[i] == (true, id@));
        assert(sent.contains(command));
        let k = choose|k: int| 0 <= k < sent.len() && sent[k] == command;
        assert(commands@[k]@ == command);
    }
    if exists|i: int|
        0 <= i < commands@.len() && match #[trigger] commands@[i] {
            DownloadsCommand::Pause { task_id } => task_id@ == id@,
            _ => false,
        } {
        let i = choose|i: int|
            0 <= i < commands@.len() && match #[trigger] commands@[i] {
                DownloadsCommand::Pause { task_id } => task_id@ == id@,
                _ => false,
            };
        assert(sent[i] == command);
        let k = choose|k: int|
            0 <= k < views.len() && command_for(#[trigger] views[k], ToolbarCommand::Pause) == Some(
                command,
            );
        assert(keys@[k]@ == views[k]);
    }
}

/// What concerns all tasks is one command, whatever is selected.
pub proof fn law_all_tasks_take_one_command(
    keys: &Vec<RowKey>,
    paused: Vec<DownloadsCommand>,
    resumed: Vec<DownloadsCommand>,
)
    requires
        call_ensures(commands_for_selection, (keys, ToolbarCommand::PauseAll), paused),
        call_ensures(commands_for_selection, (keys, ToolbarCommand::ResumeAll), resumed),
    ensures
        paused@ == seq![DownloadsCommand::PauseAll],
        resumed@ == seq![DownloadsCommand::ResumeAll],
{
    assert(command_views(paused@).len() == 1);
    assert(command_views(paused@)[0] == paused@[0]@);
    assert(command_views(resumed@).len() == 1);
    assert(command_views(resumed@)[0] == resumed@[0]@);
    assert(paused@ =~= seq![DownloadsCommand::PauseAll]);
    assert(resumed@ =~= seq![DownloadsCommand::ResumeAll]);
}

/// A row offers what its task can do next: what runs or waits can be paused, what is paused
/// resumed, what failed tried again, what is done opened where its file is here; every local task
/// can be shown in its folder and no remote one can.
pub proof fn law_row_offers_what_comes_next(state: TaskState, is_local: bool, actions: Vec<RowAction>)
    requires
        call_ensures(row_actions, (state, is_local), actions),
    ensures
        actions@.contains(RowAction::Pause) <==> state == TaskState::Downloading || state
            == TaskState::Pending,
        actions@.contains(RowAction::Resume) <==> state == TaskState::Paused,
        actions@.contains(RowAction::Retry) <==> state == TaskState::Failed,
        actions@.contains(RowAction::Open) <==> state == TaskState::Completed && is_local,
        actions@.contains(RowAction::Reveal) <==> is_local,
        actions@.no_duplicates(),
{
    let r = actions@;
    assert(r.len() > 0 ==> r.contains(r[0]));
    assert(r.len() > 1 ==> r.contains(r[1]));
}

/// A button does what it says: the command of a row's button is that of its name, and trying a
/// failed task again resumes it.
pub proof fn law_buttons_do_what_they_say(action: RowAction, command: ToolbarCommand)
    requires
        call_ensures(RowAction::command, (action,), command),
    ensures
        action == RowAction::Pause ==> command == ToolbarCommand::Pause,
        action == RowAction::Resume ==> command == ToolbarCommand::Resume,
        action == RowAction::Retry ==> command == ToolbarCommand::Resume,
        action == RowAction::Open ==> command == ToolbarCommand::Open,
        action == RowAction::Reveal ==> command == ToolbarCommand::Reveal,
{
}

/// A single resume is a deliberate start of that task; two of them are not, nor is a pause. A
/// start that was answered is reported by its task, one that failed is shown and reports none.
pub proof fn law_single_resume_is_a_deliberate_start(
    commands: &Vec<DownloadsCommand>,
    id: String,
    start: Option<InteractiveStart>,
    created: Result<Vec<String>, ()>,
    outcome: CommandOutcome,
)
    requires
        call_ensures(interactive_start, (commands,), start),
        call_ensures(after_command, (start, created), outcome),
    ensures
        commands@ == seq![DownloadsCommand::Resume { task_id: id }] ==> match start {
            Some(InteractiveStart::Resumed(task)) => task@ == id@,
            _ => false,
        },
        commands@ == seq![DownloadsCommand::Resume { task_id: id }] && created is Ok ==> texts(
            outcome.started@,
        ) == seq![id@],
        commands@ == seq![DownloadsCommand::Redownload { start_paused: false }] && created is Ok
            ==> texts(outcome.started@) == texts(created->Ok_0@),
        commands@ == seq![DownloadsCommand::Redownload { start_paused: true }] ==> start is None,
        commands@.len() != 1 ==> start is None,
        commands@.len() == 1 && commands@[0] is Pause ==> start is None,
        start is None ==> outcome.started@.len() == 0,
        created is Err ==> outcome.failed && outcome.started@.len() == 0,
        created is Ok ==> !outcome.failed,
{
    let sent = command_views(commands@);
    if commands@.len() == 1 {
        assert(sent[0] == commands@[0]@);
    }
    assert(texts(outcome.started@).len() == outcome.started@.len());
}

/// The menu over one task offers what can be done with that task: to pause it while it runs or waits,
/// to resume it while it is neither done nor running, to open its file when it is done here, to
/// show, rename, move and speed up what is here, to download again what is here and over, unless it
/// came from a torrent file; and to copy its link and delete it always.
pub proof fn law_menu_over_one_task(
    selection: &[TaskMenuFacts],
    task: TaskMenuFacts,
    menu: Vec<MenuEntry>,
)
    requires
        selection@ == seq![task],
        call_ensures(context_menu_items, (selection,), menu),
    ensures
        menu@.contains(MenuEntry::Pause) <==> task.state == TaskState::Downloading || task.state
            == TaskState::Pending,
        menu@.contains(MenuEntry::Resume) <==> task.state == TaskState::Pending || task.state
            == TaskState::Paused || task.state == TaskState::Failed,
        menu@.contains(MenuEntry::OpenFile) <==> task.is_local && task.state == TaskState::Completed,
        menu@.contains(MenuEntry::OpenFolder) <==> task.is_local,
        menu@.contains(MenuEntry::Rename) <==> task.is_local,
        menu@.contains(MenuEntry::MoveToQueue) <==> task.is_local,
        menu@.contains(MenuEntry::OpenInWindow) <==> task.is_local,
        menu@.contains(MenuEntry::Boost) <==> task.is_local && !task.boosted,
        menu@.contains(MenuEntry::CancelBoost) <==> task.is_local && task.boosted,
        menu@.contains(MenuEntry::Redownload) <==> task.is_local && !task.is_torrent_sentinel && (
        task.state == TaskState::Completed || task.state == TaskState::Failed),
        menu@.contains(MenuEntry::IgnorePluginRetry) <==> task.state == TaskState::Failed
            && task.is_plugin_retry_error,
        menu@.contains(MenuEntry::CopyUrl),
        menu@.contains(MenuEntry::Delete),
        menu@.contains(MenuEntry::DeleteWithFiles),
{
    let sel = selection@;
    assert(sel[0] == task);
    law_menu_shows_what_applies(sel, MenuEntry::Pause);
    law_menu_shows_what_applies(sel, MenuEntry::Resume);
    law_menu_shows_what_applies(sel, MenuEntry::OpenFile);
    law_menu_shows_what_applies(sel, MenuEntry::OpenFolder);
    law_menu_shows_what_applies(sel, MenuEntry::Rename);
    law_menu_shows_what_applies(sel, MenuEntry::MoveToQueue);
    law_menu_shows_what_applies(sel, MenuEntry::OpenInWindow);
    law_menu_shows_what_applies(sel, MenuEntry::Boost);
    law_menu_shows_what_applies(sel, MenuEntry::CancelBoost);
    law_menu_shows_what_applies(sel, MenuEntry::Redownload);
    law_menu_shows_what_applies(sel, MenuEntry::IgnorePluginRetry);
    law_menu_shows_what_applies(sel, MenuEntry::CopyUrl);
    law_menu_shows_what_applies(sel, MenuEntry::Delete);
    law_menu_shows_what_applies(sel, MenuEntry::DeleteWithFiles);
}

/// The menu over several tasks: pausing, resuming and opening in windows are offered where one of the
/// tasks can take it, opening, showing, moving and downloading again where all of them can; what is
/// for one task alone is not offered. Over nothing there is no menu.
pub proof fn law_menu_over_several_tasks(selection: &[TaskMenuFacts], menu: Vec<MenuEntry>)
    requires
        call_ensures(context_menu_items, (selection,), menu),
    ensures
        selection@.len() == 0 ==> menu@.len() == 0,
        selection@.len() > 1 ==> {
            &&& menu@.contains(MenuEntry::Pause) <==> exists|i: int|
                0 <= i < selection@.len() && ((#[trigger] selection@[i]).state
                    == TaskState::Downloading || selection@[i].state == TaskState::Pending)
            &&& menu@.contains(MenuEntry::OpenInWindow) <==> exists|i: int|
                0 <= i < selection@.len() && (#[trigger] selection@[i]).is_local
            &&& menu@.contains(MenuEntry::OpenFolder) <==> forall|i: int|
                0 <= i < selection@.len() ==> (#[trigger] selection@[i]).is_local
            &&& menu@.contains(MenuEntry::OpenFile) <==> forall|i: int|
                0 <= i < selection@.len() ==> (#[trigger] selection@[i]).is_local
                    && selection@[i].state == TaskState::Completed
            &&& !menu@.contains(MenuEntry::Rename)
            &&& !menu@.contains(MenuEntry::Boost)
            &&& !menu@.contains(MenuEntry::CancelBoost)
            &&& !menu@.contains(MenuEntry::IgnorePluginRetry)
        },
{
    let sel = selection@;
    law_menu_shows_what_applies(sel, MenuEntry::Pause);
    law_menu_shows_what_applies(sel, MenuEntry::OpenFile);
    law_menu_shows_what_applies(sel, MenuEntry::OpenFolder);
    law_menu_shows_what_applies(sel, MenuEntry::OpenInWindow);
    law_menu_shows_what_applies(sel, MenuEntry::Rename);
    law_menu_shows_what_applies(sel, MenuEntry::Boost);
    law_menu_shows_what_applies(sel, MenuEntry::CancelBoost);
    law_menu_shows_what_applies(sel, MenuEntry::IgnorePluginRetry);
    if sel.len() == 0 && menu@.len() > 0 {
        law_menu_shows_what_applies(sel, menu@[0]);
        assert(menu@.contains(menu@[0]));
    }
    if exists|i: int|
        0 <= i < sel.len() && ((#[trigger] sel[i]).state == TaskState::Downloading || sel[i].state
            == TaskState::Pending) {
        let i = choose|i: int|
            0 <= i < sel.len() && ((#[trigger] sel[i]).state == TaskState::Downloading || sel[i].state
                == TaskState::Pending);
        assert(pausable(sel[i]));
    }
    if forall|i: int| 0 <= i < sel.len() ==> openable(#[trigger] sel[i]) {
        assert forall|i: int| 0 <= i < sel.len() implies (#[trigger] sel[i]).is_local
            && sel[i].state == TaskState::Completed by {
            assert(openable(sel[i]));
        }
    }
}

/// The place of an entry among the others.
pub open spec fn entry_place(entry: MenuEntry) -> int {
    match entry {
        MenuEntry::Resume => 0,
        MenuEntry::Pause => 1,
        MenuEntry::IgnorePluginRetry => 2,
        MenuEntry::CancelBoost => 3,
        MenuEntry::Boost => 4,
        MenuEntry::OpenFile => 5,
        MenuEntry::OpenFolder => 6,
        MenuEntry::Rename => 7,
        MenuEntry::Redownload => 8,
        MenuEntry::CopyUrl => 9,
        MenuEntry::MoveToQueue => 10,
        MenuEntry::Separator => 11,
        MenuEntry::Delete => 12,
        MenuEntry::DeleteWithFiles => 13,
        MenuEntry::OpenInWindow => 14,
    }
}

proof fn lemma_menu_in_order(sel: Seq<TaskMenuFacts>, n: int)
    requires
        0 <= n <= entry_order().len(),
    ensures
        forall|i: int|
            0 <= i < menu_up_to(sel, n).len() ==> entry_place(#[trigger] menu_up_to(sel, n)[i]) < n,
        forall|i: int, j: int|
            0 <= i < j < menu_up_to(sel, n).len() ==> entry_place(
                #[trigger] menu_up_to(sel, n)[i],
            ) < entry_place(#[trigger] menu_up_to(sel, n)[j]),
    decreases n,
{
    if n > 0 {
        lemma_menu_in_order(sel, n - 1);
        let before = menu_up_to(sel, n - 1);
        let after = menu_up_to(sel, n);
        let last = entry_order()[n - 1];
        assert(entry_place(last) == n - 1);
        assert forall|i: int| 0 <= i < after.len() implies entry_place(#[trigger] after[i]) < n by {
            if i < before.len() {
                assert(after[i] == before[i]);
            }
        }
        assert forall|i: int, j: int| 0 <= i < j < after.len() implies entry_place(
            #[trigger] after[i],
        ) < entry_place(#[trigger] after[j]) by {
            assert(after[i] == before[i]);
            if j < before.len() {
                assert(after[j] == before[j]);
            }
        }
    }
}

/// The entries stand in one order whatever is selected, and none stands twice.
pub proof fn law_menu_keeps_its_order(
    selection: &[TaskMenuFacts],
    menu: Vec<MenuEntry>,
    i: int,
    j: int,
)
    requires
        call_ensures(context_menu_items, (selection,), menu),
        0 <= i < j < menu@.len(),
    ensures
        entry_place(menu@[i]) < entry_place(menu@[j]),
{
    lemma_menu_in_order(selection@, entry_order().len() as int);
}

/// What the menu knows of a task: where it runs, its state, whether it is sped up, whether it came from
/// a torrent file and whether a plugin made it fail.
pub proof fn law_menu_knows_the_task(task: &DownloadTaskView, facts: TaskMenuFacts)
    requires
        call_ensures(menu_facts, (task,), facts),
    ensures
        facts.is_local <==> task.key is Local,
        facts.state == task.state,
        facts.boosted == task.boosted,
        facts.is_torrent_sentinel <==> has_prefix(task.url@, "torrent-file://"@),
        facts.is_plugin_retry_error ==> task.state == TaskState::Failed,
        task.state == TaskState::Failed ==> (facts.is_plugin_retry_error <==> has_prefix(
            task.error_message@,
            "[插件]"@,
        )),
{
}

} // verus!
