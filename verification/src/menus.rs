//! The menus and keys of the desktop program, and what its general actions decide.

use vstd::prelude::*;

use crate::text::{concat, fill, filled};

verus! {

/// What menus and keys can ask for.
#[derive(Clone, Copy, Debug, PartialEq, Eq, Structural)]
pub enum AppAction {
    About,
    BringAllToFront,
    CheckUpdate,
    ClearFinished,
    ClearSelection,
    CloseWindow,
    CopySelectedUrl,
    CycleDensity,
    CycleGroupBy,
    CycleSort,
    DeleteSelected,
    DeleteSelectedWithFiles,
    FocusSearch,
    Hide,
    HideOthers,
    MinimizeWindow,
    NewDownload,
    OpenLogsFolder,
    OpenQueueManager,
    OpenSelected,
    OpenSelectedInWindow,
    OpenSettings,
    OpenTorrentFile,
    OpenWebsite,
    PauseAll,
    PauseSelected,
    Quit,
    RedownloadSelected,
    RenameSelected,
    ResumeAll,
    ResumeSelected,
    RevealSelected,
    SelectAllTasks,
    ShowAll,
    ToggleBoostSelected,
    ToggleDetailPanel,
    ToggleFullScreen,
    TogglePauseSelected,
    ZoomWindow,
}

impl AppAction {
    pub open spec fn label_of(self) -> Seq<char> {
        match self {
            AppAction::About => "menuAbout"@,
            AppAction::BringAllToFront => "menuBringAllToFront"@,
            AppAction::CheckUpdate => "menuCheckForUpdates"@,
            AppAction::ClearFinished => "menuClearFinished"@,
            AppAction::CloseWindow => "menuCloseWindow"@,
            AppAction::CopySelectedUrl => "copyUrl"@,
            AppAction::CycleDensity => "menuCycleDensity"@,
            AppAction::CycleGroupBy => "menuCycleGroupBy"@,
            AppAction::CycleSort => "menuCycleSort"@,
            AppAction::DeleteSelected => "deleteTask"@,
            AppAction::DeleteSelectedWithFiles => "deleteTaskAndFile"@,
            AppAction::Hide => "menuHide"@,
            AppAction::HideOthers => "menuHideOthers"@,
            AppAction::MinimizeWindow => "menuMinimize"@,
            AppAction::NewDownload => "menuNewDownload"@,
            AppAction::OpenLogsFolder => "menuOpenLogsFolder"@,
            AppAction::OpenQueueManager => "manageQueueAction"@,
            AppAction::OpenSelected => "openFile"@,
            AppAction::OpenSelectedInWindow => "menuOpenInWindow"@,
            AppAction::OpenSettings => "menuSettings"@,
            AppAction::OpenTorrentFile => "openTorrentFile"@,
            AppAction::OpenWebsite => "menuWebsite"@,
            AppAction::PauseAll => "pauseAll"@,
            AppAction::PauseSelected => "pause"@,
            AppAction::Quit => "menuQuit"@,
            AppAction::RedownloadSelected => "redownloadTask"@,
            AppAction::RenameSelected => "renameTask"@,
            AppAction::ResumeAll => "resumeAll"@,
            AppAction::ResumeSelected => "resume"@,
            AppAction::RevealSelected => "openFolder"@,
            AppAction::SelectAllTasks => "selectAll"@,
            AppAction::ShowAll => "menuShowAll"@,
            AppAction::ToggleBoostSelected => "boostDownload"@,
            AppAction::ToggleDetailPanel => "menuDetailPanel"@,
            AppAction::ToggleFullScreen => "menuToggleFullScreen"@,
            AppAction::ZoomWindow => "menuZoom"@,
            AppAction::ClearSelection => ""@,
            AppAction::FocusSearch => ""@,
            AppAction::TogglePauseSelected => ""@,
        }
    }

    /// The name of the action's text in menus; nothing for an action that is in none.
    pub fn label_key(self) -> (r: &'static str)
        ensures
            r@ == self.label_of(),
    {
        match self {
            AppAction::About => "menuAbout",
            AppAction::BringAllToFront => "menuBringAllToFront",
            AppAction::CheckUpdate => "menuCheckForUpdates",
            AppAction::ClearFinished => "menuClearFinished",
            AppAction::CloseWindow => "menuCloseWindow",
            AppAction::CopySelectedUrl => "copyUrl",
            AppAction::CycleDensity => "menuCycleDensity",
            AppAction::CycleGroupBy => "menuCycleGroupBy",
            AppAction::CycleSort => "menuCycleSort",
            AppAction::DeleteSelected => "deleteTask",
            AppAction::DeleteSelectedWithFiles => "deleteTaskAndFile",
            AppAction::Hide => "menuHide",
            AppAction::HideOthers => "menuHideOthers",
            AppAction::MinimizeWindow => "menuMinimize",
            AppAction::NewDownload => "menuNewDownload",
            AppAction::OpenLogsFolder => "menuOpenLogsFolder",
            AppAction::OpenQueueManager => "manageQueueAction",
            AppAction::OpenSelected => "openFile",
            AppAction::OpenSelectedInWindow => "menuOpenInWindow",
            AppAction::OpenSettings => "menuSettings",
            AppAction::OpenTorrentFile => "openTorrentFile",
            AppAction::OpenWebsite => "menuWebsite",
            AppAction::PauseAll => "pauseAll",
            AppAction::PauseSelected => "pause",
            AppAction::Quit => "menuQuit",
            AppAction::RedownloadSelected => "redownloadTask",
            AppAction::RenameSelected => "renameTask",
            AppAction::ResumeAll => "resumeAll",
            AppAction::ResumeSelected => "resume",
            AppAction::RevealSelected => "openFolder",
            AppAction::SelectAllTasks => "selectAll",
            AppAction::ShowAll => "menuShowAll",
            AppAction::ToggleBoostSelected => "boostDownload",
            AppAction::ToggleDetailPanel => "menuDetailPanel",
            AppAction::ToggleFullScreen => "menuToggleFullScreen",
            AppAction::ZoomWindow => "menuZoom",
            AppAction::ClearSelection
            | AppAction::FocusSearch
            | AppAction::TogglePauseSelected => "",
        }
    }
}

/// An entry of a menu.
#[derive(Clone, Copy, Debug, PartialEq, Eq, Structural)]
pub enum MenuItem {
    Separator,
    Action(AppAction),
}

/// The menus that there are.
#[derive(Clone, Copy, Debug, PartialEq, Eq, Structural)]
pub enum MenuTitle {
    /// Named after the program.
    Program,
    File,
    Tasks,
    View,
    Tools,
    Window,
    Help,
}

impl MenuTitle {
    /// The name of the menu's text; that of the program's own menu is the text itself.
    pub fn key(self) -> (r: &'static str)
        ensures
            r@ == match self {
                MenuTitle::Program => "FluxDown"@,
                MenuTitle::File => "menuFile"@,
                MenuTitle::Tasks => "menuTasks"@,
                MenuTitle::View => "menuView"@,
                MenuTitle::Tools => "menuTools"@,
                MenuTitle::Window => "menuWindow"@,
                MenuTitle::Help => "menuHelp"@,
            },
    {
        match self {
            MenuTitle::Program => "FluxDown",
            MenuTitle::File => "menuFile",
            MenuTitle::Tasks => "menuTasks",
            MenuTitle::View => "menuView",
            MenuTitle::Tools => "menuTools",
            MenuTitle::Window => "menuWindow",
            MenuTitle::Help => "menuHelp",
        }
    }
}

/// A menu with its entries.
#[derive(Debug)]
pub struct Menu {
    pub title: MenuTitle,
    pub items: Vec<MenuItem>,
}

/// What a menu holds.
pub struct MenuView {
    pub title: MenuTitle,
    pub items: Seq<MenuItem>,
}

impl View for Menu {
    type V = MenuView;

    open spec fn view(&self) -> MenuView {
        MenuView { title: self.title, items: self.items@ }
    }
}

/// The entries of a menu. On a Mac some stand in menus of the system's own kind, and others take
/// their place here.
pub open spec fn items_of(title: MenuTitle, macos: bool) -> Seq<MenuItem> {
    match title {
        MenuTitle::Program => seq![
            MenuItem::Action(AppAction::About),
            MenuItem::Separator,
            MenuItem::Action(AppAction::OpenSettings),
            MenuItem::Separator,
            MenuItem::Action(AppAction::Hide),
            MenuItem::Action(AppAction::HideOthers),
            MenuItem::Action(AppAction::ShowAll),
            MenuItem::Separator,
            MenuItem::Action(AppAction::Quit),
        ],
        MenuTitle::File => seq![
            MenuItem::Action(AppAction::NewDownload),
            MenuItem::Action(AppAction::OpenTorrentFile),
            MenuItem::Separator,
            MenuItem::Action(
                if macos {
                    AppAction::CloseWindow
                } else {
                    AppAction::Quit
                },
            ),
        ],
        MenuTitle::Tasks => seq![
            MenuItem::Action(AppAction::PauseSelected),
            MenuItem::Action(AppAction::ResumeSelected),
            MenuItem::Action(AppAction::DeleteSelected),
            MenuItem::Action(AppAction::DeleteSelectedWithFiles),
            MenuItem::Separator,
            MenuItem::Action(AppAction::SelectAllTasks),
            MenuItem::Action(AppAction::PauseAll),
            MenuItem::Action(AppAction::ResumeAll),
            MenuItem::Action(AppAction::ClearFinished),
            MenuItem::Separator,
            MenuItem::Action(AppAction::OpenSelected),
            MenuItem::Action(AppAction::RevealSelected),
            MenuItem::Action(AppAction::CopySelectedUrl),
            MenuItem::Action(AppAction::RenameSelected),
            MenuItem::Action(AppAction::RedownloadSelected),
            MenuItem::Action(AppAction::ToggleBoostSelected),
            MenuItem::Action(AppAction::OpenSelectedInWindow),
        ],
        MenuTitle::View => {
            let shared = seq![
                MenuItem::Action(AppAction::CycleDensity),
                MenuItem::Action(AppAction::CycleGroupBy),
                MenuItem::Action(AppAction::CycleSort),
                MenuItem::Separator,
                MenuItem::Action(AppAction::ToggleDetailPanel),
            ];
            if macos {
                shared + seq![MenuItem::Separator, MenuItem::Action(AppAction::ToggleFullScreen)]
            } else {
                shared
            }
        },
        MenuTitle::Tools => {
            let shared = seq![
                MenuItem::Action(AppAction::OpenQueueManager),
                MenuItem::Action(AppAction::CheckUpdate),
                MenuItem::Action(AppAction::OpenLogsFolder),
            ];
            if macos {
                shared
            } else {
                seq![MenuItem::Action(AppAction::OpenSettings)] + shared
            }
        },
        MenuTitle::Window => seq![
            MenuItem::Action(AppAction::MinimizeWindow),
            MenuItem::Action(AppAction::ZoomWindow),
            MenuItem::Separator,
            MenuItem::Action(AppAction::BringAllToFront),
        ],
        MenuTitle::Help => if macos {
            seq![MenuItem::Action(AppAction::OpenWebsite)]
        } else {
            seq![MenuItem::Action(AppAction::OpenWebsite), MenuItem::Action(AppAction::About)]
        },
    }
}

/// The menus in their order.
pub open spec fn titles(macos: bool) -> Seq<MenuTitle> {
    if macos {
        seq![
            MenuTitle::Program,
            MenuTitle::File,
            MenuTitle::Tasks,
            MenuTitle::View,
            MenuTitle::Tools,
            MenuTitle::Window,
            MenuTitle::Help,
        ]
    } else {
        seq![
            MenuTitle::File,
            MenuTitle::Tasks,
            MenuTitle::View,
            MenuTitle::Tools,
            MenuTitle::Help,
        ]
    }
}

/// The menus with their entries.
pub open spec fn menus_of(macos: bool) -> Seq<MenuView> {
    titles(macos).map_values(
        |title: MenuTitle| MenuView { title, items: items_of(title, macos) },
    )
}

fn menu(title: MenuTitle, items: Vec<MenuItem>) -> (r: Menu)
    ensures
        r@ == (MenuView { title, items: items@ }),
{
    Menu { title, items }
}

/// The entries of a menu.
fn menu_items(title: MenuTitle, macos: bool) -> (r: Vec<MenuItem>)
    ensures
        r@ == items_of(title, macos),
{
    let mut r: Vec<MenuItem> = Vec::new();
    match title {
        MenuTitle::Program => {
            r.push(MenuItem::Action(AppAction::About));
            r.push(MenuItem::Separator);
            r.push(MenuItem::Action(AppAction::OpenSettings));
            r.push(MenuItem::Separator);
            r.push(MenuItem::Action(AppAction::Hide));
            r.push(MenuItem::Action(AppAction::HideOthers));
            r.push(MenuItem::Action(AppAction::ShowAll));
            r.push(MenuItem::Separator);
            r.push(MenuItem::Action(AppAction::Quit));
        },
        MenuTitle::File => {
            r.push(MenuItem::Action(AppAction::NewDownload));
            r.push(MenuItem::Action(AppAction::OpenTorrentFile));
            r.push(MenuItem::Separator);
            if macos {
                r.push(MenuItem::Action(AppAction::CloseWindow));
            } else {
                r.push(MenuItem::Action(AppAction::Quit));
            }
        },
        MenuTitle::Tasks => {
            r.push(MenuItem::Action(AppAction::PauseSelected));
            r.push(MenuItem::Action(AppAction::ResumeSelected));
            r.push(MenuItem::Action(AppAction::DeleteSelected));
            r.push(MenuItem::Action(AppAction::DeleteSelectedWithFiles));
            r.push(MenuItem::Separator);
            r.push(MenuItem::Action(AppAction::SelectAllTasks));
            r.push(MenuItem::Action(AppAction::PauseAll));
            r.push(MenuItem::Action(AppAction::ResumeAll));
            r.push(MenuItem::Action(AppAction::ClearFinished));
            r.push(MenuItem::Separator);
            r.push(MenuItem::Action(AppAction::OpenSelected));
            r.push(MenuItem::Action(AppAction::RevealSelected));
            r.push(MenuItem::Action(AppAction::CopySelectedUrl));
            r.push(MenuItem::Action(AppAction::RenameSelected));
            r.push(MenuItem::Action(AppAction::RedownloadSelected));
            r.push(MenuItem::Action(AppAction::ToggleBoostSelected));
            r.push(MenuItem::Action(AppAction::OpenSelectedInWindow));
        },
        MenuTitle::View => {
            r.push(MenuItem::Action(AppAction::CycleDensity));
            r.push(MenuItem::Action(AppAction::CycleGroupBy));
            r.push(MenuItem::Action(AppAction::CycleSort));
            r.push(MenuItem::Separator);
            r.push(MenuItem::Action(AppAction::ToggleDetailPanel));
            if macos {
                r.push(MenuItem::Separator);
                r.push(MenuItem::Action(AppAction::ToggleFullScreen));
            }
        },
        MenuTitle::Tools => {
            if !macos {
                r.push(MenuItem::Action(AppAction::OpenSettings));
            }
            r.push(MenuItem::Action(AppAction::OpenQueueManager));
            r.push(MenuItem::Action(AppAction::CheckUpdate));
            r.push(MenuItem::Action(AppAction::OpenLogsFolder));
        },
        MenuTitle::Window => {
            r.push(MenuItem::Action(AppAction::MinimizeWindow));
            r.push(MenuItem::Action(AppAction::ZoomWindow));
            r.push(MenuItem::Separator);
            r.push(MenuItem::Action(AppAction::BringAllToFront));
        },
        MenuTitle::Help => {
            r.push(MenuItem::Action(AppAction::OpenWebsite));
            if !macos {
                r.push(MenuItem::Action(AppAction::About));
            }
        },
    }
    assert(r@ =~= items_of(title, macos));
    r
}

pub open spec fn menu_views(menus: Seq<Menu>) -> Seq<MenuView> {
    menus.map_values(|m: Menu| m@)
}

/// The menus of the program, the same for the system's menu bar and for that of a window.
pub fn build_menus(macos: bool) -> (r: Vec<Menu>)
    ensures
        menu_views(r@) == menus_of(macos),
{
    let mut r: Vec<Menu> = Vec::new();
    if macos {
        r.push(menu(MenuTitle::Program, menu_items(MenuTitle::Program, macos)));
    }
    r.push(menu(MenuTitle::File, menu_items(MenuTitle::File, macos)));
    r.push(menu(MenuTitle::Tasks, menu_items(MenuTitle::Tasks, macos)));
    r.push(menu(MenuTitle::View, menu_items(MenuTitle::View, macos)));
    r.push(menu(MenuTitle::Tools, menu_items(MenuTitle::Tools, macos)));
    if macos {
        r.push(menu(MenuTitle::Window, menu_items(MenuTitle::Window, macos)));
    }
    r.push(menu(MenuTitle::Help, menu_items(MenuTitle::Help, macos)));
    assert(menu_views(r@) =~= menus_of(macos));
    r
}

/// On every system the program can be left, its settings opened and its makers learned of from
/// some menu.
pub proof fn law_menus_offer_the_essentials(macos: bool, action: AppAction)
    requires
        action == AppAction::Quit || action == AppAction::OpenSettings || action
            == AppAction::About || action == AppAction::NewDownload,
    ensures
        exists|i: int, j: int|
            0 <= i < menus_of(macos).len() && 0 <= j < menus_of(macos)[i].items.len()
                && #[trigger] menus_of(macos)[i].items[j] == MenuItem::Action(action),
{
    let all = menus_of(macos);
    if macos {
        assert(all[0].items[0] == MenuItem::Action(AppAction::About));
        assert(all[0].items[2] == MenuItem::Action(AppAction::OpenSettings));
        assert(all[0].items[8] == MenuItem::Action(AppAction::Quit));
        assert(all[1].items[0] == MenuItem::Action(AppAction::NewDownload));
    } else {
        assert(all[0].items[0] == MenuItem::Action(AppAction::NewDownload));
        assert(all[0].items[3] == MenuItem::Action(AppAction::Quit));
        assert(all[3].items[0] == MenuItem::Action(AppAction::OpenSettings));
        assert(all[4].items[1] == MenuItem::Action(AppAction::About));
    }
}

/// The key that goes with letters in shortcuts.
pub open spec fn primary_key(macos: bool) -> Seq<char> {
    if macos {
        "cmd"@
    } else {
        "ctrl"@
    }
}

/// The key that goes with letters in shortcuts.
pub fn primary(macos: bool) -> (r: &'static str)
    ensures
        r@ == primary_key(macos),
{
    if macos {
        "cmd"
    } else {
        "ctrl"
    }
}

/// A shortcut.
#[derive(Debug)]
pub struct KeyBinding {
    pub keys: String,
    pub action: AppAction,
    /// Whether it counts on the page of downloads alone.
    pub on_downloads: bool,
}

/// What a shortcut is.
pub struct BindingView {
    pub keys: Seq<char>,
    pub action: AppAction,
    pub on_downloads: bool,
}

impl View for KeyBinding {
    type V = BindingView;

    open spec fn view(&self) -> BindingView {
        BindingView { keys: self.keys@, action: self.action, on_downloads: self.on_downloads }
    }
}

pub open spec fn with_primary(macos: bool, key: Seq<char>) -> Seq<char> {
    primary_key(macos) + "-"@ + key
}

pub open spec fn binding(keys: Seq<char>, action: AppAction, on_downloads: bool) -> BindingView {
    BindingView { keys, action, on_downloads }
}

/// The shortcuts. Letters count on the page of downloads alone; those of the system's own menu
/// are bound on a Mac.
pub open spec fn bindings_of(macos: bool) -> Seq<BindingView> {
    let shared = seq![
        binding(with_primary(macos, "n"@), AppAction::NewDownload, false),
        binding(with_primary(macos, ","@), AppAction::OpenSettings, false),
        binding(with_primary(macos, "f"@), AppAction::FocusSearch, true),
        binding(with_primary(macos, "a"@), AppAction::SelectAllTasks, true),
        binding("delete"@, AppAction::DeleteSelected, true),
        binding("backspace"@, AppAction::DeleteSelected, true),
        binding(with_primary(macos, "backspace"@), AppAction::DeleteSelected, true),
        binding("shift-delete"@, AppAction::DeleteSelectedWithFiles, true),
        binding("space"@, AppAction::TogglePauseSelected, true),
        binding("shift-d"@, AppAction::CycleDensity, true),
        binding("g"@, AppAction::CycleGroupBy, true),
        binding("s"@, AppAction::CycleSort, true),
        binding(with_primary(macos, "i"@), AppAction::ToggleDetailPanel, true),
        binding("escape"@, AppAction::ClearSelection, true),
    ];
    if macos {
        shared + seq![
            binding("cmd-q"@, AppAction::Quit, false),
            binding("cmd-w"@, AppAction::CloseWindow, false),
            binding("cmd-m"@, AppAction::MinimizeWindow, false),
            binding("ctrl-cmd-f"@, AppAction::ToggleFullScreen, false),
            binding("cmd-h"@, AppAction::Hide, false),
            binding("alt-cmd-h"@, AppAction::HideOthers, false),
        ]
    } else {
        shared
    }
}

pub open spec fn binding_views(bindings: Seq<KeyBinding>) -> Seq<BindingView> {
    bindings.map_values(|b: KeyBinding| b@)
}

fn bind(list: &mut Vec<KeyBinding>, keys: &str, action: AppAction, on_downloads: bool)
    ensures
        binding_views(final(list)@) == binding_views(old(list)@).push(
            binding(keys@, action, on_downloads),
        ),
{
    let ghost before = binding_views(list@);
    list.push(KeyBinding { keys: keys.to_owned(), action, on_downloads });
    assert(binding_views(list@) =~= before.push(binding(keys@, action, on_downloads)));
}

fn bind_primary(
    list: &mut Vec<KeyBinding>,
    macos: bool,
    key: &str,
    action: AppAction,
    on_downloads: bool,
)
    ensures
        binding_views(final(list)@) == binding_views(old(list)@).push(
            binding(with_primary(macos, key@), action, on_downloads),
        ),
{
    let mut keys = concat(primary(macos), "-");
    keys.append(key);
    bind(list, keys.as_str(), action, on_downloads);
}

/// The shortcuts of the program.
pub fn bind_keys(macos: bool) -> (r: Vec<KeyBinding>)
    ensures
        binding_views(r@) == bindings_of(macos),
{
    let mut r: Vec<KeyBinding> = Vec::new();
    assert(binding_views(r@) =~= Seq::<BindingView>::empty());
    bind_primary(&mut r, macos, "n", AppAction::NewDownload, false);
    bind_primary(&mut r, macos, ",", AppAction::OpenSettings, false);
    bind_primary(&mut r, macos, "f", AppAction::FocusSearch, true);
    bind_primary(&mut r, macos, "a", AppAction::SelectAllTasks, true);
    bind(&mut r, "delete", AppAction::DeleteSelected, true);
    bind(&mut r, "backspace", AppAction::DeleteSelected, true);
    bind_primary(&mut r, macos, "backspace", AppAction::DeleteSelected, true);
    bind(&mut r, "shift-delete", AppAction::DeleteSelectedWithFiles, true);
    bind(&mut r, "space", AppAction::TogglePauseSelected, true);
    bind(&mut r, "shift-d", AppAction::CycleDensity, true);
    bind(&mut r, "g", AppAction::CycleGroupBy, true);
    bind(&mut r, "s", AppAction::CycleSort, true);
    bind_primary(&mut r, macos, "i", AppAction::ToggleDetailPanel, true);
    bind(&mut r, "escape", AppAction::ClearSelection, true);
    if macos {
        bind(&mut r, "cmd-q", AppAction::Quit, false);
        bind(&mut r, "cmd-w", AppAction::CloseWindow, false);
        bind(&mut r, "cmd-m", AppAction::MinimizeWindow, false);
        bind(&mut r, "ctrl-cmd-f", AppAction::ToggleFullScreen, false);
        bind(&mut r, "cmd-h", AppAction::Hide, false);
        bind(&mut r, "alt-cmd-h", AppAction::HideOthers, false);
    }
    assert(binding_views(r@) =~= bindings_of(macos));
    r
}

/// What is done when the user leaves the program from a menu.
#[derive(Clone, Copy, Debug, PartialEq, Eq, Structural)]
pub enum QuitRequest {
    /// Leave with everything.
    QuitEverything,
    /// Ask first, since downloads will pause.
    Confirm,
}

/// What is done when the user leaves the program from a menu: with active tasks the user is asked
/// first, where there is a window to ask in.
pub fn request_quit(active_tasks: u32, has_window: bool) -> (r: QuitRequest)
    ensures
        r == if active_tasks > 0 && has_window {
            QuitRequest::Confirm
        } else {
            QuitRequest::QuitEverything
        },
{
    if active_tasks > 0 && has_window {
        QuitRequest::Confirm
    } else {
        QuitRequest::QuitEverything
    }
}

/// What the look for a new version found.
#[derive(Debug)]
pub struct UpdateCheck {
    pub has_update: bool,
    pub latest_version: String,
    pub release_page_url: String,
    pub download_url: String,
}

/// What is said about a new version.
#[derive(Debug, PartialEq, Eq)]
pub enum UpdateNotice {
    /// There is one: what is said, and where it is to be had.
    Available { message: String, url: String },
    UpToDate,
    Failed,
}

/// What is said about a new version. The template has a place for `v`; the page about the version
/// goes before the file itself.
pub fn update_notice(check: Option<UpdateCheck>, template: &str) -> (r: UpdateNotice)
    ensures
        match check {
            None => r == UpdateNotice::Failed,
            Some(found) => if !found.has_update {
                r == UpdateNotice::UpToDate
            } else {
                match r {
                    UpdateNotice::Available { message, url } => message@ == filled(
                        template@,
                        "v"@,
                        found.latest_version@,
                    ) && url == if found.release_page_url@.len() == 0 {
                        found.download_url
                    } else {
                        found.release_page_url
                    },
                    _ => false,
                }
            },
        },
{
    match check {
        None => UpdateNotice::Failed,
        Some(found) => {
            if !found.has_update {
                return UpdateNotice::UpToDate;
            }
            let message = fill(template, "v", found.latest_version.as_str());
            let url = if found.release_page_url.as_str().is_empty() {
                found.download_url
            } else {
                found.release_page_url
            };
            UpdateNotice::Available { message, url }
        },
    }
}

/// The folder with the logs: that of the agent, or that of the service where the agent names
/// none.
pub fn logs_folder(agent_dir: String, daemon_dir: String) -> (r: String)
    ensures
        r == if agent_dir@.len() == 0 {
            daemon_dir
        } else {
            agent_dir
        },
{
    if agent_dir.as_str().is_empty() {
        daemon_dir
    } else {
        agent_dir
    }
}

/// The menus of tasks act on tasks by their names: what the entries are called is what they do.
pub proof fn law_entries_are_called_what_they_do(action: AppAction, label: &str)
    requires
        call_ensures(AppAction::label_key, (action,), label),
    ensures
        action == AppAction::PauseSelected ==> label@ == "pause"@,
        action == AppAction::ResumeSelected ==> label@ == "resume"@,
        action == AppAction::PauseAll ==> label@ == "pauseAll"@,
        action == AppAction::ResumeAll ==> label@ == "resumeAll"@,
        action == AppAction::DeleteSelected ==> label@ == "deleteTask"@,
        action == AppAction::DeleteSelectedWithFiles ==> label@ == "deleteTaskAndFile"@,
        action == AppAction::OpenSelected ==> label@ == "openFile"@,
        action == AppAction::RevealSelected ==> label@ == "openFolder"@,
        action == AppAction::CopySelectedUrl ==> label@ == "copyUrl"@,
        action == AppAction::RenameSelected ==> label@ == "renameTask"@,
        action == AppAction::RedownloadSelected ==> label@ == "redownloadTask"@,
        action == AppAction::ToggleBoostSelected ==> label@ == "boostDownload"@,
        action == AppAction::SelectAllTasks ==> label@ == "selectAll"@,
        action == AppAction::Quit ==> label@ == "menuQuit"@,
        action == AppAction::About ==> label@ == "menuAbout"@,
        action == AppAction::OpenSettings ==> label@ == "menuSettings"@,
        action == AppAction::NewDownload ==> label@ == "menuNewDownload"@,
        action == AppAction::OpenTorrentFile ==> label@ == "openTorrentFile"@,
        action == AppAction::OpenQueueManager ==> label@ == "manageQueueAction"@,
        action == AppAction::CheckUpdate ==> label@ == "menuCheckForUpdates"@,
        action == AppAction::CloseWindow ==> label@ == "menuCloseWindow"@,
{
}

/// The menu of tasks is the same on every system: it can pause, resume, delete with and without
/// files, open, show, copy, rename and download again, and act on all tasks.
pub proof fn law_task_menu_is_everywhere(macos: bool, menus: Vec<Menu>, action: AppAction)
    requires
        call_ensures(build_menus, (macos,), menus),
        action == AppAction::PauseSelected || action == AppAction::ResumeSelected || action
            == AppAction::DeleteSelected || action == AppAction::DeleteSelectedWithFiles || action
            == AppAction::SelectAllTasks || action == AppAction::PauseAll || action
            == AppAction::ResumeAll || action == AppAction::ClearFinished || action
            == AppAction::OpenSelected || action == AppAction::RevealSelected || action
            == AppAction::CopySelectedUrl || action == AppAction::RenameSelected || action
            == AppAction::RedownloadSelected || action == AppAction::ToggleBoostSelected || action
            == AppAction::OpenSelectedInWindow,
    ensures
        exists|m: int, i: int|
            0 <= m < menus@.len() && 0 <= i < menus@[m].items@.len() && menus@[m].title
                == MenuTitle::Tasks && #[trigger] menus@[m].items@[i] == MenuItem::Action(action),
{
    let m: int = if macos {
        2
    } else {
        1
    };
    assert(titles(macos).len() == if macos {
        7int
    } else {
        5
    });
    assert(menus_of(macos).len() == titles(macos).len());
    assert(menu_views(menus@).len() == menus@.len());
    assert(menu_views(menus@)[m] == menus@[m]@);
    let items = items_of(MenuTitle::Tasks, macos);
    assert(titles(macos)[m] == MenuTitle::Tasks);
    assert(menus@[m].items@ == items);
    let i: int = match action {
        AppAction::PauseSelected => 0,
        AppAction::ResumeSelected => 1,
        AppAction::DeleteSelected => 2,
        AppAction::DeleteSelectedWithFiles => 3,
        AppAction::SelectAllTasks => 5,
        AppAction::PauseAll => 6,
        AppAction::ResumeAll => 7,
        AppAction::ClearFinished => 8,
        AppAction::OpenSelected => 10,
        AppAction::RevealSelected => 11,
        AppAction::CopySelectedUrl => 12,
        AppAction::RenameSelected => 13,
        AppAction::RedownloadSelected => 14,
        AppAction::ToggleBoostSelected => 15,
        _ => 16,
    };
    assert(menus@[m].items@[i] == MenuItem::Action(action));
}

/// The keys do on every system what they say, with the system's own key in front: new download,
/// settings, search, select all; and what deletes files needs the shift key.
pub proof fn law_keys_do_what_they_say(
    macos: bool,
    keys: Vec<KeyBinding>,
    first: &str,
)
    requires
        call_ensures(bind_keys, (macos,), keys),
        call_ensures(primary, (macos,), first),
    ensures
        keys@.len() >= 14,
        macos ==> first@ == "cmd"@,
        !macos ==> first@ == "ctrl"@,
        keys@[0].keys@ == first@ + "-"@ + "n"@ && keys@[0].action == AppAction::NewDownload,
        keys@[1].keys@ == first@ + "-"@ + ","@ && keys@[1].action == AppAction::OpenSettings,
        keys@[2].keys@ == first@ + "-"@ + "f"@ && keys@[2].action == AppAction::FocusSearch,
        keys@[3].keys@ == first@ + "-"@ + "a"@ && keys@[3].action == AppAction::SelectAllTasks,
        forall|i: int|
            0 <= i < keys@.len() && (#[trigger] keys@[i]).action == AppAction::DeleteSelectedWithFiles
                ==> keys@[i].keys@ == "shift-delete"@ && keys@[i].on_downloads,
        forall|i: int|
            0 <= i < keys@.len() && (#[trigger] keys@[i]).keys@ == "delete"@ ==> keys@[i].action
                == AppAction::DeleteSelected && keys@[i].on_downloads,
        !macos ==> forall|i: int|
            0 <= i < keys@.len() ==> (#[trigger] keys@[i]).action != AppAction::Quit,
{
    let views = binding_views(keys@);
    assert(views.len() == keys@.len());
    assert(views[0] == keys@[0]@ && views[1] == keys@[1]@ && views[2] == keys@[2]@ && views[3]
        == keys@[3]@);
    reveal_strlit("delete");
    reveal_strlit("backspace");
    reveal_strlit("shift-delete");
    reveal_strlit("space");
    reveal_strlit("shift-d");
    reveal_strlit("g");
    reveal_strlit("s");
    reveal_strlit("i");
    reveal_strlit("n");
    reveal_strlit(",");
    reveal_strlit("f");
    reveal_strlit("a");
    reveal_strlit("-");
    reveal_strlit("cmd");
    reveal_strlit("ctrl");
    reveal_strlit("escape");
    reveal_strlit("cmd-q");
    reveal_strlit("cmd-w");
    reveal_strlit("cmd-m");
    reveal_strlit("ctrl-cmd-f");
    reveal_strlit("cmd-h");
    reveal_strlit("alt-cmd-h");
    assert("delete"@[0] == 'd');
    assert("escape"@[0] == 'e');
    assert forall|i: int|
        0 <= i < keys@.len() && (#[trigger] keys@[i]).action
            == AppAction::DeleteSelectedWithFiles implies keys@[i].keys@ == "shift-delete"@
        && keys@[i].on_downloads by {
        assert(views[i] == keys@[i]@);
        assert(i == 7);
    }
    assert forall|i: int|
        0 <= i < keys@.len() && (#[trigger] keys@[i]).keys@ == "delete"@ implies keys@[i].action
        == AppAction::DeleteSelected && keys@[i].on_downloads by {
        assert(views[i] == keys@[i]@);
        assert(views[i].keys[0] == 'd');
        assert(views[i].keys.len() == 6);
    }
    assert forall|i: int| 0 <= i < keys@.len() && !macos implies (#[trigger] keys@[i]).action
        != AppAction::Quit by {
        assert(views[i] == keys@[i]@);
    }
}

/// Leaving asks first exactly where downloads would pause and there is a window to ask in.
pub proof fn law_leaving_asks_first(active: u32, has_window: bool, request: QuitRequest)
    requires
        call_ensures(request_quit, (active, has_window), request),
    ensures
        request == QuitRequest::Confirm <==> active > 0 && has_window,
{
}

/// A new version is named, with the page about it where there is one and else the file; what is up
/// to date and what could not be found out are told apart.
pub proof fn law_new_version_is_named(
    found: UpdateCheck,
    template: &str,
    notice: UpdateNotice,
    failed: UpdateNotice,
)
    requires
        call_ensures(update_notice, (Some(found), template), notice),
        call_ensures(update_notice, (None, template), failed),
    ensures
        failed is Failed,
        !found.has_update ==> notice is UpToDate,
        found.has_update ==> match notice {
            UpdateNotice::Available { message, url } => {
                &&& message@ == filled(template@, "v"@, found.latest_version@)
                &&& found.release_page_url@.len() > 0 ==> url@ == found.release_page_url@
                &&& found.release_page_url@.len() == 0 ==> url@ == found.download_url@
            },
            _ => false,
        },
{
}

/// The folder of the logs is the agent's where it is known, and else the service's.
pub proof fn law_logs_are_the_agents_first(agent_dir: String, daemon_dir: String, folder: String)
    requires
        call_ensures(logs_folder, (agent_dir, daemon_dir), folder),
    ensures
        agent_dir@.len() > 0 ==> folder@ == agent_dir@,
        agent_dir@.len() == 0 ==> folder@ == daemon_dir@,
{
}

} // verus!
