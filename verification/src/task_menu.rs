//! The context menu of the task table, line by line: what each line says, and what it does.

use vstd::prelude::*;

use crate::context_menu::{
    context_menu_items, facts_of, law_menu_shows_what_applies, menu_of, MenuEntry, TaskMenuFacts,
};
use crate::controls::FluxIcon;
use crate::menus::AppAction;
use crate::task_table::{live, DownloadTableDelegate};
use crate::tasks::{key_before, key_views, lemma_key_before, RowKey, TaskState, TaskStore};
use crate::text::concat;

verus! {

/// A line of the context menu.
#[derive(Debug, PartialEq, Eq)]
pub enum MenuLine {
    Separator,
    /// An entry that does something with the selected tasks.
    Action { label: MenuEntry, icon: FluxIcon, action: AppAction },
    /// Asks whether the failed task is to go on without its plugin.
    IgnorePluginRetry { icon: FluxIcon, task_id: String },
    /// The heading over the queues.
    QueueHeading,
    /// Moves the selected tasks to a queue, whose name is indented.
    Queue { queue_id: String, name: String },
}

/// What a line of the context menu says and does.
pub enum LineView {
    Separator,
    Action(MenuEntry, FluxIcon, AppAction),
    IgnorePluginRetry(FluxIcon, Seq<char>),
    QueueHeading,
    Queue(Seq<char>, Seq<char>),
}

impl View for MenuLine {
    type V = LineView;

    open spec fn view(&self) -> LineView {
        match self {
            MenuLine::Separator => LineView::Separator,
            MenuLine::Action { label, icon, action } => LineView::Action(*label, *icon, *action),
            MenuLine::IgnorePluginRetry { icon, task_id } => LineView::IgnorePluginRetry(
                *icon,
                task_id@,
            ),
            MenuLine::QueueHeading => LineView::QueueHeading,
            MenuLine::Queue { queue_id, name } => LineView::Queue(queue_id@, name@),
        }
    }
}

pub open spec fn line_views(lines: Seq<MenuLine>) -> Seq<LineView> {
    lines.map_values(|line: MenuLine| line@)
}

/// The lines for the first `n` queues, which stand under a heading since the menu has no second
/// level.
pub open spec fn queue_lines(queues: Seq<(String, String)>, n: int) -> Seq<LineView>
    decreases n,
{
    if n <= 0 {
        Seq::empty()
    } else {
        queue_lines(queues, n - 1).push(
            LineView::Queue(queues[n - 1].0@, "    "@ + queues[n - 1].1@),
        )
    }
}

/// The lines of an entry. Where there is no queue, the entry that moves tasks to one has none.
pub open spec fn entry_lines(
    entry: MenuEntry,
    selected: Seq<(bool, Seq<char>)>,
    queues: Seq<(String, String)>,
) -> Seq<LineView> {
    match entry {
        MenuEntry::Resume => seq![
            LineView::Action(entry, FluxIcon::Play, AppAction::ResumeSelected),
        ],
        MenuEntry::Pause => seq![
            LineView::Action(entry, FluxIcon::Pause, AppAction::PauseSelected),
        ],
        MenuEntry::IgnorePluginRetry => if selected.len() > 0 {
            seq![LineView::IgnorePluginRetry(FluxIcon::CircleAlert, selected[0].1)]
        } else {
            Seq::empty()
        },
        MenuEntry::Boost => seq![
            LineView::Action(entry, FluxIcon::Zap, AppAction::ToggleBoostSelected),
        ],
        MenuEntry::CancelBoost => seq![
            LineView::Action(entry, FluxIcon::Zap, AppAction::ToggleBoostSelected),
        ],
        MenuEntry::OpenFile => seq![
            LineView::Action(entry, FluxIcon::ExternalLink, AppAction::OpenSelected),
        ],
        MenuEntry::OpenFolder => seq![
            LineView::Action(entry, FluxIcon::FolderOpen, AppAction::RevealSelected),
        ],
        MenuEntry::Rename => seq![
            LineView::Action(entry, FluxIcon::Pen, AppAction::RenameSelected),
        ],
        MenuEntry::Redownload => seq![
            LineView::Action(entry, FluxIcon::RotateCw, AppAction::RedownloadSelected),
        ],
        MenuEntry::CopyUrl => seq![
            LineView::Action(entry, FluxIcon::Copy, AppAction::CopySelectedUrl),
        ],
        MenuEntry::MoveToQueue => if queues.len() == 0 {
            Seq::empty()
        } else {
            seq![LineView::QueueHeading] + queue_lines(queues, queues.len() as int)
        },
        MenuEntry::Separator => seq![LineView::Separator],
        MenuEntry::Delete => seq![
            LineView::Action(entry, FluxIcon::Trash2, AppAction::DeleteSelected),
        ],
        MenuEntry::DeleteWithFiles => seq![
            LineView::Action(entry, FluxIcon::Trash2, AppAction::DeleteSelectedWithFiles),
        ],
        MenuEntry::OpenInWindow => seq![
            LineView::Action(entry, FluxIcon::AppWindow, AppAction::OpenSelectedInWindow),
        ],
    }
}

/// The lines of all entries, in their order.
pub open spec fn menu_lines(
    entries: Seq<MenuEntry>,
    selected: Seq<(bool, Seq<char>)>,
    queues: Seq<(String, String)>,
) -> Seq<LineView>
    decreases entries.len(),
{
    if entries.len() == 0 {
        Seq::empty()
    } else {
        menu_lines(entries.drop_last(), selected, queues) + entry_lines(
            entries.last(),
            selected,
            queues,
        )
    }
}

/// The selected keys in the order in which the table gives them.
pub open spec fn in_order(keys: Seq<(bool, Seq<char>)>, selected: Set<(bool, Seq<char>)>) -> bool {
    keys.to_set() == selected && forall|i: int, j: int|
        0 <= i < j < keys.len() ==> key_before(#[trigger] keys[i], #[trigger] keys[j])
}

/// What the menu needs to know of the tasks with the given keys.
pub open spec fn facts_of_keys(store: &TaskStore, keys: Seq<(bool, Seq<char>)>) -> Seq<
    TaskMenuFacts,
> {
    keys.map_values(|k: (bool, Seq<char>)| facts_of(store.all()[store.find(k)->0]))
}

impl DownloadTableDelegate {
    fn append_move_to_queue(&self, lines: &mut Vec<MenuLine>)
        ensures
            line_views(final(lines)@) == line_views(old(lines)@) + entry_lines(
                MenuEntry::MoveToQueue,
                Seq::empty(),
                self.queue_names@,
            ),
    {
        let ghost start = line_views(lines@);
        if self.queue_names.len() == 0 {
            assert(line_views(lines@) =~= start + Seq::<LineView>::empty());
            return ;
        }
        lines.push(MenuLine::QueueHeading);
        let ghost heading = seq![LineView::QueueHeading];
        assert(line_views(lines@) =~= start + (heading + queue_lines(self.queue_names@, 0)));
        let mut i: usize = 0;
        while i < self.queue_names.len()
            invariant
                i <= self.queue_names@.len(),
                heading == seq![LineView::QueueHeading],
                line_views(lines@) == start + (heading + queue_lines(
                    self.queue_names@,
                    i as int,
                )),
            decreases self.queue_names@.len() - i,
        {
            let ghost before = line_views(lines@);
            let name = concat("    ", self.queue_names[i].1.as_str());
            let queue_id = self.queue_names[i].0.clone();
            let ghost line = LineView::Queue(queue_id@, name@);
            lines.push(MenuLine::Queue { queue_id, name });
            assert(line_views(lines@) =~= before.push(line));
            assert(before.push(line) =~= start + (heading + queue_lines(
                self.queue_names@,
                i + 1,
            )));
            i += 1;
        }
    }

    /// Adds the lines of an entry to the menu of the selected tasks.
    pub fn apply_menu_entry(&self, lines: &mut Vec<MenuLine>, entry: MenuEntry, selected: &Vec<RowKey>)
        ensures
            line_views(final(lines)@) == line_views(old(lines)@) + entry_lines(
                entry,
                key_views(selected@),
                self.queue_names@,
            ),
    {
        let ghost start = line_views(lines@);
        let line = match entry {
            MenuEntry::Separator => MenuLine::Separator,
            MenuEntry::MoveToQueue => {
                self.append_move_to_queue(lines);
                return ;
            },
            MenuEntry::IgnorePluginRetry => {
                if selected.len() == 0 {
                    assert(line_views(lines@) =~= start + Seq::<LineView>::empty());
                    return ;
                }
                MenuLine::IgnorePluginRetry {
                    icon: FluxIcon::CircleAlert,
                    task_id: selected[0].task_id().to_owned(),
                }
            },
            MenuEntry::Resume => MenuLine::Action {
                label: entry,
                icon: FluxIcon::Play,
                action: AppAction::ResumeSelected,
            },
            MenuEntry::Pause => MenuLine::Action {
                label: entry,
                icon: FluxIcon::Pause,
                action: AppAction::PauseSelected,
            },
            MenuEntry::Boost | MenuEntry::CancelBoost => MenuLine::Action {
                label: entry,
                icon: FluxIcon::Zap,
                action: AppAction::ToggleBoostSelected,
            },
            MenuEntry::OpenFile => MenuLine::Action {
                label: entry,
                icon: FluxIcon::ExternalLink,
                action: AppAction::OpenSelected,
            },
            MenuEntry::OpenFolder => MenuLine::Action {
                label: entry,
                icon: FluxIcon::FolderOpen,
                action: AppAction::RevealSelected,
            },
            MenuEntry::Rename => MenuLine::Action {
                label: entry,
                icon: FluxIcon::Pen,
                action: AppAction::RenameSelected,
            },
            MenuEntry::Redownload => MenuLine::Action {
                label: entry,
                icon: FluxIcon::RotateCw,
                action: AppAction::RedownloadSelected,
            },
            MenuEntry::CopyUrl => MenuLine::Action {
                label: entry,
                icon: FluxIcon::Copy,
                action: AppAction::CopySelectedUrl,
            },
            MenuEntry::Delete => MenuLine::Action {
                label: entry,
                icon: FluxIcon::Trash2,
                action: AppAction::DeleteSelected,
            },
            MenuEntry::DeleteWithFiles => MenuLine::Action {
                label: entry,
                icon: FluxIcon::Trash2,
                action: AppAction::DeleteSelectedWithFiles,
            },
            MenuEntry::OpenInWindow => MenuLine::Action {
                label: entry,
                icon: FluxIcon::AppWindow,
                action: AppAction::OpenSelectedInWindow,
            },
        };
        let ghost shown = line@;
        lines.push(line);
        assert(line_views(lines@) =~= start + seq![shown]);
    }

    /// The context menu of the selected tasks; empty where none is selected, or one of them is
    /// gone.
    pub fn task_context_menu(&self, store: &TaskStore) -> (r: Vec<MenuLine>)
        requires
            self.wf(),
        ensures
            ({
                let selected = self.selected_tasks@;
                if selected =~= Set::empty() || exists|k: (bool, Seq<char>)| #[trigger]
                    selected.contains(k) && !live(store, k) {
                    r@.len() == 0
                } else {
                    exists|keys: Seq<(bool, Seq<char>)>| #[trigger]
                        in_order(keys, selected) && line_views(r@) == menu_lines(
                            menu_of(facts_of_keys(store, keys)),
                            keys,
                            self.queue_names@,
                        )
                }
            }),
    {
        let mut lines: Vec<MenuLine> = Vec::new();
        let (selected, facts) = match self.selected_menu_facts(store) {
            Some(found) => found,
            None => {
                return lines;
            },
        };
        let ghost keys = key_views(selected@);
        proof {
            assert(keys[0] == selected@[0]@);
            assert(self.selected_tasks@.contains(keys[0]));
            assert forall|i: int, j: int| 0 <= i < j < keys.len() implies key_before(
                #[trigger] keys[i],
                #[trigger] keys[j],
            ) by {
                assert(keys[i] == selected@[i]@ && keys[j] == selected@[j]@);
            }
            assert forall|k: (bool, Seq<char>)| #[trigger]
                self.selected_tasks@.contains(k) implies live(store, k) by {
                let i = choose|i: int| 0 <= i < keys.len() && keys[i] == k;
                assert(keys[i] == selected@[i]@);
            }
            assert(facts@ =~= facts_of_keys(store, keys));
        }
        let entries = context_menu_items(facts.as_slice());
        assert(line_views(lines@) =~= menu_lines(entries@.take(0), keys, self.queue_names@));
        let mut i: usize = 0;
        while i < entries.len()
            invariant
                i <= entries@.len(),
                keys == key_views(selected@),
                line_views(lines@) == menu_lines(
                    entries@.take(i as int),
                    keys,
                    self.queue_names@,
                ),
            decreases entries@.len() - i,
        {
            assert(entries@.take(i + 1).drop_last() =~= entries@.take(i as int));
            self.apply_menu_entry(&mut lines, entries[i], &selected);
            i += 1;
        }
        assert(entries@.take(i as int) =~= entries@);
        assert(in_order(keys, self.selected_tasks@));
        lines
    }
}

/// Every entry of the menu does what it says, under its own icon.
pub proof fn law_lines_do_what_they_say(
    d: &DownloadTableDelegate,
    lines: &mut Vec<MenuLine>,
    entry: MenuEntry,
    selected: &Vec<RowKey>,
)
    requires
        old(lines)@.len() == 0,
        call_ensures(DownloadTableDelegate::apply_menu_entry, (d, lines, entry, selected), ()),
        entry != MenuEntry::MoveToQueue,
        entry != MenuEntry::IgnorePluginRetry,
    ensures
        final(lines)@.len() == 1,
        entry == MenuEntry::Separator <==> final(lines)@[0] is Separator,
        entry != MenuEntry::Separator ==> match final(lines)@[0] {
            MenuLine::Action { label, icon, action } => {
                &&& label == entry
                &&& entry == MenuEntry::Resume ==> action == AppAction::ResumeSelected && icon
                    == FluxIcon::Play
                &&& entry == MenuEntry::Pause ==> action == AppAction::PauseSelected && icon
                    == FluxIcon::Pause
                &&& entry == MenuEntry::Boost || entry == MenuEntry::CancelBoost ==> action
                    == AppAction::ToggleBoostSelected
                &&& entry == MenuEntry::OpenFile ==> action == AppAction::OpenSelected
                &&& entry == MenuEntry::OpenFolder ==> action == AppAction::RevealSelected
                &&& entry == MenuEntry::Rename ==> action == AppAction::RenameSelected
                &&& entry == MenuEntry::Redownload ==> action == AppAction::RedownloadSelected
                &&& entry == MenuEntry::CopyUrl ==> action == AppAction::CopySelectedUrl
                &&& entry == MenuEntry::Delete ==> action == AppAction::DeleteSelected
                &&& entry == MenuEntry::DeleteWithFiles ==> action
                    == AppAction::DeleteSelectedWithFiles
                &&& entry == MenuEntry::OpenInWindow ==> action == AppAction::OpenSelectedInWindow
            },
            _ => false,
        },
{
    let before = line_views(old(lines)@);
    let after = line_views(final(lines)@);
    assert(before =~= Seq::empty());
    assert(after.len() == 1);
    assert(after[0] == final(lines)@[0]@);
}

proof fn lemma_queue_lines(queues: Seq<(String, String)>, n: int, i: int)
    requires
        0 <= i < n <= queues.len(),
    ensures
        queue_lines(queues, n).len() == n,
        queue_lines(queues, n)[i] == LineView::Queue(queues[i].0@, "    "@ + queues[i].1@),
    decreases n,
{
    if n > 1 && i < n - 1 {
        lemma_queue_lines(queues, n - 1, i);
    } else if n > 1 {
        lemma_queue_lines(queues, n - 1, 0);
    } else {
        reveal_with_fuel(queue_lines, 2);
    }
}

/// Moving offers every queue in its order, by its own identifier and indented name, under a heading;
/// without queues there is nothing to offer.
pub proof fn law_every_queue_is_offered(
    d: &DownloadTableDelegate,
    lines: &mut Vec<MenuLine>,
    selected: &Vec<RowKey>,
    i: int,
)
    requires
        old(lines)@.len() == 0,
        call_ensures(
            DownloadTableDelegate::apply_menu_entry,
            (d, lines, MenuEntry::MoveToQueue, selected),
            (),
        ),
    ensures
        d.queue_names@.len() == 0 ==> final(lines)@.len() == 0,
        d.queue_names@.len() > 0 ==> final(lines)@.len() == d.queue_names@.len() + 1 && final(
            lines)@[0] is QueueHeading,
        0 <= i < d.queue_names@.len() ==> match final(lines)@[i + 1] {
            MenuLine::Queue { queue_id, name } => queue_id@ == d.queue_names@[i].0@ && name@
                == "    "@ + d.queue_names@[i].1@,
            _ => false,
        },
{
    let before = line_views(old(lines)@);
    let after = line_views(final(lines)@);
    let queues = d.queue_names@;
    assert(before =~= Seq::empty());
    assert(after.len() == final(lines)@.len());
    if queues.len() > 0 {
        lemma_queue_lines(queues, queues.len() as int, 0);
        assert(after[0] == final(lines)@[0]@);
        if 0 <= i < queues.len() {
            lemma_queue_lines(queues, queues.len() as int, i);
            assert(after[i + 1] == final(lines)@[i + 1]@);
        }
    }
}

/// Passing a plugin over is for the first of the selected tasks.
pub proof fn law_plugin_is_passed_over_for_its_task(
    d: &DownloadTableDelegate,
    lines: &mut Vec<MenuLine>,
    selected: &Vec<RowKey>,
)
    requires
        old(lines)@.len() == 0,
        selected@.len() > 0,
        call_ensures(
            DownloadTableDelegate::apply_menu_entry,
            (d, lines, MenuEntry::IgnorePluginRetry, selected),
            (),
        ),
    ensures
        final(lines)@.len() == 1,
        match final(lines)@[0] {
            MenuLine::IgnorePluginRetry { icon, task_id } => task_id@ == selected@[0]@.1,
            _ => false,
        },
{
    let before = line_views(old(lines)@);
    let after = line_views(final(lines)@);
    assert(before =~= Seq::empty());
    assert(after.len() == 1);
    assert(after[0] == final(lines)@[0]@);
    assert(key_views(selected@)[0] == selected@[0]@);
}

proof fn lemma_menu_lines(
    entries: Seq<MenuEntry>,
    selected: Seq<(bool, Seq<char>)>,
    queues: Seq<(String, String)>,
    line: LineView,
)
    ensures
        menu_lines(entries, selected, queues).contains(line) <==> exists|i: int|
            0 <= i < entries.len() && entry_lines(
                #[trigger] entries[i],
                selected,
                queues,
            ).contains(line),
    decreases entries.len(),
{
    if entries.len() > 0 {
        let rest = entries.drop_last();
        lemma_menu_lines(rest, selected, queues, line);
        let before = menu_lines(rest, selected, queues);
        let last = entry_lines(entries.last(), selected, queues);
        let all = before + last;
        assert(entries[entries.len() - 1] == entries.last());
        if before.contains(line) {
            let i = choose|i: int| 0 <= i < before.len() && before[i] == line;
            assert(all[i] == line);
            let k = choose|k: int|
                0 <= k < rest.len() && entry_lines(#[trigger] rest[k], selected, queues).contains(
                    line,
                );
            assert(entries[k] == rest[k]);
        }
        if last.contains(line) {
            let i = choose|i: int| 0 <= i < last.len() && last[i] == line;
            assert(all[before.len() + i] == line);
        }
        if all.contains(line) && !before.contains(line) {
            let i = choose|i: int| 0 <= i < all.len() && all[i] == line;
            if i < before.len() {
                assert(before[i] == line);
            }
            assert(last[i - before.len()] == line);
        }
        if exists|i: int|
            0 <= i < entries.len() && entry_lines(#[trigger] entries[i], selected, queues).contains(
                line,
            ) {
            let i = choose|i: int|
                0 <= i < entries.len() && entry_lines(
                    #[trigger] entries[i],
                    selected,
                    queues,
                ).contains(line);
            if i < rest.len() {
                assert(rest[i] == entries[i]);
            }
        }
    }
}

/// The menu over the selection offers to pause exactly where one of the selected tasks runs or waits,
/// and to delete in any case; over nothing, and over a task that is gone, there is no menu.
pub proof fn law_menu_offers_to_pause_what_runs(
    d: &DownloadTableDelegate,
    store: &TaskStore,
    lines: Vec<MenuLine>,
    key: (bool, Seq<char>),
)
    requires
        call_ensures(DownloadTableDelegate::task_context_menu, (d, store), lines),
        d.selected_tasks@ == Set::<(bool, Seq<char>)>::empty().insert(key),
    ensures
        !live(store, key) ==> lines@.len() == 0,
        live(store, key) ==> {
            let state = store.all()[store.find(key)->0].state;
            &&& line_views(lines@).contains(
                LineView::Action(MenuEntry::Pause, FluxIcon::Pause, AppAction::PauseSelected),
            ) <==> state == TaskState::Downloading || state == TaskState::Pending
            &&& line_views(lines@).contains(
                LineView::Action(MenuEntry::Delete, FluxIcon::Trash2, AppAction::DeleteSelected),
            )
        },
{
    let selected = d.selected_tasks@;
    assert(selected.contains(key));
    if live(store, key) {
        let keys = choose|keys: Seq<(bool, Seq<char>)>| #[trigger]
            in_order(keys, selected) && line_views(lines@) == menu_lines(
                menu_of(facts_of_keys(store, keys)),
                keys,
                d.queue_names@,
            );
        assert(keys.to_set().contains(key));
        assert(keys.len() > 0);
        if keys.len() > 1 {
            assert(keys.to_set().contains(keys[0]) && keys.to_set().contains(keys[1]));
            assert(keys[0] == key && keys[1] == key);
            assert(key_before(keys[0], keys[1]));
            lemma_key_before(key, key, key);
        }
        assert(keys.to_set().contains(keys[0]));
        assert(keys =~= seq![key]);
        let sel = facts_of_keys(store, keys);
        let menu = menu_of(sel);
        let task = store.all()[store.find(key)->0];
        assert(sel[0] == facts_of(task));
        law_menu_shows_what_applies(sel, MenuEntry::Pause);
        law_menu_shows_what_applies(sel, MenuEntry::Delete);
        let pause = LineView::Action(MenuEntry::Pause, FluxIcon::Pause, AppAction::PauseSelected);
        let delete = LineView::Action(
            MenuEntry::Delete,
            FluxIcon::Trash2,
            AppAction::DeleteSelected,
        );
        lemma_menu_lines(menu, keys, d.queue_names@, pause);
        lemma_menu_lines(menu, keys, d.queue_names@, delete);
        if menu.contains(MenuEntry::Pause) {
            let i = choose|i: int| 0 <= i < menu.len() && menu[i] == MenuEntry::Pause;
            assert(entry_lines(menu[i], keys, d.queue_names@)[0] == pause);
        }
        let i = choose|i: int| 0 <= i < menu.len() && menu[i] == MenuEntry::Delete;
        assert(entry_lines(menu[i], keys, d.queue_names@)[0] == delete);
        if line_views(lines@).contains(pause) {
            let k = choose|k: int|
                0 <= k < menu.len() && entry_lines(#[trigger] menu[k], keys, d.queue_names@).contains(
                    pause,
                );
            let shown = entry_lines(menu[k], keys, d.queue_names@);
            let m = choose|m: int| 0 <= m < shown.len() && shown[m] == pause;
            if menu[k] == MenuEntry::MoveToQueue && m > 0 {
                lemma_queue_lines(d.queue_names@, d.queue_names@.len() as int, 0);
                lemma_queue_lines(d.queue_names@, d.queue_names@.len() as int, m - 1);
            }
            assert(menu[k] == MenuEntry::Pause);
            assert(menu.contains(MenuEntry::Pause));
        }
    }
}

} // verus!
