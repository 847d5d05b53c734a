//! The task table: rows, groups, selection, columns, cells and menus.

use fluxdown::columns::{ColumnPref, DownloadColumnKind, SortDir, TableLayout, ViewSortKey};
use fluxdown::columns::{column_prefs, columns_from_prefs, move_column_kind, set_column_visible};
use fluxdown::context_menu::{
    after_command, commands_for_selection, context_menu_items, interactive_start, menu_facts,
    row_actions, task_command, DownloadsCommand, InteractiveStart, MenuEntry, RowAction,
    TaskMenuFacts, ToolbarCommand, PLUGIN_ERROR_PREFIX,
};
use fluxdown::controls::{CheckState, FluxIcon};
use fluxdown::menus::AppAction;
use fluxdown::table_cells::{
    action_icon, group_context_menu, group_progress, Cell, GroupMenuEntry, MenuTarget,
};
use fluxdown::table_headers::{HeaderCell, SelectionGlyph};
use fluxdown::table_settings::{
    count_in_queue, count_matching, filter_for, SidebarSelection,
};
use fluxdown::task_menu::MenuLine;
use fluxdown::task_table::{
    query_finds, DeviceAliases, DownloadTableDelegate, SelectionSummary, TableFilter,
    TableStrings, ViewGroupBy, ViewPrefs, VisibleRow,
};
use fluxdown::tasks::{
    DownloadTaskView, GroupFacts, RowKey, TaskKind, TaskSource, TaskState, TaskStore,
};

const SCROLLBAR: u32 = 16_000;

fn text(s: &str) -> String {
    s.to_owned()
}

fn strings() -> TableStrings {
    TableStrings {
        category_video: text("Video"),
        category_audio: text("Audio"),
        category_document: text("Document"),
        category_image: text("Image"),
        category_archive: text("Archive"),
        category_program: text("Program"),
        category_other: text("Other"),
        remote_tasks: text("Remote"),
        ungrouped: text("Ungrouped"),
        status_downloading: text("Downloading"),
        active_transfers: text("transfers"),
        connected_peers: text("peers"),
        metadata_loading: text("Loading"),
        col_file_name: text("Name"),
        col_progress: text("Progress"),
        col_size: text("Size"),
        col_speed: text("Speed"),
        col_eta: text("ETA"),
        col_status: text("Status"),
        col_created: text("Created"),
        col_protocol: text("Protocol"),
        col_source: text("Source"),
        col_queue: text("Queue"),
    }
}

fn state_of(status: i32) -> (TaskState, &'static str, i32) {
    match status {
        1 => (TaskState::Downloading, "downloading", 0),
        2 => (TaskState::Paused, "paused", 2),
        3 => (TaskState::Completed, "completed", 4),
        4 => (TaskState::Failed, "failed", 3),
        _ => (TaskState::Pending, "pending", 1),
    }
}

fn task(id: &str, status: i32) -> DownloadTaskView {
    let (state, key, rank) = state_of(status);
    DownloadTaskView {
        key: RowKey::Local(text(id)),
        source: TaskSource::Local,
        state,
        kind: TaskKind::Other,
        name: text(id),
        url: text("https://example.com/file"),
        site: text("example.com"),
        queue_id: text("main"),
        group_id: String::new(),
        from_device: String::new(),
        error_message: String::new(),
        boosted: false,
        metadata_pending: false,
        size_bytes: 1,
        size_text: text("1 B"),
        downloaded_text: text("0 B"),
        speed_bytes_per_second: None,
        speed_text: String::new(),
        eta_seconds: None,
        eta_text: String::new(),
        created_at_secs: 100,
        created_text: text("then"),
        completed_at_secs: 0,
        progress_label: text("0%"),
        save_dir: text("/tmp"),
        share_url: text("https://example.com/file"),
        file_missing: false,
        protocol_label: text("HTTP"),
        is_bt: false,
        active_transfers: None,
        runtime_connected: false,
        connected_peers: None,
        facts: GroupFacts {
            state_key: text(key),
            state_label: text(key),
            state_rank: rank,
            date_key: text("today"),
            date_label: text("Today"),
            date_order: 0,
            category_id: text("other"),
            source_site: text("example.com"),
            unknown_site: text("unknown"),
        },
        rank: i64::from(rank),
        accepted_by: vec![text("all")],
    }
}

fn store_of(statuses: &[i32]) -> TaskStore {
    let mut store = TaskStore::new();
    let rows = statuses
        .iter()
        .enumerate()
        .map(|(index, status)| {
            let mut row = task(&format!("t{index}"), *status);
            row.name = format!("f{index}.bin");
            row
        })
        .collect();
    store.replace_local(rows);
    store
}

fn delegate(statuses: &[i32]) -> (DownloadTableDelegate, TaskStore) {
    let store = store_of(statuses);
    let mut delegate = DownloadTableDelegate::new(strings(), SCROLLBAR);
    delegate.refresh_view(&store);
    (delegate, store)
}

fn local(id: &str) -> RowKey {
    RowKey::Local(text(id))
}

fn group_by(group_by: ViewGroupBy) -> ViewPrefs {
    ViewPrefs {
        group_by,
        ..ViewPrefs::default()
    }
}

#[test]
fn context_menu_selection_preserves_selected_rows_and_replaces_unselected_rows() {
    let (mut delegate, _) = delegate(&[2, 2, 2]);
    delegate.selected_tasks.insert(local("t0"));
    delegate.selected_tasks.insert(local("t1"));

    delegate.select_task_for_context_menu(local("t1"));
    assert_eq!(delegate.selected_keys(), vec![local("t0"), local("t1")]);

    delegate.select_task_for_context_menu(local("t2"));
    assert_eq!(delegate.selected_keys(), vec![local("t2")]);
}

#[test]
fn selection_summary_counts_every_live_selected_task() {
    let (mut delegate, store) = delegate(&[2, 1]);
    assert_eq!(
        delegate.selection_summary(&store),
        SelectionSummary::default()
    );

    delegate.selected_tasks.insert(local("gone"));
    assert_eq!(
        delegate.selection_summary(&store),
        SelectionSummary::default()
    );

    delegate.selected_tasks.insert(local("t0"));
    assert_eq!(
        delegate.selection_summary(&store),
        SelectionSummary {
            count: 1,
            any: true,
            any_local: true,
            any_active: false,
            any_resumable: true,
        }
    );

    delegate.selected_tasks.insert(local("t1"));
    assert_eq!(
        delegate.selection_summary(&store),
        SelectionSummary {
            count: 2,
            any: true,
            any_local: true,
            any_active: true,
            any_resumable: true,
        }
    );
}

#[test]
fn selection_is_pruned_to_tasks_left_in_view() {
    let (mut delegate, store) = delegate(&[2, 1, 2]);
    delegate.select_all_tasks(&store);
    assert_eq!(delegate.selection_summary(&store).count, 3);

    delegate.set_query("f1.bin");
    delegate.refresh_view(&store);
    assert_eq!(delegate.selected_keys(), vec![local("t1")]);
    assert_eq!(delegate.selection_summary(&store).count, 1);

    delegate.set_query("no-such-task");
    delegate.refresh_view(&store);
    assert_eq!(
        delegate.selection_summary(&store),
        SelectionSummary::default()
    );

    delegate.set_query("");
    delegate.refresh_view(&store);
    assert!(delegate.selected_keys().is_empty());
}

#[test]
fn collapsing_a_group_keeps_its_selected_members() {
    let (mut delegate, store) = delegate(&[1, 3]);
    delegate.set_prefs(group_by(ViewGroupBy::Status));
    delegate.refresh_view(&store);
    delegate.select_all_tasks(&store);
    let key = delegate
        .group_key_at(0)
        .map(str::to_owned)
        .unwrap_or_default();
    delegate.toggle_group_collapsed(&key);
    delegate.refresh_view(&store);
    assert_eq!(delegate.visible.len(), 3);
    assert_eq!(delegate.selection_summary(&store).count, 2);
}

#[test]
fn grouping_inserts_headers_and_collapsing_hides_members() {
    let (mut delegate, store) = delegate(&[1, 3, 1, 3]);
    let mut prefs = ViewPrefs::default();
    prefs.group_by = ViewGroupBy::Status;
    delegate.set_prefs(prefs);
    delegate.refresh_view(&store);
    assert_eq!(delegate.visible.len(), 6);
    assert!(matches!(
        delegate.visible[0],
        VisibleRow::GroupHeader {
            count: 2,
            collapsed: false,
            ..
        }
    ));

    let key = delegate
        .group_key_at(0)
        .map(str::to_owned)
        .expect("group key");
    delegate.toggle_group_collapsed(&key);
    delegate.refresh_view(&store);
    assert_eq!(delegate.visible.len(), 4);
    assert!(matches!(
        delegate.visible[0],
        VisibleRow::GroupHeader {
            collapsed: true,
            ..
        }
    ));
}

#[test]
fn shift_range_selection_skips_group_headers() {
    let (mut delegate, store) = delegate(&[1, 3, 1, 3]);
    let mut prefs = ViewPrefs::default();
    prefs.group_by = ViewGroupBy::Status;
    delegate.set_prefs(prefs);
    delegate.refresh_view(&store);
    let first = delegate.row_key_at(1, &store).expect("first task");
    let last = delegate.row_key_at(5, &store).expect("last task");
    delegate.select_task(first, false, false, &store);
    delegate.select_task(last, true, false, &store);
    assert_eq!(delegate.selected_tasks.len(), 4);
}

fn width_of(layout: &TableLayout, kind: DownloadColumnKind) -> Option<u32> {
    layout
        .columns
        .iter()
        .find(|column| column.kind == kind)
        .map(|column| column.width)
}

/// Pixels as the layout counts them.
fn px(pixels: u32) -> u32 {
    pixels * 1000
}

#[test]
fn sync_column_widths_maps_shown_columns_and_clamps() {
    let (mut delegate, _) = delegate(&[1]);
    let _ = delegate.layout.set_viewport_width(px(1400));
    let applied = delegate.layout.apply_file_name_width();
    let shown: Vec<DownloadColumnKind> = delegate
        .layout
        .columns
        .iter()
        .filter(|column| column.visible)
        .map(|column| column.kind)
        .collect();
    let widths_with = |file_name: u32| -> Vec<u32> {
        std::iter::once(px(36))
            .chain(shown.iter().map(|kind| match kind {
                DownloadColumnKind::Size => px(180),
                DownloadColumnKind::Status => px(10),
                DownloadColumnKind::FileName => file_name,
                other => other.default_width(),
            }))
            .collect()
    };
    let widths = widths_with(applied);
    assert!(delegate.sync_column_widths(&widths));
    assert_eq!(
        width_of(&delegate.layout, DownloadColumnKind::Size),
        Some(px(180))
    );
    assert_eq!(
        width_of(&delegate.layout, DownloadColumnKind::Status),
        Some(DownloadColumnKind::Status.min_width())
    );
    assert_eq!(delegate.prefs.file_name_width, None);
    assert_eq!(
        width_of(&delegate.layout, DownloadColumnKind::Speed),
        Some(DownloadColumnKind::Speed.default_width())
    );
    assert!(!delegate.sync_column_widths(&widths));

    assert!(delegate.sync_column_widths(&widths_with(applied + px(120))));
    assert_eq!(delegate.prefs.file_name_width, Some(applied + px(120)));
    assert_eq!(
        delegate.layout.file_name_width_for(px(900)),
        applied + px(120)
    );
    assert!(!delegate.layout.viewport_needs_sync(px(1400)));
    assert!(delegate.sync_column_widths(&widths_with(px(10))));
    assert_eq!(
        delegate.layout.file_name_width_for(px(1400)),
        DownloadColumnKind::FileName.min_width()
    );

    delegate.reset_columns();
    assert_eq!(delegate.prefs.file_name_width, None);
}

#[test]
fn file_name_absorbs_remaining_width_and_respects_min() {
    let (mut delegate, _) = delegate(&[1]);
    let layout = &mut delegate.layout;
    let wide = layout.file_name_width_for(px(1400));
    let narrower = layout.file_name_width_for(px(1300));
    assert_eq!(wide - narrower, px(100));

    let size = width_of(layout, DownloadColumnKind::Size).unwrap_or_default();
    if let Some(column) = layout
        .columns
        .iter_mut()
        .find(|column| column.kind == DownloadColumnKind::Size)
    {
        column.width = size + px(50);
    }
    assert_eq!(wide - layout.file_name_width_for(px(1400)), px(50));

    assert_eq!(
        layout.file_name_width_for(px(300)),
        DownloadColumnKind::FileName.min_width()
    );

    assert!(layout.set_viewport_width(px(1400)));
    let _ = layout.apply_file_name_width();
    assert!(!layout.viewport_needs_sync(px(1400)));
}

#[test]
fn header_click_flips_current_key_and_switches_to_column_default() {
    let (mut delegate, _) = delegate(&[1]);
    assert_eq!(delegate.prefs.sort_key, ViewSortKey::Smart);

    assert!(delegate.toggle_sort(DownloadColumnKind::FileName));
    assert_eq!(
        (delegate.prefs.sort_key, delegate.prefs.sort_dir),
        (ViewSortKey::Name, SortDir::Asc)
    );
    assert!(delegate.toggle_sort(DownloadColumnKind::FileName));
    assert_eq!(delegate.prefs.sort_dir, SortDir::Desc);

    assert!(delegate.toggle_sort(DownloadColumnKind::Size));
    assert_eq!(
        (delegate.prefs.sort_key, delegate.prefs.sort_dir),
        (ViewSortKey::Size, SortDir::Desc)
    );

    assert!(delegate.toggle_sort(DownloadColumnKind::Status));
    assert_eq!(delegate.prefs.sort_key, ViewSortKey::Smart);
    assert!(!delegate.toggle_sort(DownloadColumnKind::Status));
    assert!(!delegate.toggle_sort(DownloadColumnKind::Protocol));
}

#[test]
fn row_actions_offer_only_available_operations() {
    let actions = |state, local| row_actions(state, local);
    assert_eq!(
        actions(TaskState::Downloading, true),
        [RowAction::Pause, RowAction::Reveal]
    );
    assert_eq!(actions(TaskState::Pending, false), [RowAction::Pause]);
    assert_eq!(
        actions(TaskState::Failed, true),
        [RowAction::Retry, RowAction::Reveal]
    );
    assert_eq!(
        actions(TaskState::Completed, true),
        [RowAction::Open, RowAction::Reveal]
    );
    assert!(actions(TaskState::Completed, false).is_empty());
}

fn facts(is_local: bool, state: TaskState) -> TaskMenuFacts {
    TaskMenuFacts {
        is_local,
        state,
        boosted: false,
        is_torrent_sentinel: false,
        is_plugin_retry_error: false,
    }
}

#[test]
fn empty_selection_has_no_menu_items() {
    assert!(context_menu_items(&[]).is_empty());
}

#[test]
fn single_local_completed_task_shows_full_menu() {
    let items = context_menu_items(&[facts(true, TaskState::Completed)]);
    assert_eq!(
        items,
        vec![
            MenuEntry::Boost,
            MenuEntry::OpenFile,
            MenuEntry::OpenFolder,
            MenuEntry::Rename,
            MenuEntry::Redownload,
            MenuEntry::CopyUrl,
            MenuEntry::MoveToQueue,
            MenuEntry::Separator,
            MenuEntry::Delete,
            MenuEntry::DeleteWithFiles,
            MenuEntry::OpenInWindow,
        ]
    );
}

#[test]
fn multi_select_only_keeps_items_valid_for_every_selected_task() {
    let selection = [
        facts(true, TaskState::Completed),
        facts(false, TaskState::Downloading),
    ];
    let items = context_menu_items(&selection);
    assert_eq!(
        items,
        vec![
            MenuEntry::Pause,
            MenuEntry::CopyUrl,
            MenuEntry::Separator,
            MenuEntry::Delete,
            MenuEntry::DeleteWithFiles,
            MenuEntry::OpenInWindow,
        ]
    );
}

#[test]
fn multi_select_paused_and_failed_shows_resume_but_not_pause() {
    let selection = [
        facts(true, TaskState::Paused),
        facts(true, TaskState::Failed),
    ];
    let items = context_menu_items(&selection);
    assert!(items.contains(&MenuEntry::Resume));
    assert!(!items.contains(&MenuEntry::Pause));
}

#[test]
fn ignore_plugin_retry_only_for_single_failed_plugin_task() {
    let mut plugin_failure = facts(true, TaskState::Failed);
    plugin_failure.is_plugin_retry_error = true;
    assert!(context_menu_items(&[plugin_failure]).contains(&MenuEntry::IgnorePluginRetry));

    assert!(
        !context_menu_items(&[plugin_failure, plugin_failure])
            .contains(&MenuEntry::IgnorePluginRetry)
    );

    let plain_failure = facts(true, TaskState::Failed);
    assert!(!context_menu_items(&[plain_failure]).contains(&MenuEntry::IgnorePluginRetry));
    assert_eq!(PLUGIN_ERROR_PREFIX, "[插件]");
}

#[test]
fn boost_toggles_label_by_boosted_state() {
    let mut boosted = facts(true, TaskState::Downloading);
    boosted.boosted = true;
    assert!(context_menu_items(&[boosted]).contains(&MenuEntry::CancelBoost));

    let not_boosted = facts(true, TaskState::Downloading);
    assert!(context_menu_items(&[not_boosted]).contains(&MenuEntry::Boost));
}

#[test]
fn torrent_sentinel_and_remote_tasks_cannot_redownload() {
    let mut sentinel = facts(true, TaskState::Completed);
    sentinel.is_torrent_sentinel = true;
    assert!(!context_menu_items(&[sentinel]).contains(&MenuEntry::Redownload));

    let remote = facts(false, TaskState::Completed);
    assert!(!context_menu_items(&[remote]).contains(&MenuEntry::Redownload));
}

#[test]
fn facts_are_read_from_a_task() {
    let mut failed = task("a", 4);
    failed.error_message = text("[插件] broken");
    failed.url = text("torrent-file://abc");
    let read = menu_facts(&failed);
    assert!(read.is_plugin_retry_error && read.is_torrent_sentinel && read.is_local);
    failed.state = TaskState::Paused;
    assert!(!menu_facts(&failed).is_plugin_retry_error);
}

#[test]
fn remote_tasks_take_only_forwarded_commands() {
    let remote = RowKey::Remote(text("r"));
    assert_eq!(
        task_command(&remote, ToolbarCommand::Delete),
        Some(DownloadsCommand::RemoteCommand {
            task_id: text("r"),
            action: text("delete"),
        })
    );
    assert_eq!(task_command(&remote, ToolbarCommand::Open), None);
    assert_eq!(task_command(&local("t"), ToolbarCommand::PauseAll), None);
    assert_eq!(
        task_command(&local("t"), ToolbarCommand::Delete),
        Some(DownloadsCommand::Delete {
            task_id: text("t"),
            delete_files: false,
        })
    );
    assert_eq!(
        task_command(&local("t"), RowAction::Retry.command()),
        Some(DownloadsCommand::Resume { task_id: text("t") })
    );
    assert_eq!(RowAction::Retry.id(), "download-row-action-retry");
}

#[test]
fn toolbar_commands_follow_the_selection() {
    let keys = vec![local("a"), RowKey::Remote(text("b"))];
    assert_eq!(
        commands_for_selection(&keys, ToolbarCommand::Reveal),
        vec![DownloadsCommand::RevealTask { task_id: text("a") }]
    );
    assert_eq!(
        commands_for_selection(&keys, ToolbarCommand::PauseAll),
        vec![DownloadsCommand::PauseAll]
    );
    assert_eq!(
        commands_for_selection(&keys, ToolbarCommand::Pause).len(),
        2
    );
}

#[test]
fn only_one_deliberate_start_is_reported() {
    let resume = |id: &str| DownloadsCommand::Resume { task_id: text(id) };
    assert_eq!(
        interactive_start(&vec![resume("a")]),
        Some(InteractiveStart::Resumed(text("a")))
    );
    assert_eq!(interactive_start(&vec![resume("a"), resume("b")]), None);
    let again = |start_paused| vec![DownloadsCommand::Redownload { start_paused }];
    assert_eq!(interactive_start(&again(false)), Some(InteractiveStart::Created));
    assert_eq!(interactive_start(&again(true)), None);

    let outcome = after_command(Some(InteractiveStart::Created), Ok(vec![text("n")]));
    assert_eq!((outcome.failed, outcome.started), (false, vec![text("n")]));
    let outcome = after_command(Some(InteractiveStart::Resumed(text("a"))), Err(()));
    assert_eq!((outcome.failed, outcome.started.len()), (true, 0));
    let outcome = after_command(Some(InteractiveStart::Resumed(text("a"))), Ok(Vec::new()));
    assert_eq!(outcome.started, vec![text("a")]);
}

fn rows(delegate: &DownloadTableDelegate, store: &TaskStore) -> Vec<String> {
    delegate
        .visible
        .iter()
        .enumerate()
        .map(|(ix, row)| match row {
            VisibleRow::Task(_) => delegate
                .row_key_at(ix, store)
                .map(|key| key.task_id().to_owned())
                .unwrap_or_default(),
            VisibleRow::GroupHeader { label, count, .. } => format!("{label}:{count}"),
        })
        .collect()
}

#[test]
fn rows_are_ordered_by_rank_and_keep_their_place_when_equal() {
    let (delegate, store) = delegate(&[3, 1, 2, 1]);
    assert_eq!(rows(&delegate, &store), ["t1", "t3", "t2", "t0"]);
}

#[test]
fn groups_are_ordered_by_place_and_then_by_label() {
    let mut store = store_of(&[1, 1, 1, 1]);
    for (row, group) in store.local.iter_mut().zip(["b", "", "a", "b"]) {
        row.group_id = text(group);
    }
    let mut delegate = DownloadTableDelegate::new(strings(), SCROLLBAR);
    delegate.set_group_names(vec![(text("a"), text("Zebra"))]);
    delegate.set_prefs(group_by(ViewGroupBy::Group));
    delegate.refresh_view(&store);
    assert_eq!(
        rows(&delegate, &store),
        ["Zebra:1", "t2", "b:2", "t0", "t3", "Ungrouped:1", "t1"]
    );
    assert_eq!(delegate.group_key_at(0), Some("group:a"));
    assert_eq!(delegate.menu_target(0), MenuTarget::Group(text("a")));
    assert_eq!(delegate.menu_target(1), MenuTarget::Selection);
    assert_eq!(delegate.menu_target(5), MenuTarget::Nothing);
    assert_eq!(delegate.menu_target(9), MenuTarget::Nothing);
}

#[test]
fn every_grouping_names_its_buckets() {
    let mut store = store_of(&[1]);
    store.local[0].queue_id = text("later");
    let mut remote = task("r", 1);
    remote.key = RowKey::Remote(text("r"));
    remote.source = TaskSource::Remote;
    remote.facts.source_site = String::new();
    store.replace_remote(vec![remote]);
    let mut delegate = DownloadTableDelegate::new(strings(), SCROLLBAR);
    delegate.set_queue_names(vec![(text("main"), text("Main")), (text("later"), text("Later"))]);
    delegate.set_categories(vec![(text("other"), text("Rest"))]);
    for (by, expected) in [
        (ViewGroupBy::Queue, ["Later:1", "t0", "Remote:1", "r"].to_vec()),
        (ViewGroupBy::Site, ["example.com:1", "t0", "unknown:1", "r"].to_vec()),
        (ViewGroupBy::Type, ["Rest:2", "t0", "r"].to_vec()),
        (ViewGroupBy::Date, ["Today:2", "t0", "r"].to_vec()),
        (ViewGroupBy::Off, ["t0", "r"].to_vec()),
    ] {
        delegate.set_prefs(group_by(by));
        delegate.view_dirty = true;
        delegate.refresh_view(&store);
        assert_eq!(rows(&delegate, &store), expected, "{by:?}");
        if let Some(key) = delegate.group_key_at(0) {
            assert_eq!(delegate.menu_target(0), MenuTarget::Group(text(key)));
        }
    }
}

#[test]
fn filters_take_queues_devices_and_groups() {
    let mut store = store_of(&[1, 1]);
    store.local[0].group_id = text("g");
    store.local[1].accepted_by = vec![text("video")];
    let mut remote = task("r", 1);
    remote.key = RowKey::Remote(text("r"));
    remote.source = TaskSource::Remote;
    remote.from_device = text("fingerprint");
    store.replace_remote(vec![remote]);
    let mut delegate = DownloadTableDelegate::new(strings(), SCROLLBAR);
    delegate.set_device_aliases(vec![DeviceAliases {
        device: text("phone"),
        aliases: vec![text("fingerprint")],
    }]);
    let mut shown = |filter: TableFilter| {
        delegate.set_filter(filter);
        delegate.refresh_view(&store);
        rows(&delegate, &store)
    };
    assert_eq!(shown(TableFilter::Queue(text("main"))), ["t0", "t1"]);
    assert_eq!(shown(TableFilter::Download(text("all"))), ["t0", "r"]);
    assert_eq!(shown(TableFilter::Download(text("video"))), ["t1"]);
    assert_eq!(shown(TableFilter::LocalDevice), ["t0", "t1"]);
    assert_eq!(shown(TableFilter::Device(text("phone"))), ["r"]);
    assert_eq!(shown(TableFilter::Device(text("other"))), Vec::<String>::new());
    assert_eq!(shown(TableFilter::Group(text("g"))), ["t0"]);
    assert_eq!(count_in_queue(&store, "main"), 2);
    assert_eq!(count_matching(&store, "all"), 2);
    assert_eq!(count_matching(&store, "video"), 1);
    assert_eq!(
        filter_for(&SidebarSelection::Download(text("video"))),
        TableFilter::Download(text("video"))
    );
    assert_eq!(
        filter_for(&SidebarSelection::Queue(text("q"))),
        TableFilter::Queue(text("q"))
    );
}

#[test]
fn searches_leave_case_and_outer_space_out_of_account() {
    let (mut delegate, store) = delegate(&[1, 1]);
    delegate.set_query("  F0.BIN ");
    assert_eq!(delegate.query, "f0.bin");
    assert!(delegate.refresh_view(&store));
    assert_eq!(rows(&delegate, &store), ["t0"]);
    assert!(!delegate.refresh_view(&store));
    delegate.set_query("ÄPFEL");
    assert_eq!(delegate.query, "äpfel");
    assert!(query_finds("ple", "apple", "", ""));
    assert!(query_finds("", "", "", ""));
    assert!(!query_finds("x", "a", "b", "c"));
}

#[test]
fn selection_reacts_to_keys_and_to_the_header() {
    let (mut delegate, store) = delegate(&[1, 1, 1]);
    assert_eq!(delegate.header_check_state(&store), CheckState::Unchecked);
    delegate.select_task(local("t1"), false, false, &store);
    delegate.select_task(local("t2"), false, true, &store);
    assert_eq!(delegate.selected_keys(), vec![local("t1"), local("t2")]);
    assert_eq!(delegate.header_check_state(&store), CheckState::Indeterminate);
    delegate.select_task(local("t2"), false, true, &store);
    assert_eq!(delegate.selected_keys(), vec![local("t1")]);
    delegate.select_task(local("t0"), true, false, &store);
    assert_eq!(
        delegate.selected_keys(),
        vec![local("t0"), local("t1"), local("t2")]
    );
    assert_eq!(delegate.header_check_state(&store), CheckState::Checked);
    delegate.toggle_all_tasks(&store);
    assert!(delegate.selected_tasks.is_empty());
    delegate.toggle_all_tasks(&store);
    assert_eq!(delegate.selected_tasks.len(), 3);
    delegate.toggle_task(local("t1"));
    assert_eq!(delegate.selected_keys(), vec![local("t0"), local("t2")]);
    delegate.clear_selection();
    assert!(delegate.selected_menu_facts(&store).is_none());
}

#[test]
fn selected_keys_put_local_tasks_first() {
    let (mut delegate, store) = delegate(&[1]);
    for key in [RowKey::Remote(text("a")), local("t0"), RowKey::Remote(text("B"))] {
        delegate.selected_tasks.insert(key);
    }
    assert_eq!(
        delegate.selected_keys(),
        vec![local("t0"), RowKey::Remote(text("B")), RowKey::Remote(text("a"))]
    );
    assert!(delegate.selected_menu_facts(&store).is_none());
    delegate.clear_selection();
    delegate.select_all_tasks(&store);
    let (keys, found) = delegate.selected_menu_facts(&store).expect("facts");
    assert_eq!(keys, vec![local("t0")]);
    assert_eq!(found, vec![facts(true, TaskState::Downloading)]);
}

#[test]
fn column_preferences_are_completed_and_round_trip() {
    let pref = |key: &str, visible, width| ColumnPref {
        key: text(key),
        visible,
        width,
    };
    let columns = columns_from_prefs(&vec![
        pref("queue", false, px(1)),
        pref("nonsense", true, px(99)),
        pref("size", true, px(200)),
    ]);
    assert_eq!(columns.len(), 10);
    assert_eq!(columns[0].kind, DownloadColumnKind::Queue);
    assert_eq!(columns[0].width, DownloadColumnKind::Queue.default_width());
    assert_eq!(columns[1].width, px(200));
    assert_eq!(columns[2].kind, DownloadColumnKind::FileName);
    assert_eq!(columns_from_prefs(&column_prefs(&columns)), columns);

    let hidden: Vec<ColumnPref> = column_prefs(&columns)
        .into_iter()
        .map(|pref| ColumnPref {
            visible: false,
            ..pref
        })
        .collect();
    let shown = columns_from_prefs(&hidden);
    assert_eq!(shown.iter().filter(|column| column.visible).count(), 1);
    assert!(shown[0].visible);
}

#[test]
fn the_last_shown_column_cannot_be_hidden_and_columns_move() {
    let (mut delegate, _) = delegate(&[1]);
    let columns = &mut delegate.layout.columns;
    for kind in [
        DownloadColumnKind::Size,
        DownloadColumnKind::Progress,
        DownloadColumnKind::Status,
        DownloadColumnKind::Created,
    ] {
        assert!(set_column_visible(columns, kind, false));
        assert!(!set_column_visible(columns, kind, false));
    }
    assert!(!set_column_visible(columns, DownloadColumnKind::FileName, false));
    assert!(set_column_visible(columns, DownloadColumnKind::Queue, true));
    move_column_kind(columns, DownloadColumnKind::Queue, DownloadColumnKind::FileName);
    assert_eq!(columns[0].kind, DownloadColumnKind::Queue);
    delegate.move_column(1, 2);
    assert_eq!(delegate.layout.columns[0].kind, DownloadColumnKind::FileName);
    delegate.move_column(0, 2);
    delegate.move_column(1, 3);
    assert_eq!(delegate.layout.columns[0].kind, DownloadColumnKind::FileName);
    assert_eq!(delegate.layout.columns[1].kind, DownloadColumnKind::Queue);
}

#[test]
fn preferences_mark_rows_and_columns() {
    let (mut delegate, _) = delegate(&[1]);
    delegate.set_prefs(ViewPrefs::default());
    assert!(!delegate.view_dirty && !delegate.columns_dirty);
    delegate.set_prefs(group_by(ViewGroupBy::Site));
    assert!(delegate.view_dirty);
    assert!(delegate.take_columns_dirty());
    assert!(!delegate.take_columns_dirty());
    assert_eq!(delegate.layout.progress_bar_width(), px(150 - 16 - 32 - 8));
    assert_eq!(DownloadColumnKind::from_key("eta"), Some(DownloadColumnKind::Eta));
    assert_eq!(DownloadColumnKind::from_key("eta "), None);
}

#[test]
fn cells_say_what_is_known() {
    let (mut delegate, mut store) = delegate(&[1]);
    let row = &mut store.local[0];
    row.kind = TaskKind::DiskImage;
    row.speed_bytes_per_second = Some(5);
    row.speed_text = text("5 B");
    row.eta_seconds = Some(86_400);
    row.eta_text = text("1 d");
    row.active_transfers = Some(3);
    row.connected_peers = Some(7);
    row.runtime_connected = true;
    row.is_bt = true;
    let row = &store.local[0];
    assert_eq!(delegate.status_label(row), "5 B/s · 1 d");
    assert_eq!(
        delegate.status_detail(row).as_deref(),
        Some("0 B / 1 B · 3 transfers · 7 peers")
    );
    delegate.prefs.density.two_line = true;
    match delegate.cell(row, DownloadColumnKind::FileName) {
        Cell::File(cell) => {
            assert_eq!(cell.name, "f0.bin");
            assert_eq!(cell.meta.as_deref(), Some("Archive · example.com"));
        }
        other => panic!("{other:?}"),
    }
    match delegate.cell(row, DownloadColumnKind::Speed) {
        Cell::Meta(cell) => assert_eq!((cell.text.as_str(), cell.known), ("5 B/s", true)),
        other => panic!("{other:?}"),
    }
    assert_eq!(delegate.label(DownloadColumnKind::Eta), "ETA");

    let mut failed = task("x", 4);
    failed.size_bytes = 0;
    failed.error_message = text("  first \r\nsecond");
    match delegate.cell(&failed, DownloadColumnKind::Status) {
        Cell::Status(cell) => {
            assert_eq!(cell.label, "failed");
            assert_eq!(cell.detail.as_deref(), Some("first"));
            assert_eq!(cell.tooltip.as_deref(), Some("  first \r\nsecond"));
        }
        other => panic!("{other:?}"),
    }
    match delegate.cell(&failed, DownloadColumnKind::Size) {
        Cell::Meta(cell) => assert_eq!((cell.text.as_str(), cell.known), ("—", false)),
        other => panic!("{other:?}"),
    }
    assert_eq!(
        delegate.cell(&task("d", 3), DownloadColumnKind::Progress),
        Cell::Progress { shown: false }
    );
}

#[test]
fn cells_are_found_by_row_and_column() {
    let (delegate, store) = delegate(&[1]);
    assert_eq!(delegate.cell_at(0, 0, &store), Cell::Selection);
    assert_eq!(delegate.cell_at(0, 9, &store), Cell::Blank);
    assert_eq!(delegate.cell_at(3, 1, &store), Cell::Blank);
    assert_eq!(
        delegate.cell_at(0, 3, &store),
        Cell::Progress { shown: true }
    );
    assert_eq!(delegate.actions_at(0, 5, &store).len(), 2);
    assert!(delegate.actions_at(0, 4, &store).is_empty());
    assert_eq!(delegate.sort_arrow(DownloadColumnKind::Status), None);
    assert_eq!(action_icon(RowAction::Retry), FluxIcon::RotateCw);
}

#[test]
fn groups_report_progress_and_offer_a_retry_after_failures() {
    let mut store = store_of(&[3, 1, 3]);
    store.local[0].group_id = text("g");
    store.local[1].group_id = text("g");
    assert_eq!(group_progress("group:g", &store), Some((1, 2)));
    assert_eq!(group_progress("group:", &store), None);
    assert_eq!(group_progress("queue:main", &store), None);
    assert!(group_context_menu("", &store).is_empty());
    assert!(!group_context_menu("g", &store).contains(&GroupMenuEntry::RetryFailed));
    store.local[1].state = TaskState::Failed;
    let menu = group_context_menu("g", &store);
    assert_eq!(menu[2], GroupMenuEntry::RetryFailed);
    assert_eq!(menu.len(), 9);
}

#[test]
fn the_menu_of_a_failed_task_line_by_line() {
    let (mut delegate, mut store) = delegate(&[4]);
    store.local[0].error_message = format!("{PLUGIN_ERROR_PREFIX} boom");
    store.local[0].boosted = true;
    assert!(delegate.task_context_menu(&store).is_empty());
    delegate.set_queue_names(vec![(text("q"), text("Queue"))]);
    delegate.select_task_for_context_menu(local("t0"));
    let action = |label: MenuEntry, icon: FluxIcon, action: AppAction| MenuLine::Action {
        label,
        icon,
        action,
    };
    assert_eq!(
        delegate.task_context_menu(&store),
        [
            action(MenuEntry::Resume, FluxIcon::Play, AppAction::ResumeSelected),
            MenuLine::IgnorePluginRetry {
                icon: FluxIcon::CircleAlert,
                task_id: text("t0"),
            },
            action(MenuEntry::CancelBoost, FluxIcon::Zap, AppAction::ToggleBoostSelected),
            action(MenuEntry::OpenFolder, FluxIcon::FolderOpen, AppAction::RevealSelected),
            action(MenuEntry::Rename, FluxIcon::Pen, AppAction::RenameSelected),
            action(MenuEntry::Redownload, FluxIcon::RotateCw, AppAction::RedownloadSelected),
            action(MenuEntry::CopyUrl, FluxIcon::Copy, AppAction::CopySelectedUrl),
            MenuLine::QueueHeading,
            MenuLine::Queue {
                queue_id: text("q"),
                name: text("    Queue"),
            },
            MenuLine::Separator,
            action(MenuEntry::Delete, FluxIcon::Trash2, AppAction::DeleteSelected),
            action(
                MenuEntry::DeleteWithFiles,
                FluxIcon::Trash2,
                AppAction::DeleteSelectedWithFiles
            ),
            action(
                MenuEntry::OpenInWindow,
                FluxIcon::AppWindow,
                AppAction::OpenSelectedInWindow
            ),
        ]
    );
    delegate.selected_tasks.insert(local("gone"));
    assert!(delegate.task_context_menu(&store).is_empty());
}

#[test]
fn columns_of_the_table_are_hidden_and_moved() {
    let (mut delegate, _) = delegate(&[1]);
    assert!(delegate.set_column_visible(DownloadColumnKind::Speed, true));
    assert!(!delegate.set_column_visible(DownloadColumnKind::Speed, true));
    assert!(delegate.layout.columns.iter().any(|column| {
        column.kind == DownloadColumnKind::Speed && column.visible
    }));
    let kinds = |delegate: &DownloadTableDelegate| -> Vec<DownloadColumnKind> {
        delegate.layout.columns.iter().map(|column| column.kind).collect()
    };
    let before = kinds(&delegate);
    delegate.move_column_kind(before[0], before[2]);
    let after = kinds(&delegate);
    assert_eq!(after[..3], [before[1], before[2], before[0]]);
    assert_eq!(after[3..], before[3..]);
    delegate.move_column_kind(before[1], before[1]);
    assert_eq!(kinds(&delegate), after);
}

#[test]
fn heads_of_columns_and_groups() {
    let (mut delegate, store) = delegate(&[1, 3]);
    assert_eq!(
        delegate.header_cell(0, &store),
        HeaderCell::SelectAll {
            state: CheckState::Unchecked,
            only_on_hover: true,
        }
    );
    let cell = delegate.selection_cell(&store.local[0]);
    assert_eq!(cell.glyph, Some(SelectionGlyph::Kind(FluxIcon::File)));
    delegate.selected_tasks.insert(local("t0"));
    let cell = delegate.selection_cell(&store.local[1]);
    assert_eq!((cell.mark, cell.glyph), (CheckState::Unchecked, None));
    assert!(matches!(
        delegate.header_cell(0, &store),
        HeaderCell::SelectAll {
            state: CheckState::Indeterminate,
            only_on_hover: false,
        }
    ));
    assert!(delegate.toggle_sort(DownloadColumnKind::Size));
    assert_eq!(
        delegate.header_cell(2, &store),
        HeaderCell::Title {
            label: text("Size"),
            arrow: Some(FluxIcon::ArrowDown),
            right_aligned: true,
            sorts: true,
        }
    );
    assert_eq!(delegate.header_cell(99, &store), HeaderCell::Blank);
    assert_eq!(delegate.column(0).map(|frame| frame.width), Some(36_000));
    assert_eq!(delegate.column(99), None);
    delegate.layout.set_viewport_width(1_400_000);
    let frame = delegate.column(1).expect("file names");
    assert_eq!((frame.key, frame.max_width), ("file_name", 1_600_000));
    assert_eq!(delegate.layout.applied_file_width, frame.width);
    let frame = delegate.column(2).expect("size");
    assert_eq!((frame.label.as_str(), frame.max_width), ("Size", 480_000));

    let mut store = store_of(&[3, 1]);
    store.local[0].group_id = text("g");
    store.local[1].group_id = text("g");
    let mut delegate = DownloadTableDelegate::new(strings(), SCROLLBAR);
    delegate.set_prefs(group_by(ViewGroupBy::Group));
    delegate.refresh_view(&store);
    let head = delegate.group_header(0, &store).expect("header");
    assert_eq!((head.label.as_str(), head.count.as_str()), ("g", "2"));
    assert_eq!(head.progress.as_deref(), Some("1/2"));
    assert_eq!(head.icon, FluxIcon::ChevronDown);
    assert_eq!(delegate.group_header(1, &store), None);
}

#[test]
fn densities_of_equal_lines_still_differ() {
    let (mut delegate, store) = delegate(&[1]);
    assert_eq!(delegate.row_height(), 36_000);
    let mut prefs = ViewPrefs::default();
    prefs.density.row_height = 28_000;
    delegate.set_prefs(prefs);
    assert!(delegate.view_dirty);
    assert!(delegate.refresh_view(&store));
    assert_eq!(delegate.row_height(), 28_000);
}

#[test]
fn remote_rows_name_remote_places() {
    let mut store = store_of(&[1]);
    let mut remote = task("r", 1);
    remote.key = RowKey::Remote(text("r"));
    remote.source = TaskSource::Remote;
    store.replace_remote(vec![remote]);
    let mut delegate = DownloadTableDelegate::new(strings(), SCROLLBAR);
    delegate.refresh_view(&store);
    assert_eq!(
        delegate.visible_task_keys(&store),
        [local("t0"), RowKey::Remote(text("r"))]
    );
    delegate.select_all_tasks(&store);
    assert_eq!(delegate.selection_summary(&store).count, 2);
}
