//! Progress windows, the queue manager, lists and the status bar.

use fluxdown::clock::Duration;
use fluxdown::context_menu::DownloadsCommand;
use fluxdown::controls::{
    activity_button, button, check_mark, choice_chip, kind_icon, loading_button,
    navigation_button, progress_bar_color, progress_track_color, sidebar_navigation_button,
    status_color, toolbar_action_button, ButtonPalette, ButtonVariant, CheckState, ColorRole,
    FluxIcon, Tint,
};
use fluxdown::power::ShutdownStatus;
use fluxdown::preferences::{PrefValue, Preferences};
use fluxdown::progress_page::{
    completed_panel, format_elapsed, part_rows, progress_panel, window_content, AfterSuccess,
    PageError, PageEvent, ProgressWindowEvent, ProgressWindowView, Segment, TaskRuntime,
    WindowContent,
};
use fluxdown::progress_window::{
    progress_request, ProgressEvent, ProgressRequest, ProgressWindowEffect, ProgressWindowPrefs,
    ProgressWindowTracker, ProgressWindows, COMPLETION_WINDOW_PREF, PROGRESS_WINDOW_PREF,
};
use fluxdown::queue_manager::{
    day_rows, format_time, minute_choices, parse_int, parse_time, queue_footer, queue_label,
    time_field, toggle_day_bit, QueueCommand, QueueDto, QueueError, QueueEvent, QueueForm,
    QueueManagerView, QueueStrings, ScheduleSlot,
};
use fluxdown::status_bar::{
    config_patch, format_countdown, kb_to_bytes, mb_to_bytes, minutes_to_duration,
    patch_failure, prompt_number, shown_rate, shutdown_control, speed_limit, speed_limit_menu, status_bar, ticker_continues,
    ShutdownControl, ShutdownStrings,
};
use fluxdown::subscription::{
    format_unix, status_item, subscription_status, unix_text, update_failed, ListFormat, SubscriptionKind,
    SubscriptionStrings, TextareaSlot,
};
use fluxdown::tasks::{DownloadTaskView, GroupFacts, RowKey, TaskKind, TaskSource, TaskState};

const ON: ProgressWindowPrefs = ProgressWindowPrefs {
    progress: true,
    completion: true,
};

fn text(s: &str) -> String {
    s.to_owned()
}

#[test]
fn unarmed_tasks_never_open_windows() {
    let mut tracker = ProgressWindowTracker::default();
    assert_eq!(tracker.observe("t", 1, false, ON), None);
    assert_eq!(tracker.observe("t", 3, false, ON), None);
}

#[test]
fn armed_task_opens_once_when_it_becomes_active() {
    let mut tracker = ProgressWindowTracker::default();
    tracker.arm("t");
    assert_eq!(tracker.observe("t", 0, false, ON), None);
    assert!(tracker.is_armed("t"));
    assert_eq!(
        tracker.observe("t", 5, false, ON),
        Some(ProgressWindowEffect::OpenProgress)
    );
    assert!(!tracker.is_armed("t"));
    assert_eq!(tracker.observe("t", 1, true, ON), None);
}

#[test]
fn open_window_turns_into_completion_view_or_closes() {
    let mut tracker = ProgressWindowTracker::default();
    tracker.arm("a");
    tracker.observe("a", 1, false, ON);
    assert_eq!(tracker.observe("a", 3, true, ON), None);

    tracker.arm("b");
    tracker.observe("b", 1, false, ON);
    tracker.set_completion_override("b", false);
    assert_eq!(
        tracker.observe("b", 3, true, ON),
        Some(ProgressWindowEffect::Close)
    );
}

#[test]
fn closed_progress_window_still_gets_one_completion_window() {
    let mut tracker = ProgressWindowTracker::default();
    tracker.arm("t");
    tracker.observe("t", 1, false, ON);
    assert_eq!(
        tracker.observe("t", 3, false, ON),
        Some(ProgressWindowEffect::OpenCompletion)
    );
    assert_eq!(tracker.observe("t", 3, false, ON), None);
}

#[test]
fn prefs_gate_each_window_independently() {
    let progress_off = ProgressWindowPrefs {
        progress: false,
        completion: true,
    };
    let mut tracker = ProgressWindowTracker::default();
    tracker.arm("t");
    assert_eq!(tracker.observe("t", 1, false, progress_off), None);
    assert_eq!(
        tracker.observe("t", 3, false, progress_off),
        Some(ProgressWindowEffect::OpenCompletion)
    );

    let completion_off = ProgressWindowPrefs {
        progress: true,
        completion: false,
    };
    tracker.arm("u");
    tracker.observe("u", 1, false, completion_off);
    assert_eq!(tracker.observe("u", 3, false, completion_off), None);
}

#[test]
fn instant_completion_counts_as_user_started() {
    let mut tracker = ProgressWindowTracker::default();
    tracker.arm("t");
    assert_eq!(
        tracker.observe("t", 3, false, ON),
        Some(ProgressWindowEffect::OpenCompletion)
    );
}

#[test]
fn failure_before_start_drops_the_intent() {
    let mut tracker = ProgressWindowTracker::default();
    tracker.arm("t");
    tracker.observe("t", 4, false, ON);
    assert_eq!(tracker.observe("t", 1, false, ON), None);
}

#[test]
fn missing_or_invalid_prefs_default_to_enabled() {
    let mut values = Preferences::new();
    values
        .entries
        .push((text(PROGRESS_WINDOW_PREF), PrefValue::Bool(false)));
    values
        .entries
        .push((text(COMPLETION_WINDOW_PREF), PrefValue::Text(text("x"))));
    let prefs = ProgressWindowPrefs::from_preferences(&values);
    assert!(!prefs.progress);
    assert!(prefs.completion);
    assert_eq!(
        ProgressWindowPrefs::from_preferences(&Preferences::new()),
        ProgressWindowPrefs::default()
    );
}

#[test]
fn forgotten_tasks_lose_their_start_and_their_choice() {
    let mut tracker = ProgressWindowTracker::default();
    tracker.arm("t");
    tracker.set_completion_override("t", false);
    assert!(!tracker.show_completion("t", ON));
    tracker.forget("t");
    assert!(tracker.show_completion("t", ON));
    assert_eq!(tracker.observe("t", 1, false, ON), None);
}

#[test]
fn the_interface_waits_for_starts_that_wait() {
    let mut windows = ProgressWindows::new();
    let step = windows.user_started("t", Some(0), false, ON);
    assert!(step.hold && !step.release && step.effect.is_none());
    let step = windows.observe("t", 5, false, ON);
    assert_eq!(step.effect, Some(ProgressWindowEffect::OpenProgress));
    assert!(step.release && !step.hold);
    let step = windows.user_started("u", Some(1), false, ON);
    assert!(!step.hold);
    assert_eq!(step.effect, Some(ProgressWindowEffect::OpenProgress));
    let step = windows.user_started("v", None, false, ON);
    assert!(step.hold && !step.release);
    let step = windows.user_started("v", None, false, ON);
    assert!(step.hold && step.release);
    assert!(windows.forget("v"));
    assert!(!windows.forget("v"));
}

#[test]
fn events_are_turned_into_requests() {
    assert_eq!(
        progress_request(&ProgressEvent::TaskStatus {
            task_id: text("t"),
            status: 3
        }),
        ProgressRequest::Observe {
            task_id: text("t"),
            status: 3
        }
    );
    let started = |ids: &[&str]| ProgressEvent::CaptureTasksStarted {
        task_ids: ids.iter().map(|id| text(id)).collect(),
    };
    assert_eq!(
        progress_request(&started(&["a"])),
        ProgressRequest::UserStarted { task_id: text("a") }
    );
    assert_eq!(progress_request(&started(&["a", "b"])), ProgressRequest::Nothing);
    assert_eq!(
        progress_request(&ProgressEvent::TaskDeleted { task_id: text("t") }),
        ProgressRequest::Forget { task_id: text("t") }
    );
    assert_eq!(progress_request(&ProgressEvent::TasksReplaced), ProgressRequest::ObserveAll);
    assert_eq!(progress_request(&ProgressEvent::Other), ProgressRequest::Nothing);
}

#[test]
fn elapsed_switches_to_hours_past_sixty_minutes() {
    assert_eq!(format_elapsed(59), "0:59");
    assert_eq!(format_elapsed(201), "3:21");
    assert_eq!(format_elapsed(3_725), "1:02:05");
}

fn row(state: TaskState) -> DownloadTaskView {
    DownloadTaskView {
        key: RowKey::Local(text("t")),
        source: TaskSource::Local,
        state,
        kind: TaskKind::Video,
        name: text("film.mp4"),
        url: text("https://h/film.mp4"),
        site: text("h"),
        queue_id: text("main"),
        group_id: String::new(),
        from_device: String::new(),
        error_message: text("no space"),
        boosted: false,
        metadata_pending: false,
        size_bytes: 10,
        size_text: text("10 B"),
        downloaded_text: text("4 B"),
        speed_bytes_per_second: Some(2),
        speed_text: text("2 B"),
        eta_seconds: Some(86_401),
        eta_text: text("long"),
        created_at_secs: 100,
        created_text: text("then"),
        completed_at_secs: 301,
        progress_label: text("40%"),
        save_dir: text("/films"),
        share_url: text("https://share"),
        file_missing: false,
        protocol_label: text("HTTP"),
        is_bt: false,
        active_transfers: Some(3),
        runtime_connected: true,
        connected_peers: None,
        facts: GroupFacts {
            state_key: text("k"),
            state_label: text("State"),
            state_rank: 0,
            date_key: text("d"),
            date_label: text("D"),
            date_order: 0,
            category_id: text("c"),
            source_site: text("h"),
            unknown_site: text("?"),
        },
        rank: 0,
        accepted_by: vec![text("all")],
    }
}

fn segment(index: i32, start: i64, end: i64, downloaded: i64, active: Option<bool>) -> Segment {
    Segment {
        index,
        start_byte: start,
        end_byte: end,
        downloaded_bytes: downloaded,
        active,
    }
}

fn runtime() -> TaskRuntime {
    TaskRuntime {
        parallelism_limit: Some(8),
        connected_peers: Some(5),
        segments: vec![
            segment(1, 10, 19, 4, Some(true)),
            segment(0, 0, 9, 12, None),
            segment(2, 20, 10, -3, None),
        ],
    }
}

#[test]
fn progress_panel_shows_what_is_known() {
    let panel = progress_panel(&row(TaskState::Downloading), &Some(runtime()));
    assert_eq!(panel.meta, "HTTP · 4 B / 10 B");
    assert_eq!(panel.speed, "2 B/s");
    assert!(panel.speed_emphasized && panel.can_pause);
    assert_eq!(panel.remaining, "—");
    assert_eq!(panel.connections_label, "detailActiveTransfers");
    assert_eq!(panel.connections, "3 / 8");
    assert_eq!(panel.segments, Some(3));
    assert_eq!(panel.failure, None);

    let mut torrent = row(TaskState::Downloading);
    torrent.is_bt = true;
    let panel = progress_panel(&torrent, &Some(runtime()));
    assert_eq!(panel.connections_label, "detailConnectedPeers");
    assert_eq!(panel.connections, "5");
    assert_eq!(panel.segments, None);

    let panel = progress_panel(&row(TaskState::Failed), &None);
    assert_eq!((panel.speed.as_str(), panel.connections.as_str()), ("—", "—"));
    assert_eq!(panel.failure.as_deref(), Some("no space"));
    assert!(!panel.can_pause);
}

#[test]
fn parts_are_listed_by_number() {
    let rows = part_rows(&runtime().segments, true);
    let summary: Vec<(&str, &str, u64, u64, bool)> = rows
        .iter()
        .map(|row| {
            (
                row.label.as_str(),
                row.status_key,
                row.downloaded,
                row.size,
                row.active,
            )
        })
        .collect();
    assert_eq!(
        summary,
        vec![
            ("#1", "statusCompleted", 12, 10, false),
            ("#2", "statusDownloading", 4, 10, true),
            ("#3", "progressWindowPartWaiting", 0, 0, false),
        ]
    );
    let rows = part_rows(&runtime().segments, false);
    assert_eq!(rows[1].status_key, "statusPaused");
    assert!(!rows[1].active);
}

#[test]
fn completed_panel_tells_size_duration_and_loss() {
    let panel = completed_panel(&row(TaskState::Completed));
    assert_eq!(panel.size, "10 B");
    assert_eq!(panel.elapsed.as_deref(), Some("3:21"));
    assert_eq!(panel.meta("took"), "10 B · took 3:21");
    assert_eq!(panel.color, ColorRole::Success);
    assert_eq!(panel.headline, "downloadCompleted");
    assert_eq!(panel.badge, FluxIcon::Check);
    let mut lost = row(TaskState::Completed);
    lost.file_missing = true;
    lost.size_bytes = 0;
    lost.completed_at_secs = 100;
    let panel = completed_panel(&lost);
    assert_eq!(panel.size, "4 B");
    assert_eq!(panel.elapsed, None);
    assert_eq!(panel.meta("took"), "4 B");
    assert_eq!(panel.headline, "statusFileMissing");
}

#[test]
fn titles_show_progress_until_done() {
    let view = ProgressWindowView::new(text("t"), true);
    assert_eq!(view.task_id(), "t");
    assert_eq!(view.title(Some(&row(TaskState::Paused))).as_deref(), Some("40% film.mp4"));
    assert_eq!(view.title(Some(&row(TaskState::Completed))).as_deref(), Some("film.mp4"));
    let mut unnamed = row(TaskState::Paused);
    unnamed.name = String::new();
    assert_eq!(view.title(Some(&unnamed)), None);
    assert_eq!(view.title(None), None);
    assert_eq!(window_content(Some(TaskState::Completed)), WindowContent::Completed);
    assert_eq!(window_content(Some(TaskState::Failed)), WindowContent::Progress);
    assert_eq!(window_content(None), WindowContent::Empty);
}

#[test]
fn windows_close_once() {
    let mut view = ProgressWindowView::new(text("t"), true);
    assert_eq!(view.replace_snapshot(true, true, None), None);
    let deleted = PageEvent::TaskDeleted { task_id: text("t") };
    let other = PageEvent::TaskDeleted { task_id: text("u") };
    assert_eq!(view.apply_event(&other, false, true, None), None);
    assert_eq!(
        view.apply_event(&deleted, true, false, None),
        Some(ProgressWindowEvent::Close)
    );
    assert_eq!(view.apply_event(&deleted, true, false, None), None);
    assert_eq!(view.command_done(false, AfterSuccess::HandOff), None);

    let mut view = ProgressWindowView::new(text("t"), true);
    assert_eq!(
        view.replace_snapshot(false, false, None),
        Some(ProgressWindowEvent::Close)
    );
    assert_eq!(view.last_error, Some(PageError::Disconnected));
}

#[test]
fn commands_of_the_window_follow_the_state() {
    let mut view = ProgressWindowView::new(text("t"), true);
    assert_eq!(
        view.toggle_pause(Some(TaskState::Pending)),
        Some(DownloadsCommand::Pause { task_id: text("t") })
    );
    assert_eq!(
        view.toggle_pause(Some(TaskState::Failed)),
        Some(DownloadsCommand::Resume { task_id: text("t") })
    );
    assert_eq!(view.toggle_pause(None), None);
    assert_eq!(view.stop().1, AfterSuccess::Close);
    assert_eq!(view.open_file().1, AfterSuccess::HandOff);
    assert_eq!(
        view.show_in_folder().0,
        DownloadsCommand::RevealTask { task_id: text("t") }
    );
    assert_eq!(view.command_done(true, AfterSuccess::Close), None);
    assert_eq!(view.last_error, Some(PageError::ActionFailed));
    assert_eq!(
        view.command_done(false, AfterSuccess::HandOff),
        Some(ProgressWindowEvent::HandedOff)
    );
    assert_eq!(view.command_done(false, AfterSuccess::Close), None);
    assert_eq!(
        view.toggle_show_completion(false),
        ProgressWindowEvent::ShowCompletionChanged(false)
    );
    assert!(view.set_show_completion(true));
    assert!(!view.set_show_completion(true));
    assert_eq!(view.parts_toggle().label_key, "progressWindowPartsShow");
    view.toggle_parts();
    assert!(view.parts_expanded);
    assert_eq!(view.parts_toggle().icon, FluxIcon::ChevronDown);
    view.mark_stale();
    assert_eq!(view.last_error, Some(PageError::Disconnected));
}

#[test]
fn parse_time_round_trips_wire_format() {
    assert_eq!(parse_time("08:30"), Some(510));
    assert_eq!(parse_time("9:05"), Some(545));
    assert_eq!(format_time(parse_time("9:05")), "09:05");
    assert_eq!(format_time(Some(23 * 60 + 59)), "23:59");
    assert_eq!(format_time(None), "");
}

#[test]
fn parse_time_treats_empty_or_invalid_as_unset() {
    assert_eq!(parse_time(""), None);
    assert_eq!(parse_time("24:00"), None);
    assert_eq!(parse_time("12:60"), None);
    assert_eq!(parse_time("12"), None);
    assert_eq!(parse_time("ab:cd"), None);
}

#[test]
fn minute_choices_keep_off_step_current_value_in_order() {
    assert_eq!(minute_choices(0).len(), 12);
    let choices = minute_choices(7);
    assert_eq!(choices.len(), 13);
    assert_eq!(&choices[..3], &[0, 5, 7]);
}

#[test]
fn toggle_day_bit_sets_and_clears_only_targeted_bit() {
    assert_eq!(toggle_day_bit(0b111_1111, 0b1, false), 0b111_1110);
    assert_eq!(toggle_day_bit(0, 0b100_0000, true), 0b100_0000);
    assert_eq!(toggle_day_bit(0b1, 0b1, true), 0b1);
}

#[test]
fn every_time_of_day_round_trips() {
    for minutes in 0..1440 {
        assert_eq!(parse_time(&format_time(Some(minutes))), Some(minutes));
    }
    assert_eq!(parse_time(" 07:08 "), Some(428));
    assert_eq!(parse_time("-1:00"), None);
    assert_eq!(parse_time("1:2:3"), None);
    assert_eq!(minute_choices(59).last(), Some(&59));
    assert_eq!(minute_choices(77).last(), Some(&77));
}

fn queue(id: &str, position: i64, running: bool) -> QueueDto {
    QueueDto {
        queue_id: text(id),
        name: format!("Queue {id}"),
        is_running: running,
        position,
        speed_limit_kbps: 100,
        upload_limit_kbps: -1,
        max_concurrent: 3,
        default_save_dir: text("/q"),
        default_segments: 4,
        default_user_agent: text("UA"),
        schedule_enabled: true,
        schedule_start: text("08:00"),
        schedule_stop: text("bad"),
        schedule_days: 127,
    }
}

#[test]
fn queues_are_sorted_and_the_edited_one_follows_reports() {
    let mut view = QueueManagerView::new();
    assert!(view.stale);
    view.replace_snapshot(&vec![queue("x", 2, true), queue("main", 1, true), queue("y", 2, false)]);
    let ids: Vec<&str> = view.queues.iter().map(|q| q.queue_id.as_str()).collect();
    assert_eq!(ids, ["main", "x", "y"]);
    view.ensure_form();
    assert_eq!(view.form.as_ref().and_then(|f| f.queue_id.as_deref()), Some("main"));
    view.select_queue("x");
    view.select_queue("missing");
    let form = view.form.as_ref().expect("form");
    assert_eq!(form.upload_limit, "-1");
    assert_eq!(form.schedule_start, Some(480));
    assert_eq!(form.schedule_stop, None);
    assert!(form.is_running);
    view.apply_event(&QueueEvent::QueuesChanged {
        queues: vec![queue("x", 0, false)],
    });
    assert!(!view.form.as_ref().expect("form").is_running);
    view.apply_event(&QueueEvent::ConnectionChanged { connected: false });
    assert!(view.stale);
    view.apply_event(&QueueEvent::SnapshotReplaced { queues: Vec::new() });
    assert!(view.form.is_none() && !view.stale);
    view.mark_stale();
    assert!(view.stale);
}

#[test]
fn saving_requires_a_name_and_sends_what_was_typed() {
    let mut view = QueueManagerView::new();
    assert!(view.save().is_empty());
    view.new_queue();
    assert!(view.save().is_empty());
    assert_eq!(view.error, Some(QueueError::NameRequired));
    assert_eq!(QueueError::NameRequired.key(), "queueNameRequired");
    if let Some(form) = view.form.as_mut() {
        form.name = text("  Night ");
        form.speed_limit = text(" 12 ");
        form.max_concurrent = text("4294967297");
        form.segments = text("many");
    }
    let commands = view.save();
    match &commands[..] {
        [QueueCommand::Create { fields }] => {
            assert_eq!(fields.name, "Night");
            assert_eq!(fields.speed_limit_kbps, 12);
            assert_eq!(fields.max_concurrent, 1);
            assert_eq!(fields.default_segments, 0);
        }
        other => panic!("{other:?}"),
    }
    assert!(view.form.is_none());

    view.replace_snapshot(&vec![queue("x", 0, true)]);
    view.select_queue("x");
    view.set_schedule_time(ScheduleSlot::Stop, Some(61));
    view.set_schedule_day(1, false);
    view.set_schedule_enabled(false);
    match &view.save()[..] {
        [QueueCommand::Update { queue_id, .. }, QueueCommand::Schedule { enabled, start_time, stop_time, days, .. }] =>
        {
            assert_eq!(queue_id, "x");
            assert!(!enabled);
            assert_eq!((start_time.as_str(), stop_time.as_str()), ("08:00", "01:01"));
            assert_eq!(*days, 126);
        }
        other => panic!("{other:?}"),
    }
    assert!(matches!(view.toggle_running(), Some(QueueCommand::Stop { .. })));
    assert_eq!(
        view.confirm_delete("Delete {name}?"),
        Some((text("x"), text("Delete Queue x?")))
    );
    assert!(matches!(view.delete(text("x")), QueueCommand::Delete { .. }));
    assert!(view.form.is_none() && view.toggle_running().is_none());
    view.command_failed();
    assert_eq!(view.error, Some(QueueError::ActionFailed));
    assert_eq!(parse_int(" -7 "), -7);
    assert_eq!(parse_int("9223372036854775808"), 0);
}

#[test]
fn folders_are_asked_for_once_at_a_time() {
    let mut view = QueueManagerView::new();
    view.new_queue();
    assert!(view.begin_pick_dir());
    assert!(!view.begin_pick_dir());
    view.end_pick_dir(Some(text("/picked")));
    assert_eq!(view.form.as_ref().map(|f| f.save_dir.as_str()), Some("/picked"));
    assert!(view.begin_pick_dir());
    view.end_pick_dir(None);
    assert_eq!(view.form.as_ref().map(|f| f.save_dir.as_str()), Some("/picked"));
}

fn queue_strings() -> QueueStrings {
    QueueStrings {
        main_queue: text("Main"),
        later_queue: text("Later"),
        create_queue: text("New"),
        running: text("running"),
        stopped: text("stopped"),
        time_unset: text("never"),
    }
}

#[test]
fn queue_list_header_and_footer() {
    let strings = queue_strings();
    let mut view = QueueManagerView::new();
    view.replace_snapshot(&vec![queue("main", 0, true), queue("x", 1, false)]);
    view.select_queue("x");
    let rows = view.list_rows(&strings);
    assert_eq!(rows[0].label, "Main");
    assert!(rows[1].selected && !rows[0].selected && !rows[1].running);
    assert_eq!(queue_label(&queue("later", 0, true), &strings), "Later");
    let form = view.form.as_ref().expect("form");
    let header = view.header(form, &strings);
    assert_eq!((header.title.as_str(), header.badge.as_deref()), ("Queue x", Some("stopped")));
    let footer = queue_footer(form);
    assert!(footer.can_delete && footer.can_toggle && !footer.stops);
    assert!(!queue_footer(&QueueForm::for_queue(&queue("main", 0, true))).can_delete);

    view.new_queue();
    let rows = view.list_rows(&strings);
    assert_eq!(rows.len(), 3);
    assert_eq!((rows[2].label.as_str(), rows[2].selected), ("New", true));
    let footer = queue_footer(&QueueForm::blank());
    assert!(!footer.can_delete && !footer.can_toggle);
}

#[test]
fn time_fields_and_weekdays() {
    let field = time_field(ScheduleSlot::Start, Some(8 * 60 + 7), "never");
    assert_eq!((field.hour_label.as_str(), field.minute_label.as_str()), ("08", "07"));
    assert_eq!(field.hours.len(), 25);
    assert!(field.hours[9].checked && !field.hours[0].checked);
    assert_eq!(field.hours[1].time, Some(7));
    assert_eq!(field.minutes.len(), 13);
    assert_eq!(field.minutes[2].time, Some(487));
    let field = time_field(ScheduleSlot::Stop, None, "never");
    assert_eq!((field.hour_label.as_str(), field.minute_label.as_str()), ("never", "--"));
    assert!(!field.minute_enabled && field.hours[0].checked && field.minutes.is_empty());
    assert_eq!(field.label_key, "queueScheduleStopLabel");

    let days = day_rows("Mo,Tu,We", 0b101);
    assert_eq!(days.len(), 3);
    assert_eq!((days[2].label.as_str(), days[2].bit, days[2].checked), ("We", 4, true));
    assert!(!days[1].checked);
    let days = day_rows(&["d"; 32].join(","), i32::MIN);
    assert_eq!((days[31].bit, days[31].checked), (i32::MIN, true));
}

#[test]
fn comma_list_is_edited_one_per_line() {
    let stored = "176.123.5.89:4725,45.82.80.155:5687, 85.121.5.137:4232";
    assert_eq!(
        ListFormat::Comma.to_editor(stored),
        "176.123.5.89:4725\n45.82.80.155:5687\n85.121.5.137:4232"
    );
}

#[test]
fn comma_list_reads_legacy_line_separated_value() {
    let legacy = "1.2.3.4:4661\r\n5.6.7.8:80\n";
    assert_eq!(
        ListFormat::Comma.to_editor(legacy),
        "1.2.3.4:4661\n5.6.7.8:80"
    );
    assert_eq!(ListFormat::Comma.count(legacy), 2);
}

#[test]
fn comma_list_saves_trimmed_deduped_csv() {
    let text = " 1.2.3.4:4661 \n\nExample.org:4242\n1.2.3.4:4661\nexample.org:4242\n";
    assert_eq!(
        ListFormat::Comma.to_stored(text),
        "1.2.3.4:4661,Example.org:4242"
    );
}

#[test]
fn trailing_newline_does_not_change_stored_value() {
    for format in [ListFormat::Lines, ListFormat::Comma] {
        assert_eq!(format.to_stored("a:1\n"), format.to_stored("a:1"));
    }
}

#[test]
fn cache_counts_follow_storage_separator() {
    assert_eq!(ListFormat::Comma.count("1.1.1.1:1,2.2.2.2:2,3.3.3.3:3"), 3);
    assert_eq!(ListFormat::Lines.count("udp://a:1\n\nudp://b:2\n"), 2);
    assert_eq!(ListFormat::Comma.count(""), 0);
}

#[test]
fn lines_format_keeps_inner_text_verbatim() {
    let text = "# comment\nhttps://a.example/list.txt\n";
    assert_eq!(
        ListFormat::Lines.to_stored(text),
        "# comment\nhttps://a.example/list.txt"
    );
    assert_eq!(ListFormat::Lines.to_editor(text), text);
}

#[test]
fn stored_lists_are_stable_and_space_is_unicode_space() {
    let once = ListFormat::Comma.to_stored("a\u{3000}b,\u{a0}A,c");
    assert_eq!(once, "a,b,c");
    assert_eq!(ListFormat::Comma.to_stored(&once), once);
    assert_eq!(
        ListFormat::Comma.entries(&ListFormat::Comma.to_editor(&once)),
        ListFormat::Comma.entries(&once)
    );
    assert_eq!(ListFormat::Lines.to_stored("\u{2003}a b\u{85}"), "a b");
}

#[test]
fn text_fields_write_only_what_changes() {
    let mut slot = TextareaSlot::new(ListFormat::Comma, "a:1,b:2");
    assert_eq!(slot.text, "a:1\nb:2");
    assert_eq!(slot.edited(text("a:1\nb:2\n")), None);
    assert_eq!(slot.edited(text("a:1\nc:3\n")).as_deref(), Some("a:1,c:3"));
    assert!(!slot.sync("a:1,c:3"));
    assert_eq!(slot.text, "a:1\nc:3\n");
    assert!(slot.sync("z:9"));
    assert_eq!(slot.text, "z:9");
}

#[test]
fn subscriptions_tell_their_state() {
    let strings = SubscriptionStrings {
        status: text("{n} servers"),
        updated_at: text("updated {time}"),
        never_updated: text("never"),
        update_now: text("update"),
        updating: text("updating"),
        update_failed: text("failed"),
    };
    let kind = SubscriptionKind::Ed2kServers;
    let status = subscription_status(kind, "a:1,b:2", 5, "noon", false, false, &strings);
    assert_eq!((status.status.as_str(), status.detail.as_str()), ("2 servers", "updated noon"));
    let status = subscription_status(kind, "", 0, "", true, false, &strings);
    assert_eq!((status.detail.as_str(), status.button.as_str()), ("never", "updating"));
    let status = subscription_status(kind, "", 5, "noon", false, true, &strings);
    assert_eq!((status.detail.as_str(), status.failed), ("failed", true));
    let status = status_item(kind, "a:1", 1_700_000_000, false, false, &strings);
    assert_eq!(status.detail, format!("updated {}", format_unix(1_700_000_000)));
    assert_eq!(status_item(kind, "", 0, false, false, &strings).detail, "never");
    assert!(update_failed(None) && update_failed(Some(false)) && !update_failed(Some(true)));
    assert_eq!(kind.cache_key(), "ed2k_server_sub_cache");
    assert_eq!(kind.updated_at_key(), "ed2k_server_sub_updated_at");
    assert_eq!(SubscriptionKind::BtTrackers.text_key("UpdateNow"), "btTrackerSubUpdateNow");
    assert_eq!(SubscriptionKind::BtTrackers.action(), "btTrackerRefresh");
    assert_eq!(SubscriptionKind::BtTrackers.cache_format(), ListFormat::Lines);
}

#[test]
fn moments_are_written_as_local_minutes() {
    let shown = format_unix(1_700_000_000);
    assert_eq!(shown.len(), 16);
    assert!(shown.starts_with("2023-11-1"));
    for secs in [0, 951_782_400, 1_700_000_000, 4_107_542_399, -86_400_000_000 / 2] {
        let told = chrono::NaiveDateTime::parse_from_str(&format_unix(secs), "%Y-%m-%d %H:%M")
            .expect("date and time");
        let offset = told.and_utc().timestamp() - secs;
        assert!(-86_460 < offset && offset < 86_400);
    }
    assert_eq!(&shown[13..14], ":");
    assert_eq!(format_unix(8_210_266_876_800), "");
    assert_eq!(format_unix(-8_334_601_228_801), "");
    assert_ne!(format_unix(8_210_266_876_799), "");
    assert_ne!(format_unix(-8_334_601_228_800), "");
    assert_eq!(format_unix(253_000_000_000).len(), 16);
    assert_eq!(format_unix(-62_000_000_000).len(), 16);
    assert_eq!(format_unix(i64::MAX), "");
    assert_eq!(unix_text(None), "");
    assert_eq!(unix_text(Some(text("x"))), "x");
}

#[test]
fn mb_preset_converts_to_bytes_per_second() {
    assert_eq!(mb_to_bytes(1), 1_048_576);
    assert_eq!(mb_to_bytes(50), 52_428_800);
}

#[test]
fn kb_custom_input_converts_to_bytes_and_clamps_negative() {
    assert_eq!(kb_to_bytes(512), 524_288);
    assert_eq!(kb_to_bytes(0), 0);
    assert_eq!(kb_to_bytes(-10), 0);
}

#[test]
fn minutes_preset_converts_to_duration_and_clamps_negative() {
    assert_eq!(minutes_to_duration(5), Duration::from_secs(300));
    assert_eq!(minutes_to_duration(0), Duration::from_secs(0));
    assert_eq!(minutes_to_duration(-1), Duration::from_secs(0));
}

#[test]
fn countdown_switches_from_mm_ss_to_h_mm_ss_at_one_hour() {
    assert_eq!(format_countdown(Duration::from_secs(59)), "0:59");
    assert_eq!(format_countdown(Duration::from_secs(3599)), "59:59");
    assert_eq!(format_countdown(Duration::from_secs(3600)), "1:00:00");
    assert_eq!(format_countdown(Duration::from_secs(3661)), "1:01:01");
}

#[test]
fn speed_limits_mark_their_choice() {
    let value = speed_limit("5242880");
    let menu = speed_limit_menu(value, "5 MB", "off", false);
    assert_eq!(menu.trigger_label, "5 MB/s");
    assert!(!menu.off_checked && !menu.custom_checked);
    let checked: Vec<&str> = menu
        .presets
        .iter()
        .filter(|item| item.checked)
        .map(|item| item.label.as_str())
        .collect();
    assert_eq!(checked, ["5 MB/s"]);
    let menu = speed_limit_menu(speed_limit("7"), "7 B", "off", true);
    assert!(menu.custom_checked);
    assert_eq!(menu.desc_key, "uploadLimitDesc");
    let menu = speed_limit_menu(speed_limit("none"), "", "off", false);
    assert!(menu.off_checked && !menu.custom_checked);
    assert_eq!(menu.trigger_label, "off");
    let patch = config_patch("speed_limit_bytes", -7, 3);
    assert_eq!((patch.key.as_str(), patch.value.as_str()), ("speed_limit_bytes", "-7"));
    assert_eq!(patch.expected_revision, 3);
    assert_eq!(patch_failure(true, "too late", "failed"), "too late");
    assert_eq!(patch_failure(false, "too late", "failed"), "failed");
    assert_eq!(prompt_number(" 12 "), 12);
    assert_eq!(prompt_number("-3"), 0);
    assert_eq!(prompt_number("x"), 0);
}

#[test]
fn shutdown_control_follows_the_intention() {
    let strings = ShutdownStrings {
        countdown: text("in {time}"),
        armed_immediate: text("at once"),
        armed: text("after {m} min"),
        delay_minutes: text("{m} min"),
        immediate: text("now"),
    };
    let status = |armed: Option<u64>, left: Option<u64>| ShutdownStatus {
        armed_delay: armed.map(Duration::from_secs),
        countdown_remaining: left.map(Duration::from_secs),
    };
    let shown = |armed, left| match shutdown_control(true, status(armed, left), 1, &strings) {
        ShutdownControl::Armed { text } => text,
        other => panic!("{other:?}"),
    };
    assert_eq!(shown(Some(60), Some(65)), "in 1:05");
    assert_eq!(shown(Some(0), None), "at once");
    assert_eq!(shown(Some(125), None), "after 2 min");
    match shutdown_control(true, status(None, None), 0, &strings) {
        ShutdownControl::Menu {
            can_arm,
            hint_key,
            immediate,
            presets,
        } => {
            assert!(!can_arm);
            assert_eq!(hint_key, "shutdownNeedActiveTask");
            assert_eq!(immediate.label, "now");
            assert_eq!(immediate.delay, Duration::from_secs(0));
            assert_eq!(presets.len(), 4);
            assert_eq!(presets[3].label, "30 min");
            assert_eq!(presets[3].delay, Duration::from_secs(1800));
        }
        other => panic!("{other:?}"),
    }
    assert!(matches!(
        shutdown_control(false, status(Some(1), None), 1, &strings),
        ShutdownControl::Hidden
    ));
    assert!(ticker_continues(Some(status(Some(1), None))));
    assert!(!ticker_continues(Some(status(None, None))) && !ticker_continues(None));
    let bar = status_bar("1 KB", "0 B", Some("9 GB"), "{size} free");
    assert_eq!(bar.download, "1 KB/s");
    assert_eq!(bar.disk_free.as_deref(), Some("9 GB free"));
    assert_eq!((shown_rate(-5), shown_rate(5)), (0, 5));
}

#[test]
fn controls_take_their_colours_by_role() {
    assert_eq!(
        ButtonPalette::for_variant(ButtonVariant::Destructive).hover,
        Tint::Shifted(ColorRole::Destructive, 8)
    );
    assert_eq!(button(ButtonVariant::Secondary).disabled_opacity, 50);
    let busy = loading_button(ButtonVariant::Primary, true);
    assert!(!busy.enabled && busy.spinner);
    assert_eq!(busy.disabled_opacity, 80);
    assert!(choice_chip(true).medium && !choice_chip(false).medium);
    assert_eq!(
        sidebar_navigation_button(false).background,
        Tint::Transparent(ColorRole::NavHover)
    );
    assert!(!activity_button(true).medium);
    assert_eq!(navigation_button(true).background, Tint::Plain(ColorRole::Accent));
    assert_eq!(toolbar_action_button(true, true).opacity, 35);
    assert_eq!(
        check_mark(CheckState::Indeterminate).glyph,
        Some(FluxIcon::CheckboxMinus)
    );
    assert_eq!(check_mark(CheckState::Unchecked).glyph, None);
    assert_eq!(
        progress_bar_color(TaskState::Paused),
        Tint::Faded(ColorRole::MutedForeground, 40)
    );
    assert_eq!(progress_track_color(), Tint::Faded(ColorRole::MutedForeground, 16));
    assert_eq!(status_color(TaskState::Failed), ColorRole::Destructive);
    assert_eq!(kind_icon(TaskKind::Mobile), FluxIcon::Smartphone);
}
