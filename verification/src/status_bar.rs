//! The status bar: speeds, limits, shutting down when all is done, and free space.

use vstd::prelude::*;

use crate::clock::{h_mm_ss, hours_minutes_seconds, whole_secs, Duration};
use crate::power::ShutdownStatus;
use crate::queue_manager::{parse_int, typed_number};
use crate::text::{
    concat, decimal, decimal_int, fill, filled, i64_value, number, opt_text, parse_i64,
    padded, signed_number,
};
use crate::text_laws::law_number_is_read_back;

verus! {

/// The speed limits that are offered, in megabytes per second.
pub open spec fn speed_presets() -> Seq<i64> {
    seq![1, 5, 10, 50]
}

/// The delays of a shutdown that are offered, in minutes.
pub open spec fn shutdown_presets() -> Seq<i64> {
    seq![1, 5, 10, 30]
}

/// What is left of a countdown: minutes and seconds, with the hours in front from one hour on.
pub fn format_countdown(remaining: Duration) -> (r: String)
    ensures
        r@ == h_mm_ss(whole_secs(remaining) as nat),
{
    hours_minutes_seconds(remaining.as_secs())
}

/// Megabytes per second as bytes per second.
pub fn mb_to_bytes(mb: i64) -> (r: i64)
    requires
        i64::MIN <= mb * 1_048_576 <= i64::MAX,
    ensures
        r == mb * 1_048_576,
{
    mb * 1_048_576
}

/// Kilobytes per second as bytes per second; what is negative counts as zero.
pub fn kb_to_bytes(kb: i64) -> (r: i64)
    requires
        kb * 1024 <= i64::MAX,
    ensures
        r == if kb < 0 {
            0
        } else {
            kb * 1024
        },
{
    if kb < 0 {
        0
    } else {
        kb * 1024
    }
}

/// Minutes as a span of time; what is negative counts as zero.
pub fn minutes_to_duration(minutes: i64) -> (r: Duration)
    requires
        minutes * 60 <= u64::MAX,
    ensures
        r == Duration::of_secs(
            if minutes < 0 {
                0
            } else {
                (minutes * 60) as u64
            },
        ),
{
    if minutes < 0 {
        Duration::from_secs(0)
    } else {
        Duration::from_secs(60 * minutes as u64)
    }
}

/// The number that was typed into a dialog: zero where it is none or negative.
pub fn prompt_number(text: &str) -> (r: i64)
    ensures
        r == if typed_number(text@) < 0 {
            0
        } else {
            typed_number(text@)
        },
{
    let value: i64 = parse_int(text);
    if value < 0 {
        0
    } else {
        value
    }
}

/// A choice of a menu that sets a value.
#[derive(Debug, PartialEq, Eq)]
pub struct PresetItem {
    pub label: String,
    pub value: i64,
    pub checked: bool,
}

/// The control of a speed limit.
#[derive(Debug)]
pub struct SpeedLimitMenu {
    /// The limit in force.
    pub trigger_label: String,
    /// The first choice lifts the limit.
    pub off_checked: bool,
    pub presets: Vec<PresetItem>,
    /// Whether the limit is none of the choices.
    pub custom_checked: bool,
    /// The name of the text that explains the limit.
    pub desc_key: &'static str,
}

/// The limit that the configuration sets; none where it is no number.
pub open spec fn limit_of(config: Seq<char>) -> i64 {
    match i64_value(config) {
        Some(v) => v,
        None => 0,
    }
}

/// The limit that the configuration sets; none where it is no number.
pub fn speed_limit(config: &str) -> (r: i64)
    ensures
        r == limit_of(config@),
{
    match parse_i64(config) {
        Some(v) => v,
        None => 0,
    }
}

pub open spec fn preset_is(mb: i64, value: i64, item: PresetItem) -> bool {
    &&& item.label@ == decimal(mb as nat) + " MB/s"@
    &&& item.value == mb * 1_048_576
    &&& item.checked == (value == mb * 1_048_576)
}

/// The control of the limit `value`. `rate` is the limit as it is written.
pub fn speed_limit_menu(value: i64, rate: &str, off_label: &str, is_upload: bool) -> (r:
    SpeedLimitMenu)
    ensures
        r.trigger_label@ == if value <= 0 {
            off_label@
        } else {
            rate@ + "/s"@
        },
        r.off_checked == (value <= 0),
        r.presets@.len() == speed_presets().len(),
        forall|i: int|
            0 <= i < r.presets@.len() ==> preset_is(
                speed_presets()[i],
                value,
                #[trigger] r.presets@[i],
            ),
        r.custom_checked == (value > 0 && forall|i: int|
            0 <= i < speed_presets().len() ==> value != #[trigger] speed_presets()[i] * 1_048_576),
        r.desc_key@ == if is_upload {
            "uploadLimitDesc"@
        } else {
            "speedLimitDesc"@
        },
{
    let sizes: [i64; 4] = [1, 5, 10, 50];
    assert(sizes@ =~= speed_presets());
    let mut presets: Vec<PresetItem> = Vec::new();
    let mut hit: bool = value <= 0;
    let mut i: usize = 0;
    while i < 4
        invariant
            i <= 4,
            sizes@ == speed_presets(),
            presets@.len() == i,
            forall|k: int|
                0 <= k < i ==> preset_is(speed_presets()[k], value, #[trigger] presets@[k]),
            hit == (value <= 0 || exists|k: int|
                0 <= k < i && value == #[trigger] speed_presets()[k] * 1_048_576),
        decreases 4 - i,
    {
        let mb: i64 = sizes[i];
        assert(mb == speed_presets()[i as int]);
        assert(0 < mb <= 50);
        let bytes: i64 = mb_to_bytes(mb);
        if bytes == value {
            assert(value == speed_presets()[i as int] * 1_048_576);
            hit = true;
        }
        let digits = number(mb as u64);
        presets.push(
            PresetItem {
                label: concat(digits.as_str(), " MB/s"),
                value: bytes,
                checked: bytes == value,
            },
        );
        i += 1;
    }
    SpeedLimitMenu {
        trigger_label: if value <= 0 {
            off_label.to_owned()
        } else {
            concat(rate, "/s")
        },
        off_checked: value <= 0,
        presets,
        custom_checked: !hit,
        desc_key: if is_upload {
            "uploadLimitDesc"
        } else {
            "speedLimitDesc"
        },
    }
}

/// Exactly one of the choices for a limit is checked: none, one of those offered, or a custom
/// one.
pub proof fn law_one_limit_is_checked(value: i64)
    ensures
        ({
            let off = value <= 0;
            let first = value == 1_048_576;
            let second = value == 5 * 1_048_576;
            let third = value == 10 * 1_048_576;
            let fourth = value == 50 * 1_048_576;
            let custom = value > 0 && forall|i: int|
                0 <= i < speed_presets().len() ==> value != #[trigger] speed_presets()[i]
                    * 1_048_576;
            (if off { 1int } else { 0 }) + (if first { 1int } else { 0 }) + (if second {
                1int
            } else {
                0
            }) + (if third { 1int } else { 0 }) + (if fourth { 1int } else { 0 }) + (if custom {
                1int
            } else {
                0
            }) == 1
        }),
{
    assert(speed_presets()[0] == 1 && speed_presets()[1] == 5 && speed_presets()[2] == 10
        && speed_presets()[3] == 50);
}

/// The words of the shutdown control. Two are templates: for what is left of the countdown, and
/// for minutes.
#[derive(Debug)]
pub struct ShutdownStrings {
    /// Has a place for `time`.
    pub countdown: String,
    pub armed_immediate: String,
    /// Has a place for `m`.
    pub armed: String,
    /// Has a place for `m`.
    pub delay_minutes: String,
    pub immediate: String,
}

/// A change of one setting of the service, made against the settings as they were last seen.
#[derive(Debug, PartialEq, Eq)]
pub struct ConfigPatch {
    pub key: String,
    pub value: String,
    pub expected_revision: u64,
}

/// The change that sets a limit.
pub fn config_patch(key: &str, value: i64, revision: u64) -> (r: ConfigPatch)
    ensures
        r.key@ == key@,
        r.value@ == decimal_int(value as int),
        r.expected_revision == revision,
{
    ConfigPatch { key: key.to_owned(), value: signed_number(value), expected_revision: revision }
}

/// What is said of a change that failed: that another change came first, or that the action
/// failed.
pub fn patch_failure<'a>(conflict: bool, conflict_text: &'a str, action_failed: &'a str) -> (r:
    &'a str)
    ensures
        r@ == if conflict {
            conflict_text@
        } else {
            action_failed@
        },
{
    if conflict {
        conflict_text
    } else {
        action_failed
    }
}

/// A choice of the shutdown control.
#[derive(Debug)]
pub struct DelayItem {
    pub label: String,
    pub delay: Duration,
}

/// The control of shutting down when all is done.
#[derive(Debug)]
pub enum ShutdownControl {
    /// Shutting down cannot be asked for here.
    Hidden,
    /// It was asked for: what it waits for, and a click gives it up.
    Armed { text: String },
    /// It can be asked for, while a task is active: at once, after one of the delays, or after
    /// another.
    Menu {
        can_arm: bool,
        /// The name of the text under the pointer.
        hint_key: &'static str,
        immediate: DelayItem,
        presets: Vec<DelayItem>,
    },
}

/// What is said of a shutdown that was asked for.
pub open spec fn armed_text(status: ShutdownStatus, strings: ShutdownStrings) -> Option<Seq<char>> {
    match status.countdown_remaining {
        Some(remaining) => Some(
            filled(strings.countdown@, "time"@, h_mm_ss(whole_secs(remaining) as nat)),
        ),
        None => match status.armed_delay {
            Some(delay) => Some(
                if delay.nanos == 0 {
                    strings.armed_immediate@
                } else {
                    filled(strings.armed@, "m"@, decimal((whole_secs(delay) / 60) as nat))
                },
            ),
            None => None,
        },
    }
}

pub open spec fn delay_is(minutes: i64, strings: ShutdownStrings, item: DelayItem) -> bool {
    &&& item.label@ == filled(strings.delay_minutes@, "m"@, decimal(minutes as nat))
    &&& item.delay == Duration::of_secs((minutes * 60) as u64)
}

/// What is said of a shutdown that was asked for.
fn shutdown_text(status: ShutdownStatus, strings: &ShutdownStrings) -> (r: Option<String>)
    ensures
        opt_text(r) == armed_text(status, *strings),
{
    match status.countdown_remaining {
        Some(remaining) => {
            let time = format_countdown(remaining);
            Some(fill(strings.countdown.as_str(), "time", time.as_str()))
        },
        None => match status.armed_delay {
            Some(delay) => if delay.nanos == 0 {
                Some(strings.armed_immediate.clone())
            } else {
                let minutes = number(delay.as_secs() / 60);
                Some(fill(strings.armed.as_str(), "m", minutes.as_str()))
            },
            None => None,
        },
    }
}

/// The control of shutting down when all is done.
pub fn shutdown_control(
    available: bool,
    status: ShutdownStatus,
    active_tasks: u32,
    strings: &ShutdownStrings,
) -> (r: ShutdownControl)
    ensures
        match r {
            ShutdownControl::Hidden => !available,
            ShutdownControl::Armed { text } => available && armed_text(status, *strings) == Some(
                text@,
            ),
            ShutdownControl::Menu { can_arm, hint_key, immediate, presets } => {
                &&& available
                &&& armed_text(status, *strings) is None
                &&& can_arm == (active_tasks > 0)
                &&& hint_key@ == if can_arm {
                    "shutdownTitle"@
                } else {
                    "shutdownNeedActiveTask"@
                }
                &&& immediate.label@ == strings.immediate@
                &&& immediate.delay == Duration::of_secs(0)
                &&& presets@.len() == shutdown_presets().len()
                &&& forall|i: int|
                    0 <= i < presets@.len() ==> delay_is(
                        shutdown_presets()[i],
                        *strings,
                        #[trigger] presets@[i],
                    )
            },
        },
{
    if !available {
        return ShutdownControl::Hidden;
    }
    if let Some(text) = shutdown_text(status, strings) {
        return ShutdownControl::Armed { text };
    }
    let minutes: [i64; 4] = [1, 5, 10, 30];
    assert(minutes@ =~= shutdown_presets());
    let mut presets: Vec<DelayItem> = Vec::new();
    let mut i: usize = 0;
    while i < 4
        invariant
            i <= 4,
            minutes@ == shutdown_presets(),
            presets@.len() == i,
            forall|k: int|
                0 <= k < i ==> delay_is(shutdown_presets()[k], *strings, #[trigger] presets@[k]),
        decreases 4 - i,
    {
        let m: i64 = minutes[i];
        assert(m == shutdown_presets()[i as int]);
        assert(0 < m <= 30);
        let digits = number(m as u64);
        presets.push(
            DelayItem {
                label: fill(strings.delay_minutes.as_str(), "m", digits.as_str()),
                delay: minutes_to_duration(m),
            },
        );
        i += 1;
    }
    let can_arm: bool = active_tasks > 0;
    ShutdownControl::Menu {
        can_arm,
        hint_key: if can_arm {
            "shutdownTitle"
        } else {
            "shutdownNeedActiveTask"
        },
        immediate: DelayItem { label: strings.immediate.clone(), delay: Duration::from_secs(0) },
        presets,
    }
}

/// Whether the countdown is to be shown anew after a second: as long as a shutdown is asked for.
pub fn ticker_continues(status: Option<ShutdownStatus>) -> (r: bool)
    ensures
        r == (status is Some && (status->0).armed_delay is Some),
{
    match status {
        Some(status) => status.armed_delay.is_some(),
        None => false,
    }
}

/// What the status bar says.
#[derive(Debug, PartialEq, Eq)]
pub struct StatusBar {
    pub download: String,
    pub upload: String,
    pub disk_free: Option<String>,
}

/// The rate that is shown: what is negative counts as zero.
pub fn shown_rate(bps: i64) -> (r: u64)
    ensures
        r == if bps < 0 {
            0
        } else {
            bps as int
        },
{
    if bps < 0 {
        0
    } else {
        bps as u64
    }
}

/// What the status bar says. The rates and the free space come as they are written; the last is
/// a template with a place for `size`.
pub fn status_bar(download: &str, upload: &str, free: Option<&str>, free_label: &str) -> (r: StatusBar)
    ensures
        r.download@ == download@ + "/s"@,
        r.upload@ == upload@ + "/s"@,
        opt_text(r.disk_free) == match free {
            Some(size) => Some(filled(free_label@, "size"@, size@)),
            None => None,
        },
{
    StatusBar {
        download: concat(download, "/s"),
        upload: concat(upload, "/s"),
        disk_free: match free {
            Some(size) => Some(fill(free_label, "size", size)),
            None => None,
        },
    }
}

/// Choosing one of the limits that are offered sets exactly that many megabytes a second, and the
/// choice is the one that is ticked afterwards.
pub proof fn law_chosen_limit_is_ticked(
    value: i64,
    rate: &str,
    off_label: &str,
    is_upload: bool,
    menu: SpeedLimitMenu,
    i: int,
    after: SpeedLimitMenu,
)
    requires
        call_ensures(speed_limit_menu, (value, rate, off_label, is_upload), menu),
        0 <= i < menu.presets@.len(),
        call_ensures(
            speed_limit_menu,
            (menu.presets@[i].value, rate, off_label, is_upload),
            after,
        ),
    ensures
        after.presets@[i].checked,
        !after.off_checked,
        !after.custom_checked,
        after.trigger_label@ == rate@ + "/s"@,
        menu.presets@[i].value % 1_048_576 == 0,
        menu.presets@[i].label@ == decimal((menu.presets@[i].value / 1_048_576) as nat) + " MB/s"@,
        forall|j: int|
            0 <= j < after.presets@.len() && j != i ==> !(#[trigger] after.presets@[j]).checked,
{
    assert(preset_is(speed_presets()[i], value, menu.presets@[i]));
    assert(preset_is(speed_presets()[i], menu.presets@[i].value, after.presets@[i]));
    assert forall|j: int| 0 <= j < after.presets@.len() && j != i implies !(
    #[trigger] after.presets@[j]).checked by {
        assert(preset_is(speed_presets()[j], menu.presets@[i].value, after.presets@[j]));
        assert(speed_presets()[i] != speed_presets()[j]);
    }
}

/// Without a limit the first choice is ticked and named.
pub proof fn law_no_limit_is_said(
    value: i64,
    rate: &str,
    off_label: &str,
    is_upload: bool,
    menu: SpeedLimitMenu,
)
    requires
        call_ensures(speed_limit_menu, (value, rate, off_label, is_upload), menu),
        value <= 0,
    ensures
        menu.off_checked,
        menu.trigger_label@ == off_label@,
        !menu.custom_checked,
        is_upload ==> menu.desc_key@ == "uploadLimitDesc"@,
        !is_upload ==> menu.desc_key@ == "speedLimitDesc"@,
{
}

/// A limit that was set is read back from the setting as it was set.
pub proof fn law_set_limit_is_read_back(
    key: &str,
    value: i64,
    revision: u64,
    patch: ConfigPatch,
    stored: &str,
    read: i64,
)
    requires
        call_ensures(config_patch, (key, value, revision), patch),
        stored@ == patch.value@,
        call_ensures(speed_limit, (stored,), read),
    ensures
        read == value,
        patch.key@ == key@,
        patch.expected_revision == revision,
{
    law_number_is_read_back(value as int);
}

/// What is typed for a limit in kilobytes and chosen in megabytes is the same limit: a megabyte is
/// 1024 kilobytes.
pub proof fn law_units_of_limits_agree(mb: i64, kb: i64, a: i64, b: i64)
    requires
        0 <= mb <= 1_000_000,
        kb == mb * 1024,
        call_ensures(mb_to_bytes, (mb,), a),
        call_ensures(kb_to_bytes, (kb,), b),
    ensures
        a == b,
        a == mb * 1024 * 1024,
{
}

/// A negative number that was typed counts as none.
pub proof fn law_prompt_takes_no_negative_number(number: i64, text: &str, read: i64)
    requires
        text@ == decimal_int(number as int),
        call_ensures(prompt_number, (text,), read),
    ensures
        number >= 0 ==> read == number,
        number < 0 ==> read == 0,
{
    law_number_is_read_back(number as int);
}

/// The control of shutting down: hidden where it cannot be had; while a countdown runs the time that
/// is left; asked for, the minutes; else the choices, which can be taken only while a task is
/// active.
pub proof fn law_shutdown_control_says_what_stands(
    status: ShutdownStatus,
    active: u32,
    strings: &ShutdownStrings,
    hidden: ShutdownControl,
    control: ShutdownControl,
    secs: u64,
    minutes: u64,
)
    requires
        call_ensures(shutdown_control, (false, status, active, strings), hidden),
        call_ensures(shutdown_control, (true, status, active, strings), control),
        secs <= 1_000_000_000,
        0 < minutes <= 1_000_000,
    ensures
        hidden is Hidden,
        status.countdown_remaining == Some(Duration::of_secs(secs)) ==> match control {
            ShutdownControl::Armed { text } => text@ == filled(
                strings.countdown@,
                "time"@,
                h_mm_ss(secs as nat),
            ),
            _ => false,
        },
        status.countdown_remaining is None && status.armed_delay == Some(
            Duration::of_secs((minutes * 60) as u64),
        ) ==> match control {
            ShutdownControl::Armed { text } => text@ == filled(
                strings.armed@,
                "m"@,
                decimal(minutes as nat),
            ),
            _ => false,
        },
        status.countdown_remaining is None && status.armed_delay == Some(Duration::of_secs(0))
            ==> match control {
            ShutdownControl::Armed { text } => text@ == strings.armed_immediate@,
            _ => false,
        },
        status.countdown_remaining is None && status.armed_delay is None ==> match control {
            ShutdownControl::Menu { can_arm, hint_key, immediate, presets } => {
                &&& can_arm <==> active > 0
                &&& immediate.delay.nanos == 0
                &&& presets@.len() == 4
                &&& presets@[0].delay.nanos == 60 * 1_000_000_000
                &&& presets@[3].delay.nanos == 1800 * 1_000_000_000
            },
            _ => false,
        },
{
    match control {
        ShutdownControl::Menu { can_arm, hint_key, immediate, presets } => {
            assert(presets@.len() == 4);
            assert(delay_is(shutdown_presets()[0], *strings, presets@[0]));
            assert(delay_is(shutdown_presets()[3], *strings, presets@[3]));
        },
        _ => {},
    }
}

/// The bar shows the rates of both directions, each its own, and the free space where it is known.
pub proof fn law_bar_shows_both_rates(
    download: &str,
    upload: &str,
    free_label: &str,
    size: &str,
    bare: StatusBar,
    bar: StatusBar,
)
    requires
        call_ensures(status_bar, (download, upload, None, free_label), bare),
        call_ensures(status_bar, (download, upload, Some(size), free_label), bar),
    ensures
        bar.download@ == download@ + "/s"@,
        bar.upload@ == upload@ + "/s"@,
        bare.disk_free is None,
        opt_text(bar.disk_free) == Some(filled(free_label@, "size"@, size@)),
        bare.download@ == bar.download@ && bare.upload@ == bar.upload@,
{
}

/// A delay is given in minutes, and one below zero is none; a rate below zero is shown as none.
pub proof fn law_amounts_are_never_below_zero(
    minutes: i64,
    delay: Duration,
    bps: i64,
    rate: u64,
)
    requires
        minutes <= 1_000_000,
        call_ensures(minutes_to_duration, (minutes,), delay),
        call_ensures(shown_rate, (bps,), rate),
    ensures
        minutes >= 0 ==> delay.nanos == minutes * 60 * 1_000_000_000,
        minutes < 0 ==> delay.nanos == 0,
        bps >= 0 ==> rate == bps,
        bps < 0 ==> rate == 0,
{
}

/// A change that came too late is told apart from one that failed.
pub proof fn law_conflict_is_told_apart(
    late: &str,
    failed: &str,
    conflict: &str,
    other: &str,
)
    requires
        call_ensures(patch_failure, (true, late, failed), conflict),
        call_ensures(patch_failure, (false, late, failed), other),
    ensures
        conflict@ == late@,
        other@ == failed@,
{
}

/// The clock of the countdown runs exactly while a shutdown is asked for.
pub proof fn law_clock_runs_while_a_shutdown_is_asked_for(
    status: ShutdownStatus,
    runs: bool,
    without: bool,
)
    requires
        call_ensures(ticker_continues, (Some(status),), runs),
        call_ensures(ticker_continues, (None,), without),
    ensures
        runs <==> status.armed_delay is Some,
        !without,
{
}

/// The countdown is written by its hours, minutes and seconds.
pub proof fn law_countdown_is_written_by_its_units(m: u64, s: u64, text: String)
    requires
        m < 60,
        s < 60,
        call_ensures(format_countdown, (Duration::of_secs((m * 60 + s) as u64),), text),
    ensures
        text@ == decimal(m as nat) + ":"@ + padded(s as nat),
{
}

} // verus!
