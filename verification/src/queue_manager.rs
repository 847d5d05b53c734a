//! The queue manager: the list of queues, the form in which one is edited or made, and its
//! schedule.

use vstd::prelude::*;

use crate::order::{stable_order, stable_sort};
use crate::text::{
    concat, decimal_int, fill, filled, first_index, i64_value, lemma_first_index,
    lemma_padded_reads_back, opt_text, padded, padded_number, parse_i64, parse_unsigned, parted,
    same, signed_number, split, split_once, signed_value, split_parts, texts, trim, trim_start, trimmed,
    unsigned_value, Separator,
};
use crate::text_laws::{
    blank, law_blank_is_trimmed_to_nothing, law_number_is_read_back, law_trimming_ignores_the_ends,
    law_trimming_takes_the_ends_off,
};

verus! {

/// The queue that tasks go to by default.
pub const MAIN_QUEUE_ID: &'static str = "main";

/// The queue of tasks that are put off.
pub const LATER_QUEUE_ID: &'static str = "later";

/// The step of the minutes that are offered.
pub const MINUTE_STEP: u16 = 5;

/// Sets or clears one bit of a mask of weekdays.
pub fn toggle_day_bit(days: i32, bit: i32, checked: bool) -> (r: i32)
    ensures
        r == if checked {
            days | bit
        } else {
            days & !bit
        },
{
    if checked {
        days | bit
    } else {
        days & !bit
    }
}

/// Setting or clearing a bit leaves the others as they are, and doing it twice is doing it once.
pub proof fn law_toggle_day_touches_one_bit(days: i32, bit: i32)
    ensures
        (days | bit) & bit == bit,
        (days | bit) & !bit == days & !bit,
        (days & !bit) & bit == 0,
        (days & !bit) & !bit == days & !bit,
        (days | bit) | bit == days | bit,
{
    assert((days | bit) & bit == bit) by (bit_vector);
    assert((days | bit) & !bit == days & !bit) by (bit_vector);
    assert((days & !bit) & bit == 0) by (bit_vector);
    assert((days & !bit) & !bit == days & !bit) by (bit_vector);
    assert((days | bit) | bit == days | bit) by (bit_vector);
}

/// The minute of the day that a text such as `08:30` writes: hours below 24, minutes below 60.
pub open spec fn time_value(text: Seq<char>) -> Option<u16> {
    match parted(trimmed(text), ':') {
        Some((hours, minutes)) => match (unsigned_value(hours), unsigned_value(minutes)) {
            (Some(h), Some(m)) => if h < 24 && m < 60 {
                Some((h * 60 + m) as u16)
            } else {
                None
            },
            _ => None,
        },
        None => None,
    }
}

/// Reads a time of day; what is empty or no time counts as none.
pub fn parse_time(text: &str) -> (r: Option<u16>)
    ensures
        r == time_value(text@),
{
    let text = trim(text);
    match split_once(text.as_str(), ':') {
        None => None,
        Some((hours, minutes)) => {
            match (parse_unsigned(hours.as_str(), 23), parse_unsigned(minutes.as_str(), 59)) {
                (Some(h), Some(m)) => Some((h * 60 + m) as u16),
                _ => None,
            }
        },
    }
}

/// A time of day as it is written: two digits each for hours and minutes; nothing for none.
pub open spec fn time_text(time: Option<u16>) -> Seq<char> {
    match time {
        Some(minutes) => padded((minutes / 60) as nat) + ":"@ + padded((minutes % 60) as nat),
        None => Seq::empty(),
    }
}

/// Writes a time of day.
pub fn format_time(time: Option<u16>) -> (r: String)
    ensures
        r@ == time_text(time),
{
    match time {
        None => String::new(),
        Some(minutes) => {
            let h = padded_number((minutes / 60) as u64);
            let m = padded_number((minutes % 60) as u64);
            let mut r = concat(h.as_str(), ":");
            r.append(m.as_str());
            r
        },
    }
}

/// A time of day that was written is read back as itself.
pub proof fn law_time_round_trips(minutes: u16)
    requires
        minutes < 1440,
    ensures
        time_value(time_text(Some(minutes))) == Some(minutes),
{
    let h = (minutes / 60) as nat;
    let m = (minutes % 60) as nat;
    lemma_padded_reads_back(h);
    lemma_padded_reads_back(m);
    reveal_strlit(":");
    let text = time_text(Some(minutes));
    assert(text =~= padded(h) + seq![':'] + padded(m));
    assert(text.len() == 5);
    assert(text[0] == padded(h)[0] && text[4] == padded(m)[1]);
    assert(trim_start(text) == text);
    assert(text.last() == text[4]);
    assert(trimmed(text) == text);
    lemma_first_index(text, ':');
    assert(text[2] == ':');
    assert(text[0] == padded(h)[0] && text[1] == padded(h)[1]);
    assert(padded(h).contains(padded(h)[0]) && padded(h).contains(padded(h)[1]));
    assert(first_index(text, ':') == 2);
    assert(text.take(2) =~= padded(h));
    assert(text.skip(3) =~= padded(m));
    assert((h * 60 + m) == minutes);
}

/// Nothing is written for no time, and nothing is read as none.
pub proof fn law_no_time_round_trips()
    ensures
        time_value(time_text(None)) is None,
{
    let text = Seq::<char>::empty();
    assert(trim_start(text) == text);
    assert(trimmed(text) == text);
}

/// Whether a minute is offered: it is on the step, or it is the present one.
pub open spec fn offered(current: u16, m: u16) -> bool {
    m == current || (m < 60 && m % MINUTE_STEP == 0)
}

/// Whether a list holds the minutes that are offered, in rising order.
pub open spec fn all_offered(current: u16, choices: Seq<u16>) -> bool {
    &&& forall|i: int, j: int| 0 <= i < j < choices.len() ==> choices[i] < choices[j]
    &&& forall|m: u16| #[trigger] choices.contains(m) <==> offered(current, m)
}

/// The minutes that are offered, in rising order: those on the step, and the present one.
pub fn minute_choices(current: u16) -> (r: Vec<u16>)
    ensures
        all_offered(current, r@),
        r@.len() == if current < 60 && current % MINUTE_STEP == 0 {
            12nat
        } else {
            13
        },
{
    let mut r: Vec<u16> = Vec::new();
    let mut placed: bool = false;
    let mut m: u16 = 0;
    while m < 60
        invariant
            m <= 60,
            m % MINUTE_STEP == 0,
            MINUTE_STEP == 5,
            placed == (current < m),
            r@.len() == m / 5 + if current < m && current % 5 != 0 {
                1int
            } else {
                0
            },
            forall|i: int, j: int| 0 <= i < j < r@.len() ==> r@[i] < r@[j],
            forall|i: int| 0 <= i < r@.len() ==> #[trigger] r@[i] < m,
            forall|v: u16| #[trigger] r@.contains(v) <==> v < m && offered(current, v),
        decreases 60 - m,
    {
        let ghost before = r@;
        r.push(m);
        let ghost middle = r@;
        proof {
            lemma_push_has(before, m);
        }
        if !placed && current < m + MINUTE_STEP {
            placed = true;
            if current != m {
                r.push(current);
                proof {
                    lemma_push_has(middle, current);
                }
            }
        }
        m += MINUTE_STEP;
    }
    if !placed {
        let ghost before = r@;
        r.push(current);
        proof {
            lemma_push_has(before, current);
        }
    }
    r
}

proof fn lemma_push_has(s: Seq<u16>, x: u16)
    ensures
        forall|v: u16| #[trigger] s.push(x).contains(v) <==> s.contains(v) || v == x,
{
    assert forall|v: u16| #[trigger] s.push(x).contains(v) <==> s.contains(v) || v == x by {
        if s.contains(v) {
            let i = choose|i: int| 0 <= i < s.len() && s[i] == v;
            assert(s.push(x)[i] == v);
        }
        if s.push(x).contains(v) {
            let i = choose|i: int| 0 <= i < s.push(x).len() && s.push(x)[i] == v;
            if i < s.len() {
                assert(s[i] == v);
            }
        }
        assert(s.push(x)[s.len() as int] == x);
    }
}

/// A queue as the service reports it.
#[derive(Debug)]
pub struct QueueDto {
    pub queue_id: String,
    pub name: String,
    pub is_running: bool,
    pub position: i64,
    pub speed_limit_kbps: i64,
    pub upload_limit_kbps: i64,
    pub max_concurrent: i32,
    pub default_save_dir: String,
    pub default_segments: i32,
    pub default_user_agent: String,
    pub schedule_enabled: bool,
    pub schedule_start: String,
    pub schedule_stop: String,
    pub schedule_days: i32,
}

impl Clone for QueueDto {
    fn clone(&self) -> (r: Self)
        ensures
            r == *self,
    {
        QueueDto {
            queue_id: self.queue_id.clone(),
            name: self.name.clone(),
            is_running: self.is_running,
            position: self.position,
            speed_limit_kbps: self.speed_limit_kbps,
            upload_limit_kbps: self.upload_limit_kbps,
            max_concurrent: self.max_concurrent,
            default_save_dir: self.default_save_dir.clone(),
            default_segments: self.default_segments,
            default_user_agent: self.default_user_agent.clone(),
            schedule_enabled: self.schedule_enabled,
            schedule_start: self.schedule_start.clone(),
            schedule_stop: self.schedule_stop.clone(),
            schedule_days: self.schedule_days,
        }
    }
}

/// One of the two times of a schedule.
#[derive(Clone, Copy, Debug, PartialEq, Eq, Structural)]
pub enum ScheduleSlot {
    Start,
    Stop,
}

/// A queue that is being edited, or made where it has no identifier. Numbers are kept as the
/// user typed them.
#[derive(Debug)]
pub struct QueueForm {
    pub queue_id: Option<String>,
    pub is_running: bool,
    pub name: String,
    pub max_concurrent: String,
    pub speed_limit: String,
    pub upload_limit: String,
    pub save_dir: String,
    pub segments: String,
    pub user_agent: String,
    pub schedule_enabled: bool,
    pub schedule_start: Option<u16>,
    pub schedule_stop: Option<u16>,
    /// One bit for each weekday, Monday lowest.
    pub schedule_days: i32,
    pub picking_dir: bool,
}

pub open spec fn builtin(queue_id: Seq<char>) -> bool {
    queue_id == MAIN_QUEUE_ID@ || queue_id == LATER_QUEUE_ID@
}

/// What a form says of a queue that is being edited.
pub open spec fn form_is(queue: QueueDto, form: QueueForm) -> bool {
    &&& opt_text(form.queue_id) == Some(queue.queue_id@)
    &&& form.is_running == queue.is_running
    &&& form.name@ == queue.name@
    &&& form.max_concurrent@ == decimal_int(queue.max_concurrent as int)
    &&& form.speed_limit@ == decimal_int(queue.speed_limit_kbps as int)
    &&& form.upload_limit@ == decimal_int(queue.upload_limit_kbps as int)
    &&& form.save_dir@ == queue.default_save_dir@
    &&& form.segments@ == decimal_int(queue.default_segments as int)
    &&& form.user_agent@ == queue.default_user_agent@
    &&& form.schedule_enabled == queue.schedule_enabled
    &&& form.schedule_start == time_value(queue.schedule_start@)
    &&& form.schedule_stop == time_value(queue.schedule_stop@)
    &&& form.schedule_days == queue.schedule_days
    &&& !form.picking_dir
}

/// Whether a form is that of a queue that is being made.
pub open spec fn blank_form(form: QueueForm) -> bool {
    &&& form.queue_id is None
    &&& form.is_running
    &&& form.name@ == Seq::<char>::empty()
    &&& form.max_concurrent@ == "0"@
    &&& form.speed_limit@ == "0"@
    &&& form.upload_limit@ == "0"@
    &&& form.save_dir@ == Seq::<char>::empty()
    &&& form.segments@ == "0"@
    &&& form.user_agent@ == Seq::<char>::empty()
    &&& !form.schedule_enabled
    &&& form.schedule_start is None
    &&& form.schedule_stop is None
    &&& form.schedule_days == 127
    &&& !form.picking_dir
}

impl QueueForm {
    /// The form of a queue that is being made.
    pub fn blank() -> (r: QueueForm)
        ensures
            blank_form(r),
    {
        QueueForm {
            queue_id: None,
            is_running: true,
            name: String::new(),
            max_concurrent: "0".to_owned(),
            speed_limit: "0".to_owned(),
            upload_limit: "0".to_owned(),
            save_dir: String::new(),
            segments: "0".to_owned(),
            user_agent: String::new(),
            schedule_enabled: false,
            schedule_start: None,
            schedule_stop: None,
            schedule_days: 127,
            picking_dir: false,
        }
    }

    /// The form of a queue that is being edited.
    pub fn for_queue(queue: &QueueDto) -> (r: QueueForm)
        ensures
            form_is(*queue, r),
    {
        QueueForm {
            queue_id: Some(queue.queue_id.clone()),
            is_running: queue.is_running,
            name: queue.name.clone(),
            max_concurrent: signed_number(queue.max_concurrent as i64),
            speed_limit: signed_number(queue.speed_limit_kbps),
            upload_limit: signed_number(queue.upload_limit_kbps),
            save_dir: queue.default_save_dir.clone(),
            segments: signed_number(queue.default_segments as i64),
            user_agent: queue.default_user_agent.clone(),
            schedule_enabled: queue.schedule_enabled,
            schedule_start: parse_time(queue.schedule_start.as_str()),
            schedule_stop: parse_time(queue.schedule_stop.as_str()),
            schedule_days: queue.schedule_days,
            picking_dir: false,
        }
    }

    /// Whether the queue is one that can be neither renamed nor deleted.
    pub fn is_builtin(&self) -> (r: bool)
        ensures
            r == match self.queue_id {
                Some(id) => builtin(id@),
                None => false,
            },
    {
        match &self.queue_id {
            Some(id) => same(id.as_str(), MAIN_QUEUE_ID) || same(id.as_str(), LATER_QUEUE_ID),
            None => false,
        }
    }

    pub open spec fn slot(self, slot: ScheduleSlot) -> Option<u16> {
        match slot {
            ScheduleSlot::Start => self.schedule_start,
            ScheduleSlot::Stop => self.schedule_stop,
        }
    }

    pub open spec fn with_slot(self, slot: ScheduleSlot, time: Option<u16>) -> QueueForm {
        match slot {
            ScheduleSlot::Start => QueueForm { schedule_start: time, ..self },
            ScheduleSlot::Stop => QueueForm { schedule_stop: time, ..self },
        }
    }
}

/// What is sent of a form.
#[derive(Debug)]
pub struct QueueFields {
    pub name: String,
    pub speed_limit_kbps: i64,
    pub upload_limit_kbps: i64,
    pub max_concurrent: i32,
    pub default_save_dir: String,
    pub default_segments: i32,
    pub default_user_agent: String,
}

/// The number that the user typed; zero where it is none.
pub open spec fn typed_number(text: Seq<char>) -> i64 {
    match i64_value(trimmed(text)) {
        Some(v) => v,
        None => 0,
    }
}

/// The number that the user typed; zero where it is none.
pub fn parse_int(text: &str) -> (r: i64)
    ensures
        r == typed_number(text@),
{
    let text = trim(text);
    match parse_i64(text.as_str()) {
        Some(v) => v,
        None => 0,
    }
}

pub open spec fn fields_are(form: QueueForm, fields: QueueFields) -> bool {
    &&& fields.name@ == trimmed(form.name@)
    &&& fields.speed_limit_kbps == typed_number(form.speed_limit@)
    &&& fields.upload_limit_kbps == typed_number(form.upload_limit@)
    &&& fields.max_concurrent == typed_number(form.max_concurrent@) as i32
    &&& fields.default_save_dir@ == trimmed(form.save_dir@)
    &&& fields.default_segments == typed_number(form.segments@) as i32
    &&& fields.default_user_agent@ == trimmed(form.user_agent@)
}

fn queue_fields(form: &QueueForm) -> (r: QueueFields)
    ensures
        fields_are(*form, r),
{
    let most: i64 = parse_int(form.max_concurrent.as_str());
    let parts: i64 = parse_int(form.segments.as_str());
    QueueFields {
        name: trim(form.name.as_str()),
        speed_limit_kbps: parse_int(form.speed_limit.as_str()),
        upload_limit_kbps: parse_int(form.upload_limit.as_str()),
        max_concurrent: #[verifier::truncate]
        (most as i32),
        default_save_dir: trim(form.save_dir.as_str()),
        default_segments: #[verifier::truncate]
        (parts as i32),
        default_user_agent: trim(form.user_agent.as_str()),
    }
}

/// A command for the service.
#[derive(Debug)]
pub enum QueueCommand {
    Create { fields: QueueFields },
    Update { queue_id: String, fields: QueueFields },
    Schedule { queue_id: String, enabled: bool, start_time: String, stop_time: String, days: i32 },
    Start { queue_id: String },
    Stop { queue_id: String },
    Delete { queue_id: String },
}

/// What is shown as an error.
#[derive(Clone, Copy, Debug, PartialEq, Eq, Structural)]
pub enum QueueError {
    NameRequired,
    ActionFailed,
}

impl QueueError {
    /// The name of the error's text.
    pub fn key(self) -> (r: &'static str)
        ensures
            r@ == match self {
                QueueError::NameRequired => "queueNameRequired"@,
                QueueError::ActionFailed => "localServiceActionFailed"@,
            },
    {
        match self {
            QueueError::NameRequired => "queueNameRequired",
            QueueError::ActionFailed => "localServiceActionFailed",
        }
    }
}

/// The index of the first queue with an identifier; the number of queues where there is none.
pub open spec fn queue_index(queues: Seq<QueueDto>, id: Seq<char>) -> int
    decreases queues.len(),
{
    if queues.len() == 0 || queues[0].queue_id@ == id {
        0
    } else {
        1 + queue_index(queues.drop_first(), id)
    }
}

pub open spec fn has_queue(queues: Seq<QueueDto>, id: Seq<char>) -> bool {
    queue_index(queues, id) < queues.len()
}

proof fn lemma_queue_index(queues: Seq<QueueDto>, id: Seq<char>)
    ensures
        0 <= queue_index(queues, id) <= queues.len(),
        has_queue(queues, id) ==> queues[queue_index(queues, id)].queue_id@ == id,
        forall|i: int| 0 <= i < queue_index(queues, id) ==> (#[trigger] queues[i]).queue_id@ != id,
    decreases queues.len(),
{
    if queues.len() > 0 && queues[0].queue_id@ != id {
        lemma_queue_index(queues.drop_first(), id);
        assert forall|i: int| 0 <= i < queue_index(queues, id) implies (
        #[trigger] queues[i]).queue_id@ != id by {
            if i > 0 {
                assert(queues[i] == queues.drop_first()[i - 1]);
            }
        }
    }
}

/// The index of the first queue with an identifier.
fn find_queue(queues: &Vec<QueueDto>, id: &str) -> (r: Option<usize>)
    ensures
        match r {
            Some(i) => has_queue(queues@, id@) && i == queue_index(queues@, id@),
            None => !has_queue(queues@, id@),
        },
{
    let mut i: usize = 0;
    assert(queues@.skip(0) =~= queues@);
    while i < queues.len()
        invariant
            i <= queues@.len(),
            queue_index(queues@, id@) == i + queue_index(queues@.skip(i as int), id@),
        decreases queues@.len() - i,
    {
        assert(queues@.skip(i as int)[0] == queues@[i as int]);
        assert(queues@.skip(i as int).drop_first() =~= queues@.skip(i + 1));
        if same(queues[i].queue_id.as_str(), id) {
            return Some(i);
        }
        i += 1;
    }
    None
}

/// The rule that orders queues: by position.
pub open spec fn position_rule(queues: Seq<QueueDto>) -> spec_fn(int, int) -> bool {
    |a: int, b: int| queues[a].position < queues[b].position
}

/// Whether `sorted` are the queues by position, those of equal position in their order.
pub open spec fn by_position(queues: Seq<QueueDto>, sorted: Seq<QueueDto>) -> bool {
    exists|order: Seq<usize>| #[trigger]
        stable_order(order, queues.len(), position_rule(queues)) && sorted.len() == queues.len()
            && forall|i: int|
            0 <= i < sorted.len() ==> #[trigger] sorted[i] == queues[order[i] as int]
}

fn sort_by_position(queues: &Vec<QueueDto>) -> (r: Vec<QueueDto>)
    ensures
        by_position(queues@, r@),
{
    let n: usize = queues.len();
    let ghost rule = position_rule(queues@);
    let less = |a: usize, b: usize| -> (x: bool)
        requires
            a < queues@.len() && b < queues@.len(),
        ensures
            x == (queues@[a as int].position < queues@[b as int].position),
        { queues[a].position < queues[b].position };
    let order = stable_sort(n, less, Ghost(rule));
    let mut r: Vec<QueueDto> = Vec::new();
    let mut i: usize = 0;
    while i < n
        invariant
            i <= n,
            n == queues@.len(),
            order@.len() == n,
            forall|k: int| 0 <= k < n ==> (#[trigger] order@[k]) < n,
            r@.len() == i,
            forall|k: int| 0 <= k < i ==> #[trigger] r@[k] == queues@[order@[k] as int],
        decreases n - i,
    {
        r.push(queues[order[i]].clone());
        i += 1;
    }
    assert(stable_order(order@, queues@.len(), position_rule(queues@)));
    r
}

/// An event of the session, as far as the queue manager hears of it.
#[derive(Debug)]
pub enum QueueEvent {
    QueuesChanged { queues: Vec<QueueDto> },
    /// The service reported everything anew.
    SnapshotReplaced { queues: Vec<QueueDto> },
    ConnectionChanged { connected: bool },
    Other,
}

/// The queue manager's state.
#[derive(Debug)]
pub struct QueueManagerView {
    pub queues: Vec<QueueDto>,
    pub form: Option<QueueForm>,
    pub error: Option<QueueError>,
    /// Whether the service is out of touch.
    pub stale: bool,
}

/// What becomes of the form when the queues are reported anew: whether the edited queue runs
/// follows the report, and a queue that is gone is edited no longer.
pub open spec fn form_after(form: Option<QueueForm>, queues: Seq<QueueDto>) -> Option<QueueForm> {
    match form {
        Some(form) => match form.queue_id {
            Some(id) => if has_queue(queues, id@) {
                Some(
                    QueueForm {
                        is_running: queues[queue_index(queues, id@)].is_running,
                        ..form
                    },
                )
            } else {
                None
            },
            None => Some(form),
        },
        None => None,
    }
}

impl QueueManagerView {
    pub open spec fn absorbed(self, queues: Seq<QueueDto>, after: QueueManagerView) -> bool {
        &&& by_position(queues, after.queues@)
        &&& after.form == form_after(self.form, after.queues@)
        &&& after.error == self.error
    }

    pub fn new() -> (r: QueueManagerView)
        ensures
            r.queues@.len() == 0,
            r.form is None,
            r.error is None,
            r.stale,
    {
        QueueManagerView { queues: Vec::new(), form: None, error: None, stale: true }
    }

    fn absorb_queues(&mut self, queues: &Vec<QueueDto>)
        ensures
            old(self).absorbed(queues@, *final(self)),
            final(self).stale == old(self).stale,
    {
        let sorted = sort_by_position(queues);
        let mut gone: bool = false;
        if let Some(form) = &mut self.form {
            if let Some(id) = &form.queue_id {
                match find_queue(&sorted, id.as_str()) {
                    Some(i) => {
                        proof {
                            lemma_queue_index(sorted@, id@);
                        }
                        form.is_running = sorted[i].is_running;
                    },
                    None => {
                        gone = true;
                    },
                }
            }
        }
        if gone {
            self.form = None;
        }
        self.queues = sorted;
    }

    /// Takes over the queues that the service reports.
    pub fn replace_snapshot(&mut self, queues: &Vec<QueueDto>)
        ensures
            old(self).absorbed(queues@, *final(self)),
            !final(self).stale,
    {
        self.absorb_queues(queues);
        self.stale = false;
    }

    /// Takes note of an event.
    pub fn apply_event(&mut self, event: &QueueEvent)
        ensures
            match *event {
                QueueEvent::QueuesChanged { queues } => old(self).absorbed(queues@, *final(self))
                    && final(self).stale == old(self).stale,
                QueueEvent::SnapshotReplaced { queues } => old(self).absorbed(
                    queues@,
                    *final(self),
                ) && !final(self).stale,
                QueueEvent::ConnectionChanged { connected } => *final(self) == (QueueManagerView {
                    stale: !connected,
                    ..*old(self)
                }),
                QueueEvent::Other => *final(self) == *old(self),
            },
    {
        match event {
            QueueEvent::QueuesChanged { queues } => {
                self.absorb_queues(queues);
            },
            QueueEvent::SnapshotReplaced { queues } => {
                self.absorb_queues(queues);
                self.stale = false;
            },
            QueueEvent::ConnectionChanged { connected } => {
                self.stale = !*connected;
            },
            QueueEvent::Other => {},
        }
    }

    pub fn mark_stale(&mut self)
        ensures
            *final(self) == (QueueManagerView { stale: true, ..*old(self) }),
    {
        self.stale = true;
    }

    /// Edits the main queue, or the first one, where nothing is being edited.
    pub fn ensure_form(&mut self)
        ensures
            final(self).queues == old(self).queues,
            final(self).error == old(self).error,
            final(self).stale == old(self).stale,
            if old(self).form is Some || old(self).queues@.len() == 0 {
                final(self).form == old(self).form
            } else {
                let queues = old(self).queues@;
                let i = if has_queue(queues, MAIN_QUEUE_ID@) {
                    queue_index(queues, MAIN_QUEUE_ID@)
                } else {
                    0
                };
                final(self).form is Some && form_is(queues[i], final(self).form->0)
            },
    {
        if self.form.is_some() || self.queues.len() == 0 {
            return;
        }
        proof {
            lemma_queue_index(self.queues@, MAIN_QUEUE_ID@);
        }
        let i: usize = match find_queue(&self.queues, MAIN_QUEUE_ID) {
            Some(i) => i,
            None => 0,
        };
        let form = QueueForm::for_queue(&self.queues[i]);
        self.form = Some(form);
    }

    /// Edits a queue; one that is not there is passed over.
    pub fn select_queue(&mut self, queue_id: &str)
        ensures
            final(self).queues == old(self).queues,
            final(self).stale == old(self).stale,
            if has_queue(old(self).queues@, queue_id@) {
                &&& final(self).error is None
                &&& final(self).form is Some
                &&& form_is(
                    old(self).queues@[queue_index(old(self).queues@, queue_id@)],
                    final(self).form->0,
                )
            } else {
                *final(self) == *old(self)
            },
    {
        proof {
            lemma_queue_index(self.queues@, queue_id@);
        }
        if let Some(i) = find_queue(&self.queues, queue_id) {
            let form = QueueForm::for_queue(&self.queues[i]);
            self.form = Some(form);
            self.error = None;
        }
    }

    /// Begins a new queue.
    pub fn new_queue(&mut self)
        ensures
            final(self).queues == old(self).queues,
            final(self).stale == old(self).stale,
            final(self).error is None,
            final(self).form is Some && blank_form(final(self).form->0),
    {
        self.form = Some(QueueForm::blank());
        self.error = None;
    }

    /// Shows that a command failed.
    pub fn command_failed(&mut self)
        ensures
            *final(self) == (QueueManagerView {
                error: Some(QueueError::ActionFailed),
                ..*old(self)
            }),
    {
        self.error = Some(QueueError::ActionFailed);
    }

    /// Saves the form, and gives the commands that do it: a name is required; an edited queue is
    /// updated and scheduled; a new one is made, and its form closed.
    pub fn save(&mut self) -> (r: Vec<QueueCommand>)
        ensures
            final(self).queues == old(self).queues,
            final(self).stale == old(self).stale,
            match old(self).form {
                None => r@.len() == 0 && *final(self) == *old(self),
                Some(form) => if trimmed(form.name@).len() == 0 {
                    &&& r@.len() == 0
                    &&& final(self).error == Some(QueueError::NameRequired)
                    &&& final(self).form == old(self).form
                } else {
                    &&& final(self).error == old(self).error
                    &&& saves(form, r@)
                    &&& final(self).form == if form.queue_id is Some {
                        old(self).form
                    } else {
                        None
                    }
                },
            },
    {
        let mut r: Vec<QueueCommand> = Vec::new();
        let mut made: bool = false;
        match &self.form {
            None => {
                return r;
            },
            Some(form) => {
                let name = trim(form.name.as_str());
                if name.as_str().is_empty() {
                    self.error = Some(QueueError::NameRequired);
                    return r;
                }
                let fields = queue_fields(form);
                match &form.queue_id {
                    Some(queue_id) => {
                        r.push(QueueCommand::Update { queue_id: queue_id.clone(), fields });
                        r.push(
                            QueueCommand::Schedule {
                                queue_id: queue_id.clone(),
                                enabled: form.schedule_enabled,
                                start_time: format_time(form.schedule_start),
                                stop_time: format_time(form.schedule_stop),
                                days: form.schedule_days,
                            },
                        );
                    },
                    None => {
                        r.push(QueueCommand::Create { fields });
                        made = true;
                    },
                }
            },
        }
        if made {
            self.form = None;
        }
        r
    }

    /// The command that stops the edited queue, or starts it where it does not run.
    pub fn toggle_running(&self) -> (r: Option<QueueCommand>)
        ensures
            match self.form {
                Some(form) => match (form.queue_id, r) {
                    (Some(id), Some(QueueCommand::Stop { queue_id })) => form.is_running
                        && queue_id@ == id@,
                    (Some(id), Some(QueueCommand::Start { queue_id })) => !form.is_running
                        && queue_id@ == id@,
                    (None, None) => true,
                    _ => false,
                },
                None => r is None,
            },
    {
        match &self.form {
            None => None,
            Some(form) => match &form.queue_id {
                None => None,
                Some(id) => if form.is_running {
                    Some(QueueCommand::Stop { queue_id: id.clone() })
                } else {
                    Some(QueueCommand::Start { queue_id: id.clone() })
                },
            },
        }
    }

    /// The question before a queue is deleted: its identifier, and the text of the question made
    /// from a template. A queue that is being made cannot be deleted.
    pub fn confirm_delete(&self, template: &str) -> (r: Option<(String, String)>)
        ensures
            (match r {
                Some((id, text)) => Some((id@, text@)),
                None => None,
            }) == match self.form {
                Some(form) => match form.queue_id {
                    Some(id) => Some((id@, filled(template@, "name"@, form.name@))),
                    None => None,
                },
                None => None,
            },
    {
        match &self.form {
            None => None,
            Some(form) => match &form.queue_id {
                None => None,
                Some(id) => Some((id.clone(), fill(template, "name", form.name.as_str()))),
            },
        }
    }

    /// Deletes a queue once the question was answered.
    pub fn delete(&mut self, queue_id: String) -> (r: QueueCommand)
        ensures
            r == (QueueCommand::Delete { queue_id }),
            *final(self) == (QueueManagerView { form: None, ..*old(self) }),
    {
        self.form = None;
        QueueCommand::Delete { queue_id }
    }

    /// Begins to ask for a folder, and says whether the question is to be asked: not while it is
    /// being asked already.
    pub fn begin_pick_dir(&mut self) -> (r: bool)
        ensures
            r == !(old(self).form is Some && (old(self).form->0).picking_dir),
            *final(self) == (QueueManagerView {
                form: match old(self).form {
                    Some(form) => Some(QueueForm { picking_dir: true, ..form }),
                    None => None,
                },
                ..*old(self)
            }),
    {
        if let Some(form) = &mut self.form {
            if form.picking_dir {
                return false;
            }
            form.picking_dir = true;
        }
        true
    }

    /// Takes over the folder that was picked.
    pub fn end_pick_dir(&mut self, picked: Option<String>)
        ensures
            *final(self) == (QueueManagerView {
                form: match old(self).form {
                    Some(form) => Some(
                        QueueForm {
                            picking_dir: false,
                            save_dir: match picked {
                                Some(path) => path,
                                None => form.save_dir,
                            },
                            ..form
                        },
                    ),
                    None => None,
                },
                ..*old(self)
            }),
    {
        if let Some(form) = &mut self.form {
            form.picking_dir = false;
            if let Some(path) = picked {
                form.save_dir = path;
            }
        }
    }

    /// Sets one of the two times of the schedule.
    pub fn set_schedule_time(&mut self, slot: ScheduleSlot, time: Option<u16>)
        ensures
            *final(self) == (QueueManagerView {
                form: match old(self).form {
                    Some(form) => Some(form.with_slot(slot, time)),
                    None => None,
                },
                ..*old(self)
            }),
    {
        if let Some(form) = &mut self.form {
            match slot {
                ScheduleSlot::Start => {
                    form.schedule_start = time;
                },
                ScheduleSlot::Stop => {
                    form.schedule_stop = time;
                },
            }
        }
    }

    pub fn set_schedule_enabled(&mut self, enabled: bool)
        ensures
            *final(self) == (QueueManagerView {
                form: match old(self).form {
                    Some(form) => Some(QueueForm { schedule_enabled: enabled, ..form }),
                    None => None,
                },
                ..*old(self)
            }),
    {
        if let Some(form) = &mut self.form {
            form.schedule_enabled = enabled;
        }
    }

    /// Sets or clears a weekday of the schedule.
    pub fn set_schedule_day(&mut self, bit: i32, checked: bool)
        ensures
            *final(self) == (QueueManagerView {
                form: match old(self).form {
                    Some(form) => Some(
                        QueueForm {
                            schedule_days: if checked {
                                form.schedule_days | bit
                            } else {
                                form.schedule_days & !bit
                            },
                            ..form
                        },
                    ),
                    None => None,
                },
                ..*old(self)
            }),
    {
        if let Some(form) = &mut self.form {
            form.schedule_days = toggle_day_bit(form.schedule_days, bit, checked);
        }
    }
}

/// The commands that save a form with a name.
pub open spec fn saves(form: QueueForm, commands: Seq<QueueCommand>) -> bool {
    match form.queue_id {
        Some(id) => commands.len() == 2 && match (commands[0], commands[1]) {
            (
                QueueCommand::Update { queue_id, fields },
                QueueCommand::Schedule { queue_id: other, enabled, start_time, stop_time, days },
            ) => {
                &&& queue_id@ == id@
                &&& fields_are(form, fields)
                &&& other@ == id@
                &&& enabled == form.schedule_enabled
                &&& start_time@ == time_text(form.schedule_start)
                &&& stop_time@ == time_text(form.schedule_stop)
                &&& days == form.schedule_days
            },
            _ => false,
        },
        None => commands.len() == 1 && match commands[0] {
            QueueCommand::Create { fields } => fields_are(form, fields),
            _ => false,
        },
    }
}

/// The words that the queue manager shows.
#[derive(Debug)]
pub struct QueueStrings {
    pub main_queue: String,
    pub later_queue: String,
    pub create_queue: String,
    pub running: String,
    pub stopped: String,
    pub time_unset: String,
}

pub open spec fn label_of(queue: QueueDto, strings: QueueStrings) -> Seq<char> {
    if queue.queue_id@ == MAIN_QUEUE_ID@ {
        strings.main_queue@
    } else if queue.queue_id@ == LATER_QUEUE_ID@ {
        strings.later_queue@
    } else {
        queue.name@
    }
}

/// The name under which a queue is shown: the built-in ones are named in the user's language.
pub fn queue_label(queue: &QueueDto, strings: &QueueStrings) -> (r: String)
    ensures
        r@ == label_of(*queue, *strings),
{
    if same(queue.queue_id.as_str(), MAIN_QUEUE_ID) {
        strings.main_queue.clone()
    } else if same(queue.queue_id.as_str(), LATER_QUEUE_ID) {
        strings.later_queue.clone()
    } else {
        queue.name.clone()
    }
}

/// A row of the list of queues.
#[derive(Debug)]
pub struct QueueRow {
    /// The queue; nothing for the one that is being made.
    pub queue_id: Option<String>,
    pub label: String,
    pub running: bool,
    pub selected: bool,
}

/// The identifier of the queue that is being edited.
pub open spec fn edited_id(form: Option<QueueForm>) -> Option<Seq<char>> {
    match form {
        Some(form) => opt_text(form.queue_id),
        None => None,
    }
}

pub open spec fn creating(form: Option<QueueForm>) -> bool {
    form is Some && (form->0).queue_id is None
}

pub open spec fn queue_row_is(
    queue: QueueDto,
    form: Option<QueueForm>,
    strings: QueueStrings,
    row: QueueRow,
) -> bool {
    &&& opt_text(row.queue_id) == Some(queue.queue_id@)
    &&& row.label@ == label_of(queue, strings)
    &&& row.running == queue.is_running
    &&& row.selected == (edited_id(form) == Some(queue.queue_id@))
}

/// What stands over the form.
#[derive(Debug)]
pub struct QueueHeader {
    pub title: String,
    /// Whether the queue runs, in words; nothing for one that is being made.
    pub badge: Option<String>,
}

/// Which buttons stand under the form.
#[derive(Clone, Copy, Debug, PartialEq, Eq, Structural)]
pub struct QueueFooter {
    pub can_delete: bool,
    pub can_toggle: bool,
    /// Whether the button stops the queue, not starts it.
    pub stops: bool,
}

impl QueueManagerView {
    /// The rows of the list of queues, and one more for a queue that is being made.
    pub fn list_rows(&self, strings: &QueueStrings) -> (r: Vec<QueueRow>)
        ensures
            r@.len() == self.queues@.len() + if creating(self.form) {
                1int
            } else {
                0
            },
            forall|i: int|
                0 <= i < self.queues@.len() ==> queue_row_is(
                    self.queues@[i],
                    self.form,
                    *strings,
                    #[trigger] r@[i],
                ),
            creating(self.form) ==> r@.last().queue_id is None && r@.last().label@
                == strings.create_queue@ && r@.last().selected && r@.last().running,
    {
        let mut r: Vec<QueueRow> = Vec::new();
        let mut i: usize = 0;
        while i < self.queues.len()
            invariant
                i <= self.queues@.len(),
                r@.len() == i,
                forall|k: int|
                    0 <= k < i ==> queue_row_is(
                        self.queues@[k],
                        self.form,
                        *strings,
                        #[trigger] r@[k],
                    ),
            decreases self.queues@.len() - i,
        {
            let queue = &self.queues[i];
            let selected: bool = match &self.form {
                Some(form) => match &form.queue_id {
                    Some(id) => same(id.as_str(), queue.queue_id.as_str()),
                    None => false,
                },
                None => false,
            };
            r.push(
                QueueRow {
                    queue_id: Some(queue.queue_id.clone()),
                    label: queue_label(queue, strings),
                    running: queue.is_running,
                    selected,
                },
            );
            i += 1;
        }
        let draft: bool = match &self.form {
            Some(form) => form.queue_id.is_none(),
            None => false,
        };
        if draft {
            r.push(
                QueueRow {
                    queue_id: None,
                    label: strings.create_queue.clone(),
                    running: true,
                    selected: true,
                },
            );
        }
        r
    }

    /// What stands over the form: the queue's name and whether it runs.
    pub fn header(&self, form: &QueueForm, strings: &QueueStrings) -> (r: QueueHeader)
        ensures
            r.title@ == match form.queue_id {
                None => strings.create_queue@,
                Some(id) => if has_queue(self.queues@, id@) {
                    label_of(self.queues@[queue_index(self.queues@, id@)], *strings)
                } else {
                    Seq::empty()
                },
            },
            opt_text(r.badge) == match form.queue_id {
                None => None,
                Some(_) => Some(
                    if form.is_running {
                        strings.running@
                    } else {
                        strings.stopped@
                    },
                ),
            },
    {
        match &form.queue_id {
            None => QueueHeader { title: strings.create_queue.clone(), badge: None },
            Some(id) => {
                proof {
                    lemma_queue_index(self.queues@, id@);
                }
                let title = match find_queue(&self.queues, id.as_str()) {
                    Some(i) => queue_label(&self.queues[i], strings),
                    None => String::new(),
                };
                let badge = if form.is_running {
                    strings.running.clone()
                } else {
                    strings.stopped.clone()
                };
                QueueHeader { title, badge: Some(badge) }
            },
        }
    }
}

/// Which buttons stand under the form: a queue that is being made can only be saved, and a
/// built-in one cannot be deleted.
pub fn queue_footer(form: &QueueForm) -> (r: QueueFooter)
    ensures
        r.can_delete == match form.queue_id {
            Some(id) => !builtin(id@),
            None => false,
        },
        r.can_toggle == (form.queue_id is Some),
        r.stops == form.is_running,
{
    QueueFooter {
        can_delete: form.queue_id.is_some() && !form.is_builtin(),
        can_toggle: form.queue_id.is_some(),
        stops: form.is_running,
    }
}

/// One of the choices for a time.
#[derive(Debug)]
pub struct TimeChoice {
    pub label: String,
    pub checked: bool,
    /// The time that the choice sets.
    pub time: Option<u16>,
}

/// The two lists from which a time is chosen.
#[derive(Debug)]
pub struct TimeField {
    pub label_key: &'static str,
    pub hour_label: String,
    pub minute_label: String,
    /// Without a time there is nothing to choose a minute for.
    pub minute_enabled: bool,
    /// No time, then each hour; the minute stays.
    pub hours: Vec<TimeChoice>,
    /// The minutes on the step and the present one; the hour stays.
    pub minutes: Vec<TimeChoice>,
}

pub open spec fn hour_of(time: Option<u16>) -> Option<u16> {
    match time {
        Some(t) => Some((t / 60) as u16),
        None => None,
    }
}

pub open spec fn minute_of(time: Option<u16>) -> u16 {
    match time {
        Some(t) => (t % 60) as u16,
        None => 0,
    }
}

pub open spec fn hour_choice_is(time: Option<u16>, h: int, choice: TimeChoice) -> bool {
    &&& choice.label@ == padded(h as nat)
    &&& choice.checked == (hour_of(time) == Some(h as u16))
    &&& choice.time == Some((h * 60 + minute_of(time)) as u16)
}

pub open spec fn minute_choice_is(time: u16, m: u16, choice: TimeChoice) -> bool {
    &&& choice.label@ == padded(m as nat)
    &&& choice.checked == (m == time % 60)
    &&& choice.time == Some((time / 60 * 60 + m) as u16)
}

/// The lists from which one of the times of a schedule is chosen.
pub fn time_field(slot: ScheduleSlot, time: Option<u16>, unset: &str) -> (r: TimeField)
    requires
        time is Some ==> time->0 < 1440,
    ensures
        r.label_key@ == match slot {
            ScheduleSlot::Start => "queueScheduleStartLabel"@,
            ScheduleSlot::Stop => "queueScheduleStopLabel"@,
        },
        r.hour_label@ == match hour_of(time) {
            Some(h) => padded(h as nat),
            None => unset@,
        },
        r.minute_label@ == if time is Some {
            padded(minute_of(time) as nat)
        } else {
            "--"@
        },
        r.minute_enabled == (time is Some),
        r.hours@.len() == 25,
        r.hours@[0].label@ == unset@ && r.hours@[0].checked == (time is None) && r.hours@[0].time
            is None,
        forall|h: int| 0 <= h < 24 ==> hour_choice_is(time, h, #[trigger] r.hours@[h + 1]),
        match time {
            None => r.minutes@.len() == 0,
            Some(t) => exists|choices: Seq<u16>| #[trigger]
                all_offered((t % 60) as u16, choices) && r.minutes@.len() == choices.len()
                    && forall|i: int|
                    0 <= i < choices.len() ==> minute_choice_is(
                        t,
                        choices[i],
                        #[trigger] r.minutes@[i],
                    ),
        },
{
    let minute: u16 = match time {
        Some(t) => t % 60,
        None => 0,
    };
    let mut hours: Vec<TimeChoice> = Vec::new();
    hours.push(TimeChoice { label: unset.to_owned(), checked: time.is_none(), time: None });
    let mut h: u16 = 0;
    while h < 24
        invariant
            h <= 24,
            minute == minute_of(time),
            minute < 60,
            hours@.len() == h + 1,
            hours@[0].label@ == unset@ && hours@[0].checked == (time is None) && hours@[0].time
                is None,
            forall|k: int| 0 <= k < h ==> hour_choice_is(time, k, #[trigger] hours@[k + 1]),
        decreases 24 - h,
    {
        let checked: bool = match time {
            Some(t) => t / 60 == h,
            None => false,
        };
        hours.push(
            TimeChoice { label: padded_number(h as u64), checked, time: Some(h * 60 + minute) },
        );
        assert(hour_choice_is(time, h as int, hours@[h + 1]));
        h += 1;
    }
    let mut minutes: Vec<TimeChoice> = Vec::new();
    let (hour_label, minute_label) = match time {
        None => (unset.to_owned(), "--".to_owned()),
        Some(t) => {
            let choices = minute_choices(t % 60);
            let mut i: usize = 0;
            while i < choices.len()
                invariant
                    i <= choices@.len(),
                    t < 1440,
                    time == Some(t),
                    minutes@.len() == i,
                    all_offered((t % 60) as u16, choices@),
                    forall|k: int|
                        0 <= k < i ==> minute_choice_is(t, choices@[k], #[trigger] minutes@[k]),
                decreases choices@.len() - i,
            {
                let m: u16 = choices[i];
                assert(choices@.contains(m));
                minutes.push(
                    TimeChoice {
                        label: padded_number(m as u64),
                        checked: m == t % 60,
                        time: Some(t / 60 * 60 + m),
                    },
                );
                i += 1;
            }
            (padded_number((t / 60) as u64), padded_number((t % 60) as u64))
        },
    };
    TimeField {
        label_key: match slot {
            ScheduleSlot::Start => "queueScheduleStartLabel",
            ScheduleSlot::Stop => "queueScheduleStopLabel",
        },
        hour_label,
        minute_label,
        minute_enabled: time.is_some(),
        hours,
        minutes,
    }
}

/// A weekday of the schedule.
#[derive(Debug)]
pub struct DayRow {
    pub label: String,
    pub bit: i32,
    pub checked: bool,
}

/// The weekdays, from a list of their names with commas between them.
pub fn day_rows(weekdays: &str, days: i32) -> (r: Vec<DayRow>)
    requires
        split(weekdays@, Separator::Exactly(',')).len() <= 32,
    ensures
        ({
            let names = split(weekdays@, Separator::Exactly(','));
            &&& r@.len() == names.len()
            &&& forall|i: int|
                0 <= i < r@.len() ==> (#[trigger] r@[i]).label@ == names[i] && r@[i].bit
                    == 1i32 << (i as i32) && r@[i].checked == (days & (1i32 << (i as i32)) != 0)
        }),
{
    let names = split_parts(weekdays, Separator::Exactly(','));
    let ghost views = texts(names@);
    let mut r: Vec<DayRow> = Vec::new();
    let mut i: usize = 0;
    while i < names.len()
        invariant
            i <= names@.len() <= 32,
            views == texts(names@),
            r@.len() == i,
            forall|k: int|
                0 <= k < i ==> (#[trigger] r@[k]).label@ == views[k] && r@[k].bit == 1i32 << (
                k as i32) && r@[k].checked == (days & (1i32 << (k as i32)) != 0),
        decreases names@.len() - i,
    {
        let shift: i32 = i as i32;
        let bit: i32 = 1i32 << shift;
        assert(views[i as int] == names@[i as int]@);
        r.push(DayRow { label: names[i].clone(), bit, checked: days & bit != 0 });
        i += 1;
    }
    r
}

/// The form of a queue gives its times back when it is saved: a time that the service wrote is
/// written again.
pub proof fn law_saved_times_are_kept(queue: QueueDto, form: QueueForm, minutes: u16)
    requires
        form_is(queue, form),
        minutes < 1440,
        queue.schedule_start@ == time_text(Some(minutes)),
    ensures
        time_text(form.schedule_start) == queue.schedule_start@,
{
    law_time_round_trips(minutes);
}

/// Opening a queue in the form and saving it unchanged sends the queue's own values back: its
/// limits of both directions, how many tasks run at once and in how many parts; name, folder and
/// identification without white space around them.
pub proof fn law_unchanged_form_saves_the_queue(queue: &QueueDto, form: QueueForm, fields: QueueFields)
    requires
        call_ensures(QueueForm::for_queue, (queue,), form),
        fields_are(form, fields),
    ensures
        fields.speed_limit_kbps == queue.speed_limit_kbps,
        fields.upload_limit_kbps == queue.upload_limit_kbps,
        fields.max_concurrent == queue.max_concurrent,
        fields.default_segments == queue.default_segments,
        fields.name@ == trimmed(queue.name@),
        fields.default_save_dir@ == trimmed(queue.default_save_dir@),
        fields.default_user_agent@ == trimmed(queue.default_user_agent@),
{
    law_number_is_read_back(queue.speed_limit_kbps as int);
    law_number_is_read_back(queue.upload_limit_kbps as int);
    law_number_is_read_back(queue.max_concurrent as int);
    law_number_is_read_back(queue.default_segments as int);
}

/// Selecting a queue and saving it at once sends one update and one schedule, both for that queue:
/// the update with the queue's own values, the schedule with its own switch and days, and with the
/// same times where the service wrote them.
pub proof fn law_selected_queue_is_saved_as_it_is(
    view: &mut QueueManagerView,
    form: QueueForm,
    queue: &QueueDto,
    commands: Vec<QueueCommand>,
    start: u16,
)
    requires
        call_ensures(QueueForm::for_queue, (queue,), form),
        old(view).form == Some(form),
        trimmed(queue.name@).len() > 0,
        start < 1440,
        queue.schedule_start@ == time_text(Some(start)),
        queue.schedule_stop@ == time_text(None),
        call_ensures(QueueManagerView::save, (view,), commands),
    ensures
        commands@.len() == 2,
        match commands@[0] {
            QueueCommand::Update { queue_id, fields } => {
                &&& queue_id@ == queue.queue_id@
                &&& fields.speed_limit_kbps == queue.speed_limit_kbps
                &&& fields.upload_limit_kbps == queue.upload_limit_kbps
                &&& fields.max_concurrent == queue.max_concurrent
                &&& fields.default_segments == queue.default_segments
                &&& fields.name@ == trimmed(queue.name@)
                &&& fields.default_save_dir@ == trimmed(queue.default_save_dir@)
                &&& fields.default_user_agent@ == trimmed(queue.default_user_agent@)
            },
            _ => false,
        },
        match commands@[1] {
            QueueCommand::Schedule { queue_id, enabled, start_time, stop_time, days } => {
                &&& queue_id@ == queue.queue_id@
                &&& enabled == queue.schedule_enabled
                &&& start_time@ == queue.schedule_start@
                &&& stop_time@ == queue.schedule_stop@
                &&& days == queue.schedule_days
            },
            _ => false,
        },
{
    law_time_round_trips(start);
    law_no_time_round_trips();
    match commands@[0] {
        QueueCommand::Update { queue_id, fields } => {
            law_unchanged_form_saves_the_queue(queue, form, fields);
        },
        _ => {},
    }
}

/// A number that was typed is the number that is saved, with white space around it or without; what
/// is no number is saved as zero.
pub proof fn law_typed_number_is_saved(
    before: Seq<char>,
    number: i64,
    after: Seq<char>,
    text: &str,
    read: i64,
)
    requires
        call_ensures(parse_int, (text,), read),
        blank(before),
        blank(after),
        text@ == before + decimal_int(number as int) + after,
    ensures
        read == number,
{
    let s = decimal_int(number as int);
    law_number_is_read_back(number as int);
    let ends = law_trimming_takes_the_ends_off(s);
    assert(s.len() > 0) by {
        if s.len() == 0 {
            assert(signed_value(s) is None);
        }
    }
    law_trimming_ignores_the_ends(before, s, after);
}

/// Each field of the form is saved as itself: changing one changes what is sent for it and for no
/// other.
pub proof fn law_fields_are_saved_apart(a: QueueForm, b: QueueForm, sent: QueueFields, then: QueueFields)
    requires
        fields_are(a, sent),
        fields_are(b, then),
    ensures
        a.speed_limit@ == b.speed_limit@ ==> sent.speed_limit_kbps == then.speed_limit_kbps,
        a.upload_limit@ == b.upload_limit@ ==> sent.upload_limit_kbps == then.upload_limit_kbps,
        a.max_concurrent@ == b.max_concurrent@ ==> sent.max_concurrent == then.max_concurrent,
        a.segments@ == b.segments@ ==> sent.default_segments == then.default_segments,
        a.name@ == b.name@ ==> sent.name@ == then.name@,
        a.save_dir@ == b.save_dir@ ==> sent.default_save_dir@ == then.default_save_dir@,
        a.user_agent@ == b.user_agent@ ==> sent.default_user_agent@ == then.default_user_agent@,
{
}

/// A form for a new queue that only got a name is saved as one new queue of that name, without
/// limits, folder or identification of its own.
pub proof fn law_new_queue_is_made_by_its_name(
    view: &mut QueueManagerView,
    form: QueueForm,
    name: String,
    commands: Vec<QueueCommand>,
)
    requires
        call_ensures(QueueForm::blank, (), form),
        trimmed(name@).len() > 0,
        old(view).form == Some(QueueForm { name, ..form }),
        call_ensures(QueueManagerView::save, (view,), commands),
    ensures
        commands@.len() == 1,
        match commands@[0] {
            QueueCommand::Create { fields } => {
                &&& fields.name@ == trimmed(name@)
                &&& fields.speed_limit_kbps == 0
                &&& fields.upload_limit_kbps == 0
                &&& fields.max_concurrent == 0
                &&& fields.default_segments == 0
                &&& fields.default_save_dir@.len() == 0
                &&& fields.default_user_agent@.len() == 0
            },
            _ => false,
        },
        final(view).form is None,
{
    reveal_strlit("0");
    assert("0"@ =~= decimal_int(0));
    law_number_is_read_back(0);
    let none = Seq::<char>::empty();
    assert(trim_start(none) == none);
    assert(trimmed(none) == none);
}

/// Without a name nothing is sent, the form stays and the reason is shown.
pub proof fn law_nameless_queue_is_not_saved(
    view: &mut QueueManagerView,
    commands: Vec<QueueCommand>,
)
    requires
        old(view).form is Some,
        blank((old(view).form->0).name@),
        call_ensures(QueueManagerView::save, (view,), commands),
    ensures
        commands@.len() == 0,
        final(view).form == old(view).form,
        final(view).error == Some(QueueError::NameRequired),
{
    law_blank_is_trimmed_to_nothing((view.form->0).name@);
}

/// A running queue is stopped and a stopped one started, each by its own identifier; a queue that
/// is not made yet is neither.
pub proof fn law_toggle_turns_the_queue(
    view: &QueueManagerView,
    form: QueueForm,
    id: String,
    command: Option<QueueCommand>,
)
    requires
        view.form == Some(form),
        call_ensures(QueueManagerView::toggle_running, (view,), command),
    ensures
        form.queue_id == Some(id) && form.is_running ==> match command {
            Some(QueueCommand::Stop { queue_id }) => queue_id@ == id@,
            _ => false,
        },
        form.queue_id == Some(id) && !form.is_running ==> match command {
            Some(QueueCommand::Start { queue_id }) => queue_id@ == id@,
            _ => false,
        },
        form.queue_id is None ==> command is None,
{
}

/// After a snapshot the queues stand in order of position, those of one position in the order they
/// came, and none is lost or added.
pub proof fn law_queues_stand_by_position(
    view: &mut QueueManagerView,
    queues: &Vec<QueueDto>,
    i: int,
    j: int,
)
    requires
        call_ensures(QueueManagerView::replace_snapshot, (view, queues), ()),
        0 <= i < j < queues@.len(),
    ensures
        final(view).queues@.len() == queues@.len(),
        final(view).queues@[i].position <= final(view).queues@[j].position,
        queues@.contains(final(view).queues@[i]),
        final(view).queues@.contains(queues@[i]),
{
    let after = final(view).queues@;
    let n = queues@.len();
    let less = position_rule(queues@);
    let order = choose|order: Seq<usize>| #[trigger]
        stable_order(order, n, less) && after.len() == n && forall|i: int|
            0 <= i < after.len() ==> #[trigger] after[i] == queues@[order[i] as int];
    assert(crate::order::stands_before(less, order[i] as int, order[j] as int));
    assert(queues@[order[i] as int] == after[i]);
    crate::task_table::lemma_order_onto(order, n, less, i);
    let k = choose|k: int| 0 <= k < order.len() && order[k] == i;
    assert(after[k] == queues@[i]);
}

/// A snapshot drops the form of a queue that is gone, shows in the form of one that is left whether
/// it runs, and leaves everything that was typed alone.
pub proof fn law_snapshot_keeps_what_was_typed(
    view: &mut QueueManagerView,
    queues: &Vec<QueueDto>,
    form: QueueForm,
    id: String,
)
    requires
        call_ensures(QueueManagerView::replace_snapshot, (view, queues), ()),
        old(view).form == Some(form),
        form.queue_id == Some(id),
    ensures
        (forall|i: int| 0 <= i < queues@.len() ==> (#[trigger] queues@[i]).queue_id@ != id@)
            ==> final(view).form is None,
        (exists|i: int| 0 <= i < queues@.len() && (#[trigger] queues@[i]).queue_id@ == id@) ==> {
            &&& final(view).form is Some
            &&& (final(view).form->0) == (QueueForm {
                is_running: (final(view).form->0).is_running,
                ..form
            })
            &&& exists|i: int|
                0 <= i < queues@.len() && (#[trigger] queues@[i]).queue_id@ == id@
                    && queues@[i].is_running == (final(view).form->0).is_running
        },
{
    let after = final(view).queues@;
    let n = queues@.len();
    let less = position_rule(queues@);
    let order = choose|order: Seq<usize>| #[trigger]
        stable_order(order, n, less) && after.len() == n && forall|i: int|
            0 <= i < after.len() ==> #[trigger] after[i] == queues@[order[i] as int];
    lemma_queue_index(after, id@);
    if has_queue(after, id@) {
        let k = queue_index(after, id@);
        assert(after[k] == queues@[order[k] as int]);
        assert(queues@[order[k] as int].queue_id@ == id@);
    }
    if exists|i: int| 0 <= i < queues@.len() && (#[trigger] queues@[i]).queue_id@ == id@ {
        let i = choose|i: int| 0 <= i < queues@.len() && (#[trigger] queues@[i]).queue_id@ == id@;
        crate::task_table::lemma_order_onto(order, n, less, i);
        let k = choose|k: int| 0 <= k < order.len() && order[k] == i;
        assert(after[k].queue_id@ == id@);
        assert(has_queue(after, id@));
    }
}

/// The time that a choice of hour or minute sets keeps the other half: an hour keeps the minute,
/// a minute keeps the hour. The choice that is ticked is the one that changes nothing.
pub proof fn law_time_choices_keep_the_other_half(
    t: u16,
    h: int,
    m: u16,
    hour: TimeChoice,
    minute: TimeChoice,
)
    requires
        t < 1440,
        0 <= h < 24,
        offered((t % 60) as u16, m),
        hour_choice_is(Some(t), h, hour),
        minute_choice_is(t, m, minute),
    ensures
        match hour.time {
            Some(set) => set / 60 == h && set % 60 == t % 60 && (hour.checked <==> set == t),
            None => false,
        },
        match minute.time {
            Some(set) => set / 60 == t / 60 && set % 60 == m && (minute.checked <==> set == t),
            None => false,
        },
{
    assert(m < 60);
}

/// Setting one end of the schedule leaves the other, and everything else in the form.
pub proof fn law_schedule_ends_are_set_apart(
    view: &mut QueueManagerView,
    form: QueueForm,
    time: Option<u16>,
    slot: ScheduleSlot,
)
    requires
        old(view).form == Some(form),
        call_ensures(QueueManagerView::set_schedule_time, (view, slot, time), ()),
    ensures
        final(view).form is Some,
        slot == ScheduleSlot::Start ==> (final(view).form->0) == (QueueForm {
            schedule_start: time,
            ..form
        }),
        slot == ScheduleSlot::Stop ==> (final(view).form->0) == (QueueForm {
            schedule_stop: time,
            ..form
        }),
{
}

/// The two queues that always exist cannot be deleted, any other that exists can, and one that is
/// not made yet can be neither deleted nor started.
pub proof fn law_own_queues_can_be_deleted(form: &QueueForm, id: String, footer: QueueFooter)
    requires
        call_ensures(queue_footer, (form,), footer),
    ensures
        form.queue_id is None ==> !footer.can_delete && !footer.can_toggle,
        form.queue_id == Some(id) ==> footer.can_toggle && (footer.can_delete <==> id@ != MAIN_QUEUE_ID@
            && id@ != LATER_QUEUE_ID@),
        footer.stops <==> form.is_running,
{
}

/// In the list of queues exactly the one in the form is selected, and a row shows its own queue's
/// identifier and whether that queue runs.
pub proof fn law_list_selects_the_queue_in_the_form(
    view: &QueueManagerView,
    strings: &QueueStrings,
    rows: Vec<QueueRow>,
    form: QueueForm,
    id: String,
    i: int,
)
    requires
        call_ensures(QueueManagerView::list_rows, (view, strings), rows),
        view.form == Some(form),
        form.queue_id == Some(id),
        0 <= i < view.queues@.len(),
    ensures
        rows@.len() == view.queues@.len(),
        rows@[i].selected <==> view.queues@[i].queue_id@ == id@,
        rows@[i].running == view.queues@[i].is_running,
        opt_text(rows@[i].queue_id) == Some(view.queues@[i].queue_id@),
        view.queues@[i].queue_id@ != MAIN_QUEUE_ID@ && view.queues@[i].queue_id@
            != LATER_QUEUE_ID@ ==> rows@[i].label@ == view.queues@[i].name@,
{
    assert(queue_row_is(view.queues@[i], view.form, *strings, rows@[i]));
}

/// Ticking a day ticks it and unticking it unticks it: the row of the day says afterwards what was
/// set.
pub proof fn law_ticked_day_is_ticked(
    view: &mut QueueManagerView,
    form: QueueForm,
    weekdays: &str,
    before: Vec<DayRow>,
    after: Vec<DayRow>,
    day: int,
    checked: bool,
)
    requires
        old(view).form == Some(form),
        split(weekdays@, Separator::Exactly(',')).len() <= 32,
        call_ensures(day_rows, (weekdays, form.schedule_days), before),
        0 <= day < before@.len(),
        before@[day].bit != 0,
        call_ensures(QueueManagerView::set_schedule_day, (view, before@[day].bit, checked), ()),
        final(view).form is Some,
        call_ensures(day_rows, (weekdays, (final(view).form->0).schedule_days), after),
    ensures
        after@.len() == before@.len(),
        after@[day].checked == checked,
        after@[day].label@ == before@[day].label@,
{
    let days = form.schedule_days;
    let bit = before@[day].bit;
    assert((days | bit) & bit != 0 && (days & !bit) & bit == 0) by (bit_vector)
        requires
            bit != 0,
    ;
    assert(after@[day].bit == bit);
}

/// Selecting a queue fills the form with that queue's own values and clears the error; one that is not
/// there changes nothing.
pub proof fn law_selected_queue_fills_the_form(
    view: &mut QueueManagerView,
    queue_id: &str,
    i: int,
)
    requires
        call_ensures(QueueManagerView::select_queue, (view, queue_id), ()),
        0 <= i < old(view).queues@.len(),
    ensures
        old(view).queues@[i].queue_id@ == queue_id@ && (forall|k: int|
            0 <= k < i ==> (#[trigger] old(view).queues@[k]).queue_id@ != queue_id@) ==> {
            let queue = old(view).queues@[i];
            &&& final(view).error is None
            &&& final(view).form is Some
            &&& opt_text((final(view).form->0).queue_id) == Some(queue_id@)
            &&& (final(view).form->0).name@ == queue.name@
            &&& (final(view).form->0).save_dir@ == queue.default_save_dir@
            &&& (final(view).form->0).user_agent@ == queue.default_user_agent@
            &&& (final(view).form->0).schedule_enabled == queue.schedule_enabled
            &&& (final(view).form->0).schedule_days == queue.schedule_days
            &&& (final(view).form->0).is_running == queue.is_running
        },
        (forall|k: int|
            0 <= k < old(view).queues@.len() ==> (#[trigger] old(view).queues@[k]).queue_id@
                != queue_id@) ==> *final(view) == *old(view),
{
    let queues = old(view).queues@;
    lemma_queue_index(queues, queue_id@);
    if queues[i].queue_id@ == queue_id@ && (forall|k: int|
        0 <= k < i ==> (#[trigger] queues[k]).queue_id@ != queue_id@) {
        let j = queue_index(queues, queue_id@);
        if j > i {
            assert(queues[i].queue_id@ != queue_id@);
        }
        assert(has_queue(queues, queue_id@));
        assert(j == i);
    }
}

/// At first the main queue is in the form, where there is one, and else the first; a form that is there
/// stays.
pub proof fn law_main_queue_is_shown_at_first(view: &mut QueueManagerView, i: int)
    requires
        call_ensures(QueueManagerView::ensure_form, (view,), ()),
        0 <= i < old(view).queues@.len(),
    ensures
        old(view).form is Some ==> final(view).form == old(view).form,
        old(view).form is None ==> final(view).form is Some,
        old(view).form is None && old(view).queues@[i].queue_id@ == "main"@ ==> opt_text(
            (final(view).form->0).queue_id,
        ) == Some("main"@),
        old(view).form is None && (forall|k: int|
            0 <= k < old(view).queues@.len() ==> (#[trigger] old(view).queues@[k]).queue_id@
                != "main"@) ==> opt_text((final(view).form->0).queue_id) == Some(
            old(view).queues@[0].queue_id@,
        ),
        final(view).queues == old(view).queues,
{
    let queues = old(view).queues@;
    lemma_queue_index(queues, MAIN_QUEUE_ID@);
    if queues[i].queue_id@ == "main"@ {
        let j = queue_index(queues, MAIN_QUEUE_ID@);
        if j > i {
            assert(queues[i].queue_id@ != MAIN_QUEUE_ID@);
        }
        assert(has_queue(queues, MAIN_QUEUE_ID@));
    }
}

/// A new queue begins with an empty form that belongs to no queue.
pub proof fn law_new_queue_begins_empty(view: &mut QueueManagerView)
    requires
        call_ensures(QueueManagerView::new_queue, (view,), ()),
    ensures
        final(view).form is Some,
        (final(view).form->0).queue_id is None,
        (final(view).form->0).name@.len() == 0,
        (final(view).form->0).save_dir@.len() == 0,
        !(final(view).form->0).schedule_enabled,
        (final(view).form->0).schedule_days == 127,
        (final(view).form->0).is_running,
        final(view).error is None,
        final(view).queues == old(view).queues,
{
}

/// Deleting asks by the queue's name, is for the queue in the form, and leaves no form.
pub proof fn law_delete_is_for_the_queue_in_the_form(
    view: &QueueManagerView,
    deleting: &mut QueueManagerView,
    template: &str,
    form: QueueForm,
    id: String,
    question: Option<(String, String)>,
    command: QueueCommand,
)
    requires
        view.form == Some(form),
        form.queue_id == Some(id),
        call_ensures(QueueManagerView::confirm_delete, (view, template), question),
        call_ensures(QueueManagerView::delete, (deleting, id), command),
    ensures
        question is Some,
        (question->0).0@ == id@,
        (question->0).1@ == filled(template@, "name"@, form.name@),
        match command {
            QueueCommand::Delete { queue_id } => queue_id@ == id@,
            _ => false,
        },
        final(deleting).form is None,
        final(deleting).queues == old(deleting).queues,
{
}

/// A folder is picked by one dialog at a time; the one that is picked is put into the form, and giving
/// up leaves the folder.
pub proof fn law_picked_folder_is_put_into_the_form(
    begin: &mut QueueManagerView,
    again: &mut QueueManagerView,
    end: &mut QueueManagerView,
    form: QueueForm,
    picked: Option<String>,
    opened: bool,
    reopened: bool,
)
    requires
        old(begin).form == Some(form),
        !form.picking_dir,
        call_ensures(QueueManagerView::begin_pick_dir, (begin,), opened),
        *old(again) == *final(begin),
        call_ensures(QueueManagerView::begin_pick_dir, (again,), reopened),
        *old(end) == *final(again),
        call_ensures(QueueManagerView::end_pick_dir, (end, picked), ()),
    ensures
        opened && !reopened,
        final(end).form is Some,
        !(final(end).form->0).picking_dir,
        picked matches Some(path) ==> (final(end).form->0).save_dir@ == path@,
        picked is None ==> (final(end).form->0).save_dir@ == form.save_dir@,
        (final(end).form->0).name@ == form.name@,
{
}

/// Switching the schedule changes the switch alone; a failed command shows that it failed and leaves
/// the form.
pub proof fn law_schedule_is_switched_alone(
    view: &mut QueueManagerView,
    failing: &mut QueueManagerView,
    form: QueueForm,
    enabled: bool,
)
    requires
        old(view).form == Some(form),
        call_ensures(QueueManagerView::set_schedule_enabled, (view, enabled), ()),
        call_ensures(QueueManagerView::command_failed, (failing,), ()),
    ensures
        final(view).form == Some(QueueForm { schedule_enabled: enabled, ..form }),
        final(failing).error == Some(QueueError::ActionFailed),
        final(failing).form == old(failing).form,
{
}

/// The two queues that always exist go by the words for them, any other by its own name.
pub proof fn law_queues_go_by_their_names(
    queue: &QueueDto,
    strings: &QueueStrings,
    view: &QueueManagerView,
    form: &QueueForm,
    label: String,
    header: QueueHeader,
)
    requires
        call_ensures(queue_label, (queue, strings), label),
        call_ensures(QueueManagerView::header, (view, form, strings), header),
    ensures
        queue.queue_id@ == "main"@ ==> label@ == strings.main_queue@,
        queue.queue_id@ == "later"@ ==> label@ == strings.later_queue@,
        queue.queue_id@ != "main"@ && queue.queue_id@ != "later"@ ==> label@ == queue.name@,
        form.queue_id is None ==> header.title@ == strings.create_queue@ && header.badge is None,
        form.queue_id is Some && form.is_running ==> opt_text(header.badge) == Some(
            strings.running@,
        ),
        form.queue_id is Some && !form.is_running ==> opt_text(header.badge) == Some(
            strings.stopped@,
        ),
{
    reveal_strlit("main");
    reveal_strlit("later");
    assert("main"@.len() == 4 && "later"@.len() == 5);
}

/// Writing a time and reading it gives it back; what is no time is read as none.
pub proof fn law_written_time_is_read(minutes: u16, text: String, raw: &str, read: Option<u16>)
    requires
        minutes < 1440,
        call_ensures(format_time, (Some(minutes),), text),
        raw@ == text@,
        call_ensures(parse_time, (raw,), read),
    ensures
        read == Some(minutes),
        text@.len() == 5,
{
    law_time_round_trips(minutes);
    lemma_padded_reads_back((minutes / 60) as nat);
    lemma_padded_reads_back((minutes % 60) as nat);
    reveal_strlit(":");
}

/// The minutes that are offered rise, hold the present one, and else go in steps of five below sixty.
pub proof fn law_offered_minutes_go_in_steps(current: u16, choices: Vec<u16>, m: u16, i: int, j: int)
    requires
        call_ensures(minute_choices, (current,), choices),
        0 <= i < j < choices@.len(),
    ensures
        choices@.contains(current),
        choices@[i] < choices@[j],
        m < 60 && m % 5 == 0 ==> choices@.contains(m),
        choices@.contains(m) ==> m == current || (m < 60 && m % 5 == 0),
{
    assert(offered(current, current));
}

/// Only the two queues that always exist are built in.
pub proof fn law_two_queues_are_built_in(form: &QueueForm, id: String, yes: bool)
    requires
        call_ensures(QueueForm::is_builtin, (form,), yes),
    ensures
        form.queue_id == Some(id) ==> (yes <==> id@ == "main"@ || id@ == "later"@),
        form.queue_id is None ==> !yes,
{
}

/// A day is set and cleared by its bit, and the other days stay.
pub proof fn law_day_is_set_by_its_bit(days: i32, bit: i32, on: i32, off: i32)
    requires
        call_ensures(toggle_day_bit, (days, bit, true), on),
        call_ensures(toggle_day_bit, (days, bit, false), off),
    ensures
        on & bit == bit,
        off & bit == 0,
        on & !bit == days & !bit,
        off & !bit == days & !bit,
{
    law_toggle_day_touches_one_bit(days, bit);
}

} // verus!
