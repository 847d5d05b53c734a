//! The one session with the agent: snapshots and events in their order, and when the views learn
//! that the agent is out of touch.

use vstd::prelude::*;

use crate::text::same;

verus! {

/// How long the agent may be out of touch before the views learn of it, in milliseconds.
pub const OFFLINE_NOTICE_GRACE_MILLIS: u64 = 800;

/// How many events are taken at once.
pub const EVENT_BATCH: usize = 256;

/// Where a snapshot stands in the order of events: the run of the agent that it belongs to, and
/// the last event in it.
#[derive(Debug)]
pub struct Cursor {
    pub epoch: String,
    pub sequence: u64,
    /// Whether it is a snapshot of an agent.
    pub agent: bool,
}

/// An event on its way to the views.
#[derive(Debug)]
pub struct EventFrame {
    pub epoch: String,
    pub sequence: u64,
    /// Whether it is an event of an agent.
    pub agent: bool,
    /// Whether the views are to see it: not a sample that is older than the one they have.
    pub deliver: bool,
}

/// What comes of putting an event into a snapshot: whether the views are to see it, or that the
/// order is broken.
pub open spec fn frame_result(cursor: Cursor, frame: EventFrame) -> Result<bool, ()> {
    if cursor.epoch@ != frame.epoch@ {
        Err(())
    } else if frame.sequence <= cursor.sequence {
        Ok(false)
    } else if frame.sequence != cursor.sequence + 1 {
        Err(())
    } else if !cursor.agent || !frame.agent {
        Err(())
    } else {
        Ok(frame.deliver)
    }
}

/// Whether an event is put into a snapshot.
pub open spec fn frame_merges(cursor: Cursor, frame: EventFrame) -> bool {
    cursor.epoch@ == frame.epoch@ && frame.sequence == cursor.sequence + 1 && cursor.agent
        && frame.agent
}

/// Puts an event into a snapshot of the same run, strictly one after the other: an old event
/// changes nothing, and a gap is not passed over.
pub fn apply_frame(cursor: &mut Cursor, frame: &EventFrame) -> (r: Result<bool, ()>)
    ensures
        r == frame_result(*old(cursor), *frame),
        *final(cursor) == if frame_merges(*old(cursor), *frame) {
            Cursor { sequence: frame.sequence, ..*old(cursor) }
        } else {
            *old(cursor)
        },
{
    if !same(cursor.epoch.as_str(), frame.epoch.as_str()) {
        return Err(());
    }
    if frame.sequence <= cursor.sequence {
        return Ok(false);
    }
    if frame.sequence != cursor.sequence + 1 {
        return Err(());
    }
    if !cursor.agent || !frame.agent {
        return Err(());
    }
    cursor.sequence = frame.sequence;
    Ok(frame.deliver)
}

/// What the client reports.
#[derive(Debug)]
pub enum ClientEvent {
    Snapshot(Cursor),
    Event(EventFrame),
    /// The connection broke.
    Stale,
    /// The connection cannot be made.
    Fatal,
    /// The agent has left.
    ServiceStopped,
}

/// What the views are told.
#[derive(Clone, Copy, Debug, PartialEq, Eq, Structural)]
pub enum SessionSignal {
    Snapshot,
    Event,
    Stale,
    Fatal,
    ServiceStopped,
}

/// What is done about a report.
#[derive(Clone, Copy, Debug, PartialEq, Eq, Structural)]
pub struct SessionStep {
    pub signal: Option<SessionSignal>,
    /// The event is put into the snapshot.
    pub merge: bool,
    /// A timer of this generation is set, after which the views may learn that the agent is out
    /// of touch.
    pub timer: Option<u64>,
    /// What runs is unknown from now on.
    pub drop_runtime: bool,
}

pub open spec fn quiet_step() -> SessionStep {
    SessionStep { signal: None, merge: false, timer: None, drop_runtime: false }
}

/// The session's state.
#[derive(Debug)]
pub struct AgentSession {
    pub latest: Option<Cursor>,
    /// Whether the agent is out of touch; events are then no longer put into the snapshot.
    pub stale: bool,
    /// Whether the views know it.
    pub offline_notified: bool,
    /// Counts what makes a timer that runs meaningless.
    pub offline_generation: u64,
}

pub open spec fn next_generation(g: u64) -> u64 {
    if g == u64::MAX {
        0
    } else {
        (g + 1) as u64
    }
}

fn bump(g: u64) -> (r: u64)
    ensures
        r == next_generation(g),
{
    if g == u64::MAX {
        0
    } else {
        g + 1
    }
}

impl AgentSession {
    /// What the views know is so.
    pub open spec fn wf(&self) -> bool {
        self.offline_notified ==> self.stale
    }

    /// The session once the connection broke.
    pub open spec fn broken(self) -> AgentSession {
        if self.stale {
            self
        } else {
            AgentSession {
                stale: true,
                offline_generation: next_generation(self.offline_generation),
                ..self
            }
        }
    }

    pub open spec fn broken_step(self) -> SessionStep {
        SessionStep {
            timer: if self.stale {
                None
            } else {
                Some(next_generation(self.offline_generation))
            },
            ..quiet_step()
        }
    }

    /// The session once the views know that the agent is out of touch.
    pub open spec fn offline(self) -> AgentSession {
        AgentSession {
            stale: true,
            offline_notified: true,
            offline_generation: next_generation(self.offline_generation),
            ..self
        }
    }

    /// A session that waits for its first snapshot, and the generation of the timer that is set.
    pub fn new() -> (r: (AgentSession, u64))
        ensures
            r.0.wf(),
            r.0.latest is None,
            r.0.stale,
            !r.0.offline_notified,
            r.0.offline_generation == 1,
            r.1 == 1,
    {
        (
            AgentSession { latest: None, stale: true, offline_notified: false, offline_generation: 1 },
            1,
        )
    }

    /// Whether there is something to show: a snapshot, or that the agent is out of touch.
    pub fn is_settled(&self) -> (r: bool)
        ensures
            r == (self.latest is Some || self.offline_notified),
    {
        self.latest.is_some() || self.offline_notified
    }

    fn go_stale(&mut self) -> (r: SessionStep)
        ensures
            *final(self) == old(self).broken(),
            r == old(self).broken_step(),
    {
        if self.stale {
            return SessionStep { signal: None, merge: false, timer: None, drop_runtime: false };
        }
        self.stale = true;
        self.offline_generation = bump(self.offline_generation);
        SessionStep {
            signal: None,
            merge: false,
            timer: Some(self.offline_generation),
            drop_runtime: false,
        }
    }

    fn notify_offline_now(&mut self)
        ensures
            *final(self) == old(self).offline(),
    {
        self.stale = true;
        self.offline_notified = true;
        self.offline_generation = bump(self.offline_generation);
    }

    /// Takes note of a report. While the agent is out of touch events are passed over until a new
    /// snapshot comes; an event that breaks the order puts the agent out of touch.
    pub fn ingest(&mut self, event: ClientEvent) -> (r: SessionStep)
        requires
            old(self).wf(),
        ensures
            final(self).wf(),
            match event {
                ClientEvent::Snapshot(cursor) => {
                    &&& *final(self) == (AgentSession {
                        latest: Some(cursor),
                        stale: false,
                        offline_notified: false,
                        offline_generation: next_generation(old(self).offline_generation),
                    })
                    &&& r == (SessionStep {
                        signal: Some(SessionSignal::Snapshot),
                        ..quiet_step()
                    })
                },
                ClientEvent::Event(frame) => if old(self).stale {
                    *final(self) == *old(self) && r == quiet_step()
                } else {
                    match old(self).latest {
                        None => *final(self) == old(self).broken() && r == old(self).broken_step(),
                        Some(cursor) => match frame_result(cursor, frame) {
                            Err(_) => *final(self) == old(self).broken() && r == old(self).broken_step(),
                            Ok(deliver) => {
                                let merges = frame_merges(cursor, frame);
                                &&& *final(self) == if merges {
                                    AgentSession {
                                        latest: Some(
                                            Cursor { sequence: frame.sequence, ..cursor },
                                        ),
                                        ..*old(self)
                                    }
                                } else {
                                    *old(self)
                                }
                                &&& r == (SessionStep {
                                    merge: merges,
                                    signal: if deliver {
                                        Some(SessionSignal::Event)
                                    } else {
                                        None
                                    },
                                    ..quiet_step()
                                })
                            },
                        },
                    }
                },
                ClientEvent::Stale => *final(self) == old(self).broken() && r == old(self).broken_step(),
                ClientEvent::Fatal => *final(self) == old(self).offline() && r == (SessionStep {
                    signal: Some(SessionSignal::Fatal),
                    drop_runtime: true,
                    ..quiet_step()
                }),
                ClientEvent::ServiceStopped => *final(self) == old(self).offline() && r == (
                SessionStep {
                    signal: Some(SessionSignal::ServiceStopped),
                    drop_runtime: true,
                    ..quiet_step()
                }),
            },
    {
        match event {
            ClientEvent::Snapshot(cursor) => {
                self.latest = Some(cursor);
                self.stale = false;
                self.offline_notified = false;
                self.offline_generation = bump(self.offline_generation);
                SessionStep {
                    signal: Some(SessionSignal::Snapshot),
                    merge: false,
                    timer: None,
                    drop_runtime: false,
                }
            },
            ClientEvent::Event(frame) => {
                if self.stale {
                    return SessionStep {
                        signal: None,
                        merge: false,
                        timer: None,
                        drop_runtime: false,
                    };
                }
                let mut merge: bool = false;
                let result = match &mut self.latest {
                    Some(cursor) => {
                        let before: u64 = cursor.sequence;
                        let result = apply_frame(cursor, &frame);
                        merge = cursor.sequence != before;
                        result
                    },
                    None => Err(()),
                };
                match result {
                    Ok(deliver) => SessionStep {
                        signal: if deliver {
                            Some(SessionSignal::Event)
                        } else {
                            None
                        },
                        merge,
                        timer: None,
                        drop_runtime: false,
                    },
                    Err(_) => self.go_stale(),
                }
            },
            ClientEvent::Stale => self.go_stale(),
            ClientEvent::Fatal => {
                self.notify_offline_now();
                SessionStep {
                    signal: Some(SessionSignal::Fatal),
                    merge: false,
                    timer: None,
                    drop_runtime: true,
                }
            },
            ClientEvent::ServiceStopped => {
                self.notify_offline_now();
                SessionStep {
                    signal: Some(SessionSignal::ServiceStopped),
                    merge: false,
                    timer: None,
                    drop_runtime: true,
                }
            },
        }
    }

    /// Whether the views learn that the agent is out of touch when a timer is over: it still is,
    /// they do not know, and nothing has made the timer meaningless.
    pub open spec fn notices(self, generation: u64) -> bool {
        self.stale && !self.offline_notified && self.offline_generation == generation
    }

    /// A timer is over; what is done about it.
    pub fn timer_over(&mut self, generation: u64) -> (r: SessionStep)
        requires
            old(self).wf(),
        ensures
            final(self).wf(),
            if old(self).notices(generation) {
                &&& *final(self) == old(self).offline()
                &&& r == (SessionStep {
                    signal: Some(SessionSignal::Stale),
                    drop_runtime: true,
                    ..quiet_step()
                })
            } else {
                *final(self) == *old(self) && r == quiet_step()
            },
    {
        if self.stale && !self.offline_notified && self.offline_generation == generation {
            self.notify_offline_now();
            SessionStep {
                signal: Some(SessionSignal::Stale),
                merge: false,
                timer: None,
                drop_runtime: true,
            }
        } else {
            SessionStep { signal: None, merge: false, timer: None, drop_runtime: false }
        }
    }

    /// What a view that is opened now is told: the snapshot, and whether the agent is out of
    /// touch.
    pub fn attach(&self) -> (r: (bool, bool))
        ensures
            r.0 == (match self.latest {
                Some(cursor) => cursor.agent,
                None => false,
            }),
            r.1 == self.offline_notified,
    {
        (
            match &self.latest {
                Some(cursor) => cursor.agent,
                None => false,
            },
            self.offline_notified,
        )
    }
}

/// What something that is done once waits for.
#[derive(Clone, Copy, Debug, PartialEq, Eq, Structural)]
pub enum DeferUntil {
    /// There is something to show: a snapshot, or that the agent is out of touch.
    Settled,
    /// The first snapshot.
    Snapshot,
}

/// Something that is done once, as soon as the session is far enough.
#[derive(Clone, Copy, Debug, PartialEq, Eq, Structural)]
pub struct Deferred {
    pub until: DeferUntil,
    pub done: bool,
}

impl Deferred {
    pub open spec fn reached_by(until: DeferUntil, signal: SessionSignal) -> bool {
        match until {
            DeferUntil::Settled => signal == SessionSignal::Snapshot || signal
                == SessionSignal::Stale || signal == SessionSignal::Fatal,
            DeferUntil::Snapshot => signal == SessionSignal::Snapshot,
        }
    }

    /// Begins to wait; `done` says that it is done right away.
    pub fn new(until: DeferUntil, session: &AgentSession) -> (r: Deferred)
        ensures
            r.until == until,
            r.done == (session.latest is Some || (until == DeferUntil::Settled
                && session.offline_notified)),
    {
        let done: bool = match until {
            DeferUntil::Settled => session.is_settled(),
            DeferUntil::Snapshot => session.latest.is_some(),
        };
        Deferred { until, done }
    }

    /// Hears a signal of the session, and says whether it is done now.
    pub fn on_signal(&mut self, signal: SessionSignal) -> (r: bool)
        ensures
            r == (!old(self).done && Deferred::reached_by(old(self).until, signal)),
            *final(self) == (Deferred { done: old(self).done || r, ..*old(self) }),
    {
        let reached: bool = match self.until {
            DeferUntil::Settled => matches!(
                signal,
                SessionSignal::Snapshot | SessionSignal::Stale | SessionSignal::Fatal
            ),
            DeferUntil::Snapshot => matches!(signal, SessionSignal::Snapshot),
        };
        if self.done || !reached {
            return false;
        }
        self.done = true;
        true
    }
}

/// The snapshot never goes back and never passes over an event: what is put into it is the event
/// that comes next.
pub proof fn law_events_apply_in_strict_order(cursor: Cursor, frame: EventFrame)
    ensures
        frame_merges(cursor, frame) ==> frame.sequence == cursor.sequence + 1 && frame.epoch@
            == cursor.epoch@,
        frame_result(cursor, frame) == Ok::<bool, ()>(true) ==> frame_merges(cursor, frame),
        frame_merges(cursor, frame) ==> frame_result(cursor, frame) is Ok,
{
}

/// The same event is put into the snapshot once.
pub proof fn law_events_apply_once(cursor: Cursor, frame: EventFrame)
    requires
        frame_merges(cursor, frame),
    ensures
        ({
            let after = Cursor { sequence: frame.sequence, ..cursor };
            &&& !frame_merges(after, frame)
            &&& frame_result(after, frame) == Ok::<bool, ()>(false)
        }),
{
}

/// A connection that comes back before its timer is over is not noticed: a snapshot makes the
/// timer that was set meaningless.
pub proof fn law_short_breaks_go_unnoticed(session: AgentSession, cursor: Cursor)
    requires
        session.wf(),
        !session.stale,
    ensures
        ({
            let broken = session.broken();
            let timer = broken.offline_generation;
            let back = AgentSession {
                latest: Some(cursor),
                stale: false,
                offline_notified: false,
                offline_generation: next_generation(broken.offline_generation),
            };
            &&& broken.notices(timer)
            &&& !back.notices(timer)
            &&& !back.broken().notices(timer)
        }),
{
}

/// The views learn of a break once.
pub proof fn law_breaks_are_told_once(session: AgentSession, generation: u64)
    ensures
        !session.offline().notices(generation),
        session.offline().broken() == session.offline(),
{
}

/// The next event of the same run is put into the snapshot and shown where it is to be; an old one is
/// passed over without harm; a gap, and an event of another run, break the order.
pub proof fn law_next_event_is_taken(cursor: &mut Cursor, frame: &EventFrame, r: Result<bool, ()>)
    requires
        call_ensures(apply_frame, (cursor, frame), r),
    ensures
        old(cursor).epoch@ == frame.epoch@ && old(cursor).agent && frame.agent && frame.sequence
            == old(cursor).sequence + 1 ==> r == Ok::<bool, ()>(frame.deliver) && final(
            cursor).sequence == frame.sequence,
        old(cursor).epoch@ == frame.epoch@ && frame.sequence <= old(cursor).sequence ==> r == Ok::<
            bool,
            (),
        >(false) && *final(cursor) == *old(cursor),
        old(cursor).epoch@ == frame.epoch@ && frame.sequence > old(cursor).sequence + 1 ==> r is Err
            && *final(cursor) == *old(cursor),
        old(cursor).epoch@ != frame.epoch@ ==> r is Err && *final(cursor) == *old(cursor),
{
}

/// A snapshot is shown at once and settles the session, whatever was before; it makes a timer that
/// runs meaningless.
pub proof fn law_snapshot_settles_the_session(
    take: &mut AgentSession,
    wait: &mut AgentSession,
    cursor: Cursor,
    generation: u64,
    shown: SessionStep,
    over: SessionStep,
    settled: bool,
)
    requires
        call_ensures(AgentSession::ingest, (take, ClientEvent::Snapshot(cursor)), shown),
        call_ensures(AgentSession::is_settled, (&*final(take),), settled),
        *old(wait) == *final(take),
        call_ensures(AgentSession::timer_over, (wait, generation), over),
    ensures
        shown.signal == Some(SessionSignal::Snapshot),
        !shown.drop_runtime,
        settled,
        final(take).latest == Some(cursor),
        !final(take).stale,
        over.signal is None,
        *final(wait) == *final(take),
{
}

/// A break sets a timer; when that timer is over and nothing came, the views learn that the agent is
/// out of touch, and what runs is unknown from then on. A second break sets no second timer.
pub proof fn law_break_is_told_after_its_timer(
    lose: &mut AgentSession,
    lose_again: &mut AgentSession,
    wait: &mut AgentSession,
    first: SessionStep,
    second: SessionStep,
    generation: u64,
    told: SessionStep,
)
    requires
        !old(lose).stale,
        !old(lose).offline_notified,
        call_ensures(AgentSession::ingest, (lose, ClientEvent::Stale), first),
        *old(lose_again) == *final(lose),
        call_ensures(AgentSession::ingest, (lose_again, ClientEvent::Stale), second),
        *old(wait) == *final(lose_again),
        first.timer == Some(generation),
        call_ensures(AgentSession::timer_over, (wait, generation), told),
    ensures
        first.signal is None,
        second.timer is None,
        second.signal is None,
        told.signal == Some(SessionSignal::Stale),
        told.drop_runtime,
        final(wait).offline_notified,
{
}

/// A break always sets its timer, and events that come before the next snapshot are not shown.
pub proof fn law_nothing_is_shown_after_a_break(
    lose: &mut AgentSession,
    late: &mut AgentSession,
    frame: EventFrame,
    lost: SessionStep,
    step: SessionStep,
)
    requires
        !old(lose).stale,
        call_ensures(AgentSession::ingest, (lose, ClientEvent::Stale), lost),
        *old(late) == *final(lose),
        call_ensures(AgentSession::ingest, (late, ClientEvent::Event(frame)), step),
    ensures
        lost.timer is Some,
        step.signal is None,
        !step.merge,
        *final(late) == *final(lose),
{
}

/// Where the connection cannot be made, or the agent has left, the views learn it at once.
pub proof fn law_end_is_told_at_once(
    fail: &mut AgentSession,
    stop: &mut AgentSession,
    failed: SessionStep,
    stopped: SessionStep,
    settled: bool,
)
    requires
        call_ensures(AgentSession::ingest, (fail, ClientEvent::Fatal), failed),
        call_ensures(AgentSession::ingest, (stop, ClientEvent::ServiceStopped), stopped),
        call_ensures(AgentSession::is_settled, (&*final(fail),), settled),
    ensures
        failed.signal == Some(SessionSignal::Fatal) && failed.drop_runtime,
        stopped.signal == Some(SessionSignal::ServiceStopped) && stopped.drop_runtime,
        settled,
        final(fail).stale && final(stop).stale,
{
}

/// What waits for the session is done once: a snapshot brings it about whichever it waits for; that
/// the agent is out of touch only what needs no snapshot; an event brings nothing about.
pub proof fn law_waiting_work_is_done_once(
    first: &mut Deferred,
    second: &mut Deferred,
    signal: SessionSignal,
    done: bool,
    again: bool,
)
    requires
        !old(first).done,
        call_ensures(Deferred::on_signal, (first, signal), done),
        *old(second) == *final(first),
        call_ensures(Deferred::on_signal, (second, signal), again),
    ensures
        signal == SessionSignal::Snapshot ==> done,
        signal == SessionSignal::Event ==> !done,
        signal == SessionSignal::Stale || signal == SessionSignal::Fatal ==> (done <==> old(
            first).until == DeferUntil::Settled),
        done ==> !again,
        final(first).until == old(first).until,
{
}

/// A view that comes later is told what is known: whether there is a snapshot, and whether the agent
/// is out of touch.
pub proof fn law_late_view_is_told_what_is_known(
    take: &mut AgentSession,
    fail: &mut AgentSession,
    cursor: Cursor,
    shown: SessionStep,
    failed: SessionStep,
    after_snapshot: (bool, bool),
    after_failure: (bool, bool),
)
    requires
        cursor.agent,
        call_ensures(AgentSession::ingest, (take, ClientEvent::Snapshot(cursor)), shown),
        call_ensures(AgentSession::attach, (&*final(take),), after_snapshot),
        *old(fail) == *final(take),
        call_ensures(AgentSession::ingest, (fail, ClientEvent::Fatal), failed),
        call_ensures(AgentSession::attach, (&*final(fail),), after_failure),
    ensures
        after_snapshot == (true, false),
        after_failure == (true, true),
{
}

/// Work that waits for a snapshot is done right away where there is one, and else waits.
pub proof fn law_work_waits_only_where_it_must(
    session: &AgentSession,
    for_snapshot: Deferred,
    for_anything: Deferred,
)
    requires
        call_ensures(Deferred::new, (DeferUntil::Snapshot, session), for_snapshot),
        call_ensures(Deferred::new, (DeferUntil::Settled, session), for_anything),
    ensures
        for_snapshot.done <==> session.latest is Some,
        for_anything.done <==> session.latest is Some || session.offline_notified,
{
}

} // verus!
