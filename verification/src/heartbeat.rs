//! The notifier that keeps a chat informed while an answer is being worked
//! out.
//!
//! From the moment the work starts, the notifier waits.  On a tick of the
//! heartbeat interval it tries to send one "still working" notice; once such
//! a notice has gone through it stops for good, and if it did not go through
//! it waits for the next tick.  When the deadline passes first, it sends one
//! fallback notice and stops.  When the work finishes first, it stops without
//! a word.
//!
//! The library holds the decisions; the caller owns the clock and the
//! sending, and reports what happened as events.

use vstd::prelude::*;

verus! {

/// The deadline is this many heartbeat intervals after the start.
pub const GIVE_UP_AFTER_INTERVALS: u64 = 10;

/// The notice that says the answer is still being worked out.
pub const STILL_WORKING: &'static str = "Погоди, надо еще подумать";

/// The notice that says no answer will come.
pub const NO_ANSWER: &'static str = "Я не знаю что на это ответить";

/// Where the notifier stands.
#[derive(Debug, Clone, Copy, PartialEq, Eq, Structural)]
pub enum Notifier {
    /// Nothing has gone out; the notifier waits for a tick, the deadline or
    /// the end of the work.
    Waiting,
    /// A "still working" notice is on its way.
    Notifying,
    /// A "still working" notice has gone through.
    Notified,
    /// The deadline has passed and the fallback notice was sent.
    GaveUp,
    /// The work finished before any notice went through.
    Cancelled,
}

/// What the caller reports to the notifier.
#[derive(Debug, Clone, Copy, PartialEq, Eq, Structural)]
pub enum Event {
    /// One more heartbeat interval has passed.
    Tick,
    /// The deadline has passed.
    Deadline,
    /// The work has finished, with an answer or with an error.
    WorkerDone,
    /// The notice that was on its way went through.
    NoticeSent,
    /// The notice that was on its way did not go through.
    NoticeFailed,
}

/// What the caller is to do next.
#[derive(Debug, Clone, Copy, PartialEq, Eq, Structural)]
pub enum Action {
    /// Go on waiting for the next event.
    Wait,
    /// Send `STILL_WORKING` and report how it went.
    SendStillWorking,
    /// Send `NO_ANSWER`, whatever comes of it, and stop.
    SendFallback,
    /// Stop: the notifier has nothing more to do.
    Stop,
}

impl Notifier {
    /// The notifier has stopped for good.
    pub open spec fn stopped(self) -> bool {
        self is Notified || self is GaveUp || self is Cancelled
    }
}

/// The state that follows `state` on `event`.
pub open spec fn next_state(state: Notifier, event: Event) -> Notifier {
    match state {
        Notifier::Waiting => match event {
            Event::Tick => Notifier::Notifying,
            Event::Deadline => Notifier::GaveUp,
            Event::WorkerDone => Notifier::Cancelled,
            _ => Notifier::Waiting,
        },
        Notifier::Notifying => match event {
            Event::NoticeSent => Notifier::Notified,
            Event::NoticeFailed => Notifier::Waiting,
            _ => Notifier::Notifying,
        },
        _ => state,
    }
}

/// What the caller is told to do when `event` arrives in `state`.
pub open spec fn action_on(state: Notifier, event: Event) -> Action {
    match state {
        Notifier::Waiting => match event {
            Event::Tick => Action::SendStillWorking,
            Event::Deadline => Action::SendFallback,
            Event::WorkerDone => Action::Stop,
            _ => Action::Wait,
        },
        Notifier::Notifying => match event {
            Event::NoticeSent => Action::Stop,
            _ => Action::Wait,
        },
        _ => Action::Stop,
    }
}

/// The state after a run of events, from the start.
pub open spec fn state_after(events: Seq<Event>) -> Notifier
    decreases events.len(),
{
    if events.len() == 0 {
        Notifier::Waiting
    } else {
        next_state(state_after(events.drop_last()), events.last())
    }
}

/// How often the caller was told `action` during a run of events.
pub open spec fn times_told(events: Seq<Event>, action: Action) -> nat
    decreases events.len(),
{
    if events.len() == 0 {
        0
    } else {
        let before = times_told(events.drop_last(), action);
        if action_on(state_after(events.drop_last()), events.last()) == action {
            before + 1
        } else {
            before
        }
    }
}

/// How many "still working" notices went through during a run of events.
pub open spec fn notices_delivered(events: Seq<Event>) -> nat
    decreases events.len(),
{
    if events.len() == 0 {
        0
    } else {
        let before = notices_delivered(events.drop_last());
        if state_after(events.drop_last()) is Notifying && events.last() is NoticeSent {
            before + 1
        } else {
            before
        }
    }
}

/// In every run the fallback notice is sent at most once, at most one "still
/// working" notice goes through, and never both: the fallback was sent
/// exactly if the notifier gave up, a "still working" notice went through
/// exactly if it ended as notified.  Where the work finished first, neither
/// happened.
pub proof fn lemma_notices_exclusive(events: Seq<Event>)
    ensures
        times_told(events, Action::SendFallback) == if state_after(events) is GaveUp {
            1nat
        } else {
            0nat
        },
        notices_delivered(events) == if state_after(events) is Notified {
            1nat
        } else {
            0nat
        },
        times_told(events, Action::SendFallback) + notices_delivered(events) <= 1,
        notices_delivered(events) <= times_told(events, Action::SendStillWorking),
        state_after(events) is Notifying ==> times_told(events, Action::SendStillWorking) >= 1,
    decreases events.len(),
{
    if events.len() > 0 {
        lemma_notices_exclusive(events.drop_last());
    }
}

/// As long as no notice fails on its way, at most one "still working" notice
/// is ever sent: one exactly if a tick came while the notifier waited.
pub proof fn lemma_single_attempt(events: Seq<Event>)
    requires
        forall|i: int| 0 <= i < events.len() ==> !(events[i] is NoticeFailed),
    ensures
        times_told(events, Action::SendStillWorking) == if state_after(events) is Notifying
            || state_after(events) is Notified {
            1nat
        } else {
            0nat
        },
    decreases events.len(),
{
    if events.len() > 0 {
        let before = events.drop_last();
        assert forall|i: int| 0 <= i < before.len() implies !(before[i] is NoticeFailed) by {
            assert(before[i] == events[i]);
        }
        lemma_single_attempt(before);
        assert(!(events[events.len() - 1] is NoticeFailed));
    }
}

/// Once the notifier has stopped, nothing that follows changes its state or
/// has anything sent.
pub proof fn lemma_stopped_stays(head: Seq<Event>, tail: Seq<Event>)
    requires
        state_after(head).stopped(),
    ensures
        state_after(head + tail) == state_after(head),
        times_told(head + tail, Action::SendStillWorking) == times_told(
            head,
            Action::SendStillWorking,
        ),
        times_told(head + tail, Action::SendFallback) == times_told(head, Action::SendFallback),
        notices_delivered(head + tail) == notices_delivered(head),
    decreases tail.len(),
{
    if tail.len() == 0 {
        assert(head + tail == head);
    } else {
        lemma_stopped_stays(head, tail.drop_last());
        assert((head + tail).drop_last() == head + tail.drop_last());
        assert((head + tail).last() == tail.last());
    }
}

/// Where the work finishes before the first tick, no notice is sent,
/// whatever happens afterwards.
pub proof fn lemma_quick_work_is_silent(rest: Seq<Event>)
    ensures
        ({
            let events = seq![Event::WorkerDone] + rest;
            &&& state_after(events) is Cancelled
            &&& times_told(events, Action::SendStillWorking) == 0
            &&& times_told(events, Action::SendFallback) == 0
        }),
{
    let head = seq![Event::WorkerDone];
    assert(head.drop_last() == Seq::<Event>::empty());
    assert(state_after(head.drop_last()) is Waiting);
    assert(state_after(head) is Cancelled);
    assert(times_told(head.drop_last(), Action::SendStillWorking) == 0);
    assert(times_told(head.drop_last(), Action::SendFallback) == 0);
    lemma_stopped_stays(head, rest);
}

/// Where the first tick's notice goes through, exactly one "still working"
/// notice is sent and no fallback, however long the work goes on and
/// whatever the clock does afterwards.
pub proof fn lemma_one_notice_then_silence(rest: Seq<Event>)
    ensures
        ({
            let events = seq![Event::Tick, Event::NoticeSent] + rest;
            &&& state_after(events) is Notified
            &&& times_told(events, Action::SendStillWorking) == 1
            &&& times_told(events, Action::SendFallback) == 0
        }),
{
    let first = seq![Event::Tick];
    let head = seq![Event::Tick, Event::NoticeSent];
    assert(first.drop_last() == Seq::<Event>::empty());
    assert(head.drop_last() == first);
    assert(state_after(first.drop_last()) is Waiting);
    assert(state_after(first) is Notifying);
    assert(state_after(head) is Notified);
    assert(times_told(first.drop_last(), Action::SendStillWorking) == 0);
    assert(times_told(first, Action::SendStillWorking) == 1);
    assert(times_told(head, Action::SendStillWorking) == 1);
    assert(times_told(first.drop_last(), Action::SendFallback) == 0);
    assert(times_told(first, Action::SendFallback) == 0);
    assert(times_told(head, Action::SendFallback) == 0);
    lemma_stopped_stays(head, rest);
}

/// Where the deadline passes while the notifier still waits, because the
/// work has not finished and no notice has gone through, exactly one
/// fallback notice is sent, and no "still working" notice has gone through
/// or ever will.
pub proof fn lemma_deadline_gives_up(before: Seq<Event>, rest: Seq<Event>)
    requires
        state_after(before) is Waiting,
    ensures
        ({
            let events = before + seq![Event::Deadline] + rest;
            &&& state_after(events) is GaveUp
            &&& times_told(events, Action::SendFallback) == 1
            &&& notices_delivered(events) == 0
        }),
{
    let head = before + seq![Event::Deadline];
    assert(head.drop_last() == before);
    assert(head.last() == Event::Deadline);
    assert(state_after(head) is GaveUp);
    lemma_notices_exclusive(head);
    lemma_stopped_stays(head, rest);
}

/// The notifier's answer to one event: the state it moves to, and what the
/// caller is to do.
pub fn react(state: Notifier, event: Event) -> (out: (Notifier, Action))
    ensures
        out.0 == next_state(state, event),
        out.1 == action_on(state, event),
{
    match state {
        Notifier::Waiting => match event {
            Event::Tick => (Notifier::Notifying, Action::SendStillWorking),
            Event::Deadline => (Notifier::GaveUp, Action::SendFallback),
            Event::WorkerDone => (Notifier::Cancelled, Action::Stop),
            _ => (Notifier::Waiting, Action::Wait),
        },
        Notifier::Notifying => match event {
            Event::NoticeSent => (Notifier::Notified, Action::Stop),
            Event::NoticeFailed => (Notifier::Waiting, Action::Wait),
            _ => (Notifier::Notifying, Action::Wait),
        },
        _ => (state, Action::Stop),
    }
}

/// The text that goes out on `action`, if any does.
pub fn notice_text(action: Action) -> (text: Option<&'static str>)
    ensures
        text == match action {
            Action::SendStillWorking => Some(STILL_WORKING),
            Action::SendFallback => Some(NO_ANSWER),
            _ => None,
        },
{
    match action {
        Action::SendStillWorking => Some(STILL_WORKING),
        Action::SendFallback => Some(NO_ANSWER),
        _ => None,
    }
}

/// The time from the start to the deadline, in the unit of `interval`:
/// `GIVE_UP_AFTER_INTERVALS` intervals, or `None` where that does not fit.
pub fn give_up_after(interval: u64) -> (total: Option<u64>)
    ensures
        total == if interval * GIVE_UP_AFTER_INTERVALS <= u64::MAX {
            Some((interval * GIVE_UP_AFTER_INTERVALS) as u64)
        } else {
            None
        },
{
    interval.checked_mul(GIVE_UP_AFTER_INTERVALS)
}

} // verus!
