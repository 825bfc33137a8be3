use tg_gpt_bot::heartbeat::{
    give_up_after, notice_text, react, Action, Event, Notifier, GIVE_UP_AFTER_INTERVALS,
    NO_ANSWER, STILL_WORKING,
};

/// Feeds the events to the notifier and hands back where it ends and what
/// it asked to be sent on the way.
fn run(events: &[Event]) -> (Notifier, Vec<Action>) {
    let mut state = Notifier::Waiting;
    let mut sent = Vec::new();
    for event in events {
        let (next, action) = react(state, *event);
        if notice_text(action).is_some() {
            sent.push(action);
        }
        state = next;
    }
    (state, sent)
}

#[test]
fn work_that_finishes_first_sends_nothing() {
    let (state, sent) = run(&[Event::WorkerDone]);
    assert_eq!(state, Notifier::Cancelled);
    assert!(sent.is_empty());
    let (state, sent) = run(&[Event::WorkerDone, Event::Tick, Event::Deadline, Event::Tick]);
    assert_eq!(state, Notifier::Cancelled);
    assert!(sent.is_empty());
}

#[test]
fn slow_work_gets_exactly_one_notice() {
    let (state, sent) = run(&[Event::Tick, Event::NoticeSent, Event::WorkerDone]);
    assert_eq!(state, Notifier::Notified);
    assert_eq!(sent, vec![Action::SendStillWorking]);
    let (state, sent) = run(&[
        Event::Tick,
        Event::NoticeSent,
        Event::Tick,
        Event::Tick,
        Event::Deadline,
        Event::WorkerDone,
    ]);
    assert_eq!(state, Notifier::Notified);
    assert_eq!(sent, vec![Action::SendStillWorking]);
}

#[test]
fn failed_notice_is_tried_again_on_the_next_tick() {
    let (state, sent) = run(&[
        Event::Tick,
        Event::NoticeFailed,
        Event::Tick,
        Event::NoticeFailed,
        Event::Tick,
        Event::NoticeSent,
        Event::Tick,
    ]);
    assert_eq!(state, Notifier::Notified);
    assert_eq!(
        sent,
        vec![
            Action::SendStillWorking,
            Action::SendStillWorking,
            Action::SendStillWorking
        ]
    );
}

#[test]
fn deadline_sends_the_fallback_once() {
    let (state, sent) = run(&[Event::Deadline, Event::Deadline, Event::Tick, Event::WorkerDone]);
    assert_eq!(state, Notifier::GaveUp);
    assert_eq!(sent, vec![Action::SendFallback]);
    let (state, sent) = run(&[Event::Tick, Event::NoticeFailed, Event::Deadline]);
    assert_eq!(state, Notifier::GaveUp);
    assert_eq!(sent, vec![Action::SendStillWorking, Action::SendFallback]);
}

#[test]
fn every_transition_is_as_tabled() {
    let table = [
        (Notifier::Waiting, Event::Tick, Notifier::Notifying, Action::SendStillWorking),
        (Notifier::Waiting, Event::Deadline, Notifier::GaveUp, Action::SendFallback),
        (Notifier::Waiting, Event::WorkerDone, Notifier::Cancelled, Action::Stop),
        (Notifier::Waiting, Event::NoticeSent, Notifier::Waiting, Action::Wait),
        (Notifier::Waiting, Event::NoticeFailed, Notifier::Waiting, Action::Wait),
        (Notifier::Notifying, Event::NoticeSent, Notifier::Notified, Action::Stop),
        (Notifier::Notifying, Event::NoticeFailed, Notifier::Waiting, Action::Wait),
        (Notifier::Notifying, Event::Tick, Notifier::Notifying, Action::Wait),
        (Notifier::Notifying, Event::Deadline, Notifier::Notifying, Action::Wait),
        (Notifier::Notifying, Event::WorkerDone, Notifier::Notifying, Action::Wait),
        (Notifier::Notified, Event::Tick, Notifier::Notified, Action::Stop),
        (Notifier::Notified, Event::Deadline, Notifier::Notified, Action::Stop),
        (Notifier::GaveUp, Event::Tick, Notifier::GaveUp, Action::Stop),
        (Notifier::GaveUp, Event::WorkerDone, Notifier::GaveUp, Action::Stop),
        (Notifier::Cancelled, Event::Tick, Notifier::Cancelled, Action::Stop),
        (Notifier::Cancelled, Event::Deadline, Notifier::Cancelled, Action::Stop),
    ];
    for (state, event, next, action) in table {
        assert_eq!(react(state, event), (next, action));
    }
}

#[test]
fn notices_have_their_texts() {
    assert_eq!(notice_text(Action::SendStillWorking), Some("Погоди, надо еще подумать"));
    assert_eq!(notice_text(Action::SendFallback), Some("Я не знаю что на это ответить"));
    assert_eq!(notice_text(Action::Wait), None);
    assert_eq!(notice_text(Action::Stop), None);
    assert_eq!(STILL_WORKING, "Погоди, надо еще подумать");
    assert_eq!(NO_ANSWER, "Я не знаю что на это ответить");
}

#[test]
fn deadline_is_ten_intervals_after_the_start() {
    assert_eq!(GIVE_UP_AFTER_INTERVALS, 10);
    assert_eq!(give_up_after(20), Some(200));
    assert_eq!(give_up_after(0), Some(0));
    assert_eq!(give_up_after(u64::MAX / 10), Some(u64::MAX / 10 * 10));
    assert_eq!(give_up_after(u64::MAX / 10 + 1), None);
    assert_eq!(give_up_after(u64::MAX), None);
}
