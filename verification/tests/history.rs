use channel_bot::history::{pause, sort_by_id, texts_only, HistoryMessage};
use channel_bot::sync_history::{collect, random_id, sync_history, Collected, Progress};
use channel_bot::user_forward::{run_user_forward, Copies, Outgoing};

fn message(id: i32, text: &str) -> HistoryMessage {
    HistoryMessage { id, text: text.to_string(), reply_to: None }
}

fn answer(id: i32, text: &str, to: i32) -> HistoryMessage {
    HistoryMessage { id, text: text.to_string(), reply_to: Some(to) }
}

fn ids(messages: &[HistoryMessage]) -> Vec<i32> {
    messages.iter().map(|m| m.id).collect()
}

#[test]
fn pace_is_five_messages_a_second() {
    assert_eq!(pause(0), 200_000_000);
    assert_eq!(pause(199_999_999), 1);
    assert_eq!(pause(200_000_000), 0);
    assert_eq!(pause(u128::MAX), 0);
}

#[test]
fn messages_are_ordered_by_id() {
    let sorted = sort_by_id(&vec![message(3, "a"), message(1, "b"), message(3, "c"), message(2, "")]);
    assert_eq!(
        sorted,
        vec![message(1, "b"), message(2, ""), message(3, "a"), message(3, "c")]
    );
    assert_eq!(ids(&texts_only(&sorted)), vec![1, 3, 3]);
}

#[test]
fn new_messages_are_copied_once() {
    let first = run_user_forward(0, &vec![message(5, "e"), message(4, ""), message(3, "c")]);
    assert_eq!(first.last_seen, 5);
    assert_eq!(ids(&first.messages), vec![3, 5]);
    let second = run_user_forward(5, &vec![message(6, "f"), message(5, "e"), message(4, "d")]);
    assert_eq!(second.last_seen, 6);
    assert_eq!(ids(&second.messages), vec![6]);
    let third = run_user_forward(6, &Vec::new());
    assert_eq!((third.last_seen, third.messages.len()), (6, 0));
}

#[test]
fn answers_are_copied_as_answers() {
    let polled = run_user_forward(0, &vec![answer(5, "yes", 3), message(3, "well?")]);
    assert_eq!(polled.messages, vec![message(3, "well?"), answer(5, "yes", 3)]);
    let mut copies = Copies::start();
    let sent = |text: &str, reply_to: Option<i32>| Outgoing { text: text.to_string(), reply_to };
    assert_eq!(copies.copy_of(&polled.messages[0]), sent("well?", None));
    assert_eq!(copies.copy_of(&polled.messages[1]), sent("yes", None));
    copies.record(3, Some(70));
    copies.record(4, None);
    assert_eq!(copies.copy_of(&polled.messages[1]), sent("yes", Some(70)));
    copies.record(5, Some(71));
    assert_eq!(copies.copy_of(&answer(6, "no", 3)), sent("no", Some(70)));
    assert_eq!(copies.copy_of(&answer(6, "no", 4)), sent("no", None));
    copies.record(6, Some(0));
    assert_eq!(copies.copy_of(&answer(7, "so", 6)), sent("so", None));
}

#[test]
fn history_is_collected_in_batches() {
    let mut all = Vec::new();
    let full: Vec<HistoryMessage> = (101..=200).rev().map(|i| message(i, "x")).collect();
    assert_eq!(collect(&mut all, &full), Collected::More { offset_id: 101 });
    assert_eq!(collect(&mut all, &vec![message(100, "y"), message(99, "")]), Collected::Last);
    assert_eq!(collect(&mut all, &Vec::new()), Collected::Ended);
    assert_eq!(all.len(), 102);
    let order = sync_history(&all);
    assert_eq!(order.len(), 101);
    assert_eq!((order[0].id, order[1].id, order[100].id), (100, 101, 200));
}

#[test]
fn attempts_are_told_apart() {
    assert_eq!(random_id(0, 5), 5);
    assert_eq!(random_id(6, 3), 5);
    assert_eq!(random_id(0, -1), -1);
}

#[test]
fn copying_pauses_after_two_hundred() {
    let mut progress = Progress::start();
    assert!(!progress.sent(1, None));
    for id in 1..200 {
        assert!(!progress.sent(id, Some(id + 1000)));
    }
    assert!(progress.sent(200, Some(1200)));
    assert!(progress.sent(201, None));
    assert!(!progress.sent(202, Some(1202)));
    assert_eq!(progress.copied, 201);
    assert_eq!(progress.old_to_new.len(), 201);
    assert_eq!(progress.old_to_new[&5], 1005);
}
