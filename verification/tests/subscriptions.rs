use channel_bot::actions::ActionOf;
use channel_bot::dates::date;
use channel_bot::keyboard::Markup;
use channel_bot::ledger::prune_ledger;
use channel_bot::payments::{Invoice, Payments, Subscriber};
use channel_bot::pruning::{ban_plan, expired_users, expiry_list, removal_notices, REMOVAL_TEXT};
use channel_bot::reminders::{
    due_reminders, keep_delivered, reminder, reminder_payload, ReminderRecord, REMINDER_TEXT,
};
use channel_bot::subscribers::{expiry, period};
use serde_json::Value;
use std::collections::HashMap;

const MONTH: u64 = 30 * 24 * 60 * 60;

fn payments() -> Payments {
    Payments::new_from_env(Some("token".to_string()), None, None, None).unwrap()
}

fn subscriber(user_id: i64, expires_at: Option<u64>) -> Subscriber {
    Subscriber { user_id, username: None, added_at: 1, expires_at }
}

fn value(text: &str) -> Value {
    serde_json::from_str(text).unwrap()
}

#[test]
fn periods_are_capped() {
    assert_eq!(period(2), 2 * MONTH);
    assert_eq!(period(u64::MAX), u64::MAX);
    assert_eq!(expiry(5, 1), 5 + MONTH);
    assert_eq!(expiry(u64::MAX - 1, 1), u64::MAX);
}

#[test]
fn new_subscriber_is_added_once() {
    let p = payments();
    let mut subs = Vec::new();
    assert!(p.add_subscriber(&mut subs, 7, Some("x".to_string()), 100));
    assert!(!p.add_subscriber(&mut subs, 7, None, 200));
    assert_eq!(
        subs,
        vec![Subscriber {
            user_id: 7,
            username: Some("x".to_string()),
            added_at: 100,
            expires_at: None,
        }]
    );
}

#[test]
fn active_subscription_is_extended() {
    let p = payments();
    let mut subs = vec![subscriber(1, Some(500)), subscriber(2, Some(50))];
    p.add_or_renew_subscriber(&mut subs, 1, None, 1, 100);
    p.add_or_renew_subscriber(&mut subs, 2, Some("new".to_string()), 1, 100);
    p.add_or_renew_subscriber(&mut subs, 3, None, 2, 100);
    assert_eq!(subs[0].expires_at, Some(500 + MONTH));
    assert_eq!(subs[1].expires_at, Some(100 + MONTH));
    assert_eq!(subs[1].username, Some("new".to_string()));
    assert_eq!(subs[2].expires_at, Some(100 + 2 * MONTH));
    assert_eq!(subs[2].added_at, 100);
}

#[test]
fn renewing_twice_is_renewing_for_both() {
    let p = payments();
    let mut twice = vec![subscriber(1, Some(40))];
    p.add_or_renew_subscriber(&mut twice, 1, None, 1, 100);
    p.add_or_renew_subscriber(&mut twice, 1, None, 2, 100);
    let mut once = vec![subscriber(1, Some(40))];
    p.add_or_renew_subscriber(&mut once, 1, None, 3, 100);
    assert_eq!(twice, once);
}

#[test]
fn subscription_that_never_expires_stays_so() {
    let p = payments();
    let mut subs = vec![subscriber(1, None)];
    p.add_or_renew_subscriber(&mut subs, 1, Some("x".to_string()), 1, 100);
    assert_eq!(subs[0].expires_at, None);
    assert_eq!(subs[0].username, Some("x".to_string()));
}

#[test]
fn dates_are_written_in_utc() {
    assert_eq!(date(0), "01/01/1970");
    assert_eq!(date(1_709_164_800), "29/02/2024");
    assert_eq!(date(u64::MAX), "31/12/1969");
    assert_eq!(date(i64::MAX as u64), "01/01/1970");
}

#[test]
fn payments_are_appended_to_the_ledger() {
    let p = payments();
    let text = p.append_subscription_record(None, 7, 1, 86_400);
    assert_eq!(
        value(&text),
        value("[{\"user_id\":7,\"paid_at\":86400,\"expires_at\":2678400,\"paid_date\":\"02/01/1970\",\"expires_date\":\"01/02/1970\"}]")
    );
    let more = p.append_subscription_record(Some(&text), 8, 1, 0);
    assert_eq!(value(&more).as_array().unwrap().len(), 2);
    let fresh = p.append_subscription_record(Some("not json"), 8, 1, 0);
    assert_eq!(value(&fresh).as_array().unwrap().len(), 1);
    let blank = p.append_subscription_record(Some(" \n"), 8, 1, 0);
    assert_eq!(value(&blank).as_array().unwrap().len(), 1);
}

#[test]
fn latest_expiry_wins() {
    let p = payments();
    let ledger = "[{\"user_id\":1,\"expires_at\":5},{\"user_id\":1,\"expires_at\":9},{\"user_id\":1,\"expires_at\":7},\
        {\"user_id\":2,\"expires_at\":-1},{\"user_id\":\"3\",\"expires_at\":4},{\"expires_at\":4},4]";
    let latest = p.load_latest_expiries_from_subs(Some(ledger));
    assert_eq!(latest, HashMap::from([(1, 9)]));
    assert!(p.load_latest_expiries_from_subs(None).is_empty());
    assert!(p.load_latest_expiries_from_subs(Some("{}")).is_empty());
}

#[test]
fn appended_payment_is_read_back() {
    let p = payments();
    let text = p.append_subscription_record(Some("[{\"user_id\":1,\"expires_at\":5}]"), 2, 1, 10);
    let latest = p.load_latest_expiries_from_subs(Some(&text));
    assert_eq!(latest, HashMap::from([(1, 5), (2, 10 + MONTH)]));
}

#[test]
fn ledgers_with_fractions_are_kept() {
    let p = payments();
    let ledger = "[{\"user_id\":1,\"expires_at\":5,\"rate\":0.1,\"most\":1.7976931348623157e308}]";
    let text = p.append_subscription_record(Some(ledger), 1, 1, 10);
    let latest = p.load_latest_expiries_from_subs(Some(&text));
    assert_eq!(latest, HashMap::from([(1, 10 + MONTH)]));
    assert_eq!(value(&text).as_array().unwrap().len(), 2);
}

#[test]
fn target_chats_are_read() {
    let p = payments();
    assert_eq!(
        p.load_target_chats("-100, 5;\"-7\"\n\nabc;id=9\r\n12x3,"),
        vec![-100, 5, -7, 9]
    );
    assert!(p.unban_user_from_chats(None).is_empty());
    assert_eq!(p.unban_user_from_chats(Some("1\n2")), vec![1, 2]);
}

#[test]
fn expired_users_leave() {
    let p = payments();
    let ledger = "[{\"user_id\":1,\"expires_at\":10},{\"user_id\":2,\"expires_at\":11},\
        {\"user_id\":1,\"expires_at\":3},{\"note\":\"kept\"}]";
    let subs = vec![subscriber(1, Some(10)), subscriber(2, None), subscriber(3, Some(1))];
    let r = p.prune_and_ban_expired_subscribers(Some(ledger), Some(&subs), Some("-5,-6"), 10);
    assert_eq!(r.removed, vec![1]);
    assert_eq!(r.subscribers, Some(vec![subscriber(2, None), subscriber(3, Some(1))]));
    assert_eq!(
        value(&r.ledger.clone().unwrap()),
        value("[{\"user_id\":2,\"expires_at\":11},{\"note\":\"kept\"}]")
    );
    assert_eq!(r.bans, vec![(1, -5), (1, -6)]);
    assert_eq!(
        r.notices,
        vec![ActionOf::Send { chat: 1, text: REMOVAL_TEXT.to_string(), markup: Markup::Plain }]
    );
    let again = p.prune_and_ban_expired(r.ledger.as_deref(), None, None, 10);
    assert!(again.removed.is_empty() && again.ledger.is_none() && again.bans.is_empty());
    assert!(again.notices.is_empty());
}

#[test]
fn nobody_is_banned_without_chats() {
    let p = payments();
    let r = p.prune_and_ban_expired(Some("[{\"user_id\":1,\"expires_at\":1}]"), None, None, 1);
    assert_eq!(r.removed, vec![1]);
    assert!(r.subscribers.is_none() && r.bans.is_empty());
    assert_eq!(value(&r.ledger.unwrap()), value("[]"));
}

#[test]
fn pruning_parts_agree() {
    let latest = HashMap::from([(1i64, 5u64), (2, 6), (3, 7)]);
    let mut list = expiry_list(&latest);
    list.sort();
    assert_eq!(list, vec![(1, 5), (2, 6), (3, 7)]);
    assert_eq!(expired_users(&list, 6), vec![1, 2]);
    assert_eq!(removal_notices(&vec![1, 2]).len(), 2);
    assert_eq!(ban_plan(&vec![1, 2], &vec![8, 9]), vec![(1, 8), (1, 9), (2, 8), (2, 9)]);
    assert_eq!(value(&prune_ledger("[{\"user_id\":1}]", &vec![1])), value("[]"));
}

#[test]
fn reminders_are_due_three_days_ahead() {
    let now = 1000;
    let window = 3 * 24 * 60 * 60;
    let list = vec![(1, now), (2, now + 1), (3, now + window), (4, now + window + 1)];
    let sent = vec![ReminderRecord { user_id: 2, expires_at: now + 1 }];
    assert_eq!(due_reminders(&list, &sent, now), vec![(3, now + window)]);
    let other = vec![ReminderRecord { user_id: 2, expires_at: now + 2 }];
    assert_eq!(due_reminders(&list, &other, now), vec![(2, now + 1), (3, now + window)]);
}

#[test]
fn delivered_reminders_are_not_sent_again() {
    let p = payments();
    let ledger = "[{\"user_id\":1,\"expires_at\":50},{\"user_id\":2,\"expires_at\":60}]";
    let mut sent = Vec::new();
    let mut due = p.send_expiry_reminders(Some(ledger), &sent, 10);
    due.sort();
    assert_eq!(due, vec![(1, 50), (2, 60)]);
    assert_eq!(keep_delivered(&mut sent, &due, &vec![false, true]), vec![2]);
    assert_eq!(p.send_expiry_reminders(Some(ledger), &sent, 10), vec![(1, 50)]);
}

#[test]
fn reminder_carries_the_invoice() {
    let inv = Invoice {
        invoice_id: 3,
        status: "active".to_string(),
        pay_url: Some("https://pay.example/x".to_string()),
        payload: None,
    };
    let ActionOf::Send { chat, text, markup: Markup::Inline(kb) } = reminder(9, Some(&inv)) else {
        panic!("a message with buttons is expected");
    };
    assert_eq!(chat, 9);
    assert_eq!(
        text,
        format!("{REMINDER_TEXT}\n\nСсылка для оплаты:\nhttps://pay.example/x")
    );
    assert_eq!(kb.rows.len(), 2);
    assert_eq!(
        reminder(9, None),
        ActionOf::Send { chat: 9, text: REMINDER_TEXT.to_string(), markup: Markup::Plain }
    );
    assert_eq!(reminder_payload(-9), "-9");
}

#[test]
fn whoever_has_paid_is_not_removed() {
    let p = payments();
    let ledger = p.append_subscription_record(Some("[{\"user_id\":4,\"expires_at\":1}]"), 4, 1, 100);
    assert!(p.prune_and_ban_expired(Some(&ledger), None, None, 99 + MONTH).removed.is_empty());
    assert_eq!(p.prune_and_ban_expired(Some(&ledger), None, None, 100 + MONTH).removed, vec![4]);
}
