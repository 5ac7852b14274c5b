use channel_bot::state::{
    can_take_fields, can_take_keyboard_message, get_keyboard_message, grant_admin, has_used_promo,
    is_admin_pending, is_paid, is_paid_forced, is_promo_pending, normalize_paid_state, read_state,
    remove_keyboard_message, set_admin_pending, set_keyboard_message, set_promo_pending,
    set_used_promo, state_text,
};
use serde_json::Value;

fn value(text: &str) -> Value {
    serde_json::from_str(text).unwrap()
}

#[test]
fn missing_or_broken_state_is_empty() {
    assert_eq!(read_state(None), value("{}"));
    assert_eq!(read_state(Some("{oops")), value("{}"));
    assert_eq!(read_state(Some("{\"a\":1}")), value("{\"a\":1}"));
}

#[test]
fn state_is_read_back_from_its_text() {
    let st = value("{\"a\":[1,-2,\"й\\n\"],\"b\":{\"c\":null,\"d\":true}}");
    assert_eq!(read_state(Some(&state_text(&st))), st);
    assert_eq!(state_text(&value("{\"paid\":true}")), "{\n  \"paid\": true\n}");
}

#[test]
fn payments_off_force_paid() {
    let mut st = value("{\"x\":1}");
    normalize_paid_state(&mut st, false);
    assert_eq!(st, value("{\"x\":1,\"paid\":true,\"paid_forced\":true}"));
    assert!(is_paid(&st) && is_paid_forced(&st));
}

#[test]
fn payments_on_revoke_what_was_forced() {
    let mut st = value("{\"paid\":true,\"paid_forced\":true,\"paid_invoice_id\":5}");
    normalize_paid_state(&mut st, true);
    assert!(!is_paid(&st) && !is_paid_forced(&st));
}

#[test]
fn paid_needs_an_invoice() {
    let mut st = value("{\"paid\":true}");
    normalize_paid_state(&mut st, true);
    assert!(!is_paid(&st));
    let mut st = value("{\"paid\":true,\"paid_invoice_id\":7}");
    normalize_paid_state(&mut st, true);
    assert!(is_paid(&st));
    let mut st = value("{\"paid\":true,\"paid_invoice_id\":\"7\"}");
    normalize_paid_state(&mut st, true);
    assert!(!is_paid(&st));
}

#[test]
fn normalizing_twice_is_normalizing_once() {
    for text in ["{}", "{\"paid\":true}", "{\"paid\":true,\"paid_forced\":true}"] {
        for on in [false, true] {
            let mut once = value(text);
            normalize_paid_state(&mut once, on);
            let mut twice = once.clone();
            normalize_paid_state(&mut twice, on);
            assert_eq!(once, twice);
        }
    }
}

#[test]
fn admin_grant_is_recorded_and_lasts() {
    let mut st = value("{\"subscribed\":true}");
    grant_admin(&mut st, -9);
    assert_eq!(
        st,
        value("{\"subscribed\":true,\"target_chat_id\":-9,\"paid\":true,\"paid_forced\":false,\"paid_invoice_id\":-1}")
    );
    let granted = st.clone();
    normalize_paid_state(&mut st, true);
    assert_eq!(st, granted);
}

#[test]
fn null_becomes_an_object_and_lists_take_no_fields() {
    let mut st = value("null");
    assert!(can_take_fields(&st));
    grant_admin(&mut st, 1);
    assert!(is_paid(&st));
    assert!(!can_take_fields(&value("[]")));
}

#[test]
fn pending_actions_come_and_go() {
    let mut st = value("{}");
    set_admin_pending(&mut st, 4, Some("add_free"));
    assert!(is_admin_pending(&st, 4, "add_free"));
    assert!(!is_admin_pending(&st, 4, "remove_free"));
    assert!(!is_admin_pending(&st, 5, "add_free"));
    set_admin_pending(&mut st, 4, None);
    assert!(!is_admin_pending(&st, 4, "add_free"));
}

#[test]
fn promo_flags_are_kept_apart() {
    let mut st = value("{}");
    set_promo_pending(&mut st, 4, true);
    assert!(is_promo_pending(&st, 4) && !has_used_promo(&st, 4));
    set_used_promo(&mut st, 4);
    set_promo_pending(&mut st, 4, false);
    assert!(!is_promo_pending(&st, 4) && has_used_promo(&st, 4));
    assert!(!has_used_promo(&st, 40));
}

#[test]
fn section_that_is_no_object_takes_no_entries() {
    let mut st = value("{\"used_promo\":5}");
    set_used_promo(&mut st, 4);
    assert_eq!(st, value("{\"used_promo\":5}"));
}

#[test]
fn keyboard_messages_are_kept_per_chat() {
    let mut st = value("{}");
    assert!(can_take_keyboard_message(&st));
    set_keyboard_message(&mut st, -1, 10);
    set_keyboard_message(&mut st, 2, 20);
    assert_eq!(get_keyboard_message(&st, -1), Some(10));
    assert_eq!(get_keyboard_message(&st, 2), Some(20));
    remove_keyboard_message(&mut st, -1);
    assert_eq!(get_keyboard_message(&st, -1), None);
    assert_eq!(get_keyboard_message(&st, 2), Some(20));
    assert!(!can_take_keyboard_message(&value("{\"public_keyboard_msgs\":3}")));
}
