use channel_bot::actions::{Action, ActionOf};
use channel_bot::admin::Admin;
use channel_bot::callbacks::{
    channels_invoice, channels_payload, english_checked, handle_admin_callback,
    handle_pay_callback, handle_pay_callbacks, pay_checked, show_channels, topic, PayStepOf,
    Pressed, Topic, CHANNELS_TEXT,
};
use channel_bot::keyboard::Markup;
use channel_bot::payments::Invoice;
use channel_bot::state::is_admin_pending;
use serde_json::Value;

const PRESSED: Pressed = Pressed { chat: 7, message: 3 };

fn value(text: &str) -> Value {
    serde_json::from_str(text).unwrap()
}

fn invoice(status: &str) -> Invoice {
    Invoice {
        invoice_id: 77,
        status: status.to_string(),
        pay_url: Some("https://pay.example/x".to_string()),
        payload: None,
    }
}

fn alert(text: &str) -> Action {
    ActionOf::Answer { note: Some(text.to_string()), alert: true }
}

fn acknowledged() -> Action {
    ActionOf::Answer { note: None, alert: false }
}

fn text_of(action: &Action) -> String {
    match action {
        ActionOf::Send { text, .. } => text.clone(),
        _ => panic!("a message is expected"),
    }
}

#[test]
fn topics_are_told_apart() {
    assert_eq!(topic(Some("pay:anything")), Topic::Payment);
    assert_eq!(topic(Some("show:channels")), Topic::Channels);
    assert_eq!(topic(Some("admin:x")), Topic::Administration);
    assert_eq!(topic(Some("cat:noop")), Topic::Unknown);
    assert_eq!(topic(None), Topic::Unknown);
}

#[test]
fn payment_presses_are_understood() {
    assert_eq!(handle_pay_callbacks(None, Some(7)), PayStepOf::Do(Vec::new()));
    assert_eq!(
        handle_pay_callbacks(Some("pay:check:x"), Some(7)),
        PayStepOf::Do(vec![alert("Неверный счёт.")])
    );
    assert_eq!(
        handle_pay_callbacks(Some("pay:check:0"), None),
        PayStepOf::Do(vec![alert("Неверный счёт.")])
    );
    assert_eq!(
        handle_pay_callbacks(Some("pay:check:77"), None),
        PayStepOf::LookUp { first: vec![], invoice_id: 77 }
    );
    assert_eq!(
        handle_pay_callbacks(Some("pay:start"), Some(7)),
        PayStepOf::Do(vec![ActionOf::StartPayment { chat: 7 }, acknowledged()])
    );
    assert_eq!(
        handle_pay_callbacks(Some("pay:start"), None),
        PayStepOf::Do(vec![acknowledged()])
    );
    assert_eq!(
        handle_pay_callbacks(Some("pay:other"), Some(7)),
        PayStepOf::Do(vec![acknowledged()])
    );
}

#[test]
fn paid_invoice_gives_access() {
    let plan = pay_checked(&Ok(Some(invoice("paid"))), Some(PRESSED), false);
    assert_eq!(plan.len(), 8);
    assert_eq!(plan[0], ActionOf::GrantAccess { chat: 7 });
    assert_eq!(plan[1], ActionOf::AddOrRenew { user: 7, months: 1 });
    assert_eq!(plan[2], ActionOf::AppendRecord { user: 7, months: 1 });
    assert_eq!(plan[3], ActionOf::UnbanEverywhere { user: 7 });
    assert_eq!(text_of(&plan[4]), "Папки с каналами:");
    assert_eq!(
        plan[5],
        ActionOf::Edit {
            chat: 7,
            message: 3,
            text: "✅ Платёж подтверждён. Доступ предоставлен на 30 дней.".to_string(),
        }
    );
    assert_eq!(plan[6], ActionOf::EnsurePublicKeyboard { chat: 7 });
    let admin = pay_checked(&Ok(Some(invoice("paid"))), Some(PRESSED), true);
    assert_eq!(admin[7], ActionOf::ShowCatalog { chat: 7, page: 1 });
    assert_eq!(pay_checked(&Ok(Some(invoice("paid"))), None, false).len(), 1);
}

#[test]
fn unpaid_invoice_gives_word_only() {
    assert_eq!(
        pay_checked(&Ok(Some(invoice("active"))), Some(PRESSED), false),
        vec![alert("Платёж не завершён. Завершите оплату и попробуйте ещё раз.")]
    );
    assert_eq!(
        pay_checked(&Ok(Some(invoice("expired"))), Some(PRESSED), false),
        vec![alert("Статус: expired")]
    );
    assert_eq!(pay_checked(&Ok(None), Some(PRESSED), false), vec![alert("Счёт не найден.")]);
    assert_eq!(
        pay_checked(&Err("timeout".to_string()), Some(PRESSED), false),
        vec![alert("Ошибка проверки: timeout")]
    );
}

#[test]
fn english_presses_are_acknowledged_first() {
    assert_eq!(handle_pay_callback(None, None), PayStepOf::Do(vec![acknowledged()]));
    assert_eq!(
        handle_pay_callback(Some("pay:start"), Some(7)),
        PayStepOf::Do(vec![acknowledged(), ActionOf::StartPayment { chat: 7 }])
    );
    assert_eq!(
        handle_pay_callback(Some("pay:check:zero"), Some(7)),
        PayStepOf::Do(vec![acknowledged(), alert("Invalid invoice id")])
    );
    assert_eq!(
        handle_pay_callback(Some("pay:check:5"), Some(7)),
        PayStepOf::LookUp { first: vec![acknowledged()], invoice_id: 5 }
    );
}

#[test]
fn english_dialogue_invites_those_who_paid() {
    let adm = Admin::new_from_env(None);
    let plan = english_checked(&adm, &Ok(Some(invoice("paid"))), Some(PRESSED), false);
    assert_eq!(plan.len(), 6);
    assert_eq!(plan[0], ActionOf::GrantAccess { chat: 7 });
    assert_eq!(plan[4], ActionOf::SendChannelInvite { chat: 7 });
    assert_eq!(english_checked(&adm, &Ok(Some(invoice("paid"))), Some(PRESSED), true).len(), 5);
    assert_eq!(
        english_checked(&adm, &Ok(Some(invoice("active"))), None, false),
        vec![alert("Still unpaid. Complete the payment and try again.")]
    );
    assert_eq!(
        english_checked(&adm, &Ok(Some(invoice("x"))), None, false),
        vec![alert("Status: x")]
    );
    assert_eq!(english_checked(&adm, &Ok(None), None, false), vec![alert("Invoice not found.")]);
    assert_eq!(
        english_checked(&adm, &Err("e".to_string()), None, false),
        vec![alert("Check failed: e")]
    );
}

#[test]
fn channels_are_shown_with_an_invoice() {
    let plan = show_channels(None, 9);
    assert_eq!(plan[0], acknowledged());
    assert_eq!(text_of(&plan[1]), CHANNELS_TEXT);
    assert!(CHANNELS_TEXT.starts_with("Ретро-активности:\n\n⚫️Pro Mint \n"));
    let sent = channels_invoice(Some(PRESSED), 9, &Ok(invoice("active"))).unwrap();
    let ActionOf::Send { chat, text, markup: Markup::Inline(kb) } = sent else {
        panic!("a message with buttons is expected");
    };
    assert_eq!(chat, 7);
    assert_eq!(
        text,
        "Если хотите получить доступ — оплатите счёт:\n\nСсылка для оплаты: https://pay.example/x"
    );
    assert_eq!(kb.rows.len(), 2);
    assert!(channels_invoice(None, 9, &Err("off".to_string())).is_none());
    assert_eq!(channels_payload(u64::MAX), "18446744073709551615");
}

#[test]
fn administration_is_for_administrators() {
    let adm = Admin::new_from_env(Some("secret".to_string()));
    let mut st = value("{}");
    let plan = handle_admin_callback(&adm, &mut st, 7, "admin:add_free", None).unwrap();
    assert_eq!(
        plan,
        vec![ActionOf::Answer { note: Some("Доступ запрещён.".to_string()), alert: false }]
    );
    assert_eq!(st, value("{}"));
}

#[test]
fn administrators_are_asked_for_users() {
    let mut adm = Admin::new_from_env(Some("secret".to_string()));
    adm.authed.insert(7);
    let mut st = value("{}");
    let plan = handle_admin_callback(&adm, &mut st, 7, "admin:add_free", None).unwrap();
    assert_eq!(plan[0], ActionOf::WriteState);
    assert_eq!(text_of(&plan[1]), "Отправьте username для ДОБАВЛЕНИЯ (с @ или без):");
    assert!(is_admin_pending(&st, 7, "add_free"));
    handle_admin_callback(&adm, &mut st, 7, "admin:remove_free", None).unwrap();
    assert!(is_admin_pending(&st, 7, "remove_free"));
    assert!(handle_admin_callback(&adm, &mut value("4"), 7, "admin:add_free", None).is_none());
    assert_eq!(
        handle_admin_callback(&adm, &mut st, 7, "admin:else", None).unwrap(),
        vec![acknowledged()]
    );
}

#[test]
fn administrators_see_the_list() {
    let mut adm = Admin::new_from_env(Some("secret".to_string()));
    adm.authed.insert(7);
    let shown = |users: Option<&str>| {
        let plan =
            handle_admin_callback(&adm, &mut value("{}"), 7, "admin:show_free", users).unwrap();
        text_of(&plan[0])
    };
    assert_eq!(shown(Some("[\"a\",\"b\",\"a\"]")), "Бесплатные пользователи:\n@a\n@b");
    assert_eq!(
        shown(None),
        "Бесплатные пользователи:\nПока нет пользователей с бесплатным доступом."
    );
}
