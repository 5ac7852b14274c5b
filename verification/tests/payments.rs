use channel_bot::actions::ActionOf;
use channel_bot::checks::CheckStartOf;
use channel_bot::keyboard::{ButtonOf, InlineKeyboardMarkup, Markup};
use channel_bot::links::{folder_keyboard, folders};
use channel_bot::payments::{
    parse_switch, ApiEnvelope, ConfigError, Invoice, InvoiceStep, Payments, Reply,
};
use serde_json::Value;

fn payments() -> Payments {
    Payments::new_from_env(Some("token".to_string()), None, None, None).unwrap()
}

fn invoice(status: &str, url: Option<&str>, payload: Option<&str>) -> Invoice {
    Invoice {
        invoice_id: 77,
        status: status.to_string(),
        pay_url: url.map(|s| s.to_string()),
        payload: payload.map(|s| s.to_string()),
    }
}

fn value(text: &str) -> Value {
    serde_json::from_str(text).unwrap()
}

fn first_row(kb: &InlineKeyboardMarkup) -> &ButtonOf<String> {
    &kb.rows[0][0]
}

#[test]
fn token_is_needed() {
    assert_eq!(
        Payments::new_from_env(None, None, None, None),
        Err(ConfigError::TokenMissing)
    );
}

#[test]
fn defaults_and_settings_are_taken() {
    let p = payments();
    assert_eq!((p.asset.as_str(), p.amount.as_str(), p.enabled_env), ("USDT", "42", None));
    let p = Payments::new_from_env(
        Some("t".to_string()),
        Some("TON".to_string()),
        Some("3".to_string()),
        Some(" Off # for now".to_string()),
    )
    .unwrap();
    assert_eq!((p.asset.as_str(), p.amount.as_str(), p.enabled_env), ("TON", "3", Some(false)));
}

#[test]
fn switches_are_understood() {
    for s in ["1", "true", " ON ", "on#x"] {
        assert_eq!(parse_switch(s), Some(true));
    }
    for s in ["0", "FALSE", "off # why"] {
        assert_eq!(parse_switch(s), Some(false));
    }
    for s in ["", "yes", "#1"] {
        assert_eq!(parse_switch(s), None);
    }
}

#[test]
fn marker_decides_unless_configured() {
    let p = payments();
    assert!(p.enabled(false) && !p.enabled(true));
    assert!(p.disable_now());
    assert!(p.enable_now(true) && !p.enable_now(false));
    let mut on = payments();
    on.enabled_env = Some(true);
    assert!(on.enabled(true));
    assert!(!on.disable_now());
}

#[test]
fn paths_are_fixed() {
    let p = payments();
    assert_eq!(p.subscribers_path(), "data/subscribers.json");
    assert_eq!(p.reminders_path(), "data/reminders.json");
    assert_eq!(p.src_subs_path(), "src/subs.json");
}

#[test]
fn buttons_name_the_price() {
    let p = payments();
    let kb = p.start_button();
    assert_eq!(
        first_row(&kb),
        &ButtonOf::Callback { text: "Оплатить 42 USDT".to_string(), data: "pay:start".to_string() }
    );
    assert_eq!(&p.pay_button(), first_row(&kb));
}

#[test]
fn check_button_links_where_there_is_a_url() {
    let p = payments();
    let kb = p.check_button(&invoice("active", Some("HTTPS://Example.com"), None));
    assert_eq!(
        first_row(&kb),
        &ButtonOf::Url {
            text: "Оплатить 42 USDT".to_string(),
            url: "https://example.com/".to_string(),
        }
    );
    assert_eq!(
        kb.rows[1][0],
        ButtonOf::Callback {
            text: "Я оплатил — проверить".to_string(),
            data: "pay:check:77".to_string(),
        }
    );
    assert_eq!(p.check_button(&invoice("active", Some("not a url"), None)).rows.len(), 1);
    assert_eq!(p.check_button(&invoice("active", None, None)).rows.len(), 1);
}

#[test]
fn folder_links_are_urls() {
    let kb = folders();
    assert_eq!(
        kb.rows[0][0],
        ButtonOf::Url {
            text: "АКТИВНОСТИ +".to_string(),
            url: "https://t.me/addlist/Q3mkHDAfwjYyYjU0".to_string(),
        }
    );
    let plain = folder_keyboard(None, None, None, None);
    assert_eq!(
        plain.rows[1][1],
        ButtonOf::Callback { text: "Прочее".to_string(), data: "show_folder:other".to_string() }
    );
}

#[test]
fn disabled_payments_create_no_invoice() {
    assert!(matches!(
        payments().create_invoice(true, None),
        InvoiceStep::Done(Err(e)) if e == "payments disabled"
    ));
}

#[test]
fn invoice_is_asked_for_as_json() {
    let InvoiceStep::PostJson(body) = payments().create_invoice(false, Some("5".to_string())) else {
        panic!("a request is expected");
    };
    assert_eq!(
        body,
        value("{\"asset\":\"USDT\",\"amount\":\"42\",\"description\":\"Subscription\",\"allow_comments\":false,\"allow_anonymous\":true,\"payload\":\"5\"}")
    );
    assert_eq!(
        payments().auth_headers()[0],
        ("Crypto-Pay-API-Token".to_string(), "token".to_string())
    );
}

#[test]
fn refused_json_is_tried_as_form() {
    let p = payments();
    let reply = Reply::Refused { status: 415, body: String::new() };
    let InvoiceStep::PostForm(form) = p.invoice_json_reply(reply) else {
        panic!("a form is expected");
    };
    assert_eq!(form.len(), 6);
    assert_eq!(form[5], ("payload".to_string(), "".to_string()));
}

#[test]
fn answers_settle_the_invoice() {
    let p = payments();
    let answered = |ok: bool, result: Option<Invoice>, error: Option<&str>| {
        Reply::Answered(ApiEnvelope { ok, result, error: error.map(|s| s.to_string()) })
    };
    let done = |step: InvoiceStep| match step {
        InvoiceStep::Done(r) => r,
        _ => panic!("an outcome is expected"),
    };
    let inv = invoice("active", None, None);
    assert_eq!(
        done(p.invoice_json_reply(answered(true, Some(inv.clone()), None))),
        Ok(inv.clone())
    );
    assert_eq!(
        done(p.invoice_json_reply(answered(true, None, None))),
        Err("createInvoice: empty result".to_string())
    );
    assert_eq!(
        done(p.invoice_json_reply(answered(false, Some(inv), Some("BAD")))),
        Err("BAD".to_string())
    );
    assert_eq!(
        done(p.invoice_json_reply(answered(false, None, None))),
        Err("createInvoice: unknown error".to_string())
    );
    assert_eq!(
        done(p.invoice_json_reply(Reply::Unsent)),
        Err("createInvoice request failed".to_string())
    );
    assert_eq!(
        done(p.invoice_json_reply(Reply::Garbled)),
        Err("parse createInvoice json".to_string())
    );
}

#[test]
fn refused_form_tells_of_the_json() {
    let p = payments();
    let again = Reply::Refused { status: 500, body: "later".to_string() };
    assert_eq!(
        p.invoice_form_reply(415, " unsupported \n", again),
        Err("createInvoice http 415 body: unsupported".to_string())
    );
    assert_eq!(
        p.invoice_form_reply(415, "", Reply::Unsent),
        Err("createInvoice form request failed".to_string())
    );
}

#[test]
fn look_up_takes_the_first_invoice() {
    let p = payments();
    assert_eq!(p.get_invoice(-3), value("{\"invoice_ids\":[-3]}"));
    let inv = invoice("paid", None, Some("9"));
    let answer = |result: Option<Vec<Invoice>>| {
        Reply::Answered(ApiEnvelope { ok: true, result, error: None })
    };
    assert_eq!(
        p.invoice_lookup_reply(answer(Some(vec![inv.clone(), invoice("x", None, None)]))),
        Ok(Some(inv))
    );
    assert_eq!(p.invoice_lookup_reply(answer(Some(Vec::new()))), Ok(None));
    assert_eq!(p.invoice_lookup_reply(answer(None)), Ok(None));
    assert_eq!(
        p.invoice_lookup_reply(Reply::Refused { status: 401, body: "no".to_string() }),
        Err("getInvoices http 401 body: no".to_string())
    );
    assert_eq!(
        p.invoice_lookup_reply(Reply::Garbled),
        Err("parse getInvoices".to_string())
    );
}

#[test]
fn check_press_names_the_invoice() {
    let p = payments();
    assert_eq!(p.handle_check_callback(None), CheckStartOf::Ignored);
    assert_eq!(p.handle_check_callback(Some("pay:start")), CheckStartOf::Ignored);
    let first = vec![ActionOf::Answer {
        note: Some("Проверяю платёж...".to_string()),
        alert: false,
    }];
    assert_eq!(
        p.handle_check_callback(Some("pay:check:x")),
        CheckStartOf::BadInvoice { first: first.clone() }
    );
    assert_eq!(
        p.handle_check_callback(Some("pay:check:77")),
        CheckStartOf::LookUp { first, invoice_id: 77 }
    );
}

#[test]
fn paid_invoice_subscribes_its_payer() {
    let p = payments();
    let plan = p.checked(Some(&invoice("paid", None, Some("9"))), 4);
    assert_eq!(plan.len(), 5);
    assert_eq!(plan[0], ActionOf::AddOrRenew { user: 9, months: 1 });
    assert_eq!(plan[1], ActionOf::AppendRecord { user: 9, months: 1 });
    assert!(matches!(&plan[2], ActionOf::Send { chat: 9, markup: Markup::Inline(_), .. }));
    assert!(matches!(&plan[3], ActionOf::Send { chat: 4, .. }));
    assert_eq!(p.checked(Some(&invoice("paid", None, Some("9"))), 9).len(), 4);
}

#[test]
fn other_invoices_are_only_answered() {
    let p = payments();
    let note = |invoice: Option<&Invoice>| match &p.checked(invoice, 1)[..] {
        [ActionOf::Answer { note: Some(t), alert: false }] => t.clone(),
        _ => panic!("one answer is expected"),
    };
    assert_eq!(note(None), "Инвойс не найден.");
    assert_eq!(note(Some(&invoice("active", None, Some("9")))), "Платёж ещё не оплачен.");
    assert_eq!(
        note(Some(&invoice("paid", None, Some("nobody")))),
        "Платёж найден, но не удалось распознать пользователя."
    );
}

#[test]
fn paid_invoices_restore_access() {
    let p = payments();
    let mut restored = Vec::new();
    let plan = p.import_paid_invoices_and_restore(
        &mut restored,
        Some(&invoice("paid", None, Some("9"))),
        2,
        true,
        Some(&vec![-1, -2]),
        Markup::Plain,
        Some("t.me/x"),
    );
    assert_eq!(restored, vec![9]);
    assert_eq!(
        plan,
        vec![
            ActionOf::AddOrRenew { user: 9, months: 2 },
            ActionOf::AppendRecord { user: 9, months: 2 },
            ActionOf::Unban { chat: -1, user: 9 },
            ActionOf::Unban { chat: -2, user: 9 },
            ActionOf::Send {
                chat: 9,
                text: "Спасибо — доступ восстановлен. Hаш чат: t.me/x".to_string(),
                markup: Markup::Plain,
            },
        ]
    );
    let silent = p.import_paid_invoices_and_restore(
        &mut restored,
        Some(&invoice("paid", None, Some("10"))),
        1,
        false,
        Some(&vec![-1]),
        Markup::Plain,
        None,
    );
    assert_eq!(silent.len(), 2);
    let none = p.import_paid_invoices_and_restore(
        &mut restored,
        Some(&invoice("active", None, Some("11"))),
        1,
        true,
        None,
        Markup::Plain,
        None,
    );
    assert!(none.is_empty());
    assert_eq!(restored, vec![9, 10]);
}
