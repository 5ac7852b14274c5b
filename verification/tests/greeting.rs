use channel_bot::actions::{ActionOf, PhotoOf};
use channel_bot::admin::Admin;
use channel_bot::greeting::{
    choose_path, ensure_persistent_public_keyboard, find_picture, greet, invite_created,
    invite_exported, locate, locate_startup, payment_started, picture_paths, recipient,
    send_channel_invite, send_startup_to_all, send_startup_to_target, send_startup_to_user,
    start_payment_flow, startup_from, startup_image, startup_list, startup_message, startups_from,
    InviteOf, PictureOf, RecipientOf, StartupMessage, STARTUP_PAUSE_MS, STARTUP_TEXT,
};
use channel_bot::keyboard::{ButtonOf, Markup};
use channel_bot::payments::Invoice;
use serde_json::Value;

fn value(text: &str) -> Value {
    serde_json::from_str(text).unwrap()
}

fn admin() -> Admin {
    Admin::new_from_env(Some("secret".to_string()))
}

fn plain(chat: i64, text: &str) -> channel_bot::actions::Action {
    ActionOf::Send { chat, text: text.to_string(), markup: Markup::Plain }
}

#[test]
fn picture_is_configured_or_usual() {
    assert_eq!(startup_image(Some(" \"a.jpg\" "), true), Some("a.jpg".to_string()));
    assert_eq!(startup_image(None, true), Some("data/startup.jpg".to_string()));
    assert_eq!(startup_image(None, false), None);
}

#[test]
fn picture_is_a_link_or_a_file() {
    assert_eq!(find_picture(None), PictureOf::Absent);
    assert_eq!(
        find_picture(Some(" https://Example.com/a b ")),
        PictureOf::Link("https://example.com/a%20b".to_string())
    );
    assert_eq!(find_picture(Some("http://")), PictureOf::Absent);
    assert_eq!(find_picture(Some(" a.jpg ")), PictureOf::Local("a.jpg".to_string()));
    assert_eq!(
        locate("ftp://x".to_string(), Some("ftp://x/".to_string())),
        PictureOf::Local("ftp://x".to_string())
    );
}

#[test]
fn first_path_that_exists_is_taken() {
    let paths = vec!["a".to_string(), "b".to_string(), "c".to_string()];
    assert_eq!(choose_path(&paths, &vec![false, true, true]), Some("b".to_string()));
    assert_eq!(choose_path(&paths, &vec![false, false, false]), None);
    assert_eq!(choose_path(&vec!["".to_string()], &vec![true]), None);
}

#[test]
fn greeting_leads_to_payment() {
    let plan = greet(7, None, None, &value("{}"), &admin(), true, false);
    assert_eq!(plan.len(), 4);
    assert!(matches!(
        &plan[0],
        ActionOf::Send { chat: 7, text, markup: Markup::Reply(_) } if text == STARTUP_TEXT
    ));
    assert_eq!(plan[1], ActionOf::SendCatalog { chat: 7 });
    assert_eq!(plan[2], ActionOf::EnsurePublicKeyboard { chat: 7 });
    assert_eq!(plan[3], ActionOf::StartPayment { chat: 7 });
}

#[test]
fn greeting_shows_the_catalog_to_those_who_paid() {
    let st = value("{\"public_keyboard_msgs\":{\"7\":55}}");
    let photo = Some(PhotoOf::File("p.jpg".to_string()));
    let plan = greet(7, Some("hi".to_string()), photo, &st, &admin(), true, true);
    assert!(matches!(&plan[0], ActionOf::SendPhoto { caption, .. } if caption == "hi"));
    assert_eq!(plan[2], ActionOf::DropKeyboardMessage { chat: 7, carrier: 55 });
    assert_eq!(plan[4], ActionOf::ShowCatalog { chat: 7, page: 1 });
    let free = greet(7, None, None, &value("{}"), &admin(), false, false);
    assert_eq!(free[3], ActionOf::ShowCatalog { chat: 7, page: 1 });
}

#[test]
fn greeting_brings_up_the_panel() {
    let mut adm = admin();
    adm.authed.insert(7);
    let plan = greet(7, None, None, &value("{}"), &adm, true, false);
    assert!(matches!(&plan[3], ActionOf::Send { text, .. } if text == "Панель администратора:"));
    assert_eq!(plan[4], ActionOf::ShowCatalog { chat: 7, page: 1 });
}

#[test]
fn payment_starts_with_an_invoice() {
    assert_eq!(start_payment_flow(7, false), Some(plain(7, "Платежи отключены.")));
    assert_eq!(start_payment_flow(7, true), None);
    let inv = Invoice {
        invoice_id: 5,
        status: "active".to_string(),
        pay_url: Some("u".to_string()),
        payload: None,
    };
    let plan = payment_started(7, &Ok(inv), true);
    let ActionOf::Send { text, markup: Markup::Inline(kb), .. } = &plan[0] else {
        panic!("a message with a button is expected");
    };
    assert_eq!(
        text,
        "Оплатите счёт через CryptoBot, затем нажмите «Я оплатил — проверить».\n\nСсылка для оплаты: u"
    );
    assert_eq!(
        kb.rows[0][0],
        ButtonOf::Callback {
            text: "Я оплатил — проверить ✅".to_string(),
            data: "pay:check:5".to_string(),
        }
    );
    assert_eq!(plan[1], ActionOf::EnsurePublicKeyboard { chat: 7 });
    assert_eq!(
        payment_started(7, &Err("off".to_string()), true),
        vec![plain(7, "Не удалось создать счёт: off")]
    );
}

#[test]
fn startup_goes_to_a_user() {
    let ActionOf::Send { text, markup: Markup::Inline(kb), .. } = send_startup_to_user(7, false)
    else {
        panic!("a message with a button is expected");
    };
    assert!(text.starts_with("Лучшее что ты можешь сделать") && text.ends_with("42$/мес "));
    assert_eq!(
        kb.rows[0][0],
        ButtonOf::Callback {
            text: "Список каналов".to_string(),
            data: "show:channels".to_string(),
        }
    );
    assert!(matches!(
        send_startup_to_user(7, true),
        ActionOf::SendPhoto { photo: PhotoOf::File(p), .. } if p == "data/startup.jpg"
    ));
}

fn id(id: i64) -> RecipientOf<String> {
    RecipientOf::Id(id)
}

fn named(name: &str) -> RecipientOf<String> {
    RecipientOf::Name(name.to_string())
}

fn startup(to: RecipientOf<String>, photo: Option<PhotoOf<String>>) -> StartupMessage {
    StartupMessage { to, photo, text: STARTUP_TEXT.to_string() }
}

#[test]
fn startup_goes_to_all_who_are_named() {
    assert_eq!(
        startup_list("[12,\"-5\",\"@name\",null,{\"a\":1},1.5,true]"),
        Some(vec![id(12), id(-5), named("@name"), named("1.5")])
    );
    assert_eq!(
        send_startup_to_all("[\"@a\", 5, {\"user_id\": 9}, null, \"-100\"]", None),
        Some(vec![startup(named("@a"), None), startup(id(5), None), startup(id(-100), None)])
    );
    let photo = PhotoOf::File("a b.jpg".to_string());
    assert_eq!(
        send_startup_to_all("[5,\"@a\"]", Some("a b.jpg")),
        Some(vec![startup(id(5), Some(photo.clone())), startup(named("@a"), Some(photo))])
    );
    assert_eq!(send_startup_to_all("[]", Some("a.jpg")), Some(vec![]));
    assert!(send_startup_to_all("{}", None).is_none());
    assert!(send_startup_to_all("oops", None).is_none());
    assert_eq!(recipient("7"), id(7));
    assert_eq!(STARTUP_PAUSE_MS, 300);
}

#[test]
fn startup_picture_may_be_a_link() {
    let link = PhotoOf::Link("https://example.com/a%20b".to_string());
    assert_eq!(
        startup_message(id(5), Some("https://Example.com/a b")),
        startup(id(5), Some(link))
    );
    assert_eq!(
        startup_message(id(5), Some("http://")),
        startup(id(5), Some(PhotoOf::File("http://".to_string())))
    );
    assert_eq!(
        locate_startup("ftp://x".to_string(), Some("ftp://x/".to_string())),
        PictureOf::Local("ftp://x".to_string())
    );
    assert_eq!(startup_message(id(5), None), startup(id(5), None));
    assert_eq!(
        startup_from(id(5), &PictureOf::Local("p".to_string())),
        startup(id(5), Some(PhotoOf::File("p".to_string())))
    );
    assert_eq!(
        startups_from(vec![id(5), id(6)], &PictureOf::Absent),
        vec![startup(id(5), None), startup(id(6), None)]
    );
}

#[test]
fn startup_goes_to_the_target_or_the_channel() {
    assert_eq!(
        send_startup_to_target(Some("@a"), Some("1"), None, false, false),
        Some(startup(named("@a"), None))
    );
    assert_eq!(
        send_startup_to_target(None, Some("-1"), Some(" \"a.jpg\" "), true, true),
        Some(startup(id(-1), Some(PhotoOf::File("a.jpg".to_string()))))
    );
    assert_eq!(
        send_startup_to_target(None, Some("-1"), Some("a.jpg"), true, false),
        Some(startup(id(-1), None))
    );
    assert_eq!(
        send_startup_to_target(None, Some("-1"), None, true, true),
        Some(startup(id(-1), Some(PhotoOf::File("data/startup.jpg".to_string()))))
    );
    assert_eq!(send_startup_to_target(Some(""), Some("-1"), None, true, true), None);
    assert_eq!(send_startup_to_target(None, None, None, true, true), None);
}

#[test]
fn picture_is_looked_for_in_three_places() {
    assert_eq!(picture_paths("a.jpg", Some("/srv")), vec!["a.jpg", "/srv/a.jpg", "data/a.jpg"]);
    assert_eq!(picture_paths("a.jpg", Some("/")), vec!["a.jpg", "/a.jpg", "data/a.jpg"]);
    assert_eq!(picture_paths("a.jpg", None), vec!["a.jpg", "a.jpg", "data/a.jpg"]);
    assert_eq!(picture_paths("/p/a.jpg", Some("/srv")), vec!["/p/a.jpg", "/p/a.jpg", "/p/a.jpg"]);
}

#[test]
fn public_keyboard_is_brought_up_anew() {
    let st = value("{\"public_keyboard_msgs\":{\"7\":55}}");
    let refresh = ensure_persistent_public_keyboard(&admin(), &st, 7).unwrap();
    assert_eq!(refresh.previous, Some(55));
    assert!(matches!(refresh.message, ActionOf::Send { chat: 7, text, .. } if text == "."));
    assert!(ensure_persistent_public_keyboard(&Admin::new_from_env(None), &st, 7).is_none());
    assert!(ensure_persistent_public_keyboard(&admin(), &value("5"), 7).is_none());
}

#[test]
fn invitation_falls_back_step_by_step() {
    let text = "Доступ предоставлен — присоединяйтесь к каналу: ";
    assert_eq!(send_channel_invite(7, Some("-1"), None), InviteOf::Create { channel: -1 });
    assert_eq!(
        send_channel_invite(7, Some("x"), Some("s")),
        InviteOf::Done(plain(7, &format!("{text}s")))
    );
    assert_eq!(send_channel_invite(7, None, None), InviteOf::Done(plain(7, "")));
    assert_eq!(
        invite_created(7, -1, Some("l")),
        InviteOf::Done(plain(7, &format!("{text}l")))
    );
    assert_eq!(invite_created(7, -1, None), InviteOf::Export { channel: -1 });
    assert_eq!(invite_exported(7, Some("e"), None), plain(7, &format!("{text}e")));
    assert_eq!(invite_exported(7, None, Some("")), plain(7, ""));
}
