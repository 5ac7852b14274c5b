use channel_bot::actions::{Action, ActionOf};
use channel_bot::admin::{Admin, BTN_IM_ADMIN};
use channel_bot::bot::{
    after_forward, asks_for_promo, begin, forward_route, handle_message, paid_until, pings, starts,
    subscription_days, try_forward, Files, FirstStep, Incoming,
};
use channel_bot::channels::is_subscription_active;
use channel_bot::state::{has_used_promo, is_admin_pending, is_promo_pending, set_admin_pending};
use serde_json::Value;

fn value(text: &str) -> Value {
    serde_json::from_str(text).unwrap()
}

fn no_files() -> Files {
    Files { panel_users: None, command_users: None, first_month: None }
}

fn message(text: &str) -> Incoming {
    Incoming { chat: 7, text: Some(text.to_string()), username: Some("Bob".to_string()), forwarded: None }
}

fn hear(st: &mut Value, text: &str, files: &Files) -> Vec<Action> {
    let mut adm = Admin::new_from_env(Some("secret".to_string()));
    handle_message(&mut adm, st, &message(text), files).unwrap()
}

fn text_of(action: &Action) -> String {
    match action {
        ActionOf::Send { text, .. } => text.clone(),
        _ => panic!("a message is expected"),
    }
}

#[test]
fn subscriptions_last_as_configured() {
    assert_eq!(subscription_days(None), 30);
    assert_eq!(subscription_days(Some("7")), 7);
    for s in ["0", "-3", "x", ""] {
        assert_eq!(subscription_days(Some(s)), 30);
    }
    assert_eq!(paid_until(1000, 30), Some(1000 + 30 * 86_400));
    assert_eq!(paid_until(1000, i64::MAX), None);
    assert_eq!(paid_until(i64::MAX, 1), None);
}

#[test]
fn routes_need_both_ends() {
    assert_eq!(forward_route(Some("-1"), Some("2")), Some((-1, 2)));
    assert_eq!(forward_route(Some("-1"), None), None);
    assert_eq!(forward_route(Some("x"), Some("2")), None);
    assert!(try_forward(-1, -1) && !try_forward(-1, 1));
}

#[test]
fn first_step_follows_the_route() {
    assert_eq!(begin(true, -1, Some((-1, 2))), FirstStep::Ignore);
    assert_eq!(begin(false, -1, Some((-1, 2))), FirstStep::Forward { target: 2 });
    assert_eq!(begin(false, 5, Some((-1, 2))), FirstStep::Respond);
    assert_eq!(begin(false, 5, None), FirstStep::Respond);
    assert_eq!(after_forward(true), FirstStep::Ignore);
    assert_eq!(after_forward(false), FirstStep::Respond);
}

#[test]
fn start_gives_the_introduction() {
    let mut st = value("{}");
    assert_eq!(hear(&mut st, " /start now", &no_files()), vec![ActionOf::SendStartup { chat: 7 }]);
    assert_eq!(st, value("{}"));
}

#[test]
fn start_gives_access_to_those_on_the_list() {
    let mut files = no_files();
    files.panel_users = Some("[\"@BOB\"]".to_string());
    let plan = hear(&mut value("{}"), "/start", &files);
    assert_eq!(plan.len(), 6);
    assert_eq!(plan[0], ActionOf::GrantAccess { chat: 7 });
    assert_eq!(plan[1], ActionOf::AddOrRenew { user: 7, months: 1 });
    assert_eq!(plan[2], ActionOf::AppendRecord { user: 7, months: 1 });
    assert_eq!(text_of(&plan[3]), "Поздравляем, вам предоставлен бесплатный доступ!");
    assert_eq!(text_of(&plan[4]), "Папки с каналами:");
    assert_eq!(plan[5], ActionOf::SendChannelInvite { chat: 7 });
}

#[test]
fn ping_is_answered() {
    let plan = hear(&mut value("{}"), " /PiNg ", &no_files());
    assert_eq!(text_of(&plan[0]), "pong");
    assert!(pings("/PING") && !pings("/ping me"));
}

#[test]
fn promo_is_had_once() {
    let mut files = no_files();
    files.first_month = Some("[\"Carol\",5]".to_string());
    let mut st = value("{}");
    let asked = hear(&mut st, "/paid month", &files);
    assert_eq!(asked[0], ActionOf::WriteState);
    assert!(is_promo_pending(&st, 7));
    let granted = hear(&mut st, " Carol ", &files);
    assert_eq!(granted[0], ActionOf::GrantAccess { chat: 7 });
    assert_eq!(granted.len(), 7);
    assert_eq!(
        text_of(&granted[5]),
        "Промо активировано! Доступ предоставлен на 1 месяц."
    );
    assert!(has_used_promo(&st, 7) && !is_promo_pending(&st, 7));
    let refused = hear(&mut st, "/paid month", &files);
    assert_eq!(refused.len(), 1);
    assert_eq!(text_of(&refused[0]), "Вы уже использовали этот промо.");
    assert!(!is_promo_pending(&st, 7));
}

#[test]
fn unknown_account_gets_no_promo() {
    let mut st = value("{}");
    hear(&mut st, "/paid month", &no_files());
    let plan = hear(&mut st, "carol", &no_files());
    assert_eq!(text_of(&plan[0]), "Неверный username. Промо не активировано.");
    assert_eq!(plan[1], ActionOf::WriteState);
    assert!(!is_promo_pending(&st, 7) && !has_used_promo(&st, 7));
    assert!(asks_for_promo(" /paid month\n") && !asks_for_promo("/paid"));
}

#[test]
fn expected_user_is_added() {
    let mut st = value("{}");
    set_admin_pending(&mut st, 7, Some("add_free"));
    let mut files = no_files();
    files.command_users = Some("[\"old\"]".to_string());
    let plan = hear(&mut st, "@New", &files);
    assert_eq!(
        plan,
        vec![
            ActionOf::SaveFreeUsers {
                users: vec!["old".to_string(), "new".to_string()],
                chat: 7,
                saved: "Пользователь new добавлен в бесплатный доступ.".to_string(),
                failed: "Ошибка сохранения.".to_string(),
            },
            ActionOf::WriteState,
        ]
    );
    assert!(!is_admin_pending(&st, 7, "add_free"));
    set_admin_pending(&mut st, 7, Some("add_free"));
    assert_eq!(text_of(&hear(&mut st, "OLD", &files)[0]), "Пользователь уже в списке.");
}

#[test]
fn expected_user_is_removed() {
    let mut st = value("{}");
    set_admin_pending(&mut st, 7, Some("remove_free"));
    let mut files = no_files();
    files.command_users = Some("[\"old\",\"x\"]".to_string());
    let plan = hear(&mut st, "@Old", &files);
    assert!(matches!(&plan[0], ActionOf::SaveFreeUsers { users, .. } if users == &vec!["x".to_string()]));
    set_admin_pending(&mut st, 7, Some("remove_free"));
    assert_eq!(text_of(&hear(&mut st, "who", &files)[0]), "Пользователь не найден в списке.");
}

#[test]
fn panel_takes_what_is_left() {
    let mut st = value("{}");
    let plan = hear(&mut st, BTN_IM_ADMIN, &no_files());
    assert_eq!(plan.len(), 3);
    assert_eq!(plan[1], ActionOf::EnsurePublicKeyboard { chat: 7 });
    assert_eq!(text_of(&plan[2]), "Панель администратора:");
}

#[test]
fn free_users_get_the_list_and_others_nothing() {
    let mut files = no_files();
    files.panel_users = Some("[\"bob\"]".to_string());
    assert_eq!(
        hear(&mut value("{}"), "hello", &files),
        vec![ActionOf::GrantAccess { chat: 7 }, ActionOf::SendCatalog { chat: 7 }]
    );
    assert!(hear(&mut value("{}"), "hello", &no_files()).is_empty());
}

#[test]
fn state_that_takes_no_fields_stops_what_would_write_it() {
    let mut adm = Admin::new_from_env(Some("secret".to_string()));
    let mut st = value("[]");
    assert!(handle_message(&mut adm, &mut st, &message("/paid month"), &no_files()).is_none());
    assert!(handle_message(&mut adm, &mut st, &message("/ping"), &no_files()).is_some());
    handle_message(&mut adm, &mut st, &message(BTN_IM_ADMIN), &no_files()).unwrap();
    assert!(handle_message(&mut adm, &mut st, &message("secret"), &no_files()).is_none());
    assert!(!adm.is_authed(7));
    assert_eq!(st, value("[]"));
}

#[test]
fn commands_are_answered_whatever_the_password() {
    for password in ["/start", "/ping"] {
        let mut adm = Admin::new_from_env(Some(password.to_string()));
        let mut st = value("[]");
        handle_message(&mut adm, &mut st, &message(BTN_IM_ADMIN), &no_files()).unwrap();
        assert!(adm.is_signing_in(7, Some(password)));
        let plan = handle_message(&mut adm, &mut st, &message(password), &no_files()).unwrap();
        assert_eq!(plan.len(), 1);
        assert!(!adm.is_authed(7));
        assert_eq!(st, value("[]"));
    }
    assert!(starts(" /startle ") && !starts("start"));
}

#[test]
fn granted_access_lasts_its_days() {
    let until = paid_until(1000, subscription_days(Some("2")));
    assert!(is_subscription_active(until, 1000));
    assert!(is_subscription_active(until, 1000 + 2 * 86_400 - 1));
    assert!(!is_subscription_active(until, 1000 + 2 * 86_400));
}
