use channel_bot::actions::{Action, ActionOf};
use channel_bot::admin::{
    channel_added, channel_removed, normalize_username, Admin, ForwardedChat, BTN_ADD, BTN_IM_ADMIN,
    BTN_LIST, BTN_REMOVE,
};
use channel_bot::free_users::{
    free_users_text, load_first_month_usernames, load_free_users, read_free_list, read_free_users,
};
use channel_bot::keyboard::Markup;
use channel_bot::state::is_paid;
use serde_json::Value;

fn empty() -> Value {
    serde_json::from_str("{}").unwrap()
}

fn admin() -> Admin {
    Admin::new_from_env(Some("secret".to_string()))
}

fn say(adm: &mut Admin, st: &mut Value, text: &str, users: Option<&str>) -> Option<Vec<Action>> {
    adm.on_message(st, 1, Some(text), None, users)
}

fn signed_in() -> (Admin, Value) {
    let mut adm = admin();
    let mut st = empty();
    say(&mut adm, &mut st, BTN_IM_ADMIN, None).unwrap();
    say(&mut adm, &mut st, " secret ", None).unwrap();
    (adm, st)
}

fn text_of(action: &Action) -> String {
    match action {
        ActionOf::Send { text, .. } => text.clone(),
        _ => panic!("a message is expected"),
    }
}

fn texts(list: &[&str]) -> Vec<String> {
    list.iter().map(|s| s.to_string()).collect()
}

#[test]
fn blank_password_means_no_administrators() {
    assert!(!Admin::new_from_env(None).enabled());
    let mut adm = Admin::new_from_env(Some("  ".to_string()));
    assert!(!adm.enabled());
    assert!(say(&mut adm, &mut empty(), BTN_IM_ADMIN, None).is_none());
}

#[test]
fn keyboards_show_their_buttons() {
    let adm = admin();
    assert_eq!(adm.public_keyboard().rows, vec![texts(&["Я админ"])]);
    let panel = adm.panel_keyboard();
    assert_eq!(
        panel.rows,
        vec![texts(&["Добавить пользователя", "Удалить пользователя", "Список"])]
    );
    assert!(panel.resize_keyboard && !panel.one_time_keyboard);
}

#[test]
fn password_signs_in() {
    let mut adm = admin();
    let mut st = empty();
    let asked = say(&mut adm, &mut st, " Я админ ", None).unwrap();
    assert_eq!(text_of(&asked[0]), "Отправьте пароль администратора:");
    let wrong = say(&mut adm, &mut st, "guess", None).unwrap();
    assert_eq!(text_of(&wrong[0]), "❌ Неверный пароль. Попробуйте ещё раз.");
    assert!(!adm.is_authed(1) && !is_paid(&st));
    assert!(adm.is_signing_in(1, Some("secret")));
    let right = say(&mut adm, &mut st, "secret", None).unwrap();
    assert_eq!(right[0], ActionOf::WriteState);
    assert!(matches!(&right[1], ActionOf::Send { markup: Markup::Reply(_), .. }));
    assert!(adm.is_authed(1) && !adm.is_authed(2) && is_paid(&st));
}

#[test]
fn password_out_of_turn_is_no_password() {
    let mut adm = admin();
    assert!(say(&mut adm, &mut empty(), "secret", None).is_none());
    assert!(!adm.is_authed(1));
}

#[test]
fn messages_without_text_are_not_taken() {
    let mut adm = admin();
    assert!(adm.on_message(&mut empty(), 1, None, None, None).is_none());
}

#[test]
fn panel_is_for_those_signed_in() {
    let mut adm = admin();
    let mut st = empty();
    for button in [BTN_ADD, BTN_REMOVE, BTN_LIST] {
        assert!(say(&mut adm, &mut st, button, None).is_none());
    }
}

#[test]
fn user_is_added_and_has_access() {
    let (mut adm, mut st) = signed_in();
    say(&mut adm, &mut st, BTN_ADD, None).unwrap();
    let plan = say(&mut adm, &mut st, " @NewUser ", Some("[\"Old\"]")).unwrap();
    let ActionOf::WriteFreeUsers { users } = &plan[0] else {
        panic!("a list is expected");
    };
    assert_eq!(users, &texts(&["newuser", "old"]));
    assert_eq!(text_of(&plan[1]), "✅ Добавлен @newuser");
    assert_eq!(text_of(&plan[2]), "Панель администратора:");
    let file = free_users_text(users);
    assert!(adm.has_free_access(Some(&file), Some("@NEWUSER"), 5));
    assert!(!adm.has_free_access(Some(&file), Some("someone"), 5));
    assert!(say(&mut adm, &mut st, "hello", None).is_none());
}

#[test]
fn user_on_the_list_is_not_added_twice() {
    let (mut adm, mut st) = signed_in();
    say(&mut adm, &mut st, BTN_ADD, None).unwrap();
    let plan = say(&mut adm, &mut st, "OLD", Some("[\"Old\",\"old\"]")).unwrap();
    assert_eq!(plan[0], ActionOf::WriteFreeUsers { users: texts(&["old"]) });
    assert_eq!(text_of(&plan[1]), "ℹ️ @old уже в списке");
}

#[test]
fn blank_name_is_asked_for_again() {
    let (mut adm, mut st) = signed_in();
    say(&mut adm, &mut st, BTN_REMOVE, None).unwrap();
    let plan = say(&mut adm, &mut st, " @ ", None).unwrap();
    assert_eq!(text_of(&plan[0]), "Отправьте корректное имя пользователя (с @ или без).");
    let plan = say(&mut adm, &mut st, "gone", None).unwrap();
    assert_eq!(text_of(&plan[1]), "ℹ️ @gone отсутствовал в списке");
}

#[test]
fn user_is_removed_and_loses_access() {
    let (mut adm, mut st) = signed_in();
    say(&mut adm, &mut st, BTN_REMOVE, None).unwrap();
    let plan = say(&mut adm, &mut st, "@old", Some("[\"b\",\"old\",\"a\"]")).unwrap();
    let ActionOf::WriteFreeUsers { users } = &plan[0] else {
        panic!("a list is expected");
    };
    assert_eq!(users, &texts(&["a", "b"]));
    assert_eq!(text_of(&plan[1]), "✅ Удалён @old");
    assert!(!adm.has_free_access(Some(&free_users_text(users)), Some("old"), 5));
}

#[test]
fn user_who_is_added_and_removed_leaves_the_list() {
    let (mut adm, mut st) = signed_in();
    let before = st.clone();
    let mut file = free_users_text(&texts(&["b", "a"]));
    for (button, list) in [(BTN_ADD, vec!["a", "b", "c"]), (BTN_REMOVE, vec!["a", "b"])] {
        say(&mut adm, &mut st, button, Some(&file)).unwrap();
        let plan = say(&mut adm, &mut st, " @C ", Some(&file)).unwrap();
        let ActionOf::WriteFreeUsers { users } = &plan[0] else {
            panic!("a list is expected");
        };
        file = free_users_text(users);
        assert_eq!(read_free_users(Some(&file)), texts(&list));
    }
    assert!(say(&mut adm, &mut st, "hello", Some(&file)).is_none());
    assert_eq!(st, before);
}

#[test]
fn users_are_listed_in_order() {
    let (mut adm, mut st) = signed_in();
    let plan = say(&mut adm, &mut st, BTN_LIST, Some("[\"b\",\"A\"]")).unwrap();
    assert_eq!(text_of(&plan[0]), "Пользователи с бесплатным доступом:\n@a\n@b");
    let plan = say(&mut adm, &mut st, BTN_LIST, None).unwrap();
    assert_eq!(text_of(&plan[0]), "Пока нет пользователей с бесплатным доступом.");
}

#[test]
fn forwarded_channel_is_added_or_removed() {
    let mut adm = admin();
    let mut st = empty();
    adm.pending_add_ch.insert(1);
    let asked = adm.on_message(&mut st, 1, Some("x"), None, None).unwrap();
    assert_eq!(text_of(&asked[0]), "Перешлите сообщение из нужного канала сюда.");
    let from = ForwardedChat { id: -5, title: None, username: Some("news".to_string()) };
    let plan = adm.on_message(&mut st, 1, Some("x"), Some(&from), None).unwrap();
    assert_eq!(
        plan[0],
        ActionOf::AddChannel {
            chat: 1,
            channel: -5,
            title: "Unknown".to_string(),
            username: Some("news".to_string()),
        }
    );
    adm.pending_remove_ch.insert(1);
    let plan = adm.on_message(&mut st, 1, Some("x"), Some(&from), None).unwrap();
    assert_eq!(plan[0], ActionOf::RemoveChannel { chat: 1, channel: -5 });
    assert!(adm.pending_add_ch.is_empty() && adm.pending_remove_ch.is_empty());
}

#[test]
fn channel_outcomes_are_told() {
    assert_eq!(channel_added("News", -5, None), "✅ Канал добавлен: News (id: -5)");
    assert_eq!(channel_added("News", -5, Some("no db")), "❌ Не удалось добавить: no db");
    assert_eq!(channel_removed(-5, Ok(true)), "✅ Канал с id -5 удалён");
    assert_eq!(channel_removed(-5, Ok(false)), "ℹ️ Канал с id -5 не найден");
    assert_eq!(channel_removed(-5, Err("no db")), "❌ Не удалось удалить: no db");
}

#[test]
fn names_are_normalized() {
    assert_eq!(normalize_username(" @@Ab "), Some("ab".to_string()));
    assert_eq!(normalize_username(" @ "), None);
}

#[test]
fn access_is_by_name_or_id() {
    let adm = admin();
    let list = Some("[\" @Alice \",\"\",\"123\"]");
    assert!(adm.has_free_access(list, Some("alice"), 5));
    assert!(adm.has_free_access(list, None, 123));
    assert!(!adm.has_free_access(list, None, 5));
    assert!(!adm.has_free_access(list, Some("  "), 5));
    assert!(!adm.has_free_access(Some("[\"alice\",1]"), Some("alice"), 5));
    assert!(!adm.has_free_access(None, Some("alice"), 5));
}

#[test]
fn lists_of_users_are_read() {
    assert_eq!(read_free_list(Some("[\"@A\",\" \",\"b\"]")), texts(&["a", "b"]));
    assert_eq!(read_free_users(Some("[\"B\",\"b\",\"@c\"]")), texts(&["b", "@c"]));
    assert!(read_free_users(Some("[1]")).is_empty());
    assert_eq!(load_free_users(Some("[\"x\",1,\"y\",\"x\"]")), texts(&["x", "y"]));
    assert!(load_free_users(Some("{}")).is_empty());
    assert_eq!(load_first_month_usernames(Some("[\"x\"]")), texts(&["x"]));
}
