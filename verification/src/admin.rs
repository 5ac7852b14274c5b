//! The administrators: how they sign in, and the panel that they work with.
use crate::actions::{only, plain, plain_view, then_do, Action, ActionOf, ActionView};
use crate::free_users::{
    free_list, has_access, insert_text, is_free, is_lowercase, only_the_text_changes, panel_users,
    read_free_list, read_free_users, save_free_users, sorted_users, take_text, with_text,
    without_text, written_users_are_read,
};
use crate::json::{json_view, string_list_of_text, JsonView};
use crate::keyboard::{
    lasting_keyboard, one_row_keyboard, KeyboardMarkup, KeyboardView, Markup, MarkupView,
};
use crate::numbers::{int_text, show_i64};
use crate::sorting::stable_sort_keeps_items;
use crate::state::{admin_granted, grant_admin, takes_fields};
use crate::text::{handle, handle_key, join2, join3, same, trim, trim_text};
use serde_json::Value;
use std::collections::HashSet;
use vstd::prelude::*;

verus! {

/// The button with which administrators sign in.
pub const BTN_IM_ADMIN: &'static str = "Я админ";

/// The button that gives a user free access.
pub const BTN_ADD: &'static str = "Добавить пользователя";

/// The button that takes the free access of a user.
pub const BTN_REMOVE: &'static str = "Удалить пользователя";

/// The button that lists the users with free access.
pub const BTN_LIST: &'static str = "Список";

/// The administrators and what is expected of each chat next.
pub struct Admin {
    /// What administrators sign in with; without it nobody can.
    pub password: Option<String>,
    /// The chats of which the password is expected.
    pub pending_pwd: HashSet<i64>,
    /// The chats of which a user to add is expected.
    pub pending_add: HashSet<i64>,
    /// The chats of which a user to remove is expected.
    pub pending_remove: HashSet<i64>,
    /// The chats that have signed in.
    pub authed: HashSet<i64>,
    /// The chats of which a message from a channel to add is expected.
    pub pending_add_ch: HashSet<i64>,
    /// The chats of which a message from a channel to remove is expected.
    pub pending_remove_ch: HashSet<i64>,
}

/// The administrators and what is expected of each chat next.
pub struct AdminView {
    pub password: Option<Seq<char>>,
    pub pending_pwd: Set<i64>,
    pub pending_add: Set<i64>,
    pub pending_remove: Set<i64>,
    pub authed: Set<i64>,
    pub pending_add_ch: Set<i64>,
    pub pending_remove_ch: Set<i64>,
}

impl View for Admin {
    type V = AdminView;

    open spec fn view(&self) -> AdminView {
        AdminView {
            password: self.password.deep_view(),
            pending_pwd: self.pending_pwd@,
            pending_add: self.pending_add@,
            pending_remove: self.pending_remove@,
            authed: self.authed@,
            pending_add_ch: self.pending_add_ch@,
            pending_remove_ch: self.pending_remove_ch@,
        }
    }
}

/// The channel that a message was forwarded from.
#[derive(Debug, Clone, PartialEq, Eq)]
pub struct ForwardedChat {
    pub id: i64,
    pub title: Option<String>,
    pub username: Option<String>,
}

/// The channel that a message was forwarded from.
pub struct ForwardedChatView {
    pub id: i64,
    pub title: Option<Seq<char>>,
    pub username: Option<Seq<char>>,
}

impl DeepView for ForwardedChat {
    type V = ForwardedChatView;

    open spec fn deep_view(&self) -> ForwardedChatView {
        ForwardedChatView {
            id: self.id,
            title: self.title.deep_view(),
            username: self.username.deep_view(),
        }
    }
}

// ---------------------------------------------------------------------------
// Names and texts
// ---------------------------------------------------------------------------

/// The name that a text stands for: without surrounding white space and leading `@`
/// signs, in lowercase; none where nothing is left.
pub open spec fn normal_name(input: Seq<char>) -> Option<Seq<char>> {
    if handle_key(input).len() == 0 {
        None
    } else {
        Some(handle_key(input))
    }
}

/// The name that a text stands for.
pub fn normalize_username(input: &str) -> (r: Option<String>)
    ensures
        r.deep_view() == normal_name(input@),
{
    let t = handle(input);
    if t.as_str().is_empty() {
        None
    } else {
        Some(t)
    }
}

/// The first `n` texts, one to a line, each behind an `@`.
pub open spec fn at_lines(texts: Seq<Seq<char>>, n: nat) -> Seq<char>
    decreases n,
{
    if n == 0 {
        seq![]
    } else {
        at_lines(texts, (n - 1) as nat) + "\n@"@ + texts[n - 1]
    }
}

/// What lists the users with free access.
pub open spec fn users_text(users: Seq<Seq<char>>) -> Seq<char> {
    if users.len() == 0 {
        "Пока нет пользователей с бесплатным доступом."@
    } else {
        "Пользователи с бесплатным доступом:"@ + at_lines(users, users.len())
    }
}

/// The texts, one to a line, each behind an `@`.
pub fn show_at_lines(texts: &Vec<String>) -> (r: String)
    ensures
        r@ == at_lines(texts.deep_view(), texts@.len()),
{
    let ghost views = texts.deep_view();
    let mut out = String::new();
    assert(out@ =~= seq![]);
    for i in 0..texts.len()
        invariant
            views == texts.deep_view(),
            out@ == at_lines(views, i as nat),
    {
        assert(views[i as int] == texts@[i as int]@);
        out.append("\n@");
        out.append(&texts[i]);
    }
    out
}

fn show_users(users: &Vec<String>) -> (r: String)
    ensures
        r@ == users_text(users.deep_view()),
{
    if users.len() == 0 {
        "Пока нет пользователей с бесплатным доступом.".to_string()
    } else {
        join2("Пользователи с бесплатным доступом:", &show_at_lines(users))
    }
}

/// The keyboard of the panel.
pub open spec fn panel_view() -> KeyboardView {
    lasting_keyboard(seq![seq![BTN_ADD@, BTN_REMOVE@, BTN_LIST@]])
}

/// The keyboard that everyone sees.
pub open spec fn public_view() -> KeyboardView {
    lasting_keyboard(seq![seq![BTN_IM_ADMIN@]])
}

/// The message that brings up the panel.
pub open spec fn panel_message(chat: i64, text: Seq<char>) -> ActionView {
    ActionOf::Send { chat, text, markup: MarkupView::Reply(panel_view()) }
}

/// What heads the panel.
pub const PANEL_TEXT: &'static str = "Панель администратора:";

/// The password that is configured. A blank one counts as none.
pub open spec fn password_of(configured: Option<Seq<char>>) -> Option<Seq<char>> {
    match configured {
        Some(p) => if trim_text(p).len() == 0 {
            None
        } else {
            Some(p)
        },
        None => None,
    }
}

impl Admin {
    /// The administrators as the environment configures them. A blank password counts as
    /// none.
    pub fn new_from_env(password: Option<String>) -> (r: Admin)
        ensures
            r@.password == password_of(password.deep_view()),
            r@.pending_pwd == Set::<i64>::empty(),
            r@.pending_add == Set::<i64>::empty(),
            r@.pending_remove == Set::<i64>::empty(),
            r@.authed == Set::<i64>::empty(),
            r@.pending_add_ch == Set::<i64>::empty(),
            r@.pending_remove_ch == Set::<i64>::empty(),
            is_guarded(r@),
    {
        let password = match password {
            Some(p) => if trim(&p).as_str().is_empty() {
                None
            } else {
                Some(p)
            },
            None => None,
        };
        Admin {
            password,
            pending_pwd: HashSet::new(),
            pending_add: HashSet::new(),
            pending_remove: HashSet::new(),
            authed: HashSet::new(),
            pending_add_ch: HashSet::new(),
            pending_remove_ch: HashSet::new(),
        }
    }

    /// Whether there are administrators.
    pub fn enabled(&self) -> (r: bool)
        ensures
            r == self@.password is Some,
    {
        self.password.is_some()
    }

    /// The keyboard that everyone sees.
    pub fn public_keyboard(&self) -> (r: KeyboardMarkup)
        ensures
            r.deep_view() == public_view(),
    {
        let mut labels: Vec<String> = Vec::new();
        labels.push(BTN_IM_ADMIN.to_string());
        assert(labels.deep_view() =~= seq![BTN_IM_ADMIN@]);
        one_row_keyboard(labels)
    }

    /// The keyboard of the panel.
    pub fn panel_keyboard(&self) -> (r: KeyboardMarkup)
        ensures
            r.deep_view() == panel_view(),
    {
        let mut labels: Vec<String> = Vec::new();
        labels.push(BTN_ADD.to_string());
        labels.push(BTN_REMOVE.to_string());
        labels.push(BTN_LIST.to_string());
        assert(labels.deep_view() =~= seq![BTN_ADD@, BTN_REMOVE@, BTN_LIST@]);
        one_row_keyboard(labels)
    }

    /// The message that brings up the panel.
    pub fn panel(&self, chat: i64, text: &str) -> (r: Action)
        ensures
            r.deep_view() == panel_message(chat, text@),
    {
        ActionOf::Send {
            chat,
            text: text.to_string(),
            markup: Markup::Reply(self.panel_keyboard()),
        }
    }

    /// Whether a user is on the list of those with free access, by name or by id.
    pub fn has_free_access(&self, list: Option<&str>, username: Option<&str>, chat_id: i64) -> (r:
        bool)
        ensures
            r == has_access(free_list(list.deep_view()), username.deep_view(), chat_id),
    {
        is_free(&read_free_list(list), username, chat_id)
    }

    /// Whether a chat has signed in.
    pub fn is_authed(&self, chat_id: i64) -> (r: bool)
        ensures
            r == self@.authed.contains(chat_id),
    {
        broadcast use vstd::std_specs::hash::group_hash_axioms;

        self.authed.contains(&chat_id)
    }
}

// ---------------------------------------------------------------------------
// Messages
// ---------------------------------------------------------------------------

/// What a message does: who the administrators are afterwards, the state, and what the
/// bot is to do. Without a plan the message is none of theirs.
pub struct AdminStep {
    pub admin: AdminView,
    pub state: JsonView,
    pub plan: Option<Seq<ActionView>>,
}

/// Whether a message is the right password of a chat that is to send it.
pub open spec fn signs_in(a: AdminView, chat: i64, text: Option<Seq<char>>) -> bool {
    &&& a.password is Some
    &&& text is Some
    &&& a.pending_pwd.contains(chat)
    &&& trim_text(text->0) == a.password->0
}

/// A message with the password of a chat.
pub open spec fn password_step(a: AdminView, st: JsonView, chat: i64, text: Seq<char>) -> AdminStep {
    if trim_text(text) == a.password->0 {
        AdminStep {
            admin: AdminView {
                pending_pwd: a.pending_pwd.remove(chat),
                authed: a.authed.insert(chat),
                ..a
            },
            state: admin_granted(st, chat),
            plan: Some(
                seq![
                    ActionOf::WriteState,
                    panel_message(
                        chat,
                        "✅ Вы авторизованы как админ. Панель администратора:"@,
                    ),
                ],
            ),
        }
    } else {
        AdminStep {
            admin: a,
            state: st,
            plan: Some(
                seq![plain_view(chat, "❌ Неверный пароль. Попробуйте ещё раз."@)],
            ),
        }
    }
}

/// What is said where a name was expected and none came.
pub const NAME_EXPECTED: &'static str = "Отправьте корректное имя пользователя (с @ или без).";

/// A message with the user to add.
pub open spec fn add_step(
    a: AdminView,
    st: JsonView,
    chat: i64,
    text: Seq<char>,
    users: Seq<Seq<char>>,
) -> AdminStep {
    match normal_name(text) {
        Some(u) => AdminStep {
            admin: AdminView { pending_add: a.pending_add.remove(chat), ..a },
            state: st,
            plan: Some(
                seq![
                    ActionOf::WriteFreeUsers { users: sorted_users(with_text(users, u)) },
                    plain_view(
                        chat,
                        if users.contains(u) {
                            "ℹ️ @"@ + u + " уже в списке"@
                        } else {
                            "✅ Добавлен @"@ + u
                        },
                    ),
                    panel_message(chat, PANEL_TEXT@),
                ],
            ),
        },
        None => AdminStep {
            admin: a,
            state: st,
            plan: Some(seq![plain_view(chat, NAME_EXPECTED@)]),
        },
    }
}

/// A message with the user to remove.
pub open spec fn remove_step(
    a: AdminView,
    st: JsonView,
    chat: i64,
    text: Seq<char>,
    users: Seq<Seq<char>>,
) -> AdminStep {
    match normal_name(text) {
        Some(u) => AdminStep {
            admin: AdminView { pending_remove: a.pending_remove.remove(chat), ..a },
            state: st,
            plan: Some(
                seq![
                    ActionOf::WriteFreeUsers { users: sorted_users(without_text(users, u)) },
                    plain_view(
                        chat,
                        if users.contains(u) {
                            "✅ Удалён @"@ + u
                        } else {
                            "ℹ️ @"@ + u + " отсутствовал в списке"@
                        },
                    ),
                    panel_message(chat, PANEL_TEXT@),
                ],
            ),
        },
        None => AdminStep {
            admin: a,
            state: st,
            plan: Some(seq![plain_view(chat, NAME_EXPECTED@)]),
        },
    }
}

/// A message where one from a channel is expected.
pub open spec fn channel_step(
    a: AdminView,
    st: JsonView,
    chat: i64,
    forwarded: Option<ForwardedChatView>,
) -> AdminStep {
    match forwarded {
        Some(from) => {
            let title = match from.title {
                Some(t) => t,
                None => "Unknown"@,
            };
            if a.pending_add_ch.contains(chat) {
                AdminStep {
                    admin: AdminView { pending_add_ch: a.pending_add_ch.remove(chat), ..a },
                    state: st,
                    plan: Some(
                        seq![
                            ActionOf::AddChannel {
                                chat,
                                channel: from.id,
                                title,
                                username: from.username,
                            },
                            panel_message(chat, PANEL_TEXT@),
                        ],
                    ),
                }
            } else {
                AdminStep {
                    admin: AdminView { pending_remove_ch: a.pending_remove_ch.remove(chat), ..a },
                    state: st,
                    plan: Some(
                        seq![
                            ActionOf::RemoveChannel { chat, channel: from.id },
                            panel_message(chat, PANEL_TEXT@),
                        ],
                    ),
                }
            }
        },
        None => AdminStep {
            admin: a,
            state: st,
            plan: Some(
                seq![plain_view(chat, "Перешлите сообщение из нужного канала сюда."@)],
            ),
        },
    }
}

/// A message of a chat of which nothing is expected.
pub open spec fn button_step(
    a: AdminView,
    st: JsonView,
    chat: i64,
    text: Seq<char>,
    users: Seq<Seq<char>>,
) -> AdminStep {
    let t = trim_text(text);
    let authed = a.authed.contains(chat);
    if t == BTN_IM_ADMIN@ {
        AdminStep {
            admin: AdminView { pending_pwd: a.pending_pwd.insert(chat), ..a },
            state: st,
            plan: Some(seq![plain_view(chat, "Отправьте пароль администратора:"@)]),
        }
    } else if t == BTN_ADD@ && authed {
        AdminStep {
            admin: AdminView { pending_add: a.pending_add.insert(chat), ..a },
            state: st,
            plan: Some(
                seq![
                    plain_view(
                        chat,
                        "Отправьте имя пользователя для ДОБАВЛЕНИЯ (с @ или без):"@,
                    ),
                ],
            ),
        }
    } else if t == BTN_REMOVE@ && authed {
        AdminStep {
            admin: AdminView { pending_remove: a.pending_remove.insert(chat), ..a },
            state: st,
            plan: Some(
                seq![
                    plain_view(
                        chat,
                        "Отправьте имя пользователя для УДАЛЕНИЯ (с @ или без):"@,
                    ),
                ],
            ),
        }
    } else if t == BTN_LIST@ && authed {
        AdminStep {
            admin: a,
            state: st,
            plan: Some(seq![plain_view(chat, users_text(sorted_users(users)))]),
        }
    } else {
        AdminStep { admin: a, state: st, plan: None }
    }
}

/// What a message does.
pub open spec fn admin_step(
    a: AdminView,
    st: JsonView,
    chat: i64,
    text: Option<Seq<char>>,
    forwarded: Option<ForwardedChatView>,
    users: Seq<Seq<char>>,
) -> AdminStep {
    if a.password is None || text is None {
        AdminStep { admin: a, state: st, plan: None }
    } else if a.pending_pwd.contains(chat) {
        password_step(a, st, chat, text->0)
    } else if a.pending_add.contains(chat) {
        add_step(a, st, chat, text->0, users)
    } else if a.pending_remove.contains(chat) {
        remove_step(a, st, chat, text->0, users)
    } else if a.pending_add_ch.contains(chat) || a.pending_remove_ch.contains(chat) {
        channel_step(a, st, chat, forwarded)
    } else {
        button_step(a, st, chat, text->0, users)
    }
}

impl Admin {
    /// Whether a message is the right password of a chat that is to send it.
    pub fn is_signing_in(&self, chat: i64, text: Option<&str>) -> (r: bool)
        ensures
            r == signs_in(self@, chat, text.deep_view()),
    {
        broadcast use vstd::std_specs::hash::group_hash_axioms;

        match (&self.password, text) {
            (Some(p), Some(t)) => self.pending_pwd.contains(&chat) && same(&trim(t), p),
            _ => false,
        }
    }

    fn on_name_to_add(&mut self, chat: i64, text: &str, users: Option<&str>) -> (plan: Vec<Action>)
        ensures
            ({
                let step = add_step(
                    old(self)@,
                    JsonView::Null,
                    chat,
                    text@,
                    panel_users(users.deep_view()),
                );
                &&& final(self)@ == step.admin
                &&& Some(plan.deep_view()) == step.plan
            }),
    {
        broadcast use vstd::std_specs::hash::group_hash_axioms;

        match normalize_username(text) {
            Some(u) => {
                let mut set = read_free_users(users);
                let inserted = insert_text(&mut set, u.clone());
                let mut plan = only(ActionOf::WriteFreeUsers { users: save_free_users(&set) });
                let note = if inserted {
                    join2("✅ Добавлен @", &u)
                } else {
                    join3("ℹ️ @", &u, " уже в списке")
                };
                then_do(&mut plan, plain(chat, note));
                then_do(&mut plan, self.panel(chat, PANEL_TEXT));
                self.pending_add.remove(&chat);
                plan
            },
            None => only(plain(chat, NAME_EXPECTED.to_string())),
        }
    }

    fn on_name_to_remove(&mut self, chat: i64, text: &str, users: Option<&str>) -> (plan: Vec<
        Action,
    >)
        ensures
            ({
                let step = remove_step(
                    old(self)@,
                    JsonView::Null,
                    chat,
                    text@,
                    panel_users(users.deep_view()),
                );
                &&& final(self)@ == step.admin
                &&& Some(plan.deep_view()) == step.plan
            }),
    {
        broadcast use vstd::std_specs::hash::group_hash_axioms;

        match normalize_username(text) {
            Some(u) => {
                let mut set = read_free_users(users);
                let removed = take_text(&mut set, &u);
                let mut plan = only(ActionOf::WriteFreeUsers { users: save_free_users(&set) });
                let note = if removed {
                    join2("✅ Удалён @", &u)
                } else {
                    join3("ℹ️ @", &u, " отсутствовал в списке")
                };
                then_do(&mut plan, plain(chat, note));
                then_do(&mut plan, self.panel(chat, PANEL_TEXT));
                self.pending_remove.remove(&chat);
                plan
            },
            None => only(plain(chat, NAME_EXPECTED.to_string())),
        }
    }

    fn on_channel(&mut self, chat: i64, forwarded: Option<&ForwardedChat>) -> (plan: Vec<Action>)
        ensures
            ({
                let step = channel_step(
                    old(self)@,
                    JsonView::Null,
                    chat,
                    forwarded.deep_view(),
                );
                &&& final(self)@ == step.admin
                &&& Some(plan.deep_view()) == step.plan
            }),
    {
        broadcast use vstd::std_specs::hash::group_hash_axioms;

        match forwarded {
            Some(from) => {
                if self.pending_add_ch.contains(&chat) {
                    let title = match &from.title {
                        Some(t) => t.clone(),
                        None => "Unknown".to_string(),
                    };
                    let username = match &from.username {
                        Some(name) => Some(name.clone()),
                        None => None,
                    };
                    let mut plan = only(
                        ActionOf::AddChannel { chat, channel: from.id, title, username },
                    );
                    then_do(&mut plan, self.panel(chat, PANEL_TEXT));
                    self.pending_add_ch.remove(&chat);
                    plan
                } else {
                    let mut plan = only(ActionOf::RemoveChannel { chat, channel: from.id });
                    then_do(&mut plan, self.panel(chat, PANEL_TEXT));
                    self.pending_remove_ch.remove(&chat);
                    plan
                }
            },
            None => only(plain(chat, "Перешлите сообщение из нужного канала сюда.".to_string())),
        }
    }

    fn on_button(&mut self, chat: i64, text: &str, users: Option<&str>) -> (plan: Option<
        Vec<Action>,
    >)
        ensures
            ({
                let step = button_step(
                    old(self)@,
                    JsonView::Null,
                    chat,
                    text@,
                    panel_users(users.deep_view()),
                );
                &&& final(self)@ == step.admin
                &&& plan.deep_view() == step.plan
            }),
    {
        broadcast use vstd::std_specs::hash::group_hash_axioms;

        let t = trim(text);
        let authed = self.authed.contains(&chat);
        if same(&t, BTN_IM_ADMIN) {
            self.pending_pwd.insert(chat);
            return Some(only(plain(chat, "Отправьте пароль администратора:".to_string())));
        }
        if authed && same(&t, BTN_ADD) {
            self.pending_add.insert(chat);
            return Some(
                only(
                    plain(
                        chat,
                        "Отправьте имя пользователя для ДОБАВЛЕНИЯ (с @ или без):".to_string(),
                    ),
                ),
            );
        }
        if authed && same(&t, BTN_REMOVE) {
            self.pending_remove.insert(chat);
            return Some(
                only(
                    plain(
                        chat,
                        "Отправьте имя пользователя для УДАЛЕНИЯ (с @ или без):".to_string(),
                    ),
                ),
            );
        }
        if authed && same(&t, BTN_LIST) {
            let set = save_free_users(&read_free_users(users));
            return Some(only(plain(chat, show_users(&set))));
        }
        None
    }

    /// What a message does, given what the file with the users of the panel holds. The
    /// state must take fields where the chat signs in.
    pub fn on_message(
        &mut self,
        st: &mut Value,
        chat: i64,
        text: Option<&str>,
        forwarded: Option<&ForwardedChat>,
        users: Option<&str>,
    ) -> (plan: Option<Vec<Action>>)
        requires
            signs_in(old(self)@, chat, text.deep_view()) ==> takes_fields(json_view(*old(st))),
        ensures
            ({
                let step = admin_step(
                    old(self)@,
                    json_view(*old(st)),
                    chat,
                    text.deep_view(),
                    forwarded.deep_view(),
                    panel_users(users.deep_view()),
                );
                &&& final(self)@ == step.admin
                &&& json_view(*final(st)) == step.state
                &&& plan.deep_view() == step.plan
            }),
    {
        broadcast use vstd::std_specs::hash::group_hash_axioms;

        let text = match text {
            Some(t) => t,
            None => return None,
        };
        if self.password.is_none() {
            return None;
        }
        if self.pending_pwd.contains(&chat) {
            if self.is_signing_in(chat, Some(text)) {
                self.pending_pwd.remove(&chat);
                self.authed.insert(chat);
                grant_admin(st, chat);
                let mut plan = only(ActionOf::WriteState);
                then_do(
                    &mut plan,
                    self.panel(chat, "✅ Вы авторизованы как админ. Панель администратора:"),
                );
                return Some(plan);
            }
            return Some(
                only(plain(chat, "❌ Неверный пароль. Попробуйте ещё раз.".to_string())),
            );
        }
        if self.pending_add.contains(&chat) {
            return Some(self.on_name_to_add(chat, text, users));
        }
        if self.pending_remove.contains(&chat) {
            return Some(self.on_name_to_remove(chat, text, users));
        }
        if self.pending_add_ch.contains(&chat) || self.pending_remove_ch.contains(&chat) {
            return Some(self.on_channel(chat, forwarded));
        }
        self.on_button(chat, text, users)
    }
}

// ---------------------------------------------------------------------------
// Laws
// ---------------------------------------------------------------------------

/// Only chats that have signed in are asked for users to add or to remove.
pub open spec fn is_guarded(a: AdminView) -> bool {
    &&& a.pending_add.subset_of(a.authed)
    &&& a.pending_remove.subset_of(a.authed)
}

/// Whatever messages come, only chats that have signed in are asked for users to add or
/// to remove, and whoever has signed in stays so.
pub proof fn guard_holds(
    a: AdminView,
    st: JsonView,
    chat: i64,
    text: Option<Seq<char>>,
    forwarded: Option<ForwardedChatView>,
    users: Seq<Seq<char>>,
)
    requires
        is_guarded(a),
    ensures
        is_guarded(admin_step(a, st, chat, text, forwarded, users).admin),
        a.authed.subset_of(admin_step(a, st, chat, text, forwarded, users).admin.authed),
{
}

/// A chat signs in with the password when it was asked for it, and in no other way; no
/// message of one chat signs another in.
pub proof fn only_the_password_signs_in(
    a: AdminView,
    st: JsonView,
    chat: i64,
    text: Option<Seq<char>>,
    forwarded: Option<ForwardedChatView>,
    users: Seq<Seq<char>>,
    other: i64,
)
    ensures
        admin_step(a, st, chat, text, forwarded, users).admin.authed.contains(other) <==> (
        a.authed.contains(other) || other == chat && signs_in(a, chat, text)),
{
}

/// The list of users with free access is written only for a chat that has signed in.
pub proof fn only_admins_write_users(
    a: AdminView,
    st: JsonView,
    chat: i64,
    text: Option<Seq<char>>,
    forwarded: Option<ForwardedChatView>,
    users: Seq<Seq<char>>,
    i: int,
)
    requires
        is_guarded(a),
        admin_step(a, st, chat, text, forwarded, users).plan is Some,
        0 <= i < admin_step(a, st, chat, text, forwarded, users).plan->0.len(),
        admin_step(a, st, chat, text, forwarded, users).plan->0[i] is WriteFreeUsers,
    ensures
        a.authed.contains(chat),
{
}

/// The state changes only when a chat signs in.
pub proof fn state_changes_only_on_sign_in(
    a: AdminView,
    st: JsonView,
    chat: i64,
    text: Option<Seq<char>>,
    forwarded: Option<ForwardedChatView>,
    users: Seq<Seq<char>>,
)
    ensures
        admin_step(a, st, chat, text, forwarded, users).state == (if signs_in(a, chat, text) {
            admin_granted(st, chat)
        } else {
            st
        }),
{
}

/// What is expected of a chat changes with its own messages only.
pub proof fn other_chats_are_not_affected(
    a: AdminView,
    st: JsonView,
    chat: i64,
    text: Option<Seq<char>>,
    forwarded: Option<ForwardedChatView>,
    users: Seq<Seq<char>>,
    other: i64,
)
    requires
        other != chat,
    ensures
        ({
            let after = admin_step(a, st, chat, text, forwarded, users).admin;
            &&& after.pending_pwd.contains(other) == a.pending_pwd.contains(other)
            &&& after.pending_add.contains(other) == a.pending_add.contains(other)
            &&& after.pending_remove.contains(other) == a.pending_remove.contains(other)
            &&& after.authed.contains(other) == a.authed.contains(other)
            &&& after.pending_add_ch.contains(other) == a.pending_add_ch.contains(other)
            &&& after.pending_remove_ch.contains(other) == a.pending_remove_ch.contains(other)
            &&& after.password == a.password
        }),
{
}

/// Whether nothing is expected of a chat that has signed in.
pub open spec fn is_at_the_panel(a: AdminView, chat: i64) -> bool {
    &&& a.password is Some
    &&& a.authed.contains(chat)
    &&& !a.pending_pwd.contains(chat)
    &&& !a.pending_add.contains(chat)
    &&& !a.pending_remove.contains(chat)
    &&& !a.pending_add_ch.contains(chat)
    &&& !a.pending_remove_ch.contains(chat)
}

/// A press of a button and the name that is asked for then.
pub open spec fn name_given(
    a: AdminView,
    st: JsonView,
    chat: i64,
    button: Seq<char>,
    name: Seq<char>,
    users: Seq<Seq<char>>,
) -> AdminStep {
    let asked = admin_step(a, st, chat, Some(button), None, users);
    admin_step(asked.admin, asked.state, chat, Some(name), None, users)
}

proof fn lemma_buttons()
    ensures
        trim_text(BTN_ADD@) == BTN_ADD@,
        trim_text(BTN_REMOVE@) == BTN_REMOVE@,
        BTN_ADD@ != BTN_IM_ADMIN@,
        BTN_REMOVE@ != BTN_IM_ADMIN@,
        BTN_REMOVE@ != BTN_ADD@,
{
    reveal_strlit("Я админ");
    reveal_strlit("Добавить пользователя");
    reveal_strlit("Удалить пользователя");
    assert(BTN_ADD@[0] == 'Д');
    assert(BTN_REMOVE@[0] == 'У');
    assert(BTN_IM_ADMIN@[0] == 'Я');
}

/// A user who is added and then removed, with the buttons of the panel, leaves the list as
/// it was, where the names are their own lowercase forms: the list that is read holds that
/// user as well first, and then those it held before; and what is expected of each chat,
/// and the state, are as they were. Each of the four messages is one for the panel.
/// `added` and `removed` are what the file holds after each of the two lists was written.
pub proof fn adding_and_removing_changes_nothing(
    a: AdminView,
    st: JsonView,
    chat: i64,
    name: Seq<char>,
    users: Seq<Seq<char>>,
    added: Seq<char>,
    removed: Seq<char>,
    x: Seq<char>,
)
    requires
        is_at_the_panel(a, chat),
        normal_name(name) is Some,
        !users.contains(handle_key(name)),
        is_lowercase(handle_key(name)),
        forall|i: int| 0 <= i < users.len() ==> is_lowercase(#[trigger] users[i]),
        ({
            let first = name_given(a, st, chat, BTN_ADD@, name, users);
            let listed = panel_users(Some(added));
            let second = name_given(first.admin, first.state, chat, BTN_REMOVE@, name, listed);
            &&& first.plan->0[0] matches ActionOf::WriteFreeUsers { users: list }
                ==> string_list_of_text(added) == Some(list)
            &&& second.plan->0[0] matches ActionOf::WriteFreeUsers { users: list }
                ==> string_list_of_text(removed) == Some(list)
        }),
    ensures
        ({
            let first = name_given(a, st, chat, BTN_ADD@, name, users);
            let listed = panel_users(Some(added));
            let second = name_given(first.admin, first.state, chat, BTN_REMOVE@, name, listed);
            &&& admin_step(a, st, chat, Some(BTN_ADD@), None, users).plan is Some
            &&& first.plan is Some
            &&& first.plan->0[0] is WriteFreeUsers
            &&& admin_step(
                first.admin,
                first.state,
                chat,
                Some(BTN_REMOVE@),
                None,
                listed,
            ).plan is Some
            &&& second.plan is Some
            &&& second.plan->0[0] is WriteFreeUsers
            &&& listed.contains(x) <==> users.contains(x) || x == handle_key(name)
            &&& panel_users(Some(removed)).contains(x) <==> users.contains(x)
            &&& second.admin == a
            &&& second.state == st
        }),
{
    lemma_buttons();
    let key = handle_key(name);
    let first = name_given(a, st, chat, BTN_ADD@, name, users);
    let listed = panel_users(Some(added));
    let second = name_given(first.admin, first.state, chat, BTN_REMOVE@, name, listed);
    let more = with_text(users, key);
    let fewer = without_text(listed, key);
    assert(a.pending_add.insert(chat).remove(chat) =~= a.pending_add);
    assert(first.admin == a);
    assert(a.pending_remove.insert(chat).remove(chat) =~= a.pending_remove);
    assert(first.plan->0[0]->WriteFreeUsers_users == sorted_users(more));
    assert(second.plan->0[0]->WriteFreeUsers_users == sorted_users(fewer));
    only_the_text_changes(users, key, x);
    only_the_text_changes(listed, key, x);
    written_users_are_read(added, more, x);
    assert forall|i: int| 0 <= i < fewer.len() implies is_lowercase(#[trigger] fewer[i]) by {
        let y = fewer[i];
        assert(fewer.contains(y));
        only_the_text_changes(listed, key, y);
        written_users_are_read(added, more, y);
        let j = choose|j: int| 0 <= j < more.len() && more[j] == y;
        assert(is_lowercase(more[j]));
    }
    written_users_are_read(removed, fewer, x);
}

// ---------------------------------------------------------------------------
// Channels
// ---------------------------------------------------------------------------

/// What is said once a channel was to be added, given the error if there was one.
pub open spec fn channel_added_text(title: Seq<char>, id: i64, error: Option<Seq<char>>) -> Seq<
    char,
> {
    match error {
        Some(e) => "❌ Не удалось добавить: "@ + e,
        None => "✅ Канал добавлен: "@ + title + " (id: "@ + int_text(id as int) + ")"@,
    }
}

/// What is said once a channel was to be added, given the error if there was one.
pub fn channel_added(title: &str, id: i64, error: Option<&str>) -> (r: String)
    ensures
        r@ == channel_added_text(title@, id, error.deep_view()),
{
    match error {
        Some(e) => join2("❌ Не удалось добавить: ", e),
        None => {
            let mut r = join3("✅ Канал добавлен: ", title, " (id: ");
            r.append(&show_i64(id));
            r.append(")");
            r
        },
    }
}

/// What is said once a channel was to be removed, given whether it was there, or the
/// error.
pub open spec fn channel_removed_text(id: i64, outcome: Result<bool, Seq<char>>) -> Seq<char> {
    match outcome {
        Ok(removed) => if removed {
            "✅ Канал с id "@ + int_text(id as int) + " удалён"@
        } else {
            "ℹ️ Канал с id "@ + int_text(id as int) + " не найден"@
        },
        Err(e) => "❌ Не удалось удалить: "@ + e,
    }
}

/// What is said once a channel was to be removed, given whether it was there, or the
/// error.
pub fn channel_removed(id: i64, outcome: Result<bool, &str>) -> (r: String)
    ensures
        r@ == channel_removed_text(
            id,
            match outcome {
                Ok(removed) => Ok(removed),
                Err(e) => Err(e@),
            },
        ),
{
    match outcome {
        Ok(removed) => if removed {
            join3("✅ Канал с id ", &show_i64(id), " удалён")
        } else {
            join3("ℹ️ Канал с id ", &show_i64(id), " не найден")
        },
        Err(e) => join2("❌ Не удалось удалить: ", e),
    }
}

// ---------------------------------------------------------------------------
// What the panel does
// ---------------------------------------------------------------------------

/// A chat that asks to sign in is asked for the password, and signs in when it sends that,
/// with or without white space around it: then it is let in as an administrator, which is
/// persisted, and gets the panel. A wrong password is told, and asked for still.
pub proof fn signing_in(
    a: AdminView,
    st: JsonView,
    chat: i64,
    text: Seq<char>,
    users: Seq<Seq<char>>,
)
    requires
        a.password is Some,
        a.pending_pwd.contains(chat),
    ensures
        ({
            let step = admin_step(a, st, chat, Some(text), None, users);
            &&& step.plan is Some
            &&& trim_text(text) == a.password->0 ==> {
                &&& step.admin.authed.contains(chat)
                &&& !step.admin.pending_pwd.contains(chat)
                &&& step.state == admin_granted(st, chat)
                &&& step.plan->0.contains(ActionOf::WriteState)
                &&& step.plan->0.last() matches ActionOf::Send { chat: to, markup, .. } && to
                    == chat && markup == MarkupView::Reply(panel_view())
            }
            &&& trim_text(text) != a.password->0 ==> {
                &&& step.admin == a
                &&& step.state == st
                &&& step.plan->0.len() == 1
                &&& step.plan->0[0] matches ActionOf::Send { chat: to, .. } && to == chat
            }
        }),
{
    let step = admin_step(a, st, chat, Some(text), None, users);
    if trim_text(text) == a.password->0 {
        assert(step.plan->0[0] is WriteState);
    }
}

/// The button to sign in asks any chat for the password; the others ask a chat that has
/// signed in for a user, or list them, and are none of the panel's for any other chat.
pub proof fn buttons_ask_for_what_they_say(
    a: AdminView,
    st: JsonView,
    chat: i64,
    users: Seq<Seq<char>>,
)
    requires
        a.password is Some,
        !a.pending_pwd.contains(chat),
        !a.pending_add.contains(chat),
        !a.pending_remove.contains(chat),
        !a.pending_add_ch.contains(chat),
        !a.pending_remove_ch.contains(chat),
    ensures
        ({
            let sign_in = admin_step(a, st, chat, Some(BTN_IM_ADMIN@), None, users);
            let add = admin_step(a, st, chat, Some(BTN_ADD@), None, users);
            let remove = admin_step(a, st, chat, Some(BTN_REMOVE@), None, users);
            let list = admin_step(a, st, chat, Some(BTN_LIST@), None, users);
            &&& sign_in.plan is Some && sign_in.admin.pending_pwd == a.pending_pwd.insert(chat)
            &&& sign_in.admin.authed == a.authed
            &&& sign_in.state == st && add.state == st && remove.state == st && list.state == st
            &&& list.admin == a
            &&& a.authed.contains(chat) ==> {
                &&& add.plan is Some && add.admin.pending_add == a.pending_add.insert(chat)
                &&& add.admin.pending_remove == a.pending_remove
                &&& remove.plan is Some && remove.admin.pending_remove == a.pending_remove.insert(
                    chat,
                )
                &&& remove.admin.pending_add == a.pending_add
                &&& list.plan is Some
            }
            &&& !a.authed.contains(chat) ==> {
                &&& add.plan is None && add.admin == a
                &&& remove.plan is None && remove.admin == a
                &&& list.plan is None
            }
        }),
{
    lemma_buttons();
    lemma_other_buttons();
}

proof fn lemma_other_buttons()
    ensures
        trim_text(BTN_IM_ADMIN@) == BTN_IM_ADMIN@,
        trim_text(BTN_LIST@) == BTN_LIST@,
        BTN_LIST@ != BTN_IM_ADMIN@,
        BTN_LIST@ != BTN_ADD@,
        BTN_LIST@ != BTN_REMOVE@,
{
    reveal_strlit("Я админ");
    reveal_strlit("Добавить пользователя");
    reveal_strlit("Удалить пользователя");
    reveal_strlit("Список");
    assert(BTN_ADD@[0] == 'Д');
    assert(BTN_REMOVE@[0] == 'У');
    assert(BTN_IM_ADMIN@[0] == 'Я');
    assert(BTN_LIST@[0] == 'С');
}

/// The user that a chat is expected to name is added to the list, or taken from it: the
/// list that is written holds that user, or does not, and everyone else as before. Then the
/// chat is expected to name nobody. A text that names nobody is asked for again.
pub proof fn named_users_are_written(
    a: AdminView,
    st: JsonView,
    chat: i64,
    text: Seq<char>,
    users: Seq<Seq<char>>,
    x: Seq<char>,
)
    requires
        a.password is Some,
        !a.pending_pwd.contains(chat),
    ensures
        ({
            let name = handle_key(text);
            let step = admin_step(a, st, chat, Some(text), None, users);
            let plan = step.plan->0;
            let adds = a.pending_add.contains(chat);
            let removes = !adds && a.pending_remove.contains(chat);
            &&& adds || removes ==> step.plan is Some && step.state == st
            &&& (adds || removes) && name.len() == 0 ==> {
                &&& step.admin == a
                &&& plan.len() == 1 && plan[0] is Send
            }
            &&& adds && name.len() > 0 ==> {
                &&& step.admin.pending_add == a.pending_add.remove(chat)
                &&& plan[0] matches ActionOf::WriteFreeUsers { users: list } && (list.contains(x)
                    <==> users.contains(x) || x == name)
            }
            &&& removes && name.len() > 0 ==> {
                &&& step.admin.pending_remove == a.pending_remove.remove(chat)
                &&& plan[0] matches ActionOf::WriteFreeUsers { users: list } && (list.contains(x)
                    <==> users.contains(x) && x != name)
            }
            &&& (adds || removes) && name.len() > 0 ==> {
                &&& plan.last() == panel_message(chat, PANEL_TEXT@)
                &&& plan[1] matches ActionOf::Send { chat: to, .. } && to == chat
            }
        }),
{
    let name = handle_key(text);
    only_the_text_changes(users, name, x);
    let more = with_text(users, name);
    let fewer = without_text(users, name);
    stable_sort_keeps_items(more, more, x);
    stable_sort_keeps_items(fewer, fewer, x);
}

proof fn lemma_at_line(texts: Seq<Seq<char>>, n: nat, i: int)
    requires
        0 <= i < n <= texts.len(),
    ensures
        exists|head: Seq<char>, tail: Seq<char>| #[trigger]
            (head + ("\n@"@ + texts[i]) + tail) == at_lines(texts, n),
    decreases n,
{
    let before = at_lines(texts, (n - 1) as nat);
    if i == n - 1 {
        assert(before + ("\n@"@ + texts[i]) + Seq::<char>::empty() =~= at_lines(texts, n));
    } else {
        lemma_at_line(texts, (n - 1) as nat, i);
        let (head, tail) = choose|head: Seq<char>, tail: Seq<char>| #[trigger]
            (head + ("\n@"@ + texts[i]) + tail) == before;
        let more = tail + "\n@"@ + texts[n - 1];
        assert(head + ("\n@"@ + texts[i]) + more =~= at_lines(texts, n));
    }
}

/// The button that lists the users gives every one of them, each on a line, behind an `@`.
pub proof fn every_user_is_listed(
    a: AdminView,
    st: JsonView,
    chat: i64,
    users: Seq<Seq<char>>,
    x: Seq<char>,
)
    requires
        is_at_the_panel(a, chat),
        users.contains(x),
    ensures
        ({
            let step = admin_step(a, st, chat, Some(BTN_LIST@), None, users);
            &&& step.plan is Some
            &&& step.plan->0.len() == 1
            &&& step.plan->0[0] matches ActionOf::Send { chat: to, text, .. } && to == chat
                && exists|head: Seq<char>, tail: Seq<char>| #[trigger]
                (head + ("\n@"@ + x) + tail) == text
        }),
{
    lemma_buttons();
    lemma_other_buttons();
    let sorted = sorted_users(users);
    stable_sort_keeps_items(users, users, x);
    let i = choose|i: int| 0 <= i < sorted.len() && sorted[i] == x;
    lemma_at_line(sorted, sorted.len(), i);
    let (head, tail) = choose|head: Seq<char>, tail: Seq<char>| #[trigger]
        (head + ("\n@"@ + x) + tail) == at_lines(sorted, sorted.len());
    let front = "Пользователи с бесплатным доступом:"@ + head;
    assert(front + ("\n@"@ + x) + tail =~= users_text(sorted));
}

/// The channel that a message was forwarded from is added or removed where a chat is
/// expected to forward one, for that chat, and then no more is expected; a channel without a
/// title is called unknown. Any other message is asked for again.
pub proof fn forwarded_channels_are_taken(
    a: AdminView,
    st: JsonView,
    chat: i64,
    text: Seq<char>,
    from: ForwardedChatView,
    users: Seq<Seq<char>>,
)
    requires
        a.password is Some,
        !a.pending_pwd.contains(chat),
        !a.pending_add.contains(chat),
        !a.pending_remove.contains(chat),
        a.pending_add_ch.contains(chat) || a.pending_remove_ch.contains(chat),
    ensures
        ({
            let step = admin_step(a, st, chat, Some(text), Some(from), users);
            let again = admin_step(a, st, chat, Some(text), None, users);
            &&& step.plan is Some && step.state == st
            &&& a.pending_add_ch.contains(chat) ==> {
                &&& step.plan->0[0] matches ActionOf::AddChannel {
                    chat: to,
                    channel,
                    title,
                    username,
                } && to == chat && channel == from.id && username == from.username && (
                from.title is Some ==> title == from.title->0) && (from.title is None ==> title
                    == "Unknown"@)
                &&& step.admin.pending_add_ch == a.pending_add_ch.remove(chat)
            }
            &&& !a.pending_add_ch.contains(chat) ==> {
                &&& step.plan->0[0] == ActionView::RemoveChannel { chat, channel: from.id }
                &&& step.admin.pending_remove_ch == a.pending_remove_ch.remove(chat)
            }
            &&& again.admin == a && again.state == st
            &&& again.plan matches Some(plan) && plan.len() == 1 && plan[0] is Send
        }),
{
}

/// The panel has three buttons, and the keyboard that everyone sees has one; both stay, and
/// are shrunk to their buttons.
pub proof fn keyboards_have_their_buttons()
    ensures
        panel_view().rows == seq![
            seq!["Добавить пользователя"@, "Удалить пользователя"@, "Список"@],
        ],
        public_view().rows == seq![seq!["Я админ"@]],
        panel_view().resize_keyboard && !panel_view().one_time_keyboard,
        public_view().resize_keyboard && !public_view().one_time_keyboard,
{
}

/// A message to the panel is none of its business where there are no administrators, and so
/// is one without text.
pub proof fn no_panel_without_a_password(
    a: AdminView,
    st: JsonView,
    chat: i64,
    text: Option<Seq<char>>,
    forwarded: Option<ForwardedChatView>,
    users: Seq<Seq<char>>,
)
    requires
        a.password is None || text is None,
    ensures
        admin_step(a, st, chat, text, forwarded, users).plan is None,
        admin_step(a, st, chat, text, forwarded, users).admin == a,
        admin_step(a, st, chat, text, forwarded, users).state == st,
{
}

/// What came of adding or removing a channel is told with its title and id, or with the
/// reason why it failed; that a channel was not there is told otherwise than that it was
/// removed.
pub proof fn channel_outcomes_are_told(title: Seq<char>, id: i64, e: Seq<char>)
    ensures
        exists|head: Seq<char>| #[trigger] (head + e) == channel_added_text(title, id, Some(e)),
        exists|head: Seq<char>| #[trigger]
            (head + title + " (id: "@ + int_text(id as int) + ")"@) == channel_added_text(
                title,
                id,
                None,
            ),
        exists|head: Seq<char>| #[trigger] (head + e) == channel_removed_text(id, Err(e)),
        exists|head: Seq<char>, tail: Seq<char>| #[trigger]
            (head + int_text(id as int) + tail) == channel_removed_text(id, Ok(true)),
        channel_removed_text(id, Ok(true))[0] == '✅',
        channel_removed_text(id, Ok(false))[0] == 'ℹ',
{
    assert("❌ Не удалось добавить: "@ + e == channel_added_text(title, id, Some(e)));
    assert("✅ Канал добавлен: "@ + title + " (id: "@ + int_text(id as int) + ")"@
        == channel_added_text(title, id, None));
    assert("❌ Не удалось удалить: "@ + e == channel_removed_text(id, Err(e)));
    assert("✅ Канал с id "@ + int_text(id as int) + " удалён"@ == channel_removed_text(id, Ok(true)));
    reveal_strlit("✅ Канал с id ");
    reveal_strlit("ℹ️ Канал с id ");
}

/// The password is what was configured, to the letter; a blank one counts as none.
pub proof fn password_is_as_configured(configured: Seq<char>)
    ensures
        password_of(Some(configured)) == Some(configured) <==> trim_text(configured).len() > 0,
        password_of(Some(configured)) is None <==> trim_text(configured).len() == 0,
        password_of(None) is None,
{
}

} // verus!
