//! What the bot does with a message.
use crate::actions::{plain, plain_view, then_do, Action, ActionOf, ActionView};
use crate::admin::{
    admin_step, panel_message, signs_in, Admin, AdminView, ForwardedChat, ForwardedChatView,
    PANEL_TEXT,
};
use crate::channels::is_active;
use crate::free_users::{
    free_list, has_access, holds_text, insert_text, listed_users_have_access,
    load_first_month_usernames, load_free_users, name_set, only_the_text_changes, panel_users,
    take_text, with_text, without_text,
};
use crate::json::{json_view, string_list_of_text, JsonView};
use crate::keyboard::{Markup, MarkupView};
use crate::links::{folders, folders_view};
use crate::numbers::{
    int_text, int_text_is_digits, int_text_is_injective, int_text_parses_back, parse_i64,
    parse_i64_text,
};
use crate::state::{
    admin_pending, can_take_fields, expected_action_is_read, field_names_differ, has_used_promo,
    is_admin_pending, is_promo_pending, promo_pending, promotion_is_read, section_of,
    set_admin_pending, set_promo_pending, set_used_promo, takes_fields, used_promo,
    with_admin_pending, with_promo_pending, with_used_promo,
};
use crate::text::{
    ascii_lowercase, ascii_lowercase_text, handle, handle_key, join3, same, starts_with, trim,
    trim_text,
};
use serde_json::Value;
use vstd::prelude::*;

verus! {

// ---------------------------------------------------------------------------
// Subscriptions
// ---------------------------------------------------------------------------

/// How many days a subscription lasts unless configured otherwise.
pub const DEFAULT_SUBSCRIPTION_DAYS: i64 = 30;

/// The seconds of a day.
pub const DAY_SECS: i64 = 86_400;

/// How many days a subscription lasts: as configured where that is a positive number.
pub open spec fn days_of(configured: Option<Seq<char>>) -> i64 {
    match configured {
        Some(s) => match parse_i64_text(s) {
            Some(days) => if days > 0 {
                days
            } else {
                DEFAULT_SUBSCRIPTION_DAYS
            },
            None => DEFAULT_SUBSCRIPTION_DAYS,
        },
        None => DEFAULT_SUBSCRIPTION_DAYS,
    }
}

/// How many days a subscription lasts.
pub fn subscription_days(configured: Option<&str>) -> (r: i64)
    ensures
        r == days_of(configured.deep_view()),
        r > 0,
{
    match configured {
        Some(s) => match parse_i64(s) {
            Some(days) => if days > 0 {
                days
            } else {
                DEFAULT_SUBSCRIPTION_DAYS
            },
            None => DEFAULT_SUBSCRIPTION_DAYS,
        },
        None => DEFAULT_SUBSCRIPTION_DAYS,
    }
}

/// Until when access lasts that is granted now, if that can be told in 64 bits.
pub open spec fn access_end(now: i64, days: i64) -> Option<i64> {
    if i64::MIN <= days * DAY_SECS <= i64::MAX && i64::MIN <= now + days * DAY_SECS <= i64::MAX {
        Some((now + days * DAY_SECS) as i64)
    } else {
        None
    }
}

/// Until when access lasts that is granted now, if that can be told in 64 bits.
pub fn paid_until(now: i64, days: i64) -> (r: Option<i64>)
    ensures
        r == access_end(now, days),
{
    match days.checked_mul(DAY_SECS) {
        Some(secs) => now.checked_add(secs),
        None => None,
    }
}

/// Access that is granted is active at once, and until as many days have passed as a
/// subscription lasts.
pub proof fn granted_access_is_active(now: i64, configured: Option<Seq<char>>, later: i64)
    requires
        access_end(now, days_of(configured)) is Some,
    ensures
        is_active(access_end(now, days_of(configured)), now),
        is_active(access_end(now, days_of(configured)), later) <==> later < now + days_of(
            configured,
        ) * DAY_SECS,
{
}

// ---------------------------------------------------------------------------
// Forwarding
// ---------------------------------------------------------------------------

/// From which chat to which messages are forwarded, if both are configured as numbers.
pub open spec fn route_of(source: Option<Seq<char>>, target: Option<Seq<char>>) -> Option<
    (i64, i64),
> {
    match (source, target) {
        (Some(s), Some(t)) => match (parse_i64_text(s), parse_i64_text(t)) {
            (Some(from), Some(to)) => Some((from, to)),
            _ => None,
        },
        _ => None,
    }
}

/// From which chat to which messages are forwarded.
pub fn forward_route(source: Option<&str>, target: Option<&str>) -> (r: Option<(i64, i64)>)
    ensures
        r == route_of(source.deep_view(), target.deep_view()),
{
    match (source, target) {
        (Some(s), Some(t)) => match (parse_i64(s), parse_i64(t)) {
            (Some(from), Some(to)) => Some((from, to)),
            _ => None,
        },
        _ => None,
    }
}

/// What is to be done with a message first.
#[derive(Debug, Clone, PartialEq, Eq)]
pub enum FirstStep {
    /// Nothing.
    Ignore,
    /// Forward it. Whether that succeeds decides what follows.
    Forward { target: i64 },
    /// Respond to it.
    Respond,
}

/// What is to be done with a message first: nothing where it only tells of members or of
/// a pinned message.
pub open spec fn first_step(service: bool, chat: i64, route: Option<(i64, i64)>) -> FirstStep {
    if service {
        FirstStep::Ignore
    } else {
        match route {
            Some((from, to)) => if chat == from {
                FirstStep::Forward { target: to }
            } else {
                FirstStep::Respond
            },
            None => FirstStep::Respond,
        }
    }
}

/// Whether a message is to be forwarded: one that comes from the source.
pub fn try_forward(chat: i64, source_id: i64) -> (r: bool)
    ensures
        r == (chat == source_id),
{
    chat == source_id
}

/// What is to be done with a message first.
pub fn begin(service: bool, chat: i64, route: Option<(i64, i64)>) -> (r: FirstStep)
    ensures
        r == first_step(service, chat, route),
{
    if service {
        return FirstStep::Ignore;
    }
    match route {
        Some((from, to)) => if try_forward(chat, from) {
            FirstStep::Forward { target: to }
        } else {
            FirstStep::Respond
        },
        None => FirstStep::Respond,
    }
}

/// What is to be done with a message that was to be forwarded: nothing else where that
/// succeeded, else it is responded to.
pub fn after_forward(forwarded: bool) -> (r: FirstStep)
    ensures
        r == if forwarded {
            FirstStep::Ignore
        } else {
            FirstStep::Respond
        },
{
    if forwarded {
        FirstStep::Ignore
    } else {
        FirstStep::Respond
    }
}

// ---------------------------------------------------------------------------
// Commands and answers
// ---------------------------------------------------------------------------

/// A message to respond to.
#[derive(Debug, Clone, PartialEq, Eq)]
pub struct Incoming {
    pub chat: i64,
    pub text: Option<String>,
    /// The username of who sent it.
    pub username: Option<String>,
    /// The channel that it was forwarded from.
    pub forwarded: Option<ForwardedChat>,
}

/// A message to respond to.
pub struct IncomingView {
    pub chat: i64,
    pub text: Option<Seq<char>>,
    pub username: Option<Seq<char>>,
    pub forwarded: Option<ForwardedChatView>,
}

impl DeepView for Incoming {
    type V = IncomingView;

    open spec fn deep_view(&self) -> IncomingView {
        IncomingView {
            chat: self.chat,
            text: self.text.deep_view(),
            username: self.username.deep_view(),
            forwarded: match self.forwarded {
                Some(f) => Some(f.deep_view()),
                None => None,
            },
        }
    }
}

/// What the files hold that a response depends on.
#[derive(Debug, Clone, PartialEq, Eq)]
pub struct Files {
    /// The users that the panel gives free access.
    pub panel_users: Option<String>,
    /// The users that the commands give free access.
    pub command_users: Option<String>,
    /// The users who may have a month.
    pub first_month: Option<String>,
}

/// What the files hold that a response depends on.
pub struct FilesView {
    pub panel_users: Option<Seq<char>>,
    pub command_users: Option<Seq<char>>,
    pub first_month: Option<Seq<char>>,
}

impl DeepView for Files {
    type V = FilesView;

    open spec fn deep_view(&self) -> FilesView {
        FilesView {
            panel_users: self.panel_users.deep_view(),
            command_users: self.command_users.deep_view(),
            first_month: self.first_month.deep_view(),
        }
    }
}

/// Whether a text is the command to start.
pub open spec fn is_start(text: Seq<char>) -> bool {
    "/start"@.is_prefix_of(trim_text(text))
}

/// Whether a text asks whether the bot is there.
pub open spec fn is_ping(text: Seq<char>) -> bool {
    ascii_lowercase_text(trim_text(text)) == "/ping"@
}

/// Whether a text asks for the promotion.
pub open spec fn is_promo_request(text: Seq<char>) -> bool {
    trim_text(text) == "/paid month"@
}

/// What access consists of: the database, the subscribers and the ledger know of it.
pub open spec fn access_granted(chat: i64) -> Seq<ActionView> {
    seq![
        ActionOf::GrantAccess { chat },
        ActionOf::AddOrRenew { user: chat, months: 1 },
        ActionOf::AppendRecord { user: chat, months: 1 },
    ]
}

/// The message with the folders of channels.
pub open spec fn folders_message(chat: i64) -> ActionView {
    ActionOf::Send {
        chat,
        text: "Папки с каналами:"@,
        markup: MarkupView::Inline(folders_view()),
    }
}

/// The response to the command to start.
pub open spec fn start_plan(chat: i64, free: bool) -> Seq<ActionView> {
    if free {
        access_granted(chat) + seq![
            plain_view(chat, "Поздравляем, вам предоставлен бесплатный доступ!"@),
            folders_message(chat),
            ActionOf::SendChannelInvite { chat },
        ]
    } else {
        seq![ActionOf::SendStartup { chat }]
    }
}

/// What a text leads to: the state afterwards and what the bot is to do. Without a plan
/// the text is no command and no answer.
pub struct Heard {
    pub state: JsonView,
    pub plan: Option<Seq<ActionView>>,
}

/// The response to a request for the promotion: once per user, an account is asked for.
pub open spec fn promo_request(chat: i64, st: JsonView) -> Heard {
    if used_promo(st, chat) {
        Heard {
            state: st,
            plan: Some(seq![plain_view(chat, "Вы уже использовали этот промо."@)]),
        }
    } else {
        Heard {
            state: with_promo_pending(st, chat, true),
            plan: Some(
                seq![
                    ActionOf::WriteState,
                    plain_view(chat, "Введите username для получения 1 месяца доступа."@),
                ],
            ),
        }
    }
}

/// The response to the account that was asked for.
pub open spec fn promo_answer(
    chat: i64,
    st: JsonView,
    text: Seq<char>,
    names: Seq<Seq<char>>,
) -> Heard {
    let cleared = with_promo_pending(st, chat, false);
    if names.contains(trim_text(text)) {
        Heard {
            state: with_used_promo(cleared, chat),
            plan: Some(
                access_granted(chat) + seq![
                    ActionOf::WriteState,
                    folders_message(chat),
                    plain_view(chat, "Промо активировано! Доступ предоставлен на 1 месяц."@),
                    ActionOf::WriteState,
                ],
            ),
        }
    } else {
        Heard {
            state: cleared,
            plan: Some(
                seq![
                    plain_view(chat, "Неверный username. Промо не активировано."@),
                    ActionOf::WriteState,
                ],
            ),
        }
    }
}

/// The response to the user who is to have free access.
pub open spec fn free_added(
    chat: i64,
    st: JsonView,
    text: Seq<char>,
    users: Seq<Seq<char>>,
) -> Heard {
    let name = handle_key(text);
    Heard {
        state: with_admin_pending(st, chat, None),
        plan: Some(
            seq![
                if users.contains(name) {
                    plain_view(chat, "Пользователь уже в списке."@)
                } else {
                    ActionOf::SaveFreeUsers {
                        users: with_text(users, name),
                        chat,
                        saved: "Пользователь "@ + name + " добавлен в бесплатный доступ."@,
                        failed: "Ошибка сохранения."@,
                    }
                },
                ActionOf::WriteState,
            ],
        ),
    }
}

/// The response to the user who is to have free access no more.
pub open spec fn free_removed(
    chat: i64,
    st: JsonView,
    text: Seq<char>,
    users: Seq<Seq<char>>,
) -> Heard {
    let name = handle_key(text);
    Heard {
        state: with_admin_pending(st, chat, None),
        plan: Some(
            seq![
                if users.contains(name) {
                    ActionOf::SaveFreeUsers {
                        users: without_text(users, name),
                        chat,
                        saved: "Пользователь "@ + name + " удалён из бесплатного доступа."@,
                        failed: "Ошибка сохранения."@,
                    }
                } else {
                    plain_view(chat, "Пользователь не найден в списке."@)
                },
                ActionOf::WriteState,
            ],
        ),
    }
}

/// What a text leads to.
pub open spec fn heard(
    chat: i64,
    username: Option<Seq<char>>,
    text: Seq<char>,
    st: JsonView,
    files: FilesView,
) -> Heard {
    if is_start(text) {
        Heard {
            state: st,
            plan: Some(
                start_plan(chat, has_access(free_list(files.panel_users), username, chat)),
            ),
        }
    } else if is_ping(text) {
        Heard { state: st, plan: Some(seq![plain_view(chat, "pong"@)]) }
    } else if is_promo_request(text) {
        promo_request(chat, st)
    } else if promo_pending(st, chat) {
        promo_answer(chat, st, text, name_set(files.first_month))
    } else if admin_pending(st, chat, "add_free"@) {
        free_added(chat, st, text, name_set(files.command_users))
    } else if admin_pending(st, chat, "remove_free"@) {
        free_removed(chat, st, text, name_set(files.command_users))
    } else {
        Heard { state: st, plan: None }
    }
}

fn grant_access(chat: i64) -> (plan: Vec<Action>)
    ensures
        plan.deep_view() == access_granted(chat),
{
    let mut plan: Vec<Action> = Vec::new();
    assert(plan.deep_view() =~= seq![]);
    then_do(&mut plan, ActionOf::GrantAccess { chat });
    then_do(&mut plan, ActionOf::AddOrRenew { user: chat, months: 1 });
    then_do(&mut plan, ActionOf::AppendRecord { user: chat, months: 1 });
    assert(plan.deep_view() =~= access_granted(chat));
    plan
}

/// The message with the folders of channels.
pub fn send_folders(chat: i64) -> (r: Action)
    ensures
        r.deep_view() == folders_message(chat),
{
    ActionOf::Send {
        chat,
        text: "Папки с каналами:".to_string(),
        markup: Markup::Inline(folders()),
    }
}

fn on_start(chat: i64, free: bool) -> (plan: Vec<Action>)
    ensures
        plan.deep_view() == start_plan(chat, free),
{
    if free {
        let mut plan = grant_access(chat);
        then_do(
            &mut plan,
            plain(chat, "Поздравляем, вам предоставлен бесплатный доступ!".to_string()),
        );
        then_do(&mut plan, send_folders(chat));
        then_do(&mut plan, ActionOf::SendChannelInvite { chat });
        assert(plan.deep_view() =~= start_plan(chat, free));
        plan
    } else {
        let mut plan: Vec<Action> = Vec::new();
        plan.push(ActionOf::SendStartup { chat });
        assert(plan.deep_view() =~= start_plan(chat, free));
        plan
    }
}

fn on_promo_request(chat: i64, st: &mut Value) -> (plan: Vec<Action>)
    requires
        takes_fields(json_view(*old(st))),
    ensures
        json_view(*final(st)) == promo_request(chat, json_view(*old(st))).state,
        Some(plan.deep_view()) == promo_request(chat, json_view(*old(st))).plan,
{
    let mut plan: Vec<Action> = Vec::new();
    assert(plan.deep_view() =~= seq![]);
    if has_used_promo(st, chat) {
        then_do(&mut plan, plain(chat, "Вы уже использовали этот промо.".to_string()));
    } else {
        set_promo_pending(st, chat, true);
        then_do(&mut plan, ActionOf::WriteState);
        then_do(
            &mut plan,
            plain(chat, "Введите username для получения 1 месяца доступа.".to_string()),
        );
    }
    assert(Some(plan.deep_view()) =~= promo_request(chat, json_view(*old(st))).plan);
    plan
}

fn on_promo_answer(chat: i64, st: &mut Value, text: &str, names: Option<&str>) -> (plan: Vec<
    Action,
>)
    requires
        takes_fields(json_view(*old(st))),
    ensures
        json_view(*final(st)) == promo_answer(
            chat,
            json_view(*old(st)),
            text@,
            name_set(names.deep_view()),
        ).state,
        Some(plan.deep_view()) == promo_answer(
            chat,
            json_view(*old(st)),
            text@,
            name_set(names.deep_view()),
        ).plan,
{
    set_promo_pending(st, chat, false);
    if holds_text(&load_first_month_usernames(names), &trim(text)) {
        set_used_promo(st, chat);
        let mut plan = grant_access(chat);
        then_do(&mut plan, ActionOf::WriteState);
        then_do(&mut plan, send_folders(chat));
        then_do(
            &mut plan,
            plain(chat, "Промо активировано! Доступ предоставлен на 1 месяц.".to_string()),
        );
        then_do(&mut plan, ActionOf::WriteState);
        assert(plan.deep_view() =~= access_granted(chat) + seq![
            ActionOf::WriteState,
            folders_message(chat),
            plain_view(chat, "Промо активировано! Доступ предоставлен на 1 месяц."@),
            ActionOf::WriteState,
        ]);
        plan
    } else {
        let mut plan: Vec<Action> = Vec::new();
        assert(plan.deep_view() =~= seq![]);
        then_do(&mut plan, plain(chat, "Неверный username. Промо не активировано.".to_string()));
        then_do(&mut plan, ActionOf::WriteState);
        assert(plan.deep_view() =~= seq![
            plain_view(chat, "Неверный username. Промо не активировано."@),
            ActionOf::WriteState,
        ]);
        plan
    }
}

fn on_free_added(chat: i64, st: &mut Value, text: &str, users: Option<&str>) -> (plan: Vec<Action>)
    requires
        takes_fields(json_view(*old(st))),
    ensures
        json_view(*final(st)) == free_added(
            chat,
            json_view(*old(st)),
            text@,
            name_set(users.deep_view()),
        ).state,
        Some(plan.deep_view()) == free_added(
            chat,
            json_view(*old(st)),
            text@,
            name_set(users.deep_view()),
        ).plan,
{
    set_admin_pending(st, chat, None);
    let name = handle(text);
    let mut users = load_free_users(users);
    let ghost before = users.deep_view();
    let mut plan: Vec<Action> = Vec::new();
    assert(plan.deep_view() =~= seq![]);
    if insert_text(&mut users, name.clone()) {
        then_do(
            &mut plan,
            ActionOf::SaveFreeUsers {
                users,
                chat,
                saved: join3("Пользователь ", &name, " добавлен в бесплатный доступ."),
                failed: "Ошибка сохранения.".to_string(),
            },
        );
    } else {
        then_do(&mut plan, plain(chat, "Пользователь уже в списке.".to_string()));
    }
    then_do(&mut plan, ActionOf::WriteState);
    assert(Some(plan.deep_view()) =~= free_added(chat, json_view(*old(st)), text@, before).plan);
    plan
}

fn on_free_removed(chat: i64, st: &mut Value, text: &str, users: Option<&str>) -> (plan: Vec<
    Action,
>)
    requires
        takes_fields(json_view(*old(st))),
    ensures
        json_view(*final(st)) == free_removed(
            chat,
            json_view(*old(st)),
            text@,
            name_set(users.deep_view()),
        ).state,
        Some(plan.deep_view()) == free_removed(
            chat,
            json_view(*old(st)),
            text@,
            name_set(users.deep_view()),
        ).plan,
{
    set_admin_pending(st, chat, None);
    let name = handle(text);
    let mut users = load_free_users(users);
    let ghost before = users.deep_view();
    let mut plan: Vec<Action> = Vec::new();
    assert(plan.deep_view() =~= seq![]);
    if take_text(&mut users, &name) {
        then_do(
            &mut plan,
            ActionOf::SaveFreeUsers {
                users,
                chat,
                saved: join3("Пользователь ", &name, " удалён из бесплатного доступа."),
                failed: "Ошибка сохранения.".to_string(),
            },
        );
    } else {
        then_do(&mut plan, plain(chat, "Пользователь не найден в списке.".to_string()));
    }
    then_do(&mut plan, ActionOf::WriteState);
    assert(Some(plan.deep_view()) =~= free_removed(chat, json_view(*old(st)), text@, before).plan);
    plan
}

fn as_text(s: &Option<String>) -> (r: Option<&str>)
    ensures
        r.deep_view() == s.deep_view(),
{
    match s {
        Some(t) => Some(t.as_str()),
        None => None,
    }
}

/// Whether a text is the command to start.
pub fn starts(text: &str) -> (r: bool)
    ensures
        r == is_start(text@),
{
    starts_with(&trim(text), "/start")
}

/// Whether a text is the request for the promotion.
pub fn asks_for_promo(text: &str) -> (r: bool)
    ensures
        r == is_promo_request(text@),
{
    same(&trim(text), "/paid month")
}

/// Whether a text asks whether the bot is there.
pub fn pings(text: &str) -> (r: bool)
    ensures
        r == is_ping(text@),
{
    same(&ascii_lowercase(&trim(text)), "/ping")
}

/// What a text leads to. The state must take fields where the promotion is asked for.
pub fn on_text(
    admin: &Admin,
    st: &mut Value,
    chat: i64,
    username: Option<&str>,
    text: &str,
    files: &Files,
) -> (plan: Option<Vec<Action>>)
    requires
        is_promo_request(text@) && !is_start(text@) && !is_ping(text@) ==> takes_fields(
            json_view(*old(st)),
        ),
    ensures
        ({
            let h = heard(
                chat,
                username.deep_view(),
                text@,
                json_view(*old(st)),
                files.deep_view(),
            );
            &&& json_view(*final(st)) == h.state
            &&& plan.deep_view() == h.plan
        }),
{
    if starts(text) {
        let free = admin.has_free_access(as_text(&files.panel_users), username, chat);
        return Some(on_start(chat, free));
    }
    if pings(text) {
        let mut plan: Vec<Action> = Vec::new();
        plan.push(plain(chat, "pong".to_string()));
        assert(plan.deep_view() =~= seq![plain_view(chat, "pong"@)]);
        return Some(plan);
    }
    if asks_for_promo(text) {
        return Some(on_promo_request(chat, st));
    }
    if is_promo_pending(st, chat) {
        return Some(on_promo_answer(chat, st, text, as_text(&files.first_month)));
    }
    if is_admin_pending(st, chat, "add_free") {
        return Some(on_free_added(chat, st, text, as_text(&files.command_users)));
    }
    if is_admin_pending(st, chat, "remove_free") {
        return Some(on_free_removed(chat, st, text, as_text(&files.command_users)));
    }
    None
}

// ---------------------------------------------------------------------------
// Responding
// ---------------------------------------------------------------------------

/// What a message leads to: the state and the administrators afterwards, and what the bot
/// is to do.
pub struct Response {
    pub state: JsonView,
    pub admin: AdminView,
    pub plan: Seq<ActionView>,
}

/// What a message leads to that is no command and no answer: the panel takes it, else a
/// user with free access gets the list of chats.
pub open spec fn panel_response(
    msg: IncomingView,
    st: JsonView,
    a: AdminView,
    files: FilesView,
) -> Response {
    let step = admin_step(
        a,
        st,
        msg.chat,
        msg.text,
        msg.forwarded,
        panel_users(files.panel_users),
    );
    Response {
        state: step.state,
        admin: step.admin,
        plan: match step.plan {
            Some(plan) => plan + seq![
                ActionOf::EnsurePublicKeyboard { chat: msg.chat },
                panel_message(msg.chat, PANEL_TEXT@),
            ],
            None => if has_access(free_list(files.panel_users), msg.username, msg.chat) {
                seq![
                    ActionOf::GrantAccess { chat: msg.chat },
                    ActionOf::SendCatalog { chat: msg.chat },
                ]
            } else {
                seq![]
            },
        },
    }
}

/// What a message leads to.
pub open spec fn response(
    msg: IncomingView,
    st: JsonView,
    a: AdminView,
    files: FilesView,
) -> Response {
    match msg.text {
        Some(text) => {
            let h = heard(msg.chat, msg.username, text, st, files);
            match h.plan {
                Some(plan) => Response { state: h.state, admin: a, plan },
                None => panel_response(msg, st, a, files),
            }
        },
        None => panel_response(msg, st, a, files),
    }
}

/// Whether a message can be responded to: the state takes what it would record.
pub open spec fn can_respond(msg: IncomingView, st: JsonView, a: AdminView) -> bool {
    takes_fields(st) || match msg.text {
        Some(text) => {
            ||| is_start(text)
            ||| is_ping(text)
            ||| !is_promo_request(text) && !signs_in(a, msg.chat, msg.text)
        },
        None => true,
    }
}

fn on_panel(
    admin: &mut Admin,
    st: &mut Value,
    msg: &Incoming,
    files: &Files,
) -> (plan: Vec<Action>)
    requires
        signs_in(old(admin)@, msg.chat, msg.text.deep_view()) ==> takes_fields(json_view(*old(st))),
    ensures
        ({
            let r = panel_response(
                msg.deep_view(),
                json_view(*old(st)),
                old(admin)@,
                files.deep_view(),
            );
            &&& json_view(*final(st)) == r.state
            &&& final(admin)@ == r.admin
            &&& plan.deep_view() == r.plan
        }),
{
    let forwarded = match &msg.forwarded {
        Some(f) => Some(f),
        None => None,
    };
    let taken = admin.on_message(
        st,
        msg.chat,
        as_text(&msg.text),
        forwarded,
        as_text(&files.panel_users),
    );
    match taken {
        Some(taken) => {
            let mut plan = taken;
            then_do(&mut plan, ActionOf::EnsurePublicKeyboard { chat: msg.chat });
            then_do(&mut plan, admin.panel(msg.chat, PANEL_TEXT));
            assert(plan.deep_view() =~= taken.deep_view() + seq![
                ActionOf::EnsurePublicKeyboard { chat: msg.chat },
                panel_message(msg.chat, PANEL_TEXT@),
            ]);
            plan
        },
        None => {
            let mut plan: Vec<Action> = Vec::new();
            assert(plan.deep_view() =~= seq![]);
            if admin.has_free_access(
                as_text(&files.panel_users),
                as_text(&msg.username),
                msg.chat,
            ) {
                then_do(&mut plan, ActionOf::GrantAccess { chat: msg.chat });
                then_do(&mut plan, ActionOf::SendCatalog { chat: msg.chat });
                assert(plan.deep_view() =~= seq![
                    ActionOf::GrantAccess { chat: msg.chat },
                    ActionOf::SendCatalog { chat: msg.chat },
                ]);
            }
            plan
        },
    }
}

/// What a message leads to, where the state takes what it would record.
pub fn respond(admin: &mut Admin, st: &mut Value, msg: &Incoming, files: &Files) -> (plan: Vec<
    Action,
>)
    requires
        can_respond(msg.deep_view(), json_view(*old(st)), old(admin)@),
    ensures
        ({
            let r = response(
                msg.deep_view(),
                json_view(*old(st)),
                old(admin)@,
                files.deep_view(),
            );
            &&& json_view(*final(st)) == r.state
            &&& final(admin)@ == r.admin
            &&& plan.deep_view() == r.plan
        }),
{
    match &msg.text {
        Some(text) => {
            match on_text(admin, st, msg.chat, as_text(&msg.username), text, files) {
                Some(plan) => plan,
                None => on_panel(admin, st, msg, files),
            }
        },
        None => on_panel(admin, st, msg, files),
    }
}

/// What a message leads to. Where the state cannot take what it would record, nothing is
/// done and nothing changes.
pub fn handle_message(
    admin: &mut Admin,
    st: &mut Value,
    msg: &Incoming,
    files: &Files,
) -> (plan: Option<Vec<Action>>)
    ensures
        plan is Some <==> can_respond(msg.deep_view(), json_view(*old(st)), old(admin)@),
        plan is None ==> json_view(*final(st)) == json_view(*old(st)) && final(admin)@ == old(
            admin,
        )@,
        plan matches Some(p) ==> {
            let r = response(
                msg.deep_view(),
                json_view(*old(st)),
                old(admin)@,
                files.deep_view(),
            );
            &&& json_view(*final(st)) == r.state
            &&& final(admin)@ == r.admin
            &&& p.deep_view() == r.plan
        },
{
    let records = match &msg.text {
        Some(text) => !starts(text) && !pings(text) && (asks_for_promo(text)
            || admin.is_signing_in(msg.chat, Some(text))),
        None => false,
    };
    if records && !can_take_fields(st) {
        return None;
    }
    Some(respond(admin, st, msg, files))
}

// ---------------------------------------------------------------------------
// Laws
// ---------------------------------------------------------------------------

/// Whether nobody who has used the promotion is asked for an account.
pub open spec fn promo_is_guarded(st: JsonView, user: i64) -> bool {
    !(used_promo(st, user) && promo_pending(st, user))
}

/// The promotion cannot be had twice: an account is never asked for, nor taken, of a user
/// who has used it. For the user and for everyone else.
pub proof fn promo_stays_guarded(
    chat: i64,
    username: Option<Seq<char>>,
    text: Seq<char>,
    st: JsonView,
    files: FilesView,
    user: i64,
)
    requires
        promo_is_guarded(st, user),
    ensures
        promo_is_guarded(heard(chat, username, text, st, files).state, user),
{
    field_names_differ();
    if int_text(user as int) == int_text(chat as int) {
        int_text_is_injective(user, chat);
    }
}

/// Once the promotion was granted it is used, and asking for it again is refused; unless
/// the record of who used it is no object, which takes no entries.
pub proof fn granted_promo_is_used(
    chat: i64,
    text: Seq<char>,
    st: JsonView,
    names: Seq<Seq<char>>,
)
    requires
        names.contains(trim_text(text)),
        section_of(st, "used_promo"@) is Object,
    ensures
        used_promo(promo_answer(chat, st, text, names).state, chat),
        promo_request(chat, promo_answer(chat, st, text, names).state).plan == Some(
            seq![plain_view(chat, "Вы уже использовали этот промо."@)],
        ),
{
    field_names_differ();
}

/// Access is granted for the promotion only to a user who has not used it.
pub proof fn promo_grants_once(
    chat: i64,
    username: Option<Seq<char>>,
    text: Seq<char>,
    st: JsonView,
    files: FilesView,
    i: int,
)
    requires
        promo_is_guarded(st, chat),
        !is_start(text),
        heard(chat, username, text, st, files).plan is Some,
        0 <= i < heard(chat, username, text, st, files).plan->0.len(),
        heard(chat, username, text, st, files).plan->0[i] is GrantAccess,
    ensures
        promo_pending(st, chat),
        !used_promo(st, chat),
        name_set(files.first_month).contains(trim_text(text)),
{
}

/// A message never gives access to a chat other than its own.
pub proof fn access_is_for_the_sender(
    msg: IncomingView,
    st: JsonView,
    a: AdminView,
    files: FilesView,
    i: int,
)
    requires
        0 <= i < response(msg, st, a, files).plan.len(),
    ensures
        match response(msg, st, a, files).plan[i] {
            ActionOf::GrantAccess { chat } => chat == msg.chat,
            ActionOf::AddOrRenew { user, months } => user == msg.chat && months == 1,
            ActionOf::AppendRecord { user, months } => user == msg.chat && months == 1,
            _ => true,
        },
{
}

/// A message without a command, an answer that is expected, the panel or free access is
/// left alone.
pub proof fn other_messages_are_left_alone(
    msg: IncomingView,
    st: JsonView,
    a: AdminView,
    files: FilesView,
)
    requires
        msg.text matches Some(text) ==> heard(msg.chat, msg.username, text, st, files).plan is None,
        admin_step(
            a,
            st,
            msg.chat,
            msg.text,
            msg.forwarded,
            panel_users(files.panel_users),
        ).plan is None,
        !has_access(free_list(files.panel_users), msg.username, msg.chat),
    ensures
        response(msg, st, a, files).plan.len() == 0,
        response(msg, st, a, files).state == st,
        response(msg, st, a, files).admin == a,
{
}

/// A subscription lasts as many days as are configured, if that is a positive number, else
/// thirty; access that is granted ends that many times twenty-four hours later.
pub proof fn days_are_as_configured(days: i64, other: Seq<char>, now: i64)
    ensures
        days > 0 ==> days_of(Some(int_text(days as int))) == days,
        days <= 0 ==> days_of(Some(int_text(days as int))) == 30,
        parse_i64_text(other) is None ==> days_of(Some(other)) == 30,
        days_of(None) == 30,
        access_end(now, days) matches Some(end) ==> end == now + days * (24 * 60 * 60),
        i64::MIN <= now + days * (24 * 60 * 60) <= i64::MAX && i64::MIN <= days * (24 * 60 * 60)
            <= i64::MAX ==> access_end(now, days) is Some,
{
    int_text_parses_back(days);
}

/// Messages are forwarded from the source to the target, where both are numbers; a message
/// of any other chat is responded to, and one that only tells of members is left alone.
pub proof fn only_the_source_is_forwarded(source: i64, target: i64, chat: i64, other: Seq<char>)
    ensures
        route_of(Some(int_text(source as int)), Some(int_text(target as int))) == Some(
            (source, target),
        ),
        route_of(None, Some(other)) is None,
        route_of(Some(other), None) is None,
        first_step(false, source, Some((source, target))) == (FirstStep::Forward { target }),
        chat != source ==> first_step(false, chat, Some((source, target))) == FirstStep::Respond,
        first_step(false, chat, None) == FirstStep::Respond,
        first_step(true, chat, Some((source, target))) == FirstStep::Ignore,
        first_step(true, chat, None) == FirstStep::Ignore,
{
    int_text_parses_back(source);
    int_text_parses_back(target);
}

/// Whoever sends the command to start gets, if they are on the list of the panel, access, a
/// month as a subscriber, a record of that, word of it, the folders and the invitation; and
/// if they are not, the introduction and nothing else. The state stays.
pub proof fn start_goes_by_the_list(
    chat: i64,
    username: Option<Seq<char>>,
    text: Seq<char>,
    st: JsonView,
    files: FilesView,
)
    requires
        "/start"@.is_prefix_of(trim_text(text)),
    ensures
        ({
            let h = heard(chat, username, text, st, files);
            let free = has_access(free_list(files.panel_users), username, chat);
            let plan = h.plan->0;
            &&& h.state == st
            &&& h.plan is Some
            &&& free ==> {
                &&& plan.contains(ActionOf::GrantAccess { chat })
                &&& plan.contains(ActionOf::AddOrRenew { user: chat, months: 1 })
                &&& plan.contains(ActionOf::AppendRecord { user: chat, months: 1 })
                &&& plan.contains(folders_message(chat))
                &&& plan.contains(ActionOf::SendChannelInvite { chat })
                &&& plan.len() == 6
            }
            &&& !free ==> plan.len() == 1 && plan[0] == ActionView::SendStartup { chat }
        }),
{
    let plan = heard(chat, username, text, st, files).plan->0;
    if has_access(free_list(files.panel_users), username, chat) {
        assert(plan[0] == ActionView::GrantAccess { chat });
        assert(plan[1] == ActionView::AddOrRenew { user: chat, months: 1 });
        assert(plan[2] == ActionView::AppendRecord { user: chat, months: 1 });
        assert(plan[3] is Send);
        assert(plan[4] == folders_message(chat));
        assert(plan[5] == ActionView::SendChannelInvite { chat });
    }
}

/// A chat whose id is in the file of the panel has access once it sends the command to
/// start, whatever the name of who sends it.
pub proof fn listed_chat_starts_with_access(
    chat: i64,
    username: Option<Seq<char>>,
    text: Seq<char>,
    st: JsonView,
    files: FilesView,
    names: Seq<Seq<char>>,
    i: int,
)
    requires
        "/start"@.is_prefix_of(trim_text(text)),
        files.panel_users is Some,
        string_list_of_text(files.panel_users->0) == Some(names),
        0 <= i < names.len(),
        handle_key(names[i]) == int_text(chat as int),
    ensures
        heard(chat, username, text, st, files).plan is Some,
        heard(chat, username, text, st, files).plan->0.contains(ActionOf::GrantAccess { chat }),
{
    int_text_is_digits(chat as int);
    listed_users_have_access(files.panel_users->0, names, i, username, chat);
    start_goes_by_the_list(chat, username, text, st, files);
}

/// Asking whether the bot is there, in any case of letters, is answered in the chat, and
/// the state stays.
pub proof fn ping_is_answered(
    chat: i64,
    username: Option<Seq<char>>,
    text: Seq<char>,
    st: JsonView,
    files: FilesView,
)
    requires
        ascii_lowercase_text(trim_text(text)) == "/ping"@,
    ensures
        heard(chat, username, text, st, files).state == st,
        heard(chat, username, text, st, files).plan == Some(seq![plain_view(chat, "pong"@)]),
{
    reveal_strlit("/ping");
    reveal_strlit("/start");
    assert(ascii_lowercase_text(trim_text(text)).len() == 5);
    assert("/start"@.len() == 6);
}

/// Asking for the promotion asks for an account once: then the user is expected to name
/// one, which is persisted, and nobody gets access yet. Whoever has used it is told so, and
/// nothing changes.
pub proof fn promotion_asks_for_an_account(
    chat: i64,
    username: Option<Seq<char>>,
    st: JsonView,
    files: FilesView,
    text: Seq<char>,
)
    requires
        trim_text(text) == "/paid month"@,
        section_of(st, "promo_pending"@) is Object,
    ensures
        ({
            let h = heard(chat, username, text, st, files);
            let plan = h.plan->0;
            &&& h.plan is Some
            &&& forall|i: int|
                0 <= i < plan.len() ==> match #[trigger] plan[i] {
                    ActionOf::Send { chat: to, .. } => to == chat,
                    ActionOf::WriteState => true,
                    _ => false,
                }
            &&& plan.last() is Send
            &&& used_promo(st, chat) ==> h.state == st && plan.len() == 1
            &&& !used_promo(st, chat) ==> promo_pending(h.state, chat) && !used_promo(h.state, chat)
                && plan.contains(ActionOf::WriteState)
        }),
{
    lemma_paid_month(text);
    field_names_differ();
    promotion_is_read(
        st,
        chat,
        if chat == 0 {
            1
        } else {
            0
        },
        true,
    );
    let plan = heard(chat, username, text, st, files).plan->0;
    if !used_promo(st, chat) {
        assert(plan[0] is WriteState);
    }
}

proof fn lemma_paid_month(text: Seq<char>)
    requires
        trim_text(text) == "/paid month"@,
    ensures
        !is_start(text),
        !is_ping(text),
{
    reveal_strlit("/paid month");
    reveal_strlit("/start");
    reveal_strlit("/ping");
    assert("/paid month"@[1] == 'p');
    assert("/start"@[1] == 's');
    assert("/paid month"@.len() == 11);
    assert("/ping"@.len() == 5);
    assert(ascii_lowercase_text(trim_text(text)).len() == 11);
    if "/start"@.is_prefix_of(trim_text(text)) {
        assert(trim_text(text).subrange(0, 6)[1] == 's');
    }
}

/// A user who is expected to name an account gets, if the account is in the file, access, a
/// month as a subscriber, a record of that and the folders, and has used the promotion; if
/// it is not, nothing but word of it. Either way no account is expected any more, which is
/// persisted.
pub proof fn promotion_goes_by_the_file(
    chat: i64,
    username: Option<Seq<char>>,
    text: Seq<char>,
    st: JsonView,
    files: FilesView,
)
    requires
        promo_pending(st, chat),
        !is_start(text),
        !is_ping(text),
        !is_promo_request(text),
        section_of(st, "used_promo"@) is Object,
    ensures
        ({
            let h = heard(chat, username, text, st, files);
            let plan = h.plan->0;
            let listed = name_set(files.first_month).contains(trim_text(text));
            &&& h.plan is Some
            &&& !promo_pending(h.state, chat)
            &&& plan.last() is WriteState
            &&& plan.contains(ActionOf::GrantAccess { chat }) <==> listed
            &&& plan.contains(ActionOf::AddOrRenew { user: chat, months: 1 }) <==> listed
            &&& plan.contains(ActionOf::AppendRecord { user: chat, months: 1 }) <==> listed
            &&& plan.contains(folders_message(chat)) <==> listed
            &&& listed ==> used_promo(h.state, chat)
            &&& !listed ==> used_promo(h.state, chat) == used_promo(st, chat)
        }),
{
    field_names_differ();
    let other: i64 = if chat == 0 {
        1
    } else {
        0
    };
    let cleared = with_promo_pending(st, chat, false);
    promotion_is_read(st, chat, other, false);
    promotion_is_read(cleared, chat, other, false);
    let h = heard(chat, username, text, st, files);
    let plan = h.plan->0;
    if name_set(files.first_month).contains(trim_text(text)) {
        assert(plan[0] == ActionView::GrantAccess { chat });
        assert(plan[1] == ActionView::AddOrRenew { user: chat, months: 1 });
        assert(plan[2] == ActionView::AppendRecord { user: chat, months: 1 });
        assert(plan[4] == folders_message(chat));
    } else {
        assert(plan.len() == 2);
        assert(plan[0]->Send_markup is Plain);
        assert(folders_message(chat)->Send_markup is Inline);
    }
}

/// A user whom an administrator is expected to name is added to the list that the commands
/// keep, or taken from it: the list that is saved holds that user, or does not, and everyone
/// else as before; where the list need not change none is saved. What is expected of the
/// administrator is cleared and persisted.
pub proof fn named_user_is_added_or_removed(
    chat: i64,
    st: JsonView,
    text: Seq<char>,
    users: Seq<Seq<char>>,
    x: Seq<char>,
)
    requires
        section_of(st, "admin_pending"@) is Object,
    ensures
        ({
            let name = handle_key(text);
            let add = free_added(chat, st, text, users);
            let remove = free_removed(chat, st, text, users);
            &&& !admin_pending(add.state, chat, "add_free"@)
            &&& !admin_pending(remove.state, chat, "remove_free"@)
            &&& add.plan is Some && add.plan->0.last() is WriteState
            &&& remove.plan is Some && remove.plan->0.last() is WriteState
            &&& add.plan->0[0] is SaveFreeUsers <==> !users.contains(name)
            &&& add.plan->0[0] matches ActionOf::SaveFreeUsers { users: list, chat: to, .. } ==> to
                == chat && (list.contains(x) <==> users.contains(x) || x == name)
            &&& remove.plan->0[0] is SaveFreeUsers <==> users.contains(name)
            &&& remove.plan->0[0] matches ActionOf::SaveFreeUsers { users: list, chat: to, .. }
                ==> to == chat && (list.contains(x) <==> users.contains(x) && x != name)
        }),
{
    expected_action_is_read(st, chat, "add_free"@, "add_free"@, chat);
    expected_action_is_read(st, chat, "remove_free"@, "remove_free"@, chat);
    only_the_text_changes(users, handle_key(text), x);
}

/// The answer that is expected is taken for what it was asked for: an account for the
/// promotion, a user to add, or a user to remove.
pub proof fn answers_are_taken_for_what_was_asked(
    chat: i64,
    username: Option<Seq<char>>,
    text: Seq<char>,
    st: JsonView,
    files: FilesView,
)
    requires
        !is_start(text),
        !is_ping(text),
        !is_promo_request(text),
        !promo_pending(st, chat),
    ensures
        admin_pending(st, chat, "add_free"@) ==> heard(chat, username, text, st, files)
            == free_added(chat, st, text, name_set(files.command_users)),
        admin_pending(st, chat, "remove_free"@) ==> heard(chat, username, text, st, files)
            == free_removed(chat, st, text, name_set(files.command_users)),
        !admin_pending(st, chat, "add_free"@) && !admin_pending(st, chat, "remove_free"@)
            ==> heard(chat, username, text, st, files).plan is None,
{
    reveal_strlit("add_free");
    reveal_strlit("remove_free");
    assert("add_free"@.len() == 8);
    assert("remove_free"@.len() == 11);
}

/// What the panel takes is followed by the keyboard that everyone sees and the panel; what
/// it does not take gives a user with free access what they have access to, and anyone else
/// nothing.
pub proof fn what_is_left_goes_to_the_panel(
    msg: IncomingView,
    st: JsonView,
    a: AdminView,
    files: FilesView,
)
    requires
        msg.text matches Some(text) ==> heard(msg.chat, msg.username, text, st, files).plan is None,
    ensures
        ({
            let step = admin_step(
                a,
                st,
                msg.chat,
                msg.text,
                msg.forwarded,
                panel_users(files.panel_users),
            );
            let r = response(msg, st, a, files);
            let free = has_access(free_list(files.panel_users), msg.username, msg.chat);
            &&& r.state == step.state
            &&& r.admin == step.admin
            &&& step.plan matches Some(plan) ==> {
                &&& plan.is_prefix_of(r.plan)
                &&& r.plan.len() == plan.len() + 2
                &&& r.plan.contains(ActionOf::EnsurePublicKeyboard { chat: msg.chat })
                &&& r.plan.last() == panel_message(msg.chat, PANEL_TEXT@)
            }
            &&& step.plan is None ==> {
                &&& r.plan.contains(ActionOf::GrantAccess { chat: msg.chat }) <==> free
                &&& r.plan.contains(ActionOf::SendCatalog { chat: msg.chat }) <==> free
                &&& !free ==> r.plan.len() == 0
            }
        }),
{
    let step = admin_step(
        a,
        st,
        msg.chat,
        msg.text,
        msg.forwarded,
        panel_users(files.panel_users),
    );
    let r = response(msg, st, a, files);
    if step.plan is Some {
        let plan = step.plan->0;
        assert(r.plan[plan.len() as int] == ActionView::EnsurePublicKeyboard { chat: msg.chat });
        assert(plan =~= r.plan.subrange(0, plan.len() as int));
    } else if has_access(free_list(files.panel_users), msg.username, msg.chat) {
        assert(r.plan[0] == ActionView::GrantAccess { chat: msg.chat });
        assert(r.plan[1] == ActionView::SendCatalog { chat: msg.chat });
    }
}

/// Every message is responded to, unless the state is neither an object nor `null` and the
/// message would be recorded in it: one that asks for the promotion, or the password that a
/// chat was asked for. Commands are answered whatever the state is.
pub proof fn messages_are_responded_to(msg: IncomingView, st: JsonView, a: AdminView)
    ensures
        st is Object ==> can_respond(msg, st, a),
        st is Null ==> can_respond(msg, st, a),
        msg.text is None ==> can_respond(msg, st, a),
        msg.text matches Some(text) ==> {
            &&& "/start"@.is_prefix_of(trim_text(text)) ==> can_respond(msg, st, a)
            &&& ascii_lowercase_text(trim_text(text)) == "/ping"@ ==> can_respond(msg, st, a)
            &&& trim_text(text) != "/paid month"@ && !a.pending_pwd.contains(msg.chat)
                ==> can_respond(msg, st, a)
            &&& trim_text(text) != "/paid month"@ && a.password != Some(trim_text(text))
                ==> can_respond(msg, st, a)
            &&& trim_text(text) == "/paid month"@ && !(st is Object) && !(st is Null)
                ==> !can_respond(msg, st, a)
        },
{
    if msg.text is Some && trim_text(msg.text->0) == "/paid month"@ {
        lemma_paid_month(msg.text->0);
    }
}

/// A command or an answer that is expected is responded to as such, and leaves the
/// administrators as they are.
pub proof fn commands_come_before_the_panel(
    msg: IncomingView,
    st: JsonView,
    a: AdminView,
    files: FilesView,
)
    requires
        msg.text is Some,
        heard(msg.chat, msg.username, msg.text->0, st, files).plan is Some,
    ensures
        response(msg, st, a, files).admin == a,
        response(msg, st, a, files).state == heard(
            msg.chat,
            msg.username,
            msg.text->0,
            st,
            files,
        ).state,
        Some(response(msg, st, a, files).plan) == heard(
            msg.chat,
            msg.username,
            msg.text->0,
            st,
            files,
        ).plan,
{
}

} // verus!
