//! What the bot does when a button is pressed.
use crate::actions::{
    acknowledge, acknowledge_view, alert, alert_view, answer, answer_view, only, plain, plain_view,
    then_do, Action, ActionOf, ActionView,
};
use crate::admin::{panel_message, Admin, PANEL_TEXT};
use crate::bot::{folders_message, send_folders};
use crate::free_users::{load_free_users, name_set};
use crate::greeting::{payment_text, show_payment};
use crate::json::{json_view, JsonView};
use crate::keyboard::{ButtonOf, Markup, MarkupView};
use crate::links::url_text;
use crate::numbers::{
    int_text, int_text_parses_back, nat_text, parse_i64, parse_i64_text, show_u64,
};
use crate::payments::{
    check_data, invoice_keyboard, invoice_rows, invoice_url, outcome_view, url_of_invoice, Invoice,
    InvoiceView,
};
use crate::state::{
    admin_pending, can_take_fields, expected_action_is_read, section_of, set_admin_pending,
    takes_fields, with_admin_pending,
};
use crate::text::{join2, same, starts_with, strip_prefix, strip_prefix_text};
use serde_json::Value;
use vstd::prelude::*;

verus! {

// ---------------------------------------------------------------------------
// Who handles a button
// ---------------------------------------------------------------------------

/// Which part of the bot a button belongs to.
#[derive(Debug, Clone, Copy, PartialEq, Eq)]
pub enum Topic {
    Payment,
    Channels,
    Administration,
    Unknown,
}

/// Which part of the bot a button belongs to.
pub open spec fn topic_of(data: Option<Seq<char>>) -> Topic {
    match data {
        Some(d) => if "pay:"@.is_prefix_of(d) {
            Topic::Payment
        } else if d == "show:channels"@ {
            Topic::Channels
        } else if "admin:"@.is_prefix_of(d) {
            Topic::Administration
        } else {
            Topic::Unknown
        },
        None => Topic::Unknown,
    }
}

/// Which part of the bot a button belongs to.
pub fn topic(data: Option<&str>) -> (r: Topic)
    ensures
        r == topic_of(data.deep_view()),
{
    match data {
        Some(d) => if starts_with(d, "pay:") {
            Topic::Payment
        } else if same(d, "show:channels") {
            Topic::Channels
        } else if starts_with(d, "admin:") {
            Topic::Administration
        } else {
            Topic::Unknown
        },
        None => Topic::Unknown,
    }
}

// ---------------------------------------------------------------------------
// Payments
// ---------------------------------------------------------------------------

/// A message with the button that was pressed.
#[derive(Debug, Clone, Copy, PartialEq, Eq)]
pub struct Pressed {
    pub chat: i64,
    pub message: i32,
}

/// What a press leads to first.
#[derive(Debug, Clone, PartialEq, Eq)]
pub enum PayStepOf<P> {
    /// This is to be done, and no more.
    Do(P),
    /// This is to be done first, and then an invoice to be looked up.
    LookUp { first: P, invoice_id: i64 },
}

/// What a press leads to first.
pub type PayStep = PayStepOf<Vec<Action>>;

/// What a press leads to first.
pub type PayStepView = PayStepOf<Seq<ActionView>>;

impl DeepView for PayStepOf<Vec<Action>> {
    type V = PayStepView;

    open spec fn deep_view(&self) -> PayStepView {
        match self {
            PayStepOf::Do(plan) => PayStepOf::Do(plan.deep_view()),
            PayStepOf::LookUp { first, invoice_id } => PayStepOf::LookUp {
                first: first.deep_view(),
                invoice_id: *invoice_id,
            },
        }
    }
}

/// The invoice that a button asks about; zero where it names none.
pub open spec fn asked_invoice(id: Seq<char>) -> i64 {
    match parse_i64_text(id) {
        Some(n) => n,
        None => 0,
    }
}

/// What a press on a button for payments leads to first.
pub open spec fn pay_step(data: Option<Seq<char>>, chat: Option<i64>) -> PayStepView {
    match data {
        Some(d) => match strip_prefix_text(d, "pay:check:"@) {
            Some(id) => if asked_invoice(id) == 0 {
                PayStepOf::Do(seq![alert_view("Неверный счёт."@)])
            } else {
                PayStepOf::LookUp { first: seq![], invoice_id: asked_invoice(id) }
            },
            None => if d == "pay:start"@ && chat is Some {
                PayStepOf::Do(
                    seq![ActionOf::StartPayment { chat: chat->0 }, acknowledge_view()],
                )
            } else {
                PayStepOf::Do(seq![acknowledge_view()])
            },
        },
        None => PayStepOf::Do(seq![]),
    }
}

/// What is done in the chat of a paid invoice.
pub open spec fn paid_in_chat(pressed: Pressed, authed: bool) -> Seq<ActionView> {
    let chat = pressed.chat;
    let granted = seq![
        ActionOf::GrantAccess { chat },
        ActionOf::AddOrRenew { user: chat, months: 1 },
        ActionOf::AppendRecord { user: chat, months: 1 },
        ActionOf::UnbanEverywhere { user: chat },
        folders_message(chat),
        ActionOf::Edit {
            chat,
            message: pressed.message,
            text: "✅ Платёж подтверждён. Доступ предоставлен на 30 дней."@,
        },
        ActionOf::EnsurePublicKeyboard { chat },
    ];
    if authed {
        granted.push(ActionOf::ShowCatalog { chat, page: 1 })
    } else {
        granted
    }
}

/// What an invoice that was looked up leads to.
pub open spec fn pay_plan(
    invoice: Result<Option<InvoiceView>, Seq<char>>,
    pressed: Option<Pressed>,
    authed: bool,
) -> Seq<ActionView> {
    match invoice {
        Ok(Some(inv)) => if inv.status == "paid"@ {
            (match pressed {
                Some(p) => paid_in_chat(p, authed),
                None => seq![],
            }).push(answer_view("Платёж подтверждён ✅"@))
        } else if inv.status == "active"@ {
            seq![
                alert_view("Платёж не завершён. Завершите оплату и попробуйте ещё раз."@),
            ]
        } else {
            seq![alert_view("Статус: "@ + inv.status)]
        },
        Ok(None) => seq![alert_view("Счёт не найден."@)],
        Err(e) => seq![alert_view("Ошибка проверки: "@ + e)],
    }
}

/// What a press on a button for payments leads to first.
pub fn handle_pay_callbacks(data: Option<&str>, chat: Option<i64>) -> (r: PayStep)
    ensures
        r.deep_view() == pay_step(data.deep_view(), chat),
{
    let data = match data {
        Some(d) => d,
        None => {
            let none: Vec<Action> = Vec::new();
            assert(none.deep_view() =~= seq![]);
            return PayStepOf::Do(none);
        },
    };
    match strip_prefix(data, "pay:check:") {
        Some(id) => {
            let invoice_id: i64 = match parse_i64(&id) {
                Some(n) => n,
                None => 0,
            };
            if invoice_id == 0 {
                PayStepOf::Do(only(alert("Неверный счёт.".to_string())))
            } else {
                let first: Vec<Action> = Vec::new();
                assert(first.deep_view() =~= seq![]);
                PayStepOf::LookUp { first, invoice_id }
            }
        },
        None => match chat {
            Some(chat) => {
                if same(data, "pay:start") {
                    let mut plan = only(ActionOf::StartPayment { chat });
                    then_do(&mut plan, acknowledge());
                    assert(plan.deep_view() =~= seq![
                        ActionOf::StartPayment { chat },
                        acknowledge_view(),
                    ]);
                    PayStepOf::Do(plan)
                } else {
                    PayStepOf::Do(only(acknowledge()))
                }
            },
            None => PayStepOf::Do(only(acknowledge())),
        },
    }
}

fn on_paid(pressed: Pressed, authed: bool) -> (plan: Vec<Action>)
    ensures
        plan.deep_view() == paid_in_chat(pressed, authed),
{
    let chat = pressed.chat;
    let mut plan = only(ActionOf::GrantAccess { chat });
    then_do(&mut plan, ActionOf::AddOrRenew { user: chat, months: 1 });
    then_do(&mut plan, ActionOf::AppendRecord { user: chat, months: 1 });
    then_do(&mut plan, ActionOf::UnbanEverywhere { user: chat });
    then_do(&mut plan, send_folders(chat));
    then_do(
        &mut plan,
        ActionOf::Edit {
            chat,
            message: pressed.message,
            text: "✅ Платёж подтверждён. Доступ предоставлен на 30 дней.".to_string(),
        },
    );
    then_do(&mut plan, ActionOf::EnsurePublicKeyboard { chat });
    if authed {
        then_do(&mut plan, ActionOf::ShowCatalog { chat, page: 1 });
    }
    assert(plan.deep_view() =~= paid_in_chat(pressed, authed));
    plan
}

/// What an invoice that was looked up leads to, where `authed` says whether the chat is an
/// administrator's.
pub fn pay_checked(
    invoice: &Result<Option<Invoice>, String>,
    pressed: Option<Pressed>,
    authed: bool,
) -> (plan: Vec<Action>)
    ensures
        plan.deep_view() == pay_plan(outcome_view(*invoice), pressed, authed),
{
    match invoice {
        Ok(Some(inv)) => {
            if same(&inv.status, "paid") {
                let mut plan = match pressed {
                    Some(p) => on_paid(p, authed),
                    None => {
                        let none: Vec<Action> = Vec::new();
                        assert(none.deep_view() =~= seq![]);
                        none
                    },
                };
                then_do(&mut plan, answer("Платёж подтверждён ✅".to_string()));
                plan
            } else if same(&inv.status, "active") {
                only(
                    alert(
                        "Платёж не завершён. Завершите оплату и попробуйте ещё раз.".to_string(),
                    ),
                )
            } else {
                only(alert(join2("Статус: ", &inv.status)))
            }
        },
        Ok(None) => only(alert("Счёт не найден.".to_string())),
        Err(e) => only(alert(join2("Ошибка проверки: ", e))),
    }
}

// ---------------------------------------------------------------------------
// Payments, for the English dialogue
// ---------------------------------------------------------------------------

/// What a press leads to first in the English dialogue. It is acknowledged at once.
pub open spec fn english_step(data: Option<Seq<char>>, chat: Option<i64>) -> PayStepView {
    match data {
        Some(d) => if d == "pay:start"@ {
            PayStepOf::Do(
                match chat {
                    Some(chat) => seq![acknowledge_view(), ActionOf::StartPayment { chat }],
                    None => seq![acknowledge_view()],
                },
            )
        } else {
            match strip_prefix_text(d, "pay:check:"@) {
                Some(id) => if asked_invoice(id) == 0 {
                    PayStepOf::Do(seq![acknowledge_view(), alert_view("Invalid invoice id"@)])
                } else {
                    PayStepOf::LookUp {
                        first: seq![acknowledge_view()],
                        invoice_id: asked_invoice(id),
                    }
                },
                None => PayStepOf::Do(seq![acknowledge_view()]),
            }
        },
        None => PayStepOf::Do(seq![acknowledge_view()]),
    }
}

/// What is done in the chat of a paid invoice in the English dialogue.
pub open spec fn english_paid(pressed: Pressed, authed: bool) -> Seq<ActionView> {
    let chat = pressed.chat;
    let granted = seq![
        ActionOf::GrantAccess { chat },
        ActionOf::Edit {
            chat,
            message: pressed.message,
            text: "✅ Payment succeeded. Access granted."@,
        },
        panel_message(chat, PANEL_TEXT@),
        ActionOf::EnsurePublicKeyboard { chat },
    ];
    if authed {
        granted
    } else {
        granted.push(ActionOf::SendChannelInvite { chat })
    }
}

/// What an invoice that was looked up leads to in the English dialogue.
pub open spec fn english_plan(
    invoice: Result<Option<InvoiceView>, Seq<char>>,
    pressed: Option<Pressed>,
    authed: bool,
) -> Seq<ActionView> {
    match invoice {
        Ok(Some(inv)) => if inv.status == "paid"@ {
            (match pressed {
                Some(p) => english_paid(p, authed),
                None => seq![],
            }).push(answer_view("Payment confirmed ✅"@))
        } else if inv.status == "active"@ {
            seq![alert_view("Still unpaid. Complete the payment and try again."@)]
        } else {
            seq![alert_view("Status: "@ + inv.status)]
        },
        Ok(None) => seq![alert_view("Invoice not found."@)],
        Err(e) => seq![alert_view("Check failed: "@ + e)],
    }
}

/// What a press leads to first in the English dialogue.
pub fn handle_pay_callback(data: Option<&str>, chat: Option<i64>) -> (r: PayStep)
    ensures
        r.deep_view() == english_step(data.deep_view(), chat),
{
    let mut plan = only(acknowledge());
    let data = match data {
        Some(d) => d,
        None => return PayStepOf::Do(plan),
    };
    if same(data, "pay:start") {
        match chat {
            Some(chat) => {
                then_do(&mut plan, ActionOf::StartPayment { chat });
                assert(plan.deep_view() =~= seq![
                    acknowledge_view(),
                    ActionOf::StartPayment { chat },
                ]);
            },
            None => {},
        }
        return PayStepOf::Do(plan);
    }
    match strip_prefix(data, "pay:check:") {
        Some(id) => {
            let invoice_id: i64 = match parse_i64(&id) {
                Some(n) => n,
                None => 0,
            };
            if invoice_id != 0 {
                return PayStepOf::LookUp { first: plan, invoice_id };
            }
            then_do(&mut plan, alert("Invalid invoice id".to_string()));
            assert(plan.deep_view() =~= seq![
                acknowledge_view(),
                alert_view("Invalid invoice id"@),
            ]);
            PayStepOf::Do(plan)
        },
        None => PayStepOf::Do(plan),
    }
}

/// What an invoice that was looked up leads to in the English dialogue.
pub fn english_checked(
    admin: &Admin,
    invoice: &Result<Option<Invoice>, String>,
    pressed: Option<Pressed>,
    authed: bool,
) -> (plan: Vec<Action>)
    ensures
        plan.deep_view() == english_plan(outcome_view(*invoice), pressed, authed),
{
    match invoice {
        Ok(Some(inv)) => {
            if same(&inv.status, "paid") {
                let mut plan: Vec<Action> = Vec::new();
                assert(plan.deep_view() =~= seq![]);
                match pressed {
                    Some(p) => {
                        let chat = p.chat;
                        then_do(&mut plan, ActionOf::GrantAccess { chat });
                        then_do(
                            &mut plan,
                            ActionOf::Edit {
                                chat,
                                message: p.message,
                                text: "✅ Payment succeeded. Access granted.".to_string(),
                            },
                        );
                        then_do(&mut plan, admin.panel(chat, PANEL_TEXT));
                        then_do(&mut plan, ActionOf::EnsurePublicKeyboard { chat });
                        if !authed {
                            then_do(&mut plan, ActionOf::SendChannelInvite { chat });
                        }
                        assert(plan.deep_view() =~= english_paid(p, authed));
                    },
                    None => {},
                }
                then_do(&mut plan, answer("Payment confirmed ✅".to_string()));
                plan
            } else if same(&inv.status, "active") {
                only(alert("Still unpaid. Complete the payment and try again.".to_string()))
            } else {
                only(alert(join2("Status: ", &inv.status)))
            }
        },
        Ok(None) => only(alert("Invoice not found.".to_string())),
        Err(e) => only(alert(join2("Check failed: ", e))),
    }
}

// ---------------------------------------------------------------------------
// The list of channels
// ---------------------------------------------------------------------------

/// What the channels are.
pub const CHANNELS_TEXT: &'static str =
    "Ретро-активности:\n\n⚫️Pro Mint \n⚫️FACKBLOCK\n⚫️001k\n⚫️Вишня \n⚫️Фармилка | Пирожок\n⚫️2TOP Squad\n⚫️Crypton Prime\n⚫️Coin Metrika\n⚫️CRYPTUS \n⚫️20/80 Crypto Headlines\n\nКоллеры:\n\n⚫️D Trade ( 3333$/год )\n⚫️D ( с 1к$ до 500к$ )\n⚫️Слезы Сатоши\n⚫️krajekis сигма impulse\n⚫️Крипто Свин\n⚫️Коля Флипает\n⚫️BOBA\n⚫️Mr.Mozart\n⚫️maloletoff\n⚫️Картель\n⚫️ARBUZ REBORN\n\nПрочее:\n\n⚫️База Тейта\n⚫️База Арсена Маркаряна\n⚫️База по качалке\n⚫️YouTube HUB - много инфы по англ. ютубу\n\n⚫️ BLENDER club - тут мы делаем выжимки и подсвечиваем самую интересную инфу из выше перечислиных приваток, колим то в что сами заходим и делаем.";

/// What introduces the invoice below the list of channels.
pub const ACCESS_INTRO: &'static str = "Если хотите получить доступ — оплатите счёт:";

/// What a press on the button for the channels leads to before an invoice is created: in
/// the chat of the button, else in that of the user.
pub fn show_channels(pressed: Option<Pressed>, from: i64) -> (plan: Vec<Action>)
    ensures
        plan.deep_view() == seq![
            acknowledge_view(),
            plain_view(reply_chat(pressed, from), CHANNELS_TEXT@),
        ],
{
    let chat = match pressed {
        Some(p) => p.chat,
        None => from,
    };
    let mut plan = only(acknowledge());
    then_do(&mut plan, plain(chat, CHANNELS_TEXT.to_string()));
    assert(plan.deep_view() =~= seq![
        acknowledge_view(),
        plain_view(reply_chat(pressed, from), CHANNELS_TEXT@),
    ]);
    plan
}

/// Where a press is replied to: in the chat of the button, else in that of the user.
pub open spec fn reply_chat(pressed: Option<Pressed>, from: i64) -> i64 {
    match pressed {
        Some(p) => p.chat,
        None => from,
    }
}

/// What the invoice for a user carries.
pub fn channels_payload(user: u64) -> (r: String)
    ensures
        r@ == nat_text(user as nat),
{
    show_u64(user)
}

/// The invoice below the list of channels.
pub open spec fn channels_invoice_view(chat: i64, invoice: InvoiceView) -> ActionView {
    ActionOf::Send {
        chat,
        text: payment_text(ACCESS_INTRO@, invoice.pay_url),
        markup: MarkupView::Inline(
            invoice_rows("Продлить подписку"@, invoice_url(invoice), invoice.invoice_id),
        ),
    }
}

/// The invoice below the list of channels. Where none could be created nothing is sent.
pub fn channels_invoice(
    pressed: Option<Pressed>,
    from: i64,
    invoice: &Result<Invoice, String>,
) -> (r: Option<Action>)
    ensures
        match r {
            Some(a) => invoice matches Ok(inv) && a.deep_view() == channels_invoice_view(
                reply_chat(pressed, from),
                inv.deep_view(),
            ),
            None => invoice is Err,
        },
{
    let chat = match pressed {
        Some(p) => p.chat,
        None => from,
    };
    match invoice {
        Ok(inv) => {
            let text = match &inv.pay_url {
                Some(url) => show_payment(ACCESS_INTRO, Some(url)),
                None => show_payment(ACCESS_INTRO, None),
            };
            let keyboard = invoice_keyboard(
                "Продлить подписку".to_string(),
                url_of_invoice(inv),
                inv.invoice_id,
            );
            Some(ActionOf::Send { chat, text, markup: Markup::Inline(keyboard) })
        },
        Err(_) => None,
    }
}

// ---------------------------------------------------------------------------
// Administration
// ---------------------------------------------------------------------------

/// The first `n` names, each behind an `@`, separated by line feeds.
pub open spec fn names_text(names: Seq<Seq<char>>, n: nat) -> Seq<char>
    decreases n,
{
    if n == 0 {
        seq![]
    } else if n == 1 {
        "@"@ + names[0]
    } else {
        names_text(names, (n - 1) as nat) + "\n"@ + "@"@ + names[n - 1]
    }
}

fn show_names(names: &Vec<String>) -> (r: String)
    ensures
        r@ == names_text(names.deep_view(), names@.len()),
{
    let ghost views = names.deep_view();
    let mut out = String::new();
    assert(out@ =~= seq![]);
    for i in 0..names.len()
        invariant
            views == names.deep_view(),
            out@ == names_text(views, i as nat),
    {
        assert(views[i as int] == names@[i as int]@);
        if i > 0 {
            out.append("\n");
        }
        out.append("@");
        out.append(&names[i]);
        if i == 0 {
            assert(out@ =~= "@"@ + views[0]);
        }
    }
    out
}

/// The list of users with free access.
pub open spec fn free_users_listed(users: Seq<Seq<char>>) -> Seq<char> {
    "Бесплатные пользователи:\n"@ + if users.len() == 0 {
        "Пока нет пользователей с бесплатным доступом."@
    } else {
        names_text(users, users.len())
    }
}

/// What a press on a button of the administration leads to: the state afterwards and what
/// the bot is to do.
pub struct AdminPress {
    pub state: JsonView,
    pub plan: Seq<ActionView>,
}

/// Whether a button asks for a user who is to be added or removed.
pub open spec fn asks_for_user(data: Seq<char>) -> bool {
    data == "admin:add_free"@ || data == "admin:remove_free"@
}

/// What a press on a button of the administration leads to. Others than administrators
/// are turned away.
pub open spec fn admin_press(
    authed: bool,
    user: i64,
    data: Seq<char>,
    st: JsonView,
    users: Seq<Seq<char>>,
) -> AdminPress {
    if !authed {
        AdminPress { state: st, plan: seq![answer_view("Доступ запрещён."@)] }
    } else if data == "admin:add_free"@ {
        AdminPress {
            state: with_admin_pending(st, user, Some("add_free"@)),
            plan: seq![
                ActionOf::WriteState,
                plain_view(user, "Отправьте username для ДОБАВЛЕНИЯ (с @ или без):"@),
                acknowledge_view(),
            ],
        }
    } else if data == "admin:remove_free"@ {
        AdminPress {
            state: with_admin_pending(st, user, Some("remove_free"@)),
            plan: seq![
                ActionOf::WriteState,
                plain_view(user, "Отправьте username для УДАЛЕНИЯ (с @ или без):"@),
                acknowledge_view(),
            ],
        }
    } else if data == "admin:show_free"@ {
        AdminPress {
            state: st,
            plan: seq![plain_view(user, free_users_listed(users)), acknowledge_view()],
        }
    } else {
        AdminPress { state: st, plan: seq![acknowledge_view()] }
    }
}

fn ask_for(st: &mut Value, user: i64, action: &str, prompt: &str) -> (plan: Vec<Action>)
    requires
        takes_fields(json_view(*old(st))),
    ensures
        json_view(*final(st)) == with_admin_pending(json_view(*old(st)), user, Some(action@)),
        plan.deep_view() == seq![
            ActionOf::WriteState,
            plain_view(user, prompt@),
            acknowledge_view(),
        ],
{
    set_admin_pending(st, user, Some(action));
    let mut plan = only(ActionOf::WriteState);
    then_do(&mut plan, plain(user, prompt.to_string()));
    then_do(&mut plan, acknowledge());
    assert(plan.deep_view() =~= seq![
        ActionOf::WriteState,
        plain_view(user, prompt@),
        acknowledge_view(),
    ]);
    plan
}

/// What a press on a button of the administration leads to, given what the file with the
/// users of the commands holds. Where the state cannot take what is to be expected of an
/// administrator, nothing is done and nothing changes.
pub fn handle_admin_callback(
    admin: &Admin,
    st: &mut Value,
    user: i64,
    data: &str,
    users: Option<&str>,
) -> (plan: Option<Vec<Action>>)
    ensures
        plan is None <==> admin@.authed.contains(user) && asks_for_user(data@) && !takes_fields(
            json_view(*old(st)),
        ),
        plan is None ==> json_view(*final(st)) == json_view(*old(st)),
        plan matches Some(p) ==> {
            let press = admin_press(
                admin@.authed.contains(user),
                user,
                data@,
                json_view(*old(st)),
                name_set(users.deep_view()),
            );
            &&& json_view(*final(st)) == press.state
            &&& p.deep_view() == press.plan
        },
{
    if !admin.is_authed(user) {
        return Some(only(answer("Доступ запрещён.".to_string())));
    }
    if same(data, "admin:add_free") {
        if !can_take_fields(st) {
            return None;
        }
        return Some(
            ask_for(st, user, "add_free", "Отправьте username для ДОБАВЛЕНИЯ (с @ или без):"),
        );
    }
    if same(data, "admin:remove_free") {
        if !can_take_fields(st) {
            return None;
        }
        return Some(
            ask_for(st, user, "remove_free", "Отправьте username для УДАЛЕНИЯ (с @ или без):"),
        );
    }
    if same(data, "admin:show_free") {
        let names = load_free_users(users);
        let list = if names.len() == 0 {
            "Пока нет пользователей с бесплатным доступом.".to_string()
        } else {
            show_names(&names)
        };
        let mut plan = only(plain(user, join2("Бесплатные пользователи:\n", &list)));
        then_do(&mut plan, acknowledge());
        assert(plan.deep_view() =~= seq![
            plain_view(user, free_users_listed(names.deep_view())),
            acknowledge_view(),
        ]);
        return Some(plan);
    }
    Some(only(acknowledge()))
}

// ---------------------------------------------------------------------------
// Laws
// ---------------------------------------------------------------------------

/// Whether a plan gives access to a chat.
pub open spec fn grants_access(plan: Seq<ActionView>) -> bool {
    exists|i: int| 0 <= i < plan.len() && (#[trigger] plan[i]) is GrantAccess
}

/// Access is given for an invoice that is paid, and for no other.
pub proof fn only_paid_invoices_give_access(
    invoice: Result<Option<InvoiceView>, Seq<char>>,
    pressed: Option<Pressed>,
    authed: bool,
)
    ensures
        grants_access(pay_plan(invoice, pressed, authed)) <==> pressed is Some && (
        invoice matches Ok(Some(inv)) && inv.status == "paid"@),
        grants_access(english_plan(invoice, pressed, authed)) <==> pressed is Some && (
        invoice matches Ok(Some(inv)) && inv.status == "paid"@),
{
    if pressed is Some && (invoice matches Ok(Some(inv)) && inv.status == "paid"@) {
        assert(pay_plan(invoice, pressed, authed)[0] is GrantAccess);
        assert(english_plan(invoice, pressed, authed)[0] is GrantAccess);
    }
}

/// A press that looks an invoice up is always answered in the end.
pub proof fn every_check_is_answered(
    invoice: Result<Option<InvoiceView>, Seq<char>>,
    pressed: Option<Pressed>,
    authed: bool,
)
    ensures
        pay_plan(invoice, pressed, authed).len() > 0,
        pay_plan(invoice, pressed, authed).last() is Answer,
        english_plan(invoice, pressed, authed).len() > 0,
        english_plan(invoice, pressed, authed).last() is Answer,
{
}

/// A press of someone who is no administrator changes nothing.
pub proof fn others_are_turned_away(
    user: i64,
    data: Seq<char>,
    st: JsonView,
    users: Seq<Seq<char>>,
)
    ensures
        admin_press(false, user, data, st, users) == (AdminPress {
            state: st,
            plan: seq![answer_view("Доступ запрещён."@)],
        }),
{
}

/// The button under an invoice asks about that invoice, in either dialogue; in the English
/// one the press is acknowledged before.
pub proof fn check_buttons_look_up_their_invoice(invoice_id: i64, chat: Option<i64>)
    requires
        invoice_id != 0,
    ensures
        pay_step(Some(check_data(invoice_id)), chat) == (PayStepView::LookUp {
            first: seq![],
            invoice_id,
        }),
        english_step(Some(check_data(invoice_id)), chat) == (PayStepView::LookUp {
            first: seq![acknowledge_view()],
            invoice_id,
        }),
        topic_of(Some(check_data(invoice_id))) == Topic::Payment,
{
    let prefix = "pay:check:"@;
    let id = int_text(invoice_id as int);
    int_text_parses_back(invoice_id);
    assert(prefix.is_prefix_of(prefix + id));
    assert(strip_prefix_text(prefix + id, prefix)->0 =~= id);
    reveal_strlit("pay:check:");
    reveal_strlit("pay:start");
    reveal_strlit("pay:");
    assert((prefix + id)[4] == 'c');
    assert("pay:start"@[4] == 's');
    assert("pay:"@ =~= (prefix + id).subrange(0, 4));
}

/// The button that starts a payment starts it in the chat of the button, and the press is
/// acknowledged; it is for the payments, the one for the channels for the channels, and
/// those of the administration for the administration.
pub proof fn buttons_lead_where_they_say(chat: i64)
    ensures
        pay_step(Some("pay:start"@), Some(chat)) matches PayStepOf::Do(plan) && plan.contains(
            ActionOf::StartPayment { chat },
        ) && plan.contains(acknowledge_view()) && plan.len() == 2,
        english_step(Some("pay:start"@), Some(chat)) matches PayStepOf::Do(plan) && plan.contains(
            ActionOf::StartPayment { chat },
        ) && plan.contains(acknowledge_view()) && plan.len() == 2,
        topic_of(Some("pay:start"@)) == Topic::Payment,
        topic_of(Some("show:channels"@)) == Topic::Channels,
        topic_of(Some("admin:add_free"@)) == Topic::Administration,
        topic_of(Some("admin:remove_free"@)) == Topic::Administration,
        topic_of(Some("admin:show_free"@)) == Topic::Administration,
        topic_of(None) == Topic::Unknown,
{
    reveal_strlit("pay:check:");
    reveal_strlit("pay:start");
    reveal_strlit("pay:");
    reveal_strlit("show:channels");
    reveal_strlit("admin:");
    reveal_strlit("admin:add_free");
    reveal_strlit("admin:remove_free");
    reveal_strlit("admin:show_free");
    assert("pay:"@ =~= "pay:start"@.subrange(0, 4));
    assert("pay:start"@[4] == 's');
    assert("pay:check:"@[4] == 'c');
    assert(!("pay:check:"@.is_prefix_of("pay:start"@)));
    assert("show:channels"@[0] == 's');
    assert("pay:"@[0] == 'p');
    assert(!("pay:"@.is_prefix_of("show:channels"@)));
    assert("admin:"@ =~= "admin:add_free"@.subrange(0, 6));
    assert("admin:"@ =~= "admin:remove_free"@.subrange(0, 6));
    assert("admin:"@ =~= "admin:show_free"@.subrange(0, 6));
    assert("admin:add_free"@[0] == 'a');
    assert("admin:remove_free"@[0] == 'a');
    assert("admin:show_free"@[0] == 'a');
    assert(!("pay:"@.is_prefix_of("admin:add_free"@)));
    assert(!("pay:"@.is_prefix_of("admin:remove_free"@)));
    assert(!("pay:"@.is_prefix_of("admin:show_free"@)));
    let a = pay_step(Some("pay:start"@), Some(chat))->Do_0;
    let b = english_step(Some("pay:start"@), Some(chat))->Do_0;
    assert(a[0] == ActionView::StartPayment { chat } && a[1] == acknowledge_view());
    assert(b[1] == ActionView::StartPayment { chat } && b[0] == acknowledge_view());
}

/// Where an invoice is paid, the chat of the button gets access, a month as a subscriber,
/// a record of that in the ledger, its bans lifted everywhere, the folders, and the message
/// with the button says so; an administrator sees the catalog besides. All of it is for
/// that chat, and no other.
pub proof fn paid_invoice_gives_the_chat_its_month(
    invoice: InvoiceView,
    pressed: Pressed,
    authed: bool,
)
    requires
        invoice.status == "paid"@,
    ensures
        ({
            let plan = pay_plan(Ok(Some(invoice)), Some(pressed), authed);
            let chat = pressed.chat;
            &&& plan.contains(ActionOf::GrantAccess { chat })
            &&& plan.contains(ActionOf::AddOrRenew { user: chat, months: 1 })
            &&& plan.contains(ActionOf::AppendRecord { user: chat, months: 1 })
            &&& plan.contains(ActionOf::UnbanEverywhere { user: chat })
            &&& plan.contains(folders_message(chat))
            &&& plan.contains(ActionOf::EnsurePublicKeyboard { chat })
            &&& exists|i: int|
                0 <= i < plan.len() && (#[trigger] plan[i] matches ActionOf::Edit {
                    chat: c,
                    message,
                    ..
                } && c == chat && message == pressed.message)
            &&& plan.contains(ActionOf::ShowCatalog { chat, page: 1 }) <==> authed
            &&& forall|i: int|
                0 <= i < plan.len() ==> match #[trigger] plan[i] {
                    ActionOf::GrantAccess { chat: c } => c == chat,
                    ActionOf::AddOrRenew { user, months } => user == chat && months == 1,
                    ActionOf::AppendRecord { user, months } => user == chat && months == 1,
                    ActionOf::UnbanEverywhere { user } => user == chat,
                    ActionOf::Send { chat: c, .. } => c == chat,
                    ActionOf::Edit { chat: c, message, .. } => c == chat && message
                        == pressed.message,
                    ActionOf::EnsurePublicKeyboard { chat: c } => c == chat,
                    ActionOf::ShowCatalog { chat: c, .. } => c == chat && authed,
                    ActionOf::Answer { .. } => true,
                    _ => false,
                }
        }),
{
    let plan = pay_plan(Ok(Some(invoice)), Some(pressed), authed);
    let chat = pressed.chat;
    assert(plan[0] == ActionView::GrantAccess { chat });
    assert(plan[1] == ActionView::AddOrRenew { user: chat, months: 1 });
    assert(plan[2] == ActionView::AppendRecord { user: chat, months: 1 });
    assert(plan[3] == ActionView::UnbanEverywhere { user: chat });
    assert(plan[4] == folders_message(chat));
    assert(plan[5] is Edit);
    assert(plan[6] == ActionView::EnsurePublicKeyboard { chat });
    if authed {
        assert(plan[7] == ActionView::ShowCatalog { chat, page: 1 });
    }
}

/// The same in the English dialogue: the chat of the button gets access and the panel, and
/// an invitation unless it is an administrator's.
pub proof fn paid_invoice_gives_access_in_english(
    invoice: InvoiceView,
    pressed: Pressed,
    authed: bool,
)
    requires
        invoice.status == "paid"@,
    ensures
        ({
            let plan = english_plan(Ok(Some(invoice)), Some(pressed), authed);
            let chat = pressed.chat;
            &&& plan.contains(ActionOf::GrantAccess { chat })
            &&& plan.contains(ActionOf::EnsurePublicKeyboard { chat })
            &&& plan.contains(panel_message(chat, PANEL_TEXT@))
            &&& plan.contains(ActionOf::SendChannelInvite { chat }) <==> !authed
            &&& forall|i: int|
                0 <= i < plan.len() ==> match #[trigger] plan[i] {
                    ActionOf::GrantAccess { chat: c } => c == chat,
                    ActionOf::Send { chat: c, .. } => c == chat,
                    ActionOf::Edit { chat: c, message, .. } => c == chat && message
                        == pressed.message,
                    ActionOf::EnsurePublicKeyboard { chat: c } => c == chat,
                    ActionOf::SendChannelInvite { chat: c } => c == chat && !authed,
                    ActionOf::Answer { .. } => true,
                    _ => false,
                }
        }),
{
    let plan = english_plan(Ok(Some(invoice)), Some(pressed), authed);
    let chat = pressed.chat;
    assert(plan[0] == ActionView::GrantAccess { chat });
    assert(plan[2] == panel_message(chat, PANEL_TEXT@));
    assert(plan[3] == ActionView::EnsurePublicKeyboard { chat });
    if !authed {
        assert(plan[4] == ActionView::SendChannelInvite { chat });
    }
}

/// An invoice that is not paid, is not there, or cannot be looked up leads to an alert to
/// whoever pressed the button, and to nothing else.
pub proof fn other_invoices_only_alert(
    invoice: Result<Option<InvoiceView>, Seq<char>>,
    pressed: Option<Pressed>,
    authed: bool,
)
    requires
        !(invoice matches Ok(Some(inv)) && inv.status == "paid"@),
    ensures
        pay_plan(invoice, pressed, authed).len() == 1,
        pay_plan(invoice, pressed, authed)[0] matches ActionOf::Answer { note: Some(_), alert }
            && alert,
        english_plan(invoice, pressed, authed).len() == 1,
        english_plan(invoice, pressed, authed)[0] matches ActionOf::Answer { note: Some(_), alert }
            && alert,
        invoice matches Err(e) ==> exists|head: Seq<char>| #[trigger]
            (head + e) == pay_plan(invoice, pressed, authed)[0]->note->0,
{
    match invoice {
        Err(e) => {
            assert("Ошибка проверки: "@ + e == pay_plan(invoice, pressed, authed)[0]->note->0);
        },
        _ => {},
    }
}

/// An administrator who presses the button to add or to remove a user is expected to name
/// one from then on, for that action, which is persisted, and hears so; nobody else is
/// expected to.
pub proof fn pressed_action_is_expected(
    user: i64,
    st: JsonView,
    users: Seq<Seq<char>>,
    other: i64,
    action: Seq<char>,
)
    requires
        section_of(st, "admin_pending"@) is Object,
    ensures
        ({
            let add = admin_press(true, user, "admin:add_free"@, st, users);
            let remove = admin_press(true, user, "admin:remove_free"@, st, users);
            &&& admin_pending(add.state, user, "add_free"@)
            &&& !admin_pending(add.state, user, "remove_free"@)
            &&& admin_pending(remove.state, user, "remove_free"@)
            &&& !admin_pending(remove.state, user, "add_free"@)
            &&& other != user ==> admin_pending(add.state, other, action) == admin_pending(
                st,
                other,
                action,
            )
            &&& other != user ==> admin_pending(remove.state, other, action) == admin_pending(
                st,
                other,
                action,
            )
            &&& add.plan.contains(ActionOf::WriteState) && add.plan.contains(acknowledge_view())
            &&& remove.plan.contains(ActionOf::WriteState) && remove.plan.contains(
                acknowledge_view(),
            )
            &&& add.plan[1] matches ActionOf::Send { chat, .. } && chat == user
            &&& remove.plan[1] matches ActionOf::Send { chat, .. } && chat == user
        }),
{
    reveal_strlit("admin:add_free");
    reveal_strlit("admin:remove_free");
    reveal_strlit("add_free");
    reveal_strlit("remove_free");
    assert("admin:add_free"@.len() == 14);
    assert("admin:remove_free"@.len() == 17);
    assert("add_free"@.len() == 8);
    assert("remove_free"@.len() == 11);
    expected_action_is_read(st, user, "add_free"@, "add_free"@, user);
    expected_action_is_read(st, user, "add_free"@, "remove_free"@, user);
    expected_action_is_read(st, user, "remove_free"@, "add_free"@, user);
    expected_action_is_read(st, user, "remove_free"@, "remove_free"@, user);
    expected_action_is_read(st, user, "add_free"@, action, other);
    expected_action_is_read(st, user, "remove_free"@, action, other);
    let add = admin_press(true, user, "admin:add_free"@, st, users);
    let remove = admin_press(true, user, "admin:remove_free"@, st, users);
    assert(add.plan[0] is WriteState && add.plan[2] == acknowledge_view());
    assert(remove.plan[0] is WriteState && remove.plan[2] == acknowledge_view());
}

proof fn lemma_named(names: Seq<Seq<char>>, n: nat, i: int)
    requires
        0 <= i < n <= names.len(),
    ensures
        exists|head: Seq<char>, tail: Seq<char>| #[trigger]
            (head + ("@"@ + names[i]) + tail) == names_text(names, n),
    decreases n,
{
    if n == 1 {
        assert(Seq::<char>::empty() + ("@"@ + names[0]) + Seq::<char>::empty() =~= names_text(
            names,
            n,
        ));
    } else if i == n - 1 {
        let head = names_text(names, (n - 1) as nat) + "\n"@;
        assert(head + ("@"@ + names[i]) + Seq::<char>::empty() =~= names_text(names, n));
    } else {
        lemma_named(names, (n - 1) as nat, i);
        let (head, tail) = choose|head: Seq<char>, tail: Seq<char>| #[trigger]
            (head + ("@"@ + names[i]) + tail) == names_text(names, (n - 1) as nat);
        let more = tail + "\n"@ + "@"@ + names[n - 1];
        assert(head + ("@"@ + names[i]) + more =~= names_text(names, n));
    }
}

/// The list of users names every one of them, behind an `@`; it goes to the administrator
/// who asked for it, and changes nothing.
pub proof fn every_free_user_is_listed(user: i64, st: JsonView, users: Seq<Seq<char>>, i: int)
    requires
        0 <= i < users.len(),
    ensures
        ({
            let press = admin_press(true, user, "admin:show_free"@, st, users);
            &&& press.state == st
            &&& press.plan.len() == 2
            &&& press.plan[0] matches ActionOf::Send { chat, text, .. } && chat == user && exists|
                head: Seq<char>,
                tail: Seq<char>,
            | #[trigger] (head + ("@"@ + users[i]) + tail) == text
        }),
{
    reveal_strlit("admin:add_free");
    reveal_strlit("admin:remove_free");
    reveal_strlit("admin:show_free");
    assert("admin:add_free"@.len() == 14);
    assert("admin:remove_free"@.len() == 17);
    assert("admin:show_free"@.len() == 15);
    lemma_named(users, users.len(), i);
    let (head, tail) = choose|head: Seq<char>, tail: Seq<char>| #[trigger]
        (head + ("@"@ + users[i]) + tail) == names_text(users, users.len());
    let press = admin_press(true, user, "admin:show_free"@, st, users);
    let front = "Бесплатные пользователи:\n"@ + head;
    assert(front + ("@"@ + users[i]) + tail =~= press.plan[0]->Send_text);
}

/// The invoice below the list of channels goes where the button was, else to the user, and
/// has a button that asks about it; where it has an address that is a URL, one that leads
/// there besides.
pub proof fn channels_invoice_can_be_paid(chat: i64, invoice: InvoiceView)
    ensures
        channels_invoice_view(chat, invoice) matches ActionOf::Send {
            chat: to,
            text,
            markup: MarkupView::Inline(rows),
        } && {
            &&& to == chat
            &&& rows.last().last() matches ButtonOf::Callback { data, .. } && data == check_data(
                invoice.invoice_id,
            )
            &&& invoice.pay_url matches Some(address) ==> exists|head: Seq<char>| #[trigger]
                (head + address) == text
            &&& invoice.pay_url matches Some(address) ==> (url_text(address) matches Some(url)
                ==> rows.len() == 2 && (rows[0][0] matches ButtonOf::Url { url: to, .. } && to
                == url))
        },
{
    if invoice.pay_url is Some {
        let address = invoice.pay_url->0;
        let head = ACCESS_INTRO@ + "\n\nСсылка для оплаты: "@;
        assert(head + address =~= payment_text(ACCESS_INTRO@, invoice.pay_url));
    }
}

/// A button that asks about an invoice but names none, or zero, is answered with an alert and
/// nothing else, in the English dialogue once it is acknowledged; any other button of the
/// payments is acknowledged.
pub proof fn bad_invoices_are_told(id: Seq<char>, other: Seq<char>, chat: Option<i64>)
    requires
        parse_i64_text(id) is None || parse_i64_text(id) == Some(0i64),
        other != "pay:start"@,
        !("pay:check:"@.is_prefix_of(other)),
    ensures
        pay_step(Some("pay:check:"@ + id), chat) matches PayStepOf::Do(plan) && plan.len() == 1 && (
        plan[0] matches ActionOf::Answer { note: Some(_), alert } && alert),
        english_step(Some("pay:check:"@ + id), chat) matches PayStepOf::Do(plan) && plan.len() == 2
            && plan[0] == acknowledge_view() && (plan[1] matches ActionOf::Answer {
            note: Some(_),
            alert,
        } && alert),
        pay_step(Some(other), chat) == PayStepView::Do(seq![acknowledge_view()]),
        english_step(Some(other), chat) == PayStepView::Do(seq![acknowledge_view()]),
        pay_step(None, chat) == PayStepView::Do(seq![]),
        english_step(None, chat) == PayStepView::Do(seq![acknowledge_view()]),
{
    let prefix = "pay:check:"@;
    let data = prefix + id;
    assert(prefix.is_prefix_of(data)) by {
        assert(prefix =~= data.subrange(0, prefix.len() as int));
    }
    assert(strip_prefix_text(data, prefix)->0 =~= id);
    reveal_strlit("pay:check:");
    reveal_strlit("pay:start");
    assert(data[4] == 'c');
    assert("pay:start"@[4] == 's');
}

/// A press is replied to in the chat of the button, and without one in that of the user.
pub proof fn replies_go_to_the_chat_of_the_button(pressed: Pressed, from: i64)
    ensures
        reply_chat(Some(pressed), from) == pressed.chat,
        reply_chat(None, from) == from,
{
}

} // verus!
