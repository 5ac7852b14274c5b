//! Looking whether an invoice was paid, and what follows when it was.
use crate::actions::{
    answer, answer_view, only, plain, plain_view, then_do, Action, ActionOf, ActionView,
};
use crate::keyboard::{Markup, MarkupView};
use crate::links::{folders, folders_view};
use crate::numbers::{int_text, int_text_parses_back, parse_i64, parse_i64_text};
use crate::payments::{check_data, Invoice, InvoiceView, Payments};
use crate::text::{join2, same, strip_prefix, strip_prefix_text};
use vstd::prelude::*;

verus! {

/// The user whom a paid invoice is for: its payload, where that is a number.
pub open spec fn payer(invoice: InvoiceView) -> Option<i64> {
    match invoice.payload {
        Some(payload) => parse_i64_text(payload),
        None => None,
    }
}

fn payer_of(invoice: &Invoice) -> (r: Option<i64>)
    ensures
        r == payer(invoice.deep_view()),
{
    match &invoice.payload {
        Some(payload) => parse_i64(payload),
        None => None,
    }
}

/// What a press on a button that checks a payment leads to first.
#[derive(Debug, Clone, PartialEq, Eq)]
pub enum CheckStartOf<P> {
    /// The button is another one: nothing is done.
    Ignored,
    /// This is to be done. The button names no invoice, which is an error.
    BadInvoice { first: P },
    /// This is to be done first, and then an invoice to be looked up.
    LookUp { first: P, invoice_id: i64 },
}

/// What a press on a button that checks a payment leads to first.
pub type CheckStart = CheckStartOf<Vec<Action>>;

/// What a press on a button that checks a payment leads to first.
pub type CheckStartView = CheckStartOf<Seq<ActionView>>;

impl DeepView for CheckStartOf<Vec<Action>> {
    type V = CheckStartView;

    open spec fn deep_view(&self) -> CheckStartView {
        match self {
            CheckStartOf::Ignored => CheckStartOf::Ignored,
            CheckStartOf::BadInvoice { first } => CheckStartOf::BadInvoice {
                first: first.deep_view(),
            },
            CheckStartOf::LookUp { first, invoice_id } => CheckStartOf::LookUp {
                first: first.deep_view(),
                invoice_id: *invoice_id,
            },
        }
    }
}

/// What tells whoever pressed the button that the invoice is looked up.
pub open spec fn checking_plan() -> Seq<ActionView> {
    seq![answer_view("Проверяю платёж..."@)]
}

/// What a press on a button that checks a payment leads to first.
pub open spec fn check_start(data: Option<Seq<char>>) -> CheckStartView {
    match data {
        Some(d) => match strip_prefix_text(d, "pay:check:"@) {
            Some(id) => match parse_i64_text(id) {
                Some(invoice_id) => CheckStartOf::LookUp { first: checking_plan(), invoice_id },
                None => CheckStartOf::BadInvoice { first: checking_plan() },
            },
            None => CheckStartOf::Ignored,
        },
        None => CheckStartOf::Ignored,
    }
}

/// What a paid invoice leads to: the user is subscribed for another month and gets the
/// folders; whoever pressed the button hears of it.
pub open spec fn paid_plan(user: i64, from: i64) -> Seq<ActionView> {
    let granted = seq![
        ActionOf::AddOrRenew { user, months: 1 },
        ActionOf::AppendRecord { user, months: 1 },
        ActionOf::Send {
            chat: user,
            text: "Папки с каналами:"@,
            markup: MarkupView::Inline(folders_view()),
        },
    ];
    let told = if from != user {
        granted.push(plain_view(from, "Платёж обнаружен и подписка продлена."@))
    } else {
        granted
    };
    told.push(answer_view("Платёж оплачен — подписка обновлена."@))
}

/// What the invoice that was looked up leads to.
pub open spec fn check_plan(invoice: Option<InvoiceView>, from: i64) -> Seq<ActionView> {
    match invoice {
        Some(inv) => if inv.status == "paid"@ {
            match payer(inv) {
                Some(user) => paid_plan(user, from),
                None => seq![
                    answer_view("Платёж найден, но не удалось распознать пользователя."@),
                ],
            }
        } else {
            seq![answer_view("Платёж ещё не оплачен."@)]
        },
        None => seq![answer_view("Инвойс не найден."@)],
    }
}

impl Payments {
    /// What a press on a button that checks a payment leads to first.
    pub fn handle_check_callback(&self, data: Option<&str>) -> (r: CheckStart)
        ensures
            r.deep_view() == check_start(data.deep_view()),
    {
        match data {
            Some(d) => match strip_prefix(d, "pay:check:") {
                Some(id) => {
                    let first = only(answer("Проверяю платёж...".to_string()));
                    match parse_i64(&id) {
                        Some(invoice_id) => CheckStartOf::LookUp { first, invoice_id },
                        None => CheckStartOf::BadInvoice { first },
                    }
                },
                None => CheckStartOf::Ignored,
            },
            None => CheckStartOf::Ignored,
        }
    }

    /// What the invoice that was looked up leads to, where `from` pressed the button.
    pub fn checked(&self, invoice: Option<&Invoice>, from: i64) -> (plan: Vec<Action>)
        ensures
            plan.deep_view() == check_plan(invoice.deep_view(), from),
    {
        let mut plan: Vec<Action> = Vec::new();
        assert(plan.deep_view() =~= seq![]);
        match invoice {
            Some(inv) => {
                if same(&inv.status, "paid") {
                    match payer_of(inv) {
                        Some(user) => {
                            then_do(&mut plan, ActionOf::AddOrRenew { user, months: 1 });
                            then_do(&mut plan, ActionOf::AppendRecord { user, months: 1 });
                            then_do(
                                &mut plan,
                                ActionOf::Send {
                                    chat: user,
                                    text: "Папки с каналами:".to_string(),
                                    markup: Markup::Inline(folders()),
                                },
                            );
                            if from != user {
                                then_do(
                                    &mut plan,
                                    plain(
                                        from,
                                        "Платёж обнаружен и подписка продлена.".to_string(),
                                    ),
                                );
                            }
                            then_do(
                                &mut plan,
                                answer("Платёж оплачен — подписка обновлена.".to_string()),
                            );
                            assert(plan.deep_view() =~= paid_plan(user, from));
                        },
                        None => then_do(
                            &mut plan,
                            answer(
                                "Платёж найден, но не удалось распознать пользователя.".to_string(),
                            ),
                        ),
                    }
                } else {
                    then_do(&mut plan, answer("Платёж ещё не оплачен.".to_string()));
                }
            },
            None => then_do(&mut plan, answer("Инвойс не найден.".to_string())),
        }
        assert(plan.deep_view() =~= check_plan(invoice.deep_view(), from));
        plan
    }
}

// ---------------------------------------------------------------------------
// Restoring access
// ---------------------------------------------------------------------------

/// What a user hears whose access is restored.
pub open spec fn restored_text(static_link: Option<Seq<char>>) -> Seq<char> {
    match static_link {
        Some(link) => "Спасибо — доступ восстановлен. Hаш чат: "@ + link,
        None => "Спасибо — доступ восстановлен. Вот ваши кнопки:"@,
    }
}

/// Lifting the ban on a user in each of the chats.
pub open spec fn unban_plan(user: i64, chats: Seq<i64>) -> Seq<ActionView> {
    chats.map_values(|chat: i64| -> ActionView { ActionOf::Unban { chat, user } })
}

/// What restores the access of a user. Without a bot there are neither chats nor
/// messages.
pub open spec fn restore_plan(
    user: i64,
    months: u64,
    with_bot: bool,
    chats: Option<Seq<i64>>,
    buttons: MarkupView,
    static_link: Option<Seq<char>>,
) -> Seq<ActionView> {
    let recorded = seq![
        ActionOf::AddOrRenew { user, months },
        ActionOf::AppendRecord { user, months },
    ];
    if !with_bot {
        recorded
    } else {
        let unbanned = match chats {
            Some(ids) => recorded + unban_plan(user, ids),
            None => recorded,
        };
        unbanned.push(
            ActionOf::Send { chat: user, text: restored_text(static_link), markup: buttons },
        )
    }
}

/// The user whose access an invoice restores: one that is paid and names them.
pub open spec fn restores(invoice: Option<InvoiceView>) -> Option<i64> {
    match invoice {
        Some(inv) => if inv.status == "paid"@ {
            payer(inv)
        } else {
            None
        },
        None => None,
    }
}

impl Payments {
    /// What an invoice that was looked up restores. The user is added to those restored;
    /// without one nothing is done.
    pub fn import_paid_invoices_and_restore(
        &self,
        restored: &mut Vec<i64>,
        invoice: Option<&Invoice>,
        months: u64,
        with_bot: bool,
        unban_chat_ids: Option<&Vec<i64>>,
        folder_buttons: Markup,
        static_link: Option<&str>,
    ) -> (plan: Vec<Action>)
        ensures
            final(restored)@ == (match restores(invoice.deep_view()) {
                Some(user) => old(restored)@.push(user),
                None => old(restored)@,
            }),
            plan.deep_view() == (match restores(invoice.deep_view()) {
                Some(user) => restore_plan(
                    user,
                    months,
                    with_bot,
                    match unban_chat_ids {
                        Some(ids) => Some(ids@),
                        None => None,
                    },
                    folder_buttons.deep_view(),
                    static_link.deep_view(),
                ),
                None => seq![],
            }),
    {
        let mut plan: Vec<Action> = Vec::new();
        assert(plan.deep_view() =~= seq![]);
        let inv = match invoice {
            Some(inv) => inv,
            None => return plan,
        };
        if !same(&inv.status, "paid") {
            return plan;
        }
        let user = match payer_of(inv) {
            Some(user) => user,
            None => return plan,
        };
        then_do(&mut plan, ActionOf::AddOrRenew { user, months });
        then_do(&mut plan, ActionOf::AppendRecord { user, months });
        restored.push(user);
        let ghost recorded: Seq<ActionView> = seq![
            ActionOf::AddOrRenew { user, months },
            ActionOf::AppendRecord { user, months },
        ];
        assert(plan.deep_view() =~= recorded);
        if with_bot {
            match unban_chat_ids {
                Some(ids) => {
                    let ghost all = unban_plan(user, ids@);
                    assert(plan.deep_view() =~= recorded + all.take(0));
                    for i in 0..ids.len()
                        invariant
                            all == unban_plan(user, ids@),
                            plan.deep_view() == recorded + all.take(i as int),
                    {
                        then_do(&mut plan, ActionOf::Unban { chat: ids[i], user });
                        assert(plan.deep_view() =~= recorded + all.take(i + 1));
                    }
                    assert(all.take(all.len() as int) =~= all);
                },
                None => {},
            }
            let text = match static_link {
                Some(link) => join2("Спасибо — доступ восстановлен. Hаш чат: ", link),
                None => "Спасибо — доступ восстановлен. Вот ваши кнопки:".to_string(),
            };
            then_do(&mut plan, ActionOf::Send { chat: user, text, markup: folder_buttons });
        }
        plan
    }
}

// ---------------------------------------------------------------------------
// Laws
// ---------------------------------------------------------------------------

/// Access is granted only for an invoice that is paid and names the user.
pub proof fn only_paid_invoices_subscribe(invoice: Option<InvoiceView>, from: i64, i: int)
    requires
        0 <= i < check_plan(invoice, from).len(),
        check_plan(invoice, from)[i] is AddOrRenew || check_plan(invoice, from)[i] is AppendRecord,
    ensures
        invoice is Some,
        invoice->0.status == "paid"@,
        payer(invoice->0) is Some,
        match check_plan(invoice, from)[i] {
            ActionOf::AddOrRenew { user, .. } => payer(invoice->0) == Some(user),
            ActionOf::AppendRecord { user, .. } => payer(invoice->0) == Some(user),
            _ => false,
        },
{
}

/// The button under an invoice asks about that invoice; the press is acknowledged before
/// it is looked up.
pub proof fn check_button_leads_to_its_invoice(invoice_id: i64)
    ensures
        check_start(Some(check_data(invoice_id))) == (CheckStartOf::LookUp {
            first: checking_plan(),
            invoice_id,
        }),
{
    let prefix = "pay:check:"@;
    let id = int_text(invoice_id as int);
    int_text_parses_back(invoice_id);
    assert(prefix.is_prefix_of(prefix + id));
    assert(strip_prefix_text(prefix + id, prefix)->0 =~= id);
}

/// An invoice that carries the id of a user is theirs.
pub proof fn payload_names_the_payer(invoice: InvoiceView, user: i64)
    requires
        invoice.payload == Some(int_text(user as int)),
    ensures
        payer(invoice) == Some(user),
{
    int_text_parses_back(user);
}

/// A check of a payment always ends with word on what was found.
pub proof fn check_ends_with_answer(invoice: Option<InvoiceView>, from: i64)
    ensures
        check_plan(invoice, from).len() > 0,
        check_plan(invoice, from).last() matches ActionOf::Answer { note: Some(_), .. },
{
}

/// A paid invoice that names a user subscribes that user, and nobody else, for one month,
/// puts that into the ledger, and sends them the folders; whoever asked hears of it, in a
/// message of their own where they are someone else.
pub proof fn paid_invoice_subscribes_its_user(invoice: InvoiceView, user: i64, from: i64)
    requires
        invoice.status == "paid"@,
        invoice.payload == Some(int_text(user as int)),
    ensures
        ({
            let plan = check_plan(Some(invoice), from);
            &&& plan.contains(ActionOf::AddOrRenew { user, months: 1 })
            &&& plan.contains(ActionOf::AppendRecord { user, months: 1 })
            &&& exists|i: int|
                0 <= i < plan.len() && (#[trigger] plan[i] matches ActionOf::Send {
                    chat,
                    markup,
                    ..
                } && chat == user && markup == MarkupView::Inline(folders_view()))
            &&& (exists|i: int|
                0 <= i < plan.len() && (#[trigger] plan[i] matches ActionOf::Send { chat, .. }
                    && chat == from))
            &&& plan.last() is Answer
            &&& forall|i: int|
                0 <= i < plan.len() ==> match #[trigger] plan[i] {
                    ActionOf::AddOrRenew { user: u, months } => u == user && months == 1,
                    ActionOf::AppendRecord { user: u, months } => u == user && months == 1,
                    ActionOf::Send { chat, .. } => chat == user || chat == from,
                    ActionOf::Answer { .. } => true,
                    _ => false,
                }
        }),
{
    int_text_parses_back(user);
    let plan = check_plan(Some(invoice), from);
    assert(plan[0] == ActionView::AddOrRenew { user, months: 1 });
    assert(plan[1] == ActionView::AppendRecord { user, months: 1 });
    assert(plan[2] is Send);
    if from != user {
        assert(plan[3] is Send);
    }
}

/// An invoice that is not paid, or is not there, leads to word to whoever asked, and to
/// nothing else.
pub proof fn unpaid_invoice_changes_nothing(invoice: Option<InvoiceView>, from: i64)
    requires
        invoice matches Some(inv) ==> inv.status != "paid"@,
    ensures
        check_plan(invoice, from).len() == 1,
        check_plan(invoice, from)[0] is Answer,
        restores(invoice) is None,
{
}

proof fn lemma_unbans(user: i64, chats: Seq<i64>, chat: i64)
    ensures
        unban_plan(user, chats).contains(ActionOf::Unban { chat, user }) <==> chats.contains(chat),
        unban_plan(user, chats).len() == chats.len(),
{
    let plan = unban_plan(user, chats);
    if plan.contains(ActionOf::Unban { chat, user }) {
        let i = choose|i: int|
            0 <= i < plan.len() && plan[i] == ActionView::Unban { chat, user };
        assert(chats[i] == chat);
    }
    if chats.contains(chat) {
        let i = choose|i: int| 0 <= i < chats.len() && chats[i] == chat;
        assert(plan[i] == ActionView::Unban { chat, user });
    }
}

/// A paid invoice that names a user restores the access of that user: the months are added
/// and recorded; with a bot, the ban is lifted in every chat of the list and nowhere else,
/// and the user gets one message, with the buttons; without a bot there is neither.
pub proof fn paid_invoice_restores_access(
    invoice: InvoiceView,
    user: i64,
    months: u64,
    with_bot: bool,
    chats: Seq<i64>,
    buttons: MarkupView,
    static_link: Option<Seq<char>>,
    chat: i64,
)
    requires
        invoice.status == "paid"@,
        invoice.payload == Some(int_text(user as int)),
    ensures
        restores(Some(invoice)) == Some(user),
        ({
            let plan = restore_plan(user, months, with_bot, Some(chats), buttons, static_link);
            &&& plan[0] == ActionView::AddOrRenew { user, months }
            &&& plan[1] == ActionView::AppendRecord { user, months }
            &&& plan.contains(ActionOf::Unban { chat, user }) <==> with_bot && chats.contains(chat)
            &&& plan.len() == if with_bot {
                chats.len() + 3
            } else {
                2
            }
            &&& with_bot ==> (plan.last() matches ActionOf::Send { chat: to, text, markup } && to
                == user && markup == buttons && (static_link matches Some(link) ==> exists|
                head: Seq<char>,
            | #[trigger] (head + link) == text))
        }),
{
    int_text_parses_back(user);
    lemma_unbans(user, chats, chat);
    let unbans = unban_plan(user, chats);
    let plan = restore_plan(user, months, with_bot, Some(chats), buttons, static_link);
    let target = ActionView::Unban { chat, user };
    if with_bot {
        assert forall|i: int| 0 <= i < unbans.len() implies #[trigger] plan[i + 2]
            == unbans[i] by {}
        if unbans.contains(target) {
            let i = choose|i: int| 0 <= i < unbans.len() && unbans[i] == target;
            assert(plan[i + 2] == target);
        }
        if plan.contains(target) {
            let k = choose|k: int| 0 <= k < plan.len() && plan[k] == target;
            assert(2 <= k < plan.len() - 1);
            assert(plan[k - 2 + 2] == unbans[k - 2]);
        }
        if static_link is Some {
            assert("Спасибо — доступ восстановлен. Hаш чат: "@ + static_link->0 == restored_text(
                static_link,
            ));
        }
    }
}

/// A button that asks about an invoice but names none is an error, once the press is
/// acknowledged; any other button is left alone.
pub proof fn other_buttons_are_left_alone(id: Seq<char>, other: Seq<char>)
    requires
        parse_i64_text(id) is None,
        !("pay:check:"@.is_prefix_of(other)),
    ensures
        check_start(Some("pay:check:"@ + id)) == (CheckStartView::BadInvoice {
            first: checking_plan(),
        }),
        check_start(Some(other)) is Ignored,
        check_start(None) is Ignored,
        checking_plan().len() == 1,
        checking_plan()[0] is Answer,
{
    let prefix = "pay:check:"@;
    let data = prefix + id;
    assert(prefix.is_prefix_of(data)) by {
        assert(prefix =~= data.subrange(0, prefix.len() as int));
    }
    assert(strip_prefix_text(data, prefix)->0 =~= id);
}

} // verus!
