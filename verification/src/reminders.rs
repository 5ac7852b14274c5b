//! Reminding subscribers that their subscription is about to expire.
use crate::actions::{plain, plain_view, Action, ActionOf, ActionView};
use crate::keyboard::{ButtonOf, Markup, MarkupView};
use crate::ledger::{latest_expiries, ledger_items};
use crate::links::url_text;
use crate::numbers::{int_text, show_i64};
use crate::payments::{
    check_data, invoice_keyboard, invoice_rows, invoice_url, url_of_invoice, Invoice, InvoiceView,
    Payments,
};
use crate::pruning::{expiry_list, lists_all};
use crate::subscribers::capped;
use crate::text::join3;
use vstd::prelude::*;

verus! {

/// How long before the expiry a reminder is due: three days, in seconds.
pub const REMINDER_WINDOW_SECS: u64 = 259_200;

/// What a reminder says.
pub const REMINDER_TEXT: &'static str =
    "Ваша подписка истекает через 3 дня, пожалуйста оплатите, чтобы продолжить пользоваться нашими услугами";

/// A reminder that was sent.
#[derive(Debug, Clone, Copy, PartialEq, Eq)]
pub struct ReminderRecord {
    pub user_id: i64,
    pub expires_at: u64,
}

/// Whether a user was reminded of an expiry.
pub open spec fn was_reminded(sent: Seq<ReminderRecord>, user: i64, expires: u64) -> bool {
    exists|i: int|
        0 <= i < sent.len() && (#[trigger] sent[i]).user_id == user && sent[i].expires_at == expires
}

/// Whether a reminder of an expiry is due: it is ahead, by three days at most, and the
/// user was not reminded of it.
pub open spec fn is_due(sent: Seq<ReminderRecord>, user: i64, expires: u64, now: u64) -> bool {
    &&& now < expires <= capped(now + REMINDER_WINDOW_SECS)
    &&& !was_reminded(sent, user, expires)
}

/// Those of the first `n` listed users to remind.
pub open spec fn due_of(
    list: Seq<(i64, u64)>,
    sent: Seq<ReminderRecord>,
    now: u64,
    n: nat,
) -> Seq<(i64, u64)>
    decreases n,
{
    if n == 0 {
        seq![]
    } else {
        let before = due_of(list, sent, now, (n - 1) as nat);
        if is_due(sent, list[n - 1].0, list[n - 1].1, now) {
            before.push(list[n - 1])
        } else {
            before
        }
    }
}

fn reminded(sent: &Vec<ReminderRecord>, user: i64, expires: u64) -> (r: bool)
    ensures
        r == was_reminded(sent@, user, expires),
{
    for i in 0..sent.len()
        invariant
            forall|j: int|
                0 <= j < i ==> !((#[trigger] sent@[j]).user_id == user && sent@[j].expires_at
                    == expires),
    {
        if sent[i].user_id == user && sent[i].expires_at == expires {
            return true;
        }
    }
    false
}

/// The listed users to remind, with the expiry to remind them of.
pub fn due_reminders(list: &Vec<(i64, u64)>, sent: &Vec<ReminderRecord>, now: u64) -> (r: Vec<
    (i64, u64),
>)
    ensures
        r@ == due_of(list@, sent@, now, list@.len()),
{
    let end = now.saturating_add(REMINDER_WINDOW_SECS);
    let mut out: Vec<(i64, u64)> = Vec::new();
    for i in 0..list.len()
        invariant
            end == capped(now + REMINDER_WINDOW_SECS),
            out@ == due_of(list@, sent@, now, i as nat),
    {
        let (user, expires) = list[i];
        if expires > now && expires <= end && !reminded(sent, user, expires) {
            out.push((user, expires));
        }
    }
    out
}

/// Whether a list holds each user of a map once to whom a reminder is due, with their
/// expiry, and nobody else.
pub open spec fn holds_due(
    due: Seq<(i64, u64)>,
    latest: Map<i64, u64>,
    sent: Seq<ReminderRecord>,
    now: u64,
) -> bool {
    &&& due.no_duplicates()
    &&& forall|user: i64, expires: u64| #[trigger]
        due.contains((user, expires)) <==> latest.contains_key(user) && latest[user] == expires
            && is_due(sent, user, expires, now)
}

proof fn lemma_due(list: Seq<(i64, u64)>, sent: Seq<ReminderRecord>, now: u64, n: nat)
    requires
        n <= list.len(),
        list.no_duplicates(),
    ensures
        due_of(list, sent, now, n).no_duplicates(),
        forall|pair: (i64, u64)| #[trigger]
            due_of(list, sent, now, n).contains(pair) <==> list.take(n as int).contains(pair)
                && is_due(sent, pair.0, pair.1, now),
    decreases n,
{
    if n > 0 {
        lemma_due(list, sent, now, (n - 1) as nat);
        let before = due_of(list, sent, now, (n - 1) as nat);
        let after = due_of(list, sent, now, n);
        let some = list.take(n - 1);
        let more = list.take(n as int);
        assert(more =~= some.push(list[n - 1]));
        assert forall|pair: (i64, u64)| #[trigger] after.contains(pair) <==> more.contains(pair)
            && is_due(sent, pair.0, pair.1, now) by {
            if before.contains(pair) {
                let k = choose|k: int| 0 <= k < before.len() && before[k] == pair;
                assert(after[k] == pair);
                let j = choose|j: int| 0 <= j < some.len() && some[j] == pair;
                assert(more[j] == pair);
            }
            if pair == list[n - 1] && is_due(sent, pair.0, pair.1, now) {
                assert(after[after.len() - 1] == pair);
                assert(more[n - 1] == pair);
            }
            if more.contains(pair) {
                let j = choose|j: int| 0 <= j < more.len() && more[j] == pair;
                if j < n - 1 {
                    assert(some[j] == pair);
                }
            }
        }
        if is_due(sent, list[n - 1].0, list[n - 1].1, now) {
            assert(!before.contains(list[n - 1])) by {
                if some.contains(list[n - 1]) {
                    let j = choose|j: int| 0 <= j < some.len() && some[j] == list[n - 1];
                    assert(list[j] == list[n - 1]);
                }
            }
        }
    }
}

/// Whatever order the users come in, those to remind are those to whom a reminder is
/// due, each once.
pub proof fn due_are_found(
    list: Seq<(i64, u64)>,
    latest: Map<i64, u64>,
    sent: Seq<ReminderRecord>,
    now: u64,
)
    requires
        lists_all(list, latest),
    ensures
        holds_due(due_of(list, sent, now, list.len()), latest, sent, now),
{
    lemma_due(list, sent, now, list.len());
    assert(list.take(list.len() as int) =~= list);
    let due = due_of(list, sent, now, list.len());
    assert forall|user: i64, expires: u64| #[trigger]
        due.contains((user, expires)) <==> latest.contains_key(user) && latest[user] == expires
            && is_due(sent, user, expires, now) by {
        if list.contains((user, expires)) {
            let i = choose|i: int| 0 <= i < list.len() && list[i] == (user, expires);
            assert(list[i].0 == user);
        }
    }
}

// ---------------------------------------------------------------------------
// The messages
// ---------------------------------------------------------------------------

/// The text of a reminder: with the link of an invoice, if it has one.
pub open spec fn reminder_text(invoice: InvoiceView) -> Seq<char> {
    match invoice.pay_url {
        Some(url) => REMINDER_TEXT@ + "\n\nСсылка для оплаты:\n"@ + url,
        None => REMINDER_TEXT@,
    }
}

/// The reminder to a user: with the invoice that was created for them, if that
/// succeeded.
pub open spec fn reminder_view(user: i64, invoice: Option<InvoiceView>) -> ActionView {
    match invoice {
        Some(inv) => ActionOf::Send {
            chat: user,
            text: reminder_text(inv),
            markup: MarkupView::Inline(
                invoice_rows("Продлить подписку"@, invoice_url(inv), inv.invoice_id),
            ),
        },
        None => plain_view(user, REMINDER_TEXT@),
    }
}

/// The reminder to a user: with the invoice that was created for them, if that
/// succeeded.
pub fn reminder(user: i64, invoice: Option<&Invoice>) -> (r: Action)
    ensures
        r.deep_view() == reminder_view(user, invoice.deep_view()),
{
    match invoice {
        Some(inv) => {
            let text = match &inv.pay_url {
                Some(url) => join3(REMINDER_TEXT, "\n\nСсылка для оплаты:\n", url),
                None => REMINDER_TEXT.to_string(),
            };
            let keyboard = invoice_keyboard(
                "Продлить подписку".to_string(),
                url_of_invoice(inv),
                inv.invoice_id,
            );
            ActionOf::Send { chat: user, text, markup: Markup::Inline(keyboard) }
        },
        None => plain(user, REMINDER_TEXT.to_string()),
    }
}

/// What an invoice for a user carries: their id.
pub fn reminder_payload(user: i64) -> (r: String)
    ensures
        r@ == int_text(user as int),
{
    show_i64(user)
}

// ---------------------------------------------------------------------------
// Keeping track
// ---------------------------------------------------------------------------

/// The users among the first `n` to whom a reminder was delivered.
pub open spec fn delivered_to(due: Seq<(i64, u64)>, delivered: Seq<bool>, n: nat) -> Seq<i64>
    decreases n,
{
    if n == 0 {
        seq![]
    } else {
        let before = delivered_to(due, delivered, (n - 1) as nat);
        if n <= delivered.len() && delivered[n - 1] {
            before.push(due[n - 1].0)
        } else {
            before
        }
    }
}

/// The reminders that were sent, with those among the first `n` that were delivered.
pub open spec fn with_delivered(
    sent: Seq<ReminderRecord>,
    due: Seq<(i64, u64)>,
    delivered: Seq<bool>,
    n: nat,
) -> Seq<ReminderRecord>
    decreases n,
{
    if n == 0 {
        sent
    } else {
        let before = with_delivered(sent, due, delivered, (n - 1) as nat);
        if n <= delivered.len() && delivered[n - 1] {
            before.push(ReminderRecord { user_id: due[n - 1].0, expires_at: due[n - 1].1 })
        } else {
            before
        }
    }
}

/// Adds the reminders that were delivered to those that were sent, given the outcome of
/// each. Says whom they went to.
pub fn keep_delivered(
    sent: &mut Vec<ReminderRecord>,
    due: &Vec<(i64, u64)>,
    delivered: &Vec<bool>,
) -> (r: Vec<i64>)
    ensures
        r@ == delivered_to(due@, delivered@, due@.len()),
        final(sent)@ == with_delivered(old(sent)@, due@, delivered@, due@.len()),
{
    let ghost before = sent@;
    let mut out: Vec<i64> = Vec::new();
    for i in 0..due.len()
        invariant
            out@ == delivered_to(due@, delivered@, i as nat),
            sent@ == with_delivered(before, due@, delivered@, i as nat),
    {
        if i < delivered.len() && delivered[i] {
            let (user_id, expires_at) = due[i];
            out.push(user_id);
            sent.push(ReminderRecord { user_id, expires_at });
        }
    }
    out
}

impl Payments {
    /// The users to remind now, with the expiry to remind them of: those whose latest
    /// expiry in the ledger is at most three days ahead and who were not reminded of it.
    /// In which order they come is not fixed.
    pub fn send_expiry_reminders(
        &self,
        ledger: Option<&str>,
        sent: &Vec<ReminderRecord>,
        now: u64,
    ) -> (r: Vec<(i64, u64)>)
        ensures
            holds_due(r@, latest_expiries(ledger_items(ledger.deep_view())), sent@, now),
    {
        let latest = self.load_latest_expiries_from_subs(ledger);
        let list = expiry_list(&latest);
        proof {
            due_are_found(list@, latest@, sent@, now);
        }
        due_reminders(&list, sent, now)
    }
}

// ---------------------------------------------------------------------------
// Laws
// ---------------------------------------------------------------------------

proof fn lemma_delivered(
    sent: Seq<ReminderRecord>,
    due: Seq<(i64, u64)>,
    delivered: Seq<bool>,
    n: nat,
)
    requires
        n <= due.len(),
    ensures
        forall|user: i64, expires: u64| #[trigger]
            was_reminded(sent, user, expires) ==> was_reminded(
                with_delivered(sent, due, delivered, n),
                user,
                expires,
            ),
        forall|i: int|
            0 <= i < n && i < delivered.len() && delivered[i] ==> was_reminded(
                with_delivered(sent, due, delivered, n),
                (#[trigger] due[i]).0,
                due[i].1,
            ),
    decreases n,
{
    if n > 0 {
        lemma_delivered(sent, due, delivered, (n - 1) as nat);
        let before = with_delivered(sent, due, delivered, (n - 1) as nat);
        let after = with_delivered(sent, due, delivered, n);
        assert forall|user: i64, expires: u64| #[trigger]
            was_reminded(before, user, expires) implies was_reminded(after, user, expires) by {
            let k = choose|k: int|
                0 <= k < before.len() && (#[trigger] before[k]).user_id == user
                    && before[k].expires_at == expires;
            assert(after[k] == before[k]);
        }
        if n <= delivered.len() && delivered[n - 1] {
            assert(after[after.len() - 1].user_id == due[n - 1].0);
        }
    }
}

/// Nobody is reminded twice of the same expiry: once a reminder was delivered, it is
/// never due again.
pub proof fn delivered_is_not_due_again(
    sent: Seq<ReminderRecord>,
    due: Seq<(i64, u64)>,
    delivered: Seq<bool>,
    i: int,
    later: u64,
)
    requires
        0 <= i < due.len(),
        i < delivered.len(),
        delivered[i],
    ensures
        !is_due(with_delivered(sent, due, delivered, due.len()), due[i].0, due[i].1, later),
{
    lemma_delivered(sent, due, delivered, due.len());
}

/// What was sent stays on record.
pub proof fn sent_stays(
    sent: Seq<ReminderRecord>,
    due: Seq<(i64, u64)>,
    delivered: Seq<bool>,
    user: i64,
    expires: u64,
)
    requires
        was_reminded(sent, user, expires),
    ensures
        was_reminded(with_delivered(sent, due, delivered, due.len()), user, expires),
{
    lemma_delivered(sent, due, delivered, due.len());
}

/// A user is reminded of their latest expiry if it is ahead, by three days at most, and
/// no reminder on record has both that user and that expiry; reminders of other expiries
/// of theirs, and those of other users, do not matter. Nobody else is reminded, and
/// nobody of anything else.
pub proof fn reminders_go_by_user_and_expiry(
    due: Seq<(i64, u64)>,
    latest: Map<i64, u64>,
    sent: Seq<ReminderRecord>,
    now: u64,
    user: i64,
    expires: u64,
)
    requires
        holds_due(due, latest, sent, now),
    ensures
        due.no_duplicates(),
        due.contains((user, expires)) <==> {
            &&& latest.contains_key(user)
            &&& latest[user] == expires
            &&& now < expires
            &&& expires - now <= 3 * 24 * 60 * 60
            &&& !sent.contains(ReminderRecord { user_id: user, expires_at: expires })
        },
{
    let record = ReminderRecord { user_id: user, expires_at: expires };
    if sent.contains(record) {
        let i = choose|i: int| 0 <= i < sent.len() && sent[i] == record;
        assert(sent[i].user_id == user);
    }
    if was_reminded(sent, user, expires) {
        let i = choose|i: int|
            0 <= i < sent.len() && (#[trigger] sent[i]).user_id == user && sent[i].expires_at
                == expires;
        assert(sent[i] == record);
    }
}

/// Each user is reminded once at most at a time.
pub proof fn one_reminder_for_each_user(
    due: Seq<(i64, u64)>,
    latest: Map<i64, u64>,
    sent: Seq<ReminderRecord>,
    now: u64,
    i: int,
    j: int,
)
    requires
        holds_due(due, latest, sent, now),
        0 <= i < j < due.len(),
    ensures
        due[i].0 != due[j].0,
{
    assert(due.contains((due[i].0, due[i].1)));
    assert(due.contains((due[j].0, due[j].1)));
}

/// What was delivered is put on record behind what was there, with the user and the
/// expiry that it was due for, and nothing else is; those who got it are told in order.
pub proof fn only_delivered_reminders_are_kept(
    sent: Seq<ReminderRecord>,
    due: Seq<(i64, u64)>,
    delivered: Seq<bool>,
    record: ReminderRecord,
)
    requires
        due.len() == delivered.len(),
    ensures
        sent.is_prefix_of(with_delivered(sent, due, delivered, due.len())),
        with_delivered(sent, due, delivered, due.len()).contains(record) <==> sent.contains(record)
            || exists|i: int|
            0 <= i < due.len() && delivered[i] && #[trigger] due[i] == (
            record.user_id, record.expires_at),
        with_delivered(sent, due, delivered, due.len()).len() == sent.len() + delivered_to(
            due,
            delivered,
            due.len(),
        ).len(),
        forall|i: int|
            0 <= i < due.len() && delivered[i] ==> delivered_to(
                due,
                delivered,
                due.len(),
            ).contains((#[trigger] due[i]).0),
        forall|k: int|
            0 <= k < delivered_to(due, delivered, due.len()).len() ==> exists|i: int|
                0 <= i < due.len() && delivered[i] && (#[trigger] due[i]).0
                    == #[trigger] delivered_to(due, delivered, due.len())[k],
{
    lemma_kept(sent, due, delivered, due.len(), record);
}

proof fn lemma_kept(
    sent: Seq<ReminderRecord>,
    due: Seq<(i64, u64)>,
    delivered: Seq<bool>,
    n: nat,
    record: ReminderRecord,
)
    requires
        due.len() == delivered.len(),
        n <= due.len(),
    ensures
        sent.is_prefix_of(with_delivered(sent, due, delivered, n)),
        with_delivered(sent, due, delivered, n).contains(record) <==> sent.contains(record)
            || exists|i: int|
            0 <= i < n && delivered[i] && #[trigger] due[i] == (
            record.user_id, record.expires_at),
        with_delivered(sent, due, delivered, n).len() == sent.len() + delivered_to(
            due,
            delivered,
            n,
        ).len(),
        forall|i: int|
            0 <= i < n && delivered[i] ==> delivered_to(due, delivered, n).contains(
                (#[trigger] due[i]).0,
            ),
        forall|k: int|
            0 <= k < delivered_to(due, delivered, n).len() ==> exists|i: int|
                0 <= i < n && delivered[i] && (#[trigger] due[i]).0 == #[trigger] delivered_to(
                    due,
                    delivered,
                    n,
                )[k],
    decreases n,
{
    if n > 0 {
        let m = (n - 1) as nat;
        lemma_kept(sent, due, delivered, m, record);
        let before = with_delivered(sent, due, delivered, m);
        let after = with_delivered(sent, due, delivered, n);
        let got = delivered_to(due, delivered, m);
        let all = delivered_to(due, delivered, n);
        if before.contains(record) {
            let k = choose|k: int| 0 <= k < before.len() && before[k] == record;
            assert(after[k] == record);
        }
        if delivered[n - 1] {
            assert(after[after.len() - 1] == ReminderRecord {
                user_id: due[n - 1].0,
                expires_at: due[n - 1].1,
            });
            assert(all[all.len() - 1] == due[n - 1].0);
        }
        if after.contains(record) && !before.contains(record) {
            assert(due[n - 1] == (record.user_id, record.expires_at));
        }
        assert forall|i: int| 0 <= i < n && delivered[i] implies all.contains(
            (#[trigger] due[i]).0,
        ) by {
            if i < n - 1 {
                assert(got.contains(due[i].0));
                let k = choose|k: int| 0 <= k < got.len() && got[k] == due[i].0;
                assert(all[k] == due[i].0);
            }
        }
        assert forall|k: int| 0 <= k < all.len() implies exists|i: int|
            0 <= i < n && delivered[i] && (#[trigger] due[i]).0 == #[trigger] all[k] by {
            if k < got.len() {
                assert(all[k] == got[k]);
                let i = choose|i: int|
                    0 <= i < n - 1 && delivered[i] && (#[trigger] due[i]).0 == got[k];
                assert(due[i].0 == all[k]);
            } else {
                assert(due[n - 1].0 == all[k]);
            }
        }
    }
}

/// A reminder goes to the user that it is for. With an invoice it has a button that asks
/// about that invoice, and where the invoice has an address it gives it; where that is a URL
/// a button leads there. Without an invoice it is the same text alone.
pub proof fn reminders_can_be_paid(user: i64, invoice: InvoiceView)
    ensures
        reminder_view(user, Some(invoice)) matches ActionOf::Send {
            chat,
            text,
            markup: MarkupView::Inline(rows),
        } && {
            &&& chat == user
            &&& REMINDER_TEXT@.is_prefix_of(text)
            &&& rows.last().last() matches ButtonOf::Callback { data, .. } && data == check_data(
                invoice.invoice_id,
            )
            &&& invoice.pay_url matches Some(address) ==> exists|head: Seq<char>| #[trigger]
                (head + address) == text
            &&& invoice.pay_url matches Some(address) ==> (url_text(address) matches Some(url)
                ==> rows.len() == 2 && (rows[0][0] matches ButtonOf::Url { url: to, .. } && to
                == url))
        },
        reminder_view(user, None) == plain_view(user, REMINDER_TEXT@),
{
    let text = reminder_text(invoice);
    assert(REMINDER_TEXT@ =~= text.subrange(0, REMINDER_TEXT@.len() as int));
    if invoice.pay_url is Some {
        let head = REMINDER_TEXT@ + "\n\nСсылка для оплаты:\n"@;
        assert(head + invoice.pay_url->0 =~= text);
    }
}

} // verus!
