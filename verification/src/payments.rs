//! Payments: the configuration, the buttons, and talking to the payment service.
use crate::json;
use crate::json::{json_view, JsonView};
use crate::keyboard::{
    callback, callback_view, link, push_row, row1, url_view, ButtonOf, ButtonView,
    InlineKeyboardButton, InlineKeyboardMarkup, InlineView,
};
use crate::links::{parse_url, url_text};
use crate::numbers::{int_text, nat_text, show_i64, show_u64};
use crate::text::{
    ascii_lowercase, ascii_lowercase_text, has_none, join2, join3, same, split, split_of_first,
    split_text, trim, trim_text, CharKind,
};
use serde_json::Value;
use vstd::prelude::*;

verus! {

/// The address of the payment service.
pub const API_BASE: &'static str = "https://pay.crypt.bot/api";

/// What is asked for unless configured otherwise.
pub const DEFAULT_ASSET: &'static str = "USDT";

/// How much is asked for unless configured otherwise.
pub const DEFAULT_AMOUNT: &'static str = "42";

/// The file whose existence turns payments off.
pub const DISABLED_MARKER: &'static str = "data/payments.disabled";

/// Someone who has paid.
#[derive(Debug, Clone, PartialEq, Eq)]
pub struct Subscriber {
    pub user_id: i64,
    pub username: Option<String>,
    /// Seconds since the epoch.
    pub added_at: u64,
    /// Seconds since the epoch; without it the subscription never expires.
    pub expires_at: Option<u64>,
}

/// Someone who has paid.
pub struct SubscriberView {
    pub user_id: i64,
    pub username: Option<Seq<char>>,
    pub added_at: u64,
    pub expires_at: Option<u64>,
}

impl DeepView for Subscriber {
    type V = SubscriberView;

    open spec fn deep_view(&self) -> SubscriberView {
        SubscriberView {
            user_id: self.user_id,
            username: self.username.deep_view(),
            added_at: self.added_at,
            expires_at: self.expires_at,
        }
    }
}

/// An invoice of the payment service.
#[derive(Debug, Clone, PartialEq, Eq)]
pub struct Invoice {
    pub invoice_id: i64,
    pub status: String,
    pub pay_url: Option<String>,
    pub payload: Option<String>,
}

/// An invoice of the payment service.
pub struct InvoiceView {
    pub invoice_id: i64,
    pub status: Seq<char>,
    pub pay_url: Option<Seq<char>>,
    pub payload: Option<Seq<char>>,
}

impl DeepView for Invoice {
    type V = InvoiceView;

    open spec fn deep_view(&self) -> InvoiceView {
        InvoiceView {
            invoice_id: self.invoice_id,
            status: self.status@,
            pay_url: self.pay_url.deep_view(),
            payload: self.payload.deep_view(),
        }
    }
}

/// How payments are configured.
#[derive(Debug, Clone, PartialEq, Eq)]
pub struct Payments {
    pub token: String,
    pub asset: String,
    pub amount: String,
    /// Whether payments are on whatever the marker file says.
    pub enabled_env: Option<bool>,
}

/// The switch that a setting stands for: what precedes a `#`, trimmed and in lowercase.
pub open spec fn switch_of(raw: Seq<char>) -> Option<bool> {
    let v = ascii_lowercase_text(trim_text(split_text(raw, CharKind::Hash)[0]));
    if v == "1"@ || v == "true"@ || v == "on"@ {
        Some(true)
    } else if v == "0"@ || v == "false"@ || v == "off"@ {
        Some(false)
    } else {
        None
    }
}

/// The switch that a setting stands for.
pub fn parse_switch(raw: &str) -> (r: Option<bool>)
    ensures
        r == switch_of(raw@),
{
    let parts = split(raw, CharKind::Hash);
    assert(split_text(raw@, CharKind::Hash).len() > 0);
    assert(parts.deep_view()[0] == parts@[0]@);
    let v = ascii_lowercase(&trim(&parts[0]));
    if same(&v, "1") || same(&v, "true") || same(&v, "on") {
        Some(true)
    } else if same(&v, "0") || same(&v, "false") || same(&v, "off") {
        Some(false)
    } else {
        None
    }
}

/// Why payments cannot be configured.
#[derive(Debug, Clone, PartialEq, Eq)]
pub enum ConfigError {
    /// There is no token for the payment service.
    TokenMissing,
}

/// Whether payments are as the environment configures them.
pub open spec fn is_configured(
    p: Payments,
    token: Option<String>,
    asset: Option<String>,
    amount: Option<String>,
    enabled: Option<String>,
) -> bool {
    &&& token is Some
    &&& p.token == token->0
    &&& p.asset@ == (match asset {
        Some(a) => a@,
        None => DEFAULT_ASSET@,
    })
    &&& p.amount@ == (match amount {
        Some(a) => a@,
        None => DEFAULT_AMOUNT@,
    })
    &&& p.enabled_env == (match enabled {
        Some(raw) => switch_of(raw@),
        None => None,
    })
}

impl Payments {
    /// Payments as the environment configures them. Without a token there are none.
    pub fn new_from_env(
        token: Option<String>,
        asset: Option<String>,
        amount: Option<String>,
        enabled: Option<String>,
    ) -> (r: Result<Payments, ConfigError>)
        ensures
            r is Err <==> token is None,
            r matches Ok(p) ==> is_configured(p, token, asset, amount, enabled),
    {
        let token = match token {
            Some(t) => t,
            None => return Err(ConfigError::TokenMissing),
        };
        let asset = match asset {
            Some(a) => a,
            None => DEFAULT_ASSET.to_string(),
        };
        let amount = match amount {
            Some(a) => a,
            None => DEFAULT_AMOUNT.to_string(),
        };
        let enabled_env = match enabled {
            Some(raw) => parse_switch(&raw),
            None => None,
        };
        Ok(Payments { token, asset, amount, enabled_env })
    }

    /// Whether payments are on: as configured, else unless the marker file exists.
    pub open spec fn is_on(self, marker_exists: bool) -> bool {
        match self.enabled_env {
            Some(flag) => flag,
            None => !marker_exists,
        }
    }

    /// Whether payments are on, given whether the marker file exists.
    pub fn enabled(&self, marker_exists: bool) -> (r: bool)
        ensures
            r == self.is_on(marker_exists),
    {
        match self.enabled_env {
            Some(flag) => flag,
            None => !marker_exists,
        }
    }

    /// Whether the marker file exists after payments were told to be off.
    pub open spec fn marker_after_disable(self, marker_exists: bool) -> bool {
        marker_exists || self.enabled_env != Some(true)
    }

    /// Whether the marker file is to be written to turn payments off: not where the
    /// configuration keeps them on.
    pub fn disable_now(&self) -> (write: bool)
        ensures
            write == (self.enabled_env != Some(true)),
            forall|marker_exists: bool|
                #[trigger] self.marker_after_disable(marker_exists) == (marker_exists || write),
    {
        match self.enabled_env {
            Some(true) => false,
            _ => true,
        }
    }

    /// Whether the marker file is to be removed to turn payments on.
    pub fn enable_now(&self, marker_exists: bool) -> (remove: bool)
        ensures
            remove == marker_exists,
    {
        marker_exists
    }

    /// Where the subscribers are kept.
    pub fn subscribers_path(&self) -> (r: String)
        ensures
            r@ == "data/subscribers.json"@,
    {
        "data/subscribers.json".to_string()
    }

    /// Where the reminders are kept that were sent.
    pub fn reminders_path(&self) -> (r: String)
        ensures
            r@ == "data/reminders.json"@,
    {
        "data/reminders.json".to_string()
    }

    /// Where the ledger of payments is kept, below the working directory.
    pub fn src_subs_path(&self) -> (r: String)
        ensures
            r@ == "src/subs.json"@,
    {
        "src/subs.json".to_string()
    }
}

/// Payments told to be off are off, unless the configuration keeps them on.
pub proof fn disabled_payments_are_off(p: Payments, marker_exists: bool)
    ensures
        p.is_on(p.marker_after_disable(marker_exists)) <==> p.enabled_env == Some(true),
{
}

/// Payments told to be on, which removes the marker file, are on, unless the
/// configuration keeps them off.
pub proof fn enabled_payments_are_on(p: Payments)
    ensures
        p.is_on(false) <==> p.enabled_env != Some(false),
{
}

// ---------------------------------------------------------------------------
// Buttons
// ---------------------------------------------------------------------------

/// The label of the button that pays.
pub open spec fn pay_label(p: Payments) -> Seq<char> {
    "Оплатить "@ + p.amount@ + " "@ + p.asset@
}

/// What the button sends that asks whether an invoice was paid.
pub open spec fn check_data(invoice_id: i64) -> Seq<char> {
    "pay:check:"@ + int_text(invoice_id as int)
}

/// The button that asks whether an invoice was paid.
pub open spec fn check_button_view(invoice_id: i64) -> ButtonView {
    callback_view("Я оплатил — проверить"@, check_data(invoice_id))
}

/// What the button sends that asks whether an invoice was paid.
pub fn check_callback(invoice_id: i64) -> (r: String)
    ensures
        r@ == check_data(invoice_id),
{
    join2("pay:check:", &show_i64(invoice_id))
}

/// The rows to pay an invoice: a link if the invoice has one that is a URL, and below it
/// the button that asks whether it was paid.
pub open spec fn invoice_rows(
    label: Seq<char>,
    url: Option<Seq<char>>,
    invoice_id: i64,
) -> InlineView {
    match url {
        Some(u) => seq![seq![url_view(label, u)], seq![check_button_view(invoice_id)]],
        None => seq![seq![check_button_view(invoice_id)]],
    }
}

/// The URL of an invoice, if it has one.
pub open spec fn invoice_url(invoice: InvoiceView) -> Option<Seq<char>> {
    match invoice.pay_url {
        Some(s) => url_text(s),
        None => None,
    }
}

/// The rows to pay an invoice, given its URL if it has one.
pub fn invoice_keyboard(label: String, url: Option<String>, invoice_id: i64) -> (r:
    InlineKeyboardMarkup)
    ensures
        r.deep_view() == invoice_rows(label@, url.deep_view(), invoice_id),
{
    let mut rows: Vec<Vec<InlineKeyboardButton>> = Vec::new();
    let ghost none = rows.deep_view();
    assert(none =~= seq![]);
    match url {
        Some(u) => push_row(&mut rows, row1(link(label, u))),
        None => {},
    }
    push_row(
        &mut rows,
        row1(callback("Я оплатил — проверить".to_string(), check_callback(invoice_id))),
    );
    assert(rows.deep_view() =~= invoice_rows(label@, url.deep_view(), invoice_id));
    InlineKeyboardMarkup { rows }
}

/// The URL of an invoice, if it has one.
pub fn url_of_invoice(invoice: &Invoice) -> (r: Option<String>)
    ensures
        r.deep_view() == invoice_url(invoice.deep_view()),
{
    match &invoice.pay_url {
        Some(s) => parse_url(s),
        None => None,
    }
}

impl Payments {
    fn label(&self) -> (r: String)
        ensures
            r@ == pay_label(*self),
    {
        join2(&join3("Оплатить ", &self.amount, " "), &self.asset)
    }

    /// The button that starts a payment.
    pub fn pay_button(&self) -> (r: InlineKeyboardButton)
        ensures
            r.deep_view() == callback_view(pay_label(*self), "pay:start"@),
    {
        callback(self.label(), "pay:start".to_string())
    }

    /// The keyboard that starts a payment.
    pub fn start_button(&self) -> (r: InlineKeyboardMarkup)
        ensures
            r.deep_view() == seq![seq![callback_view(pay_label(*self), "pay:start"@)]],
    {
        let mut rows: Vec<Vec<InlineKeyboardButton>> = Vec::new();
        rows.push(row1(self.pay_button()));
        assert(rows.deep_view() =~= seq![seq![callback_view(pay_label(*self), "pay:start"@)]]);
        InlineKeyboardMarkup { rows }
    }

    /// The keyboard to pay an invoice and to ask whether it was paid.
    pub fn check_button(&self, invoice: &Invoice) -> (r: InlineKeyboardMarkup)
        ensures
            r.deep_view() == invoice_rows(
                pay_label(*self),
                invoice_url(invoice.deep_view()),
                invoice.invoice_id,
            ),
    {
        invoice_keyboard(self.label(), url_of_invoice(invoice), invoice.invoice_id)
    }
}

// ---------------------------------------------------------------------------
// The payment service
// ---------------------------------------------------------------------------

/// What the payment service wraps its answers in.
#[derive(Debug, Clone, PartialEq, Eq)]
pub struct ApiEnvelope<R> {
    pub ok: bool,
    pub result: Option<R>,
    pub error: Option<String>,
}

/// What came back from the payment service.
#[derive(Debug, Clone, PartialEq, Eq)]
pub enum Reply<R> {
    /// The request could not be made.
    Unsent,
    /// The request failed: the status and what was sent with it.
    Refused { status: u16, body: String },
    /// The request succeeded, but what came back is not understood.
    Garbled,
    /// The request succeeded.
    Answered(ApiEnvelope<R>),
}

/// A result with what it holds in place of the values.
pub open spec fn outcome_view<R: DeepView>(r: Result<R, String>) -> Result<R::V, Seq<char>> {
    match r {
        Ok(v) => Ok(v.deep_view()),
        Err(e) => Err(e@),
    }
}

/// What an answer says: the result, the error that the service names, or what to say
/// where it names none or leaves the result out.
pub open spec fn opened<R: DeepView>(
    envelope: ApiEnvelope<R>,
    empty: Seq<char>,
    unknown: Seq<char>,
) -> Result<R::V, Seq<char>> {
    if envelope.ok {
        match envelope.result {
            Some(r) => Ok(r.deep_view()),
            None => Err(empty),
        }
    } else {
        match envelope.error {
            Some(e) => Err(e@),
            None => Err(unknown),
        }
    }
}

/// What an answer says.
fn open<R: DeepView>(envelope: ApiEnvelope<R>, empty: &str, unknown: &str) -> (r: Result<
    R,
    String,
>)
    ensures
        outcome_view(r) == opened(envelope, empty@, unknown@),
{
    if envelope.ok {
        match envelope.result {
            Some(r) => Ok(r),
            None => Err(empty.to_string()),
        }
    } else {
        match envelope.error {
            Some(e) => Err(e),
            None => Err(unknown.to_string()),
        }
    }
}

/// The text of a refusal.
pub open spec fn refusal_text(method: Seq<char>, status: u16, body: Seq<char>) -> Seq<char> {
    method + " http "@ + nat_text(status as nat) + " body: "@ + trim_text(body)
}

fn refusal(method: &str, status: u16, body: &str) -> (r: String)
    ensures
        r@ == refusal_text(method@, status, body@),
{
    let mut r = join3(method, " http ", &show_u64(status as u64));
    r.append(" body: ");
    r.append(&trim(body));
    r
}

/// What to do next to create an invoice.
pub enum InvoiceStep {
    /// Nothing: this came of it.
    Done(Result<Invoice, String>),
    /// Post a JSON body.
    PostJson(Value),
    /// Post a form.
    PostForm(Vec<(String, String)>),
}

/// What to do next to create an invoice.
pub enum InvoiceStepView {
    Done(Result<InvoiceView, Seq<char>>),
    PostJson(JsonView),
    PostForm(Seq<(Seq<char>, Seq<char>)>),
}

impl DeepView for InvoiceStep {
    type V = InvoiceStepView;

    open spec fn deep_view(&self) -> InvoiceStepView {
        match self {
            InvoiceStep::Done(r) => InvoiceStepView::Done(outcome_view(*r)),
            InvoiceStep::PostJson(v) => InvoiceStepView::PostJson(json_view(*v)),
            InvoiceStep::PostForm(fields) => InvoiceStepView::PostForm(fields.deep_view()),
        }
    }
}

/// What is posted to create an invoice.
pub open spec fn invoice_request(p: Payments, payload: Seq<char>) -> JsonView {
    JsonView::Object(
        Map::<Seq<char>, JsonView>::empty().insert("asset"@, JsonView::Str(p.asset@)).insert(
            "amount"@,
            JsonView::Str(p.amount@),
        ).insert("description"@, JsonView::Str("Subscription"@)).insert(
            "allow_comments"@,
            JsonView::Bool(false),
        ).insert("allow_anonymous"@, JsonView::Bool(true)).insert(
            "payload"@,
            JsonView::Str(payload),
        ),
    )
}

/// What is posted to create an invoice where JSON does not get through. It carries no
/// payload.
pub open spec fn invoice_form(p: Payments) -> Seq<(Seq<char>, Seq<char>)> {
    seq![
        ("asset"@, p.asset@),
        ("amount"@, p.amount@),
        ("description"@, "Subscription"@),
        ("allow_comments"@, "false"@),
        ("allow_anonymous"@, "true"@),
        ("payload"@, ""@),
    ]
}

/// The first step to create an invoice: with payments off there is none, else JSON is posted.
pub open spec fn creation_step(
    p: Payments,
    marker_exists: bool,
    payload: Option<Seq<char>>,
) -> InvoiceStepView {
    if !p.is_on(marker_exists) {
        InvoiceStepView::Done(Err("payments disabled"@))
    } else {
        InvoiceStepView::PostJson(
            invoice_request(
                p,
                match payload {
                    Some(s) => s,
                    None => seq![],
                },
            ),
        )
    }
}

/// The step after the answer to the JSON: one that was refused is tried once more as a form;
/// anything else settles it.
pub open spec fn json_step(p: Payments, reply: Reply<Invoice>) -> InvoiceStepView {
    match reply {
        Reply::Unsent => InvoiceStepView::Done(Err("createInvoice request failed"@)),
        Reply::Refused { .. } => InvoiceStepView::PostForm(invoice_form(p)),
        Reply::Garbled => InvoiceStepView::Done(Err("parse createInvoice json"@)),
        Reply::Answered(envelope) => InvoiceStepView::Done(
            opened(envelope, "createInvoice: empty result"@, "createInvoice: unknown error"@),
        ),
    }
}

/// What comes of the answer to the form. A form that is refused as well is told by the refusal
/// of the JSON.
pub open spec fn form_outcome(status: u16, body: Seq<char>, reply: Reply<Invoice>) -> Result<
    InvoiceView,
    Seq<char>,
> {
    match reply {
        Reply::Unsent => Err("createInvoice form request failed"@),
        Reply::Refused { .. } => Err(refusal_text("createInvoice"@, status, body)),
        Reply::Garbled => Err("parse createInvoice form json"@),
        Reply::Answered(envelope) => opened(
            envelope,
            "createInvoice(form): empty result"@,
            "createInvoice(form): unknown error"@,
        ),
    }
}

/// What comes of the answer to a look-up: the first of the invoices, if there is one.
pub open spec fn lookup_outcome(reply: Reply<Vec<Invoice>>) -> Result<
    Option<InvoiceView>,
    Seq<char>,
> {
    match reply {
        Reply::Unsent => Err("getInvoices request failed"@),
        Reply::Refused { status, body } => Err(refusal_text("getInvoices"@, status, body@)),
        Reply::Garbled => Err("parse getInvoices"@),
        Reply::Answered(envelope) => if !envelope.ok {
            Err(
                match envelope.error {
                    Some(e) => e@,
                    None => "getInvoices: unknown error"@,
                },
            )
        } else {
            Ok(
                match envelope.result {
                    Some(items) => if items@.len() > 0 {
                        Some(items@[0].deep_view())
                    } else {
                        None
                    },
                    None => None,
                },
            )
        },
    }
}

/// What is posted to look an invoice up.
pub open spec fn lookup_request(id: i64) -> JsonView {
    JsonView::Object(
        Map::<Seq<char>, JsonView>::empty().insert(
            "invoice_ids"@,
            JsonView::Array(seq![JsonView::Integer(id as int)]),
        ),
    )
}

impl Payments {
    /// What goes with every request.
    pub fn auth_headers(&self) -> (r: Vec<(String, String)>)
        ensures
            r.deep_view() == seq![
                ("Crypto-Pay-API-Token"@, self.token@),
                ("Accept"@, "application/json"@),
            ],
    {
        let mut r: Vec<(String, String)> = Vec::new();
        r.push(("Crypto-Pay-API-Token".to_string(), self.token.clone()));
        r.push(("Accept".to_string(), "application/json".to_string()));
        assert(r.deep_view() =~= seq![
            ("Crypto-Pay-API-Token"@, self.token@),
            ("Accept"@, "application/json"@),
        ]);
        r
    }

    /// The first step to create an invoice: with payments off there is none, else JSON is
    /// posted.
    pub fn create_invoice(&self, marker_exists: bool, payload: Option<String>) -> (r: InvoiceStep)
        ensures
            r.deep_view() == creation_step(*self, marker_exists, payload.deep_view()),
    {
        if !self.enabled(marker_exists) {
            return InvoiceStep::Done(Err("payments disabled".to_string()));
        }
        let payload = match payload {
            Some(s) => s,
            None => {
                let s = String::new();
                assert(s@ =~= seq![]);
                s
            },
        };
        let mut body = json::empty_object();
        json::set_field(&mut body, "asset", json::of_string(self.asset.clone()));
        json::set_field(&mut body, "amount", json::of_string(self.amount.clone()));
        json::set_field(&mut body, "description", json::of_string("Subscription".to_string()));
        json::set_field(&mut body, "allow_comments", json::of_bool(false));
        json::set_field(&mut body, "allow_anonymous", json::of_bool(true));
        json::set_field(&mut body, "payload", json::of_string(payload));
        InvoiceStep::PostJson(body)
    }

    /// The form to post where JSON does not get through.
    fn form(&self) -> (r: Vec<(String, String)>)
        ensures
            r.deep_view() == invoice_form(*self),
    {
        let mut r: Vec<(String, String)> = Vec::new();
        r.push(("asset".to_string(), self.asset.clone()));
        r.push(("amount".to_string(), self.amount.clone()));
        r.push(("description".to_string(), "Subscription".to_string()));
        r.push(("allow_comments".to_string(), "false".to_string()));
        r.push(("allow_anonymous".to_string(), "true".to_string()));
        r.push(("payload".to_string(), "".to_string()));
        assert(r.deep_view() =~= invoice_form(*self));
        r
    }

    /// The step after the answer to the JSON: one that was refused is tried once more as
    /// a form; anything else settles it.
    pub fn invoice_json_reply(&self, reply: Reply<Invoice>) -> (r: InvoiceStep)
        ensures
            r.deep_view() == json_step(*self, reply),
    {
        match reply {
            Reply::Unsent => InvoiceStep::Done(Err("createInvoice request failed".to_string())),
            Reply::Refused { .. } => InvoiceStep::PostForm(self.form()),
            Reply::Garbled => InvoiceStep::Done(Err("parse createInvoice json".to_string())),
            Reply::Answered(envelope) => InvoiceStep::Done(
                open(envelope, "createInvoice: empty result", "createInvoice: unknown error"),
            ),
        }
    }

    /// What comes of the answer to the form. A form that is refused as well is told by
    /// the refusal of the JSON.
    pub fn invoice_form_reply(
        &self,
        status: u16,
        body: &str,
        reply: Reply<Invoice>,
    ) -> (r: Result<Invoice, String>)
        ensures
            outcome_view(r) == form_outcome(status, body@, reply),
    {
        match reply {
            Reply::Unsent => Err("createInvoice form request failed".to_string()),
            Reply::Refused { .. } => Err(refusal("createInvoice", status, body)),
            Reply::Garbled => Err("parse createInvoice form json".to_string()),
            Reply::Answered(envelope) => open(
                envelope,
                "createInvoice(form): empty result",
                "createInvoice(form): unknown error",
            ),
        }
    }

    /// What is posted to look an invoice up.
    pub fn get_invoice(&self, id: i64) -> (r: Value)
        ensures
            json_view(r) == lookup_request(id),
    {
        let mut ids: Vec<Value> = Vec::new();
        ids.push(json::of_i64(id));
        assert(json::json_views(ids@) =~= seq![JsonView::Integer(id as int)]);
        let mut body = json::empty_object();
        json::set_field(&mut body, "invoice_ids", json::of_list(ids));
        body
    }

    /// What comes of the answer to a look-up: the first of the invoices, if there is one.
    pub fn invoice_lookup_reply(&self, reply: Reply<Vec<Invoice>>) -> (r: Result<
        Option<Invoice>,
        String,
    >)
        ensures
            outcome_view(r) == lookup_outcome(reply),
    {
        match reply {
            Reply::Unsent => Err("getInvoices request failed".to_string()),
            Reply::Refused { status, body } => Err(refusal("getInvoices", status, &body)),
            Reply::Garbled => Err("parse getInvoices".to_string()),
            Reply::Answered(envelope) => {
                if !envelope.ok {
                    match envelope.error {
                        Some(e) => Err(e),
                        None => Err("getInvoices: unknown error".to_string()),
                    }
                } else {
                    match envelope.result {
                        Some(items) => {
                            let mut items = items;
                            if items.len() > 0 {
                                Ok(Some(items.swap_remove(0)))
                            } else {
                                Ok(None)
                            }
                        },
                        None => Ok(None),
                    }
                }
            },
        }
    }
}

// ---------------------------------------------------------------------------
// Laws
// ---------------------------------------------------------------------------

proof fn lemma_request_fields()
    ensures
        "asset"@ != "amount"@,
        "asset"@ != "description"@,
        "asset"@ != "allow_comments"@,
        "asset"@ != "allow_anonymous"@,
        "asset"@ != "payload"@,
        "amount"@ != "description"@,
        "amount"@ != "allow_comments"@,
        "amount"@ != "allow_anonymous"@,
        "amount"@ != "payload"@,
        "description"@ != "allow_comments"@,
        "description"@ != "allow_anonymous"@,
        "description"@ != "payload"@,
        "allow_comments"@ != "allow_anonymous"@,
        "allow_comments"@ != "payload"@,
        "allow_anonymous"@ != "payload"@,
{
    reveal_strlit("asset");
    reveal_strlit("amount");
    reveal_strlit("description");
    reveal_strlit("allow_comments");
    reveal_strlit("allow_anonymous");
    reveal_strlit("payload");
    assert("asset"@.len() == 5);
    assert("amount"@.len() == 6);
    assert("description"@.len() == 11);
    assert("allow_comments"@.len() == 14);
    assert("allow_anonymous"@.len() == 15);
    assert("payload"@.len() == 7);
}

/// An invoice is asked for as configured: the JSON has the configured asset and amount and
/// the payload that was given, and no field but those of an invoice.
pub proof fn invoices_are_as_configured(p: Payments, payload: Seq<char>)
    ensures
        ({
            let fields = invoice_request(p, payload)->Object_0;
            &&& invoice_request(p, payload) is Object
            &&& fields.contains_key("asset"@) && fields["asset"@] == JsonView::Str(p.asset@)
            &&& fields.contains_key("amount"@) && fields["amount"@] == JsonView::Str(p.amount@)
            &&& fields.contains_key("payload"@) && fields["payload"@] == JsonView::Str(payload)
            &&& fields.contains_key("description"@) && fields["description"@] == JsonView::Str(
                "Subscription"@,
            )
            &&& fields.contains_key("allow_comments"@) && fields["allow_comments"@]
                == JsonView::Bool(false)
            &&& fields.contains_key("allow_anonymous"@) && fields["allow_anonymous"@]
                == JsonView::Bool(true)
            &&& forall|name: Seq<char>| #[trigger]
                fields.contains_key(name) ==> name == "asset"@ || name == "amount"@ || name
                    == "payload"@ || name == "description"@ || name == "allow_comments"@ || name
                    == "allow_anonymous"@
        }),
{
    lemma_request_fields();
}

/// Requests for an invoice differ where the configured amount or asset does, or the
/// payload.
pub proof fn different_invoices_are_different_requests(
    p: Payments,
    q: Payments,
    a: Seq<char>,
    b: Seq<char>,
)
    requires
        p.amount@ != q.amount@ || p.asset@ != q.asset@ || a != b,
    ensures
        invoice_request(p, a) != invoice_request(q, b),
{
    invoices_are_as_configured(p, a);
    invoices_are_as_configured(q, b);
}

/// The form that is posted where JSON does not get through asks for the same as the JSON:
/// each of its fields but the payload, which it leaves empty, is in the JSON with the same
/// value, and no field of the JSON is missing in it.
pub proof fn the_form_asks_for_the_same(p: Payments, payload: Seq<char>)
    ensures
        ({
            let fields = invoice_request(p, payload)->Object_0;
            let form = invoice_form(p);
            &&& form.contains(("asset"@, p.asset@))
            &&& form.contains(("amount"@, p.amount@))
            &&& form.contains(("payload"@, ""@))
            &&& forall|i: int|
                0 <= i < form.len() && (#[trigger] form[i]).0 != "payload"@ ==> {
                    &&& fields.contains_key(form[i].0)
                    &&& fields[form[i].0] == match fields[form[i].0] {
                        JsonView::Bool(_) => JsonView::Bool(form[i].1 == "true"@),
                        _ => JsonView::Str(form[i].1),
                    }
                }
            &&& forall|name: Seq<char>| #[trigger]
                fields.contains_key(name) ==> exists|i: int|
                    0 <= i < form.len() && (#[trigger] form[i]).0 == name
        }),
{
    lemma_request_fields();
    reveal_strlit("true");
    reveal_strlit("false");
    assert("true"@.len() == 4);
    assert("false"@.len() == 5);
    let fields = invoice_request(p, payload)->Object_0;
    let form = invoice_form(p);
    assert(form[0] == ("asset"@, p.asset@));
    assert(form[1] == ("amount"@, p.amount@));
    assert(form[2].0 == "description"@);
    assert(form[3].0 == "allow_comments"@);
    assert(form[4].0 == "allow_anonymous"@);
    assert(form[5] == ("payload"@, ""@));
}

/// A setting turns payments on, or off, where what it says before a comment, without white
/// space around it, is one of three words, in any case of its letters; any other setting does
/// neither.
pub proof fn switches_are_words(raw: Seq<char>, comment: Seq<char>)
    requires
        has_none(raw, CharKind::Hash),
    ensures
        switch_of(raw.push('#') + comment) == switch_of(raw),
        ({
            let word = ascii_lowercase_text(trim_text(raw));
            &&& switch_of(raw) == Some(true) <==> word == "1"@ || word == "true"@ || word == "on"@
            &&& switch_of(raw) == Some(false) <==> word == "0"@ || word == "false"@ || word
                == "off"@
        }),
{
    split_of_first(raw, '#', comment, CharKind::Hash);
    reveal_strlit("1");
    reveal_strlit("on");
    reveal_strlit("true");
    reveal_strlit("0");
    reveal_strlit("off");
    reveal_strlit("false");
    assert("0"@.len() == 1 && "1"@.len() == 1 && "0"@[0] == '0' && "1"@[0] == '1');
    assert("on"@.len() == 2 && "off"@.len() == 3);
    assert("true"@.len() == 4 && "false"@.len() == 5);
}

/// What the configuration says of payments counts, and the marker only where it says nothing.
pub proof fn configuration_comes_before_the_marker(p: Payments, marker_exists: bool)
    ensures
        p.enabled_env == Some(true) ==> p.is_on(marker_exists),
        p.enabled_env == Some(false) ==> !p.is_on(marker_exists),
        p.enabled_env is None ==> p.is_on(marker_exists) == !marker_exists,
        p.marker_after_disable(true),
{
}

/// The rows to pay an invoice end with a button that asks about that invoice; where there is
/// a URL the first row is a link there under the given label.
pub proof fn invoices_have_their_buttons(label: Seq<char>, url: Seq<char>, invoice_id: i64)
    ensures
        ({
            let linked = invoice_rows(label, Some(url), invoice_id);
            let plain = invoice_rows(label, None, invoice_id);
            let asks = |b: ButtonView| b matches ButtonOf::Callback { data, .. } && data
                == "pay:check:"@ + int_text(invoice_id as int);
            &&& linked.len() == 2 && plain.len() == 1
            &&& linked[0] == seq![ButtonView::Url { text: label, url }]
            &&& linked[1].len() == 1 && asks(linked[1][0])
            &&& plain[0].len() == 1 && asks(plain[0][0])
        }),
{
}

/// The button that pays tells the configured amount and asset.
pub proof fn pay_button_tells_the_price(p: Payments)
    ensures
        exists|head: Seq<char>| #[trigger] (head + (p.amount@ + " "@ + p.asset@)) == pay_label(p),
{
    assert("Оплатить "@ + (p.amount@ + " "@ + p.asset@) =~= pay_label(p));
}

/// The answer of the payment service counts as a success exactly where it says so and holds a
/// result, and then it is that result; else the error that it names is told, if it names one.
pub proof fn answers_say_what_they_hold<R: DeepView>(
    envelope: ApiEnvelope<R>,
    empty: Seq<char>,
    unknown: Seq<char>,
)
    ensures
        opened(envelope, empty, unknown) is Ok <==> envelope.ok && envelope.result is Some,
        opened(envelope, empty, unknown) matches Ok(v) ==> v == envelope.result->0.deep_view(),
        !envelope.ok && envelope.error is Some ==> opened(envelope, empty, unknown)
            == Err::<R::V, Seq<char>>(envelope.error->0@),
        !envelope.ok && envelope.error is None ==> opened(envelope, empty, unknown)
            == Err::<R::V, Seq<char>>(unknown),
        envelope.ok && envelope.result is None ==> opened(envelope, empty, unknown)
            == Err::<R::V, Seq<char>>(empty),
{
}

/// Telling payments to be off leaves the marker file exactly where the configuration does not
/// keep them on; one that exists stays.
pub proof fn marker_is_left(p: Payments)
    ensures
        p.marker_after_disable(false) <==> p.enabled_env != Some(true),
        p.marker_after_disable(true),
{
}

/// An invoice leads to the page that its link names, where that is a URL, and nowhere else.
pub proof fn invoices_lead_to_their_page(invoice: InvoiceView, url: Seq<char>)
    ensures
        invoice_url(invoice) == Some(url) <==> invoice.pay_url is Some && url_text(
            invoice.pay_url->0,
        ) == Some(url),
{
}

/// Looking an invoice up asks for that invoice and for no other: the request says nothing but
/// its id, so that two invoices are never asked for alike.
pub proof fn one_invoice_is_looked_up(id: i64, other: i64, key: Seq<char>)
    ensures
        lookup_request(id) matches JsonView::Object(fields) && {
            &&& fields.contains_key(key) <==> key == "invoice_ids"@
            &&& fields["invoice_ids"@] matches JsonView::Array(ids) && ids.len() == 1
                && ids[0] == JsonView::Integer(id as int)
        },
        id != other ==> lookup_request(id) != lookup_request(other),
{
    let a = lookup_request(id)->Object_0["invoice_ids"@]->Array_0;
    let b = lookup_request(other)->Object_0["invoice_ids"@]->Array_0;
    assert(a[0] == JsonView::Integer(id as int));
    assert(b[0] == JsonView::Integer(other as int));
}

/// An invoice is asked for exactly while payments are on: where the configuration turns them
/// on, or leaves it open and there is no marker file. It asks for the amount and the asset that
/// are configured and carries the payload that it is given, or an empty one.
pub proof fn invoices_are_asked_for_while_payments_are_on(
    p: Payments,
    marker_exists: bool,
    payload: Option<Seq<char>>,
)
    ensures
        creation_step(p, marker_exists, payload) is PostJson <==> p.enabled_env == Some(true)
            || p.enabled_env is None && !marker_exists,
        creation_step(p, marker_exists, payload) matches InvoiceStepView::Done(r) ==> r is Err,
        !(creation_step(p, marker_exists, payload) is PostForm),
        creation_step(p, marker_exists, payload) matches InvoiceStepView::PostJson(
            JsonView::Object(fields),
        ) ==> {
            &&& fields["amount"@] == JsonView::Str(p.amount@)
            &&& fields["asset"@] == JsonView::Str(p.asset@)
            &&& payload is Some ==> fields["payload"@] == JsonView::Str(payload->0)
            &&& payload is None ==> fields["payload"@] == JsonView::Str(seq![])
        },
{
    lemma_request_fields();
}

/// A request that was refused is repeated as a form, and no other is. An invoice comes of an
/// answer that is well and holds it, and of nothing else.
pub proof fn invoices_come_of_good_answers(
    p: Payments,
    reply: Reply<Invoice>,
    status: u16,
    body: Seq<char>,
    invoice: InvoiceView,
)
    ensures
        json_step(p, reply) is PostForm <==> reply is Refused,
        json_step(p, reply) == InvoiceStepView::Done(Ok(invoice)) <==> (
        reply matches Reply::Answered(e) && e.ok && e.result is Some && e.result->0.deep_view()
            == invoice),
        form_outcome(status, body, reply) == Ok::<InvoiceView, Seq<char>>(invoice) <==> (
        reply matches Reply::Answered(e) && e.ok && e.result is Some && e.result->0.deep_view()
            == invoice),
{
}

/// A look-up finds the first invoice of an answer that is well, finds none where such an answer
/// holds none, and fails in every other case.
pub proof fn lookups_find_the_first(reply: Reply<Vec<Invoice>>, invoice: InvoiceView)
    ensures
        lookup_outcome(reply) == Ok::<Option<InvoiceView>, Seq<char>>(Some(invoice)) <==> (
        reply matches Reply::Answered(e) && e.ok && e.result is Some && e.result->0@.len() > 0
            && e.result->0@[0].deep_view() == invoice),
        lookup_outcome(reply) == Ok::<Option<InvoiceView>, Seq<char>>(None) <==> (
        reply matches Reply::Answered(e) && e.ok && (e.result is None || e.result->0@.len() == 0)),
{
}

/// What is said of a request that was refused ends with the status and with what came with it,
/// without white space around it; of a form it is the refusal of the JSON that is told.
pub proof fn refusals_are_told(
    status: u16,
    body: String,
    form_status: u16,
    form_body: String,
)
    ensures
        lookup_outcome(Reply::Refused { status, body }) matches Err(text) && exists|
            head: Seq<char>,
        | #[trigger] (head + nat_text(status as nat) + " body: "@ + trim_text(body@)) == text,
        form_outcome(
            status,
            body@,
            Reply::Refused { status: form_status, body: form_body },
        ) matches Err(text) && exists|head: Seq<char>| #[trigger]
            (head + nat_text(status as nat) + " body: "@ + trim_text(body@)) == text,
{
    let looked = "getInvoices"@ + " http "@;
    let created = "createInvoice"@ + " http "@;
    assert(looked + nat_text(status as nat) + " body: "@ + trim_text(body@) == refusal_text(
        "getInvoices"@,
        status,
        body@,
    ));
    assert(created + nat_text(status as nat) + " body: "@ + trim_text(body@) == refusal_text(
        "createInvoice"@,
        status,
        body@,
    ));
}

/// What the environment configures is what an invoice asks for, in JSON and as a form: the
/// amount and the asset that are set, else 42 USDT. Where nothing is said of whether payments
/// are on, the marker file decides.
pub proof fn configured_amount_is_asked_for(
    p: Payments,
    token: Option<String>,
    asset: Option<String>,
    amount: Option<String>,
    enabled: Option<String>,
    payload: Seq<char>,
    marker_exists: bool,
)
    requires
        is_configured(p, token, asset, amount, enabled),
    ensures
        invoice_request(p, payload) matches JsonView::Object(fields) && {
            &&& amount matches Some(a) ==> fields["amount"@] == JsonView::Str(a@)
            &&& amount is None ==> fields["amount"@] == JsonView::Str("42"@)
            &&& asset matches Some(a) ==> fields["asset"@] == JsonView::Str(a@)
            &&& asset is None ==> fields["asset"@] == JsonView::Str("USDT"@)
        },
        amount matches Some(a) ==> invoice_form(p).contains(("amount"@, a@)),
        asset matches Some(a) ==> invoice_form(p).contains(("asset"@, a@)),
        enabled is None ==> p.is_on(marker_exists) == !marker_exists,
        token matches Some(t) ==> p.token@ == t@,
{
    lemma_request_fields();
    assert(invoice_form(p)[0] == ("asset"@, p.asset@));
    assert(invoice_form(p)[1] == ("amount"@, p.amount@));
}

} // verus!
