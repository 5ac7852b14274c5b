//! Greeting users, the startup message and the keyboard that everyone sees.
use crate::actions::{plain, plain_view, then_do, Action, ActionOf, ActionView, PhotoOf};
use crate::admin::{panel_message, public_view, Admin, PANEL_TEXT};
use crate::json;
use crate::json::{json_of_text, json_view, json_views, number_text_of, JsonView};
use crate::keyboard::{
    callback, callback_view, row1, ButtonOf, InlineKeyboardButton, InlineKeyboardMarkup, InlineView,
    Markup, MarkupView,
};
use crate::links::{parse_url, url_text};
use crate::numbers::{int_text, int_text_parses_back, parse_i64, parse_i64_text};
use crate::payments::{check_callback, check_data, outcome_view, Invoice, InvoiceView};
use crate::sorting::Duplicate;
use crate::state::{
    can_take_keyboard_message, get_keyboard_message, keyboard_message, takes_keyboard_message,
};
use crate::text::{
    is_white_space, join2, join3, starts_with, to_chars, trim, trim_both, trim_both_text,
    trim_end_text, trim_leaves_trimmed, trim_start_text, trim_text, CharKind,
};
use serde_json::Value;
use vstd::prelude::*;

verus! {

/// What the bot introduces itself with.
pub const STARTUP_TEXT: &'static str =
    "Лучшее что ты можешь сделать прямо сейчас - ДЕЙСТВОВАТЬ !\n\nКоротко о BLENDER — множество приваток, которые я лично отбирал с 2019 года и это самый дешевый и самый качественный агрегатор который вы могли только найти.\n\nНаш канал: t.me/blender\nПоддержка: @ex_managers\n\n🔻 Сумма всех приваток: 7394$/мес\n✅ Сумма всех приваток у нас: 42$/мес ";

/// The picture that goes with it unless another is configured.
pub const STARTUP_PICTURE: &'static str = "data/startup.jpg";

// ---------------------------------------------------------------------------
// Pictures
// ---------------------------------------------------------------------------

/// The configured picture without surrounding white space and quotes, else the usual one
/// if that exists.
pub open spec fn startup_picture(configured: Option<Seq<char>>, usual_exists: bool) -> Option<
    Seq<char>,
> {
    match configured {
        Some(s) => Some(trim_both_text(trim_text(s), CharKind::Quote)),
        None => if usual_exists {
            Some(STARTUP_PICTURE@)
        } else {
            None
        },
    }
}

/// The configured picture, else the usual one if that exists.
pub fn startup_image(configured: Option<&str>, usual_exists: bool) -> (r: Option<String>)
    ensures
        r.deep_view() == startup_picture(configured.deep_view(), usual_exists),
{
    match configured {
        Some(s) => Some(trim_both(&trim(s), CharKind::Quote)),
        None => if usual_exists {
            Some(STARTUP_PICTURE.to_string())
        } else {
            None
        },
    }
}

/// Where the picture of a greeting is to be looked for.
#[derive(Debug, Clone, PartialEq, Eq)]
pub enum PictureOf<T> {
    /// There is none.
    Absent,
    /// At a link.
    Link(T),
    /// In a file of this name.
    Local(T),
}

impl DeepView for PictureOf<String> {
    type V = PictureOf<Seq<char>>;

    open spec fn deep_view(&self) -> PictureOf<Seq<char>> {
        match self {
            PictureOf::Absent => PictureOf::Absent,
            PictureOf::Link(url) => PictureOf::Link(url@),
            PictureOf::Local(path) => PictureOf::Local(path@),
        }
    }
}

/// Whether a text is written like a link.
pub open spec fn is_link(s: Seq<char>) -> bool {
    "http://"@.is_prefix_of(s) || "https://"@.is_prefix_of(s)
}

/// Where a picture is to be looked for, given the URL that a link is if it is one.
pub open spec fn located(image: Seq<char>, url: Option<Seq<char>>) -> PictureOf<Seq<char>> {
    if is_link(image) {
        match url {
            Some(u) => PictureOf::Link(u),
            None => PictureOf::Absent,
        }
    } else {
        PictureOf::Local(image)
    }
}

/// Where a picture is to be looked for, given the URL that a link is if it is one.
pub fn locate(image: String, url: Option<String>) -> (r: PictureOf<String>)
    ensures
        r.deep_view() == located(image@, url.deep_view()),
{
    if starts_with(&image, "http://") || starts_with(&image, "https://") {
        match url {
            Some(u) => PictureOf::Link(u),
            None => PictureOf::Absent,
        }
    } else {
        PictureOf::Local(image)
    }
}

/// Where the picture of a greeting is to be looked for.
pub open spec fn greeting_picture(image: Option<Seq<char>>) -> PictureOf<Seq<char>> {
    match image {
        Some(raw) => located(trim_text(raw), url_text(trim_text(raw))),
        None => PictureOf::Absent,
    }
}

/// Where the picture of a greeting is to be looked for.
pub fn find_picture(image: Option<&str>) -> (r: PictureOf<String>)
    ensures
        r.deep_view() == greeting_picture(image.deep_view()),
{
    match image {
        Some(raw) => {
            let image = trim(raw);
            let url = parse_url(&image);
            locate(image, url)
        },
        None => PictureOf::Absent,
    }
}

/// A path below a directory; one that begins at the root stands for itself.
pub open spec fn joined(dir: Seq<char>, path: Seq<char>) -> Seq<char> {
    if "/"@.is_prefix_of(path) {
        path
    } else if dir.len() == 0 || dir.last() == '/' {
        dir + path
    } else {
        dir + "/"@ + path
    }
}

fn join_path(dir: &str, path: &str) -> (r: String)
    ensures
        r@ == joined(dir@, path@),
{
    if starts_with(path, "/") {
        return path.to_string();
    }
    let chars = to_chars(dir);
    if chars.len() == 0 || chars[chars.len() - 1] == '/' {
        join2(dir, path)
    } else {
        join3(dir, "/", path)
    }
}

/// Where a picture is looked for: as it is given, below the working directory if that is
/// known, and below `data`.
pub open spec fn places(image: Seq<char>, cwd: Option<Seq<char>>) -> Seq<Seq<char>> {
    seq![
        image,
        match cwd {
            Some(dir) => joined(dir, image),
            None => image,
        },
        joined("data"@, image),
    ]
}

/// Where a picture is looked for.
pub fn picture_paths(image: &str, cwd: Option<&str>) -> (r: Vec<String>)
    ensures
        r.deep_view() == places(image@, cwd.deep_view()),
{
    let mut r: Vec<String> = Vec::new();
    r.push(image.to_string());
    r.push(
        match cwd {
            Some(dir) => join_path(dir, image),
            None => image.to_string(),
        },
    );
    r.push(join_path("data", image));
    assert(r.deep_view() =~= places(image@, cwd.deep_view()));
    r
}

/// The first of the paths that exists, by how many precede it; their number if none does.
pub open spec fn first_existing(exists: Seq<bool>) -> nat
    decreases exists.len(),
{
    if exists.len() == 0 || exists[0] {
        0
    } else {
        1 + first_existing(exists.skip(1))
    }
}

/// The path to take: the first that exists, unless that is empty.
pub open spec fn chosen_path(paths: Seq<Seq<char>>, exists: Seq<bool>) -> Option<Seq<char>> {
    let i = first_existing(exists);
    if i < exists.len() && i < paths.len() && paths[i as int].len() > 0 {
        Some(paths[i as int])
    } else {
        None
    }
}

/// The path to take of several, given which of them exist.
pub fn choose_path(paths: &Vec<String>, exists: &Vec<bool>) -> (r: Option<String>)
    ensures
        r.deep_view() == chosen_path(paths.deep_view(), exists@),
{
    let mut i: usize = 0;
    assert(exists@.skip(0) =~= exists@);
    while i < exists.len() && !exists[i]
        invariant
            i <= exists@.len(),
            first_existing(exists@) == i + first_existing(exists@.skip(i as int)),
        decreases exists@.len() - i,
    {
        assert(exists@.skip(i as int).skip(1) =~= exists@.skip(i + 1));
        i = i + 1;
    }
    if i < exists.len() && i < paths.len() && !paths[i].as_str().is_empty() {
        Some(paths[i].clone())
    } else {
        None
    }
}

// ---------------------------------------------------------------------------
// The greeting
// ---------------------------------------------------------------------------

/// A text with a keyboard, as the caption of a picture if there is one.
pub open spec fn illustrated(
    chat: i64,
    photo: Option<PhotoOf<Seq<char>>>,
    text: Seq<char>,
    markup: MarkupView,
) -> ActionView {
    match photo {
        Some(photo) => ActionOf::SendPhoto { chat, photo, caption: text, markup },
        None => ActionOf::Send { chat, text, markup },
    }
}

/// A text with a keyboard, as the caption of a picture if there is one.
pub fn illustrate(chat: i64, photo: Option<PhotoOf<String>>, text: String, markup: Markup) -> (r:
    Action)
    ensures
        r.deep_view() == illustrated(
            chat,
            match photo {
                Some(photo) => Some(photo.deep_view()),
                None => None,
            },
            text@,
            markup.deep_view(),
        ),
{
    match photo {
        Some(photo) => ActionOf::SendPhoto { chat, photo, caption: text, markup },
        None => ActionOf::Send { chat, text, markup },
    }
}

/// What a greeting ends with: administrators get the panel and the catalog, others the
/// catalog if they need not pay or have paid, else an invoice.
pub open spec fn greeting_end(chat: i64, authed: bool, payments_on: bool, active: bool) -> Seq<
    ActionView,
> {
    if authed {
        seq![panel_message(chat, PANEL_TEXT@), ActionOf::ShowCatalog { chat, page: 1 }]
    } else if payments_on && !active {
        seq![ActionOf::StartPayment { chat }]
    } else {
        seq![ActionOf::ShowCatalog { chat, page: 1 }]
    }
}

/// What greets a user: the introduction with the keyboard that everyone sees, the list of
/// chats, a fresh carrier of that keyboard, and what they have access to.
pub open spec fn greeting(
    chat: i64,
    caption: Option<Seq<char>>,
    photo: Option<PhotoOf<Seq<char>>>,
    carrier: Option<i64>,
    authed: bool,
    payments_on: bool,
    active: bool,
) -> Seq<ActionView> {
    let text = match caption {
        Some(c) => c,
        None => STARTUP_TEXT@,
    };
    let opened = seq![
        illustrated(chat, photo, text, MarkupView::Reply(public_view())),
        ActionOf::SendCatalog { chat },
    ];
    let cleared = match carrier {
        Some(id) => opened.push(ActionOf::DropKeyboardMessage { chat, carrier: id }),
        None => opened,
    };
    cleared.push(ActionOf::EnsurePublicKeyboard { chat }) + greeting_end(
        chat,
        authed,
        payments_on,
        active,
    )
}

/// What greets a user, given the picture that was found and whether their subscription
/// is active.
pub fn greet(
    chat: i64,
    caption: Option<String>,
    photo: Option<PhotoOf<String>>,
    st: &Value,
    admin: &Admin,
    payments_on: bool,
    active: bool,
) -> (plan: Vec<Action>)
    ensures
        plan.deep_view() == greeting(
            chat,
            caption.deep_view(),
            match photo {
                Some(photo) => Some(photo.deep_view()),
                None => None,
            },
            keyboard_message(json_view(*st), chat),
            admin@.authed.contains(chat),
            payments_on,
            active,
        ),
{
    let text = match caption {
        Some(c) => c,
        None => STARTUP_TEXT.to_string(),
    };
    let mut plan: Vec<Action> = Vec::new();
    assert(plan.deep_view() =~= seq![]);
    then_do(&mut plan, illustrate(chat, photo, text, Markup::Reply(admin.public_keyboard())));
    then_do(&mut plan, ActionOf::SendCatalog { chat });
    match get_keyboard_message(st, chat) {
        Some(carrier) => then_do(&mut plan, ActionOf::DropKeyboardMessage { chat, carrier }),
        None => {},
    }
    then_do(&mut plan, ActionOf::EnsurePublicKeyboard { chat });
    if admin.is_authed(chat) {
        then_do(&mut plan, admin.panel(chat, PANEL_TEXT));
        then_do(&mut plan, ActionOf::ShowCatalog { chat, page: 1 });
    } else if payments_on && !active {
        then_do(&mut plan, ActionOf::StartPayment { chat });
    } else {
        then_do(&mut plan, ActionOf::ShowCatalog { chat, page: 1 });
    }
    assert(plan.deep_view() =~= greeting(
        chat,
        caption.deep_view(),
        match photo {
            Some(photo) => Some(photo.deep_view()),
            None => None,
        },
        keyboard_message(json_view(*st), chat),
        admin@.authed.contains(chat),
        payments_on,
        active,
    ));
    plan
}

/// Nobody gets the catalog in a greeting who has to pay and has not, unless they are an
/// administrator.
pub proof fn greeting_keeps_the_paywall(
    chat: i64,
    caption: Option<Seq<char>>,
    photo: Option<PhotoOf<Seq<char>>>,
    carrier: Option<i64>,
    authed: bool,
    payments_on: bool,
    active: bool,
    i: int,
)
    requires
        0 <= i < greeting(chat, caption, photo, carrier, authed, payments_on, active).len(),
        greeting(chat, caption, photo, carrier, authed, payments_on, active)[i] is ShowCatalog,
    ensures
        authed || !payments_on || active,
{
}

// ---------------------------------------------------------------------------
// Starting a payment
// ---------------------------------------------------------------------------

/// What is sent with an invoice.
pub open spec fn payment_text(intro: Seq<char>, pay_url: Option<Seq<char>>) -> Seq<char> {
    match pay_url {
        Some(url) => intro + "\n\nСсылка для оплаты: "@ + url,
        None => intro,
    }
}

/// What is sent with an invoice.
pub fn show_payment(intro: &str, pay_url: Option<&str>) -> (r: String)
    ensures
        r@ == payment_text(intro@, pay_url.deep_view()),
{
    match pay_url {
        Some(url) => join3(intro, "\n\nСсылка для оплаты: ", url),
        None => intro.to_string(),
    }
}

/// What introduces an invoice.
pub const PAY_INTRO: &'static str =
    "Оплатите счёт через CryptoBot, затем нажмите «Я оплатил — проверить».";

/// What comes of an invoice that was to be created: it is sent with a button that asks
/// whether it was paid, or the failure is told.
pub open spec fn payment_plan(
    chat: i64,
    invoice: Result<InvoiceView, Seq<char>>,
    has_admins: bool,
) -> Seq<ActionView> {
    match invoice {
        Ok(inv) => {
            let sent = seq![
                ActionOf::Send {
                    chat,
                    text: payment_text(PAY_INTRO@, inv.pay_url),
                    markup: MarkupView::Inline(
                        seq![
                            seq![
                                callback_view(
                                    "Я оплатил — проверить ✅"@,
                                    check_data(inv.invoice_id),
                                ),
                            ],
                        ],
                    ),
                },
            ];
            if has_admins {
                sent.push(ActionOf::EnsurePublicKeyboard { chat })
            } else {
                sent
            }
        },
        Err(e) => seq![plain_view(chat, "Не удалось создать счёт: "@ + e)],
    }
}

fn one_button(text: &str, data: String) -> (r: Markup)
    ensures
        r.deep_view() == MarkupView::Inline(seq![seq![callback_view(text@, data@)]]),
{
    let mut rows: Vec<Vec<InlineKeyboardButton>> = Vec::new();
    rows.push(row1(callback(text.to_string(), data)));
    assert(rows.deep_view() =~= seq![seq![callback_view(text@, data@)]]);
    Markup::Inline(InlineKeyboardMarkup { rows })
}

/// What starting a payment leads to at once: with payments off nothing more, else an
/// invoice is to be created.
pub fn start_payment_flow(chat: i64, payments_on: bool) -> (r: Option<Action>)
    ensures
        r matches Some(a) ==> !payments_on && a.deep_view() == plain_view(
            chat,
            "Платежи отключены."@,
        ),
        r is None ==> payments_on,
{
    if !payments_on {
        Some(plain(chat, "Платежи отключены.".to_string()))
    } else {
        None
    }
}

/// What comes of an invoice that was to be created.
pub fn payment_started(chat: i64, invoice: &Result<Invoice, String>, has_admins: bool) -> (plan:
    Vec<Action>)
    ensures
        plan.deep_view() == payment_plan(chat, outcome_view(*invoice), has_admins),
{
    let mut plan: Vec<Action> = Vec::new();
    assert(plan.deep_view() =~= seq![]);
    match invoice {
        Ok(inv) => {
            let text = match &inv.pay_url {
                Some(url) => show_payment(PAY_INTRO, Some(url)),
                None => show_payment(PAY_INTRO, None),
            };
            let markup = one_button("Я оплатил — проверить ✅", check_callback(inv.invoice_id));
            then_do(&mut plan, ActionOf::Send { chat, text, markup });
            if has_admins {
                then_do(&mut plan, ActionOf::EnsurePublicKeyboard { chat });
            }
        },
        Err(e) => then_do(&mut plan, plain(chat, join2("Не удалось создать счёт: ", e))),
    }
    assert(plan.deep_view() =~= payment_plan(chat, outcome_view(*invoice), has_admins));
    plan
}

// ---------------------------------------------------------------------------
// The startup message
// ---------------------------------------------------------------------------

/// The keyboard under the startup message.
pub open spec fn startup_keyboard() -> InlineView {
    seq![seq![callback_view("Список каналов"@, "show:channels"@)]]
}

/// The startup message to a user, with the usual picture if it exists.
pub fn send_startup_to_user(chat: i64, picture_exists: bool) -> (r: Action)
    ensures
        r.deep_view() == illustrated(
            chat,
            if picture_exists {
                Some(PhotoOf::File(STARTUP_PICTURE@))
            } else {
                None
            },
            STARTUP_TEXT@,
            MarkupView::Inline(startup_keyboard()),
        ),
{
    let markup = one_button("Список каналов", "show:channels".to_string());
    let photo = if picture_exists {
        Some(PhotoOf::File(STARTUP_PICTURE.to_string()))
    } else {
        None
    };
    illustrate(chat, photo, STARTUP_TEXT.to_string(), markup)
}

/// Whom a startup message goes to.
#[derive(Debug, Clone, PartialEq, Eq)]
pub enum RecipientOf<T> {
    Id(i64),
    /// The name of a user or a channel.
    Name(T),
}

/// Whom a startup message goes to.
pub type Recipient = RecipientOf<String>;

/// Whom a startup message goes to.
pub type RecipientView = RecipientOf<Seq<char>>;

impl Duplicate for RecipientOf<String> {
    fn duplicate(&self) -> (r: Self) {
        match self {
            RecipientOf::Id(id) => RecipientOf::Id(*id),
            RecipientOf::Name(name) => RecipientOf::Name(name.clone()),
        }
    }
}

impl DeepView for RecipientOf<String> {
    type V = RecipientView;

    open spec fn deep_view(&self) -> RecipientView {
        match self {
            RecipientOf::Id(id) => RecipientOf::Id(*id),
            RecipientOf::Name(name) => RecipientOf::Name(name@),
        }
    }
}

/// Whom a text names: a number is an id, anything else a name.
pub open spec fn recipient_of(s: Seq<char>) -> RecipientView {
    match parse_i64_text(s) {
        Some(id) => RecipientOf::Id(id),
        None => RecipientOf::Name(s),
    }
}

/// Whom a text names.
pub fn recipient(s: &str) -> (r: Recipient)
    ensures
        r.deep_view() == recipient_of(s@),
{
    match parse_i64(s) {
        Some(id) => RecipientOf::Id(id),
        None => RecipientOf::Name(s.to_string()),
    }
}

/// Whom the first `n` items of a list name: strings and numbers do, other items nobody.
pub open spec fn recipients_in(items: Seq<JsonView>, n: nat) -> Seq<RecipientView>
    decreases n,
{
    if n == 0 {
        seq![]
    } else {
        let before = recipients_in(items, (n - 1) as nat);
        match items[n - 1] {
            JsonView::Str(s) => before.push(recipient_of(s)),
            v => match number_text_of(v) {
                Some(s) => before.push(recipient_of(s)),
                None => before,
            },
        }
    }
}

/// Whom the startup message goes to, if the file is a JSON array.
pub open spec fn startup_recipients(text: Seq<char>) -> Option<Seq<RecipientView>> {
    match json_of_text(text) {
        Some(JsonView::Array(items)) => Some(recipients_in(items, items.len())),
        _ => None,
    }
}

/// A startup message.
#[derive(Debug, Clone, PartialEq, Eq)]
pub struct StartupMessage {
    pub to: Recipient,
    /// The picture that the text is the caption of, if there is one.
    pub photo: Option<PhotoOf<String>>,
    pub text: String,
}

/// A startup message.
pub struct StartupView {
    pub to: RecipientView,
    pub photo: Option<PhotoOf<Seq<char>>>,
    pub text: Seq<char>,
}

impl DeepView for StartupMessage {
    type V = StartupView;

    open spec fn deep_view(&self) -> StartupView {
        StartupView {
            to: self.to.deep_view(),
            photo: match self.photo {
                Some(photo) => Some(photo.deep_view()),
                None => None,
            },
            text: self.text@,
        }
    }
}

/// The startup message to someone: the introduction, as the caption of the picture if
/// there is one.
pub open spec fn startup_view(to: RecipientView, picture: PictureOf<Seq<char>>) -> StartupView {
    StartupView {
        to,
        photo: match picture {
            PictureOf::Absent => None,
            PictureOf::Link(url) => Some(PhotoOf::Link(url)),
            PictureOf::Local(path) => Some(PhotoOf::File(path)),
        },
        text: STARTUP_TEXT@,
    }
}

/// The startup message to someone, with a picture that was looked for.
pub fn startup_from(to: Recipient, picture: &PictureOf<String>) -> (r: StartupMessage)
    ensures
        r.deep_view() == startup_view(to.deep_view(), picture.deep_view()),
{
    let photo = match picture {
        PictureOf::Absent => None,
        PictureOf::Link(url) => Some(PhotoOf::Link(url.clone())),
        PictureOf::Local(path) => Some(PhotoOf::File(path.clone())),
    };
    StartupMessage { to, photo, text: STARTUP_TEXT.to_string() }
}

/// Where the configured picture of a startup message is, given the URL that a link is if
/// it is one: at that URL where it is written like a link, else in a file of this name.
pub open spec fn startup_located(image: Seq<char>, url: Option<Seq<char>>) -> PictureOf<Seq<char>> {
    if is_link(image) && url is Some {
        PictureOf::Link(url->0)
    } else {
        PictureOf::Local(image)
    }
}

/// Where the configured picture of a startup message is, given the URL that a link is if
/// it is one.
pub fn locate_startup(image: String, url: Option<String>) -> (r: PictureOf<String>)
    ensures
        r.deep_view() == startup_located(image@, url.deep_view()),
{
    match url {
        Some(u) => if starts_with(&image, "http://") || starts_with(&image, "https://") {
            PictureOf::Link(u)
        } else {
            PictureOf::Local(image)
        },
        None => PictureOf::Local(image),
    }
}

/// Where the configured picture of a startup message is.
pub open spec fn startup_source(image: Option<Seq<char>>) -> PictureOf<Seq<char>> {
    match image {
        Some(path) => startup_located(path, url_text(path)),
        None => PictureOf::Absent,
    }
}

/// Where the configured picture of a startup message is.
pub fn find_startup_picture(image: Option<&str>) -> (r: PictureOf<String>)
    ensures
        r.deep_view() == startup_source(image.deep_view()),
{
    match image {
        Some(path) => locate_startup(path.to_string(), parse_url(path)),
        None => PictureOf::Absent,
    }
}

/// The startup message to someone, with the configured picture if there is one.
pub fn startup_message(to: Recipient, image: Option<&str>) -> (r: StartupMessage)
    ensures
        r.deep_view() == startup_view(to.deep_view(), startup_source(image.deep_view())),
{
    startup_from(to, &find_startup_picture(image))
}

/// The startup messages to several, in order.
pub open spec fn startup_views(list: Seq<RecipientView>, picture: PictureOf<Seq<char>>) -> Seq<
    StartupView,
> {
    list.map_values(|to: RecipientView| startup_view(to, picture))
}

/// The startup messages to several, in order, with a picture that was looked for.
pub fn startups_from(list: Vec<Recipient>, picture: &PictureOf<String>) -> (r: Vec<StartupMessage>)
    ensures
        r.deep_view() == startup_views(list.deep_view(), picture.deep_view()),
{
    let ghost all = startup_views(list.deep_view(), picture.deep_view());
    let mut out: Vec<StartupMessage> = Vec::new();
    assert(out.deep_view() =~= all.take(0));
    for i in 0..list.len()
        invariant
            all == startup_views(list.deep_view(), picture.deep_view()),
            out.deep_view() == all.take(i as int),
    {
        assert(list.deep_view()[i as int] == list@[i as int].deep_view());
        let ghost before = out.deep_view();
        let m = startup_from(list[i].duplicate(), picture);
        assert(m.deep_view() == all[i as int]);
        out.push(m);
        assert(out.deep_view() =~= before.push(all[i as int]));
        assert(all.take(i + 1) =~= all.take(i as int).push(all[i as int]));
    }
    assert(all.take(all.len() as int) =~= all);
    out
}

/// Who is listed to get the startup message, in order, if the file is a JSON array.
pub fn startup_list(text: &str) -> (r: Option<Vec<Recipient>>)
    ensures
        match r {
            Some(list) => startup_recipients(text@) == Some(list.deep_view()),
            None => startup_recipients(text@) is None,
        },
{
    let v = match json::parse(text) {
        Some(v) => v,
        None => return None,
    };
    let list = match json::as_array(&v) {
        Some(list) => list,
        None => return None,
    };
    let ghost items = json_views(list@);
    let mut out: Vec<Recipient> = Vec::new();
    assert(out.deep_view() =~= seq![]);
    for i in 0..list.len()
        invariant
            items == json_views(list@),
            out.deep_view() == recipients_in(items, i as nat),
    {
        assert(items[i as int] == json_view(list@[i as int]));
        let ghost before = out.deep_view();
        match json::as_str(&list[i]) {
            Some(s) => {
                let who = recipient(s);
                out.push(who);
                assert(out.deep_view() =~= before.push(who.deep_view()));
            },
            None => match json::as_number_text(&list[i]) {
                Some(s) => {
                    let who = recipient(&s);
                    out.push(who);
                    assert(out.deep_view() =~= before.push(who.deep_view()));
                },
                None => {},
            },
        }
    }
    Some(out)
}

/// How long to wait between two startup messages, in milliseconds.
pub const STARTUP_PAUSE_MS: u64 = 300;

/// The startup messages to everyone who is listed, in order, with the configured picture
/// if there is one. Without a JSON array there are none.
pub fn send_startup_to_all(text: &str, image: Option<&str>) -> (r: Option<Vec<StartupMessage>>)
    ensures
        match r {
            Some(messages) => startup_recipients(text@) is Some && messages.deep_view()
                == startup_views(
                startup_recipients(text@)->0,
                startup_source(image.deep_view()),
            ),
            None => startup_recipients(text@) is None,
        },
{
    match startup_list(text) {
        Some(list) => Some(startups_from(list, &find_startup_picture(image))),
        None => None,
    }
}

/// Where the startup message of the channel goes: to the target, else to the channel, and
/// nowhere if neither is set.
pub open spec fn startup_target(target: Option<Seq<char>>, channel: Option<Seq<char>>) -> Option<
    RecipientView,
> {
    let raw = match target {
        Some(t) => t,
        None => match channel {
            Some(c) => c,
            None => seq![],
        },
    };
    if raw.len() == 0 {
        None
    } else {
        Some(recipient_of(raw))
    }
}

/// The startup message of the channel: with the configured picture, else the usual one,
/// if that exists.
pub open spec fn target_startup(
    target: Option<Seq<char>>,
    channel: Option<Seq<char>>,
    picture: Option<Seq<char>>,
    exists: bool,
) -> Option<StartupView> {
    match startup_target(target, channel) {
        Some(to) => Some(
            startup_view(
                to,
                match picture {
                    Some(path) => if exists {
                        PictureOf::Local(path)
                    } else {
                        PictureOf::Absent
                    },
                    None => PictureOf::Absent,
                },
            ),
        ),
        None => None,
    }
}

/// The startup message of the channel, if it goes anywhere. `configured` is the picture
/// that is set, `usual_exists` says whether there is the usual one, and `exists` whether
/// the one of the two that is to be taken is there.
pub fn send_startup_to_target(
    target: Option<&str>,
    channel: Option<&str>,
    configured: Option<&str>,
    usual_exists: bool,
    exists: bool,
) -> (r: Option<StartupMessage>)
    ensures
        match r {
            Some(message) => target_startup(
                target.deep_view(),
                channel.deep_view(),
                startup_picture(configured.deep_view(), usual_exists),
                exists,
            ) == Some(message.deep_view()),
            None => startup_target(target.deep_view(), channel.deep_view()) is None,
        },
{
    let raw = match target {
        Some(t) => t,
        None => match channel {
            Some(c) => c,
            None => return None,
        },
    };
    if raw.is_empty() {
        return None;
    }
    let picture = match startup_image(configured, usual_exists) {
        Some(path) => if exists {
            PictureOf::Local(path)
        } else {
            PictureOf::Absent
        },
        None => PictureOf::Absent,
    };
    Some(startup_from(recipient(raw), &picture))
}

// ---------------------------------------------------------------------------
// The keyboard that everyone sees
// ---------------------------------------------------------------------------

/// How the keyboard that everyone sees is brought up anew.
#[derive(Debug, Clone, PartialEq, Eq)]
pub struct KeyboardRefresh {
    /// The message that carried it, to be deleted.
    pub previous: Option<i64>,
    /// The message that is to carry it.
    pub message: Action,
}

/// How the keyboard that everyone sees is brought up anew in a chat. Without
/// administrators there is none. The state must be able to keep which message carries
/// it.
pub fn ensure_persistent_public_keyboard(admin: &Admin, st: &Value, chat: i64) -> (r: Option<
    KeyboardRefresh,
>)
    ensures
        r is Some <==> admin@.password is Some && takes_keyboard_message(json_view(*st)),
        r matches Some(refresh) ==> {
            &&& refresh.previous == keyboard_message(json_view(*st), chat)
            &&& refresh.message.deep_view() == illustrated(
                chat,
                None,
                "."@,
                MarkupView::Reply(public_view()),
            )
        },
{
    if !admin.enabled() || !can_take_keyboard_message(st) {
        return None;
    }
    Some(
        KeyboardRefresh {
            previous: get_keyboard_message(st, chat),
            message: ActionOf::Send {
                chat,
                text: ".".to_string(),
                markup: Markup::Reply(admin.public_keyboard()),
            },
        },
    )
}

// ---------------------------------------------------------------------------
// The invitation to the channel
// ---------------------------------------------------------------------------

/// What is to be done next to invite someone to the channel.
#[derive(Debug, Clone, PartialEq, Eq)]
pub enum InviteOf<A> {
    /// Create a link for one member.
    Create { channel: i64 },
    /// Export the link of the channel.
    Export { channel: i64 },
    /// Send this.
    Done(A),
}

/// What is to be done next to invite someone to the channel.
pub type Invite = InviteOf<Action>;

/// What is to be done next to invite someone to the channel.
pub type InviteView = InviteOf<ActionView>;

impl DeepView for InviteOf<Action> {
    type V = InviteView;

    open spec fn deep_view(&self) -> InviteView {
        match self {
            InviteOf::Create { channel } => InviteOf::Create { channel: *channel },
            InviteOf::Export { channel } => InviteOf::Export { channel: *channel },
            InviteOf::Done(action) => InviteOf::Done(action.deep_view()),
        }
    }
}

/// The invitation with a link.
pub open spec fn invitation(chat: i64, link: Seq<char>) -> ActionView {
    plain_view(chat, "Доступ предоставлен — присоединяйтесь к каналу: "@ + link)
}

/// The invitation with the link that is configured; an empty message where none is.
pub open spec fn static_invitation(chat: i64, link: Option<Seq<char>>) -> ActionView {
    match link {
        Some(l) => if l.len() > 0 {
            invitation(chat, l)
        } else {
            plain_view(chat, ""@)
        },
        None => plain_view(chat, ""@),
    }
}

fn invite(chat: i64, link: &str) -> (r: Action)
    ensures
        r.deep_view() == invitation(chat, link@),
{
    plain(chat, join2("Доступ предоставлен — присоединяйтесь к каналу: ", link))
}

fn invite_statically(chat: i64, link: Option<&str>) -> (r: Action)
    ensures
        r.deep_view() == static_invitation(chat, link.deep_view()),
{
    match link {
        Some(l) => if !l.is_empty() {
            invite(chat, l)
        } else {
            plain(chat, "".to_string())
        },
        None => plain(chat, "".to_string()),
    }
}

/// The first step to invite someone: a link for one member if the channel is configured.
pub open spec fn invite_step(
    chat: i64,
    channel: Option<Seq<char>>,
    static_link: Option<Seq<char>>,
) -> InviteView {
    match channel {
        Some(c) => match parse_i64_text(c) {
            Some(id) => InviteOf::Create { channel: id },
            None => InviteOf::Done(static_invitation(chat, static_link)),
        },
        None => InviteOf::Done(static_invitation(chat, static_link)),
    }
}

/// The step after a link was to be created: where that failed, the link of the channel.
pub open spec fn created_step(chat: i64, channel: i64, link: Option<Seq<char>>) -> InviteView {
    match link {
        Some(l) => InviteOf::Done(invitation(chat, l)),
        None => InviteOf::Export { channel },
    }
}

/// The step after the link of the channel was to be exported: where that failed, the link that
/// is configured.
pub open spec fn exported_step(
    chat: i64,
    link: Option<Seq<char>>,
    static_link: Option<Seq<char>>,
) -> ActionView {
    match link {
        Some(l) => invitation(chat, l),
        None => static_invitation(chat, static_link),
    }
}

/// The first step to invite someone: a link for one member if the channel is configured.
pub fn send_channel_invite(chat: i64, channel: Option<&str>, static_link: Option<&str>) -> (r:
    Invite)
    ensures
        r.deep_view() == invite_step(chat, channel.deep_view(), static_link.deep_view()),
{
    match channel {
        Some(c) => match parse_i64(c) {
            Some(channel) => InviteOf::Create { channel },
            None => InviteOf::Done(invite_statically(chat, static_link)),
        },
        None => InviteOf::Done(invite_statically(chat, static_link)),
    }
}

/// The step after a link was to be created: where that failed, the link of the channel.
pub fn invite_created(chat: i64, channel: i64, link: Option<&str>) -> (r: Invite)
    ensures
        r.deep_view() == created_step(chat, channel, link.deep_view()),
{
    match link {
        Some(l) => InviteOf::Done(invite(chat, l)),
        None => InviteOf::Export { channel },
    }
}

/// The step after the link of the channel was to be exported: where that failed, the
/// link that is configured.
pub fn invite_exported(chat: i64, link: Option<&str>, static_link: Option<&str>) -> (r: Action)
    ensures
        r.deep_view() == exported_step(chat, link.deep_view(), static_link.deep_view()),
{
    match link {
        Some(l) => invite(chat, l),
        None => invite_statically(chat, static_link),
    }
}

// ---------------------------------------------------------------------------
// Laws
// ---------------------------------------------------------------------------

/// A greeting introduces the bot, in the chat of the user, with the caption that is
/// configured or else the usual text, below the picture if there is one and over the
/// keyboard that everyone sees; it lists the chats, and brings that keyboard up anew once the
/// message that carried it is dropped.
pub proof fn greeting_introduces(
    chat: i64,
    caption: Option<Seq<char>>,
    photo: Option<PhotoOf<Seq<char>>>,
    carrier: Option<i64>,
    authed: bool,
    payments_on: bool,
    active: bool,
    id: i64,
)
    ensures
        ({
            let plan = greeting(chat, caption, photo, carrier, authed, payments_on, active);
            let text = if caption is Some {
                caption->0
            } else {
                STARTUP_TEXT@
            };
            let keyboard = MarkupView::Reply(public_view());
            &&& photo is None ==> plan[0] == ActionView::Send { chat, text, markup: keyboard }
            &&& photo matches Some(picture) ==> plan[0] == ActionView::SendPhoto {
                chat,
                photo: picture,
                caption: text,
                markup: keyboard,
            }
            &&& plan.contains(ActionOf::SendCatalog { chat })
            &&& plan.contains(ActionOf::EnsurePublicKeyboard { chat })
            &&& plan.contains(ActionOf::DropKeyboardMessage { chat, carrier: id }) <==> carrier
                == Some(id)
        }),
{
    let plan = greeting(chat, caption, photo, carrier, authed, payments_on, active);
    assert(plan[1] == ActionView::SendCatalog { chat });
    if carrier is Some {
        assert(plan[2] == ActionView::DropKeyboardMessage { chat, carrier: carrier->0 });
        assert(plan[3] == ActionView::EnsurePublicKeyboard { chat });
    } else {
        assert(plan[2] == ActionView::EnsurePublicKeyboard { chat });
    }
}

/// A greeting ends with what the user has access to: the catalog for administrators, for
/// those who have paid, and for everyone where nobody has to pay; an invoice for the others,
/// and for nobody else. Administrators get the panel, and nobody else does.
pub proof fn greeting_goes_by_access(
    chat: i64,
    caption: Option<Seq<char>>,
    photo: Option<PhotoOf<Seq<char>>>,
    carrier: Option<i64>,
    authed: bool,
    payments_on: bool,
    active: bool,
)
    ensures
        ({
            let plan = greeting(chat, caption, photo, carrier, authed, payments_on, active);
            let pays = !authed && payments_on && !active;
            &&& plan.contains(ActionOf::StartPayment { chat }) <==> pays
            &&& plan.contains(ActionOf::ShowCatalog { chat, page: 1 }) <==> !pays
            &&& (exists|i: int|
                1 <= i < plan.len() && #[trigger] plan[i] == panel_message(
                    chat,
                    PANEL_TEXT@,
                )) <==> authed
            &&& forall|i: int|
                0 <= i < plan.len() ==> match #[trigger] plan[i] {
                    ActionOf::Send { chat: to, .. } => to == chat,
                    ActionOf::SendPhoto { chat: to, .. } => to == chat,
                    ActionOf::SendCatalog { chat: to } => to == chat,
                    ActionOf::DropKeyboardMessage { chat: to, .. } => to == chat,
                    ActionOf::EnsurePublicKeyboard { chat: to } => to == chat,
                    ActionOf::ShowCatalog { chat: to, .. } => to == chat,
                    ActionOf::StartPayment { chat: to } => to == chat,
                    _ => false,
                }
        }),
{
    let plan = greeting(chat, caption, photo, carrier, authed, payments_on, active);
    let n = plan.len() as int;
    if authed {
        assert(plan[n - 2] == panel_message(chat, PANEL_TEXT@));
        assert(plan[n - 1] == ActionView::ShowCatalog { chat, page: 1 });
    } else if payments_on && !active {
        assert(plan[n - 1] == ActionView::StartPayment { chat });
    } else {
        assert(plan[n - 1] == ActionView::ShowCatalog { chat, page: 1 });
    }
}

/// The picture is the one that is configured, without white space and quotes around it; else
/// the usual one if it is there; else there is none.
pub proof fn configured_picture_comes_first(name: Seq<char>)
    requires
        name.len() > 0,
        !is_white_space(name[0]) && name[0] != '"',
        !is_white_space(name.last()) && name.last() != '"',
    ensures
        startup_picture(Some(name), true) == Some(name),
        startup_picture(Some(name), false) == Some(name),
        startup_picture(Some(seq!['"'] + name.push('"')), false) == Some(name),
        startup_picture(None, true) == Some(STARTUP_PICTURE@),
        startup_picture(None, false) is None,
{
    trim_leaves_trimmed(name, CharKind::Space);
    trim_leaves_trimmed(name, CharKind::Quote);
    let quoted = seq!['"'] + name.push('"');
    assert(quoted[0] == '"' && quoted.last() == '"');
    trim_leaves_trimmed(quoted, CharKind::Space);
    assert(quoted.drop_first() =~= name.push('"'));
    assert(name.push('"')[0] == name[0]);
    assert(trim_start_text(name.push('"'), CharKind::Quote) == name.push('"'));
    assert(trim_start_text(quoted, CharKind::Quote) == name.push('"'));
    assert(name.push('"').drop_last() =~= name);
    assert(trim_end_text(name, CharKind::Quote) == name);
    assert(trim_end_text(name.push('"'), CharKind::Quote) == name);
}

/// A picture that is written like a link is sent from there, if it is a URL; any other is a
/// file of that name. A greeting goes without one that is no URL.
pub proof fn links_are_links(rest: Seq<char>, url: Seq<char>, path: Seq<char>)
    requires
        path.len() == 0 || path[0] != 'h',
    ensures
        located("http://"@ + rest, Some(url)) == PictureOf::Link(url),
        located("https://"@ + rest, Some(url)) == PictureOf::Link(url),
        located("http://"@ + rest, None) is Absent,
        located(path, Some(url)) == PictureOf::Local(path),
        located(path, None) == PictureOf::Local(path),
        startup_located("http://"@ + rest, Some(url)) == PictureOf::Link(url),
        startup_located("https://"@ + rest, Some(url)) == PictureOf::Link(url),
        startup_located("https://"@ + rest, None) == PictureOf::Local("https://"@ + rest),
        startup_located(path, Some(url)) == PictureOf::Local(path),
{
    reveal_strlit("http://");
    reveal_strlit("https://");
    let a = "http://"@ + rest;
    let b = "https://"@ + rest;
    assert("http://"@ =~= a.subrange(0, 7));
    assert("https://"@ =~= b.subrange(0, 8));
    if "http://"@.is_prefix_of(path) {
        assert(path.subrange(0, 7)[0] == 'h');
    }
    if "https://"@.is_prefix_of(path) {
        assert(path.subrange(0, 8)[0] == 'h');
    }
}

/// A picture is looked for as it is given, below the working directory and below `data`; a
/// path from the root is looked for there alone.
pub proof fn pictures_are_looked_for(image: Seq<char>, dir: Seq<char>)
    requires
        image.len() > 0,
        image[0] != '/',
        dir.len() > 0,
        dir.last() != '/',
    ensures
        places(image, Some(dir)) == seq![image, dir + "/"@ + image, "data/"@ + image],
        places(image, Some(dir.push('/'))) == seq![image, dir + "/"@ + image, "data/"@ + image],
        places(image, None) == seq![image, image, "data/"@ + image],
        places("/"@ + image, Some(dir)) == seq!["/"@ + image, "/"@ + image, "/"@ + image],
{
    reveal_strlit("/");
    reveal_strlit("data");
    reveal_strlit("data/");
    if "/"@.is_prefix_of(image) {
        assert(image.subrange(0, 1)[0] == '/');
    }
    let root = "/"@ + image;
    assert("/"@ =~= root.subrange(0, 1));
    assert("data"@ + "/"@ =~= "data/"@);
    assert("data"@ + "/"@ + image =~= "data/"@ + image);
    assert(dir.push('/') + image =~= dir + "/"@ + image);
    assert(places(image, Some(dir)) =~= seq![image, dir + "/"@ + image, "data/"@ + image]);
    assert(places(image, Some(dir.push('/'))) =~= seq![
        image,
        dir + "/"@ + image,
        "data/"@ + image,
    ]);
    assert(places(image, None) =~= seq![image, image, "data/"@ + image]);
    assert(places(root, Some(dir)) =~= seq![root, root, root]);
}

/// The path that is taken is the first that exists; where none does there is none.
pub proof fn first_path_is_taken(paths: Seq<Seq<char>>, exists: Seq<bool>, i: int)
    requires
        paths.len() == exists.len(),
        forall|k: int| 0 <= k < paths.len() ==> (#[trigger] paths[k]).len() > 0,
    ensures
        0 <= i < exists.len() && exists[i] && (forall|k: int| 0 <= k < i ==> !#[trigger] exists[k])
            ==> chosen_path(paths, exists) == Some(paths[i]),
        (forall|k: int| 0 <= k < exists.len() ==> !#[trigger] exists[k]) ==> chosen_path(
            paths,
            exists,
        ) is None,
{
    lemma_first_existing(exists, i);
    lemma_first_existing(exists, exists.len() as int);
}

proof fn lemma_first_existing(exists: Seq<bool>, i: int)
    ensures
        0 <= i < exists.len() && exists[i] && (forall|k: int| 0 <= k < i ==> !#[trigger] exists[k])
            ==> first_existing(exists) == i,
        (forall|k: int| 0 <= k < exists.len() ==> !#[trigger] exists[k]) ==> first_existing(exists)
            == exists.len(),
    decreases exists.len(),
{
    if exists.len() > 0 {
        let rest = exists.skip(1);
        lemma_first_existing(rest, i - 1);
        assert forall|k: int| 0 <= k < rest.len() implies #[trigger] rest[k] == exists[k + 1] by {}
        if forall|k: int| 0 <= k < exists.len() ==> !#[trigger] exists[k] {
            assert(!exists[0]);
            assert forall|k: int| 0 <= k < rest.len() implies !#[trigger] rest[k] by {
                assert(!exists[k + 1]);
            }
        }
        if 0 < i < exists.len() && exists[i] && (forall|k: int|
            0 <= k < i ==> !#[trigger] exists[k]) {
            assert(!exists[0]);
            assert(rest[i - 1] == exists[i]);
            assert forall|k: int| 0 <= k < i - 1 implies !#[trigger] rest[k] by {
                assert(!exists[k + 1]);
            }
        }
    }
}

/// An invoice that was created is sent to the chat, with its address if it has one and a
/// button that asks about it; where there are administrators the keyboard that everyone sees
/// follows. One that could not be created is told with the reason, and nothing else is sent.
pub proof fn created_invoice_is_sent(
    chat: i64,
    invoice: InvoiceView,
    has_admins: bool,
    e: Seq<char>,
)
    ensures
        ({
            let plan = payment_plan(chat, Ok(invoice), has_admins);
            &&& plan[0] matches ActionOf::Send { chat: to, text, markup: MarkupView::Inline(rows) }
                && to == chat && (rows.last().last() matches ButtonOf::Callback { data, .. } && data
                == check_data(invoice.invoice_id)) && (invoice.pay_url matches Some(url) ==> exists|
                head: Seq<char>,
            | #[trigger] (head + url) == text)
            &&& plan.contains(ActionOf::EnsurePublicKeyboard { chat }) <==> has_admins
            &&& plan.len() <= 2
        }),
        ({
            let plan = payment_plan(chat, Err(e), has_admins);
            &&& plan.len() == 1
            &&& plan[0] matches ActionOf::Send { chat: to, text, .. } && to == chat && exists|
                head: Seq<char>,
            | #[trigger] (head + e) == text
        }),
{
    let plan = payment_plan(chat, Ok(invoice), has_admins);
    if invoice.pay_url is Some {
        let head = PAY_INTRO@ + "\n\nСсылка для оплаты: "@;
        assert(head + invoice.pay_url->0 =~= plan[0]->Send_text);
    }
    if has_admins {
        assert(plan[1] == ActionView::EnsurePublicKeyboard { chat });
    }
    assert("Не удалось создать счёт: "@ + e == payment_plan(
        chat,
        Err(e),
        has_admins,
    )[0]->Send_text);
}

/// Whom an item of the list names: a number, or a string that spells one, names the chat of
/// that id, any other string what it says, and anything else nobody. They come in the order
/// of the list.
pub proof fn listed_items_name_recipients(
    items: Seq<JsonView>,
    id: i64,
    name: Seq<char>,
    other: JsonView,
)
    requires
        parse_i64_text(name) is None,
        !(other is Str) && !(other is Integer) && !(other is Float),
    ensures
        ({
            let n = items.len();
            let before = recipients_in(items, n);
            let number = items.push(JsonView::Integer(id as int));
            let spelled = items.push(JsonView::Str(int_text(id as int)));
            let named = items.push(JsonView::Str(name));
            &&& recipients_in(number, n + 1) == before.push(RecipientOf::Id(id))
            &&& recipients_in(spelled, n + 1) == before.push(RecipientOf::Id(id))
            &&& recipients_in(named, n + 1) == before.push(RecipientOf::Name(name))
            &&& recipients_in(items.push(other), n + 1) == before
            &&& recipients_in(items, 0).len() == 0
        }),
{
    int_text_parses_back(id);
    lemma_recipients(items, JsonView::Integer(id as int), items.len());
    lemma_recipients(items, JsonView::Str(int_text(id as int)), items.len());
    lemma_recipients(items, JsonView::Str(name), items.len());
    lemma_recipients(items, other, items.len());
}

proof fn lemma_recipients(items: Seq<JsonView>, v: JsonView, n: nat)
    requires
        n <= items.len(),
    ensures
        recipients_in(items.push(v), n) == recipients_in(items, n),
    decreases n,
{
    if n > 0 {
        lemma_recipients(items, v, (n - 1) as nat);
        assert(items.push(v)[n - 1] == items[n - 1]);
    }
}

/// Everyone who is listed gets the startup message, once for each place on the list and in its
/// order: the introduction, as the caption of the picture where one is configured, which is a
/// link where it is written like one and is a URL, else a file.
pub proof fn everyone_listed_gets_the_startup(
    text: Seq<char>,
    items: Seq<JsonView>,
    image: Option<Seq<char>>,
    i: int,
)
    requires
        json_of_text(text) == Some(JsonView::Array(items)),
        0 <= i < recipients_in(items, items.len()).len(),
    ensures
        startup_recipients(text) is Some,
        ({
            let list = startup_recipients(text)->0;
            let messages = startup_views(list, startup_source(image));
            &&& list == recipients_in(items, items.len())
            &&& messages.len() == list.len()
            &&& messages[i].to == list[i]
            &&& messages[i].text == STARTUP_TEXT@
            &&& image is None <==> messages[i].photo is None
            &&& image matches Some(path) ==> messages[i].photo == Some(
                if is_link(path) && url_text(path) is Some {
                    PhotoOf::Link(url_text(path)->0)
                } else {
                    PhotoOf::File(path)
                },
            )
        }),
{
}

/// The startup message of the channel goes to the target if that is set, else to the channel,
/// and nowhere where the one of them that counts is empty or neither is set; it has the
/// picture where that exists, and is the text alone where it does not.
pub proof fn channel_gets_the_startup(
    target: Seq<char>,
    channel: Option<Seq<char>>,
    picture: Seq<char>,
    exists: bool,
)
    requires
        target.len() > 0,
    ensures
        target_startup(Some(target), channel, Some(picture), exists) == target_startup(
            None,
            Some(target),
            Some(picture),
            exists,
        ),
        target_startup(Some(target), channel, Some(picture), exists) matches Some(m) && m.to
            == recipient_of(target) && m.text == STARTUP_TEXT@ && m.photo == (if exists {
            Some(PhotoOf::File(picture))
        } else {
            None
        }),
        target_startup(Some(target), channel, None, exists) matches Some(m) && m.photo is None,
        target_startup(None, None, Some(picture), exists) is None,
        target_startup(Some(Seq::empty()), channel, Some(picture), exists) is None,
{
}

/// An invitation gives the link, in the chat; where only the configured one is left and there
/// is none, nothing is said in it.
pub proof fn invitations_give_the_link(chat: i64, link: Seq<char>)
    ensures
        invitation(chat, link) matches ActionOf::Send { chat: to, text, .. } && to == chat
            && exists|head: Seq<char>| #[trigger] (head + link) == text,
        link.len() > 0 ==> static_invitation(chat, Some(link)) == invitation(chat, link),
        static_invitation(chat, None) == plain_view(chat, ""@),
        static_invitation(chat, Some(Seq::empty())) == plain_view(chat, ""@),
{
    assert("Доступ предоставлен — присоединяйтесь к каналу: "@ + link == invitation(
        chat,
        link,
    )->Send_text);
}

/// A link is created for the channel that is configured as a number; where that is not possible
/// the link of that channel is exported, and where that is not possible either, or no channel is
/// configured, the configured link is taken. A link once had is sent to the user.
pub proof fn invitations_fall_back(
    chat: i64,
    id: i64,
    channel: Option<Seq<char>>,
    link: Seq<char>,
    static_link: Option<Seq<char>>,
)
    ensures
        invite_step(chat, Some(int_text(id as int)), static_link) == (InviteView::Create {
            channel: id,
        }),
        channel is None || parse_i64_text(channel->0) is None ==> (invite_step(
            chat,
            channel,
            static_link,
        ) matches InviteOf::Done(a) && a == exported_step(chat, None, static_link)),
        created_step(chat, id, None) == (InviteView::Export { channel: id }),
        created_step(chat, id, Some(link)) matches InviteOf::Done(a) && a == exported_step(
            chat,
            Some(link),
            static_link,
        ),
        exported_step(chat, Some(link), static_link) matches ActionOf::Send { chat: to, text, .. }
            && to == chat && exists|head: Seq<char>| #[trigger] (head + link) == text,
        link.len() > 0 ==> exported_step(chat, None, Some(link)) == exported_step(
            chat,
            Some(link),
            static_link,
        ),
{
    int_text_parses_back(id);
}

} // verus!
