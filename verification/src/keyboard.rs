//! Keyboards that go with a message.
use vstd::prelude::*;

verus! {

/// A button under a message.
#[derive(Debug, Clone, PartialEq, Eq)]
pub enum ButtonOf<T> {
    /// Sends `data` back to the bot when it is pressed.
    Callback { text: T, data: T },
    /// Opens a link.
    Url { text: T, url: T },
}

/// A button under a message.
pub type InlineKeyboardButton = ButtonOf<String>;

/// What a button shows and does.
pub type ButtonView = ButtonOf<Seq<char>>;

impl DeepView for ButtonOf<String> {
    type V = ButtonView;

    open spec fn deep_view(&self) -> ButtonView {
        match self {
            ButtonOf::Callback { text, data } => ButtonOf::Callback { text: text@, data: data@ },
            ButtonOf::Url { text, url } => ButtonOf::Url { text: text@, url: url@ },
        }
    }
}

/// A button that sends data back to the bot.
pub open spec fn callback_view(text: Seq<char>, data: Seq<char>) -> ButtonView {
    ButtonOf::Callback { text, data }
}

/// A button that opens a link.
pub open spec fn url_view(text: Seq<char>, url: Seq<char>) -> ButtonView {
    ButtonOf::Url { text, url }
}

/// A button that sends data back to the bot.
pub fn callback(text: String, data: String) -> (r: InlineKeyboardButton)
    ensures
        r.deep_view() == callback_view(text@, data@),
{
    ButtonOf::Callback { text, data }
}

/// A button that opens a link.
pub fn link(text: String, target: String) -> (r: InlineKeyboardButton)
    ensures
        r.deep_view() == url_view(text@, target@),
{
    ButtonOf::Url { text, url: target }
}

/// Rows of buttons under a message.
#[derive(Debug, Clone, PartialEq, Eq)]
pub struct InlineKeyboardMarkup {
    pub rows: Vec<Vec<InlineKeyboardButton>>,
}

/// Rows of buttons under a message.
pub type InlineView = Seq<Seq<ButtonView>>;

impl DeepView for InlineKeyboardMarkup {
    type V = InlineView;

    open spec fn deep_view(&self) -> InlineView {
        self.rows.deep_view()
    }
}

/// A row with one button.
pub fn row1(a: InlineKeyboardButton) -> (r: Vec<InlineKeyboardButton>)
    ensures
        r.deep_view() == seq![a.deep_view()],
{
    let mut r: Vec<InlineKeyboardButton> = Vec::new();
    r.push(a);
    assert(r.deep_view() =~= seq![a.deep_view()]);
    r
}

/// A row with two buttons.
pub fn row2(a: InlineKeyboardButton, b: InlineKeyboardButton) -> (r: Vec<InlineKeyboardButton>)
    ensures
        r.deep_view() == seq![a.deep_view(), b.deep_view()],
{
    let mut r: Vec<InlineKeyboardButton> = Vec::new();
    r.push(a);
    r.push(b);
    assert(r.deep_view() =~= seq![a.deep_view(), b.deep_view()]);
    r
}

/// Adds a row below the others.
pub fn push_row(rows: &mut Vec<Vec<InlineKeyboardButton>>, row: Vec<InlineKeyboardButton>)
    ensures
        final(rows).deep_view() == old(rows).deep_view().push(row.deep_view()),
{
    rows.push(row);
    assert(rows.deep_view() =~= old(rows).deep_view().push(row.deep_view()));
}

/// A keyboard in place of the one to type on.
#[derive(Debug, Clone, PartialEq, Eq)]
pub struct KeyboardMarkup {
    pub rows: Vec<Vec<String>>,
    /// Whether the keyboard is shrunk to its buttons.
    pub resize_keyboard: bool,
    /// Whether the keyboard goes away after one use.
    pub one_time_keyboard: bool,
}

/// What a keyboard shows.
pub struct KeyboardView {
    pub rows: Seq<Seq<Seq<char>>>,
    pub resize_keyboard: bool,
    pub one_time_keyboard: bool,
}

impl DeepView for KeyboardMarkup {
    type V = KeyboardView;

    open spec fn deep_view(&self) -> KeyboardView {
        KeyboardView {
            rows: self.rows.deep_view(),
            resize_keyboard: self.resize_keyboard,
            one_time_keyboard: self.one_time_keyboard,
        }
    }
}

/// A keyboard that is shrunk to its buttons and stays.
pub open spec fn lasting_keyboard(rows: Seq<Seq<Seq<char>>>) -> KeyboardView {
    KeyboardView { rows, resize_keyboard: true, one_time_keyboard: false }
}

/// A keyboard of one row that is shrunk to its buttons and stays.
pub fn one_row_keyboard(labels: Vec<String>) -> (r: KeyboardMarkup)
    ensures
        r.deep_view() == lasting_keyboard(seq![labels.deep_view()]),
{
    let mut rows: Vec<Vec<String>> = Vec::new();
    rows.push(labels);
    assert(rows.deep_view() =~= seq![labels.deep_view()]);
    KeyboardMarkup { rows, resize_keyboard: true, one_time_keyboard: false }
}

/// The keyboard that goes with a message, if any.
#[derive(Debug, Clone, PartialEq, Eq)]
pub enum Markup {
    Plain,
    Inline(InlineKeyboardMarkup),
    Reply(KeyboardMarkup),
}

/// The keyboard that goes with a message, if any.
pub enum MarkupView {
    Plain,
    Inline(InlineView),
    Reply(KeyboardView),
}

impl DeepView for Markup {
    type V = MarkupView;

    open spec fn deep_view(&self) -> MarkupView {
        match self {
            Markup::Plain => MarkupView::Plain,
            Markup::Inline(kb) => MarkupView::Inline(kb.deep_view()),
            Markup::Reply(kb) => MarkupView::Reply(kb.deep_view()),
        }
    }
}

/// A lasting keyboard has the given labels, fits their size, and stays once one was pressed.
pub proof fn lasting_keyboards_stay(rows: Seq<Seq<Seq<char>>>)
    ensures
        lasting_keyboard(rows).rows == rows,
        lasting_keyboard(rows).resize_keyboard,
        !lasting_keyboard(rows).one_time_keyboard,
{
}

/// A button shows its text; one sends its data, the other leads to its link.
pub proof fn buttons_do_what_they_say(text: Seq<char>, target: Seq<char>)
    ensures
        callback_view(text, target) matches ButtonOf::Callback { text: shown, data } && shown
            == text && data == target,
        url_view(text, target) matches ButtonOf::Url { text: shown, url } && shown == text && url
            == target,
{
}

} // verus!
