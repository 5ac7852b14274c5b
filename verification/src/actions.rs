//! What the bot is to do, in order.
use crate::keyboard::{Markup, MarkupView};
use vstd::prelude::*;

verus! {

/// Where a picture comes from.
#[derive(Debug, Clone, PartialEq, Eq)]
pub enum PhotoOf<T> {
    File(T),
    Link(T),
}

/// One thing that the bot is to do. `T` stands for texts, `M` for keyboards and `L` for
/// lists of texts.
#[derive(Debug, Clone, PartialEq, Eq)]
pub enum ActionOf<T, M, L> {
    /// Send a message.
    Send { chat: i64, text: T, markup: M },
    /// Send a picture with a caption.
    SendPhoto { chat: i64, photo: PhotoOf<T>, caption: T, markup: M },
    /// Answer the button press that is being handled, as an alert or in passing.
    Answer { note: Option<T>, alert: bool },
    /// Replace the text of a message.
    Edit { chat: i64, message: i32, text: T },
    /// Delete the message that carries the public keyboard of a chat, and forget it if
    /// that succeeds.
    DropKeyboardMessage { chat: i64, carrier: i64 },
    /// Send a fresh message that carries the public keyboard of a chat.
    EnsurePublicKeyboard { chat: i64 },
    /// Record in the database that a chat has paid for a subscription from now on.
    GrantAccess { chat: i64 },
    /// Add or renew a subscriber.
    AddOrRenew { user: i64, months: u64 },
    /// Add a payment to the ledger.
    AppendRecord { user: i64, months: u64 },
    /// Lift the ban on a user in every chat of the list of target chats.
    UnbanEverywhere { user: i64 },
    /// Lift the ban on a user in one chat.
    Unban { chat: i64, user: i64 },
    /// Persist the state.
    WriteState,
    /// Persist the list of users with free access that the commands keep, and say how
    /// that went.
    SaveFreeUsers { users: L, chat: i64, saved: T, failed: T },
    /// Persist the list of users with free access that the panel keeps.
    WriteFreeUsers { users: L },
    /// Add a channel to the database, and say how that went.
    AddChannel { chat: i64, channel: i64, title: T, username: Option<T> },
    /// Remove a channel from the database, and say how that went.
    RemoveChannel { chat: i64, channel: i64 },
    /// Show a page of the catalog as buttons.
    ShowCatalog { chat: i64, page: usize },
    /// Send the catalog as text.
    SendCatalog { chat: i64 },
    /// Invite to the channel.
    SendChannelInvite { chat: i64 },
    /// Send the startup message.
    SendStartup { chat: i64 },
    /// Create an invoice and send it.
    StartPayment { chat: i64 },
}

/// One thing that the bot is to do.
pub type Action = ActionOf<String, Markup, Vec<String>>;

/// What an action says and does.
pub type ActionView = ActionOf<Seq<char>, MarkupView, Seq<Seq<char>>>;

impl DeepView for PhotoOf<String> {
    type V = PhotoOf<Seq<char>>;

    open spec fn deep_view(&self) -> PhotoOf<Seq<char>> {
        match self {
            PhotoOf::File(path) => PhotoOf::File(path@),
            PhotoOf::Link(url) => PhotoOf::Link(url@),
        }
    }
}

impl DeepView for ActionOf<String, Markup, Vec<String>> {
    type V = ActionView;

    open spec fn deep_view(&self) -> ActionView {
        match self {
            ActionOf::Send { chat, text, markup } => ActionOf::Send {
                chat: *chat,
                text: text@,
                markup: markup.deep_view(),
            },
            ActionOf::SendPhoto { chat, photo, caption, markup } => ActionOf::SendPhoto {
                chat: *chat,
                photo: photo.deep_view(),
                caption: caption@,
                markup: markup.deep_view(),
            },
            ActionOf::Answer { note, alert } => ActionOf::Answer {
                note: note.deep_view(),
                alert: *alert,
            },
            ActionOf::Edit { chat, message, text } => ActionOf::Edit {
                chat: *chat,
                message: *message,
                text: text@,
            },
            ActionOf::DropKeyboardMessage { chat, carrier } => ActionOf::DropKeyboardMessage {
                chat: *chat,
                carrier: *carrier,
            },
            ActionOf::EnsurePublicKeyboard { chat } => ActionOf::EnsurePublicKeyboard {
                chat: *chat,
            },
            ActionOf::GrantAccess { chat } => ActionOf::GrantAccess { chat: *chat },
            ActionOf::AddOrRenew { user, months } => ActionOf::AddOrRenew {
                user: *user,
                months: *months,
            },
            ActionOf::AppendRecord { user, months } => ActionOf::AppendRecord {
                user: *user,
                months: *months,
            },
            ActionOf::UnbanEverywhere { user } => ActionOf::UnbanEverywhere { user: *user },
            ActionOf::Unban { chat, user } => ActionOf::Unban { chat: *chat, user: *user },
            ActionOf::WriteState => ActionOf::WriteState,
            ActionOf::SaveFreeUsers { users, chat, saved, failed } => ActionOf::SaveFreeUsers {
                users: users.deep_view(),
                chat: *chat,
                saved: saved@,
                failed: failed@,
            },
            ActionOf::WriteFreeUsers { users } => ActionOf::WriteFreeUsers {
                users: users.deep_view(),
            },
            ActionOf::AddChannel { chat, channel, title, username } => ActionOf::AddChannel {
                chat: *chat,
                channel: *channel,
                title: title@,
                username: username.deep_view(),
            },
            ActionOf::RemoveChannel { chat, channel } => ActionOf::RemoveChannel {
                chat: *chat,
                channel: *channel,
            },
            ActionOf::ShowCatalog { chat, page } => ActionOf::ShowCatalog {
                chat: *chat,
                page: *page,
            },
            ActionOf::SendCatalog { chat } => ActionOf::SendCatalog { chat: *chat },
            ActionOf::SendChannelInvite { chat } => ActionOf::SendChannelInvite { chat: *chat },
            ActionOf::SendStartup { chat } => ActionOf::SendStartup { chat: *chat },
            ActionOf::StartPayment { chat } => ActionOf::StartPayment { chat: *chat },
        }
    }
}

/// A message without a keyboard.
pub open spec fn plain_view(chat: i64, text: Seq<char>) -> ActionView {
    ActionOf::Send { chat, text, markup: MarkupView::Plain }
}

/// A message without a keyboard.
pub fn plain(chat: i64, text: String) -> (r: Action)
    ensures
        r.deep_view() == plain_view(chat, text@),
{
    ActionOf::Send { chat, text, markup: Markup::Plain }
}

/// Passing word on a button press.
pub open spec fn answer_view(text: Seq<char>) -> ActionView {
    ActionOf::Answer { note: Some(text), alert: false }
}

/// Passing word on a button press.
pub fn answer(text: String) -> (r: Action)
    ensures
        r.deep_view() == answer_view(text@),
{
    ActionOf::Answer { note: Some(text), alert: false }
}

/// An alert on a button press.
pub open spec fn alert_view(text: Seq<char>) -> ActionView {
    ActionOf::Answer { note: Some(text), alert: true }
}

/// An alert on a button press.
pub fn alert(text: String) -> (r: Action)
    ensures
        r.deep_view() == alert_view(text@),
{
    ActionOf::Answer { note: Some(text), alert: true }
}

/// The silent answer to a button press.
pub open spec fn acknowledge_view() -> ActionView {
    ActionOf::Answer { note: None, alert: false }
}

/// The silent answer to a button press.
pub fn acknowledge() -> (r: Action)
    ensures
        r.deep_view() == acknowledge_view(),
{
    ActionOf::Answer { note: None, alert: false }
}

/// A plan of one thing to do.
pub fn only(action: Action) -> (r: Vec<Action>)
    ensures
        r.deep_view() == seq![action.deep_view()],
{
    let mut r: Vec<Action> = Vec::new();
    r.push(action);
    assert(r.deep_view() =~= seq![action.deep_view()]);
    r
}

/// Adds one thing to do after the others.
pub fn then_do(plan: &mut Vec<Action>, action: Action)
    ensures
        final(plan).deep_view() == old(plan).deep_view().push(action.deep_view()),
{
    plan.push(action);
    assert(plan.deep_view() =~= old(plan).deep_view().push(action.deep_view()));
}

/// A press is answered as an alert, in passing, or without a word; a plain message goes to its
/// chat with its text and nothing else.
pub proof fn answers_differ_in_how_they_are_shown(chat: i64, text: Seq<char>)
    ensures
        alert_view(text) matches ActionOf::Answer { note, alert } && note == Some(text) && alert,
        answer_view(text) matches ActionOf::Answer { note, alert } && note == Some(text) && !alert,
        acknowledge_view() matches ActionOf::Answer { note, alert } && note is None && !alert,
        plain_view(chat, text) matches ActionOf::Send { chat: to, text: said, markup } && to == chat
            && said == text && markup is Plain,
{
}

} // verus!
