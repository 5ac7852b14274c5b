//! Choosing the channels to be notified of.
use crate::actions::{Action, ActionOf, ActionView};
use crate::catalog::{icon_text, type_icon};
use crate::keyboard::{
    callback, callback_view, lasting_keyboard, one_row_keyboard, push_row, row1, ButtonOf,
    InlineKeyboardButton, InlineKeyboardMarkup, InlineView, KeyboardMarkup, KeyboardView, Markup,
    MarkupView,
};
use crate::ledger::holds_id;
use crate::numbers::{int_text, nat_text, show_i64, show_usize};
use crate::paging::{
    nav_view, page_count, page_end, page_holds_its_items, page_number, page_of, page_start,
    push_nav,
};
use crate::text::{join2, join3};
use vstd::prelude::*;

verus! {

/// The label of the button that ends the selection.
pub const BTN_FINISH_SELECTING: &'static str = "Finish selecting";

/// How many channels one page shows.
pub const PAGE_SIZE: usize = 10;

/// A channel to choose: its id, title, username and type.
pub type Choice = (i64, String, Option<String>, String);

/// A channel to choose: its id, title, username and type.
pub type ChoiceView = (i64, Seq<char>, Option<Seq<char>>, Seq<char>);

/// A channel as it is shown: its icon, its title, and a mark if it is chosen.
pub open spec fn choice_text(choice: ChoiceView, selected: Seq<i64>) -> Seq<char> {
    let text = icon_text(choice.3) + " "@ + choice.1;
    if selected.contains(choice.0) {
        text + " ✅"@
    } else {
        text
    }
}

/// One row for each channel from `start` up to, not including, `end`.
pub open spec fn choice_rows(
    all: Seq<ChoiceView>,
    selected: Seq<i64>,
    cur: nat,
    start: int,
    end: int,
) -> InlineView {
    all.subrange(start, end).map_values(
        |choice: ChoiceView|
            seq![
                callback_view(
                    choice_text(choice, selected),
                    "sel:toggle:"@ + int_text(choice.0 as int) + ":"@ + nat_text(cur),
                ),
            ],
    )
}

/// The keyboard for a page of channels to choose from.
pub open spec fn selection_keyboard(
    all: Seq<ChoiceView>,
    selected: Seq<i64>,
    page: nat,
) -> InlineView {
    let total = all.len();
    let size = PAGE_SIZE as nat;
    let pages = page_count(total, size);
    let cur = page_number(total, page, size);
    let shown = choice_rows(
        all,
        selected,
        cur,
        page_start(total, page, size) as int,
        page_end(total, page, size) as int,
    );
    if pages > 1 {
        shown.push(nav_view(cur, pages, "Page "@, "sel:page:"@, "sel:noop"@))
    } else {
        shown
    }
}

/// The keyboard for a page of channels to choose from, of which some are selected.
pub fn build_selection_keyboard(
    all: &Vec<Choice>,
    selected: &Vec<i64>,
    page: usize,
) -> (r: InlineKeyboardMarkup)
    ensures
        r.deep_view() == selection_keyboard(all.deep_view(), selected@, page as nat),
{
    let ghost views = all.deep_view();
    let p = page_of(all.len(), page, PAGE_SIZE);
    let mut rows: Vec<Vec<InlineKeyboardButton>> = Vec::new();
    assert(rows.deep_view() =~= choice_rows(
        views,
        selected@,
        p.cur as nat,
        p.start as int,
        p.start as int,
    ));
    for i in p.start..p.end
        invariant
            p.start <= i <= p.end <= all@.len(),
            views == all.deep_view(),
            rows.deep_view() == choice_rows(
                views,
                selected@,
                p.cur as nat,
                p.start as int,
                i as int,
            ),
    {
        let choice = &all[i];
        let mut text = join3(type_icon(&choice.3), " ", &choice.1);
        if holds_id(selected, choice.0) {
            text.append(" ✅");
        }
        let data = join2(&join3("sel:toggle:", &show_i64(choice.0), ":"), &show_usize(p.cur));
        push_row(&mut rows, row1(callback(text, data)));
        assert(rows.deep_view() =~= choice_rows(
            views,
            selected@,
            p.cur as nat,
            p.start as int,
            i + 1,
        ));
    }
    if p.pages > 1 {
        let mut nav: Vec<InlineKeyboardButton> = Vec::new();
        push_nav(&mut nav, p.cur, p.pages, "Page ", "sel:page:", "sel:noop");
        assert(nav.deep_view() =~= nav_view(
            p.cur as nat,
            p.pages as nat,
            "Page "@,
            "sel:page:"@,
            "sel:noop"@,
        ));
        push_row(&mut rows, nav);
    }
    InlineKeyboardMarkup { rows }
}

/// The keyboard that ends the selection.
pub open spec fn finish_view() -> KeyboardView {
    lasting_keyboard(seq![seq![BTN_FINISH_SELECTING@]])
}

/// The keyboard that ends the selection.
pub fn finish_keyboard() -> (r: KeyboardMarkup)
    ensures
        r.deep_view() == finish_view(),
{
    let mut labels: Vec<String> = Vec::new();
    labels.push(BTN_FINISH_SELECTING.to_string());
    assert(labels.deep_view() =~= seq![BTN_FINISH_SELECTING@]);
    one_row_keyboard(labels)
}

/// What is sent to start the selection: the first page, and how to go on.
pub open spec fn start_selection_view(
    all: Seq<ChoiceView>,
    selected: Seq<i64>,
    chat: i64,
) -> Seq<ActionView> {
    seq![
        ActionOf::Send {
            chat,
            text: "Select channels you want notifications from:"@,
            markup: MarkupView::Inline(selection_keyboard(all, selected, 1)),
        },
        ActionOf::Send {
            chat,
            text: "Tap buttons to toggle channels. When done, press the keyboard button below."@,
            markup: MarkupView::Reply(finish_view()),
        },
    ]
}

/// What is sent to start the selection.
pub fn start_channel_selection(
    all: &Vec<Choice>,
    selected: &Vec<i64>,
    chat: i64,
) -> (r: Vec<Action>)
    ensures
        r.deep_view() == start_selection_view(all.deep_view(), selected@, chat),
{
    let mut plan: Vec<Action> = Vec::new();
    plan.push(
        ActionOf::Send {
            chat,
            text: "Select channels you want notifications from:".to_string(),
            markup: Markup::Inline(build_selection_keyboard(all, selected, 1)),
        },
    );
    plan.push(
        ActionOf::Send {
            chat,
            text: "Tap buttons to toggle channels. When done, press the keyboard button below.".to_string(),
            markup: Markup::Reply(finish_keyboard()),
        },
    );
    assert(plan.deep_view() =~= start_selection_view(all.deep_view(), selected@, chat));
    plan
}

/// Whether a channel is selected once its button was pressed, given whether it was
/// before: it is to be added to the selection where the answer is yes, else removed.
pub fn toggle_user_selection(selected: bool) -> (r: bool)
    ensures
        r == !selected,
{
    !selected
}

/// The channels that are selected once the button of one was pressed.
pub open spec fn toggled(selected: Set<i64>, channel: i64) -> Set<i64> {
    if selected.contains(channel) {
        selected.remove(channel)
    } else {
        selected.insert(channel)
    }
}

/// Pressing a button twice changes nothing, and pressing it once changes one channel.
pub proof fn toggling_twice_changes_nothing(selected: Set<i64>, channel: i64, other: i64)
    ensures
        toggled(toggled(selected, channel), channel) == selected,
        other != channel ==> toggled(selected, channel).contains(other) == selected.contains(other),
        toggled(selected, channel).contains(channel) == !selected.contains(channel),
{
    assert(toggled(toggled(selected, channel), channel) =~= selected);
}

/// Each channel to choose is a button on the page that its place tells, ten to a page: it
/// shows the title, with a mark exactly where the channel is chosen, and toggles that
/// channel from that page.
pub proof fn every_choice_has_its_button(all: Seq<ChoiceView>, selected: Seq<i64>, index: nat)
    requires
        index < all.len(),
    ensures
        ({
            let keyboard = selection_keyboard(all, selected, index / 10 + 1);
            let place = (index % 10) as int;
            let choice = all[index as int];
            &&& place < keyboard.len()
            &&& keyboard[place].len() == 1
            &&& keyboard[place][0] matches ButtonOf::Callback { text, data } && data
                == "sel:toggle:"@ + int_text(choice.0 as int) + ":"@ + nat_text(index / 10 + 1)
                && exists|icon: Seq<char>| #[trigger]
                (icon + " "@ + choice.1) + (if selected.contains(choice.0) {
                    " ✅"@
                } else {
                    seq![]
                }) == text
            &&& keyboard.len() <= 10 + 1
        }),
{
    page_holds_its_items(all.len(), 10, index);
    let choice = all[index as int];
    let text = icon_text(choice.3) + " "@ + choice.1;
    assert(text + Seq::<char>::empty() =~= text);
    let mark = if selected.contains(choice.0) {
        " ✅"@
    } else {
        seq![]
    };
    assert((icon_text(choice.3) + " "@ + choice.1) + mark == choice_text(choice, selected));
}

/// The selection starts with the first page, and with the keyboard that ends it, both in the
/// chat.
pub proof fn selection_starts_and_ends(all: Seq<ChoiceView>, selected: Seq<i64>, chat: i64)
    ensures
        ({
            let plan = start_selection_view(all, selected, chat);
            &&& plan.len() == 2
            &&& plan[0] matches ActionOf::Send { chat: to, markup, .. } && to == chat && markup
                == MarkupView::Inline(selection_keyboard(all, selected, 1))
            &&& plan[1] matches ActionOf::Send { chat: to, markup: MarkupView::Reply(keyboard), .. }
                && to == chat && keyboard.rows == seq![seq!["Finish selecting"@]]
        }),
{
}

} // verus!
