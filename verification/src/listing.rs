//! The catalog of exported chats as one text message.
use crate::actions::{plain, plain_view, Action, ActionOf, ActionView};
use crate::catalog::{
    catalog_is_the_file, icon_text, label, label_text, load_rows, row_of_line, sorted_rows,
    CatalogRow, RowView,
};
use crate::text::lines_text;
use vstd::prelude::*;

verus! {

/// How many chats the message names at most.
pub const LISTED_AT_MOST: usize = 1000;

/// The chats that the message names: those of the file, also one whose id is zero.
pub open spec fn chats_to_list(text: Option<Seq<char>>) -> Seq<RowView> {
    sorted_rows(text, true)
}

/// The chats that the message names; none where there is no file. Unlike the catalog of
/// buttons, a chat whose id is zero counts.
pub fn load_catalog(text: Option<&str>) -> (r: Vec<CatalogRow>)
    ensures
        r.deep_view() == chats_to_list(text.deep_view()),
        r.deep_view() == sorted_rows(text.deep_view(), true),
{
    load_rows(text, true)
}

/// The first `n` chats, one on a line.
pub open spec fn listed(rows: Seq<RowView>, n: nat) -> Seq<char>
    decreases n,
{
    if n == 0 {
        seq![]
    } else {
        listed(rows, (n - 1) as nat) + label_text(rows[n - 1]) + "\n"@
    }
}

/// How many chats the message names.
pub open spec fn listed_count(total: nat) -> nat {
    if total < LISTED_AT_MOST {
        total
    } else {
        LISTED_AT_MOST as nat
    }
}

/// The message that lists the catalog.
pub open spec fn listing_view(rows: Seq<RowView>, chat: i64) -> ActionView {
    if rows.len() == 0 {
        plain_view(chat, "В файле src/chats_export.csv не найдено чатов"@)
    } else {
        plain_view(chat, "Доступные чаты:\n\n"@ + listed(rows, listed_count(rows.len())))
    }
}

/// The message that lists the catalog.
pub fn show_catalog(items: &Vec<CatalogRow>, chat: i64) -> (r: Action)
    ensures
        r.deep_view() == listing_view(items.deep_view(), chat),
{
    if items.is_empty() {
        return plain(chat, "В файле src/chats_export.csv не найдено чатов".to_string());
    }
    let ghost views = items.deep_view();
    let mut body = "Доступные чаты:\n\n".to_string();
    let ghost head = body@;
    let count: usize = if items.len() < LISTED_AT_MOST {
        items.len()
    } else {
        LISTED_AT_MOST
    };
    assert(body@ =~= head + listed(views, 0));
    for i in 0..count
        invariant
            count <= items@.len(),
            views == items.deep_view(),
            body@ == head + listed(views, i as nat),
    {
        body.append(&label(&items[i]));
        body.append("\n");
        assert(body@ =~= head + listed(views, (i + 1) as nat));
    }
    plain(chat, body)
}

proof fn lemma_listed(rows: Seq<RowView>, n: nat, i: int)
    requires
        0 <= i < n <= rows.len(),
    ensures
        exists|head: Seq<char>, tail: Seq<char>| #[trigger]
            (head + (" "@ + rows[i].1 + "\n"@) + tail) == listed(rows, n),
    decreases n,
{
    let before = listed(rows, (n - 1) as nat);
    let line = " "@ + rows[i].1 + "\n"@;
    if i == n - 1 {
        let head = before + icon_text(rows[i].2);
        assert(head + line + Seq::<char>::empty() =~= listed(rows, n));
    } else {
        lemma_listed(rows, (n - 1) as nat, i);
        let (head, tail) = choose|head: Seq<char>, tail: Seq<char>| #[trigger]
            (head + line + tail) == before;
        let more = tail + label_text(rows[n - 1]) + "\n"@;
        assert(head + line + more =~= listed(rows, n));
    }
}

/// The message names every chat, up to the thousandth, each on a line with its title; it
/// goes to the chat that is to have it.
pub proof fn every_chat_is_named(rows: Seq<RowView>, chat: i64, i: int)
    requires
        0 <= i < rows.len(),
        i < 1000,
    ensures
        listing_view(rows, chat) matches ActionOf::Send { chat: to, text, .. } && to == chat
            && exists|head: Seq<char>, tail: Seq<char>| #[trigger]
            (head + (" "@ + rows[i].1 + "\n"@) + tail) == text,
{
    lemma_listed(rows, listed_count(rows.len()), i);
    let line = " "@ + rows[i].1 + "\n"@;
    let body = listed(rows, listed_count(rows.len()));
    let (head, tail) = choose|head: Seq<char>, tail: Seq<char>| #[trigger]
        (head + line + tail) == body;
    let front = "Доступные чаты:\n\n"@ + head;
    assert(front + line + tail =~= "Доступные чаты:\n\n"@ + body);
}

/// The message names the chats of the file, also one whose id is zero.
pub proof fn zero_is_listed(text: Seq<char>, row: RowView)
    ensures
        chats_to_list(Some(text)).contains(row) <==> exists|i: int|
            0 <= i < lines_text(text).len() && row_of_line(
                #[trigger] lines_text(text)[i],
                i == 0,
                true,
            ) == Some(row),
        chats_to_list(None).len() == 0,
{
    catalog_is_the_file(text, true, row);
}

} // verus!
