//! The catalog of exported chats, as pages of buttons.
use crate::actions::{plain, plain_view, Action, ActionOf, ActionView};
use crate::export::{
    chat_line_text, column, column_text, columns, columns_are_between_semicolons, columns_text,
    is_skipped, lines_of_chats_are_read, skipped, tells_a_chat,
};
use crate::keyboard::{
    callback, callback_view, push_row, row1, ButtonOf, InlineKeyboardButton, InlineKeyboardMarkup,
    InlineView, Markup, MarkupView,
};
use crate::numbers::{
    int_text, int_text_is_digits, int_text_parses_back, parse_i64, parse_i64_text,
};
use crate::paging::{
    nav_view, page_count, page_end, page_holds_its_items, page_number, page_of, page_start,
    push_nav,
};
use crate::sorting::{
    is_stable_sort, places_are_in_order, sort_by_keys, stable_sort, stable_sort_keeps_items,
    text_le, Duplicate,
};
use crate::text::{
    ascii_lowercase, ascii_lowercase_text, has_none, join3, lines, lines_text, lowercase_text, same,
    trim, trim_leaves_trimmed, trim_text, CharKind,
};
use vstd::prelude::*;

verus! {

/// The file with the exported chats.
pub const CHATS_EXPORT_PATH: &'static str = "src/chats_export.csv";

/// How many chats one page shows.
pub const PAGE_SIZE: usize = 10;

/// A chat of the catalog: its id, its title and its type.
pub type CatalogRow = (i64, String, String);

/// A chat of the catalog: its id, its title and its type.
pub type RowView = (i64, Seq<char>, Seq<char>);

impl Duplicate for (i64, String, String) {
    fn duplicate(&self) -> (r: Self) {
        (self.0, self.1.clone(), self.2.clone())
    }
}

/// The icon for a type of chat.
pub open spec fn icon_text(ctype: Seq<char>) -> Seq<char> {
    if ctype == "channel"@ {
        "📣"@
    } else if ctype == "supergroup"@ || ctype == "group"@ {
        "👥"@
    } else if ctype == "private"@ {
        "👤"@
    } else if ctype == "bot"@ {
        "🤖"@
    } else {
        "•"@
    }
}

/// The icon for a type of chat.
pub fn type_icon(t: &str) -> (r: &'static str)
    ensures
        r@ == icon_text(t@),
{
    if same(t, "channel") {
        "📣"
    } else if same(t, "supergroup") || same(t, "group") {
        "👥"
    } else if same(t, "private") {
        "👤"
    } else if same(t, "bot") {
        "🤖"
    } else {
        "•"
    }
}

/// A chat as it is shown: its icon and its title.
pub open spec fn label_text(row: RowView) -> Seq<char> {
    icon_text(row.2) + " "@ + row.1
}

/// A chat as it is shown: its icon and its title.
pub fn label(row: &CatalogRow) -> (r: String)
    ensures
        r@ == label_text(row.deep_view()),
{
    join3(type_icon(&row.2), " ", &row.1)
}

/// The chat on a line, if it holds one: its id must be a number, other than zero unless
/// zero is allowed, and its title must not be empty.
pub open spec fn row_of_line(raw: Seq<char>, first: bool, zero: bool) -> Option<RowView> {
    let line = trim_text(raw);
    let parts = columns_text(line, 4);
    let id = parse_i64_text(column_text(parts, 1));
    let title = column_text(parts, 2);
    if is_skipped(line, first) || id is None || (id == Some(0i64) && !zero) || title.len() == 0 {
        None
    } else {
        Some((id->0, title, ascii_lowercase_text(column_text(parts, 0))))
    }
}

/// The chats on the first `n` lines, in order.
pub open spec fn rows_of_lines(lines: Seq<Seq<char>>, n: nat, zero: bool) -> Seq<RowView>
    decreases n,
{
    if n == 0 {
        seq![]
    } else {
        match row_of_line(lines[n - 1], n == 1, zero) {
            Some(row) => rows_of_lines(lines, (n - 1) as nat, zero).push(row),
            None => rows_of_lines(lines, (n - 1) as nat, zero),
        }
    }
}

/// The chats in a text, in order.
pub open spec fn rows_of_text(text: Seq<char>, zero: bool) -> Seq<RowView> {
    rows_of_lines(lines_text(text), lines_text(text).len(), zero)
}

/// The keys that chats are sorted by: their titles in lowercase.
pub open spec fn title_keys(rows: Seq<RowView>) -> Seq<Seq<char>> {
    rows.map_values(|row: RowView| lowercase_text(row.1))
}

/// The chats in a file by their titles in lowercase; none where there is no file.
pub open spec fn sorted_rows(text: Option<Seq<char>>, zero: bool) -> Seq<RowView> {
    match text {
        Some(t) => stable_sort(rows_of_text(t, zero), title_keys(rows_of_text(t, zero))),
        None => seq![],
    }
}

/// The chat on a line, if it holds one.
fn parse_row(raw: &str, first: bool, zero: bool) -> (r: Option<CatalogRow>)
    ensures
        r.deep_view() == row_of_line(raw@, first, zero),
{
    let line = trim(raw);
    if skipped(&line, first) {
        return None;
    }
    let parts = columns(&line, 4);
    let ctype = ascii_lowercase(&column(&parts, 0));
    let title = column(&parts, 2);
    match parse_i64(&column(&parts, 1)) {
        Some(id) => {
            if (id == 0 && !zero) || title.as_str().is_empty() {
                None
            } else {
                Some((id, title, ctype))
            }
        },
        None => None,
    }
}

/// The chats in a file by their titles in lowercase; none where there is no file. A
/// chat whose id is zero is left out unless zero is allowed.
pub fn load_rows(text: Option<&str>, zero: bool) -> (r: Vec<CatalogRow>)
    ensures
        r.deep_view() == sorted_rows(text.deep_view(), zero),
        text is Some ==> is_stable_sort(
            rows_of_text(text->0@, zero),
            title_keys(rows_of_text(text->0@, zero)),
            r.deep_view(),
        ),
{
    let text = match text {
        Some(t) => t,
        None => {
            let none: Vec<CatalogRow> = Vec::new();
            assert(none.deep_view() =~= seq![]);
            return none;
        },
    };
    let all = lines(text);
    let ghost views = all.deep_view();
    let mut rows: Vec<CatalogRow> = Vec::new();
    let mut keys: Vec<String> = Vec::new();
    assert(rows.deep_view() =~= seq![]);
    for i in 0..all.len()
        invariant
            views == all.deep_view(),
            rows.deep_view() == rows_of_lines(views, i as nat, zero),
            keys@.len() == rows@.len(),
            forall|j: int|
                0 <= j < rows@.len() ==> (#[trigger] keys@[j])@ == lowercase_text(rows@[j].1@),
    {
        let ghost before = rows.deep_view();
        match parse_row(&all[i], i == 0, zero) {
            Some(row) => {
                keys.push(row.1.to_lowercase());
                rows.push(row);
                assert(rows.deep_view() =~= before.push(row.deep_view()));
            },
            None => {},
        }
    }
    assert(keys.deep_view() =~= title_keys(rows.deep_view()));
    sort_by_keys(&rows, &keys)
}

/// The catalog in a file: its chats but for those whose id is zero.
pub open spec fn catalog_of(text: Option<Seq<char>>) -> Seq<RowView> {
    sorted_rows(text, false)
}

/// The catalog in a file; none where there is no file.
pub fn load_catalog(text: Option<&str>) -> (r: Vec<CatalogRow>)
    ensures
        r.deep_view() == catalog_of(text.deep_view()),
        r.deep_view() == sorted_rows(text.deep_view(), false),
{
    load_rows(text, false)
}

/// One row of buttons for each chat from `start` up to, not including, `end`.
pub open spec fn catalog_rows(
    rows: Seq<RowView>,
    start: int,
    end: int,
) -> InlineView {
    rows.subrange(start, end).map_values(
        |row: RowView| seq![callback_view(label_text(row), "cat:noop"@)],
    )
}

/// The keyboard for a page of the catalog: a button for each chat, and below them, if
/// there is more than one page, the buttons to turn pages.
pub open spec fn catalog_keyboard(rows: Seq<RowView>, page: nat) -> InlineView {
    let total = rows.len();
    let pages = page_count(total, PAGE_SIZE as nat);
    let cur = page_number(total, page, PAGE_SIZE as nat);
    let shown = catalog_rows(
        rows,
        page_start(total, page, PAGE_SIZE as nat) as int,
        page_end(total, page, PAGE_SIZE as nat) as int,
    );
    if pages > 1 {
        shown.push(nav_view(cur, pages, "Page "@, "cat:page:"@, "cat:noop"@))
    } else {
        shown
    }
}

/// The keyboard for a page of the catalog.
pub fn build_catalog_keyboard(items: &Vec<CatalogRow>, page: usize) -> (r: InlineKeyboardMarkup)
    ensures
        r.deep_view() == catalog_keyboard(items.deep_view(), page as nat),
{
    let ghost views = items.deep_view();
    let p = page_of(items.len(), page, PAGE_SIZE);
    let mut rows: Vec<Vec<InlineKeyboardButton>> = Vec::new();
    assert(rows.deep_view() =~= catalog_rows(views, p.start as int, p.start as int));
    for i in p.start..p.end
        invariant
            p.start <= i <= p.end <= items@.len(),
            views == items.deep_view(),
            rows.deep_view() == catalog_rows(views, p.start as int, i as int),
    {
        push_row(&mut rows, row1(callback(label(&items[i]), "cat:noop".to_string())));
        assert(rows.deep_view() =~= catalog_rows(views, p.start as int, i + 1));
    }
    if p.pages > 1 {
        let mut nav: Vec<InlineKeyboardButton> = Vec::new();
        push_nav(&mut nav, p.cur, p.pages, "Page ", "cat:page:", "cat:noop");
        assert(nav.deep_view() =~= nav_view(
            p.cur as nat,
            p.pages as nat,
            "Page "@,
            "cat:page:"@,
            "cat:noop"@,
        ));
        push_row(&mut rows, nav);
    }
    InlineKeyboardMarkup { rows }
}

/// What is sent to show a page of the catalog.
pub open spec fn show_catalog_view(rows: Seq<RowView>, chat: i64, page: nat) -> ActionView {
    if rows.len() == 0 {
        plain_view(chat, "No chats found in src/chats_export.csv"@)
    } else {
        ActionOf::Send {
            chat,
            text: "Browse your chats (buttons are inert):"@,
            markup: MarkupView::Inline(catalog_keyboard(rows, page)),
        }
    }
}

/// What is sent to show a page of the catalog.
pub fn show_catalog(items: &Vec<CatalogRow>, chat: i64, page: usize) -> (r: Action)
    ensures
        r.deep_view() == show_catalog_view(items.deep_view(), chat, page as nat),
{
    if items.is_empty() {
        return plain(chat, "No chats found in src/chats_export.csv".to_string());
    }
    ActionOf::Send {
        chat,
        text: "Browse your chats (buttons are inert):".to_string(),
        markup: Markup::Inline(build_catalog_keyboard(items, page)),
    }
}

// ---------------------------------------------------------------------------
// Laws
// ---------------------------------------------------------------------------

/// The line of a chat is read as that chat: its id, its title and its type in small letters.
/// One whose id is zero is left out unless zero is allowed; one without a title, or whose id
/// is no number, is none.
pub proof fn exported_chats_are_read(
    ctype: Seq<char>,
    id: i64,
    title: Seq<char>,
    rest: Seq<char>,
    first: bool,
    zero: bool,
    other: Seq<char>,
)
    requires
        tells_a_chat(ctype, int_text(id as int), title, rest),
        trim_text(ctype) == ctype,
        trim_text(title) == title,
        title.len() > 0,
        has_none(other, CharKind::Semicolon),
    ensures
        id != 0 || zero ==> row_of_line(
            chat_line_text(ctype, int_text(id as int), title, rest),
            first,
            zero,
        ) == Some((id, title, ascii_lowercase_text(ctype))),
        id == 0 && !zero ==> row_of_line(
            chat_line_text(ctype, int_text(id as int), title, rest),
            first,
            zero,
        ) is None,
        parse_i64_text(trim_text(other)) is None ==> row_of_line(
            chat_line_text(ctype, other, title, rest),
            first,
            zero,
        ) is None,
        row_of_line(
            chat_line_text(ctype, int_text(id as int), seq![], rest),
            first,
            zero,
        ) is None,
{
    let n = int_text(id as int);
    let none = Seq::<char>::empty();
    int_text_parses_back(id);
    int_text_is_digits(id as int);
    trim_leaves_trimmed(n, CharKind::Space);
    lines_of_chats_are_read(ctype, n, title, rest, first);
    columns_are_between_semicolons(ctype, n, title, none, rest);
    lines_of_chats_are_read(ctype, other, title, rest, first);
    columns_are_between_semicolons(ctype, other, title, none, rest);
    lines_of_chats_are_read(ctype, n, none, rest, first);
    columns_are_between_semicolons(ctype, n, none, none, rest);
    assert(trim_text(none).len() == 0);
}

proof fn lemma_rows(lines: Seq<Seq<char>>, n: nat, zero: bool, row: RowView)
    requires
        n <= lines.len(),
    ensures
        rows_of_lines(lines, n, zero).contains(row) <==> exists|i: int|
            0 <= i < n && row_of_line(#[trigger] lines[i], i == 0, zero) == Some(row),
        rows_of_lines(lines, n, zero).len() <= n,
    decreases n,
{
    if n > 0 {
        lemma_rows(lines, (n - 1) as nat, zero, row);
        let before = rows_of_lines(lines, (n - 1) as nat, zero);
        let after = rows_of_lines(lines, n, zero);
        let last = row_of_line(lines[n - 1], n == 1, zero);
        if before.contains(row) {
            let k = choose|k: int| 0 <= k < before.len() && before[k] == row;
            assert(after[k] == row);
            let i = choose|i: int|
                0 <= i < n - 1 && row_of_line(#[trigger] lines[i], i == 0, zero) == Some(row);
            assert(row_of_line(lines[i], i == 0, zero) == Some(row));
        }
        if last == Some(row) {
            assert(after[after.len() - 1] == row);
            assert(row_of_line(lines[n - 1], n - 1 == 0, zero) == Some(row));
        }
        if after.contains(row) && !before.contains(row) {
            let k = choose|k: int| 0 <= k < after.len() && after[k] == row;
            assert(k == after.len() - 1);
            assert(row_of_line(lines[n - 1], n - 1 == 0, zero) == Some(row));
        }
        if exists|i: int|
            0 <= i < n && row_of_line(#[trigger] lines[i], i == 0, zero) == Some(row) {
            let i = choose|i: int|
                0 <= i < n && row_of_line(#[trigger] lines[i], i == 0, zero) == Some(row);
            if i < n - 1 {
                assert(before.contains(row));
            }
        }
    }
}

/// The catalog holds the chat of every line that tells one, and no other; where there is no
/// file it is empty.
pub proof fn catalog_is_the_file(text: Seq<char>, zero: bool, row: RowView)
    ensures
        sorted_rows(Some(text), zero).contains(row) <==> exists|i: int|
            0 <= i < lines_text(text).len() && row_of_line(
                #[trigger] lines_text(text)[i],
                i == 0,
                zero,
            ) == Some(row),
        sorted_rows(Some(text), zero).len() <= lines_text(text).len(),
        sorted_rows(None, zero).len() == 0,
{
    let rows = rows_of_text(text, zero);
    lemma_rows(lines_text(text), lines_text(text).len(), zero, row);
    stable_sort_keeps_items(rows, title_keys(rows), row);
}

/// The chat at each place of the list is a button on the page that its place tells, ten to a
/// page, in order; the keyboard has no other buttons but those to turn pages, in a last row
/// where there is more than one page.
pub proof fn every_chat_has_its_button(rows: Seq<RowView>, index: nat)
    requires
        index < rows.len(),
    ensures
        ({
            let keyboard = catalog_keyboard(rows, index / 10 + 1);
            let place = (index % 10) as int;
            let shown = if rows.len() - (index - index % 10) < 10 {
                rows.len() - (index - index % 10)
            } else {
                10
            };
            &&& place < keyboard.len()
            &&& keyboard[place].len() == 1
            &&& keyboard[place][0] matches ButtonOf::Callback { text, .. } && exists|
                icon: Seq<char>,
            | #[trigger] (icon + " "@ + rows[index as int].1) == text
            &&& keyboard.len() == shown + if rows.len() > 10 {
                1int
            } else {
                0int
            }
        }),
{
    let total = rows.len();
    let page = index / 10 + 1;
    page_holds_its_items(total, 10, index);
    let row = rows[index as int];
    assert(label_text(row) == icon_text(row.2) + " "@ + row.1);
}

/// Each type of chat has an icon of its own; groups have one, whatever their size, and so
/// have all others.
pub proof fn icons_tell_types(other: Seq<char>)
    ensures
        icon_text("group"@) == icon_text("supergroup"@),
        icon_text("channel"@) == "📣"@,
        icon_text("group"@) == "👥"@,
        icon_text("private"@) == "👤"@,
        icon_text("bot"@) == "🤖"@,
        other != "channel"@ && other != "group"@ && other != "supergroup"@ && other != "private"@
            && other != "bot"@ ==> icon_text(other) == "•"@,
{
    reveal_strlit("channel");
    reveal_strlit("supergroup");
    reveal_strlit("group");
    reveal_strlit("private");
    reveal_strlit("bot");
    assert("channel"@[0] == 'c' && "supergroup"@[0] == 's' && "group"@[0] == 'g');
    assert("private"@[0] == 'p' && "bot"@[0] == 'b');
}

/// The chats of the catalog are in the order of their titles in lowercase.
pub proof fn catalog_is_by_title(text: Seq<char>, zero: bool, i: int, j: int)
    requires
        0 <= i < j < sorted_rows(Some(text), zero).len(),
    ensures
        text_le(
            lowercase_text(sorted_rows(Some(text), zero)[i].1),
            lowercase_text(sorted_rows(Some(text), zero)[j].1),
        ),
{
    let rows = rows_of_text(text, zero);
    stable_sort_keeps_items(rows, title_keys(rows), rows[0]);
    let r = places_are_in_order(rows, title_keys(rows), i, j);
}

/// A catalog with chats is shown by its buttons; without chats that is said. Either goes to
/// the chat that it is for.
pub proof fn catalog_is_shown(rows: Seq<RowView>, chat: i64, page: nat)
    ensures
        show_catalog_view(rows, chat, page) matches ActionOf::Send { chat: to, markup, .. } && {
            &&& to == chat
            &&& rows.len() > 0 ==> markup == MarkupView::Inline(catalog_keyboard(rows, page))
            &&& rows.len() == 0 ==> markup is Plain
        },
{
}

/// No chat of the catalog has the id zero, and every other chat of the file is in it.
pub proof fn zero_is_no_chat(text: Seq<char>, row: RowView)
    ensures
        catalog_of(Some(text)).contains(row) <==> row.0 != 0 && sorted_rows(
            Some(text),
            true,
        ).contains(row),
        catalog_of(None).len() == 0,
{
    catalog_is_the_file(text, false, row);
    catalog_is_the_file(text, true, row);
    let lines = lines_text(text);
    if catalog_of(Some(text)).contains(row) {
        let i = choose|i: int|
            0 <= i < lines.len() && row_of_line(#[trigger] lines[i], i == 0, false) == Some(row);
        assert(row_of_line(lines[i], i == 0, true) == Some(row));
    }
    if row.0 != 0 && sorted_rows(Some(text), true).contains(row) {
        let i = choose|i: int|
            0 <= i < lines.len() && row_of_line(#[trigger] lines[i], i == 0, true) == Some(row);
        assert(row_of_line(lines[i], i == 0, false) == Some(row));
    }
}

} // verus!
