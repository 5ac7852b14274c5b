//! The catalog of exported chats by folder.
use crate::actions::{plain, plain_view, Action, ActionOf, ActionView};
use crate::catalog::{icon_text, type_icon};
use crate::export::{
    chat_line_text, column, column_text, columns, columns_are_between_semicolons, columns_text,
    is_skipped, lines_of_chats_are_read, skipped, tells_a_chat,
};
use crate::free_users::holds_text;
use crate::keyboard::{
    callback, callback_view, push_row, row1, ButtonOf, InlineKeyboardButton, InlineKeyboardMarkup,
    InlineView, Markup, MarkupView,
};
use crate::numbers::{
    int_text, int_text_is_digits, int_text_parses_back, nat_text, parse_i64, parse_i64_text,
    show_usize,
};
use crate::paging::{
    nav_view, page_count, page_end, page_holds_its_items, page_number, page_of, page_start,
    push_nav,
};
use crate::sorting::{
    dedup, duplicate_all, is_stable_sort, lowercase_keys, places_are_in_order, sort_by_keys,
    sort_ignoring_case, sorted_ignoring_case, stable_sort, stable_sort_keeps_items, text_le,
    without_repeats, without_repeats_keeps_texts, Duplicate,
};
use crate::text::{
    ascii_lowercase, ascii_lowercase_text, has_none, join3, lines, lines_text, lowercase_text,
    split, split_text, trim, trim_leaves_trimmed, trim_text, CharKind,
};
use vstd::prelude::*;

verus! {

/// How many chats one page shows.
pub const PAGE_SIZE_ITEMS: usize = 10;

/// How many folders one page shows.
pub const PAGE_SIZE_FOLDERS: usize = 8;

/// A chat and the folders that it is in.
#[derive(Debug, Clone, PartialEq, Eq)]
pub struct Item {
    pub id: i64,
    pub title: String,
    pub ctype: String,
    pub folders: Vec<String>,
}

/// A chat and the folders that it is in.
pub struct ItemView {
    pub id: i64,
    pub title: Seq<char>,
    pub ctype: Seq<char>,
    pub folders: Seq<Seq<char>>,
}

impl DeepView for Item {
    type V = ItemView;

    open spec fn deep_view(&self) -> ItemView {
        ItemView {
            id: self.id,
            title: self.title@,
            ctype: self.ctype@,
            folders: self.folders.deep_view(),
        }
    }
}

impl Duplicate for Item {
    fn duplicate(&self) -> (r: Self) {
        Item {
            id: self.id,
            title: self.title.clone(),
            ctype: self.ctype.clone(),
            folders: duplicate_all(&self.folders),
        }
    }
}

// ---------------------------------------------------------------------------
// Reading the file
// ---------------------------------------------------------------------------

/// The parts that are not empty, in order.
pub open spec fn named_parts(parts: Seq<Seq<char>>, n: nat) -> Seq<Seq<char>>
    decreases n,
{
    if n == 0 {
        seq![]
    } else if trim_text(parts[n - 1]).len() == 0 {
        named_parts(parts, (n - 1) as nat)
    } else {
        named_parts(parts, (n - 1) as nat).push(trim_text(parts[n - 1]))
    }
}

/// The folders that a column names, separated by `|` or `,`; an empty column stands for
/// the folder of all chats. A name that repeats the one before it, once the names are
/// sorted by their lowercase forms, is dropped.
pub open spec fn folders_of_column(raw: Seq<char>) -> Seq<Seq<char>> {
    let parts = split_text(raw, CharKind::BarOrComma);
    let names = if raw.len() == 0 {
        seq!["All"@]
    } else {
        named_parts(parts, parts.len())
    };
    without_repeats(sort_ignoring_case(names))
}

/// The chat on a line, if it holds one.
pub open spec fn item_of_line(raw: Seq<char>, first: bool) -> Option<ItemView> {
    let line = trim_text(raw);
    let parts = columns_text(line, 5);
    let id = parse_i64_text(column_text(parts, 1));
    let title = column_text(parts, 2);
    if is_skipped(line, first) || id is None || title.len() == 0 {
        None
    } else {
        Some(
            ItemView {
                id: id->0,
                title,
                ctype: ascii_lowercase_text(column_text(parts, 0)),
                folders: folders_of_column(column_text(parts, 4)),
            },
        )
    }
}

/// The chats on the first `n` lines, in order.
pub open spec fn items_of_lines(lines: Seq<Seq<char>>, n: nat) -> Seq<ItemView>
    decreases n,
{
    if n == 0 {
        seq![]
    } else {
        match item_of_line(lines[n - 1], n == 1) {
            Some(item) => items_of_lines(lines, (n - 1) as nat).push(item),
            None => items_of_lines(lines, (n - 1) as nat),
        }
    }
}

/// The chats in a text, in order.
pub open spec fn items_of_text(text: Seq<char>) -> Seq<ItemView> {
    items_of_lines(lines_text(text), lines_text(text).len())
}

/// The keys that chats are sorted by: their titles in lowercase.
pub open spec fn item_keys(items: Seq<ItemView>) -> Seq<Seq<char>> {
    items.map_values(|item: ItemView| lowercase_text(item.title))
}

/// The chats in a file by their titles in lowercase; none where there is no file.
pub open spec fn sorted_items(text: Option<Seq<char>>) -> Seq<ItemView> {
    match text {
        Some(t) => stable_sort(items_of_text(t), item_keys(items_of_text(t))),
        None => seq![],
    }
}

fn parse_folders(raw: &str) -> (r: Vec<String>)
    ensures
        r.deep_view() == folders_of_column(raw@),
{
    let mut names: Vec<String> = Vec::new();
    assert(names.deep_view() =~= seq![]);
    if raw.is_empty() {
        names.push("All".to_string());
        assert(names.deep_view() =~= seq!["All"@]);
    } else {
        let parts = split(raw, CharKind::BarOrComma);
        let ghost views = parts.deep_view();
        for i in 0..parts.len()
            invariant
                views == parts.deep_view(),
                names.deep_view() == named_parts(views, i as nat),
        {
            let ghost before = names.deep_view();
            let name = trim(&parts[i]);
            if !name.as_str().is_empty() {
                names.push(name);
                assert(names.deep_view() =~= before.push(name@));
            }
        }
    }
    dedup(&sorted_ignoring_case(&names))
}

fn parse_item(raw: &str, first: bool) -> (r: Option<Item>)
    ensures
        r.deep_view() == item_of_line(raw@, first),
{
    let line = trim(raw);
    if skipped(&line, first) {
        return None;
    }
    let parts = columns(&line, 5);
    let ctype = ascii_lowercase(&column(&parts, 0));
    let title = column(&parts, 2);
    match parse_i64(&column(&parts, 1)) {
        Some(id) => {
            if title.as_str().is_empty() {
                None
            } else {
                Some(Item { id, title, ctype, folders: parse_folders(&column(&parts, 4)) })
            }
        },
        None => None,
    }
}

/// The chats in a file by their titles in lowercase; none where there is no file.
pub fn load_items(text: Option<&str>) -> (r: Vec<Item>)
    ensures
        r.deep_view() == sorted_items(text.deep_view()),
        text is Some ==> is_stable_sort(
            items_of_text(text->0@),
            item_keys(items_of_text(text->0@)),
            r.deep_view(),
        ),
{
    let text = match text {
        Some(t) => t,
        None => {
            let none: Vec<Item> = Vec::new();
            assert(none.deep_view() =~= seq![]);
            return none;
        },
    };
    let all = lines(text);
    let ghost views = all.deep_view();
    let mut items: Vec<Item> = Vec::new();
    let mut keys: Vec<String> = Vec::new();
    assert(items.deep_view() =~= seq![]);
    for i in 0..all.len()
        invariant
            views == all.deep_view(),
            items.deep_view() == items_of_lines(views, i as nat),
            keys@.len() == items@.len(),
            forall|j: int|
                0 <= j < items@.len() ==> (#[trigger] keys@[j])@ == lowercase_text(items@[j].title@),
    {
        let ghost before = items.deep_view();
        match parse_item(&all[i], i == 0) {
            Some(item) => {
                keys.push(item.title.to_lowercase());
                items.push(item);
                assert(items.deep_view() =~= before.push(item.deep_view()));
            },
            None => {},
        }
    }
    assert(keys.deep_view() =~= item_keys(items.deep_view()));
    sort_by_keys(&items, &keys)
}

// ---------------------------------------------------------------------------
// Folders
// ---------------------------------------------------------------------------

/// The folders of the first `n` chats, one chat after the other.
pub open spec fn all_folders(items: Seq<ItemView>, n: nat) -> Seq<Seq<char>>
    decreases n,
{
    if n == 0 {
        seq![]
    } else {
        all_folders(items, (n - 1) as nat) + items[n - 1].folders
    }
}

/// The folders of the chats, sorted by their lowercase forms, without a name that
/// repeats the one before it.
pub open spec fn folder_names(items: Seq<ItemView>) -> Seq<Seq<char>> {
    without_repeats(sort_ignoring_case(all_folders(items, items.len())))
}

/// The folders of the chats.
pub fn list_folders(items: &Vec<Item>) -> (r: Vec<String>)
    ensures
        r.deep_view() == folder_names(items.deep_view()),
{
    let ghost views = items.deep_view();
    let mut names: Vec<String> = Vec::new();
    assert(names.deep_view() =~= seq![]);
    for i in 0..items.len()
        invariant
            views == items.deep_view(),
            names.deep_view() == all_folders(views, i as nat),
    {
        let ghost before = names.deep_view();
        let mut more = duplicate_all(&items[i].folders);
        let ghost added = more.deep_view();
        names.append(&mut more);
        assert(names.deep_view() =~= before + added);
    }
    dedup(&sorted_ignoring_case(&names))
}

/// The chats in a folder, in order.
pub open spec fn chats_in(items: Seq<ItemView>, folder: Seq<char>) -> Seq<ItemView> {
    items.filter(|item: ItemView| item.folders.contains(folder))
}

/// The chats in a folder, in order.
pub fn items_in_folder(items: &Vec<Item>, folder: &str) -> (r: Vec<Item>)
    ensures
        r.deep_view() == chats_in(items.deep_view(), folder@),
{
    let ghost views = items.deep_view();
    let mut r: Vec<Item> = Vec::new();
    assert(r.deep_view() =~= chats_in(views.take(0), folder@));
    for i in 0..items.len()
        invariant
            views == items.deep_view(),
            r.deep_view() == chats_in(views.take(i as int), folder@),
    {
        let ghost before = r.deep_view();
        proof {
            reveal(Seq::filter);
            assert(views.take(i + 1).drop_last() =~= views.take(i as int));
        }
        if holds_text(&items[i].folders, folder) {
            r.push(items[i].duplicate());
            assert(r.deep_view() =~= before.push(views[i as int]));
        }
    }
    assert(views.take(views.len() as int) =~= views);
    r
}

proof fn lemma_all_folders(items: Seq<ItemView>, n: nat, folder: Seq<char>)
    requires
        n <= items.len(),
    ensures
        all_folders(items, n).contains(folder) <==> exists|i: int|
            0 <= i < n && (#[trigger] items[i]).folders.contains(folder),
    decreases n,
{
    if n > 0 {
        lemma_all_folders(items, (n - 1) as nat, folder);
        let before = all_folders(items, (n - 1) as nat);
        let last = items[n - 1].folders;
        let all = all_folders(items, n);
        if all.contains(folder) {
            let k = choose|k: int| 0 <= k < all.len() && all[k] == folder;
            if k < before.len() {
                assert(before[k] == folder);
            } else {
                assert(last[k - before.len()] == folder);
            }
        }
        if before.contains(folder) {
            let k = choose|k: int| 0 <= k < before.len() && before[k] == folder;
            assert(all[k] == folder);
        }
        if last.contains(folder) {
            let k = choose|k: int| 0 <= k < last.len() && last[k] == folder;
            assert(all[before.len() + k] == folder);
        }
    }
}

proof fn lemma_chats_in(items: Seq<ItemView>, folder: Seq<char>)
    ensures
        chats_in(items, folder).len() > 0 <==> exists|i: int|
            0 <= i < items.len() && (#[trigger] items[i]).folders.contains(folder),
    decreases items.len(),
{
    reveal(Seq::filter);
    if items.len() > 0 {
        let rest = items.drop_last();
        lemma_chats_in(rest, folder);
        if exists|i: int| 0 <= i < rest.len() && (#[trigger] rest[i]).folders.contains(folder) {
            let i = choose|i: int|
                0 <= i < rest.len() && (#[trigger] rest[i]).folders.contains(folder);
            assert(items[i].folders.contains(folder));
        }
        if exists|i: int| 0 <= i < items.len() && (#[trigger] items[i]).folders.contains(folder) {
            let i = choose|i: int|
                0 <= i < items.len() && (#[trigger] items[i]).folders.contains(folder);
            if i < rest.len() {
                assert(rest[i].folders.contains(folder));
            }
        }
    }
}

/// A folder is listed exactly where a chat is in it.
pub proof fn folder_is_listed_where_a_chat_is_in_it(items: Seq<ItemView>, folder: Seq<char>)
    ensures
        folder_names(items).contains(folder) <==> chats_in(items, folder).len() > 0,
{
    let names = all_folders(items, items.len());
    lemma_all_folders(items, items.len(), folder);
    lemma_chats_in(items, folder);
    stable_sort_keeps_items(names, lowercase_keys(names), folder);
    without_repeats_keeps_texts(sort_ignoring_case(names), folder);
}

// ---------------------------------------------------------------------------
// Keyboards
// ---------------------------------------------------------------------------

/// One row for each folder from `start` up to, not including, `end`: its name, how many
/// chats it has, and the index that opens it.
pub open spec fn folder_rows(items: Seq<ItemView>, start: int, end: int) -> InlineView {
    let folders = folder_names(items);
    Seq::new(
        (end - start) as nat,
        |k: int|
            seq![
                callback_view(
                    "📁 "@ + folders[start + k] + " ("@ + nat_text(
                        chats_in(items, folders[start + k]).len(),
                    ) + ")"@,
                    "catf:open:"@ + nat_text((start + k) as nat) + ":1"@,
                ),
            ],
    )
}

/// The keyboard for a page of folders.
pub open spec fn folders_keyboard(items: Seq<ItemView>, page: nat) -> InlineView {
    let total = folder_names(items).len();
    let size = PAGE_SIZE_FOLDERS as nat;
    let pages = page_count(total, size);
    let cur = page_number(total, page, size);
    let shown = folder_rows(
        items,
        page_start(total, page, size) as int,
        page_end(total, page, size) as int,
    );
    if pages > 1 {
        shown.push(nav_view(cur, pages, "Folders "@, "catf:folders_page:"@, "catf:noop"@))
    } else {
        shown
    }
}

/// The keyboard for a page of folders.
pub fn build_folders_keyboard(items: &Vec<Item>, page: usize) -> (r: InlineKeyboardMarkup)
    ensures
        r.deep_view() == folders_keyboard(items.deep_view(), page as nat),
{
    let ghost views = items.deep_view();
    let folders = list_folders(items);
    let ghost names = folders.deep_view();
    let p = page_of(folders.len(), page, PAGE_SIZE_FOLDERS);
    let mut rows: Vec<Vec<InlineKeyboardButton>> = Vec::new();
    assert(rows.deep_view() =~= folder_rows(views, p.start as int, p.start as int));
    for i in p.start..p.end
        invariant
            p.start <= i <= p.end <= folders@.len(),
            views == items.deep_view(),
            names == folders.deep_view(),
            names == folder_names(views),
            rows.deep_view() == folder_rows(views, p.start as int, i as int),
    {
        let count = items_in_folder(items, &folders[i]).len();
        let mut text = join3("📁 ", &folders[i], " (");
        text.append(&show_usize(count));
        text.append(")");
        let data = join3("catf:open:", &show_usize(i), ":1");
        push_row(&mut rows, row1(callback(text, data)));
        assert(rows.deep_view() =~= folder_rows(views, p.start as int, i + 1));
    }
    if p.pages > 1 {
        let mut nav: Vec<InlineKeyboardButton> = Vec::new();
        push_nav(&mut nav, p.cur, p.pages, "Folders ", "catf:folders_page:", "catf:noop");
        assert(nav.deep_view() =~= nav_view(
            p.cur as nat,
            p.pages as nat,
            "Folders "@,
            "catf:folders_page:"@,
            "catf:noop"@,
        ));
        push_row(&mut rows, nav);
    }
    InlineKeyboardMarkup { rows }
}

/// One row for each chat: its icon and its title.
pub open spec fn item_rows(items: Seq<ItemView>, start: int, end: int) -> InlineView {
    items.subrange(start, end).map_values(
        |item: ItemView|
            seq![callback_view(icon_text(item.ctype) + " "@ + item.title, "catf:noop"@)],
    )
}

/// The keyboard for a page of a folder; no rows where there is no such folder.
pub open spec fn folder_items_keyboard(
    items: Seq<ItemView>,
    folder_index: nat,
    page: nat,
) -> InlineView {
    let folders = folder_names(items);
    if folder_index >= folders.len() {
        seq![]
    } else {
        let inside = chats_in(items, folders[folder_index as int]);
        let total = inside.len();
        let size = PAGE_SIZE_ITEMS as nat;
        let pages = page_count(total, size);
        let cur = page_number(total, page, size);
        let back = seq![callback_view("◀️ Back"@, "catf:back"@)];
        let nav = if pages > 1 {
            back + nav_view(
                cur,
                pages,
                "Page "@,
                "catf:page:"@ + nat_text(folder_index) + ":"@,
                "catf:noop"@,
            )
        } else {
            back
        };
        item_rows(
            inside,
            page_start(total, page, size) as int,
            page_end(total, page, size) as int,
        ).push(nav)
    }
}

/// The keyboard for a page of a folder.
pub fn build_folder_items_keyboard(
    items: &Vec<Item>,
    folder_index: usize,
    page: usize,
) -> (r: InlineKeyboardMarkup)
    ensures
        r.deep_view() == folder_items_keyboard(
            items.deep_view(),
            folder_index as nat,
            page as nat,
        ),
{
    let folders = list_folders(items);
    let mut rows: Vec<Vec<InlineKeyboardButton>> = Vec::new();
    if folder_index >= folders.len() {
        assert(rows.deep_view() =~= seq![]);
        return InlineKeyboardMarkup { rows };
    }
    let inside = items_in_folder(items, &folders[folder_index]);
    let ghost shown = inside.deep_view();
    let p = page_of(inside.len(), page, PAGE_SIZE_ITEMS);
    assert(rows.deep_view() =~= item_rows(shown, p.start as int, p.start as int));
    for i in p.start..p.end
        invariant
            p.start <= i <= p.end <= inside@.len(),
            shown == inside.deep_view(),
            rows.deep_view() == item_rows(shown, p.start as int, i as int),
    {
        let text = join3(type_icon(&inside[i].ctype), " ", &inside[i].title);
        push_row(&mut rows, row1(callback(text, "catf:noop".to_string())));
        assert(rows.deep_view() =~= item_rows(shown, p.start as int, i + 1));
    }
    let mut nav = row1(callback("◀️ Back".to_string(), "catf:back".to_string()));
    if p.pages > 1 {
        let target = join3("catf:page:", &show_usize(folder_index), ":");
        push_nav(&mut nav, p.cur, p.pages, "Page ", &target, "catf:noop");
    }
    push_row(&mut rows, nav);
    InlineKeyboardMarkup { rows }
}

/// What is sent to show the folders.
pub open spec fn show_folders_view(items: Seq<ItemView>, chat: i64) -> ActionView {
    if items.len() == 0 {
        plain_view(chat, "No chats found in src/chats_export.csv"@)
    } else {
        ActionOf::Send {
            chat,
            text: "Choose a folder:"@,
            markup: MarkupView::Inline(folders_keyboard(items, 1)),
        }
    }
}

/// What is sent to show the folders.
pub fn show_folders(items: &Vec<Item>, chat: i64) -> (r: Action)
    ensures
        r.deep_view() == show_folders_view(items.deep_view(), chat),
{
    if items.is_empty() {
        return plain(chat, "No chats found in src/chats_export.csv".to_string());
    }
    ActionOf::Send {
        chat,
        text: "Choose a folder:".to_string(),
        markup: Markup::Inline(build_folders_keyboard(items, 1)),
    }
}

// ---------------------------------------------------------------------------
// Laws
// ---------------------------------------------------------------------------

proof fn lemma_named_parts(parts: Seq<Seq<char>>, n: nat, name: Seq<char>)
    requires
        n <= parts.len(),
    ensures
        named_parts(parts, n).contains(name) <==> name.len() > 0 && exists|i: int|
            0 <= i < n && trim_text(#[trigger] parts[i]) == name,
    decreases n,
{
    if n > 0 {
        lemma_named_parts(parts, (n - 1) as nat, name);
        let before = named_parts(parts, (n - 1) as nat);
        let after = named_parts(parts, n);
        if before.contains(name) {
            let k = choose|k: int| 0 <= k < before.len() && before[k] == name;
            assert(after[k] == name);
            let i = choose|i: int| 0 <= i < n - 1 && trim_text(#[trigger] parts[i]) == name;
            assert(trim_text(parts[i]) == name);
        }
        if name.len() > 0 && trim_text(parts[n - 1]) == name {
            assert(after[after.len() - 1] == name);
        }
        if after.contains(name) && !before.contains(name) {
            let k = choose|k: int| 0 <= k < after.len() && after[k] == name;
            assert(k == after.len() - 1);
            assert(trim_text(parts[n - 1]) == name);
        }
        if name.len() > 0 && exists|i: int|
            0 <= i < n && trim_text(#[trigger] parts[i]) == name {
            let i = choose|i: int| 0 <= i < n && trim_text(#[trigger] parts[i]) == name;
            if i < n - 1 {
                assert(before.contains(name));
            }
        }
    }
}

/// The folders of a chat are those that its column names between bars or commas, without
/// white space around them, empty ones left out; an empty column stands for one folder, that
/// of all chats.
pub proof fn folders_are_those_named(raw: Seq<char>, name: Seq<char>)
    ensures
        raw.len() > 0 ==> (folders_of_column(raw).contains(name) <==> name.len() > 0 && exists|
            i: int,
        |
            0 <= i < split_text(raw, CharKind::BarOrComma).len() && trim_text(
                #[trigger] split_text(raw, CharKind::BarOrComma)[i],
            ) == name),
        folders_of_column(Seq::<char>::empty()).contains(name) <==> name == "All"@,
{
    let parts = split_text(raw, CharKind::BarOrComma);
    let names = named_parts(parts, parts.len());
    lemma_named_parts(parts, parts.len(), name);
    stable_sort_keeps_items(names, lowercase_keys(names), name);
    without_repeats_keeps_texts(sort_ignoring_case(names), name);
    let all = seq!["All"@];
    stable_sort_keeps_items(all, lowercase_keys(all), name);
    without_repeats_keeps_texts(sort_ignoring_case(all), name);
    if name == "All"@ {
        assert(all[0] == name);
    }
}

/// A chat is in the folders that its line names in the fifth column; where the line has none
/// it is in that of all chats. Its id, title and type are those of the line.
pub proof fn exported_chats_are_in_their_folders(
    ctype: Seq<char>,
    id: i64,
    title: Seq<char>,
    name: Seq<char>,
    folders: Seq<char>,
    first: bool,
)
    requires
        tells_a_chat(ctype, int_text(id as int), title, name),
        tells_a_chat(ctype, int_text(id as int), title, name.push(';') + folders),
        has_none(name, CharKind::Semicolon),
        trim_text(ctype) == ctype,
        trim_text(title) == title,
        title.len() > 0,
    ensures
        item_of_line(
            chat_line_text(ctype, int_text(id as int), title, name.push(';') + folders),
            first,
        ) == Some(
            ItemView {
                id,
                title,
                ctype: ascii_lowercase_text(ctype),
                folders: folders_of_column(trim_text(folders)),
            },
        ),
        item_of_line(chat_line_text(ctype, int_text(id as int), title, name), first) == Some(
            ItemView {
                id,
                title,
                ctype: ascii_lowercase_text(ctype),
                folders: folders_of_column(Seq::<char>::empty()),
            },
        ),
        item_of_line(
            chat_line_text(ctype, int_text(id as int), Seq::<char>::empty(), name),
            first,
        ) is None,
{
    let n = int_text(id as int);
    let none = Seq::<char>::empty();
    int_text_parses_back(id);
    int_text_is_digits(id as int);
    trim_leaves_trimmed(n, CharKind::Space);
    lines_of_chats_are_read(ctype, n, title, name.push(';') + folders, first);
    lines_of_chats_are_read(ctype, n, title, name, first);
    lines_of_chats_are_read(ctype, n, none, name, first);
    columns_are_between_semicolons(ctype, n, title, name, folders);
    columns_are_between_semicolons(ctype, n, none, name, folders);
    assert(trim_text(none).len() == 0);
}

proof fn lemma_items(lines: Seq<Seq<char>>, n: nat, item: ItemView)
    requires
        n <= lines.len(),
    ensures
        items_of_lines(lines, n).contains(item) <==> exists|i: int|
            0 <= i < n && item_of_line(#[trigger] lines[i], i == 0) == Some(item),
        items_of_lines(lines, n).len() <= n,
    decreases n,
{
    if n > 0 {
        lemma_items(lines, (n - 1) as nat, item);
        let before = items_of_lines(lines, (n - 1) as nat);
        let after = items_of_lines(lines, n);
        let last = item_of_line(lines[n - 1], n == 1);
        if before.contains(item) {
            let k = choose|k: int| 0 <= k < before.len() && before[k] == item;
            assert(after[k] == item);
            let i = choose|i: int|
                0 <= i < n - 1 && item_of_line(#[trigger] lines[i], i == 0) == Some(item);
            assert(item_of_line(lines[i], i == 0) == Some(item));
        }
        if last == Some(item) {
            assert(after[after.len() - 1] == item);
            assert(item_of_line(lines[n - 1], n - 1 == 0) == Some(item));
        }
        if after.contains(item) && !before.contains(item) {
            let k = choose|k: int| 0 <= k < after.len() && after[k] == item;
            assert(k == after.len() - 1);
            assert(item_of_line(lines[n - 1], n - 1 == 0) == Some(item));
        }
        if exists|i: int| 0 <= i < n && item_of_line(#[trigger] lines[i], i == 0) == Some(item) {
            let i = choose|i: int|
                0 <= i < n && item_of_line(#[trigger] lines[i], i == 0) == Some(item);
            if i < n - 1 {
                assert(before.contains(item));
            }
        }
    }
}

/// The chats are those of every line of the file that tells one, and no other.
pub proof fn folders_are_of_the_file(text: Seq<char>, item: ItemView)
    ensures
        sorted_items(Some(text)).contains(item) <==> exists|i: int|
            0 <= i < lines_text(text).len() && item_of_line(#[trigger] lines_text(text)[i], i == 0)
                == Some(item),
        sorted_items(None).len() == 0,
{
    let items = items_of_text(text);
    lemma_items(lines_text(text), lines_text(text).len(), item);
    stable_sort_keeps_items(items, item_keys(items), item);
}

/// The chats of a folder are all that are in it, and no other, each once.
pub proof fn folder_holds_its_chats(items: Seq<ItemView>, folder: Seq<char>, item: ItemView)
    ensures
        chats_in(items, folder).contains(item) <==> items.contains(item) && item.folders.contains(
            folder,
        ),
        chats_in(items, folder).len() <= items.len(),
    decreases items.len(),
{
    reveal(Seq::filter);
    let inside = chats_in(items, folder);
    if items.len() > 0 {
        let rest = items.drop_last();
        let before = chats_in(rest, folder);
        folder_holds_its_chats(rest, folder, item);
        if before.contains(item) {
            let k = choose|k: int| 0 <= k < before.len() && before[k] == item;
            assert(inside[k] == item);
            let i = choose|i: int| 0 <= i < rest.len() && rest[i] == item;
            assert(items[i] == item);
        }
        if items.last() == item && item.folders.contains(folder) {
            assert(inside[inside.len() - 1] == item);
            assert(items[items.len() - 1] == item);
        }
        if inside.contains(item) && !before.contains(item) {
            assert(items[items.len() - 1] == item);
        }
        if items.contains(item) {
            let i = choose|i: int| 0 <= i < items.len() && items[i] == item;
            if i < rest.len() {
                assert(rest[i] == item);
            }
        }
    }
}

/// Each folder is a button on the page that its place tells, eight to a page: it tells how
/// many chats are in the folder, and opens it by its place.
pub proof fn every_folder_has_its_button(items: Seq<ItemView>, index: nat)
    requires
        index < folder_names(items).len(),
    ensures
        ({
            let names = folder_names(items);
            let keyboard = folders_keyboard(items, index / 8 + 1);
            let place = (index % 8) as int;
            let name = names[index as int];
            &&& place < keyboard.len()
            &&& keyboard[place].len() == 1
            &&& keyboard[place][0] matches ButtonOf::Callback { text, data } && text == "📁 "@
                + name + " ("@ + nat_text(chats_in(items, name).len()) + ")"@ && data
                == "catf:open:"@ + nat_text(index) + ":1"@
            &&& keyboard.len() <= 8 + 1
        }),
{
    page_holds_its_items(folder_names(items).len(), 8, index);
}

/// Each chat of a folder is a button on the page that its place in the folder tells, ten to a
/// page; below them is the way back.
pub proof fn every_chat_of_a_folder_has_its_button(
    items: Seq<ItemView>,
    folder_index: nat,
    index: nat,
)
    requires
        folder_index < folder_names(items).len(),
        index < chats_in(items, folder_names(items)[folder_index as int]).len(),
    ensures
        ({
            let inside = chats_in(items, folder_names(items)[folder_index as int]);
            let keyboard = folder_items_keyboard(items, folder_index, index / 10 + 1);
            let place = (index % 10) as int;
            &&& place < keyboard.len() - 1
            &&& keyboard[place].len() == 1
            &&& keyboard[place][0] matches ButtonOf::Callback { text, .. } && exists|
                icon: Seq<char>,
            | #[trigger] (icon + " "@ + inside[index as int].title) == text
            &&& keyboard.last()[0] matches ButtonOf::Callback { data, .. } && data
                == "catf:back"@
            &&& keyboard.len() <= 10 + 1
        }),
{
    let inside = chats_in(items, folder_names(items)[folder_index as int]);
    page_holds_its_items(inside.len(), 10, index);
    let item = inside[index as int];
    assert(icon_text(item.ctype) + " "@ + item.title == folder_items_keyboard(
        items,
        folder_index,
        index / 10 + 1,
    )[(index % 10) as int][0]->Callback_text);
}

/// The chats are in the order of their titles in lowercase.
pub proof fn chats_are_by_title(text: Seq<char>, i: int, j: int)
    requires
        0 <= i < j < sorted_items(Some(text)).len(),
    ensures
        text_le(
            lowercase_text(sorted_items(Some(text))[i].title),
            lowercase_text(sorted_items(Some(text))[j].title),
        ),
{
    let items = items_of_text(text);
    stable_sort_keeps_items(items, item_keys(items), items[0]);
    let r = places_are_in_order(items, item_keys(items), i, j);
}

/// Where there are chats their folders are shown by their buttons; without chats that is said.
/// Either goes to the chat that it is for.
pub proof fn folders_are_shown(items: Seq<ItemView>, chat: i64)
    ensures
        show_folders_view(items, chat) matches ActionOf::Send { chat: to, markup, .. } && {
            &&& to == chat
            &&& items.len() > 0 ==> markup == MarkupView::Inline(folders_keyboard(items, 1))
            &&& items.len() == 0 ==> markup is Plain
        },
{
}

} // verus!
