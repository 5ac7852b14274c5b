use channel_bot::actions::ActionOf;
use channel_bot::catalog::{build_catalog_keyboard, load_catalog, show_catalog, type_icon};
use channel_bot::catalog_folders::{
    build_folder_items_keyboard, build_folders_keyboard, items_in_folder, list_folders, load_items,
    show_folders,
};
use channel_bot::keyboard::{ButtonOf, InlineKeyboardMarkup, Markup};
use channel_bot::listing;
use channel_bot::paging::page_of;
use channel_bot::selection::{
    build_selection_keyboard, finish_keyboard, start_channel_selection, toggle_user_selection,
};

const EXPORT: &str = "type;id;title;username;folders\n\
    # a comment\n\
    channel;-1;beta;;Work|Fun\n\
    \n\
    Supergroup; -2 ;Alpha;alpha;\n\
    bot;0;Zero;;All\n\
    private;x;No id;;\n\
    group;-3;;;\n";

fn labels(kb: &InlineKeyboardMarkup) -> Vec<Vec<(String, String)>> {
    kb.rows
        .iter()
        .map(|row| {
            row.iter()
                .map(|b| match b {
                    ButtonOf::Callback { text, data } => (text.clone(), data.clone()),
                    ButtonOf::Url { text, url } => (text.clone(), url.clone()),
                })
                .collect()
        })
        .collect()
}

fn pair(a: &str, b: &str) -> (String, String) {
    (a.to_string(), b.to_string())
}

#[test]
fn icons_follow_the_type() {
    assert_eq!(type_icon("channel"), "📣");
    assert_eq!(type_icon("group"), "👥");
    assert_eq!(type_icon("supergroup"), "👥");
    assert_eq!(type_icon("private"), "👤");
    assert_eq!(type_icon("bot"), "🤖");
    assert_eq!(type_icon("Channel"), "•");
}

#[test]
fn catalog_is_read_and_sorted() {
    let rows = load_catalog(Some(EXPORT));
    assert_eq!(
        rows,
        vec![
            (-2, "Alpha".to_string(), "supergroup".to_string()),
            (-1, "beta".to_string(), "channel".to_string()),
        ]
    );
    assert!(load_catalog(None).is_empty());
}

#[test]
fn listing_counts_a_zero_id() {
    let rows = listing::load_catalog(Some(EXPORT));
    assert_eq!(rows.len(), 3);
    let ActionOf::Send { chat, text, markup } = listing::show_catalog(&rows, 5) else {
        panic!("a message is expected");
    };
    assert_eq!(chat, 5);
    assert_eq!(text, "Доступные чаты:\n\n👥 Alpha\n📣 beta\n🤖 Zero\n");
    assert_eq!(markup, Markup::Plain);
}

#[test]
fn listing_stops_at_a_thousand() {
    let text: String = (1..1200).map(|i| format!("bot;{i};t{i}\n")).collect();
    let rows = listing::load_catalog(Some(&text));
    assert_eq!(rows.len(), 1199);
    let ActionOf::Send { text, .. } = listing::show_catalog(&rows, 1) else {
        panic!("a message is expected");
    };
    assert_eq!(text.lines().count(), 2 + 1000);
}

#[test]
fn empty_listing_says_so() {
    let ActionOf::Send { text, .. } = listing::show_catalog(&Vec::new(), 1) else {
        panic!("a message is expected");
    };
    assert_eq!(text, "В файле src/chats_export.csv не найдено чатов");
}

#[test]
fn catalog_keyboard_has_one_page() {
    let kb = build_catalog_keyboard(&load_catalog(Some(EXPORT)), 9);
    assert_eq!(
        labels(&kb),
        vec![vec![pair("👥 Alpha", "cat:noop")], vec![pair("📣 beta", "cat:noop")]]
    );
}

#[test]
fn catalog_keyboard_turns_pages() {
    let text: String = (10..35).map(|i| format!("bot;{i};t{i}\n")).collect();
    let rows = load_catalog(Some(&text));
    let first = labels(&build_catalog_keyboard(&rows, 0));
    assert_eq!(first.len(), 11);
    assert_eq!(first[0], vec![pair("🤖 t10", "cat:noop")]);
    assert_eq!(first[10], vec![pair("Page 1/3", "cat:noop"), pair("Next ➡️", "cat:page:2")]);
    let middle = labels(&build_catalog_keyboard(&rows, 2));
    assert_eq!(
        middle[10],
        vec![
            pair("⬅️ Prev", "cat:page:1"),
            pair("Page 2/3", "cat:noop"),
            pair("Next ➡️", "cat:page:3"),
        ]
    );
    let last = labels(&build_catalog_keyboard(&rows, 100));
    assert_eq!(last.len(), 6);
    assert_eq!(last[5], vec![pair("⬅️ Prev", "cat:page:2"), pair("Page 3/3", "cat:noop")]);
}

#[test]
fn pages_cover_each_item_once() {
    for total in [0usize, 1, 9, 10, 11, 20, 95] {
        let pages = page_of(total, 1, 10).pages;
        let mut covered = 0;
        for n in 1..=pages {
            let p = page_of(total, n, 10);
            assert_eq!(p.start, covered);
            covered = p.end;
        }
        assert_eq!(covered, total);
    }
}

#[test]
fn catalog_is_shown_or_missed() {
    let shown = show_catalog(&load_catalog(Some(EXPORT)), 3, 1);
    let ActionOf::Send { text, markup, .. } = shown else {
        panic!("a message is expected");
    };
    assert_eq!(text, "Browse your chats (buttons are inert):");
    assert!(matches!(markup, Markup::Inline(_)));
    let ActionOf::Send { text, markup, .. } = show_catalog(&Vec::new(), 3, 1) else {
        panic!("a message is expected");
    };
    assert_eq!(text, "No chats found in src/chats_export.csv");
    assert_eq!(markup, Markup::Plain);
}

#[test]
fn folders_are_read() {
    let items = load_items(Some(EXPORT));
    assert_eq!(items.len(), 3);
    assert_eq!(items[0].folders, vec!["All".to_string()]);
    assert_eq!(items[1].folders, vec!["Fun".to_string(), "Work".to_string()]);
    assert_eq!(list_folders(&items), vec!["All".to_string(), "Fun".to_string(), "Work".to_string()]);
    assert_eq!(items_in_folder(&items, "All").len(), 2);
    assert_eq!(items_in_folder(&items, "all").len(), 0);
}

#[test]
fn folder_keyboards_are_built() {
    let items = load_items(Some(EXPORT));
    assert_eq!(
        labels(&build_folders_keyboard(&items, 1)),
        vec![
            vec![pair("📁 All (2)", "catf:open:0:1")],
            vec![pair("📁 Fun (1)", "catf:open:1:1")],
            vec![pair("📁 Work (1)", "catf:open:2:1")],
        ]
    );
    assert_eq!(
        labels(&build_folder_items_keyboard(&items, 0, 1)),
        vec![
            vec![pair("👥 Alpha", "catf:noop")],
            vec![pair("🤖 Zero", "catf:noop")],
            vec![pair("◀️ Back", "catf:back")],
        ]
    );
    assert!(build_folder_items_keyboard(&items, 3, 1).rows.is_empty());
    assert!(matches!(show_folders(&items, 1), ActionOf::Send { text, .. } if text == "Choose a folder:"));
}

#[test]
fn selection_marks_what_is_chosen() {
    let all = vec![
        (-5, "News".to_string(), None, "channel".to_string()),
        (6, "Talk".to_string(), Some("talk".to_string()), "group".to_string()),
    ];
    let kb = build_selection_keyboard(&all, &vec![6], 1);
    assert_eq!(
        labels(&kb),
        vec![
            vec![pair("📣 News", "sel:toggle:-5:1")],
            vec![pair("👥 Talk ✅", "sel:toggle:6:1")],
        ]
    );
    assert_eq!(finish_keyboard().rows, vec![vec!["Finish selecting".to_string()]]);
    assert_eq!(start_channel_selection(&all, &vec![6], 9).len(), 2);
}

#[test]
fn toggling_selects_and_deselects() {
    assert!(toggle_user_selection(false));
    assert!(!toggle_user_selection(true));
}
