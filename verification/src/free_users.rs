//! The lists of users with free access and of those who may have a month.
use crate::json;
use crate::json::{
    all_strings, is_plain, items_of_text, json_of_text, json_view, json_views, max_depth,
    plain_list, pretty_text, string_list_of_text, strings_are_all_taken, strings_in, JsonView,
};
use crate::numbers::{int_text, show_i64};
use crate::sorting::{
    places_are_in_order, sorted_texts, stable_sort, stable_sort_keeps_items, text_le,
};
use crate::text::{handle, handle_key, lowercase_text, same};
use serde_json::Value;
use vstd::prelude::*;

verus! {

/// The file with the users that the panel gives free access.
pub const FREE_USERS_PATH: &'static str = "data/free_users.json";

/// The file with the users that the commands give free access.
pub const FREE_COMMANDS_PATH: &'static str = "src/free.json";

/// The file with the users who may have a month.
pub const FIRST_MONTH_PATH: &'static str = "src/first_month.json";

// ---------------------------------------------------------------------------
// Lists as sets
// ---------------------------------------------------------------------------

/// The first `n` texts, each where it comes first.
pub open spec fn distinct(texts: Seq<Seq<char>>, n: nat) -> Seq<Seq<char>>
    decreases n,
{
    if n == 0 {
        seq![]
    } else {
        let before = distinct(texts, (n - 1) as nat);
        if before.contains(texts[n - 1]) {
            before
        } else {
            before.push(texts[n - 1])
        }
    }
}

/// Whether a list holds a text.
pub fn holds_text(list: &Vec<String>, text: &str) -> (r: bool)
    ensures
        r == list.deep_view().contains(text@),
{
    let ghost views = list.deep_view();
    for i in 0..list.len()
        invariant
            views == list.deep_view(),
            forall|j: int| 0 <= j < i ==> (#[trigger] views[j]) != text@,
    {
        assert(views[i as int] == list@[i as int]@);
        if same(&list[i], text) {
            return true;
        }
    }
    false
}

fn distinct_texts(texts: &Vec<String>) -> (r: Vec<String>)
    ensures
        r.deep_view() == distinct(texts.deep_view(), texts@.len()),
{
    let ghost views = texts.deep_view();
    let mut out: Vec<String> = Vec::new();
    assert(out.deep_view() =~= seq![]);
    for i in 0..texts.len()
        invariant
            views == texts.deep_view(),
            out.deep_view() == distinct(views, i as nat),
    {
        assert(views[i as int] == texts@[i as int]@);
        if !holds_text(&out, &texts[i]) {
            let ghost before = out.deep_view();
            out.push(texts[i].clone());
            assert(out.deep_view() =~= before.push(views[i as int]));
        }
    }
    out
}

/// The list without a text.
pub open spec fn without_text(list: Seq<Seq<char>>, text: Seq<char>) -> Seq<Seq<char>> {
    list.filter(|t: Seq<char>| t != text)
}

fn remove_text(list: &Vec<String>, text: &String) -> (r: Vec<String>)
    ensures
        r.deep_view() == without_text(list.deep_view(), text@),
{
    let ghost views = list.deep_view();
    let mut out: Vec<String> = Vec::new();
    proof {
        reveal(Seq::filter);
        assert(out.deep_view() =~= without_text(views.take(0), text@));
    }
    for i in 0..list.len()
        invariant
            views == list.deep_view(),
            out.deep_view() == without_text(views.take(i as int), text@),
    {
        proof {
            reveal(Seq::filter);
            assert(views.take(i + 1).drop_last() =~= views.take(i as int));
            assert(views[i as int] == list@[i as int]@);
        }
        let ghost before = out.deep_view();
        if list[i] != *text {
            out.push(list[i].clone());
            assert(out.deep_view() =~= before.push(views[i as int]));
        }
    }
    assert(views.take(views.len() as int) =~= views);
    out
}

/// The list with a text, at the end where it is new.
pub open spec fn with_text(list: Seq<Seq<char>>, text: Seq<char>) -> Seq<Seq<char>> {
    if list.contains(text) {
        list
    } else {
        list.push(text)
    }
}

/// Adds a text that is not in the list. Says whether it is new.
pub fn insert_text(list: &mut Vec<String>, text: String) -> (inserted: bool)
    ensures
        inserted == !old(list).deep_view().contains(text@),
        final(list).deep_view() == with_text(old(list).deep_view(), text@),
{
    if holds_text(list, &text) {
        return false;
    }
    let ghost before = list.deep_view();
    list.push(text);
    assert(list.deep_view() =~= before.push(text@));
    true
}

/// Removes a text from the list. Says whether it was there.
pub fn take_text(list: &mut Vec<String>, text: &String) -> (removed: bool)
    ensures
        removed == old(list).deep_view().contains(text@),
        final(list).deep_view() == without_text(old(list).deep_view(), text@),
{
    let removed = holds_text(list, text);
    let rest = remove_text(list, text);
    *list = rest;
    removed
}

// ---------------------------------------------------------------------------
// Reading the files
// ---------------------------------------------------------------------------

/// The strings of a JSON array, each once; none where there is no array.
pub open spec fn name_set(text: Option<Seq<char>>) -> Seq<Seq<char>> {
    match text {
        Some(t) => {
            let names = strings_in(items_of_text(t));
            distinct(names, names.len())
        },
        None => seq![],
    }
}

/// The users that the commands give free access.
pub fn load_free_users(text: Option<&str>) -> (r: Vec<String>)
    ensures
        r.deep_view() == name_set(text.deep_view()),
{
    match text {
        Some(t) => distinct_texts(&json::parse_strings(t)),
        None => {
            let none: Vec<String> = Vec::new();
            assert(none.deep_view() =~= seq![]);
            none
        },
    }
}

/// The users who may have a month.
pub fn load_first_month_usernames(text: Option<&str>) -> (r: Vec<String>)
    ensures
        r.deep_view() == name_set(text.deep_view()),
{
    load_free_users(text)
}

/// The users that the panel gives free access, in lowercase, each once; none where the
/// file is no array of strings.
pub open spec fn panel_users(text: Option<Seq<char>>) -> Seq<Seq<char>> {
    match text {
        Some(t) => match string_list_of_text(t) {
            Some(names) => {
                let lower = names.map_values(|s: Seq<char>| lowercase_text(s));
                distinct(lower, lower.len())
            },
            None => seq![],
        },
        None => seq![],
    }
}

/// The users that the panel gives free access.
pub fn read_free_users(text: Option<&str>) -> (r: Vec<String>)
    ensures
        r.deep_view() == panel_users(text.deep_view()),
{
    let names = match text {
        Some(t) => json::parse_string_list(t),
        None => None,
    };
    match names {
        Some(names) => {
            let ghost views = names.deep_view();
            let mut lower: Vec<String> = Vec::new();
            for i in 0..names.len()
                invariant
                    views == names.deep_view(),
                    lower@.len() == i,
                    forall|j: int| 0 <= j < i ==> (#[trigger] lower@[j])@ == lowercase_text(views[j]),
            {
                assert(views[i as int] == names@[i as int]@);
                lower.push(names[i].to_lowercase());
            }
            assert(lower.deep_view() =~= views.map_values(|s: Seq<char>| lowercase_text(s)));
            distinct_texts(&lower)
        },
        None => {
            let none: Vec<String> = Vec::new();
            assert(none.deep_view() =~= seq![]);
            none
        },
    }
}

/// The names among the first `n` texts: without surrounding white space and leading `@`
/// signs, in lowercase, blank ones left out.
pub open spec fn keys_of(names: Seq<Seq<char>>, n: nat) -> Seq<Seq<char>>
    decreases n,
{
    if n == 0 {
        seq![]
    } else {
        let before = keys_of(names, (n - 1) as nat);
        let key = handle_key(names[n - 1]);
        if key.len() == 0 {
            before
        } else {
            before.push(key)
        }
    }
}

/// The names and ids that have free access.
pub open spec fn free_list(text: Option<Seq<char>>) -> Seq<Seq<char>> {
    match text {
        Some(t) => match string_list_of_text(t) {
            Some(names) => keys_of(names, names.len()),
            None => seq![],
        },
        None => seq![],
    }
}

/// The names and ids that have free access.
pub fn read_free_list(text: Option<&str>) -> (r: Vec<String>)
    ensures
        r.deep_view() == free_list(text.deep_view()),
{
    let mut out: Vec<String> = Vec::new();
    assert(out.deep_view() =~= seq![]);
    let names = match text {
        Some(t) => json::parse_string_list(t),
        None => None,
    };
    match names {
        Some(names) => {
            let ghost views = names.deep_view();
            for i in 0..names.len()
                invariant
                    views == names.deep_view(),
                    out.deep_view() == keys_of(views, i as nat),
            {
                assert(views[i as int] == names@[i as int]@);
                let key = handle(&names[i]);
                if !key.as_str().is_empty() {
                    let ghost before = out.deep_view();
                    out.push(key);
                    assert(out.deep_view() =~= before.push(key@));
                }
            }
        },
        None => {},
    }
    out
}

/// Whether a user is on the list, by name or by id.
pub open spec fn has_access(
    list: Seq<Seq<char>>,
    username: Option<Seq<char>>,
    chat_id: i64,
) -> bool {
    let key = handle_key(
        match username {
            Some(name) => name,
            None => seq![],
        },
    );
    ||| key.len() > 0 && list.contains(key)
    ||| list.contains(int_text(chat_id as int))
}

/// Whether a user is on the list, by name or by id.
pub fn is_free(list: &Vec<String>, username: Option<&str>, chat_id: i64) -> (r: bool)
    ensures
        r == has_access(list.deep_view(), username.deep_view(), chat_id),
{
    let name = match username {
        Some(name) => name.to_string(),
        None => {
            let none = String::new();
            assert(none@ =~= seq![]);
            none
        },
    };
    let key = handle(&name);
    if !key.as_str().is_empty() && holds_text(list, &key) {
        return true;
    }
    holds_text(list, &show_i64(chat_id))
}

// ---------------------------------------------------------------------------
// Writing them
// ---------------------------------------------------------------------------

/// A list of texts as JSON.
pub open spec fn text_list(texts: Seq<Seq<char>>) -> JsonView {
    JsonView::Array(texts.map_values(|t: Seq<char>| JsonView::Str(t)))
}

proof fn lemma_text_list(texts: Seq<Seq<char>>)
    ensures
        is_plain(text_list(texts), max_depth()),
        all_strings(text_list(texts)->Array_0),
        text_list(texts)->Array_0.map_values(|v: JsonView| v->Str_0) == texts,
        strings_in(text_list(texts)->Array_0) == texts,
{
    let items = texts.map_values(|t: Seq<char>| JsonView::Str(t));
    plain_list(items, 126);
    assert(items.map_values(|v: JsonView| v->Str_0) =~= texts);
    lemma_strings_in(texts);
}

proof fn lemma_strings_in(texts: Seq<Seq<char>>)
    ensures
        strings_in(texts.map_values(|t: Seq<char>| JsonView::Str(t))) == texts,
    decreases texts.len(),
{
    let items = texts.map_values(|t: Seq<char>| JsonView::Str(t));
    if texts.len() > 0 {
        let rest = texts.drop_last();
        lemma_strings_in(rest);
        assert(items.drop_last() =~= rest.map_values(|t: Seq<char>| JsonView::Str(t)));
        assert(rest.push(texts.last()) =~= texts);
    } else {
        assert(strings_in(items) =~= texts);
    }
}

/// The text of the file for a list of users. It is read back as that list.
pub fn free_users_text(users: &Vec<String>) -> (r: String)
    ensures
        r@ == pretty_text(text_list(users.deep_view())),
        string_list_of_text(r@) == Some(users.deep_view()),
        strings_in(items_of_text(r@)) == users.deep_view(),
{
    let ghost views = users.deep_view();
    let mut list: Vec<Value> = Vec::new();
    for i in 0..users.len()
        invariant
            views == users.deep_view(),
            list@.len() == i,
            forall|j: int| 0 <= j < i ==> json_view(#[trigger] list@[j]) == JsonView::Str(views[j]),
    {
        assert(views[i as int] == users@[i as int]@);
        list.push(json::of_string(users[i].clone()));
    }
    proof {
        assert(json_views(list@) =~= views.map_values(|t: Seq<char>| JsonView::Str(t)));
        lemma_text_list(views);
    }
    json::write(&json::of_list(list))
}

/// The users in the order in which the panel keeps them.
pub open spec fn sorted_users(users: Seq<Seq<char>>) -> Seq<Seq<char>> {
    stable_sort(users, users)
}

/// The users in the order in which the panel keeps them.
pub fn save_free_users(users: &Vec<String>) -> (r: Vec<String>)
    ensures
        r.deep_view() == sorted_users(users.deep_view()),
{
    sorted_texts(users)
}

// ---------------------------------------------------------------------------
// Laws
// ---------------------------------------------------------------------------

/// No text is in such a list twice, and none is lost.
pub proof fn distinct_keeps_texts(texts: Seq<Seq<char>>, n: nat, x: Seq<char>)
    requires
        n <= texts.len(),
    ensures
        distinct(texts, n).no_duplicates(),
        distinct(texts, n).contains(x) <==> texts.take(n as int).contains(x),
    decreases n,
{
    if n > 0 {
        distinct_keeps_texts(texts, (n - 1) as nat, x);
        let before = distinct(texts, (n - 1) as nat);
        let after = distinct(texts, n);
        let some = texts.take(n - 1);
        let more = texts.take(n as int);
        assert(more =~= some.push(texts[n - 1]));
        if before.contains(x) {
            let i = choose|i: int| 0 <= i < before.len() && before[i] == x;
            assert(after[i] == x);
        }
        if more.contains(x) {
            let i = choose|i: int| 0 <= i < more.len() && more[i] == x;
            if i < n - 1 {
                assert(some[i] == x);
            } else if !before.contains(x) {
                assert(after[after.len() - 1] == x);
            }
        }
        if some.contains(x) {
            let i = choose|i: int| 0 <= i < some.len() && some[i] == x;
            assert(more[i] == x);
        }
        if after.contains(x) && !before.contains(x) {
            assert(more[n - 1] == x);
        }
    }
}

proof fn lemma_keys(names: Seq<Seq<char>>, n: nat, i: int)
    requires
        0 <= i < n <= names.len(),
        handle_key(names[i]).len() > 0,
    ensures
        keys_of(names, n).contains(handle_key(names[i])),
    decreases n,
{
    let after = keys_of(names, n);
    if i == n - 1 {
        assert(after[after.len() - 1] == handle_key(names[i]));
    } else {
        lemma_keys(names, (n - 1) as nat, i);
        let before = keys_of(names, (n - 1) as nat);
        let k = choose|k: int| 0 <= k < before.len() && before[k] == handle_key(names[i]);
        assert(after[k] == before[k]);
    }
}

proof fn lemma_keys_only(names: Seq<Seq<char>>, n: nat, key: Seq<char>)
    requires
        n <= names.len(),
        keys_of(names, n).contains(key),
    ensures
        exists|i: int| 0 <= i < n && handle_key(#[trigger] names[i]) == key,
    decreases n,
{
    if n > 0 {
        let before = keys_of(names, (n - 1) as nat);
        if before.contains(key) {
            lemma_keys_only(names, (n - 1) as nat, key);
            let i = choose|i: int| 0 <= i < n - 1 && handle_key(#[trigger] names[i]) == key;
            assert(handle_key(names[i]) == key);
        } else {
            assert(handle_key(names[n - 1]) == key);
        }
    }
}

/// How a name is written does not matter: neither its case, nor surrounding white space,
/// nor leading `@` signs.
pub proof fn access_depends_on_the_key(
    list: Seq<Seq<char>>,
    a: Seq<char>,
    b: Seq<char>,
    chat_id: i64,
)
    requires
        handle_key(a) == handle_key(b),
    ensures
        has_access(list, Some(a), chat_id) == has_access(list, Some(b), chat_id),
{
}

/// A user whom the panel adds has free access once the list is written: under every way
/// to write the name, for a name that is its own lowercase form without `@`.
pub proof fn added_user_has_access(
    text: Seq<char>,
    users: Seq<Seq<char>>,
    key: Seq<char>,
    username: Seq<char>,
    chat_id: i64,
)
    requires
        string_list_of_text(text) == Some(sorted_users(with_text(users, key))),
        handle_key(key) == key,
        key.len() > 0,
        handle_key(username) == key,
    ensures
        has_access(free_list(Some(text)), Some(username), chat_id),
{
    let all = with_text(users, key);
    let saved = sorted_users(all);
    if !users.contains(key) {
        assert(all[all.len() - 1] == key);
    }
    stable_sort_keeps_items(all, all, key);
    let i = choose|i: int| 0 <= i < saved.len() && saved[i] == key;
    lemma_keys(saved, saved.len(), i);
}

/// A user whom the panel removes has no free access once the list is written, unless
/// the list holds another way to write the name, or the id of the chat.
pub proof fn removed_user_has_no_access(
    text: Seq<char>,
    users: Seq<Seq<char>>,
    key: Seq<char>,
    username: Seq<char>,
    chat_id: i64,
)
    requires
        string_list_of_text(text) == Some(sorted_users(without_text(users, key))),
        handle_key(username) == key,
        forall|i: int|
            0 <= i < users.len() && (#[trigger] users[i]) != key ==> handle_key(users[i]) != key
                && handle_key(users[i]) != int_text(chat_id as int),
    ensures
        !has_access(free_list(Some(text)), Some(username), chat_id),
{
    let all = without_text(users, key);
    let saved = sorted_users(all);
    let list = free_list(Some(text));
    assert forall|k: Seq<char>|
        k == key || k == int_text(chat_id as int) implies !(#[trigger] list.contains(k)) by {
        if list.contains(k) {
            lemma_keys_only(saved, saved.len(), k);
            let i = choose|i: int| 0 <= i < saved.len() && handle_key(#[trigger] saved[i]) == k;
            stable_sort_keeps_items(all, all, saved[i]);
            let j = choose|j: int| 0 <= j < all.len() && all[j] == saved[i];
            lemma_filter_only(users, key, j);
            let m = choose|m: int| 0 <= m < users.len() && users[m] == all[j];
            assert(users[m] != key);
        }
    }
}

proof fn lemma_filter_only(list: Seq<Seq<char>>, key: Seq<char>, i: int)
    requires
        0 <= i < without_text(list, key).len(),
    ensures
        list.contains(without_text(list, key)[i]),
        without_text(list, key)[i] != key,
    decreases list.len(),
{
    reveal(Seq::filter);
    let rest = list.drop_last();
    if i < without_text(rest, key).len() {
        lemma_filter_only(rest, key, i);
        let j = choose|j: int| 0 <= j < rest.len() && rest[j] == without_text(rest, key)[i];
        assert(list[j] == rest[j]);
    } else {
        assert(list[list.len() - 1] == without_text(list, key)[i]);
    }
}

/// Whether a text is its own lowercase form.
pub open spec fn is_lowercase(text: Seq<char>) -> bool {
    lowercase_text(text) == text
}

/// A list that the panel wrote is read back with the same users, where the names are their
/// own lowercase forms.
pub proof fn written_users_are_read(text: Seq<char>, users: Seq<Seq<char>>, x: Seq<char>)
    requires
        string_list_of_text(text) == Some(sorted_users(users)),
        forall|i: int| 0 <= i < users.len() ==> is_lowercase(#[trigger] users[i]),
    ensures
        panel_users(Some(text)).contains(x) <==> users.contains(x),
{
    let saved = sorted_users(users);
    let lower = saved.map_values(|s: Seq<char>| lowercase_text(s));
    assert forall|i: int| 0 <= i < saved.len() implies is_lowercase(#[trigger] saved[i]) by {
        stable_sort_keeps_items(users, users, saved[i]);
        let j = choose|j: int| 0 <= j < users.len() && users[j] == saved[i];
        assert(is_lowercase(users[j]));
    }
    assert(lower =~= saved);
    distinct_keeps_texts(lower, lower.len(), x);
    assert(lower.take(lower.len() as int) =~= lower);
    stable_sort_keeps_items(users, users, x);
}

/// A list with a text holds it, and one without it does not; the others stay.
pub proof fn only_the_text_changes(list: Seq<Seq<char>>, text: Seq<char>, x: Seq<char>)
    ensures
        with_text(list, text).contains(x) <==> list.contains(x) || x == text,
        without_text(list, text).contains(x) <==> list.contains(x) && x != text,
{
    let more = with_text(list, text);
    let fewer = without_text(list, text);
    if list.contains(x) {
        let i = choose|i: int| 0 <= i < list.len() && list[i] == x;
        assert(more[i] == x);
        if x != text {
            list.lemma_filter_contains(|t: Seq<char>| t != text, i);
        }
    }
    if !list.contains(text) {
        assert(more[more.len() - 1] == text);
    }
    if fewer.contains(x) {
        let i = choose|i: int| 0 <= i < fewer.len() && fewer[i] == x;
        lemma_filter_only(list, text, i);
    }
}

/// Whoever is on the list has free access, and nobody else: under their name if they have
/// one, however it is written, or under the id of their chat, whatever their name is.
pub proof fn access_is_by_name_or_by_id(
    list: Seq<Seq<char>>,
    username: Option<Seq<char>>,
    chat_id: i64,
)
    ensures
        list.contains(int_text(chat_id as int)) ==> has_access(list, username, chat_id),
        forall|name: Seq<char>|
            username == Some(name) && handle_key(name).len() > 0 && list.contains(
                #[trigger] handle_key(name),
            ) ==> has_access(list, username, chat_id),
        has_access(list, username, chat_id) ==> list.contains(int_text(chat_id as int))
            || list.contains(
            handle_key(
                if username is Some {
                    username->0
                } else {
                    seq![]
                },
            ),
        ),
{
}

/// A file that lists the id of a chat gives that chat free access, whoever writes in it
/// and under whatever name; and one that lists a name, in any way to write it, gives
/// access to whoever has that name, in every chat.
pub proof fn listed_users_have_access(
    text: Seq<char>,
    names: Seq<Seq<char>>,
    i: int,
    username: Option<Seq<char>>,
    chat_id: i64,
)
    requires
        string_list_of_text(text) == Some(names),
        0 <= i < names.len(),
        handle_key(names[i]).len() > 0,
        ({
            ||| handle_key(names[i]) == int_text(chat_id as int)
            ||| username is Some && handle_key(username->0) == handle_key(names[i])
        }),
    ensures
        has_access(free_list(Some(text)), username, chat_id),
{
    lemma_keys(names, names.len(), i);
}

/// Whoever is not in the file has no free access, neither by name nor by id.
pub proof fn others_have_no_access(
    text: Seq<char>,
    names: Seq<Seq<char>>,
    name: Seq<char>,
    chat_id: i64,
)
    requires
        string_list_of_text(text) == Some(names),
        forall|i: int|
            0 <= i < names.len() ==> handle_key(#[trigger] names[i]) != handle_key(name)
                && handle_key(names[i]) != int_text(chat_id as int),
    ensures
        !has_access(free_list(Some(text)), Some(name), chat_id),
{
    let list = free_list(Some(text));
    if list.contains(handle_key(name)) {
        lemma_keys_only(names, names.len(), handle_key(name));
    }
    if list.contains(int_text(chat_id as int)) {
        lemma_keys_only(names, names.len(), int_text(chat_id as int));
    }
}

/// The users of a file are the strings of its array, each once, and nobody else; those that
/// the panel gives free access are taken in lowercase.
pub proof fn file_names_its_users(text: Seq<char>, items: Seq<JsonView>, x: Seq<char>)
    requires
        json_of_text(text) == Some(JsonView::Array(items)),
    ensures
        name_set(Some(text)).no_duplicates(),
        name_set(Some(text)).contains(x) <==> items.contains(JsonView::Str(x)),
        name_set(None).len() == 0,
        panel_users(None).len() == 0,
        free_list(None).len() == 0,
        string_list_of_text(text) matches Some(names) ==> {
            &&& panel_users(Some(text)).no_duplicates()
            &&& panel_users(Some(text)).contains(x) <==> exists|i: int|
                0 <= i < names.len() && lowercase_text(#[trigger] names[i]) == x
        },
{
    let names = strings_in(items);
    strings_are_all_taken(items, items, x);
    distinct_keeps_texts(names, names.len(), x);
    assert(names.take(names.len() as int) =~= names);
    if string_list_of_text(text) is Some {
        let list = string_list_of_text(text)->0;
        let lower = list.map_values(|s: Seq<char>| lowercase_text(s));
        distinct_keeps_texts(lower, lower.len(), x);
        assert(lower.take(lower.len() as int) =~= lower);
        if lower.contains(x) {
            let i = choose|i: int| 0 <= i < lower.len() && lower[i] == x;
            assert(lowercase_text(list[i]) == x);
        }
        if exists|i: int| 0 <= i < list.len() && lowercase_text(#[trigger] list[i]) == x {
            let i = choose|i: int| 0 <= i < list.len() && lowercase_text(#[trigger] list[i]) == x;
            assert(lower[i] == x);
        }
    }
}

/// The panel keeps its users in the order of their names, and loses and adds none.
pub proof fn users_are_kept_in_order(users: Seq<Seq<char>>, i: int, j: int, x: Seq<char>)
    requires
        0 <= i < j < users.len(),
    ensures
        text_le(sorted_users(users)[i], sorted_users(users)[j]),
        sorted_users(users).len() == users.len(),
        sorted_users(users).contains(x) <==> users.contains(x),
{
    let r = places_are_in_order(users, users, i, j);
    stable_sort_keeps_items(users, users, x);
}

} // verus!
