//! The persisted state of the bot, a JSON object whose other fields are left alone.
use crate::json;
use crate::json::{
    alike, field, fields_are_alike, fields_or_empty, i64_of, is_plain, json_view, max_depth,
    nests_within, object_nests, object_of_text, pretty_text, JsonView,
};
use crate::numbers::{int_text, int_text_is_injective, show_i64};
use crate::text::same;
use serde_json::Value;
use vstd::prelude::*;

verus! {

/// Whether fields can be written: the state is an object, or `null`, which becomes one.
pub open spec fn takes_fields(st: JsonView) -> bool {
    st is Object || st is Null
}

/// Whether fields can be written: the state is an object, or `null`, which becomes one.
pub fn can_take_fields(st: &Value) -> (r: bool)
    ensures
        r == takes_fields(json_view(*st)),
{
    json::is_object(st) || json::is_null(st)
}

/// The state in a file's text; the empty state where there is no file or no JSON.
pub fn read_state(text: Option<&str>) -> (st: Value)
    ensures
        json_view(st) == object_of_text(text.deep_view()),
        nests_within(json_view(st), max_depth()),
{
    json::parse_object(text)
}

/// The text of the file for a state. A state that nests no deeper than can be read, as
/// every state that was read does, is read back from it, but for the last digits of
/// floating-point numbers.
pub fn state_text(st: &Value) -> (r: String)
    ensures
        r@ == pretty_text(json_view(*st)),
        nests_within(json_view(*st), max_depth()) ==> alike(
            object_of_text(Some(r@)),
            json_view(*st),
            max_depth(),
        ),
        is_plain(json_view(*st), max_depth()) ==> object_of_text(Some(r@)) == json_view(*st),
{
    json::write(st)
}

// ---------------------------------------------------------------------------
// Paid or not
// ---------------------------------------------------------------------------

/// Whether a field holds `true`.
pub open spec fn flag(st: JsonView, key: Seq<char>) -> bool {
    field(st, key) == Some(JsonView::Bool(true))
}

fn get_flag(st: &Value, key: &str) -> (r: bool)
    ensures
        r == flag(json_view(*st), key@),
{
    match json::get(st, key) {
        Some(v) => match json::as_bool(v) {
            Some(b) => b,
            None => false,
        },
        None => false,
    }
}

/// Whether the state says that access is paid for.
pub open spec fn paid(st: JsonView) -> bool {
    flag(st, "paid"@)
}

/// Whether the state says that access was granted because payments were off.
pub open spec fn paid_forced(st: JsonView) -> bool {
    flag(st, "paid_forced"@)
}

/// Whether the state names the invoice that access was paid with.
pub open spec fn has_invoice(st: JsonView) -> bool {
    field(st, "paid_invoice_id"@) is Some && i64_of(field(st, "paid_invoice_id"@)->0) is Some
}

/// Whether the state says that access is paid for.
pub fn is_paid(st: &Value) -> (r: bool)
    ensures
        r == paid(json_view(*st)),
{
    get_flag(st, "paid")
}

/// Whether the state says that access was granted because payments were off.
pub fn is_paid_forced(st: &Value) -> (r: bool)
    ensures
        r == paid_forced(json_view(*st)),
{
    get_flag(st, "paid_forced")
}

/// The state with one field replaced.
pub open spec fn with_field(st: JsonView, key: Seq<char>, v: JsonView) -> JsonView {
    JsonView::Object(fields_or_empty(st).insert(key, v))
}

/// The state once "paid" agrees with the payment mode: with payments off everyone has
/// paid, by force; with payments on a forced grant is taken back, and so is one that no
/// invoice stands behind.
pub open spec fn normalized(st: JsonView, payments_enabled: bool) -> JsonView {
    if !payments_enabled {
        with_field(
            with_field(st, "paid"@, JsonView::Bool(true)),
            "paid_forced"@,
            JsonView::Bool(true),
        )
    } else if paid_forced(st) {
        with_field(
            with_field(st, "paid"@, JsonView::Bool(false)),
            "paid_forced"@,
            JsonView::Bool(false),
        )
    } else if paid(st) && !has_invoice(st) {
        with_field(st, "paid"@, JsonView::Bool(false))
    } else {
        st
    }
}

/// Brings "paid" in line with the payment mode and the confirmed invoice.
pub fn normalize_paid_state(st: &mut Value, payments_enabled: bool)
    requires
        !payments_enabled ==> takes_fields(json_view(*old(st))),
    ensures
        json_view(*final(st)) == normalized(json_view(*old(st)), payments_enabled),
{
    proof {
        field_names_differ();
    }
    if !payments_enabled {
        json::set_field(st, "paid", json::of_bool(true));
        json::set_field(st, "paid_forced", json::of_bool(true));
        return;
    }
    if is_paid_forced(st) {
        json::set_field(st, "paid", json::of_bool(false));
        json::set_field(st, "paid_forced", json::of_bool(false));
    }
    let has_invoice = match json::get(st, "paid_invoice_id") {
        Some(v) => json::as_i64(v).is_some(),
        None => false,
    };
    if is_paid(st) && !has_invoice {
        json::set_field(st, "paid", json::of_bool(false));
    }
}

/// The names of the fields differ.
pub proof fn field_names_differ()
    ensures
        "paid"@ != "paid_forced"@,
        "paid"@ != "paid_invoice_id"@,
        "paid_forced"@ != "paid_invoice_id"@,
        "target_chat_id"@ != "paid"@,
        "target_chat_id"@ != "paid_forced"@,
        "target_chat_id"@ != "paid_invoice_id"@,
        "subscribed"@ != "target_chat_id"@,
        "subscribed"@ != "paid"@,
        "subscribed"@ != "paid_forced"@,
        "subscribed"@ != "paid_invoice_id"@,
        "promo_pending"@ != "used_promo"@,
        "promo_pending"@ != "admin_pending"@,
        "used_promo"@ != "admin_pending"@,
{
    reveal_strlit("paid");
    reveal_strlit("paid_forced");
    reveal_strlit("paid_invoice_id");
    reveal_strlit("target_chat_id");
    reveal_strlit("subscribed");
    reveal_strlit("promo_pending");
    reveal_strlit("used_promo");
    reveal_strlit("admin_pending");
    assert("paid"@.len() == 4 && "paid_forced"@.len() == 11 && "paid_invoice_id"@.len() == 15);
    assert("target_chat_id"@.len() == 14 && "subscribed"@.len() == 10);
    assert("used_promo"@.len() == 10);
    assert("promo_pending"@[0] == 'p' && "admin_pending"@[0] == 'a');
}

/// With payments on, normalized state is paid only where an invoice stands behind it,
/// and never by force; with payments off it is paid, by force.
pub proof fn normalized_is_sound(st: JsonView, payments_enabled: bool)
    ensures
        payments_enabled ==> !paid_forced(normalized(st, true)),
        payments_enabled && paid(normalized(st, true)) ==> has_invoice(normalized(st, true)),
        !payments_enabled ==> paid(normalized(st, false)) && paid_forced(normalized(st, false)),
{
    field_names_differ();
}

/// Normalizing twice is normalizing once.
pub proof fn normalized_twice(st: JsonView, payments_enabled: bool)
    ensures
        normalized(normalized(st, payments_enabled), payments_enabled) == normalized(
            st,
            payments_enabled,
        ),
{
    field_names_differ();
    normalized_is_sound(st, payments_enabled);
    let once = normalized(st, payments_enabled);
    let twice = normalized(once, payments_enabled);
    if !payments_enabled {
        assert(fields_or_empty(twice) =~= fields_or_empty(once));
    }
}

/// Normalizing touches "paid" and "paid_forced" only.
pub proof fn normalized_keeps_other_fields(
    st: JsonView,
    payments_enabled: bool,
    key: Seq<char>,
)
    requires
        key != "paid"@,
        key != "paid_forced"@,
    ensures
        field(normalized(st, payments_enabled), key) == field(st, key),
{
}

/// Turning payments off and on again takes the forced grant back, even from someone who
/// had paid.
pub proof fn payments_off_and_on_revokes(st: JsonView)
    ensures
        !paid(normalized(normalized(st, false), true)),
{
    field_names_differ();
    normalized_is_sound(st, false);
}

/// The state once an administrator has been let in.
pub open spec fn admin_granted(st: JsonView, chat_id: i64) -> JsonView {
    let granted = with_field(
        with_field(
            with_field(
                with_field(st, "target_chat_id"@, JsonView::Integer(chat_id as int)),
                "paid"@,
                JsonView::Bool(true),
            ),
            "paid_forced"@,
            JsonView::Bool(false),
        ),
        "paid_invoice_id"@,
        JsonView::Integer(-1),
    );
    if field(st, "subscribed"@) is None {
        with_field(granted, "subscribed"@, JsonView::Bool(false))
    } else {
        granted
    }
}

/// Records that an administrator has been let in.
pub fn grant_admin(st: &mut Value, chat_id: i64)
    requires
        takes_fields(json_view(*old(st))),
    ensures
        json_view(*final(st)) == admin_granted(json_view(*old(st)), chat_id),
{
    proof {
        field_names_differ();
    }
    json::set_field(st, "target_chat_id", json::of_i64(chat_id));
    json::set_field(st, "paid", json::of_bool(true));
    json::set_field(st, "paid_forced", json::of_bool(false));
    json::set_field(st, "paid_invoice_id", json::of_i64(-1));
    if json::get(st, "subscribed").is_none() {
        json::set_field(st, "subscribed", json::of_bool(false));
    }
}

/// What an administrator is granted outlives normalizing while payments are on.
pub proof fn admin_grant_survives_normalizing(st: JsonView, chat_id: i64)
    ensures
        normalized(admin_granted(st, chat_id), true) == admin_granted(st, chat_id),
        paid(admin_granted(st, chat_id)),
{
    field_names_differ();
}

// ---------------------------------------------------------------------------
// Sections with one entry per user or chat
// ---------------------------------------------------------------------------

/// The entry of a user in a section of the state.
pub open spec fn entry(st: JsonView, section: Seq<char>, id: i64) -> Option<JsonView> {
    match field(st, section) {
        Some(s) => field(s, int_text(id as int)),
        None => None,
    }
}

/// A section of the state; one that is missing counts as one without entries.
pub open spec fn section_of(st: JsonView, section: Seq<char>) -> JsonView {
    match field(st, section) {
        Some(s) => s,
        None => JsonView::Object(Map::empty()),
    }
}

/// The state with the entry of a user set, or removed. A section that is no object
/// takes no entries.
pub open spec fn with_entry(
    st: JsonView,
    section: Seq<char>,
    id: i64,
    value: Option<JsonView>,
) -> JsonView {
    let key = int_text(id as int);
    let entries = match section_of(st, section) {
        JsonView::Object(entries) => JsonView::Object(
            match value {
                Some(v) => entries.insert(key, v),
                None => entries.remove(key),
            },
        ),
        other => other,
    };
    with_field(st, section, entries)
}

/// An entry that was set is there, if the section takes entries.
pub proof fn entry_set_is_read(st: JsonView, section: Seq<char>, id: i64, value: JsonView)
    requires
        section_of(st, section) is Object,
    ensures
        entry(with_entry(st, section, id, Some(value)), section, id) == Some(value),
{
}

/// An entry that was removed is gone.
pub proof fn entry_removed_is_gone(st: JsonView, section: Seq<char>, id: i64)
    ensures
        entry(with_entry(st, section, id, None), section, id) is None,
{
}

/// Setting or removing the entry of one user leaves those of all others as they were.
pub proof fn other_entries_stay(
    st: JsonView,
    section: Seq<char>,
    id: i64,
    other: i64,
    value: Option<JsonView>,
)
    requires
        id != other,
    ensures
        entry(with_entry(st, section, id, value), section, other) == entry(st, section, other),
{
    if int_text(id as int) == int_text(other as int) {
        int_text_is_injective(id, other);
    }
}

/// Setting or removing an entry leaves the other fields of the state as they were.
pub proof fn other_sections_stay(
    st: JsonView,
    section: Seq<char>,
    id: i64,
    value: Option<JsonView>,
    key: Seq<char>,
)
    requires
        key != section,
    ensures
        field(with_entry(st, section, id, value), key) == field(st, key),
{
}

fn get_entry<'a>(st: &'a Value, section: &str, id: i64) -> (r: Option<&'a Value>)
    ensures
        match r {
            Some(v) => entry(json_view(*st), section@, id) == Some(json_view(*v)),
            None => entry(json_view(*st), section@, id) is None,
        },
{
    match json::get(st, section) {
        Some(s) => json::get(s, &show_i64(id)),
        None => None,
    }
}

fn change_entry(st: &mut Value, section: &str, id: i64, value: Option<Value>)
    requires
        takes_fields(json_view(*old(st))),
    ensures
        json_view(*final(st)) == with_entry(
            json_view(*old(st)),
            section@,
            id,
            match value {
                Some(v) => Some(json_view(v)),
                None => None,
            },
        ),
{
    if json::get(st, section).is_none() {
        json::set_field(st, section, json::empty_object());
    }
    let ghost ready = json_view(*st);
    assert(fields_or_empty(ready).contains_key(section@));
    match json::get_mut(st, section) {
        Some(s) => {
            if json::is_object(s) {
                match value {
                    Some(v) => json::insert_field(s, show_i64(id), v),
                    None => json::remove_field(s, &show_i64(id)),
                }
            }
        },
        None => {},
    }
    assert(fields_or_empty(json_view(*st)) =~= fields_or_empty(
        with_entry(
            json_view(*old(st)),
            section@,
            id,
            match value {
                Some(v) => Some(json_view(v)),
                None => None,
            },
        ),
    ));
}

/// Whether an administrator is expected to answer for the given action.
pub open spec fn admin_pending(st: JsonView, user_id: i64, action: Seq<char>) -> bool {
    entry(st, "admin_pending"@, user_id) == Some(JsonView::Str(action))
}

/// Whether an administrator is expected to answer for the given action.
pub fn is_admin_pending(st: &Value, user_id: i64, action: &str) -> (r: bool)
    ensures
        r == admin_pending(json_view(*st), user_id, action@),
{
    match get_entry(st, "admin_pending", user_id) {
        Some(v) => match json::as_str(v) {
            Some(s) => same(s, action),
            None => false,
        },
        None => false,
    }
}

/// The state once an administrator is expected to answer for an action, or for none.
pub open spec fn with_admin_pending(
    st: JsonView,
    user_id: i64,
    action: Option<Seq<char>>,
) -> JsonView {
    with_entry(
        st,
        "admin_pending"@,
        user_id,
        match action {
            Some(a) => Some(JsonView::Str(a)),
            None => None,
        },
    )
}

/// Sets the action that an administrator is expected to answer for.
pub fn set_admin_pending(st: &mut Value, user_id: i64, action: Option<&str>)
    requires
        takes_fields(json_view(*old(st))),
    ensures
        json_view(*final(st)) == with_admin_pending(
            json_view(*old(st)),
            user_id,
            action.deep_view(),
        ),
{
    match action {
        Some(a) => change_entry(st, "admin_pending", user_id, Some(json::of_string(a.to_string()))),
        None => change_entry(st, "admin_pending", user_id, None),
    }
}

/// Whether the user has used the promotion.
pub open spec fn used_promo(st: JsonView, user_id: i64) -> bool {
    entry(st, "used_promo"@, user_id) == Some(JsonView::Bool(true))
}

fn entry_flag(st: &Value, section: &str, id: i64) -> (r: bool)
    ensures
        r == (entry(json_view(*st), section@, id) == Some(JsonView::Bool(true))),
{
    match get_entry(st, section, id) {
        Some(v) => match json::as_bool(v) {
            Some(b) => b,
            None => false,
        },
        None => false,
    }
}

/// Whether the user has used the promotion.
pub fn has_used_promo(st: &Value, user_id: i64) -> (r: bool)
    ensures
        r == used_promo(json_view(*st), user_id),
{
    entry_flag(st, "used_promo", user_id)
}

/// The state once the user has used the promotion.
pub open spec fn with_used_promo(st: JsonView, user_id: i64) -> JsonView {
    with_entry(st, "used_promo"@, user_id, Some(JsonView::Bool(true)))
}

/// Records that the user has used the promotion.
pub fn set_used_promo(st: &mut Value, user_id: i64)
    requires
        takes_fields(json_view(*old(st))),
    ensures
        json_view(*final(st)) == with_used_promo(json_view(*old(st)), user_id),
{
    change_entry(st, "used_promo", user_id, Some(json::of_bool(true)));
}

/// Whether the user is expected to name an account for the promotion.
pub open spec fn promo_pending(st: JsonView, user_id: i64) -> bool {
    entry(st, "promo_pending"@, user_id) == Some(JsonView::Bool(true))
}

/// Whether the user is expected to name an account for the promotion.
pub fn is_promo_pending(st: &Value, user_id: i64) -> (r: bool)
    ensures
        r == promo_pending(json_view(*st), user_id),
{
    entry_flag(st, "promo_pending", user_id)
}

/// The state once the user is, or is no more, expected to name an account.
pub open spec fn with_promo_pending(st: JsonView, user_id: i64, pending: bool) -> JsonView {
    with_entry(st, "promo_pending"@, user_id, Some(JsonView::Bool(pending)))
}

/// Sets whether the user is expected to name an account for the promotion.
pub fn set_promo_pending(st: &mut Value, user_id: i64, pending: bool)
    requires
        takes_fields(json_view(*old(st))),
    ensures
        json_view(*final(st)) == with_promo_pending(json_view(*old(st)), user_id, pending),
{
    change_entry(st, "promo_pending", user_id, Some(json::of_bool(pending)));
}

/// A promotion once used stays used, whatever else the promotion and administration
/// flows record, for that user or another.
pub proof fn used_promo_stays(
    st: JsonView,
    user_id: i64,
    other: i64,
    pending: bool,
    action: Option<Seq<char>>,
)
    requires
        used_promo(st, user_id),
    ensures
        used_promo(with_used_promo(st, other), user_id),
        used_promo(with_promo_pending(st, other, pending), user_id),
        used_promo(with_admin_pending(st, other, action), user_id),
{
    field_names_differ();
    if other != user_id {
        other_entries_stay(st, "used_promo"@, other, user_id, Some(JsonView::Bool(true)));
    } else {
        entry_set_is_read(st, "used_promo"@, other, JsonView::Bool(true));
    }
    other_sections_stay(
        st,
        "promo_pending"@,
        other,
        Some(JsonView::Bool(pending)),
        "used_promo"@,
    );
}

// ---------------------------------------------------------------------------
// The message that carries the public keyboard of a chat
// ---------------------------------------------------------------------------

/// The message that carries the public keyboard of a chat, if one is recorded.
pub open spec fn keyboard_message(st: JsonView, chat_id: i64) -> Option<i64> {
    match entry(st, "public_keyboard_msgs"@, chat_id) {
        Some(v) => i64_of(v),
        None => None,
    }
}

/// The message that carries the public keyboard of a chat, if one is recorded.
pub fn get_keyboard_message(st: &Value, chat_id: i64) -> (r: Option<i64>)
    ensures
        r == keyboard_message(json_view(*st), chat_id),
{
    match get_entry(st, "public_keyboard_msgs", chat_id) {
        Some(v) => json::as_i64(v),
        None => None,
    }
}

/// Whether the message that carries a keyboard can be recorded: the section for it is
/// missing, `null` or an object.
pub open spec fn takes_keyboard_message(st: JsonView) -> bool {
    takes_fields(st) && takes_fields(section_of(st, "public_keyboard_msgs"@))
}

/// Whether the message that carries a keyboard can be recorded.
pub fn can_take_keyboard_message(st: &Value) -> (r: bool)
    ensures
        r == takes_keyboard_message(json_view(*st)),
{
    can_take_fields(st) && match json::get(st, "public_keyboard_msgs") {
        Some(s) => can_take_fields(s),
        None => true,
    }
}

/// The state once a message carries the public keyboard of a chat.
pub open spec fn with_keyboard_message(st: JsonView, chat_id: i64, message_id: i64) -> JsonView {
    with_field(
        st,
        "public_keyboard_msgs"@,
        with_field(
            section_of(st, "public_keyboard_msgs"@),
            int_text(chat_id as int),
            JsonView::Integer(message_id as int),
        ),
    )
}

/// Records the message that carries the public keyboard of a chat.
pub fn set_keyboard_message(st: &mut Value, chat_id: i64, message_id: i64)
    requires
        takes_keyboard_message(json_view(*old(st))),
    ensures
        json_view(*final(st)) == with_keyboard_message(
            json_view(*old(st)),
            chat_id,
            message_id,
        ),
{
    if json::get(st, "public_keyboard_msgs").is_none() {
        json::set_field(st, "public_keyboard_msgs", json::empty_object());
    }
    match json::get_mut(st, "public_keyboard_msgs") {
        Some(s) => json::set_field(s, &show_i64(chat_id), json::of_i64(message_id)),
        None => {},
    }
    assert(fields_or_empty(json_view(*st)) =~= fields_or_empty(
        with_keyboard_message(json_view(*old(st)), chat_id, message_id),
    ));
}

/// The state once no message is recorded as the carrier of a chat's keyboard. A state
/// or a section that is no object stays as it is.
pub open spec fn without_keyboard_message(st: JsonView, chat_id: i64) -> JsonView {
    match field(st, "public_keyboard_msgs"@) {
        Some(JsonView::Object(entries)) => with_field(
            st,
            "public_keyboard_msgs"@,
            JsonView::Object(entries.remove(int_text(chat_id as int))),
        ),
        _ => st,
    }
}

/// Forgets the message that carries the public keyboard of a chat.
pub fn remove_keyboard_message(st: &mut Value, chat_id: i64)
    ensures
        json_view(*final(st)) == without_keyboard_message(json_view(*old(st)), chat_id),
{
    match json::get_mut(st, "public_keyboard_msgs") {
        Some(s) => {
            if json::is_object(s) {
                json::remove_field(s, &show_i64(chat_id));
            }
        },
        None => {},
    }
    assert(fields_or_empty(json_view(*st)) =~= fields_or_empty(
        without_keyboard_message(json_view(*old(st)), chat_id),
    ));
}

/// A recorded message is read back, those of other chats stay, and a forgotten one is
/// gone.
pub proof fn keyboard_message_is_read(st: JsonView, chat_id: i64, other: i64, message_id: i64)
    requires
        other != chat_id,
    ensures
        keyboard_message(with_keyboard_message(st, chat_id, message_id), chat_id) == Some(
            message_id,
        ),
        keyboard_message(with_keyboard_message(st, chat_id, message_id), other)
            == keyboard_message(st, other),
        keyboard_message(without_keyboard_message(st, chat_id), chat_id) is None,
        keyboard_message(without_keyboard_message(st, chat_id), other) == keyboard_message(
            st,
            other,
        ),
{
    if int_text(chat_id as int) == int_text(other as int) {
        int_text_is_injective(chat_id, other);
    }
}

// ---------------------------------------------------------------------------
// Reading back what was written
// ---------------------------------------------------------------------------

proof fn lemma_field_stays_readable(st: JsonView, key: Seq<char>, v: JsonView, depth: nat)
    requires
        nests_within(st, depth + 1),
        nests_within(v, depth),
    ensures
        nests_within(with_field(st, key, v), depth + 1),
{
    let fields = fields_or_empty(st);
    let more = fields.insert(key, v);
    object_nests(fields, depth);
    object_nests(more, depth);
    assert forall|k: Seq<char>| more.contains_key(k) implies nests_within(#[trigger] more[k], depth) by {
        if k != key {
            assert(fields.contains_key(k));
            assert(nests_within(fields[k], depth));
        }
    }
}

proof fn lemma_section_is_readable(st: JsonView, section: Seq<char>)
    requires
        nests_within(st, max_depth()),
    ensures
        nests_within(section_of(st, section), 126),
{
    let fields = fields_or_empty(st);
    object_nests(fields, 126);
    object_nests(Map::<Seq<char>, JsonView>::empty(), 125);
    if fields.contains_key(section) {
        assert(nests_within(fields[section], 126));
    }
}

/// A state that is read back from its text stays so when an entry is set or removed.
pub proof fn entries_stay_readable(
    st: JsonView,
    section: Seq<char>,
    id: i64,
    value: Option<JsonView>,
)
    requires
        nests_within(st, max_depth()),
        value matches Some(v) ==> nests_within(v, 125),
    ensures
        nests_within(with_entry(st, section, id, value), max_depth()),
{
    lemma_section_is_readable(st, section);
    let key = int_text(id as int);
    match section_of(st, section) {
        JsonView::Object(entries) => {
            match value {
                Some(v) => {
                    lemma_field_stays_readable(JsonView::Object(entries), key, v, 125);
                    lemma_field_stays_readable(
                        st,
                        section,
                        JsonView::Object(entries.insert(key, v)),
                        126,
                    );
                },
                None => {
                    let fewer = entries.remove(key);
                    object_nests(entries, 125);
                    object_nests(fewer, 125);
                    assert forall|k: Seq<char>| fewer.contains_key(k) implies nests_within(
                        #[trigger] fewer[k],
                        125,
                    ) by {
                        assert(nests_within(entries[k], 125));
                    }
                    lemma_field_stays_readable(st, section, JsonView::Object(fewer), 126);
                },
            }
        },
        other => {
            lemma_field_stays_readable(st, section, other, 126);
        },
    }
}

/// A state that is read back from its text stays so whatever the bot records in it.
pub proof fn state_stays_readable(
    st: JsonView,
    chat_id: i64,
    payments_enabled: bool,
    action: Option<Seq<char>>,
    pending: bool,
    message_id: i64,
)
    requires
        nests_within(st, max_depth()),
    ensures
        nests_within(normalized(st, payments_enabled), max_depth()),
        nests_within(admin_granted(st, chat_id), max_depth()),
        nests_within(with_admin_pending(st, chat_id, action), max_depth()),
        nests_within(with_used_promo(st, chat_id), max_depth()),
        nests_within(with_promo_pending(st, chat_id, pending), max_depth()),
        nests_within(with_keyboard_message(st, chat_id, message_id), max_depth()),
        nests_within(without_keyboard_message(st, chat_id), max_depth()),
{
    let yes = JsonView::Bool(true);
    let no = JsonView::Bool(false);
    lemma_field_stays_readable(st, "paid"@, yes, 126);
    lemma_field_stays_readable(with_field(st, "paid"@, yes), "paid_forced"@, yes, 126);
    lemma_field_stays_readable(st, "paid"@, no, 126);
    lemma_field_stays_readable(with_field(st, "paid"@, no), "paid_forced"@, no, 126);
    let chat = JsonView::Integer(chat_id as int);
    let a = with_field(st, "target_chat_id"@, chat);
    let b = with_field(a, "paid"@, yes);
    let c = with_field(b, "paid_forced"@, no);
    let d = with_field(c, "paid_invoice_id"@, JsonView::Integer(-1));
    lemma_field_stays_readable(st, "target_chat_id"@, chat, 126);
    lemma_field_stays_readable(a, "paid"@, yes, 126);
    lemma_field_stays_readable(b, "paid_forced"@, no, 126);
    lemma_field_stays_readable(c, "paid_invoice_id"@, JsonView::Integer(-1), 126);
    lemma_field_stays_readable(d, "subscribed"@, no, 126);
    entries_stay_readable(
        st,
        "admin_pending"@,
        chat_id,
        match action {
            Some(name) => Some(JsonView::Str(name)),
            None => None,
        },
    );
    entries_stay_readable(st, "used_promo"@, chat_id, Some(yes));
    entries_stay_readable(st, "promo_pending"@, chat_id, Some(JsonView::Bool(pending)));
    let section = "public_keyboard_msgs"@;
    let id = JsonView::Integer(message_id as int);
    lemma_section_is_readable(st, section);
    lemma_field_stays_readable(section_of(st, section), int_text(chat_id as int), id, 125);
    lemma_field_stays_readable(
        st,
        section,
        with_field(section_of(st, section), int_text(chat_id as int), id),
        126,
    );
    entries_stay_readable(st, section, chat_id, None);
}

/// States that are equal but for floating-point numbers say the same to the bot.
pub proof fn alike_states_agree(a: JsonView, b: JsonView, id: i64, action: Seq<char>)
    requires
        alike(a, b, max_depth()),
    ensures
        paid(a) == paid(b),
        paid_forced(a) == paid_forced(b),
        has_invoice(a) == has_invoice(b),
        admin_pending(a, id, action) == admin_pending(b, id, action),
        used_promo(a, id) == used_promo(b, id),
        promo_pending(a, id) == promo_pending(b, id),
        keyboard_message(a, id) == keyboard_message(b, id),
{
    let key = int_text(id as int);
    fields_are_alike(a, b, "paid"@, 126);
    fields_are_alike(a, b, "paid_forced"@, 126);
    fields_are_alike(a, b, "paid_invoice_id"@, 126);
    fields_are_alike(a, b, "admin_pending"@, 126);
    fields_are_alike(a, b, "used_promo"@, 126);
    fields_are_alike(a, b, "promo_pending"@, 126);
    fields_are_alike(a, b, "public_keyboard_msgs"@, 126);
    if field(a, "admin_pending"@) is Some {
        fields_are_alike(
            field(a, "admin_pending"@)->0,
            field(b, "admin_pending"@)->0,
            key,
            125,
        );
    }
    if field(a, "used_promo"@) is Some {
        fields_are_alike(field(a, "used_promo"@)->0, field(b, "used_promo"@)->0, key, 125);
    }
    if field(a, "promo_pending"@) is Some {
        fields_are_alike(field(a, "promo_pending"@)->0, field(b, "promo_pending"@)->0, key, 125);
    }
    if field(a, "public_keyboard_msgs"@) is Some {
        fields_are_alike(
            field(a, "public_keyboard_msgs"@)->0,
            field(b, "public_keyboard_msgs"@)->0,
            key,
            125,
        );
    }
}

/// An administrator who is let in has paid, not by force, with an invoice of the number
/// minus one; their chat is the target; and whoever was subscribed, or was not, stays so.
/// Nothing else in the state changes.
pub proof fn admin_grant_says(st: JsonView, chat_id: i64, key: Seq<char>)
    ensures
        ({
            let after = admin_granted(st, chat_id);
            &&& field(after, "paid"@) == Some(JsonView::Bool(true))
            &&& field(after, "paid_forced"@) == Some(JsonView::Bool(false))
            &&& field(after, "paid_invoice_id"@) == Some(JsonView::Integer(-1))
            &&& field(after, "target_chat_id"@) == Some(JsonView::Integer(chat_id as int))
            &&& field(after, "subscribed"@) == (if field(st, "subscribed"@) is Some {
                field(st, "subscribed"@)
            } else {
                Some(JsonView::Bool(false))
            })
            &&& key != "paid"@ && key != "paid_forced"@ && key != "paid_invoice_id"@ && key
                != "target_chat_id"@ && key != "subscribed"@ ==> field(after, key) == field(st, key)
        }),
{
    field_names_differ();
}

/// With payments off everyone has paid, by force. With payments on, whoever has paid by
/// force has not; whoever has paid keeps that where the state names an invoice, and loses
/// it where it names none; and whoever has not paid still has not.
pub proof fn paying_goes_by_the_mode(st: JsonView)
    ensures
        field(normalized(st, false), "paid"@) == Some(JsonView::Bool(true)),
        field(normalized(st, false), "paid_forced"@) == Some(JsonView::Bool(true)),
        field(st, "paid_forced"@) == Some(JsonView::Bool(true)) ==> field(
            normalized(st, true),
            "paid"@,
        ) == Some(JsonView::Bool(false)),
        field(st, "paid_forced"@) != Some(JsonView::Bool(true)) && field(st, "paid"@) == Some(
            JsonView::Bool(true),
        ) ==> (field(normalized(st, true), "paid"@) == Some(JsonView::Bool(true)) <==> (field(
            st,
            "paid_invoice_id"@,
        ) matches Some(JsonView::Integer(n)) && i64::MIN <= n <= i64::MAX)),
        field(st, "paid"@) != Some(JsonView::Bool(true)) ==> field(normalized(st, true), "paid"@)
            != Some(JsonView::Bool(true)),
        field(st, "paid_forced"@) != Some(JsonView::Bool(true)) && field(st, "paid"@) != Some(
            JsonView::Bool(true),
        ) ==> normalized(st, true) == st,
{
    field_names_differ();
}

/// What is expected of an administrator is read back: the action that was set, and no
/// other; and nothing once it was cleared. What is expected of others stays.
pub proof fn expected_action_is_read(
    st: JsonView,
    user_id: i64,
    action: Seq<char>,
    other: Seq<char>,
    other_user: i64,
)
    requires
        section_of(st, "admin_pending"@) is Object,
    ensures
        admin_pending(with_admin_pending(st, user_id, Some(action)), user_id, other) <==> other
            == action,
        !admin_pending(with_admin_pending(st, user_id, None), user_id, other),
        other_user != user_id ==> admin_pending(
            with_admin_pending(st, user_id, Some(action)),
            other_user,
            other,
        ) == admin_pending(st, other_user, other),
        other_user != user_id ==> admin_pending(
            with_admin_pending(st, user_id, None),
            other_user,
            other,
        ) == admin_pending(st, other_user, other),
{
    entry_set_is_read(st, "admin_pending"@, user_id, JsonView::Str(action));
    entry_removed_is_gone(st, "admin_pending"@, user_id);
    if other_user != user_id {
        other_entries_stay(
            st,
            "admin_pending"@,
            user_id,
            other_user,
            Some(JsonView::Str(action)),
        );
        other_entries_stay(st, "admin_pending"@, user_id, other_user, None);
    }
}

/// Whether an account is expected of a user for the promotion is read back as it was set,
/// and so is that they have used it; for everyone else both stay.
pub proof fn promotion_is_read(st: JsonView, user_id: i64, other: i64, pending: bool)
    requires
        other != user_id,
    ensures
        section_of(st, "promo_pending"@) is Object ==> promo_pending(
            with_promo_pending(st, user_id, pending),
            user_id,
        ) == pending,
        promo_pending(with_promo_pending(st, user_id, pending), other) == promo_pending(st, other),
        section_of(st, "used_promo"@) is Object ==> used_promo(
            with_used_promo(st, user_id),
            user_id,
        ),
        used_promo(with_used_promo(st, user_id), other) == used_promo(st, other),
        used_promo(with_promo_pending(st, user_id, pending), user_id) == used_promo(st, user_id),
        promo_pending(with_used_promo(st, user_id), user_id) == promo_pending(st, user_id),
{
    field_names_differ();
    other_entries_stay(st, "promo_pending"@, user_id, other, Some(JsonView::Bool(pending)));
    other_entries_stay(st, "used_promo"@, user_id, other, Some(JsonView::Bool(true)));
}

} // verus!
