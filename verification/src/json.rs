//! JSON values of `serde_json` and what the library relies on of them.
use crate::numbers::int_text;
use crate::text::trim_text;
use serde_json::Value;
use vstd::prelude::*;

verus! {

/// What a JSON value holds.
pub enum JsonView {
    Null,
    Bool(bool),
    /// A number without fraction and exponent that 64 bits hold.
    Integer(int),
    /// Any other number, by the text that it is printed as.
    Float(Seq<char>),
    Str(Seq<char>),
    Array(Seq<JsonView>),
    Object(Map<Seq<char>, JsonView>),
}

/// A JSON value of `serde_json`.
#[verifier::external_type_specification]
#[verifier::external_body]
pub struct ExValue(Value);

/// What a JSON value holds.
pub uninterp spec fn json_view(v: Value) -> JsonView;

/// What the values of a list hold.
pub open spec fn json_views(list: Seq<Value>) -> Seq<JsonView> {
    list.map_values(|v: Value| json_view(v))
}

/// The field of an object, if the value is an object that has it.
pub open spec fn field(v: JsonView, key: Seq<char>) -> Option<JsonView> {
    match v {
        JsonView::Object(fields) => if fields.contains_key(key) {
            Some(fields[key])
        } else {
            None
        },
        _ => None,
    }
}

/// The fields of an object; `null` counts as the object without fields.
pub open spec fn fields_or_empty(v: JsonView) -> Map<Seq<char>, JsonView> {
    match v {
        JsonView::Object(fields) => fields,
        _ => Map::empty(),
    }
}

/// The value of a boolean.
pub open spec fn bool_of(v: JsonView) -> Option<bool> {
    match v {
        JsonView::Bool(b) => Some(b),
        _ => None,
    }
}

/// The value of a number, if it is an integer that `i64` holds.
pub open spec fn i64_of(v: JsonView) -> Option<i64> {
    match v {
        JsonView::Integer(n) => if i64::MIN <= n <= i64::MAX {
            Some(n as i64)
        } else {
            None
        },
        _ => None,
    }
}

/// The value of a number, if it is an integer that `u64` holds.
pub open spec fn u64_of(v: JsonView) -> Option<u64> {
    match v {
        JsonView::Integer(n) => if 0 <= n <= u64::MAX {
            Some(n as u64)
        } else {
            None
        },
        _ => None,
    }
}

/// The text of a string.
pub open spec fn str_of(v: JsonView) -> Option<Seq<char>> {
    match v {
        JsonView::Str(s) => Some(s),
        _ => None,
    }
}

/// The text that a number is printed as.
pub open spec fn number_text_of(v: JsonView) -> Option<Seq<char>> {
    match v {
        JsonView::Integer(n) => Some(int_text(n)),
        JsonView::Float(text) => Some(text),
        _ => None,
    }
}

/// The items of an array; none for any other value.
pub open spec fn items_of(v: JsonView) -> Seq<JsonView> {
    match v {
        JsonView::Array(items) => items,
        _ => seq![],
    }
}

/// How deep arrays and objects can nest in a text that is read.
pub open spec fn max_depth() -> nat {
    127
}

/// Whether the value nests arrays and objects no deeper than `depth`.
pub open spec fn nests_within(v: JsonView, depth: nat) -> bool
    decreases depth,
{
    match v {
        JsonView::Array(items) => depth > 0 && forall|i: int|
            0 <= i < items.len() ==> nests_within(#[trigger] items[i], (depth - 1) as nat),
        JsonView::Object(fields) => depth > 0 && forall|k: Seq<char>|
            fields.contains_key(k) ==> nests_within(#[trigger] fields[k], (depth - 1) as nat),
        _ => true,
    }
}

/// Whether two values nest no deeper than `depth` and are equal but for what their
/// floating-point numbers are.
pub open spec fn alike(a: JsonView, b: JsonView, depth: nat) -> bool
    decreases depth,
{
    match (a, b) {
        (JsonView::Float(_), JsonView::Float(_)) => true,
        (JsonView::Array(x), JsonView::Array(y)) => depth > 0 && x.len() == y.len() && forall|
            i: int,
        |
            0 <= i < x.len() ==> alike(#[trigger] x[i], y[i], (depth - 1) as nat),
        (JsonView::Object(x), JsonView::Object(y)) => depth > 0 && x.dom() =~= y.dom() && forall|
            k: Seq<char>,
        |
            x.contains_key(k) ==> alike(#[trigger] x[k], y[k], (depth - 1) as nat),
        (JsonView::Null, JsonView::Null) => true,
        (JsonView::Bool(x), JsonView::Bool(y)) => x == y,
        (JsonView::Integer(x), JsonView::Integer(y)) => x == y,
        (JsonView::Str(x), JsonView::Str(y)) => x == y,
        _ => false,
    }
}

/// Whether the value holds integers as its only numbers, and nests arrays and objects
/// no deeper than `depth`.
pub open spec fn is_plain(v: JsonView, depth: nat) -> bool
    decreases depth,
{
    match v {
        JsonView::Float(_) => false,
        JsonView::Array(items) => depth > 0 && forall|i: int|
            0 <= i < items.len() ==> is_plain(#[trigger] items[i], (depth - 1) as nat),
        JsonView::Object(fields) => depth > 0 && forall|k: Seq<char>|
            fields.contains_key(k) ==> is_plain(#[trigger] fields[k], (depth - 1) as nat),
        _ => true,
    }
}

/// A list nests one level deeper than its values.
pub proof fn list_nests(items: Seq<JsonView>, depth: nat)
    ensures
        nests_within(JsonView::Array(items), depth + 1) <==> forall|i: int|
            0 <= i < items.len() ==> nests_within(#[trigger] items[i], depth),
{
    let v = JsonView::Array(items);
    if nests_within(v, depth + 1) {
        assert forall|i: int| 0 <= i < items.len() implies nests_within(
            #[trigger] items[i],
            depth,
        ) by {
            assert(nests_within(v->Array_0[i], (depth + 1 - 1) as nat));
        }
    }
}

/// An object nests one level deeper than its fields.
pub proof fn object_nests(fields: Map<Seq<char>, JsonView>, depth: nat)
    ensures
        nests_within(JsonView::Object(fields), depth + 1) <==> forall|k: Seq<char>|
            fields.contains_key(k) ==> nests_within(#[trigger] fields[k], depth),
{
    let v = JsonView::Object(fields);
    if nests_within(v, depth + 1) {
        assert forall|k: Seq<char>| fields.contains_key(k) implies nests_within(
            #[trigger] fields[k],
            depth,
        ) by {
            assert(nests_within(v->Object_0[k], (depth + 1 - 1) as nat));
        }
    }
}

/// Lists are alike where their values are.
pub proof fn lists_are_alike(a: Seq<JsonView>, b: Seq<JsonView>, depth: nat)
    ensures
        alike(JsonView::Array(a), JsonView::Array(b), depth + 1) <==> a.len() == b.len() && forall|
            i: int,
        |
            0 <= i < a.len() ==> alike(#[trigger] a[i], b[i], depth),
{
    let v = JsonView::Array(a);
    let w = JsonView::Array(b);
    if alike(v, w, depth + 1) {
        assert forall|i: int| 0 <= i < a.len() implies alike(#[trigger] a[i], b[i], depth) by {
            assert(alike(v->Array_0[i], w->Array_0[i], (depth + 1 - 1) as nat));
        }
    }
}

/// The fields of values that are alike are alike.
pub proof fn fields_are_alike(a: JsonView, b: JsonView, key: Seq<char>, depth: nat)
    requires
        alike(a, b, depth + 1),
    ensures
        field(a, key) is Some == field(b, key) is Some,
        field(a, key) is Some ==> alike(field(a, key)->0, field(b, key)->0, depth),
{
    if field(a, key) is Some || field(b, key) is Some {
        assert(a->Object_0.dom().contains(key) == b->Object_0.dom().contains(key));
        assert(alike(a->Object_0[key], b->Object_0[key], (depth + 1 - 1) as nat));
    }
}

/// A value without floating-point numbers is alike to itself only.
pub proof fn plain_is_alike_to_itself(a: JsonView, b: JsonView, depth: nat)
    requires
        alike(a, b, depth),
        is_plain(b, depth),
    ensures
        a == b,
    decreases depth,
{
    if depth > 0 {
        let rest = (depth - 1) as nat;
        match (a, b) {
            (JsonView::Array(x), JsonView::Array(y)) => {
                assert forall|i: int| 0 <= i < x.len() implies #[trigger] x[i] == y[i] by {
                    assert(alike(a->Array_0[i], b->Array_0[i], rest));
                    assert(is_plain(b->Array_0[i], rest));
                    plain_is_alike_to_itself(x[i], y[i], rest);
                }
                assert(x =~= y);
            },
            (JsonView::Object(x), JsonView::Object(y)) => {
                assert forall|k: Seq<char>| #[trigger] x.contains_key(k) implies x[k] == y[k] by {
                    assert(x.dom().contains(k) == y.dom().contains(k));
                    assert(alike(a->Object_0[k], b->Object_0[k], rest));
                    assert(is_plain(b->Object_0[k], rest));
                    plain_is_alike_to_itself(x[k], y[k], rest);
                }
                assert(x =~= y);
            },
            _ => {},
        }
    }
}

/// What is plain nests no deeper than was looked at.
pub proof fn plain_nests(v: JsonView, depth: nat)
    requires
        is_plain(v, depth),
    ensures
        nests_within(v, depth),
    decreases depth,
{
    if depth > 0 {
        let rest = (depth - 1) as nat;
        match v {
            JsonView::Array(items) => {
                assert forall|i: int| 0 <= i < items.len() implies nests_within(
                    #[trigger] items[i],
                    rest,
                ) by {
                    assert(is_plain(v->Array_0[i], rest));
                    plain_nests(items[i], rest);
                }
            },
            JsonView::Object(fields) => {
                assert forall|k: Seq<char>| fields.contains_key(k) implies nests_within(
                    #[trigger] fields[k],
                    rest,
                ) by {
                    assert(is_plain(v->Object_0[k], rest));
                    plain_nests(fields[k], rest);
                }
            },
            _ => {},
        }
    }
}

/// A list can be read back where its values can, with one level less.
pub proof fn plain_list(items: Seq<JsonView>, depth: nat)
    ensures
        is_plain(JsonView::Array(items), depth + 1) <==> forall|i: int|
            0 <= i < items.len() ==> is_plain(#[trigger] items[i], depth),
{
    let v = JsonView::Array(items);
    if is_plain(v, depth + 1) {
        assert forall|i: int| 0 <= i < items.len() implies is_plain(#[trigger] items[i], depth) by {
            assert(is_plain(v->Array_0[i], (depth + 1 - 1) as nat));
        }
    }
}

/// The value that a JSON text stands for, if it is one.
pub uninterp spec fn json_of_text(text: Seq<char>) -> Option<JsonView>;

/// The indented text of a JSON value.
pub uninterp spec fn pretty_text(v: JsonView) -> Seq<char>;

/// `serde_json::from_str` for `Value`: which value comes back, and whether one does,
/// depends on the text alone. Text that nests deeper than the parser follows is refused.
#[verifier::external_body]
pub(crate) fn parse(text: &str) -> (r: Option<Value>)
    ensures
        match r {
            Some(v) => json_of_text(text@) == Some(json_view(v)) && nests_within(
                json_view(v),
                max_depth(),
            ),
            None => json_of_text(text@) is None,
        },
{
    serde_json::from_str::<Value>(text).ok()
}

/// `serde_json::to_string_pretty` for `Value`: it does not fail, its text depends on
/// what the value holds alone and is not blank, and a value that nests within the depth
/// that the parser follows is read back from it. A floating-point number, which is always
/// finite here, is read back as one, but perhaps not with the same last digits.
#[verifier::external_body]
pub(crate) fn to_pretty(v: &Value) -> (r: Option<String>)
    ensures
        r is Some,
        r->0@ == pretty_text(json_view(*v)),
        trim_text(r->0@).len() > 0,
        nests_within(json_view(*v), max_depth()) ==> json_of_text(r->0@) is Some && alike(
            json_of_text(r->0@)->0,
            json_view(*v),
            max_depth(),
        ),
{
    serde_json::to_string_pretty(v).ok()
}

/// `Value::get` with a string: the field of an object, and nothing of any other value.
#[verifier::external_body]
pub(crate) fn get<'a>(v: &'a Value, key: &str) -> (r: Option<&'a Value>)
    ensures
        match r {
            Some(x) => field(json_view(*v), key@) == Some(json_view(*x)),
            None => field(json_view(*v), key@) is None,
        },
{
    v.get(key)
}

/// `Value::get_mut` with a string: the field of an object, which a write through the
/// reference replaces; nothing of any other value.
#[verifier::external_body]
pub(crate) fn get_mut<'a>(v: &'a mut Value, key: &str) -> (r: Option<&'a mut Value>)
    ensures
        match r {
            Some(x) => {
                &&& field(json_view(*old(v)), key@) == Some(json_view(*x))
                &&& json_view(*final(v)) == JsonView::Object(
                    fields_or_empty(json_view(*old(v))).insert(key@, json_view(*final(x))),
                )
            },
            None => {
                &&& field(json_view(*old(v)), key@) is None
                &&& json_view(*final(v)) == json_view(*old(v))
            },
        },
{
    v.get_mut(key)
}

/// Writing through `Value`'s index operator with a string: the field takes the new
/// value. It panics unless the value is an object or `null`, which becomes one.
#[verifier::external_body]
pub(crate) fn set_field(v: &mut Value, key: &str, x: Value)
    requires
        json_view(*old(v)) is Object || json_view(*old(v)) is Null,
    ensures
        json_view(*final(v)) == JsonView::Object(
            fields_or_empty(json_view(*old(v))).insert(key@, json_view(x)),
        ),
{
    v[key] = x;
}

/// `Value::is_object`: whether the value is an object.
#[verifier::external_body]
pub(crate) fn is_object(v: &Value) -> (r: bool)
    ensures
        r == (json_view(*v) is Object),
{
    v.is_object()
}

/// `Value::is_null`: whether the value is `null`.
#[verifier::external_body]
pub(crate) fn is_null(v: &Value) -> (r: bool)
    ensures
        r == (json_view(*v) is Null),
{
    v.is_null()
}

/// `Value::as_object_mut` and `Map::insert`: the field takes the new value.
#[verifier::external_body]
pub(crate) fn insert_field(v: &mut Value, key: String, x: Value)
    requires
        json_view(*old(v)) is Object,
    ensures
        json_view(*final(v)) == JsonView::Object(
            fields_or_empty(json_view(*old(v))).insert(key@, json_view(x)),
        ),
{
    v.as_object_mut().unwrap().insert(key, x);
}

/// `Value::as_object_mut` and `Map::remove`: the field is gone.
#[verifier::external_body]
pub(crate) fn remove_field(v: &mut Value, key: &str)
    requires
        json_view(*old(v)) is Object,
    ensures
        json_view(*final(v)) == JsonView::Object(
            fields_or_empty(json_view(*old(v))).remove(key@),
        ),
{
    v.as_object_mut().unwrap().remove(key);
}

/// `Value::as_bool`: the value of a boolean.
#[verifier::external_body]
pub(crate) fn as_bool(v: &Value) -> (r: Option<bool>)
    ensures
        r == bool_of(json_view(*v)),
{
    v.as_bool()
}

/// `Value::as_i64`: the value of a number that is an integer which `i64` holds.
#[verifier::external_body]
pub(crate) fn as_i64(v: &Value) -> (r: Option<i64>)
    ensures
        r == i64_of(json_view(*v)),
{
    v.as_i64()
}

/// `Value::as_u64`: the value of a number that is an integer which `u64` holds.
#[verifier::external_body]
pub(crate) fn as_u64(v: &Value) -> (r: Option<u64>)
    ensures
        r == u64_of(json_view(*v)),
{
    v.as_u64()
}

/// `Value::as_str`: the text of a string.
#[verifier::external_body]
pub(crate) fn as_str(v: &Value) -> (r: Option<&str>)
    ensures
        match r {
            Some(s) => str_of(json_view(*v)) == Some(s@),
            None => str_of(json_view(*v)) is None,
        },
{
    v.as_str()
}

/// `Value::as_number` and `Number::to_string`: the text that a number is printed as.
#[verifier::external_body]
pub(crate) fn as_number_text(v: &Value) -> (r: Option<String>)
    ensures
        r.deep_view() == number_text_of(json_view(*v)),
{
    v.as_number().map(|n| n.to_string())
}

/// `Value::as_array`: the items of an array.
#[verifier::external_body]
pub(crate) fn as_array(v: &Value) -> (r: Option<&Vec<Value>>)
    ensures
        match r {
            Some(list) => json_view(*v) == JsonView::Array(json_views(list@)),
            None => !(json_view(*v) is Array),
        },
{
    v.as_array()
}

/// `Value::clone`: a value that holds the same.
#[verifier::external_body]
pub(crate) fn copy(v: &Value) -> (r: Value)
    ensures
        json_view(r) == json_view(*v),
{
    v.clone()
}

/// `Value::Bool`: a boolean.
#[verifier::external_body]
pub(crate) fn of_bool(b: bool) -> (r: Value)
    ensures
        json_view(r) == JsonView::Bool(b),
{
    Value::Bool(b)
}

/// `Value::from` for `i64`: an integer.
#[verifier::external_body]
pub(crate) fn of_i64(n: i64) -> (r: Value)
    ensures
        json_view(r) == JsonView::Integer(n as int),
{
    Value::from(n)
}

/// `Value::from` for `u64`: an integer.
#[verifier::external_body]
pub(crate) fn of_u64(n: u64) -> (r: Value)
    ensures
        json_view(r) == JsonView::Integer(n as int),
{
    Value::from(n)
}

/// `Value::String`: a string.
#[verifier::external_body]
pub(crate) fn of_string(s: String) -> (r: Value)
    ensures
        json_view(r) == JsonView::Str(s@),
{
    Value::String(s)
}

/// `Value::Array`: an array of the given items.
#[verifier::external_body]
pub(crate) fn of_list(list: Vec<Value>) -> (r: Value)
    ensures
        json_view(r) == JsonView::Array(json_views(list@)),
{
    Value::Array(list)
}

/// `Value::Object` of `Map::new`: an object without fields.
#[verifier::external_body]
pub(crate) fn empty_object() -> (r: Value)
    ensures
        json_view(r) == JsonView::Object(Map::empty()),
{
    Value::Object(serde_json::Map::new())
}

/// What a text stands for, and the object without fields where it stands for nothing.
pub open spec fn object_of_text(text: Option<Seq<char>>) -> JsonView {
    match text {
        Some(t) => match json_of_text(t) {
            Some(v) => v,
            None => JsonView::Object(Map::empty()),
        },
        None => JsonView::Object(Map::empty()),
    }
}

/// The items of the array that a text stands for; none where it stands for no array.
pub open spec fn items_of_text(text: Seq<char>) -> Seq<JsonView> {
    match json_of_text(text) {
        Some(v) => items_of(v),
        None => seq![],
    }
}

/// The items of the array that a text stands for; none where it stands for no array.
pub(crate) fn parse_items(text: &str) -> (r: Vec<Value>)
    ensures
        json_views(r@) == items_of_text(text@),
        nests_within(JsonView::Array(json_views(r@)), max_depth()),
{
    let mut r: Vec<Value> = Vec::new();
    match parse(text) {
        Some(v) => match as_array(&v) {
            Some(list) => {
                for i in 0..list.len()
                    invariant
                        r@.len() == i,
                        forall|j: int|
                            0 <= j < i ==> json_view(#[trigger] r@[j]) == json_view(list@[j]),
                {
                    r.push(copy(&list[i]));
                }
                assert(json_views(r@) =~= json_views(list@));
                assert(json_views(r@) =~= items_of_text(text@));
            },
            None => {
                assert(json_views(r@) =~= items_of_text(text@));
            },
        },
        None => {
            assert(json_views(r@) =~= items_of_text(text@));
        },
    }
    r
}

/// The texts of the items, if all of them are strings.
pub open spec fn all_strings(items: Seq<JsonView>) -> bool {
    forall|i: int| 0 <= i < items.len() ==> (#[trigger] items[i]) is Str
}

/// The list that a text stands for, if it is an array of strings and nothing else.
pub open spec fn string_list_of_text(text: Seq<char>) -> Option<Seq<Seq<char>>> {
    match json_of_text(text) {
        Some(JsonView::Array(items)) => if all_strings(items) {
            Some(items.map_values(|v: JsonView| v->Str_0))
        } else {
            None
        },
        _ => None,
    }
}

/// The list that a text stands for, if it is an array of strings and nothing else.
pub(crate) fn parse_string_list(text: &str) -> (r: Option<Vec<String>>)
    ensures
        r.deep_view() == string_list_of_text(text@),
{
    match parse(text) {
        Some(v) => match as_array(&v) {
            Some(list) => {
                let ghost items = json_views(list@);
                let mut r: Vec<String> = Vec::new();
                for i in 0..list.len()
                    invariant
                        items == json_views(list@),
                        json_of_text(text@) == Some(JsonView::Array(items)),
                        r@.len() == i,
                        forall|j: int|
                            0 <= j < i ==> (#[trigger] items[j]) == JsonView::Str(r@[j]@),
                {
                    assert(items[i as int] == json_view(list@[i as int]));
                    match as_str(&list[i]) {
                        Some(s) => {
                            r.push(s.to_string());
                        },
                        None => {
                            assert(!all_strings(items));
                            return None;
                        },
                    }
                }
                assert(r.deep_view() =~= items.map_values(|v: JsonView| v->Str_0));
                Some(r)
            },
            None => None,
        },
        None => None,
    }
}

/// The texts of those items that are strings, in order.
pub open spec fn strings_in(items: Seq<JsonView>) -> Seq<Seq<char>>
    decreases items.len(),
{
    if items.len() == 0 {
        seq![]
    } else {
        match items.last() {
            JsonView::Str(s) => strings_in(items.drop_last()).push(s),
            _ => strings_in(items.drop_last()),
        }
    }
}

/// The strings of the array that a text stands for, other items left out; none where it
/// stands for no array.
pub(crate) fn parse_strings(text: &str) -> (r: Vec<String>)
    ensures
        r.deep_view() == strings_in(items_of_text(text@)),
{
    let list = parse_items(text);
    let ghost items = json_views(list@);
    let mut r: Vec<String> = Vec::new();
    for i in 0..list.len()
        invariant
            items == json_views(list@),
            r.deep_view() == strings_in(items.take(i as int)),
    {
        assert(items.take(i + 1).drop_last() =~= items.take(i as int));
        let ghost before = r.deep_view();
        match as_str(&list[i]) {
            Some(s) => {
                r.push(s.to_string());
                assert(r.deep_view() =~= before.push(s@));
            },
            None => {},
        }
    }
    assert(items.take(items.len() as int) =~= items);
    r
}

/// The value that the text stands for, if it is given and stands for one; else the
/// object without fields.
pub(crate) fn parse_object(text: Option<&str>) -> (r: Value)
    ensures
        json_view(r) == object_of_text(text.deep_view()),
        nests_within(json_view(r), max_depth()),
{
    match text {
        Some(t) => match parse(t) {
            Some(v) => v,
            None => empty_object(),
        },
        None => empty_object(),
    }
}

/// The indented text of a JSON value. A value that nests no deeper than can be read is
/// read back from it, but for the last digits of floating-point numbers.
pub(crate) fn write(v: &Value) -> (r: String)
    ensures
        r@ == pretty_text(json_view(*v)),
        trim_text(r@).len() > 0,
        nests_within(json_view(*v), max_depth()) ==> json_of_text(r@) is Some && alike(
            json_of_text(r@)->0,
            json_view(*v),
            max_depth(),
        ),
        is_plain(json_view(*v), max_depth()) ==> json_of_text(r@) == Some(json_view(*v)),
{
    let r = to_pretty(v).unwrap();
    proof {
        if is_plain(json_view(*v), max_depth()) {
            plain_nests(json_view(*v), max_depth());
            plain_is_alike_to_itself(json_of_text(r@)->0, json_view(*v), max_depth());
        }
    }
    r
}

/// A list of strings is what an array of strings holds, in order; anything else is none.
pub proof fn string_lists_are_arrays(text: Seq<char>, texts: Seq<Seq<char>>, items: Seq<JsonView>)
    ensures
        json_of_text(text) == Some(
            JsonView::Array(texts.map_values(|t: Seq<char>| JsonView::Str(t))),
        ) ==> string_list_of_text(text) == Some(texts),
        json_of_text(text) == Some(JsonView::Array(items)) && (exists|i: int|
            0 <= i < items.len() && !((#[trigger] items[i]) is Str)) ==> string_list_of_text(
            text,
        ) is None,
        json_of_text(text) == Some(JsonView::Array(items)) ==> items_of_text(text) == items,
        !(json_of_text(text) matches Some(JsonView::Array(_))) ==> string_list_of_text(text) is None
            && items_of_text(text).len() == 0,
{
    let list = texts.map_values(|t: Seq<char>| JsonView::Str(t));
    assert(all_strings(list));
    assert(list.map_values(|v: JsonView| v->Str_0) =~= texts);
}

/// The strings among some items are all of them that are strings, each as often as it comes,
/// and nothing else.
pub proof fn strings_are_all_taken(items: Seq<JsonView>, more: Seq<JsonView>, s: Seq<char>)
    ensures
        strings_in(items).contains(s) <==> items.contains(JsonView::Str(s)),
        strings_in(items.push(JsonView::Str(s))) == strings_in(items).push(s),
        more.len() > 0 && !(more.last() is Str) ==> strings_in(more) == strings_in(
            more.drop_last(),
        ),
        strings_in(items).len() <= items.len(),
    decreases items.len(),
{
    assert(items.push(JsonView::Str(s)).drop_last() =~= items);
    if items.len() > 0 {
        let rest = items.drop_last();
        strings_are_all_taken(rest, more, s);
        let before = strings_in(rest);
        let after = strings_in(items);
        if before.contains(s) {
            let k = choose|k: int| 0 <= k < before.len() && before[k] == s;
            assert(after[k] == s);
            let i = choose|i: int| 0 <= i < rest.len() && rest[i] == JsonView::Str(s);
            assert(items[i] == JsonView::Str(s));
        }
        if items.last() == JsonView::Str(s) {
            assert(after[after.len() - 1] == s);
            assert(items[items.len() - 1] == JsonView::Str(s));
        }
        if after.contains(s) && !before.contains(s) {
            assert(items[items.len() - 1] == JsonView::Str(s));
        }
        if items.contains(JsonView::Str(s)) {
            let i = choose|i: int| 0 <= i < items.len() && items[i] == JsonView::Str(s);
            if i < rest.len() {
                assert(rest[i] == JsonView::Str(s));
            }
        }
    }
}

/// A state is what its text stands for; without a text that stands for anything it is the
/// object without fields.
pub proof fn states_are_what_was_written(text: Seq<char>, v: JsonView)
    ensures
        json_of_text(text) == Some(v) ==> object_of_text(Some(text)) == v,
        json_of_text(text) is None ==> object_of_text(Some(text)) == JsonView::Object(
            Map::<Seq<char>, JsonView>::empty(),
        ),
        object_of_text(None) == JsonView::Object(Map::<Seq<char>, JsonView>::empty()),
{
}

/// An integer is read as such exactly where it fits, and unchanged; numbers, booleans and
/// strings are never taken for one another.
pub proof fn values_are_what_they_are(n: int, b: bool, s: Seq<char>)
    ensures
        i64_of(JsonView::Integer(n)) is Some <==> i64::MIN <= n <= i64::MAX,
        i64_of(JsonView::Integer(n)) matches Some(m) ==> m == n,
        u64_of(JsonView::Integer(n)) is Some <==> 0 <= n <= u64::MAX,
        u64_of(JsonView::Integer(n)) matches Some(m) ==> m == n,
        number_text_of(JsonView::Integer(n)) == Some(int_text(n)),
        bool_of(JsonView::Bool(b)) == Some(b),
        str_of(JsonView::Str(s)) == Some(s),
        i64_of(JsonView::Str(s)) is None && u64_of(JsonView::Str(s)) is None,
        i64_of(JsonView::Bool(b)) is None && u64_of(JsonView::Bool(b)) is None,
        number_text_of(JsonView::Str(s)) is None && number_text_of(JsonView::Bool(b)) is None,
        bool_of(JsonView::Str(s)) is None && bool_of(JsonView::Integer(n)) is None,
        str_of(JsonView::Integer(n)) is None && str_of(JsonView::Bool(b)) is None,
{
}

} // verus!
