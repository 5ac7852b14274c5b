//! The ledger of payments: a JSON array with a record for each payment.
use crate::dates::{date, date_text};
use crate::json;
use crate::json::{
    alike, field, fields_are_alike, i64_of, items_of_text, json_of_text, json_view, json_views,
    list_nests, lists_are_alike, max_depth, nests_within, object_nests, pretty_text, u64_of,
    JsonView,
};
use crate::payments::Payments;
use crate::subscribers::{expiry, expiry_from};
use crate::text::{trim, trim_text};
use serde_json::Value;
use std::collections::HashMap;
use vstd::prelude::*;

verus! {

/// The records in a file; none where the file is missing, blank, or no JSON array.
pub open spec fn ledger_items(text: Option<Seq<char>>) -> Seq<JsonView> {
    match text {
        Some(t) => if trim_text(t).len() == 0 {
            seq![]
        } else {
            items_of_text(t)
        },
        None => seq![],
    }
}

/// The records in a file.
fn load_ledger(text: Option<&str>) -> (r: Vec<Value>)
    ensures
        json_views(r@) == ledger_items(text.deep_view()),
        nests_within(JsonView::Array(json_views(r@)), max_depth()),
{
    proof {
        list_nests(seq![], 126);
    }
    match text {
        Some(t) => {
            if trim(t).as_str().is_empty() {
                let none: Vec<Value> = Vec::new();
                assert(json_views(none@) =~= seq![]);
                none
            } else {
                json::parse_items(t)
            }
        },
        None => {
            let none: Vec<Value> = Vec::new();
            assert(json_views(none@) =~= seq![]);
            none
        },
    }
}

// ---------------------------------------------------------------------------
// Adding a payment
// ---------------------------------------------------------------------------

/// The record of a payment.
pub open spec fn payment_record(user_id: i64, months: u64, now: u64) -> JsonView {
    let expires = expiry_from(now, months);
    JsonView::Object(
        Map::<Seq<char>, JsonView>::empty().insert(
            "user_id"@,
            JsonView::Integer(user_id as int),
        ).insert("paid_at"@, JsonView::Integer(now as int)).insert(
            "expires_at"@,
            JsonView::Integer(expires as int),
        ).insert("paid_date"@, JsonView::Str(date_text(now))).insert(
            "expires_date"@,
            JsonView::Str(date_text(expires)),
        ),
    )
}

impl Payments {
    /// The text of the ledger with one more payment, given the text that it had. It is
    /// read back as all of them, but for the last digits of floating-point numbers, and
    /// the payment counts in the expiries: that of its user is the later of the one that
    /// they had and the one that they paid for, and all others keep theirs.
    pub fn append_subscription_record(
        &self,
        ledger: Option<&str>,
        user_id: i64,
        months: u64,
        now: u64,
    ) -> (r: String)
        ensures
            ({
                let before = ledger_items(ledger.deep_view());
                let items = before.push(payment_record(user_id, months, now));
                let latest = latest_expiries(before);
                &&& r@ == pretty_text(JsonView::Array(items))
                &&& alike_ledgers(ledger_items(Some(r@)), items)
                &&& latest_expiries(ledger_items(Some(r@))) == latest.insert(
                    user_id,
                    later(latest, user_id, expiry_from(now, months)),
                )
            }),
    {
        let expires = expiry(now, months);
        let mut record = json::empty_object();
        json::set_field(&mut record, "user_id", json::of_i64(user_id));
        json::set_field(&mut record, "paid_at", json::of_u64(now));
        json::set_field(&mut record, "expires_at", json::of_u64(expires));
        json::set_field(&mut record, "paid_date", json::of_string(date(now)));
        json::set_field(&mut record, "expires_date", json::of_string(date(expires)));
        assert(json_view(record) == payment_record(user_id, months, now));
        let mut list = load_ledger(ledger);
        let ghost before = json_views(list@);
        list.push(record);
        assert(json_views(list@) =~= before.push(json_view(record)));
        let text = json::write(&json::of_list(list));
        proof {
            let items = before.push(json_view(record));
            lemma_more_nests(before, user_id, months, now);
            alike_ledgers_agree(ledger_items(Some(text@)), items);
            payment_counts(before, user_id, months, now);
        }
        text
    }
}

proof fn lemma_more_nests(items: Seq<JsonView>, user_id: i64, months: u64, now: u64)
    requires
        nests_within(JsonView::Array(items), max_depth()),
    ensures
        nests_within(
            JsonView::Array(items.push(payment_record(user_id, months, now))),
            max_depth(),
        ),
{
    let record = payment_record(user_id, months, now);
    let more = items.push(record);
    list_nests(items, 126);
    list_nests(more, 126);
    object_nests(record->Object_0, 125);
    assert forall|i: int| 0 <= i < more.len() implies nests_within(#[trigger] more[i], 126) by {
        if i < items.len() {
            assert(more[i] == items[i]);
        }
    }
}

/// Whether two ledgers hold the same records, but for what floating-point numbers in them
/// are.
pub open spec fn alike_ledgers(a: Seq<JsonView>, b: Seq<JsonView>) -> bool {
    alike(JsonView::Array(a), JsonView::Array(b), max_depth())
}

// ---------------------------------------------------------------------------
// The latest expiry of each user
// ---------------------------------------------------------------------------

/// The user that a record names, if it names one.
pub open spec fn record_user(record: JsonView) -> Option<i64> {
    match field(record, "user_id"@) {
        Some(v) => i64_of(v),
        None => None,
    }
}

/// The expiry that a record names, if it names one.
pub open spec fn record_expiry(record: JsonView) -> Option<u64> {
    match field(record, "expires_at"@) {
        Some(v) => u64_of(v),
        None => None,
    }
}

/// The later of an expiry and the one of a user so far, if there is one.
pub open spec fn later(latest: Map<i64, u64>, user: i64, expires: u64) -> u64 {
    if latest.contains_key(user) && latest[user] > expires {
        latest[user]
    } else {
        expires
    }
}

/// The expiries with one more record. One without a user or an expiry does not count.
pub open spec fn with_record(latest: Map<i64, u64>, record: JsonView) -> Map<i64, u64> {
    match (record_user(record), record_expiry(record)) {
        (Some(user), Some(expires)) => latest.insert(user, later(latest, user, expires)),
        _ => latest,
    }
}

/// The latest expiry of each user in the records.
pub open spec fn latest_expiries(records: Seq<JsonView>) -> Map<i64, u64>
    decreases records.len(),
{
    if records.len() == 0 {
        Map::empty()
    } else {
        with_record(latest_expiries(records.drop_last()), records.last())
    }
}

fn user_of(record: &Value) -> (r: Option<i64>)
    ensures
        r == record_user(json_view(*record)),
{
    match json::get(record, "user_id") {
        Some(v) => json::as_i64(v),
        None => None,
    }
}

fn expiry_of(record: &Value) -> (r: Option<u64>)
    ensures
        r == record_expiry(json_view(*record)),
{
    match json::get(record, "expires_at") {
        Some(v) => json::as_u64(v),
        None => None,
    }
}

impl Payments {
    /// The latest expiry of each user in the ledger.
    pub fn load_latest_expiries_from_subs(&self, ledger: Option<&str>) -> (r: HashMap<i64, u64>)
        ensures
            r@ == latest_expiries(ledger_items(ledger.deep_view())),
    {
        broadcast use vstd::std_specs::hash::group_hash_axioms;

        let records = load_ledger(ledger);
        let ghost items = json_views(records@);
        let mut latest: HashMap<i64, u64> = HashMap::new();
        assert(items.take(0).len() == 0);
        for i in 0..records.len()
            invariant
                items == json_views(records@),
                latest@ == latest_expiries(items.take(i as int)),
        {
            assert(items.take(i + 1).drop_last() =~= items.take(i as int));
            assert(items[i as int] == json_view(records@[i as int]));
            match (user_of(&records[i]), expiry_of(&records[i])) {
                (Some(user), Some(expires)) => {
                    let best = match latest.get(&user) {
                        Some(e) => if *e > expires {
                            *e
                        } else {
                            expires
                        },
                        None => expires,
                    };
                    latest.insert(user, best);
                },
                _ => {},
            }
        }
        assert(items.take(items.len() as int) =~= items);
        latest
    }
}

/// The expiry given for a user is the latest of all that the records name for them.
pub proof fn latest_expiry_is_the_maximum(records: Seq<JsonView>, user: i64)
    ensures
        latest_expiries(records).contains_key(user) <==> exists|i: int|
            0 <= i < records.len() && record_user(#[trigger] records[i]) == Some(user)
                && record_expiry(records[i]) is Some,
        forall|i: int|
            0 <= i < records.len() && record_user(#[trigger] records[i]) == Some(user)
                && record_expiry(records[i]) is Some ==> record_expiry(records[i])->0
                <= latest_expiries(records)[user],
        latest_expiries(records).contains_key(user) ==> exists|i: int|
            0 <= i < records.len() && record_user(#[trigger] records[i]) == Some(user)
                && record_expiry(records[i]) == Some(latest_expiries(records)[user]),
    decreases records.len(),
{
    if records.len() > 0 {
        let rest = records.drop_last();
        let last = records.last();
        latest_expiry_is_the_maximum(rest, user);
        assert forall|i: int| 0 <= i < rest.len() implies #[trigger] records[i] == rest[i] by {}
        if latest_expiries(rest).contains_key(user) {
            let i = choose|i: int|
                0 <= i < rest.len() && record_user(#[trigger] rest[i]) == Some(user)
                    && record_expiry(rest[i]) == Some(latest_expiries(rest)[user]);
            assert(record_user(records[i]) == Some(user));
        }
        if record_user(last) == Some(user) && record_expiry(last) is Some {
            assert(record_user(records[records.len() - 1]) == Some(user));
        }
        if latest_expiries(records).contains_key(user) {
            if !(record_user(last) == Some(user) && record_expiry(last) is Some) {
                assert(latest_expiries(rest).contains_key(user));
            }
        }
        if exists|i: int|
            0 <= i < records.len() && record_user(#[trigger] records[i]) == Some(user)
                && record_expiry(records[i]) is Some {
            let i = choose|i: int|
                0 <= i < records.len() && record_user(#[trigger] records[i]) == Some(user)
                    && record_expiry(records[i]) is Some;
            if i < rest.len() {
                assert(record_user(rest[i]) == Some(user));
            }
        }
    }
}

/// Ledgers that hold the same records but for floating-point numbers give the same
/// expiries.
pub proof fn alike_ledgers_agree(a: Seq<JsonView>, b: Seq<JsonView>)
    requires
        alike_ledgers(a, b),
    ensures
        latest_expiries(a) == latest_expiries(b),
    decreases a.len(),
{
    lists_are_alike(a, b, 126);
    if a.len() > 0 {
        let x = a.drop_last();
        let y = b.drop_last();
        lists_are_alike(x, y, 126);
        assert forall|i: int| 0 <= i < x.len() implies alike(#[trigger] x[i], y[i], 126) by {
            assert(alike(a[i], b[i], 126));
        }
        alike_ledgers_agree(x, y);
        let n = a.len() - 1;
        assert(alike(a[n], b[n], 126));
        fields_are_alike(a[n], b[n], "user_id"@, 125);
        fields_are_alike(a[n], b[n], "expires_at"@, 125);
    }
}

proof fn lemma_record(user_id: i64, months: u64, now: u64)
    ensures
        record_user(payment_record(user_id, months, now)) == Some(user_id),
        record_expiry(payment_record(user_id, months, now)) == Some(expiry_from(now, months)),
{
    reveal_strlit("user_id");
    reveal_strlit("paid_at");
    reveal_strlit("expires_at");
    reveal_strlit("paid_date");
    reveal_strlit("expires_date");
    assert("user_id"@[0] == 'u');
    assert("paid_at"@[0] == 'p');
    assert("paid_date"@[0] == 'p');
    assert("expires_at"@.len() == 10);
    assert("expires_date"@.len() == 12);
    assert("expires_at"@[0] == 'e');
    assert("expires_date"@[0] == 'e');
}

/// A payment that was added counts from then on: the user's expiry is the later of the
/// one that they had and the one that they paid for, and all others keep theirs.
pub proof fn payment_counts(items: Seq<JsonView>, user_id: i64, months: u64, now: u64)
    ensures
        ({
            let before = latest_expiries(items);
            let after = latest_expiries(items.push(payment_record(user_id, months, now)));
            after == before.insert(user_id, later(before, user_id, expiry_from(now, months)))
        }),
{
    lemma_record(user_id, months, now);
    let more = items.push(payment_record(user_id, months, now));
    assert(more.drop_last() =~= items);
}

// ---------------------------------------------------------------------------
// Removing users
// ---------------------------------------------------------------------------

/// Whether a record stays when the given users are removed: one that names no user does.
pub open spec fn record_stays(record: JsonView, removed: Seq<i64>) -> bool {
    match record_user(record) {
        Some(user) => !removed.contains(user),
        None => true,
    }
}

/// The records without those of the given users.
pub open spec fn records_without(records: Seq<JsonView>, removed: Seq<i64>) -> Seq<JsonView> {
    records.filter(|record: JsonView| record_stays(record, removed))
}

/// Whether a list holds an id.
pub fn holds_id(list: &Vec<i64>, id: i64) -> (r: bool)
    ensures
        r == list@.contains(id),
{
    for i in 0..list.len()
        invariant
            forall|j: int| 0 <= j < i ==> list@[j] != id,
    {
        if list[i] == id {
            return true;
        }
    }
    false
}

proof fn lemma_fewer_nests(records: Seq<JsonView>, removed: Seq<i64>)
    requires
        nests_within(JsonView::Array(records), max_depth()),
    ensures
        nests_within(JsonView::Array(records_without(records, removed)), max_depth()),
    decreases records.len(),
{
    reveal(Seq::filter);
    if records.len() > 0 {
        let rest = records.drop_last();
        let before = records_without(rest, removed);
        let kept = records_without(records, removed);
        list_nests(records, 126);
        list_nests(rest, 126);
        list_nests(before, 126);
        list_nests(kept, 126);
        assert forall|i: int| 0 <= i < rest.len() implies nests_within(#[trigger] rest[i], 126) by {
            assert(rest[i] == records[i]);
        }
        lemma_fewer_nests(rest, removed);
        assert(nests_within(records[records.len() - 1], 126));
        assert forall|i: int| 0 <= i < kept.len() implies nests_within(#[trigger] kept[i], 126) by {
            if i < before.len() {
                assert(kept[i] == before[i]);
            }
        }
    }
}

/// The text of the ledger without the records of the given users. It is read back as
/// those that are left, but for the last digits of floating-point numbers.
pub fn prune_ledger(ledger: &str, removed: &Vec<i64>) -> (r: String)
    ensures
        ({
            let items = ledger_items(Some(ledger@));
            let kept = records_without(items, removed@);
            &&& r@ == pretty_text(JsonView::Array(kept))
            &&& alike_ledgers(ledger_items(Some(r@)), kept)
        }),
{
    let records = load_ledger(Some(ledger));
    let ghost items = json_views(records@);
    let mut kept: Vec<Value> = Vec::new();
    assert(json_views(kept@) =~= records_without(items.take(0), removed@));
    for i in 0..records.len()
        invariant
            items == json_views(records@),
            json_views(kept@) == records_without(items.take(i as int), removed@),
    {
        proof {
            reveal(Seq::filter);
            assert(items.take(i + 1).drop_last() =~= items.take(i as int));
            assert(items[i as int] == json_view(records@[i as int]));
        }
        let stays = match user_of(&records[i]) {
            Some(user) => !holds_id(removed, user),
            None => true,
        };
        let ghost before = json_views(kept@);
        if stays {
            kept.push(json::copy(&records[i]));
            assert(json_views(kept@) =~= before.push(items[i as int]));
        }
    }
    assert(items.take(items.len() as int) =~= items);
    proof {
        lemma_fewer_nests(items, removed@);
    }
    json::write(&json::of_list(kept))
}

/// Removing users takes their expiries away and leaves all others.
pub proof fn pruned_expiries(records: Seq<JsonView>, removed: Seq<i64>)
    ensures
        latest_expiries(records_without(records, removed)) == latest_expiries(
            records,
        ).remove_keys(removed.to_set()),
    decreases records.len(),
{
    reveal(Seq::filter);
    if records.len() > 0 {
        let rest = records.drop_last();
        let last = records.last();
        pruned_expiries(rest, removed);
        let kept = records_without(rest, removed);
        if record_stays(last, removed) {
            assert(kept.push(last).drop_last() =~= kept);
        }
        match record_user(last) {
            Some(user) => {
                assert(removed.to_set().contains(user) == removed.contains(user));
            },
            None => {},
        }
        assert(latest_expiries(records_without(records, removed)) =~= latest_expiries(
            records,
        ).remove_keys(removed.to_set()));
    } else {
        assert(latest_expiries(records_without(records, removed)) =~= latest_expiries(
            records,
        ).remove_keys(removed.to_set()));
    }
}

// ---------------------------------------------------------------------------
// What the records say
// ---------------------------------------------------------------------------

/// The record of a payment says who paid, when, and until when: thirty days for each month
/// from then; and it gives both moments as dates. It says nothing else.
pub proof fn payment_record_says(user_id: i64, months: u64, now: u64)
    ensures
        ({
            let record = payment_record(user_id, months, now);
            let fields = record->Object_0;
            let end = fields["expires_at"@]->Integer_0;
            &&& record is Object
            &&& fields.contains_key("user_id"@)
            &&& fields["user_id"@] == JsonView::Integer(user_id as int)
            &&& fields.contains_key("paid_at"@)
            &&& fields["paid_at"@] == JsonView::Integer(now as int)
            &&& fields.contains_key("expires_at"@)
            &&& fields["expires_at"@] is Integer
            &&& now + months * (30 * 24 * 60 * 60) <= u64::MAX ==> end == now + months * (30 * 24
                * 60 * 60)
            &&& now + months * (30 * 24 * 60 * 60) > u64::MAX ==> end == u64::MAX
            &&& fields.contains_key("paid_date"@)
            &&& fields["paid_date"@] == JsonView::Str(date_text(now))
            &&& fields.contains_key("expires_date"@)
            &&& fields["expires_date"@] == JsonView::Str(date_text(end as u64))
            &&& forall|name: Seq<char>| #[trigger]
                fields.contains_key(name) ==> name == "user_id"@ || name == "paid_at"@ || name
                    == "expires_at"@ || name == "paid_date"@ || name == "expires_date"@
        }),
{
    lemma_record(user_id, months, now);
    reveal_strlit("user_id");
    reveal_strlit("paid_at");
    reveal_strlit("expires_at");
    reveal_strlit("paid_date");
    reveal_strlit("expires_date");
    assert("user_id"@[0] == 'u');
    assert("paid_at"@.len() == 7 && "paid_at"@[0] == 'p');
    assert("paid_date"@.len() == 9);
    assert("expires_at"@.len() == 10);
    assert("expires_date"@.len() == 12);
}

/// Whether a record names a user and a moment.
pub open spec fn names(record: JsonView, user: i64, end: u64) -> bool {
    &&& record is Object
    &&& record->Object_0.contains_key("user_id"@)
    &&& record->Object_0["user_id"@] == JsonView::Integer(user as int)
    &&& record->Object_0.contains_key("expires_at"@)
    &&& record->Object_0["expires_at"@] == JsonView::Integer(end as int)
}

/// The expiry given for a user is the greatest of those that records name with them: every
/// such record counts, wherever it stands, and nothing else does.
pub proof fn every_payment_counts(records: Seq<JsonView>, user: i64)
    ensures
        forall|i: int, end: u64|
            0 <= i < records.len() && #[trigger] names(records[i], user, end)
                ==> latest_expiries(records).contains_key(user) && latest_expiries(records)[user]
                >= end,
        latest_expiries(records).contains_key(user) ==> exists|i: int|
            0 <= i < records.len() && names(
                #[trigger] records[i],
                user,
                latest_expiries(records)[user],
            ),
{
    latest_expiry_is_the_maximum(records, user);
    assert forall|i: int, end: u64| 0 <= i < records.len() && #[trigger] names(
        records[i],
        user,
        end,
    ) implies latest_expiries(records).contains_key(user) && latest_expiries(records)[user]
        >= end by {
        assert(record_user(records[i]) == Some(user));
        assert(record_expiry(records[i]) == Some(end));
    }
    if latest_expiries(records).contains_key(user) {
        let i = choose|i: int|
            0 <= i < records.len() && record_user(#[trigger] records[i]) == Some(user)
                && record_expiry(records[i]) == Some(latest_expiries(records)[user]);
        assert(names(records[i], user, latest_expiries(records)[user]));
    }
}

/// The order of the records does not matter to the expiries, nor how often a payment is
/// recorded.
pub proof fn same_payments_give_same_expiries(a: Seq<JsonView>, b: Seq<JsonView>)
    requires
        forall|record: JsonView| #[trigger] a.contains(record) <==> b.contains(record),
    ensures
        latest_expiries(a) == latest_expiries(b),
{
    assert forall|user: i64| #[trigger]
        latest_expiries(a).contains_key(user) == latest_expiries(b).contains_key(user) && (
    latest_expiries(a).contains_key(user) ==> latest_expiries(a)[user] == latest_expiries(
        b,
    )[user]) by {
        every_payment_counts(a, user);
        every_payment_counts(b, user);
        if latest_expiries(a).contains_key(user) {
            let i = choose|i: int|
                0 <= i < a.len() && names(#[trigger] a[i], user, latest_expiries(a)[user]);
            assert(a.contains(a[i]));
            let j = choose|j: int| 0 <= j < b.len() && b[j] == a[i];
            assert(names(b[j], user, latest_expiries(a)[user]));
        }
        if latest_expiries(b).contains_key(user) {
            let i = choose|i: int|
                0 <= i < b.len() && names(#[trigger] b[i], user, latest_expiries(b)[user]);
            assert(b.contains(b[i]));
            assert(a.contains(b[i]));
            let j = choose|j: int| 0 <= j < a.len() && a[j] == b[i];
            assert(names(a[j], user, latest_expiries(b)[user]));
        }
    }
    assert(latest_expiries(a) =~= latest_expiries(b));
}

/// When users are removed from the ledger, every record that names one of them goes, and
/// every other record stays, in order: that of another user, and one that names none.
pub proof fn only_records_of_removed_users_go(records: Seq<JsonView>, removed: Seq<i64>)
    ensures
        ({
            let kept = records_without(records, removed);
            &&& kept.len() <= records.len()
            &&& forall|i: int|
                0 <= i < kept.len() ==> {
                    &&& records.contains(#[trigger] kept[i])
                    &&& forall|user: i64| #[trigger]
                        removed.contains(user) ==> !(kept[i] is Object
                            && kept[i]->Object_0.contains_key("user_id"@)
                            && kept[i]->Object_0["user_id"@] == JsonView::Integer(user as int))
                }
            &&& forall|i: int|
                0 <= i < records.len() && (#[trigger] records[i] is Object ==> (
                records[i]->Object_0.contains_key("user_id"@) ==> forall|user: i64| #[trigger]
                    removed.contains(user) ==> records[i]->Object_0["user_id"@]
                        != JsonView::Integer(user as int))) ==> kept.contains(records[i])
        }),
{
    let kept = records_without(records, removed);
    let stays = |record: JsonView| record_stays(record, removed);
    assert forall|i: int| 0 <= i < kept.len() implies {
        &&& records.contains(#[trigger] kept[i])
        &&& forall|user: i64| #[trigger]
            removed.contains(user) ==> !(kept[i] is Object && kept[i]->Object_0.contains_key(
                "user_id"@,
            ) && kept[i]->Object_0["user_id"@] == JsonView::Integer(user as int))
    } by {
        records.lemma_filter_pred(stays, i);
        lemma_filtered(records, removed, i);
        assert forall|user: i64| #[trigger] removed.contains(user) implies !(kept[i] is Object
            && kept[i]->Object_0.contains_key("user_id"@) && kept[i]->Object_0["user_id"@]
            == JsonView::Integer(user as int)) by {
            if kept[i] is Object && kept[i]->Object_0.contains_key("user_id"@)
                && kept[i]->Object_0["user_id"@] == JsonView::Integer(user as int) {
                assert(record_user(kept[i]) == Some(user));
            }
        }
    }
    assert forall|i: int|
        0 <= i < records.len() && (#[trigger] records[i] is Object ==> (
        records[i]->Object_0.contains_key("user_id"@) ==> forall|user: i64| #[trigger]
            removed.contains(user) ==> records[i]->Object_0["user_id"@] != JsonView::Integer(
                user as int,
            ))) implies kept.contains(records[i]) by {
        if record_user(records[i]) is Some {
            let user = record_user(records[i])->0;
            assert(records[i]->Object_0["user_id"@] == JsonView::Integer(user as int));
        }
        records.lemma_filter_contains(stays, i);
    }
    records.lemma_filter_len(stays);
}

proof fn lemma_filtered(records: Seq<JsonView>, removed: Seq<i64>, i: int)
    requires
        0 <= i < records_without(records, removed).len(),
    ensures
        records.contains(records_without(records, removed)[i]),
    decreases records.len(),
{
    reveal(Seq::filter);
    let rest = records.drop_last();
    if i < records_without(rest, removed).len() {
        lemma_filtered(rest, removed, i);
        let j = choose|j: int|
            0 <= j < rest.len() && rest[j] == records_without(rest, removed)[i];
        assert(records[j] == rest[j]);
    } else {
        assert(records[records.len() - 1] == records_without(records, removed)[i]);
    }
}

/// A ledger that is a JSON array holds its items; one that is missing or blank holds no
/// records, and so nobody has an expiry.
pub proof fn a_ledger_is_an_array(text: Seq<char>, items: Seq<JsonView>)
    requires
        trim_text(text).len() > 0,
        json_of_text(text) == Some(JsonView::Array(items)),
    ensures
        ledger_items(Some(text)) == items,
        ledger_items(None).len() == 0,
        latest_expiries(ledger_items(None)) == Map::<i64, u64>::empty(),
{
}

} // verus!
