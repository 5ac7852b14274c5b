//! Removing users whose subscription has expired, and the chats that they are kept out of.
use crate::actions::{plain, plain_view, then_do, Action, ActionView};
use crate::json::{pretty_text, JsonView};
use crate::ledger::{
    alike_ledgers, alike_ledgers_agree, holds_id, latest_expiries, latest_expiry_is_the_maximum,
    ledger_items, payment_counts, payment_record, prune_ledger, pruned_expiries, record_expiry,
    record_stays, record_user, records_without,
};
use crate::numbers::{
    int_text, int_text_is_digits, int_text_parses_back, only_digits_spell_numbers, parse_i64,
    parse_i64_text,
};
use crate::payments::{Payments, Subscriber, SubscriberView};
use crate::sorting::Duplicate;
use crate::subscribers::expiry_from;
use crate::text::{
    has_none, is_digit, lines, lines_end_either_way, lines_of_added, lines_text, numeric_char,
    split, split_of_first, split_of_last, split_text, trim, trim_both, trim_both_text,
    trim_end_text, trim_leaves_trimmed, trim_start_text, trim_text, CharKind,
};
use std::collections::HashMap;
use vstd::prelude::*;

verus! {

// ---------------------------------------------------------------------------
// The chats
// ---------------------------------------------------------------------------

/// The file with the chats unless another is named.
pub const TARGET_CHATS_PATH: &'static str = "chats2.csv";

/// The id that an entry of the list of chats stands for: as it is, else without what
/// surrounds the digits.
pub open spec fn chat_of(part: Seq<char>) -> Option<i64> {
    let t = trim_text(part);
    if t.len() == 0 {
        None
    } else {
        match parse_i64_text(t) {
            Some(id) => Some(id),
            None => parse_i64_text(trim_both_text(t, CharKind::Foreign)),
        }
    }
}

/// The ids in the first `n` entries of a line.
pub open spec fn chats_of_parts(parts: Seq<Seq<char>>, n: nat) -> Seq<i64>
    decreases n,
{
    if n == 0 {
        seq![]
    } else {
        let before = chats_of_parts(parts, (n - 1) as nat);
        match chat_of(parts[n - 1]) {
            Some(id) => before.push(id),
            None => before,
        }
    }
}

/// The ids in the first `n` lines.
pub open spec fn chats_of_lines(lines: Seq<Seq<char>>, n: nat) -> Seq<i64>
    decreases n,
{
    if n == 0 {
        seq![]
    } else {
        let parts = split_text(lines[n - 1], CharKind::CommaOrSemicolon);
        chats_of_lines(lines, (n - 1) as nat) + chats_of_parts(parts, parts.len())
    }
}

/// The ids in a list of chats.
pub open spec fn target_chats(text: Seq<char>) -> Seq<i64> {
    chats_of_lines(lines_text(text), lines_text(text).len())
}

fn parse_chat(part: &str) -> (r: Option<i64>)
    ensures
        r == chat_of(part@),
{
    let t = trim(part);
    if t.as_str().is_empty() {
        return None;
    }
    match parse_i64(&t) {
        Some(id) => Some(id),
        None => parse_i64(&trim_both(&t, CharKind::Foreign)),
    }
}

impl Payments {
    /// The ids in a list of chats, which are on lines of their own or separated by
    /// commas or semicolons. Whatever is no number is skipped.
    pub fn load_target_chats(&self, text: &str) -> (r: Vec<i64>)
        ensures
            r@ == target_chats(text@),
    {
        let all = lines(text);
        let ghost texts = all.deep_view();
        let mut out: Vec<i64> = Vec::new();
        for i in 0..all.len()
            invariant
                texts == all.deep_view(),
                out@ == chats_of_lines(texts, i as nat),
        {
            let parts = split(&all[i], CharKind::CommaOrSemicolon);
            let ghost pieces = parts.deep_view();
            let ghost before = out@;
            assert(texts[i as int] == all@[i as int]@);
            for j in 0..parts.len()
                invariant
                    pieces == parts.deep_view(),
                    out@ == before + chats_of_parts(pieces, j as nat),
            {
                assert(pieces[j as int] == parts@[j as int]@);
                match parse_chat(&parts[j]) {
                    Some(id) => {
                        out.push(id);
                    },
                    None => {},
                }
            }
        }
        out
    }

    /// The chats in which lifting the ban on a user is attempted: those of the list, if
    /// it can be read.
    pub fn unban_user_from_chats(&self, chats: Option<&str>) -> (r: Vec<i64>)
        ensures
            r@ == chats_or_none(chats.deep_view()),
    {
        match chats {
            Some(text) => self.load_target_chats(text),
            None => Vec::new(),
        }
    }
}

/// The ids in a list of chats that may be unreadable.
pub open spec fn chats_or_none(text: Option<Seq<char>>) -> Seq<i64> {
    match text {
        Some(t) => target_chats(t),
        None => seq![],
    }
}

// ---------------------------------------------------------------------------
// Who has expired
// ---------------------------------------------------------------------------

/// Whether a list holds each user of a map once, with their expiry, in any order.
pub open spec fn lists_all(list: Seq<(i64, u64)>, latest: Map<i64, u64>) -> bool {
    &&& forall|i: int|
        0 <= i < list.len() ==> latest.contains_key((#[trigger] list[i]).0) && latest[list[i].0]
            == list[i].1
    &&& forall|i: int, j: int|
        0 <= i < j < list.len() ==> (#[trigger] list[i]).0 != (#[trigger] list[j]).0
    &&& forall|user: i64| #[trigger]
        latest.contains_key(user) ==> list.contains((user, latest[user]))
}

/// The users of a map with their expiries. In which order they come is not fixed.
pub fn expiry_list(latest: &HashMap<i64, u64>) -> (r: Vec<(i64, u64)>)
    ensures
        lists_all(r@, latest@),
{
    broadcast use vstd::std_specs::hash::group_hash_axioms;

    let mut out: Vec<(i64, u64)> = Vec::new();
    let ghost all = vstd::std_specs::iter::IteratorSpec::remaining(&latest.iter());
    for pair in it: latest.iter()
        invariant
            all == it.seq(),
            out@.len() == it.index(),
            forall|i: int|
                0 <= i < out@.len() ==> #[trigger] out@[i] == (*all[i].0, *all[i].1),
    {
        out.push((*pair.0, *pair.1));
    }
    proof {
        assert(out@.len() == all.len());
        assert forall|i: int| 0 <= i < out@.len() implies latest@.contains_key(
            (#[trigger] out@[i]).0,
        ) && latest@[out@[i].0] == out@[i].1 by {
            assert(latest@.contains_key(*all[i].0));
        }
        assert forall|user: i64| #[trigger] latest@.contains_key(user) implies out@.contains(
            (user, latest@[user]),
        ) by {
            assert(all.contains((&user, &latest@[user])));
            let i = choose|i: int| 0 <= i < all.len() && all[i] == (&user, &latest@[user]);
            assert(out@[i] == (user, latest@[user]));
        }
        assert forall|i: int, j: int| 0 <= i < j < out@.len() implies (#[trigger] out@[i]).0 != (
        #[trigger] out@[j]).0 by {
            assert(all[i] != all[j]);
            assert(latest@[*all[i].0] == *all[i].1);
            assert(latest@[*all[j].0] == *all[j].1);
        }
    }
    out
}

/// Those of the first `n` listed users whose subscription has expired.
pub open spec fn expired_of(list: Seq<(i64, u64)>, now: u64, n: nat) -> Seq<i64>
    decreases n,
{
    if n == 0 {
        seq![]
    } else {
        let before = expired_of(list, now, (n - 1) as nat);
        if list[n - 1].1 <= now {
            before.push(list[n - 1].0)
        } else {
            before
        }
    }
}

/// The listed users whose subscription has expired.
pub fn expired_users(list: &Vec<(i64, u64)>, now: u64) -> (r: Vec<i64>)
    ensures
        r@ == expired_of(list@, now, list@.len()),
{
    let mut out: Vec<i64> = Vec::new();
    for i in 0..list.len()
        invariant
            out@ == expired_of(list@, now, i as nat),
    {
        if list[i].1 <= now {
            out.push(list[i].0);
        }
    }
    out
}

/// Whether the removed users are those whose latest expiry has passed, each once.
pub open spec fn removes_expired(removed: Seq<i64>, latest: Map<i64, u64>, now: u64) -> bool {
    &&& removed.no_duplicates()
    &&& forall|user: i64| #[trigger]
        removed.contains(user) <==> latest.contains_key(user) && latest[user] <= now
}

proof fn lemma_expired(list: Seq<(i64, u64)>, now: u64, n: nat)
    requires
        n <= list.len(),
        forall|i: int, j: int|
            0 <= i < j < list.len() ==> (#[trigger] list[i]).0 != (#[trigger] list[j]).0,
    ensures
        expired_of(list, now, n).no_duplicates(),
        forall|user: i64| #[trigger]
            expired_of(list, now, n).contains(user) <==> exists|i: int|
                0 <= i < n && (#[trigger] list[i]).0 == user && list[i].1 <= now,
    decreases n,
{
    if n > 0 {
        lemma_expired(list, now, (n - 1) as nat);
        let before = expired_of(list, now, (n - 1) as nat);
        let after = expired_of(list, now, n);
        let last = list[n - 1];
        assert forall|user: i64| #[trigger] after.contains(user) <==> exists|i: int|
            0 <= i < n && (#[trigger] list[i]).0 == user && list[i].1 <= now by {
            if after.contains(user) {
                if before.contains(user) {
                    let i = choose|i: int|
                        0 <= i < n - 1 && (#[trigger] list[i]).0 == user && list[i].1 <= now;
                    assert(list[i].0 == user);
                } else {
                    assert(list[n - 1].0 == user);
                }
            }
            if exists|i: int| 0 <= i < n && (#[trigger] list[i]).0 == user && list[i].1 <= now {
                let i = choose|i: int|
                    0 <= i < n && (#[trigger] list[i]).0 == user && list[i].1 <= now;
                if i < n - 1 {
                    assert(before.contains(user));
                    let k = choose|k: int| 0 <= k < before.len() && before[k] == user;
                    assert(after[k] == user);
                } else {
                    assert(after[after.len() - 1] == user);
                }
            }
        }
        if last.1 <= now {
            assert(!before.contains(last.0));
        }
    }
}

/// Whatever order the users come in, those found expired are those whose latest expiry
/// has passed, each once.
pub proof fn expired_are_found(list: Seq<(i64, u64)>, latest: Map<i64, u64>, now: u64)
    requires
        lists_all(list, latest),
    ensures
        removes_expired(expired_of(list, now, list.len()), latest, now),
{
    lemma_expired(list, now, list.len());
    let removed = expired_of(list, now, list.len());
    assert forall|user: i64| #[trigger] removed.contains(user) <==> latest.contains_key(user)
        && latest[user] <= now by {
        if latest.contains_key(user) && latest[user] <= now {
            let i = choose|i: int| 0 <= i < list.len() && list[i] == (user, latest[user]);
            assert(list[i].0 == user && list[i].1 <= now);
        }
    }
}

// ---------------------------------------------------------------------------
// Removing them
// ---------------------------------------------------------------------------

/// The subscribers without the given users.
pub open spec fn subscribers_without(subs: Seq<SubscriberView>, removed: Seq<i64>) -> Seq<
    SubscriberView,
> {
    subs.filter(|s: SubscriberView| !removed.contains(s.user_id))
}

/// The subscribers without the given users.
pub fn retain_subscribers(subs: &Vec<Subscriber>, removed: &Vec<i64>) -> (r: Vec<Subscriber>)
    ensures
        r.deep_view() == subscribers_without(subs.deep_view(), removed@),
{
    let ghost views = subs.deep_view();
    let mut kept: Vec<Subscriber> = Vec::new();
    proof {
        reveal(Seq::filter);
        assert(kept.deep_view() =~= subscribers_without(views.take(0), removed@));
    }
    for i in 0..subs.len()
        invariant
            views == subs.deep_view(),
            kept.deep_view() == subscribers_without(views.take(i as int), removed@),
    {
        proof {
            reveal(Seq::filter);
            assert(views.take(i + 1).drop_last() =~= views.take(i as int));
            assert(views[i as int] == subs@[i as int].deep_view());
        }
        let ghost before = kept.deep_view();
        if !holds_id(removed, subs[i].user_id) {
            kept.push(subs[i].duplicate());
            assert(kept.deep_view() =~= before.push(views[i as int]));
        }
    }
    assert(views.take(views.len() as int) =~= views);
    kept
}

/// Every pair of one of the first `n` users and a chat.
pub open spec fn ban_pairs(users: Seq<i64>, chats: Seq<i64>, n: nat) -> Seq<(i64, i64)>
    decreases n,
{
    if n == 0 {
        seq![]
    } else {
        ban_pairs(users, chats, (n - 1) as nat) + chats.map_values(|chat: i64| (users[n - 1], chat))
    }
}

/// Every pair of a user and a chat.
pub fn ban_plan(users: &Vec<i64>, chats: &Vec<i64>) -> (r: Vec<(i64, i64)>)
    ensures
        r@ == ban_pairs(users@, chats@, users@.len()),
{
    let mut out: Vec<(i64, i64)> = Vec::new();
    for i in 0..users.len()
        invariant
            out@ == ban_pairs(users@, chats@, i as nat),
    {
        let ghost before = out@;
        let ghost pairs = chats@.map_values(|chat: i64| (users@[i as int], chat));
        assert(out@ =~= before + pairs.take(0));
        for j in 0..chats.len()
            invariant
                i < users@.len(),
                pairs == chats@.map_values(|chat: i64| (users@[i as int], chat)),
                out@ == before + pairs.take(j as int),
        {
            out.push((users[i], chats[j]));
            assert(out@ =~= before + pairs.take(j + 1));
        }
        assert(pairs.take(pairs.len() as int) =~= pairs);
    }
    out
}

/// What removed users are told.
pub const REMOVAL_TEXT: &'static str = "Ваша подписка истекла, доступ к каналам закрыт.";

/// Word to each of the removed users.
pub open spec fn notices_to(removed: Seq<i64>) -> Seq<ActionView> {
    removed.map_values(|user: i64| plain_view(user, REMOVAL_TEXT@))
}

/// Word to each of the removed users.
pub fn removal_notices(removed: &Vec<i64>) -> (r: Vec<Action>)
    ensures
        r.deep_view() == notices_to(removed@),
{
    let ghost all = notices_to(removed@);
    let mut out: Vec<Action> = Vec::new();
    assert(out.deep_view() =~= all.take(0));
    for i in 0..removed.len()
        invariant
            all == notices_to(removed@),
            out.deep_view() == all.take(i as int),
    {
        then_do(&mut out, plain(removed[i], REMOVAL_TEXT.to_string()));
        assert(out.deep_view() =~= all.take(i + 1));
    }
    assert(all.take(all.len() as int) =~= all);
    out
}

/// What is to be written and done when expired users are removed.
#[derive(Debug, Clone, PartialEq, Eq)]
pub struct Pruning {
    pub removed: Vec<i64>,
    /// What the file of subscribers is to hold, if it is to be written.
    pub subscribers: Option<Vec<Subscriber>>,
    /// What the ledger is to hold, if it is to be written.
    pub ledger: Option<String>,
    /// What the removed users are to be told.
    pub notices: Vec<Action>,
    /// Who is to be banned from which chat.
    pub bans: Vec<(i64, i64)>,
}

/// Whether a pruning is the one that removes the given users. Where there are none,
/// nothing is written and nobody told or banned. The ledger is read back as what is left
/// of it, but for the last digits of floating-point numbers.
pub open spec fn is_pruning_of(
    r: Pruning,
    removed: Seq<i64>,
    ledger: Option<Seq<char>>,
    subscribers: Option<Seq<SubscriberView>>,
    chats: Option<Seq<char>>,
) -> bool {
    &&& r.removed@ == removed
    &&& if removed.len() == 0 {
        &&& r.subscribers is None
        &&& r.ledger is None
        &&& r.notices@.len() == 0
        &&& r.bans@.len() == 0
    } else {
        &&& r.subscribers.deep_view() == (match subscribers {
            Some(subs) => Some(subscribers_without(subs, removed)),
            None => None,
        })
        &&& r.ledger.deep_view() == (match ledger {
            Some(text) => Some(
                pretty_text(JsonView::Array(records_without(ledger_items(Some(text)), removed))),
            ),
            None => None,
        })
        &&& ledger is Some ==> alike_ledgers(
            ledger_items(r.ledger.deep_view()),
            records_without(ledger_items(ledger), removed),
        )
        &&& r.notices.deep_view() == notices_to(removed)
        &&& r.bans@ == ban_pairs(removed, chats_or_none(chats), removed.len())
    }
}

impl Payments {
    /// What is to be written and done to remove the users of a list who have expired.
    pub fn prune_listed(
        &self,
        list: &Vec<(i64, u64)>,
        ledger: Option<&str>,
        subscribers: Option<&Vec<Subscriber>>,
        chats: Option<&str>,
        now: u64,
    ) -> (r: Pruning)
        ensures
            is_pruning_of(
                r,
                expired_of(list@, now, list@.len()),
                ledger.deep_view(),
                subscribers.deep_view(),
                chats.deep_view(),
            ),
    {
        let removed = expired_users(list, now);
        if removed.len() == 0 {
            return Pruning {
                removed,
                subscribers: None,
                ledger: None,
                notices: Vec::new(),
                bans: Vec::new(),
            };
        }
        let subscribers = match subscribers {
            Some(subs) => Some(retain_subscribers(subs, &removed)),
            None => None,
        };
        let ledger = match ledger {
            Some(text) => Some(prune_ledger(text, &removed)),
            None => None,
        };
        let chats = self.unban_user_from_chats(chats);
        let notices = removal_notices(&removed);
        let bans = ban_plan(&removed, &chats);
        Pruning { removed, subscribers, ledger, notices, bans }
    }

    /// What is to be written and done to remove the users whose latest expiry in the
    /// ledger has passed: they leave the subscribers and the ledger, are told of it, and
    /// are banned from every chat of the list. In which order they come is not fixed.
    pub fn prune_and_ban_expired_subscribers(
        &self,
        ledger: Option<&str>,
        subscribers: Option<&Vec<Subscriber>>,
        chats: Option<&str>,
        now: u64,
    ) -> (r: Pruning)
        ensures
            removes_expired(r.removed@, latest_expiries(ledger_items(ledger.deep_view())), now),
            is_pruning_of(
                r,
                r.removed@,
                ledger.deep_view(),
                subscribers.deep_view(),
                chats.deep_view(),
            ),
    {
        let latest = self.load_latest_expiries_from_subs(ledger);
        let list = expiry_list(&latest);
        proof {
            expired_are_found(list@, latest@, now);
        }
        self.prune_listed(&list, ledger, subscribers, chats, now)
    }

    /// The same, under the name that the program's own tasks call it by.
    pub fn prune_and_ban_expired(
        &self,
        ledger: Option<&str>,
        subscribers: Option<&Vec<Subscriber>>,
        chats: Option<&str>,
        now: u64,
    ) -> (r: Pruning)
        ensures
            removes_expired(r.removed@, latest_expiries(ledger_items(ledger.deep_view())), now),
            is_pruning_of(
                r,
                r.removed@,
                ledger.deep_view(),
                subscribers.deep_view(),
                chats.deep_view(),
            ),
    {
        self.prune_and_ban_expired_subscribers(ledger, subscribers, chats, now)
    }
}

// ---------------------------------------------------------------------------
// Laws
// ---------------------------------------------------------------------------

/// After expired users are removed from the ledger nobody in it has expired, and all
/// others keep their expiry.
pub proof fn pruned_ledger_has_no_expired(records: Seq<JsonView>, removed: Seq<i64>, now: u64)
    requires
        removes_expired(removed, latest_expiries(records), now),
    ensures
        ({
            let before = latest_expiries(records);
            let after = latest_expiries(records_without(records, removed));
            forall|user: i64|
                #![trigger after.contains_key(user)]
                (after.contains_key(user) <==> before.contains_key(user) && before[user] > now) && (
                after.contains_key(user) ==> after[user] == before[user])
        }),
{
    pruned_expiries(records, removed);
    assert forall|user: i64| removed.to_set().contains(user) == #[trigger] removed.contains(
        user,
    ) by {}
}

/// Removing keeps every record of a user who is not removed.
pub proof fn other_records_stay(records: Seq<JsonView>, removed: Seq<i64>, i: int)
    requires
        0 <= i < records.len(),
        record_stays(records[i], removed),
    ensures
        records_without(records, removed).contains(records[i]),
{
    records.lemma_filter_contains(|record: JsonView| record_stays(record, removed), i);
}

/// Removing keeps every subscriber who is not removed, and no other.
pub proof fn only_removed_subscribers_leave(subs: Seq<SubscriberView>, removed: Seq<i64>)
    ensures
        forall|i: int|
            0 <= i < subscribers_without(subs, removed).len() ==> !removed.contains(
                (#[trigger] subscribers_without(subs, removed)[i]).user_id,
            ),
        forall|i: int|
            0 <= i < subs.len() && !removed.contains((#[trigger] subs[i]).user_id)
                ==> subscribers_without(subs, removed).contains(subs[i]),
{
    let stays = |s: SubscriberView| !removed.contains(s.user_id);
    assert forall|i: int| 0 <= i < subscribers_without(subs, removed).len() implies !removed.contains(
        (#[trigger] subscribers_without(subs, removed)[i]).user_id,
    ) by {
        subs.lemma_filter_pred(stays, i);
    }
    assert forall|i: int|
        0 <= i < subs.len() && !removed.contains((#[trigger] subs[i]).user_id) implies subscribers_without(
        subs, removed).contains(subs[i]) by {
        subs.lemma_filter_contains(stays, i);
    }
}

/// The ledger once a pruning was written.
pub open spec fn ledger_after(r: Pruning, ledger: Option<Seq<char>>) -> Option<Seq<char>> {
    match r.ledger {
        Some(text) => Some(text@),
        None => ledger,
    }
}

/// A pruning leaves nobody in the ledger who has expired, and pruning again at the same
/// moment removes nobody, writes nothing, and tells and bans nobody.
pub proof fn pruning_again_does_nothing(
    first: Pruning,
    second: Pruning,
    ledger: Option<Seq<char>>,
    subscribers: Option<Seq<SubscriberView>>,
    chats: Option<Seq<char>>,
    later_subscribers: Option<Seq<SubscriberView>>,
    later_chats: Option<Seq<char>>,
    now: u64,
)
    requires
        removes_expired(first.removed@, latest_expiries(ledger_items(ledger)), now),
        is_pruning_of(first, first.removed@, ledger, subscribers, chats),
        removes_expired(
            second.removed@,
            latest_expiries(ledger_items(ledger_after(first, ledger))),
            now,
        ),
        is_pruning_of(
            second,
            second.removed@,
            ledger_after(first, ledger),
            later_subscribers,
            later_chats,
        ),
    ensures
        forall|user: i64|
            latest_expiries(ledger_items(ledger_after(first, ledger))).contains_key(user)
                ==> #[trigger] latest_expiries(
                ledger_items(ledger_after(first, ledger)),
            )[user] > now,
        second.removed@.len() == 0,
        second.subscribers is None,
        second.ledger is None,
        second.notices@.len() == 0,
        second.bans@.len() == 0,
{
    let removed = first.removed@;
    let before = latest_expiries(ledger_items(ledger));
    let after = latest_expiries(ledger_items(ledger_after(first, ledger)));
    if removed.len() > 0 && ledger is Some {
        alike_ledgers_agree(
            ledger_items(first.ledger.deep_view()),
            records_without(ledger_items(ledger), removed),
        );
        pruned_ledger_has_no_expired(ledger_items(ledger), removed, now);
    } else {
        assert(after == before);
        assert forall|user: i64| after.contains_key(user) implies #[trigger] after[user] > now by {
            assert(!removed.contains(user)) by {
                if removed.contains(user) {
                    assert(ledger is None);
                    assert(before =~= Map::<i64, u64>::empty());
                }
            }
        }
    }
    let again = second.removed@;
    if again.len() > 0 {
        assert(again.contains(again[0]));
        assert(after.contains_key(again[0]));
        assert(after[again[0]] > now);
    }
}

/// Whoever has paid is not removed before the period that they paid for has passed.
pub proof fn paying_user_is_not_removed(
    records: Seq<JsonView>,
    user: i64,
    months: u64,
    paid_at: u64,
    removed: Seq<i64>,
    now: u64,
)
    requires
        now < expiry_from(paid_at, months),
        removes_expired(
            removed,
            latest_expiries(records.push(payment_record(user, months, paid_at))),
            now,
        ),
    ensures
        !removed.contains(user),
{
    payment_counts(records, user, months, paid_at);
}

proof fn lemma_pair_at(users: Seq<i64>, chats: Seq<i64>, n: nat, i: int, j: int)
    requires
        0 <= i < n <= users.len(),
        0 <= j < chats.len(),
    ensures
        i * chats.len() + j < ban_pairs(users, chats, n).len(),
        ban_pairs(users, chats, n)[i * chats.len() + j] == (users[i], chats[j]),
    decreases n,
{
    let m = chats.len() as int;
    lemma_pair_count(users, chats, n);
    lemma_pair_count(users, chats, (n - 1) as nat);
    assert(i * m >= 0) by (nonlinear_arith)
        requires
            i >= 0,
            m >= 0,
    ;
    assert((n - 1) * m + m == n * m) by (nonlinear_arith);
    if i == n - 1 {
    } else {
        lemma_pair_at(users, chats, (n - 1) as nat, i, j);
    }
}

proof fn lemma_pair_count(users: Seq<i64>, chats: Seq<i64>, n: nat)
    ensures
        ban_pairs(users, chats, n).len() == n * chats.len(),
    decreases n,
{
    let m = chats.len() as int;
    if n > 0 {
        lemma_pair_count(users, chats, (n - 1) as nat);
        assert((n - 1) * m + m == n * m) by (nonlinear_arith);
    } else {
        assert(0 * m == 0) by (nonlinear_arith);
    }
}

proof fn lemma_pairs_only(users: Seq<i64>, chats: Seq<i64>, n: nat, k: int)
    requires
        n <= users.len(),
        0 <= k < ban_pairs(users, chats, n).len(),
    ensures
        users.contains(ban_pairs(users, chats, n)[k].0),
        chats.contains(ban_pairs(users, chats, n)[k].1),
    decreases n,
{
    if n > 0 {
        let before = ban_pairs(users, chats, (n - 1) as nat);
        if k < before.len() {
            lemma_pairs_only(users, chats, (n - 1) as nat, k);
        } else {
            assert(ban_pairs(users, chats, n)[k] == (users[n - 1], chats[k - before.len()]));
        }
    }
}

/// Everyone who is removed is banned from every chat of the list, and nobody is banned
/// otherwise: one ban for each of them and each chat, the chats of one user after those of
/// another, in the order of the list.
pub proof fn removed_users_are_banned_everywhere(
    r: Pruning,
    removed: Seq<i64>,
    ledger: Option<Seq<char>>,
    subscribers: Option<Seq<SubscriberView>>,
    chats: Option<Seq<char>>,
)
    requires
        is_pruning_of(r, removed, ledger, subscribers, chats),
    ensures
        r.removed@ == removed,
        forall|user: i64, chat: i64| #[trigger]
            r.bans@.contains((user, chat)) <==> removed.contains(user) && chats_or_none(
                chats,
            ).contains(chat),
        r.bans@.len() == removed.len() * chats_or_none(chats).len(),
        forall|i: int, j: int|
            #![trigger removed[i], chats_or_none(chats)[j]]
            0 <= i < removed.len() && 0 <= j < chats_or_none(chats).len() ==> r.bans@[i
                * chats_or_none(chats).len() + j] == (removed[i], chats_or_none(chats)[j]),
{
    let list = chats_or_none(chats);
    let bans = r.bans@;
    if removed.len() == 0 {
        assert(0 * list.len() == 0) by (nonlinear_arith);
    } else {
        lemma_pair_count(removed, list, removed.len());
    }
    assert forall|i: int, j: int|
        #![trigger removed[i], list[j]]
        0 <= i < removed.len() && 0 <= j < list.len() implies bans[i * list.len() + j] == (
    removed[i], list[j]) by {
        lemma_pair_at(removed, list, removed.len(), i, j);
    }
    assert forall|user: i64, chat: i64| #[trigger]
        bans.contains((user, chat)) <==> removed.contains(user) && list.contains(chat) by {
        if bans.contains((user, chat)) {
            let k = choose|k: int| 0 <= k < bans.len() && bans[k] == (user, chat);
            lemma_pairs_only(removed, list, removed.len(), k);
        }
        if removed.contains(user) && list.contains(chat) {
            let i = choose|i: int| 0 <= i < removed.len() && removed[i] == user;
            let j = choose|j: int| 0 <= j < list.len() && list[j] == chat;
            lemma_pair_at(removed, list, removed.len(), i, j);
            lemma_index(i, j, list.len() as int);
            assert(bans[i * list.len() + j] == (user, chat));
        }
    }
}

proof fn lemma_index(i: int, j: int, m: int)
    by (nonlinear_arith)
    requires
        0 <= i,
        0 <= j < m,
    ensures
        0 <= i * m + j,
{
}

/// A user whose every payment has run out is removed and banned from every chat of the
/// list, and told of it; one with a payment that has not is neither removed, nor banned,
/// nor told. The records are those of the ledger: each names a user and when what they
/// paid for ends.
pub proof fn pruning_goes_by_the_payments(
    r: Pruning,
    ledger: Option<Seq<char>>,
    subscribers: Option<Seq<SubscriberView>>,
    chats: Option<Seq<char>>,
    now: u64,
    user: i64,
    end: u64,
    i: int,
)
    requires
        removes_expired(r.removed@, latest_expiries(ledger_items(ledger)), now),
        is_pruning_of(r, r.removed@, ledger, subscribers, chats),
        0 <= i < ledger_items(ledger).len(),
        ledger_items(ledger)[i] is Object,
        ledger_items(ledger)[i]->Object_0.contains_key("user_id"@),
        ledger_items(ledger)[i]->Object_0["user_id"@] == JsonView::Integer(user as int),
        ledger_items(ledger)[i]->Object_0.contains_key("expires_at"@),
        ledger_items(ledger)[i]->Object_0["expires_at"@] == JsonView::Integer(end as int),
    ensures
        end > now ==> !r.removed@.contains(user),
        end > now ==> forall|chat: i64| !(#[trigger] r.bans@.contains((user, chat))),
        end > now ==> !r.notices.deep_view().contains(plain_view(user, REMOVAL_TEXT@)),
        (forall|k: int|
            0 <= k < ledger_items(ledger).len() && record_user(#[trigger] ledger_items(ledger)[k])
                == Some(user) && record_expiry(ledger_items(ledger)[k]) is Some ==> record_expiry(
                ledger_items(ledger)[k],
            )->0 <= now) ==> {
            &&& r.removed@.contains(user)
            &&& forall|chat: i64| #[trigger]
                chats_or_none(chats).contains(chat) ==> r.bans@.contains((user, chat))
            &&& r.notices.deep_view().contains(plain_view(user, REMOVAL_TEXT@))
        },
{
    let records = ledger_items(ledger);
    let latest = latest_expiries(records);
    let removed = r.removed@;
    latest_expiry_is_the_maximum(records, user);
    removed_users_are_banned_everywhere(r, removed, ledger, subscribers, chats);
    assert(record_user(records[i]) == Some(user));
    assert(record_expiry(records[i]) == Some(end));
    if end > now {
        assert(!removed.contains(user));
        let told = r.notices.deep_view();
        if told.contains(plain_view(user, REMOVAL_TEXT@)) {
            let k = choose|k: int|
                0 <= k < told.len() && told[k] == plain_view(user, REMOVAL_TEXT@);
            assert(removed[k] == user);
        }
    }
    if removed.contains(user) {
        let k = choose|k: int| 0 <= k < removed.len() && removed[k] == user;
        assert(r.notices.deep_view()[k] == plain_view(user, REMOVAL_TEXT@));
    }
}

// ---------------------------------------------------------------------------
// The chats of a list
// ---------------------------------------------------------------------------

/// A number stands for the chat of that id, within any white space.
pub proof fn numbers_are_chats(id: i64)
    ensures
        chat_of(int_text(id as int)) == Some(id),
        chat_of(seq![' '] + int_text(id as int)) == Some(id),
        chat_of(int_text(id as int).push(' ')) == Some(id),
        chat_of(Seq::<char>::empty()) is None,
{
    let s = int_text(id as int);
    int_text_parses_back(id);
    int_text_is_digits(id as int);
    trim_leaves_trimmed(s, CharKind::Space);
    let left = seq![' '] + s;
    assert(left.drop_first() =~= s);
    assert(trim_start_text(s, CharKind::Space) == s);
    let right = s.push(' ');
    assert(right[0] == s[0]);
    assert(right.drop_last() =~= s);
    assert(trim_end_text(s, CharKind::Space) == s);
}

/// A number in quotes, or with other characters around it that are neither numeric nor a
/// minus sign, stands for that chat as well.
pub proof fn quoted_numbers_are_chats(id: i64)
    requires
        forall|c: char| is_digit(c) ==> #[trigger] numeric_char(c),
        !numeric_char('"'),
    ensures
        chat_of(seq!['"'] + int_text(id as int).push('"')) == Some(id),
{
    let s = int_text(id as int);
    int_text_parses_back(id);
    int_text_is_digits(id as int);
    let quoted = seq!['"'] + s.push('"');
    assert(quoted[0] == '"' && quoted.last() == '"');
    trim_leaves_trimmed(quoted, CharKind::Space);
    only_digits_spell_numbers(quoted, 0);
    assert(quoted.drop_first() =~= s.push('"'));
    assert(!CharKind::Foreign.holds(s[0]));
    assert(s.push('"')[0] == s[0]);
    assert(trim_start_text(s.push('"'), CharKind::Foreign) == s.push('"'));
    assert(CharKind::Foreign.holds(quoted[0]));
    assert(trim_start_text(quoted, CharKind::Foreign) == s.push('"'));
    assert(s.push('"').drop_last() =~= s);
    assert(numeric_char(s.last()));
    assert(trim_end_text(s, CharKind::Foreign) == s);
}

/// The first `n` ids, each behind the one before and a separator.
pub open spec fn chats_text(ids: Seq<i64>, separator: char, n: nat) -> Seq<char>
    decreases n,
{
    if n == 0 {
        seq![]
    } else if n == 1 {
        int_text(ids[0] as int)
    } else {
        chats_text(ids, separator, (n - 1) as nat).push(separator) + int_text(ids[n - 1] as int)
    }
}

proof fn lemma_parts_of(ids: Seq<i64>, parts: Seq<Seq<char>>, n: nat)
    requires
        n <= ids.len() == parts.len(),
        forall|i: int| 0 <= i < ids.len() ==> #[trigger] parts[i] == int_text(ids[i] as int),
    ensures
        chats_of_parts(parts, n) == ids.take(n as int),
    decreases n,
{
    if n == 0 {
        assert(ids.take(0) =~= seq![]);
    } else {
        lemma_parts_of(ids, parts, (n - 1) as nat);
        numbers_are_chats(ids[n - 1]);
        assert(parts[n - 1] == int_text(ids[n - 1] as int));
        assert(ids.take(n as int) =~= ids.take(n - 1).push(ids[n - 1]));
    }
}

proof fn lemma_split_ids(ids: Seq<i64>, separator: char, n: nat)
    requires
        0 < n <= ids.len(),
        separator == ',' || separator == ';',
    ensures
        split_text(chats_text(ids, separator, n), CharKind::CommaOrSemicolon) == Seq::new(
            n,
            |i: int| int_text(ids[i] as int),
        ),
        chats_text(ids, separator, n).len() > 0,
        has_none(chats_text(ids, separator, n), CharKind::LineFeed),
    decreases n,
{
    let kind = CharKind::CommaOrSemicolon;
    let last = int_text(ids[n - 1] as int);
    int_text_is_digits(ids[n - 1] as int);
    assert(has_none(last, kind));
    assert(has_none(last, CharKind::LineFeed));
    split_of_first(last, ',', Seq::empty(), kind);
    let text = chats_text(ids, separator, n);
    if n == 1 {
        assert(split_text(text, kind) =~= Seq::new(n, |i: int| int_text(ids[i] as int)));
    } else {
        let before = chats_text(ids, separator, (n - 1) as nat);
        lemma_split_ids(ids, separator, (n - 1) as nat);
        split_of_last(before, separator, last, kind);
        assert(split_text(text, kind) =~= Seq::new(n, |i: int| int_text(ids[i] as int)));
        assert forall|i: int| 0 <= i < text.len() implies !CharKind::LineFeed.holds(
            #[trigger] text[i],
        ) by {
            if i < before.len() {
                assert(text[i] == before[i]);
            } else if i > before.len() {
                assert(text[i] == last[i - before.len() - 1]);
            }
        }
    }
}

/// A list of ids on one line, behind commas or semicolons, is read as those ids, all of them
/// and in order, with or without a line feed at its end.
pub proof fn listed_chats_are_read(ids: Seq<i64>, separator: char)
    requires
        ids.len() > 0,
        separator == ',' || separator == ';',
    ensures
        target_chats(chats_text(ids, separator, ids.len())) == ids,
        target_chats(chats_text(ids, separator, ids.len()).push('\n')) == ids,
        chats_or_none(Some(chats_text(ids, separator, ids.len()))) == ids,
        chats_or_none(None).len() == 0,
{
    let kind = CharKind::CommaOrSemicolon;
    let text = chats_text(ids, separator, ids.len());
    let parts = split_text(text, kind);
    lemma_split_ids(ids, separator, ids.len());
    lemma_parts_of(ids, parts, ids.len());
    assert(ids.take(ids.len() as int) =~= ids);
    lemma_last_is_digit(ids, separator, ids.len());
    lines_end_either_way(text, Seq::empty());
    assert(text.push('\n') + Seq::<char>::empty() =~= text.push('\n'));
    assert(lines_text(text.push('\n')) =~= seq![text]);
    assert(lines_text(text) == seq![text]);
    reveal_with_fuel(chats_of_lines, 2);
    assert(target_chats(text) =~= ids);
    assert(target_chats(text.push('\n')) =~= ids);
}

proof fn lemma_last_is_digit(ids: Seq<i64>, separator: char, n: nat)
    requires
        0 < n <= ids.len(),
    ensures
        is_digit(chats_text(ids, separator, n).last()),
{
    int_text_is_digits(ids[n - 1] as int);
    if n > 1 {
        assert(chats_text(ids, separator, n).last() == int_text(ids[n - 1] as int).last());
    }
}

/// One id to a line is read as all of them, in order.
pub proof fn chats_on_lines_are_read(text: Seq<char>, id: i64)
    requires
        text.len() == 0 || text.last() == '\n',
    ensures
        target_chats(text + int_text(id as int).push('\n')) == target_chats(text).push(id),
        target_chats(text + seq!['\n']) == target_chats(text),
        target_chats(Seq::<char>::empty()).len() == 0,
{
    let s = int_text(id as int);
    let none = Seq::<char>::empty();
    int_text_is_digits(id as int);
    assert(has_none(s, CharKind::LineFeed));
    lines_of_added(text, s);
    lines_of_added(text, none);
    assert(none.push('\n') =~= seq!['\n']);
    assert(has_none(s, CharKind::CommaOrSemicolon));
    split_of_first(s, ',', none, CharKind::CommaOrSemicolon);
    split_of_first(none, ',', none, CharKind::CommaOrSemicolon);
    numbers_are_chats(id);
    let lines = lines_text(text);
    lemma_more_lines(lines, s, lines.len());
    lemma_more_lines(lines, none, lines.len());
    reveal_with_fuel(chats_of_parts, 2);
    assert(chats_of_parts(seq![s], 1) =~= seq![id]);
    assert(chats_of_parts(seq![none], 1) =~= Seq::<i64>::empty());
    assert(target_chats(text) + seq![id] =~= target_chats(text).push(id));
    assert(target_chats(text) + Seq::<i64>::empty() =~= target_chats(text));
}

proof fn lemma_more_lines(lines: Seq<Seq<char>>, line: Seq<char>, n: nat)
    requires
        n <= lines.len(),
    ensures
        chats_of_lines(lines.push(line), n) == chats_of_lines(lines, n),
    decreases n,
{
    if n > 0 {
        lemma_more_lines(lines, line, (n - 1) as nat);
        assert(lines.push(line)[n - 1] == lines[n - 1]);
    }
}

/// Everyone who is removed leaves the list of subscribers, and everyone else stays on it;
/// where nobody is removed it is not written. Nothing is said of a list that is not there.
pub proof fn removed_users_leave_the_list(
    r: Pruning,
    removed: Seq<i64>,
    ledger: Option<Seq<char>>,
    subs: Seq<SubscriberView>,
    chats: Option<Seq<char>>,
    s: SubscriberView,
)
    requires
        is_pruning_of(r, removed, ledger, Some(subs), chats),
    ensures
        r.subscribers is Some <==> removed.len() > 0,
        r.subscribers is Some ==> (r.subscribers.deep_view()->0.contains(s) <==> subs.contains(s)
            && !removed.contains(s.user_id)),
        r.ledger is Some <==> removed.len() > 0 && ledger is Some,
        r.notices@.len() == removed.len(),
{
    if removed.len() > 0 {
        lemma_stays(subs, removed, s);
        assert(r.notices.deep_view().len() == removed.len());
    }
}

proof fn lemma_stays(subs: Seq<SubscriberView>, removed: Seq<i64>, s: SubscriberView)
    ensures
        subscribers_without(subs, removed).contains(s) <==> subs.contains(s) && !removed.contains(
            s.user_id,
        ),
    decreases subs.len(),
{
    reveal(Seq::filter);
    let kept = subscribers_without(subs, removed);
    if subs.len() > 0 {
        let rest = subs.drop_last();
        let before = subscribers_without(rest, removed);
        lemma_stays(rest, removed, s);
        if before.contains(s) {
            let k = choose|k: int| 0 <= k < before.len() && before[k] == s;
            assert(kept[k] == s);
            let i = choose|i: int| 0 <= i < rest.len() && rest[i] == s;
            assert(subs[i] == s);
        }
        if subs.last() == s && !removed.contains(s.user_id) {
            assert(kept[kept.len() - 1] == s);
            assert(subs[subs.len() - 1] == s);
        }
        if kept.contains(s) && !before.contains(s) {
            assert(subs[subs.len() - 1] == s);
        }
        if subs.contains(s) {
            let i = choose|i: int| 0 <= i < subs.len() && subs[i] == s;
            if i < rest.len() {
                assert(rest[i] == s);
            }
        }
    }
}

} // verus!
