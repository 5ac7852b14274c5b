//! Copying new messages from one chat to another.
use crate::history::{
    ascends, by_id, by_id_exists, by_id_keeps_messages, every_text_is_copied, of_id, sort_by_id,
    texts_are_of_the_messages, texts_ascend, texts_of_one_id, texts_only, with_texts,
    HistoryMessage, HistoryView,
};
use crate::sorting::Duplicate;
use std::collections::HashMap;
use vstd::prelude::*;

verus! {

/// How long to wait between two looks at the history, in milliseconds.
pub const POLL_INTERVAL_MS: u64 = 2000;

/// How many messages a look asks for.
pub const POLL_LIMIT: i32 = 50;

/// Whether a message is new. At the first look all are.
pub open spec fn is_fresh(m: HistoryView, last_seen: i32) -> bool {
    last_seen == 0 || m.id > last_seen
}

/// The new messages, in order.
pub open spec fn fresh(batch: Seq<HistoryView>, last_seen: i32) -> Seq<HistoryView> {
    batch.filter(|m: HistoryView| is_fresh(m, last_seen))
}

/// The greatest of an id and those of the first `n` messages.
pub open spec fn latest_id(messages: Seq<HistoryView>, last_seen: i32, n: nat) -> i32
    decreases n,
{
    if n == 0 {
        last_seen
    } else {
        let before = latest_id(messages, last_seen, (n - 1) as nat);
        if messages[n - 1].id > before {
            messages[n - 1].id
        } else {
            before
        }
    }
}

/// What a look at the history gives.
#[derive(Debug, Clone, PartialEq, Eq)]
pub struct Polled {
    /// The last id that was seen.
    pub last_seen: i32,
    /// What is to be copied, in order.
    pub messages: Vec<HistoryMessage>,
}

/// The last id that was seen after a look.
pub open spec fn seen_after(batch: Seq<HistoryView>, last_seen: i32) -> i32 {
    let new = fresh(batch, last_seen);
    latest_id(new, last_seen, new.len())
}

/// What is to be copied after a look: the new messages with text, the oldest first.
pub open spec fn copied_after(batch: Seq<HistoryView>, last_seen: i32) -> Seq<HistoryView> {
    with_texts(by_id(fresh(batch, last_seen)))
}

/// What a look at the history gives.
pub fn run_user_forward(last_seen: i32, batch: &Vec<HistoryMessage>) -> (r: Polled)
    ensures
        r.last_seen == seen_after(batch.deep_view(), last_seen),
        r.messages.deep_view() == copied_after(batch.deep_view(), last_seen),
{
    let ghost views = batch.deep_view();
    let mut new: Vec<HistoryMessage> = Vec::new();
    proof {
        reveal(Seq::filter);
        assert(new.deep_view() =~= fresh(views.take(0), last_seen));
    }
    for i in 0..batch.len()
        invariant
            views == batch.deep_view(),
            new.deep_view() == fresh(views.take(i as int), last_seen),
    {
        proof {
            reveal(Seq::filter);
            assert(views.take(i + 1).drop_last() =~= views.take(i as int));
            assert(views[i as int] == batch@[i as int].deep_view());
        }
        let ghost before = new.deep_view();
        if last_seen == 0 || batch[i].id > last_seen {
            new.push(batch[i].duplicate());
            assert(new.deep_view() =~= before.push(views[i as int]));
        }
    }
    assert(views.take(views.len() as int) =~= views);
    let ghost fresh_views = new.deep_view();
    let mut seen: i32 = last_seen;
    for i in 0..new.len()
        invariant
            fresh_views == new.deep_view(),
            seen == latest_id(fresh_views, last_seen, i as nat),
    {
        assert(fresh_views[i as int] == new@[i as int].deep_view());
        if new[i].id > seen {
            seen = new[i].id;
        }
    }
    Polled { last_seen: seen, messages: texts_only(&sort_by_id(&new)) }
}

// ---------------------------------------------------------------------------
// Answers
// ---------------------------------------------------------------------------

/// What is sent for a message.
#[derive(Debug, Clone, PartialEq, Eq)]
pub struct Outgoing {
    pub text: String,
    /// The message of the target that it answers.
    pub reply_to: Option<i32>,
}

/// What is sent for a message.
pub struct OutgoingView {
    pub text: Seq<char>,
    pub reply_to: Option<i32>,
}

impl DeepView for Outgoing {
    type V = OutgoingView;

    open spec fn deep_view(&self) -> OutgoingView {
        OutgoingView { text: self.text@, reply_to: self.reply_to }
    }
}

/// Which message of the target each message was copied to.
pub struct Copies {
    pub old_to_new: HashMap<i32, i32>,
}

impl View for Copies {
    type V = Map<i32, i32>;

    open spec fn view(&self) -> Map<i32, i32> {
        self.old_to_new@
    }
}

/// What is sent for a message: its text, as an answer to the copy of what it answers if
/// that was copied.
pub open spec fn copy_view(copies: Map<i32, i32>, m: HistoryView) -> OutgoingView {
    OutgoingView {
        text: m.text,
        reply_to: match m.reply_to {
            Some(id) => if copies.contains_key(id) && copies[id] > 0 {
                Some(copies[id])
            } else {
                None
            },
            None => None,
        },
    }
}

/// The copies once a message was sent, given the message that it became if that is known.
pub open spec fn recorded(copies: Map<i32, i32>, id: i32, became: Option<i32>) -> Map<i32, i32> {
    match became {
        Some(new) => copies.insert(id, new),
        None => copies,
    }
}

impl Copies {
    /// Before the first message is sent.
    pub fn start() -> (r: Copies)
        ensures
            r@ == Map::<i32, i32>::empty(),
    {
        Copies { old_to_new: HashMap::new() }
    }

    /// What is sent for a message.
    pub fn copy_of(&self, m: &HistoryMessage) -> (r: Outgoing)
        ensures
            r.deep_view() == copy_view(self@, m.deep_view()),
    {
        broadcast use vstd::std_specs::hash::group_hash_axioms;

        let reply_to = match m.reply_to {
            Some(id) => match self.old_to_new.get(&id) {
                Some(new) => if *new > 0 {
                    Some(*new)
                } else {
                    None
                },
                None => None,
            },
            None => None,
        };
        Outgoing { text: m.text.clone(), reply_to }
    }

    /// Records that a message was sent, and which it became if that is known.
    pub fn record(&mut self, id: i32, became: Option<i32>)
        ensures
            final(self)@ == recorded(old(self)@, id, became),
    {
        broadcast use vstd::std_specs::hash::group_hash_axioms;

        match became {
            Some(new) => {
                self.old_to_new.insert(id, new);
            },
            None => {},
        }
    }
}

// ---------------------------------------------------------------------------
// Laws
// ---------------------------------------------------------------------------

proof fn lemma_latest(messages: Seq<HistoryView>, last_seen: i32, n: nat)
    requires
        n <= messages.len(),
    ensures
        latest_id(messages, last_seen, n) >= last_seen,
        forall|i: int|
            0 <= i < n ==> (#[trigger] messages[i]).id <= latest_id(messages, last_seen, n),
    decreases n,
{
    if n > 0 {
        lemma_latest(messages, last_seen, (n - 1) as nat);
    }
}

proof fn lemma_fresh(batch: Seq<HistoryView>, last_seen: i32, i: int)
    requires
        0 <= i < fresh(batch, last_seen).len(),
    ensures
        is_fresh(fresh(batch, last_seen)[i], last_seen),
{
    batch.lemma_filter_pred(|m: HistoryView| is_fresh(m, last_seen), i);
}

/// The last id that was seen never decreases.
pub proof fn last_seen_never_decreases(batch: Seq<HistoryView>, last_seen: i32)
    ensures
        seen_after(batch, last_seen) >= last_seen,
{
    let new = fresh(batch, last_seen);
    lemma_latest(new, last_seen, new.len());
}

/// Nothing is copied twice: what a look gives is older than what every later look gives,
/// once a message was seen.
pub proof fn nothing_is_copied_twice(
    batch: Seq<HistoryView>,
    last_seen: i32,
    i: int,
    later: Seq<HistoryView>,
    since: i32,
    j: int,
)
    requires
        seen_after(batch, last_seen) <= since,
        since != 0,
        0 <= i < copied_after(batch, last_seen).len(),
        0 <= j < copied_after(later, since).len(),
    ensures
        copied_after(batch, last_seen)[i].id < copied_after(later, since)[j].id,
{
    let new = fresh(batch, last_seen);
    texts_are_of_the_messages(by_id(new), i);
    by_id_keeps_messages(new, copied_after(batch, last_seen)[i]);
    lemma_latest(new, last_seen, new.len());
    let newer = fresh(later, since);
    let n = copied_after(later, since)[j];
    texts_are_of_the_messages(by_id(newer), j);
    by_id_keeps_messages(newer, n);
    let k = choose|k: int| 0 <= k < newer.len() && newer[k] == n;
    lemma_fresh(later, since, k);
}

/// Every new message with text is copied.
pub proof fn every_new_text_comes(batch: Seq<HistoryView>, last_seen: i32, i: int)
    requires
        0 <= i < batch.len(),
        is_fresh(batch[i], last_seen),
        batch[i].text.len() > 0,
    ensures
        copied_after(batch, last_seen).contains(batch[i]),
{
    let new = fresh(batch, last_seen);
    batch.lemma_filter_contains(|m: HistoryView| is_fresh(m, last_seen), i);
    by_id_keeps_messages(new, batch[i]);
    let sorted = by_id(new);
    let k = choose|k: int| 0 <= k < sorted.len() && sorted[k] == batch[i];
    every_text_is_copied(sorted, k);
}

/// What is copied comes oldest first.
pub proof fn oldest_comes_first(batch: Seq<HistoryView>, last_seen: i32)
    ensures
        ascends(copied_after(batch, last_seen)),
{
    by_id_exists(fresh(batch, last_seen));
    texts_ascend(by_id(fresh(batch, last_seen)));
}

/// The copies once the first `n` of some messages were sent, each with the message that it
/// became if that is known.
pub open spec fn all_recorded(
    copies: Map<i32, i32>,
    sent: Seq<(i32, Option<i32>)>,
    n: nat,
) -> Map<i32, i32>
    decreases n,
{
    if n == 0 {
        copies
    } else {
        let (id, became) = sent[n - 1];
        recorded(all_recorded(copies, sent, (n - 1) as nat), id, became)
    }
}

proof fn lemma_kept(copies: Map<i32, i32>, sent: Seq<(i32, Option<i32>)>, n: nat, id: i32)
    requires
        n <= sent.len(),
        forall|i: int| 0 <= i < sent.len() ==> (#[trigger] sent[i]).0 != id,
        copies.contains_key(id),
    ensures
        all_recorded(copies, sent, n).contains_key(id),
        all_recorded(copies, sent, n)[id] == copies[id],
    decreases n,
{
    if n > 0 {
        lemma_kept(copies, sent, (n - 1) as nat, id);
        assert(sent[n - 1].0 != id);
    }
}

/// A message that answers another is copied as an answer to the copy of that one, however
/// many messages were copied in between.
pub proof fn answers_follow_their_message(
    copies: Map<i32, i32>,
    id: i32,
    new: i32,
    later: Seq<(i32, Option<i32>)>,
    m: HistoryView,
)
    requires
        new > 0,
        forall|i: int| 0 <= i < later.len() ==> (#[trigger] later[i]).0 != id,
        m.reply_to == Some(id),
    ensures
        copy_view(all_recorded(recorded(copies, id, Some(new)), later, later.len()), m) == (
        OutgoingView { text: m.text, reply_to: Some(new) }),
{
    lemma_kept(recorded(copies, id, Some(new)), later, later.len(), id);
}

/// A message that answers none, or one that was not copied, is copied as it is.
pub proof fn other_messages_answer_none(copies: Map<i32, i32>, m: HistoryView)
    requires
        m.reply_to matches Some(id) ==> !copies.contains_key(id),
    ensures
        copy_view(copies, m) == (OutgoingView { text: m.text, reply_to: None }),
{
}

proof fn lemma_among_fresh(batch: Seq<HistoryView>, last_seen: i32, m: HistoryView)
    ensures
        fresh(batch, last_seen).contains(m) <==> batch.contains(m) && (last_seen == 0 || m.id
            > last_seen),
{
    let new = fresh(batch, last_seen);
    if batch.contains(m) && (last_seen == 0 || m.id > last_seen) {
        let i = choose|i: int| 0 <= i < batch.len() && batch[i] == m;
        batch.lemma_filter_contains(|m: HistoryView| is_fresh(m, last_seen), i);
    }
    if new.contains(m) {
        let i = choose|i: int| 0 <= i < new.len() && new[i] == m;
        lemma_fresh(batch, last_seen, i);
        lemma_filtered(batch, last_seen, i);
    }
}

proof fn lemma_filtered(batch: Seq<HistoryView>, last_seen: i32, i: int)
    requires
        0 <= i < fresh(batch, last_seen).len(),
    ensures
        batch.contains(fresh(batch, last_seen)[i]),
    decreases batch.len(),
{
    reveal(Seq::filter);
    let rest = batch.drop_last();
    if i < fresh(rest, last_seen).len() {
        lemma_filtered(rest, last_seen, i);
        let j = choose|j: int| 0 <= j < rest.len() && rest[j] == fresh(rest, last_seen)[i];
        assert(batch[j] == rest[j]);
    } else {
        assert(batch[batch.len() - 1] == fresh(batch, last_seen)[i]);
    }
}

/// What is copied are the messages of the batch that have text and an id above the last
/// one seen, whatever they answer; at the first look, when none was seen, all that have
/// text.
pub proof fn copied_by_id_and_text(batch: Seq<HistoryView>, last_seen: i32, m: HistoryView)
    ensures
        copied_after(batch, last_seen).contains(m) <==> batch.contains(m) && m.text.len() > 0 && (
        m.id > last_seen || last_seen == 0),
{
    let new = fresh(batch, last_seen);
    let sorted = by_id(new);
    let copied = copied_after(batch, last_seen);
    lemma_among_fresh(batch, last_seen, m);
    by_id_keeps_messages(new, m);
    if copied.contains(m) {
        let i = choose|i: int| 0 <= i < copied.len() && copied[i] == m;
        texts_are_of_the_messages(sorted, i);
    }
    if sorted.contains(m) && m.text.len() > 0 {
        let i = choose|i: int| 0 <= i < sorted.len() && sorted[i] == m;
        every_text_is_copied(sorted, i);
    }
}

proof fn lemma_latest_is_one(messages: Seq<HistoryView>, last_seen: i32, n: nat)
    requires
        n <= messages.len(),
    ensures
        latest_id(messages, last_seen, n) == last_seen || exists|i: int|
            0 <= i < n && (#[trigger] messages[i]).id == latest_id(messages, last_seen, n),
    decreases n,
{
    if n > 0 {
        lemma_latest_is_one(messages, last_seen, (n - 1) as nat);
        if messages[n - 1].id > latest_id(messages, last_seen, (n - 1) as nat) {
            assert(messages[n - 1].id == latest_id(messages, last_seen, n));
        } else if latest_id(messages, last_seen, n) != last_seen {
            let i = choose|i: int|
                0 <= i < n - 1 && (#[trigger] messages[i]).id == latest_id(
                    messages,
                    last_seen,
                    (n - 1) as nat,
                );
            assert(messages[i].id == latest_id(messages, last_seen, n));
        }
    }
}

/// The last id seen is the greatest of the one before and all ids in the batch, with text
/// or without.
pub proof fn last_seen_is_the_greatest(batch: Seq<HistoryView>, last_seen: i32)
    ensures
        seen_after(batch, last_seen) >= last_seen,
        forall|i: int|
            0 <= i < batch.len() ==> (#[trigger] batch[i]).id <= seen_after(batch, last_seen),
        seen_after(batch, last_seen) == last_seen || exists|i: int|
            0 <= i < batch.len() && (#[trigger] batch[i]).id == seen_after(batch, last_seen),
{
    let new = fresh(batch, last_seen);
    lemma_latest(new, last_seen, new.len());
    lemma_latest_is_one(new, last_seen, new.len());
    assert forall|i: int| 0 <= i < batch.len() implies (#[trigger] batch[i]).id <= seen_after(
        batch,
        last_seen,
    ) by {
        lemma_among_fresh(batch, last_seen, batch[i]);
        if batch[i].id > last_seen {
            assert(new.contains(batch[i]));
            let k = choose|k: int| 0 <= k < new.len() && new[k] == batch[i];
            assert(new[k].id <= latest_id(new, last_seen, new.len()));
        }
    }
    if seen_after(batch, last_seen) != last_seen {
        let k = choose|k: int|
            0 <= k < new.len() && (#[trigger] new[k]).id == latest_id(new, last_seen, new.len());
        lemma_filtered(batch, last_seen, k);
        let i = choose|i: int| 0 <= i < batch.len() && batch[i] == new[k];
        assert(batch[i].id == seen_after(batch, last_seen));
    }
}

/// Of the messages of one id that is new, those with text are copied, each as often as it is
/// in the batch and in the order in which they came; of an id that is not new, none.
pub proof fn each_is_copied_as_it_came(batch: Seq<HistoryView>, last_seen: i32, id: i32)
    ensures
        id > last_seen || last_seen == 0 ==> of_id(copied_after(batch, last_seen), id)
            == with_texts(of_id(batch, id)),
        !(id > last_seen || last_seen == 0) ==> of_id(copied_after(batch, last_seen), id).len()
            == 0,
{
    let new = fresh(batch, last_seen);
    by_id_exists(new);
    texts_of_one_id(by_id(new), id);
    lemma_fresh_of_id(batch, last_seen, id);
    assert(of_id(by_id(new), id) =~= of_id(new, id));
    if !(id > last_seen || last_seen == 0) {
        reveal(Seq::filter);
    }
}

proof fn lemma_fresh_of_id(batch: Seq<HistoryView>, last_seen: i32, id: i32)
    ensures
        id > last_seen || last_seen == 0 ==> of_id(fresh(batch, last_seen), id) == of_id(batch, id),
        !(id > last_seen || last_seen == 0) ==> of_id(fresh(batch, last_seen), id).len() == 0,
    decreases batch.len(),
{
    reveal(Seq::filter);
    if batch.len() > 0 {
        let rest = batch.drop_last();
        let m = batch.last();
        let before = fresh(rest, last_seen);
        lemma_fresh_of_id(rest, last_seen, id);
        if is_fresh(m, last_seen) {
            assert(before.push(m).drop_last() =~= before);
        }
    }
}

} // verus!
