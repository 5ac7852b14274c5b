//! Copying the whole history of a chat to another.
use crate::history::{
    ascends, every_text_is_copied, texts_are_of_the_messages, texts_ascend, texts_of_both,
    texts_only, with_texts, HistoryMessage, HistoryView,
};
use crate::sorting::Duplicate;
use std::collections::HashMap;
use vstd::prelude::*;

verus! {

/// How many messages are asked for at once.
pub const BATCH_LIMIT: usize = 100;

/// How long to wait between two batches, in milliseconds.
pub const BATCH_DELAY_MS: u64 = 200;

/// After how many copied messages there is a longer pause.
pub const BATCH_PAUSE_COUNT: usize = 200;

/// How long that pause is, in seconds.
pub const BATCH_PAUSE_SECONDS: u64 = 20;

// ---------------------------------------------------------------------------
// Collecting
// ---------------------------------------------------------------------------

/// How collecting goes on after a batch.
#[derive(Debug, Clone, Copy, PartialEq, Eq)]
pub enum Collected {
    /// The batch was empty: there is no more.
    Ended,
    /// After a pause, there is no more to ask for.
    Last,
    /// After a pause, ask for what is older than this id.
    More { offset_id: i32 },
}

/// The least id of the first `n` messages, of which there is one at least.
pub open spec fn least_id(messages: Seq<HistoryView>, n: nat) -> i32
    decreases n,
{
    if n <= 1 {
        messages[0].id
    } else {
        let before = least_id(messages, (n - 1) as nat);
        if messages[n - 1].id < before {
            messages[n - 1].id
        } else {
            before
        }
    }
}

/// How collecting goes on after a batch: a full one is followed by another, which is
/// older than its oldest message.
pub open spec fn after_batch(batch: Seq<HistoryView>) -> Collected {
    if batch.len() == 0 {
        Collected::Ended
    } else if batch.len() < BATCH_LIMIT {
        Collected::Last
    } else {
        Collected::More { offset_id: least_id(batch, batch.len()) }
    }
}

/// Adds a batch to what was collected.
pub fn collect(all: &mut Vec<HistoryMessage>, batch: &Vec<HistoryMessage>) -> (r: Collected)
    ensures
        final(all).deep_view() == old(all).deep_view() + batch.deep_view(),
        r == after_batch(batch.deep_view()),
{
    let ghost before = all.deep_view();
    let ghost views = batch.deep_view();
    let mut least: Option<i32> = None;
    assert(all.deep_view() =~= before + views.take(0));
    for i in 0..batch.len()
        invariant
            views == batch.deep_view(),
            all.deep_view() == before + views.take(i as int),
            i == 0 ==> least is None,
            i > 0 ==> least == Some(least_id(views, i as nat)),
    {
        assert(views[i as int] == batch@[i as int].deep_view());
        let id = batch[i].id;
        least = match least {
            Some(min) => if id < min {
                Some(id)
            } else {
                Some(min)
            },
            None => Some(id),
        };
        let ghost had = all.deep_view();
        let m = batch[i].duplicate();
        all.push(m);
        assert(all.deep_view() =~= had.push(views[i as int]));
        assert(had.push(views[i as int]) =~= before + views.take(i + 1));
    }
    assert(views.take(views.len() as int) =~= views);
    match least {
        None => Collected::Ended,
        Some(offset_id) => if batch.len() < BATCH_LIMIT {
            Collected::Last
        } else {
            Collected::More { offset_id }
        },
    }
}

/// What is copied of what was collected, the newest first: the messages with text, the
/// oldest first.
pub open spec fn copy_order(all: Seq<HistoryView>) -> Seq<HistoryView> {
    with_texts(all.reverse())
}

/// What is copied of what was collected.
pub fn sync_history(all: &Vec<HistoryMessage>) -> (r: Vec<HistoryMessage>)
    ensures
        r.deep_view() == copy_order(all.deep_view()),
{
    let ghost views = all.deep_view();
    let mut out: Vec<HistoryMessage> = Vec::new();
    for i in 0..all.len()
        invariant
            views == all.deep_view(),
            out@.len() == i,
            forall|j: int|
                0 <= j < i ==> (#[trigger] out@[j]).deep_view() == views[views.len() - 1 - j],
    {
        let k: usize = all.len() - 1 - i;
        assert(views[k as int] == all@[k as int].deep_view());
        out.push(all[k].duplicate());
    }
    assert(out.deep_view() =~= views.reverse());
    texts_only(&out)
}

// ---------------------------------------------------------------------------
// Copying
// ---------------------------------------------------------------------------

/// The id that tells apart the attempts to send a message: of the clock, in nanoseconds,
/// and of the message.
pub fn random_id(nanos: i64, id: i32) -> (r: i64)
    ensures
        r == nanos ^ (id as i64),
{
    nanos ^ (id as i64)
}

/// How far copying has come.
pub struct Progress {
    /// Which message a message became.
    pub old_to_new: HashMap<i32, i32>,
    pub copied: usize,
}

/// How far copying has come.
pub struct ProgressView {
    pub old_to_new: Map<i32, i32>,
    pub copied: usize,
}

impl View for Progress {
    type V = ProgressView;

    open spec fn view(&self) -> ProgressView {
        ProgressView { old_to_new: self.old_to_new@, copied: self.copied }
    }
}

/// Copying once a message was sent, given the message that it became if that is known.
pub open spec fn progressed(p: ProgressView, id: i32, became: Option<i32>) -> ProgressView {
    match became {
        Some(new) => ProgressView {
            old_to_new: p.old_to_new.insert(id, new),
            copied: (p.copied + 1) as usize,
        },
        None => p,
    }
}

/// Whether there is a longer pause after a message.
pub open spec fn is_pause_due(copied: usize) -> bool {
    copied > 0 && copied as int % BATCH_PAUSE_COUNT as int == 0
}

impl Progress {
    /// Copying before the first message.
    pub fn start() -> (r: Progress)
        ensures
            r@.old_to_new == Map::<i32, i32>::empty(),
            r@.copied == 0,
    {
        Progress { old_to_new: HashMap::new(), copied: 0 }
    }

    /// Records that a message was sent, and which it became if that is known. Says whether
    /// there is a longer pause.
    pub fn sent(&mut self, id: i32, became: Option<i32>) -> (pause: bool)
        requires
            old(self)@.copied < usize::MAX,
        ensures
            final(self)@ == progressed(old(self)@, id, became),
            pause == is_pause_due(final(self)@.copied),
    {
        broadcast use vstd::std_specs::hash::group_hash_axioms;

        match became {
            Some(new) => {
                self.old_to_new.insert(id, new);
                self.copied = self.copied + 1;
            },
            None => {},
        }
        self.copied > 0 && self.copied % BATCH_PAUSE_COUNT == 0
    }
}

// ---------------------------------------------------------------------------
// Laws
// ---------------------------------------------------------------------------

/// The next batch is older than every message of the last one.
pub proof fn offset_is_the_oldest(batch: Seq<HistoryView>, n: nat)
    requires
        0 < n <= batch.len(),
    ensures
        forall|i: int| 0 <= i < n ==> least_id(batch, n) <= (#[trigger] batch[i]).id,
        exists|i: int| 0 <= i < n && (#[trigger] batch[i]).id == least_id(batch, n),
    decreases n,
{
    if n == 1 {
        assert(batch[0].id == least_id(batch, n));
    } else {
        offset_is_the_oldest(batch, (n - 1) as nat);
        let i = choose|i: int|
            0 <= i < n - 1 && (#[trigger] batch[i]).id == least_id(batch, (n - 1) as nat);
        if batch[n - 1].id < batch[i].id {
            assert(batch[n - 1].id == least_id(batch, n));
        } else {
            assert(batch[i].id == least_id(batch, n));
        }
    }
}

/// Whether the ids do not ascend.
pub open spec fn descends(messages: Seq<HistoryView>) -> bool {
    forall|i: int, j: int|
        0 <= i < j < messages.len() ==> (#[trigger] messages[i]).id >= (#[trigger] messages[j]).id
}

/// History that was collected newest first is copied oldest first.
pub proof fn history_is_copied_in_order(all: Seq<HistoryView>)
    requires
        descends(all),
    ensures
        ascends(copy_order(all)),
{
    let reversed = all.reverse();
    assert forall|i: int, j: int| 0 <= i < j < reversed.len() implies (#[trigger] reversed[i]).id
        <= (#[trigger] reversed[j]).id by {
        assert(all[all.len() - 1 - j].id >= all[all.len() - 1 - i].id);
    }
    texts_ascend(reversed);
}

/// Every message with text that was collected is copied, and nothing else.
pub proof fn history_is_copied_whole(all: Seq<HistoryView>, m: HistoryView)
    ensures
        copy_order(all).contains(m) <==> all.contains(m) && m.text.len() > 0,
{
    let reversed = all.reverse();
    if copy_order(all).contains(m) {
        let i = choose|i: int| 0 <= i < copy_order(all).len() && copy_order(all)[i] == m;
        texts_are_of_the_messages(reversed, i);
        let j = choose|j: int| 0 <= j < reversed.len() && reversed[j] == m;
        assert(all[all.len() - 1 - j] == m);
    }
    if all.contains(m) && m.text.len() > 0 {
        let i = choose|i: int| 0 <= i < all.len() && all[i] == m;
        assert(reversed[all.len() - 1 - i] == m);
        every_text_is_copied(reversed, all.len() - 1 - i);
    }
}

/// Which message a message became is never forgotten while others are copied.
pub proof fn mapping_is_kept(p: ProgressView, id: i32, became: Option<i32>, other: i32)
    requires
        other != id,
    ensures
        progressed(p, id, became).old_to_new.contains_key(other) == p.old_to_new.contains_key(other),
        p.old_to_new.contains_key(other) ==> progressed(p, id, became).old_to_new[other]
            == p.old_to_new[other],
{
}

/// Collecting goes on after a full batch, of a hundred messages, with what is older than all
/// of it; after a smaller one there is no more.
pub proof fn full_batches_are_followed(batch: Seq<HistoryView>)
    ensures
        batch.len() == 0 ==> after_batch(batch) == Collected::Ended,
        0 < batch.len() < 100 ==> after_batch(batch) == Collected::Last,
        batch.len() >= 100 ==> (after_batch(batch) matches Collected::More { offset_id } && (forall|
            i: int,
        |
            0 <= i < batch.len() ==> offset_id <= (#[trigger] batch[i]).id) && exists|i: int|
            0 <= i < batch.len() && (#[trigger] batch[i]).id == offset_id),
{
    if batch.len() > 0 {
        offset_is_the_oldest(batch, batch.len());
    }
}

/// There is a longer pause after every two hundred messages that were copied, and at no other
/// time.
pub proof fn pauses_come_every_two_hundred(copied: usize, k: nat)
    ensures
        copied == 200 * k && k > 0 ==> is_pause_due(copied),
        200 * k < copied < 200 * (k + 1) ==> !is_pause_due(copied),
        !is_pause_due(0),
{
}

/// A message that was sent is counted where it is known which it became, and that is kept;
/// one of which it is not known is not.
pub proof fn known_copies_are_counted(p: ProgressView, id: i32, new: i32)
    requires
        p.copied < usize::MAX,
    ensures
        progressed(p, id, Some(new)).copied == p.copied + 1,
        progressed(p, id, Some(new)).old_to_new.contains_key(id),
        progressed(p, id, Some(new)).old_to_new[id] == new,
        progressed(p, id, None) == p,
{
}

/// Each message is copied as often as it was collected: of those with one id the same, in
/// the opposite order.
pub proof fn history_is_copied_as_collected(all: Seq<HistoryView>, m: HistoryView)
    requires
        m.text.len() > 0,
    ensures
        copy_order(all.push(m)) == seq![m] + copy_order(all),
        copy_order(Seq::<HistoryView>::empty()).len() == 0,
        copy_order(all).len() <= all.len(),
{
    let p = |m: HistoryView| m.text.len() > 0;
    assert(all.push(m).reverse() =~= seq![m] + all.reverse());
    texts_of_both(seq![m], all.reverse());
    reveal(Seq::filter);
    reveal_with_fuel(Seq::filter, 2);
    assert(seq![m].drop_last() =~= Seq::<HistoryView>::empty());
    assert(with_texts(seq![m]) =~= seq![m]);
    all.reverse().lemma_filter_len(p);
}

} // verus!
