//! Messages of a chat's history, their order, and the pace at which they are copied.
use crate::sorting::Duplicate;
use vstd::prelude::*;

verus! {

/// The least time between two messages that are sent: 200 ms, in nanoseconds.
pub const SEND_DELAY_NANOS: u64 = 200_000_000;

/// A message of a chat's history. Without text it is of a kind that is not copied.
#[derive(Debug, Clone, PartialEq, Eq)]
pub struct HistoryMessage {
    pub id: i32,
    pub text: String,
    /// The message of the same chat that it answers.
    pub reply_to: Option<i32>,
}

/// A message of a chat's history.
pub struct HistoryView {
    pub id: i32,
    pub text: Seq<char>,
    pub reply_to: Option<i32>,
}

impl DeepView for HistoryMessage {
    type V = HistoryView;

    open spec fn deep_view(&self) -> HistoryView {
        HistoryView { id: self.id, text: self.text@, reply_to: self.reply_to }
    }
}

impl Duplicate for HistoryMessage {
    fn duplicate(&self) -> (r: Self) {
        HistoryMessage { id: self.id, text: self.text.clone(), reply_to: self.reply_to }
    }
}

/// How long to wait before a message is sent, given the time since the last one; both in
/// nanoseconds.
pub open spec fn pause_after(elapsed: u128) -> int {
    if elapsed < SEND_DELAY_NANOS {
        SEND_DELAY_NANOS - elapsed
    } else {
        0
    }
}

/// How long to wait before a message is sent, given the time since the last one; both in
/// nanoseconds.
pub fn pause(elapsed: u128) -> (r: u64)
    ensures
        r == pause_after(elapsed),
{
    if elapsed < SEND_DELAY_NANOS as u128 {
        SEND_DELAY_NANOS - elapsed as u64
    } else {
        0
    }
}

/// Those of the messages that have text, in order.
pub open spec fn with_texts(messages: Seq<HistoryView>) -> Seq<HistoryView> {
    messages.filter(|m: HistoryView| m.text.len() > 0)
}

/// Those of the messages that have text, in order.
pub fn texts_only(messages: &Vec<HistoryMessage>) -> (r: Vec<HistoryMessage>)
    ensures
        r.deep_view() == with_texts(messages.deep_view()),
{
    let ghost views = messages.deep_view();
    let mut out: Vec<HistoryMessage> = Vec::new();
    proof {
        reveal(Seq::filter);
        assert(out.deep_view() =~= with_texts(views.take(0)));
    }
    for i in 0..messages.len()
        invariant
            views == messages.deep_view(),
            out.deep_view() == with_texts(views.take(i as int)),
    {
        proof {
            reveal(Seq::filter);
            assert(views.take(i + 1).drop_last() =~= views.take(i as int));
            assert(views[i as int] == messages@[i as int].deep_view());
        }
        let ghost before = out.deep_view();
        if !messages[i].text.as_str().is_empty() {
            out.push(messages[i].duplicate());
            assert(out.deep_view() =~= before.push(views[i as int]));
        }
    }
    assert(views.take(views.len() as int) =~= views);
    out
}

// ---------------------------------------------------------------------------
// Order
// ---------------------------------------------------------------------------

/// The messages with a given id, in order.
pub open spec fn of_id(messages: Seq<HistoryView>, id: i32) -> Seq<HistoryView> {
    messages.filter(|m: HistoryView| m.id == id)
}

/// Whether the ids do not descend.
pub open spec fn ascends(messages: Seq<HistoryView>) -> bool {
    forall|i: int, j: int|
        0 <= i < j < messages.len() ==> (#[trigger] messages[i]).id <= (#[trigger] messages[j]).id
}

/// Whether the result holds the messages by id, and messages of the same id in the order
/// in which they came.
pub open spec fn is_by_id(messages: Seq<HistoryView>, sorted: Seq<HistoryView>) -> bool {
    &&& ascends(sorted)
    &&& forall|id: i32| #[trigger] of_id(sorted, id) =~= of_id(messages, id)
}

/// The messages by id, and messages of the same id in the order in which they came.
pub open spec fn by_id(messages: Seq<HistoryView>) -> Seq<HistoryView> {
    choose|sorted: Seq<HistoryView>| is_by_id(messages, sorted)
}

proof fn lemma_of_id_push(messages: Seq<HistoryView>, m: HistoryView, id: i32)
    ensures
        of_id(messages.push(m), id) == (if m.id == id {
            of_id(messages, id).push(m)
        } else {
            of_id(messages, id)
        }),
{
    reveal(Seq::filter);
    assert(messages.push(m).drop_last() =~= messages);
}

proof fn lemma_of_id_add(a: Seq<HistoryView>, b: Seq<HistoryView>, id: i32)
    ensures
        of_id(a + b, id) == of_id(a, id) + of_id(b, id),
    decreases b.len(),
{
    reveal(Seq::filter);
    if b.len() == 0 {
        assert(a + b =~= a);
        assert(of_id(a, id) + of_id(b, id) =~= of_id(a, id));
    } else {
        lemma_of_id_add(a, b.drop_last(), id);
        lemma_of_id_push(a + b.drop_last(), b.last(), id);
        lemma_of_id_push(b.drop_last(), b.last(), id);
        assert((a + b.drop_last()).push(b.last()) =~= a + b);
        assert(b.drop_last().push(b.last()) =~= b);
        assert(of_id(a, id) + of_id(b, id) =~= of_id(a + b, id));
    }
}

proof fn lemma_of_id_none(messages: Seq<HistoryView>, id: i32)
    requires
        forall|i: int| 0 <= i < messages.len() ==> (#[trigger] messages[i]).id != id,
    ensures
        of_id(messages, id).len() == 0,
    decreases messages.len(),
{
    reveal(Seq::filter);
    if messages.len() > 0 {
        lemma_of_id_none(messages.drop_last(), id);
    }
}

proof fn lemma_of_id_some(messages: Seq<HistoryView>, id: i32)
    requires
        of_id(messages, id).len() > 0,
    ensures
        exists|i: int| 0 <= i < messages.len() && (#[trigger] messages[i]).id == id,
{
    if forall|i: int| 0 <= i < messages.len() ==> (#[trigger] messages[i]).id != id {
        lemma_of_id_none(messages, id);
    }
}

/// There is only one way to have the messages by id.
pub proof fn by_id_is_unique(
    messages: Seq<HistoryView>,
    a: Seq<HistoryView>,
    b: Seq<HistoryView>,
)
    requires
        is_by_id(messages, a),
        is_by_id(messages, b),
    ensures
        a == b,
    decreases a.len(),
{
    assert forall|id: i32| #[trigger] of_id(a, id) == of_id(b, id) by {
        assert(of_id(b, id) == of_id(messages, id));
    }
    if a.len() == 0 {
        if b.len() > 0 {
            let m = b.last();
            lemma_of_id_push(b.drop_last(), m, m.id);
            assert(b.drop_last().push(m) =~= b);
            lemma_of_id_none(a, m.id);
        }
    } else {
        let x = a.last();
        assert(a.drop_last().push(x) =~= a);
        lemma_of_id_push(a.drop_last(), x, x.id);
        assert(of_id(b, x.id).len() > 0);
        lemma_of_id_some(b, x.id);
        let i = choose|i: int| 0 <= i < b.len() && (#[trigger] b[i]).id == x.id;
        let y = b.last();
        assert(b.drop_last().push(y) =~= b);
        lemma_of_id_push(b.drop_last(), y, y.id);
        assert(of_id(a, y.id).len() > 0);
        lemma_of_id_some(a, y.id);
        let j = choose|j: int| 0 <= j < a.len() && (#[trigger] a[j]).id == y.id;
        assert(a[j].id <= a[a.len() - 1].id);
        assert(b[i].id <= b[b.len() - 1].id);
        assert(x.id == y.id);
        assert(of_id(a, x.id).last() == x);
        assert(of_id(b, x.id).last() == y);
        let ra = a.drop_last();
        let rb = b.drop_last();
        assert forall|id: i32| #[trigger] of_id(rb, id) =~= of_id(ra, id) by {
            lemma_of_id_push(ra, x, id);
            lemma_of_id_push(rb, y, id);
            assert(of_id(a, id) == of_id(b, id));
            if id == x.id {
                assert(of_id(ra, id) =~= of_id(a, id).drop_last());
                assert(of_id(rb, id) =~= of_id(b, id).drop_last());
            }
        }
        by_id_is_unique(ra, ra, rb);
    }
}

proof fn lemma_inserted(
    messages: Seq<HistoryView>,
    sorted: Seq<HistoryView>,
    m: HistoryView,
    at: int,
)
    requires
        is_by_id(messages, sorted),
        0 <= at <= sorted.len(),
        forall|k: int| 0 <= k < at ==> (#[trigger] sorted[k]).id <= m.id,
        forall|k: int| at <= k < sorted.len() ==> (#[trigger] sorted[k]).id > m.id,
    ensures
        is_by_id(messages.push(m), sorted.take(at).push(m) + sorted.skip(at)),
{
    let low = sorted.take(at);
    let high = sorted.skip(at);
    let after = low.push(m) + high;
    assert(sorted =~= low + high);
    assert forall|id: i32| #[trigger] of_id(after, id) =~= of_id(messages.push(m), id) by {
        lemma_of_id_add(low.push(m), high, id);
        lemma_of_id_push(low, m, id);
        lemma_of_id_add(low, high, id);
        lemma_of_id_push(messages, m, id);
        assert(of_id(sorted, id) =~= of_id(messages, id));
        if id == m.id {
            lemma_of_id_none(high, id);
            assert(of_id(low, id).push(m) + of_id(high, id) =~= of_id(low, id).push(m));
            assert(of_id(low, id) + of_id(high, id) =~= of_id(low, id));
        }
    }
    assert forall|p: int, q: int| 0 <= p < q < after.len() implies (#[trigger] after[p]).id <= (
    #[trigger] after[q]).id by {
        if p < at {
            assert(after[p] == sorted[p]);
        } else if p > at {
            assert(after[p] == sorted[p - 1]);
        }
        if q < at {
            assert(after[q] == sorted[q]);
        } else if q > at {
            assert(after[q] == sorted[q - 1]);
        }
    }
}

proof fn lemma_place(sorted: Seq<HistoryView>, id: i32) -> (at: int)
    requires
        ascends(sorted),
    ensures
        0 <= at <= sorted.len(),
        forall|k: int| 0 <= k < at ==> (#[trigger] sorted[k]).id <= id,
        forall|k: int| at <= k < sorted.len() ==> (#[trigger] sorted[k]).id > id,
    decreases sorted.len(),
{
    if sorted.len() > 0 && sorted.last().id > id {
        let rest = sorted.drop_last();
        assert forall|i: int, j: int| 0 <= i < j < rest.len() implies (#[trigger] rest[i]).id <= (
        #[trigger] rest[j]).id by {
            assert(sorted[i].id <= sorted[j].id);
        }
        let at = lemma_place(rest, id);
        assert forall|k: int| 0 <= k < at implies (#[trigger] sorted[k]).id <= id by {
            assert(rest[k] == sorted[k]);
        }
        assert forall|k: int| at <= k < sorted.len() implies (#[trigger] sorted[k]).id > id by {
            if k < rest.len() {
                assert(rest[k] == sorted[k]);
            }
        }
        at
    } else {
        assert forall|k: int| 0 <= k < sorted.len() implies (#[trigger] sorted[k]).id <= id by {
            if k < sorted.len() - 1 {
                assert(sorted[k].id <= sorted[sorted.len() - 1].id);
            }
        }
        sorted.len() as int
    }
}

/// All messages can be had by id.
pub proof fn by_id_exists(messages: Seq<HistoryView>)
    ensures
        is_by_id(messages, by_id(messages)),
    decreases messages.len(),
{
    if messages.len() == 0 {
        assert(is_by_id(messages, messages));
    } else {
        let rest = messages.drop_last();
        let m = messages.last();
        by_id_exists(rest);
        let sorted = by_id(rest);
        let at = lemma_place(sorted, m.id);
        lemma_inserted(rest, sorted, m, at);
        assert(rest.push(m) =~= messages);
        assert(is_by_id(messages, sorted.take(at).push(m) + sorted.skip(at)));
    }
}

/// The messages by id.
pub fn sort_by_id(messages: &Vec<HistoryMessage>) -> (r: Vec<HistoryMessage>)
    ensures
        r.deep_view() == by_id(messages.deep_view()),
{
    let ghost views = messages.deep_view();
    let mut out: Vec<HistoryMessage> = Vec::new();
    assert(out.deep_view() =~= views.take(0));
    for i in 0..messages.len()
        invariant
            views == messages.deep_view(),
            is_by_id(views.take(i as int), out.deep_view()),
    {
        let ghost before = out.deep_view();
        let m = messages[i].duplicate();
        assert(views[i as int] == m.deep_view());
        let mut at: usize = out.len();
        while at > 0 && out[at - 1].id > m.id
            invariant
                at <= out@.len(),
                before == out.deep_view(),
                forall|k: int| at <= k < before.len() ==> (#[trigger] before[k]).id > m.id,
            decreases at,
        {
            assert(before[at - 1] == out@[at - 1].deep_view());
            at = at - 1;
        }
        proof {
            if at > 0 {
                assert(before[at - 1] == out@[at - 1].deep_view());
            }
            assert forall|k: int| 0 <= k < at implies (#[trigger] before[k]).id <= m.id by {
                if k < at - 1 {
                    assert(before[k].id <= before[at - 1].id);
                }
            }
            lemma_inserted(views.take(i as int), before, m.deep_view(), at as int);
        }
        out.insert(at, m);
        assert(out.deep_view() =~= before.take(at as int).push(m.deep_view()) + before.skip(
            at as int,
        ));
        assert(views.take(i + 1) =~= views.take(i as int).push(m.deep_view()));
    }
    proof {
        assert(views.take(views.len() as int) =~= views);
        by_id_is_unique(views, out.deep_view(), by_id(views));
    }
    out
}

/// Having messages by id neither loses nor adds any.
pub proof fn by_id_keeps_messages(messages: Seq<HistoryView>, m: HistoryView)
    ensures
        by_id(messages).contains(m) <==> messages.contains(m),
{
    let sorted = by_id(messages);
    by_id_exists(messages);
    assert(of_id(sorted, m.id) =~= of_id(messages, m.id));
    if sorted.contains(m) {
        lemma_of_id_contains(sorted, m);
        lemma_of_id_only(messages, m.id, m);
    }
    if messages.contains(m) {
        lemma_of_id_contains(messages, m);
        lemma_of_id_only(sorted, m.id, m);
    }
}

proof fn lemma_of_id_contains(messages: Seq<HistoryView>, m: HistoryView)
    requires
        messages.contains(m),
    ensures
        of_id(messages, m.id).contains(m),
{
    let i = choose|i: int| 0 <= i < messages.len() && messages[i] == m;
    messages.lemma_filter_contains(|x: HistoryView| x.id == m.id, i);
}

proof fn lemma_of_id_only(messages: Seq<HistoryView>, id: i32, m: HistoryView)
    requires
        of_id(messages, id).contains(m),
    ensures
        messages.contains(m),
    decreases messages.len(),
{
    reveal(Seq::filter);
    if messages.len() > 0 {
        let rest = messages.drop_last();
        if of_id(rest, id).contains(m) {
            lemma_of_id_only(rest, id, m);
            let i = choose|i: int| 0 <= i < rest.len() && rest[i] == m;
            assert(messages[i] == m);
        } else {
            assert(messages[messages.len() - 1] == m);
        }
    }
}

/// What is copied has text and was there.
pub proof fn texts_are_of_the_messages(messages: Seq<HistoryView>, i: int)
    requires
        0 <= i < with_texts(messages).len(),
    ensures
        with_texts(messages)[i].text.len() > 0,
        messages.contains(with_texts(messages)[i]),
    decreases messages.len(),
{
    reveal(Seq::filter);
    let rest = messages.drop_last();
    if i < with_texts(rest).len() {
        texts_are_of_the_messages(rest, i);
        let j = choose|j: int| 0 <= j < rest.len() && rest[j] == with_texts(rest)[i];
        assert(messages[j] == rest[j]);
    } else {
        assert(messages[messages.len() - 1] == with_texts(messages)[i]);
    }
}

/// Every message with text is copied.
pub proof fn every_text_is_copied(messages: Seq<HistoryView>, i: int)
    requires
        0 <= i < messages.len(),
        messages[i].text.len() > 0,
    ensures
        with_texts(messages).contains(messages[i]),
{
    messages.lemma_filter_contains(|m: HistoryView| m.text.len() > 0, i);
}

/// Leaving messages out keeps the order of the others.
pub proof fn texts_ascend(messages: Seq<HistoryView>)
    requires
        ascends(messages),
    ensures
        ascends(with_texts(messages)),
    decreases messages.len(),
{
    reveal(Seq::filter);
    if messages.len() > 0 {
        let rest = messages.drop_last();
        assert(ascends(rest)) by {
            assert forall|i: int, j: int| 0 <= i < j < rest.len() implies (#[trigger] rest[i]).id
                <= (#[trigger] rest[j]).id by {
                assert(messages[i].id <= messages[j].id);
            }
        }
        texts_ascend(rest);
        let before = with_texts(rest);
        let after = with_texts(messages);
        assert forall|i: int, j: int| 0 <= i < j < after.len() implies (#[trigger] after[i]).id
            <= (#[trigger] after[j]).id by {
            assert(after[i] == before[i]);
            if j < before.len() {
                assert(after[j] == before[j]);
            } else {
                texts_are_of_the_messages(rest, i);
                let k = choose|k: int| 0 <= k < rest.len() && rest[k] == before[i];
                assert(messages[k].id <= messages[messages.len() - 1].id);
            }
        }
    }
}

/// What is copied of two runs of messages is what is copied of one, and then of the other.
pub proof fn texts_of_both(a: Seq<HistoryView>, b: Seq<HistoryView>)
    ensures
        with_texts(a + b) == with_texts(a) + with_texts(b),
    decreases b.len(),
{
    reveal(Seq::filter);
    if b.len() == 0 {
        assert(a + b =~= a);
        assert(with_texts(a) + with_texts(b) =~= with_texts(a));
    } else {
        texts_of_both(a, b.drop_last());
        assert((a + b).drop_last() =~= a + b.drop_last());
        assert(with_texts(a + b) =~= with_texts(a) + with_texts(b));
    }
}

/// What is copied of the messages with one id is what has text among them, in order.
pub proof fn texts_of_one_id(messages: Seq<HistoryView>, id: i32)
    ensures
        of_id(with_texts(messages), id) == with_texts(of_id(messages, id)),
    decreases messages.len(),
{
    reveal(Seq::filter);
    if messages.len() > 0 {
        let rest = messages.drop_last();
        let m = messages.last();
        texts_of_one_id(rest, id);
        assert(rest.push(m) =~= messages);
        lemma_of_id_push(rest, m, id);
        if m.text.len() > 0 {
            lemma_of_id_push(with_texts(rest), m, id);
        }
        if m.id == id {
            assert(of_id(rest, id).push(m).drop_last() =~= of_id(rest, id));
        }
    } else {
        assert(of_id(with_texts(messages), id) =~= with_texts(of_id(messages, id)));
    }
}

/// No two messages are sent within a fifth of a second, and no longer is waited than that
/// takes.
pub proof fn messages_keep_their_distance(elapsed: u128)
    ensures
        elapsed + pause_after(elapsed) >= 200 * 1000 * 1000,
        pause_after(elapsed) > 0 ==> elapsed + pause_after(elapsed) == 200 * 1000 * 1000,
        pause_after(elapsed) >= 0,
{
}

} // verus!
