//! The order of texts and stable sorting by a text key.
use crate::text::{lowercase_text, to_chars};
use vstd::prelude::*;

verus! {

/// The order of texts: by their first different character, a shorter text before the
/// longer ones that it begins.
pub open spec fn text_le(a: Seq<char>, b: Seq<char>) -> bool
    decreases a.len(),
{
    if a.len() == 0 {
        true
    } else if b.len() == 0 {
        false
    } else if a[0] != b[0] {
        a[0] < b[0]
    } else {
        text_le(a.drop_first(), b.drop_first())
    }
}

/// Any two texts are ordered.
pub proof fn text_le_total(a: Seq<char>, b: Seq<char>)
    ensures
        text_le(a, b) || text_le(b, a),
    decreases a.len(),
{
    if a.len() > 0 && b.len() > 0 && a[0] == b[0] {
        text_le_total(a.drop_first(), b.drop_first());
    }
}

/// Two texts of which each is no later than the other are the same.
pub proof fn text_le_antisymmetric(a: Seq<char>, b: Seq<char>)
    requires
        text_le(a, b),
        text_le(b, a),
    ensures
        a == b,
    decreases a.len(),
{
    if a.len() > 0 && b.len() > 0 {
        text_le_antisymmetric(a.drop_first(), b.drop_first());
        assert(a =~= seq![a[0]] + a.drop_first());
        assert(b =~= seq![b[0]] + b.drop_first());
    } else {
        assert(a =~= b);
    }
}

/// The order of texts is transitive.
pub proof fn text_le_transitive(a: Seq<char>, b: Seq<char>, c: Seq<char>)
    requires
        text_le(a, b),
        text_le(b, c),
    ensures
        text_le(a, c),
    decreases a.len(),
{
    if a.len() > 0 && b.len() > 0 && c.len() > 0 && a[0] == b[0] && b[0] == c[0] {
        text_le_transitive(a.drop_first(), b.drop_first(), c.drop_first());
    }
}

/// Whether the first text is no later than the second.
pub fn is_text_le(a: &str, b: &str) -> (r: bool)
    ensures
        r == text_le(a@, b@),
{
    let x = to_chars(a);
    let y = to_chars(b);
    assert(x@.skip(0) =~= x@);
    assert(y@.skip(0) =~= y@);
    for i in 0..x.len()
        invariant
            x@ == a@,
            y@ == b@,
            i <= y@.len(),
            text_le(x@.skip(i as int), y@.skip(i as int)) == text_le(a@, b@),
    {
        assert(x@.skip(i as int).drop_first() =~= x@.skip(i + 1));
        if i == y.len() {
            return false;
        }
        assert(y@.skip(i as int).drop_first() =~= y@.skip(i + 1));
        if x[i] != y[i] {
            return x[i] < y[i];
        }
    }
    true
}

/// Whether `order` lists each index below `n` once.
pub open spec fn is_permutation(order: Seq<int>, n: nat) -> bool {
    &&& order.len() == n
    &&& forall|i: int| 0 <= i < n ==> 0 <= #[trigger] order[i] < n
    &&& forall|i: int, j: int| 0 <= i < j < n ==> #[trigger] order[i] != #[trigger] order[j]
}

/// Whether `order` lists indices by their keys, and equal keys by their place.
pub open spec fn is_stable_order(order: Seq<int>, keys: Seq<Seq<char>>) -> bool {
    forall|i: int, j: int|
        0 <= i < j < order.len() ==> {
            let a = #[trigger] order[i];
            let b = #[trigger] order[j];
            text_le(keys[a], keys[b]) && (keys[a] == keys[b] ==> a < b)
        }
}

/// Whether `sorted` holds the items of `items` by their keys, and items with equal keys
/// in the order in which they came.
pub open spec fn is_stable_sort<T>(
    items: Seq<T>,
    keys: Seq<Seq<char>>,
    sorted: Seq<T>,
) -> bool {
    exists|order: Seq<int>| #[trigger]
        is_permutation(order, items.len()) && is_stable_order(order, keys) && sorted =~= order.map_values(
            |i: int| items[i],
        )
}

/// The indices of the keys, by key, equal keys by their place.
pub fn stable_order(keys: &Vec<String>) -> (order: Vec<usize>)
    ensures
        is_permutation(order@.map_values(|i: usize| i as int), keys@.len()),
        is_stable_order(order@.map_values(|i: usize| i as int), keys.deep_view()),
{
    let ghost views = keys.deep_view();
    let mut order: Vec<usize> = Vec::new();
    for k in 0..keys.len()
        invariant
            views == keys.deep_view(),
            order@.len() == k,
            forall|i: int| 0 <= i < k ==> 0 <= #[trigger] order@[i] < k,
            forall|i: int, j: int| 0 <= i < j < k ==> #[trigger] order@[i] != #[trigger] order@[j],
            forall|i: int, j: int|
                0 <= i < j < k ==> text_le(
                    views[#[trigger] order@[i] as int],
                    views[#[trigger] order@[j] as int],
                ) && (views[order@[i] as int] == views[order@[j] as int] ==> order@[i] < order@[j]),
    {
        // The place of the new key: behind every key that is no later than it.
        let mut at: usize = k;
        while at > 0 && !is_text_le(&keys[order[at - 1]], &keys[k])
            invariant
                views == keys.deep_view(),
                k < keys@.len(),
                at <= k == order@.len(),
                forall|i: int| 0 <= i < k ==> 0 <= #[trigger] order@[i] < k,
                forall|i: int|
                    at <= i < k ==> !text_le(views[#[trigger] order@[i] as int], views[k as int]),
            ensures
                at <= k == order@.len(),
                at > 0 ==> text_le(views[order@[at - 1] as int], views[k as int]),
                forall|i: int|
                    at <= i < k ==> !text_le(views[#[trigger] order@[i] as int], views[k as int]),
            decreases at,
        {
            at = at - 1;
        }
        let ghost before = order@;
        order.insert(at, k);
        proof {
            assert forall|i: int| 0 <= i < at implies text_le(
                views[#[trigger] before[i] as int],
                views[k as int],
            ) by {
                if i < at - 1 {
                    text_le_transitive(
                        views[before[i] as int],
                        views[before[at - 1] as int],
                        views[k as int],
                    );
                }
            }
            assert forall|i: int, j: int| 0 <= i < j < k + 1 implies text_le(
                views[#[trigger] order@[i] as int],
                views[#[trigger] order@[j] as int],
            ) && (views[order@[i] as int] == views[order@[j] as int] ==> order@[i] < order@[j]) && order@[i]
                != order@[j] by {
                let p = if i < at {
                    before[i]
                } else if i == at {
                    k
                } else {
                    before[i - 1]
                };
                let q = if j < at {
                    before[j]
                } else if j == at {
                    k
                } else {
                    before[j - 1]
                };
                assert(order@[i] == p && order@[j] == q);
                if i == at {
                    text_le_total(views[k as int], views[before[j - 1] as int]);
                }
            }
        }
    }
    order
}

/// The items by their keys, and items with equal keys in the order in which they came.
pub open spec fn stable_sort<T>(items: Seq<T>, keys: Seq<Seq<char>>) -> Seq<T> {
    choose|sorted: Seq<T>| is_stable_sort(items, keys, sorted)
}

proof fn lemma_permutation_reaches(order: Seq<int>, n: nat, x: int)
    requires
        is_permutation(order, n),
        0 <= x < n,
    ensures
        order.contains(x),
{
    let all = vstd::set_lib::set_int_range(0, n as int);
    vstd::set_lib::lemma_int_range(0, n as int);
    order.unique_seq_to_set();
    assert(order.to_set().subset_of(all)) by {
        assert forall|y: int| order.to_set().contains(y) implies all.contains(y) by {
            let i = choose|i: int| 0 <= i < order.len() && order[i] == y;
            assert(0 <= order[i] < n);
        }
    }
    vstd::set_lib::lemma_subset_equality(order.to_set(), all);
    assert(all.contains(x));
}

/// A list can be sorted stably in one way only.
pub proof fn stable_sort_is_unique<T>(
    items: Seq<T>,
    keys: Seq<Seq<char>>,
    a: Seq<T>,
    b: Seq<T>,
)
    requires
        is_stable_sort(items, keys, a),
        is_stable_sort(items, keys, b),
    ensures
        a == b,
{
    let n = items.len();
    let p = choose|order: Seq<int>| #[trigger]
        is_permutation(order, n) && is_stable_order(order, keys) && a =~= order.map_values(
            |i: int| items[i],
        );
    let q = choose|order: Seq<int>| #[trigger]
        is_permutation(order, n) && is_stable_order(order, keys) && b =~= order.map_values(
            |i: int| items[i],
        );
    lemma_same_prefix(p, q, keys, n, n as int);
    assert(p =~= q);
}

proof fn lemma_same_prefix(p: Seq<int>, q: Seq<int>, keys: Seq<Seq<char>>, n: nat, upto: int)
    requires
        is_permutation(p, n),
        is_permutation(q, n),
        is_stable_order(p, keys),
        is_stable_order(q, keys),
        0 <= upto <= n,
    ensures
        forall|i: int| 0 <= i < upto ==> p[i] == q[i],
    decreases upto,
{
    if upto > 0 {
        let i = upto - 1;
        lemma_same_prefix(p, q, keys, n, i);
        let a = p[i];
        let b = q[i];
        if a != b {
            lemma_permutation_reaches(q, n, a);
            lemma_permutation_reaches(p, n, b);
            let j = choose|j: int| 0 <= j < q.len() && q[j] == a;
            let k = choose|k: int| 0 <= k < p.len() && p[k] == b;
            assert(j > i && k > i);
            // `a` comes before `b` in one order and after it in the other.
            assert(text_le(keys[q[i]], keys[q[j]]));
            assert(text_le(keys[p[i]], keys[p[k]]));
            text_le_antisymmetric(keys[a], keys[b]);
        }
    }
}

/// Where a new key goes: behind every key that is no later than it.
proof fn lemma_place(order: Seq<int>, keys: Seq<Seq<char>>, key: Seq<char>, upto: int) -> (at: int)
    requires
        0 <= upto <= order.len(),
        forall|i: int|
            upto <= i < order.len() ==> !text_le(keys[#[trigger] order[i]], key),
    ensures
        0 <= at <= upto,
        at > 0 ==> text_le(keys[order[at - 1]], key),
        forall|i: int| at <= i < order.len() ==> !text_le(keys[#[trigger] order[i]], key),
    decreases upto,
{
    if upto == 0 || text_le(keys[order[upto - 1]], key) {
        upto
    } else {
        lemma_place(order, keys, key, upto - 1)
    }
}

proof fn lemma_stable_order_exists(keys: Seq<Seq<char>>) -> (order: Seq<int>)
    ensures
        is_permutation(order, keys.len()),
        is_stable_order(order, keys),
    decreases keys.len(),
{
    if keys.len() == 0 {
        Seq::empty()
    } else {
        let k = keys.len() - 1;
        let shorter = keys.drop_last();
        let before = lemma_stable_order_exists(shorter);
        assert forall|i: int| 0 <= i < k implies keys[#[trigger] before[i]] == shorter[before[i]] by {}
        let at = lemma_place(before, keys, keys[k], k);
        let order = before.insert(at, k);
        assert forall|i: int| 0 <= i < at implies text_le(keys[#[trigger] before[i]], keys[k]) by {
            if i < at - 1 {
                assert(text_le(shorter[before[i]], shorter[before[at - 1]]));
                text_le_transitive(keys[before[i]], keys[before[at - 1]], keys[k]);
            }
        }
        assert forall|i: int, j: int| 0 <= i < j < keys.len() implies text_le(
            keys[#[trigger] order[i]],
            keys[#[trigger] order[j]],
        ) && (keys[order[i]] == keys[order[j]] ==> order[i] < order[j]) && order[i] != order[j] by {
            let p = if i < at {
                before[i]
            } else if i == at {
                k
            } else {
                before[i - 1]
            };
            let q = if j < at {
                before[j]
            } else if j == at {
                k
            } else {
                before[j - 1]
            };
            assert(order[i] == p && order[j] == q);
            if i == at {
                text_le_total(keys[k], keys[before[j - 1]]);
            } else if j != at {
                assert(text_le(shorter[p], shorter[q]));
            }
        }
        assert forall|i: int| 0 <= i < keys.len() implies 0 <= #[trigger] order[i] < keys.len() by {
            let p = if i < at {
                before[i]
            } else if i == at {
                k
            } else {
                before[i - 1]
            };
            assert(order[i] == p);
        }
        order
    }
}

/// Every list can be sorted stably.
pub proof fn stable_sort_exists<T>(items: Seq<T>, keys: Seq<Seq<char>>)
    requires
        keys.len() == items.len(),
    ensures
        is_stable_sort(items, keys, stable_sort(items, keys)),
{
    let order = lemma_stable_order_exists(keys);
    let sorted = order.map_values(|i: int| items[i]);
    assert(is_permutation(order, items.len()));
    assert(is_stable_sort(items, keys, sorted));
}

/// Sorting neither loses nor adds items.
pub proof fn stable_sort_keeps_items<T>(items: Seq<T>, keys: Seq<Seq<char>>, x: T)
    requires
        keys.len() == items.len(),
    ensures
        stable_sort(items, keys).len() == items.len(),
        stable_sort(items, keys).contains(x) <==> items.contains(x),
{
    stable_sort_exists(items, keys);
    let sorted = stable_sort(items, keys);
    let order = choose|order: Seq<int>| #[trigger]
        is_permutation(order, items.len()) && is_stable_order(order, keys) && sorted =~= order.map_values(
            |i: int| items[i],
        );
    if sorted.contains(x) {
        let i = choose|i: int| 0 <= i < sorted.len() && sorted[i] == x;
        assert(items[order[i]] == x);
    }
    if items.contains(x) {
        let i = choose|i: int| 0 <= i < items.len() && items[i] == x;
        lemma_permutation_reaches(order, items.len(), i);
        let j = choose|j: int| 0 <= j < order.len() && order[j] == i;
        assert(sorted[j] == x);
    }
}

/// Dropping repeats neither loses nor adds texts.
pub proof fn without_repeats_keeps_texts(texts: Seq<Seq<char>>, x: Seq<char>)
    ensures
        without_repeats(texts).contains(x) <==> texts.contains(x),
    decreases texts.len(),
{
    if texts.len() > 1 {
        let rest = texts.drop_last();
        without_repeats_keeps_texts(rest, x);
        let w = without_repeats(texts);
        if texts.contains(x) {
            let i = choose|i: int| 0 <= i < texts.len() && texts[i] == x;
            if i < rest.len() {
                assert(rest[i] == x);
                let j = choose|j: int|
                    0 <= j < without_repeats(rest).len() && without_repeats(rest)[j] == x;
                assert(w[j] == x);
            } else if texts.last() == texts[texts.len() - 2] {
                assert(rest[texts.len() - 2] == x);
            } else {
                assert(w[w.len() - 1] == x);
            }
        }
        if w.contains(x) {
            let i = choose|i: int| 0 <= i < w.len() && w[i] == x;
            if i < without_repeats(rest).len() {
                assert(without_repeats(rest)[i] == x);
                let j = choose|j: int| 0 <= j < rest.len() && rest[j] == x;
                assert(texts[j] == x);
            }
        }
    }
}

/// A type whose values can be made anew.
pub trait Duplicate: DeepView + Sized {
    /// A value that holds the same.
    fn duplicate(&self) -> (r: Self)
        ensures
            r.deep_view() == self.deep_view(),
    ;
}

impl Duplicate for String {
    fn duplicate(&self) -> (r: Self) {
        self.clone()
    }
}

/// Values that hold the same as those of a list.
pub fn duplicate_all<T: Duplicate>(items: &Vec<T>) -> (r: Vec<T>)
    ensures
        r.deep_view() == items.deep_view(),
{
    let mut r: Vec<T> = Vec::new();
    for i in 0..items.len()
        invariant
            r@.len() == i,
            forall|j: int| 0 <= j < i ==> (#[trigger] r@[j]).deep_view() == items@[j].deep_view(),
    {
        r.push(items[i].duplicate());
    }
    assert(r.deep_view() =~= items.deep_view());
    r
}

/// The items by their keys, and items with equal keys in the order in which they came.
pub fn sort_by_keys<T: Duplicate>(items: &Vec<T>, keys: &Vec<String>) -> (r: Vec<T>)
    requires
        keys@.len() == items@.len(),
    ensures
        is_stable_sort(items.deep_view(), keys.deep_view(), r.deep_view()),
        r.deep_view() == stable_sort(items.deep_view(), keys.deep_view()),
{
    let order = stable_order(keys);
    let ghost indices = order@.map_values(|i: usize| i as int);
    let ghost views = items.deep_view();
    let mut r: Vec<T> = Vec::new();
    for k in 0..order.len()
        invariant
            views == items.deep_view(),
            indices == order@.map_values(|i: usize| i as int),
            is_permutation(indices, items@.len()),
            r@.len() == k,
            forall|j: int|
                0 <= j < k ==> (#[trigger] r@[j]).deep_view() == views[indices[j]],
    {
        assert(0 <= indices[k as int] < items@.len());
        r.push(items[order[k]].duplicate());
    }
    proof {
        assert(is_permutation(indices, views.len()));
        assert(is_stable_sort(views, keys.deep_view(), r.deep_view()));
        stable_sort_is_unique(
            views,
            keys.deep_view(),
            r.deep_view(),
            stable_sort(views, keys.deep_view()),
        );
    }
    r
}

/// The lowercase forms of the texts.
pub open spec fn lowercase_keys(texts: Seq<Seq<char>>) -> Seq<Seq<char>> {
    texts.map_values(|t: Seq<char>| lowercase_text(t))
}

/// The texts by their lowercase forms, equal ones in the order in which they came.
pub open spec fn sort_ignoring_case(texts: Seq<Seq<char>>) -> Seq<Seq<char>> {
    stable_sort(texts, lowercase_keys(texts))
}

/// The texts by their lowercase forms, equal ones in the order in which they came.
pub fn sorted_ignoring_case(texts: &Vec<String>) -> (r: Vec<String>)
    ensures
        is_stable_sort(texts.deep_view(), lowercase_keys(texts.deep_view()), r.deep_view()),
        r.deep_view() == sort_ignoring_case(texts.deep_view()),
{
    let mut keys: Vec<String> = Vec::new();
    for i in 0..texts.len()
        invariant
            keys@.len() == i,
            forall|j: int|
                0 <= j < i ==> (#[trigger] keys@[j])@ == lowercase_text(texts@[j]@),
    {
        keys.push(texts[i].to_lowercase());
    }
    assert(keys.deep_view() =~= lowercase_keys(texts.deep_view()));
    sort_by_keys(texts, &keys)
}

/// The texts in their order.
pub fn sorted_texts(texts: &Vec<String>) -> (r: Vec<String>)
    ensures
        is_stable_sort(texts.deep_view(), texts.deep_view(), r.deep_view()),
        r.deep_view() == stable_sort(texts.deep_view(), texts.deep_view()),
{
    sort_by_keys(texts, texts)
}

/// The list without those items that repeat the one before them.
pub open spec fn without_repeats(texts: Seq<Seq<char>>) -> Seq<Seq<char>>
    decreases texts.len(),
{
    if texts.len() <= 1 {
        texts
    } else if texts.last() == texts[texts.len() - 2] {
        without_repeats(texts.drop_last())
    } else {
        without_repeats(texts.drop_last()).push(texts.last())
    }
}

/// The list without those items that repeat the one before them.
pub fn dedup(texts: &Vec<String>) -> (r: Vec<String>)
    ensures
        r.deep_view() == without_repeats(texts.deep_view()),
{
    let ghost views = texts.deep_view();
    let mut r: Vec<String> = Vec::new();
    for i in 0..texts.len()
        invariant
            views == texts.deep_view(),
            r.deep_view() == without_repeats(views.take(i as int)),
    {
        let ghost before = r.deep_view();
        assert(views.take(i + 1).drop_last() =~= views.take(i as int));
        if i == 0 || texts[i] != texts[i - 1] {
            r.push(texts[i].clone());
            assert(r.deep_view() =~= before.push(views[i as int]));
            if i == 0 {
                assert(r.deep_view() =~= views.take(1));
            }
        }
    }
    assert(views.take(views.len() as int) =~= views);
    r
}

/// Sorting puts every item behind those whose keys come before its own, and items whose keys
/// are equal in the order in which they came.
pub proof fn sorted_by_key_and_place<T>(items: Seq<T>, keys: Seq<Seq<char>>)
    requires
        keys.len() == items.len(),
    ensures
        exists|order: Seq<int>|
            #![trigger is_permutation(order, items.len())]
            {
                &&& order.len() == items.len() && stable_sort(items, keys).len() == items.len()
                &&& forall|i: int| 0 <= i < items.len() ==> 0 <= #[trigger] order[i] < items.len()
                &&& forall|i: int, j: int|
                    0 <= i < j < items.len() ==> #[trigger] order[i] != #[trigger] order[j]
                &&& forall|i: int|
                    0 <= i < items.len() ==> stable_sort(items, keys)[i]
                        == items[#[trigger] order[i]]
                &&& forall|i: int, j: int|
                    0 <= i < j < items.len() ==> {
                        ||| keys[#[trigger] order[i]] == keys[#[trigger] order[j]] && order[i]
                            < order[j]
                        ||| keys[order[i]] != keys[order[j]] && text_le(
                            keys[order[i]],
                            keys[order[j]],
                        )
                    }
            },
{
    stable_sort_exists(items, keys);
    let sorted = stable_sort(items, keys);
    let order = choose|order: Seq<int>| #[trigger]
        is_permutation(order, items.len()) && is_stable_order(order, keys) && sorted
            =~= order.map_values(|i: int| items[i]);
    assert(is_permutation(order, items.len()));
}

/// Texts are ordered by the first place at which they differ; a text comes before those that
/// it begins.
pub proof fn first_difference_decides(common: Seq<char>, a: Seq<char>, b: Seq<char>)
    ensures
        a.len() > 0 && b.len() > 0 && a[0] < b[0] ==> text_le(common + a, common + b) && !text_le(
            common + b,
            common + a,
        ),
        text_le(common, common + a),
        a.len() > 0 ==> !text_le(common + a, common),
        text_le(a, a),
    decreases common.len(),
{
    text_le_total(a, a);
    if common.len() == 0 {
        assert(common + a =~= a);
        assert(common + b =~= b);
    } else {
        let rest = common.drop_first();
        first_difference_decides(rest, a, b);
        assert((common + a).drop_first() =~= rest + a);
        assert((common + b).drop_first() =~= rest + b);
    }
}

/// No text repeats the one before it once repeats were dropped, and where none does nothing
/// is dropped.
pub proof fn no_repeats_are_left(texts: Seq<Seq<char>>)
    ensures
        forall|i: int|
            0 < i < without_repeats(texts).len() ==> #[trigger] without_repeats(texts)[i]
                != without_repeats(texts)[i - 1],
        (forall|i: int| 0 < i < texts.len() ==> #[trigger] texts[i] != texts[i - 1])
            ==> without_repeats(texts) == texts,
        texts.len() > 0 ==> without_repeats(texts).len() > 0 && without_repeats(texts).last()
            == texts.last() && without_repeats(texts)[0] == texts[0],
    decreases texts.len(),
{
    if texts.len() > 1 {
        let rest = texts.drop_last();
        no_repeats_are_left(rest);
        let kept = without_repeats(rest);
        assert(rest.last() == texts[texts.len() - 2]);
        if forall|i: int| 0 < i < texts.len() ==> #[trigger] texts[i] != texts[i - 1] {
            assert(texts[texts.len() - 1] != texts[texts.len() - 2]);
            assert forall|i: int| 0 < i < rest.len() implies #[trigger] rest[i] != rest[i - 1] by {
                assert(texts[i] != texts[i - 1]);
            }
            assert(rest.push(texts.last()) =~= texts);
        }
    }
}

/// Of two places of a sorted list the earlier one holds an item whose key comes before that of
/// the other, or is equal to it and came before it. Says which items they are.
pub proof fn places_are_in_order<T>(items: Seq<T>, keys: Seq<Seq<char>>, i: int, j: int) -> (r: (
    int,
    int,
))
    requires
        keys.len() == items.len(),
        0 <= i < j < items.len(),
    ensures
        0 <= r.0 < items.len(),
        0 <= r.1 < items.len(),
        stable_sort(items, keys)[i] == items[r.0],
        stable_sort(items, keys)[j] == items[r.1],
        text_le(keys[r.0], keys[r.1]),
        keys[r.0] == keys[r.1] ==> r.0 < r.1,
{
    stable_sort_exists(items, keys);
    let sorted = stable_sort(items, keys);
    let order = choose|order: Seq<int>| #[trigger]
        is_permutation(order, items.len()) && is_stable_order(order, keys) && sorted
            =~= order.map_values(|i: int| items[i]);
    assert(text_le(keys[order[i]], keys[order[j]]));
    (order[i], order[j])
}

/// Texts that are sorted whatever their letters' case are in the order of their lowercase
/// forms, and they are the texts that there were.
pub proof fn case_does_not_matter(texts: Seq<Seq<char>>, i: int, j: int, x: Seq<char>)
    requires
        0 <= i < j < texts.len(),
    ensures
        text_le(
            lowercase_text(sort_ignoring_case(texts)[i]),
            lowercase_text(sort_ignoring_case(texts)[j]),
        ),
        sort_ignoring_case(texts).len() == texts.len(),
        sort_ignoring_case(texts).contains(x) <==> texts.contains(x),
{
    let r = places_are_in_order(texts, lowercase_keys(texts), i, j);
    stable_sort_keeps_items(texts, lowercase_keys(texts), x);
}

} // verus!
