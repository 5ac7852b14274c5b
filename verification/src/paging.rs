//! Lists that are shown page by page.
use crate::keyboard::{callback, callback_view, ButtonOf, ButtonView, InlineKeyboardButton};
use crate::numbers::{nat_text, show_usize};
use crate::text::{join2, join3};
use vstd::prelude::*;

verus! {

/// The part of a list that one page shows: the items from `start` up to, not including,
/// `end`.
#[derive(Debug, Clone, PartialEq, Eq)]
pub struct Page {
    /// The number of the page, from one.
    pub cur: usize,
    /// How many pages there are.
    pub pages: usize,
    pub start: usize,
    pub end: usize,
}

/// How many pages a list takes; an empty list takes one.
pub open spec fn page_count(total: nat, size: nat) -> nat {
    if total == 0 {
        1
    } else {
        (total + size - 1) as nat / size
    }
}

/// The nearest page that there is to the one asked for.
pub open spec fn page_number(total: nat, page: nat, size: nat) -> nat {
    if page < 1 {
        1
    } else if page > page_count(total, size) {
        page_count(total, size)
    } else {
        page
    }
}

/// The index of the first item on the page asked for.
pub open spec fn page_start(total: nat, page: nat, size: nat) -> nat {
    ((page_number(total, page, size) - 1) * size) as nat
}

/// The index after the last item on the page asked for.
pub open spec fn page_end(total: nat, page: nat, size: nat) -> nat {
    let end = page_start(total, page, size) + size;
    if end < total {
        end
    } else {
        total
    }
}

/// A page lies within the list.
pub proof fn page_is_within(total: nat, page: nat, size: nat)
    requires
        size > 0,
    ensures
        1 <= page_number(total, page, size) <= page_count(total, size),
        page_count(total, size) <= total || total == 0,
        page_start(total, page, size) <= page_end(total, page, size) <= total,
        page_end(total, page, size) - page_start(total, page, size) <= size,
{
    let pages = page_count(total, size);
    let cur = page_number(total, page, size);
    if total > 0 {
        let t = total as int;
        let s = size as int;
        assert((t + s - 1) / s >= 1 && (t + s - 1) / s <= t && ((t + s - 1) / s - 1) * s < t)
            by (nonlinear_arith)
            requires
                t > 0,
                s > 0,
        {
            let q = (t + s - 1) / s;
            let r = (t + s - 1) % s;
            assert(t + s - 1 == s * q + r && 0 <= r < s);
        }
        let p = pages as int;
        let c = cur as int;
        assert((c - 1) * s <= (p - 1) * s) by (nonlinear_arith)
            requires
                c <= p,
                s > 0,
        ;
        assert((c - 1) * s >= 0) by (nonlinear_arith)
            requires
                c >= 1,
                s > 0,
        ;
    } else {
        assert((1 - 1) * (size as int) == 0) by (nonlinear_arith);
    }
}

/// Every item of a list is on one page, the one that its index divided by the page size
/// gives, and on no other.
pub proof fn item_is_on_one_page(total: nat, size: nat, index: nat, page: nat)
    requires
        size > 0,
        index < total,
        1 <= page <= page_count(total, size),
    ensures
        1 <= index / size + 1 <= page_count(total, size),
        page_start(total, page, size) <= index < page_end(total, page, size) <==> page == index
            / size + 1,
{
    let s = size as int;
    let i = index as int;
    let t = total as int;
    let p = page as int;
    let q = i / s;
    assert(i == s * q + i % s && 0 <= i % s < s) by {
        vstd::arithmetic::div_mod::lemma_fundamental_div_mod(i, s);
        vstd::arithmetic::div_mod::lemma_mod_bound(i, s);
    }
    let n = (t + s - 1) / s;
    assert(t + s - 1 == s * n + (t + s - 1) % s && 0 <= (t + s - 1) % s < s) by {
        vstd::arithmetic::div_mod::lemma_fundamental_div_mod(t + s - 1, s);
        vstd::arithmetic::div_mod::lemma_mod_bound(t + s - 1, s);
    }
    assert(0 <= q && q + 1 <= n) by (nonlinear_arith)
        requires
            s > 0,
            0 <= i < t,
            i == s * q + i % s,
            0 <= i % s < s,
            t + s - 1 == s * n + (t + s - 1) % s,
            0 <= (t + s - 1) % s < s,
    ;
    assert(((p - 1) * s <= i && i < (p - 1) * s + s) <==> p == q + 1) by (nonlinear_arith)
        requires
            s > 0,
            i == s * q + i % s,
            0 <= i % s < s,
    ;
    assert((p - 1) * s >= 0) by (nonlinear_arith)
        requires
            p >= 1,
            s > 0,
    ;
}

/// The page of a list nearest to the one asked for.
pub fn page_of(total: usize, page: usize, size: usize) -> (r: Page)
    requires
        size > 0,
    ensures
        r.pages == page_count(total as nat, size as nat),
        r.cur == page_number(total as nat, page as nat, size as nat),
        r.start == page_start(total as nat, page as nat, size as nat),
        r.end == page_end(total as nat, page as nat, size as nat),
        1 <= r.cur <= r.pages,
        r.start <= r.end <= total,
{
    proof {
        page_is_within(total as nat, page as nat, size as nat);
    }
    let pages: usize = if total == 0 {
        1
    } else {
        (((total as u128) + (size as u128) - 1) / (size as u128)) as usize
    };
    let cur: usize = if page < 1 {
        1
    } else if page > pages {
        pages
    } else {
        page
    };
    let start: usize = (cur - 1) * size;
    let end: usize = if total - start > size {
        start + size
    } else {
        total
    };
    Page { cur, pages, start, end }
}

/// The buttons to turn pages: back unless on the first page, a label, and on unless on
/// the last page.
pub open spec fn nav_view(
    cur: nat,
    pages: nat,
    label: Seq<char>,
    target: Seq<char>,
    noop: Seq<char>,
) -> Seq<ButtonView> {
    (if cur > 1 {
        seq![callback_view("⬅️ Prev"@, target + nat_text((cur - 1) as nat))]
    } else {
        seq![]
    }) + seq![callback_view(label + nat_text(cur) + "/"@ + nat_text(pages), noop)] + (if cur
        < pages {
        seq![callback_view("Next ➡️"@, target + nat_text(cur + 1))]
    } else {
        seq![]
    })
}

/// Adds the buttons to turn pages to a row.
pub fn push_nav(
    row: &mut Vec<InlineKeyboardButton>,
    cur: usize,
    pages: usize,
    label: &str,
    target: &str,
    noop: &str,
)
    requires
        1 <= cur <= pages,
    ensures
        final(row).deep_view() == old(row).deep_view() + nav_view(
            cur as nat,
            pages as nat,
            label@,
            target@,
            noop@,
        ),
{
    let ghost before = row.deep_view();
    if cur > 1 {
        row.push(callback("⬅️ Prev".to_string(), join2(target, &show_usize(cur - 1))));
    }
    let ghost with_prev = row.deep_view();
    assert(cur > 1 ==> with_prev =~= before.push(
        callback_view("⬅️ Prev"@, target@ + nat_text((cur - 1) as nat)),
    ));
    let text = join2(&join3(label, &show_usize(cur), "/"), &show_usize(pages));
    row.push(callback(text, noop.to_string()));
    let ghost with_label = row.deep_view();
    assert(with_label =~= with_prev.push(
        callback_view(label@ + nat_text(cur as nat) + "/"@ + nat_text(pages as nat), noop@),
    ));
    if cur < pages {
        row.push(callback("Next ➡️".to_string(), join2(target, &show_usize(cur + 1))));
        assert(row.deep_view() =~= with_label.push(
            callback_view("Next ➡️"@, target@ + nat_text((cur + 1) as nat)),
        ));
    }
    assert(row.deep_view() =~= before + nav_view(cur as nat, pages as nat, label@, target@, noop@));
}

/// The page that shows an item shows as many items as fit: it begins where the item's index
/// is cut down to a whole number of pages, and goes on for one page or to the end of the
/// list. There is more than one page exactly where the items do not fit on one.
pub proof fn page_holds_its_items(total: nat, size: nat, index: nat)
    requires
        size > 0,
        index < total,
    ensures
        page_number(total, index / size + 1, size) == index / size + 1,
        page_start(total, index / size + 1, size) == index - index % size,
        page_end(total, index / size + 1, size) == if index - index % size + size < total {
            index - index % size + size
        } else {
            total as int
        },
        page_count(total, size) > 1 <==> total > size,
{
    let s = size as int;
    let i = index as int;
    let t = total as int;
    let q = i / s;
    let n = (t + s - 1) / s;
    vstd::arithmetic::div_mod::lemma_fundamental_div_mod(i, s);
    vstd::arithmetic::div_mod::lemma_mod_bound(i, s);
    vstd::arithmetic::div_mod::lemma_fundamental_div_mod(t + s - 1, s);
    vstd::arithmetic::div_mod::lemma_mod_bound(t + s - 1, s);
    assert(0 <= q && q + 1 <= n && (n > 1 <==> t > s) && (q + 1 - 1) * s == i - i % s)
        by (nonlinear_arith)
        requires
            s > 0,
            0 <= i < t,
            i == s * q + i % s,
            0 <= i % s < s,
            t + s - 1 == s * n + (t + s - 1) % s,
            0 <= (t + s - 1) % s < s,
    ;
}

/// A page beyond the last is the last, and the one before the first is the first; an empty
/// list has one page, which shows nothing.
pub proof fn pages_end_somewhere(total: nat, size: nat, page: nat)
    requires
        size > 0,
    ensures
        page >= page_count(total, size) ==> page_number(total, page, size) == page_count(
            total,
            size,
        ),
        page_number(total, 0, size) == 1,
        1 <= page <= page_count(total, size) ==> page_number(total, page, size) == page,
        page_count(0, size) == 1,
        page_start(0, page, size) == 0 && page_end(0, page, size) == 0,
{
    page_is_within(total, page, size);
    page_is_within(0, page, size);
}

/// The buttons to turn pages lead to the page before, unless this is the first, and to the
/// one after, unless this is the last; between them the page is told, on a button that
/// leads nowhere.
pub proof fn pages_are_turned_by_one(
    cur: nat,
    pages: nat,
    label: Seq<char>,
    target: Seq<char>,
    noop: Seq<char>,
)
    requires
        1 <= cur <= pages,
    ensures
        ({
            let nav = nav_view(cur, pages, label, target, noop);
            let told = if cur > 1 {
                1int
            } else {
                0int
            };
            &&& nav.len() == 1 + told + if cur < pages {
                1int
            } else {
                0int
            }
            &&& cur > 1 ==> (nav[0] matches ButtonOf::Callback { data, .. } && data == target
                + nat_text((cur - 1) as nat))
            &&& cur < pages ==> (nav.last() matches ButtonOf::Callback { data, .. } && data
                == target + nat_text(cur + 1))
            &&& nav[told] matches ButtonOf::Callback { text, data } && data == noop && text
                == label + nat_text(cur) + "/"@ + nat_text(pages)
        }),
{
}

} // verus!
