//! The list of subscribers.
use crate::payments::{Payments, Subscriber, SubscriberView};
use crate::sorting::Duplicate;
use vstd::prelude::*;

verus! {

/// A month of a subscription: thirty days, in seconds.
pub const MONTH_SECS: u64 = 2_592_000;

/// A number, or the largest that 64 bits hold if it is beyond.
pub open spec fn capped(n: int) -> u64 {
    if n > u64::MAX {
        u64::MAX
    } else {
        n as u64
    }
}

/// How long a number of months is, in seconds.
pub open spec fn period_secs(months: u64) -> u64 {
    capped(months * MONTH_SECS)
}

/// How long a number of months is, in seconds.
pub fn period(months: u64) -> (r: u64)
    ensures
        r == period_secs(months),
{
    match months.checked_mul(MONTH_SECS) {
        Some(n) => n,
        None => u64::MAX,
    }
}

/// When a subscription that is bought now expires.
pub open spec fn expiry_from(start: u64, months: u64) -> u64 {
    capped(start + period_secs(months))
}

/// When a subscription that is bought now expires.
pub fn expiry(start: u64, months: u64) -> (r: u64)
    ensures
        r == expiry_from(start, months),
{
    start.saturating_add(period(months))
}

/// When a subscription expires that is renewed now: one that never expires still does
/// not, one that is still active is extended, any other starts now.
pub open spec fn renewed_expiry(expires_at: Option<u64>, months: u64, now: u64) -> Option<u64> {
    match expires_at {
        Some(existing) => Some(
            if existing > now {
                expiry_from(existing, months)
            } else {
                expiry_from(now, months)
            },
        ),
        None => None,
    }
}

/// A subscriber who renews, with a new username if one is given.
pub open spec fn renewed(
    s: SubscriberView,
    username: Option<Seq<char>>,
    months: u64,
    now: u64,
) -> SubscriberView {
    SubscriberView {
        user_id: s.user_id,
        username: if username is Some {
            username
        } else {
            s.username
        },
        added_at: s.added_at,
        expires_at: renewed_expiry(s.expires_at, months, now),
    }
}

/// Whether a user is on the list.
pub open spec fn has_user(subs: Seq<SubscriberView>, user_id: i64) -> bool {
    exists|i: int| 0 <= i < subs.len() && (#[trigger] subs[i]).user_id == user_id
}

/// Whether `i` is the first place of a user on the list.
pub open spec fn is_first(subs: Seq<SubscriberView>, user_id: i64, i: int) -> bool {
    &&& 0 <= i < subs.len()
    &&& subs[i].user_id == user_id
    &&& forall|j: int| 0 <= j < i ==> (#[trigger] subs[j]).user_id != user_id
}

/// The first place of a user on the list.
pub open spec fn first_of(subs: Seq<SubscriberView>, user_id: i64) -> int {
    choose|i: int| is_first(subs, user_id, i)
}

proof fn lemma_first(subs: Seq<SubscriberView>, user_id: i64, i: int)
    requires
        is_first(subs, user_id, i),
    ensures
        first_of(subs, user_id) == i,
        has_user(subs, user_id),
{
    let j = first_of(subs, user_id);
    assert(is_first(subs, user_id, j));
    assert(subs[j].user_id == user_id);
    assert(subs[i].user_id == user_id);
}

proof fn lemma_first_exists(subs: Seq<SubscriberView>, user_id: i64, n: int)
    requires
        0 <= n < subs.len(),
        subs[n].user_id == user_id,
    ensures
        is_first(subs, user_id, first_of(subs, user_id)),
    decreases n,
{
    if forall|j: int| 0 <= j < n ==> (#[trigger] subs[j]).user_id != user_id {
        assert(is_first(subs, user_id, n));
    } else {
        let j = choose|j: int| 0 <= j < n && (#[trigger] subs[j]).user_id == user_id;
        lemma_first_exists(subs, user_id, j);
    }
}

/// The list once a user has paid: their first entry renewed, or a new one at the end.
pub open spec fn with_renewed(
    subs: Seq<SubscriberView>,
    user_id: i64,
    username: Option<Seq<char>>,
    months: u64,
    now: u64,
) -> Seq<SubscriberView> {
    if has_user(subs, user_id) {
        let i = first_of(subs, user_id);
        subs.update(i, renewed(subs[i], username, months, now))
    } else {
        subs.push(
            SubscriberView {
                user_id,
                username,
                added_at: now,
                expires_at: Some(expiry_from(now, months)),
            },
        )
    }
}

/// The list once a user has been added who may be on it.
pub open spec fn with_added(
    subs: Seq<SubscriberView>,
    user_id: i64,
    username: Option<Seq<char>>,
    now: u64,
) -> Seq<SubscriberView> {
    if has_user(subs, user_id) {
        subs
    } else {
        subs.push(SubscriberView { user_id, username, added_at: now, expires_at: None })
    }
}

impl Duplicate for Subscriber {
    fn duplicate(&self) -> (r: Self) {
        let username = match &self.username {
            Some(name) => Some(name.clone()),
            None => None,
        };
        Subscriber {
            user_id: self.user_id,
            username,
            added_at: self.added_at,
            expires_at: self.expires_at,
        }
    }
}

fn find_user(subs: &Vec<Subscriber>, user_id: i64) -> (r: Option<usize>)
    ensures
        match r {
            Some(i) => {
                &&& i < subs@.len()
                &&& has_user(subs.deep_view(), user_id)
                &&& i == first_of(subs.deep_view(), user_id)
            },
            None => !has_user(subs.deep_view(), user_id),
        },
{
    let ghost views = subs.deep_view();
    for i in 0..subs.len()
        invariant
            views == subs.deep_view(),
            forall|j: int| 0 <= j < i ==> (#[trigger] views[j]).user_id != user_id,
    {
        assert(views[i as int] == subs@[i as int].deep_view());
        if subs[i].user_id == user_id {
            proof {
                assert(is_first(views, user_id, i as int));
                lemma_first(views, user_id, i as int);
            }
            return Some(i);
        }
    }
    None
}

impl Payments {
    /// Adds a user who is not on the list, without an expiry. Says whether the list has
    /// changed.
    pub fn add_subscriber(
        &self,
        subs: &mut Vec<Subscriber>,
        user_id: i64,
        username: Option<String>,
        now: u64,
    ) -> (changed: bool)
        ensures
            changed == !has_user(old(subs).deep_view(), user_id),
            final(subs).deep_view() == with_added(
                old(subs).deep_view(),
                user_id,
                username.deep_view(),
                now,
            ),
    {
        match find_user(subs, user_id) {
            Some(_) => false,
            None => {
                let ghost before = subs.deep_view();
                let s = Subscriber { user_id, username, added_at: now, expires_at: None };
                subs.push(s);
                assert(subs.deep_view() =~= before.push(s.deep_view()));
                true
            },
        }
    }

    /// Adds a user, or renews their subscription, for a number of months. One that never
    /// expires stays so.
    pub fn add_or_renew_subscriber(
        &self,
        subs: &mut Vec<Subscriber>,
        user_id: i64,
        username: Option<String>,
        months: u64,
        now: u64,
    )
        ensures
            final(subs).deep_view() == with_renewed(
                old(subs).deep_view(),
                user_id,
                username.deep_view(),
                months,
                now,
            ),
    {
        let ghost before = subs.deep_view();
        match find_user(subs, user_id) {
            Some(i) => {
                let mut s = subs[i].duplicate();
                let ghost was = s.deep_view();
                s.expires_at = match s.expires_at {
                    Some(existing) => Some(
                        expiry(
                            if existing > now {
                                existing
                            } else {
                                now
                            },
                            months,
                        ),
                    ),
                    None => None,
                };
                if username.is_some() {
                    s.username = username;
                }
                assert(s.deep_view() == renewed(was, username.deep_view(), months, now));
                subs.set(i, s);
                assert(subs.deep_view() =~= before.update(i as int, s.deep_view()));
            },
            None => {
                let s = Subscriber {
                    user_id,
                    username,
                    added_at: now,
                    expires_at: Some(expiry(now, months)),
                };
                subs.push(s);
                assert(subs.deep_view() =~= before.push(s.deep_view()));
            },
        }
    }
}

// ---------------------------------------------------------------------------
// Laws
// ---------------------------------------------------------------------------

/// Whether no user is on the list twice.
pub open spec fn each_user_once(subs: Seq<SubscriberView>) -> bool {
    forall|i: int, j: int|
        0 <= i < j < subs.len() ==> (#[trigger] subs[i]).user_id != (#[trigger] subs[j]).user_id
}

/// A list without doubles stays one when users are added or renewed.
pub proof fn each_user_stays_once(
    subs: Seq<SubscriberView>,
    user_id: i64,
    username: Option<Seq<char>>,
    months: u64,
    now: u64,
)
    requires
        each_user_once(subs),
    ensures
        each_user_once(with_renewed(subs, user_id, username, months, now)),
        each_user_once(with_added(subs, user_id, username, now)),
{
    if has_user(subs, user_id) {
        let n = choose|n: int| 0 <= n < subs.len() && (#[trigger] subs[n]).user_id == user_id;
        lemma_first_exists(subs, user_id, n);
        let after = with_renewed(subs, user_id, username, months, now);
        assert forall|a: int, b: int| 0 <= a < b < after.len() implies (#[trigger] after[a]).user_id
            != (#[trigger] after[b]).user_id by {
            assert(after[a].user_id == subs[a].user_id);
            assert(after[b].user_id == subs[b].user_id);
        }
    }
}

/// A user who pays is on the list afterwards, with a subscription that runs at least
/// until the paid period has passed from now, and no shorter than before. One that never
/// expired still does not.
pub proof fn paying_user_is_subscribed(
    subs: Seq<SubscriberView>,
    user_id: i64,
    username: Option<Seq<char>>,
    months: u64,
    now: u64,
)
    ensures
        ({
            let after = with_renewed(subs, user_id, username, months, now);
            let s = after[first_of(after, user_id)];
            let before = subs[first_of(subs, user_id)].expires_at;
            &&& has_user(after, user_id)
            &&& s.expires_at is None <==> has_user(subs, user_id) && before is None
            &&& s.expires_at matches Some(end) ==> {
                &&& end >= expiry_from(now, months)
                &&& has_user(subs, user_id) ==> end >= before->0
            }
        }),
{
    let after = with_renewed(subs, user_id, username, months, now);
    if has_user(subs, user_id) {
        let n = choose|n: int| 0 <= n < subs.len() && (#[trigger] subs[n]).user_id == user_id;
        lemma_first_exists(subs, user_id, n);
        let i = first_of(subs, user_id);
        assert forall|j: int| 0 <= j < i implies (#[trigger] after[j]).user_id != user_id by {
            assert(after[j] == subs[j]);
        }
        assert(is_first(after, user_id, i));
        lemma_first(after, user_id, i);
    } else {
        let i = subs.len() as int;
        assert forall|j: int| 0 <= j < i implies (#[trigger] after[j]).user_id != user_id by {
            assert(after[j] == subs[j]);
        }
        assert(is_first(after, user_id, i));
        lemma_first(after, user_id, i);
    }
}

/// Paying leaves the entries of all other users as they were.
pub proof fn other_subscribers_stay(
    subs: Seq<SubscriberView>,
    user_id: i64,
    username: Option<Seq<char>>,
    months: u64,
    now: u64,
    i: int,
)
    requires
        0 <= i < subs.len(),
        subs[i].user_id != user_id,
    ensures
        with_renewed(subs, user_id, username, months, now)[i] == subs[i],
        with_added(subs, user_id, username, now)[i] == subs[i],
{
    if has_user(subs, user_id) {
        let n = choose|n: int| 0 <= n < subs.len() && (#[trigger] subs[n]).user_id == user_id;
        lemma_first_exists(subs, user_id, n);
    }
}

/// Renewing twice at the same moment is renewing once for both periods.
pub proof fn renewals_add_up(expires_at: Option<u64>, a: u64, b: u64, now: u64)
    ensures
        renewed_expiry(renewed_expiry(expires_at, a, now), b, now) == renewed_expiry(
            expires_at,
            capped(a + b),
            now,
        ),
{
    assert((a + b) * MONTH_SECS == a * MONTH_SECS + b * MONTH_SECS) by (nonlinear_arith);
}

/// What is paid for lasts thirty days for each month from its start, or as long as 64 bits
/// can tell.
pub proof fn a_month_is_thirty_days(start: u64, months: u64)
    ensures
        start + months * (30 * 24 * 60 * 60) <= u64::MAX ==> expiry_from(start, months) == start
            + months * (30 * 24 * 60 * 60),
        start + months * (30 * 24 * 60 * 60) > u64::MAX ==> expiry_from(start, months)
            == u64::MAX,
{
}

/// A user who pays and is on the list keeps their place, the moment they were added, and
/// their name unless another is given. What they have is extended by what they paid for:
/// from its end where that is ahead, else from now; what never ends still does not.
/// Everyone else stays as they were.
pub proof fn paying_extends_what_is_left(
    subs: Seq<SubscriberView>,
    i: int,
    username: Option<Seq<char>>,
    months: u64,
    now: u64,
)
    requires
        0 <= i < subs.len(),
        forall|j: int| 0 <= j < i ==> (#[trigger] subs[j]).user_id != subs[i].user_id,
    ensures
        ({
            let after = with_renewed(subs, subs[i].user_id, username, months, now);
            &&& after.len() == subs.len()
            &&& forall|j: int| 0 <= j < subs.len() && j != i ==> #[trigger] after[j] == subs[j]
            &&& after[i].user_id == subs[i].user_id
            &&& after[i].added_at == subs[i].added_at
            &&& username is Some ==> after[i].username == username
            &&& username is None ==> after[i].username == subs[i].username
            &&& subs[i].expires_at is None ==> after[i].expires_at is None
            &&& subs[i].expires_at matches Some(end) ==> {
                let start = if end > now {
                    end
                } else {
                    now
                };
                let paid_for = start + months * (30 * 24 * 60 * 60);
                &&& after[i].expires_at is Some
                &&& paid_for <= u64::MAX ==> after[i].expires_at->0 == paid_for
                &&& paid_for > u64::MAX ==> after[i].expires_at->0 == u64::MAX
            }
        }),
{
    assert(is_first(subs, subs[i].user_id, i));
    lemma_first(subs, subs[i].user_id, i);
}

/// A user who is not on the list comes to its end: when they pay, from now until what they
/// paid for has passed; when they are only added, without an end. Everyone else stays.
pub proof fn new_users_come_last(
    subs: Seq<SubscriberView>,
    user_id: i64,
    username: Option<Seq<char>>,
    months: u64,
    now: u64,
)
    requires
        forall|j: int| 0 <= j < subs.len() ==> (#[trigger] subs[j]).user_id != user_id,
    ensures
        ({
            let paying = with_renewed(subs, user_id, username, months, now);
            let added = with_added(subs, user_id, username, now);
            &&& paying.len() == subs.len() + 1 && added.len() == subs.len() + 1
            &&& subs.is_prefix_of(paying) && subs.is_prefix_of(added)
            &&& paying.last().user_id == user_id && added.last().user_id == user_id
            &&& paying.last().username == username && added.last().username == username
            &&& paying.last().added_at == now && added.last().added_at == now
            &&& added.last().expires_at is None
            &&& paying.last().expires_at is Some
            &&& now + months * (30 * 24 * 60 * 60) <= u64::MAX ==> paying.last().expires_at->0
                == now + months * (30 * 24 * 60 * 60)
            &&& now + months * (30 * 24 * 60 * 60) > u64::MAX ==> paying.last().expires_at->0
                == u64::MAX
        }),
{
}

/// Adding a user who is on the list changes nothing.
pub proof fn adding_again_changes_nothing(
    subs: Seq<SubscriberView>,
    i: int,
    username: Option<Seq<char>>,
    now: u64,
)
    requires
        0 <= i < subs.len(),
    ensures
        with_added(subs, subs[i].user_id, username, now) == subs,
{
    assert(has_user(subs, subs[i].user_id));
}

} // verus!
