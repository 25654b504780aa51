//! The electricity-price data model and the normalization that turns a raw
//! provider response into a time-ordered series of hourly prices.
//!
//! Monetary amounts are carried in milli-units (thousandths of a currency
//! unit), timestamps as seconds since the Unix epoch.

use vstd::prelude::*;

use crate::clock::rfc3339_secs_of;

verus! {

/// The provider's own coarse classification of a price. Carried through
/// unchanged; the display bucketing does not consult it.
#[derive(Debug, Clone, Copy, PartialEq, Eq, Structural)]
pub enum PriceLevel {
    Normal,
    Cheap,
    VeryCheap,
    Expensive,
    VeryExpensive,
}

/// One raw price entry as the provider reports it. Every field the provider
/// may omit is optional; only `starts_at` and `total` are consumed.
#[derive(Debug)]
pub struct Price {
    pub currency: String,
    /// Energy cost share, milli-units per kWh.
    pub energy: Option<i64>,
    pub level: Option<PriceLevel>,
    /// RFC 3339 text of the hour this price starts at.
    pub starts_at: Option<String>,
    /// Tax share, milli-units per kWh.
    pub tax: Option<i64>,
    /// Full price, milli-units per kWh.
    pub total: Option<i64>,
}

/// The two price windows of one subscription.
#[derive(Debug)]
pub struct PriceInfo {
    pub today: Vec<Option<Price>>,
    pub tomorrow: Vec<Option<Price>>,
}

#[derive(Debug)]
pub struct Subscription {
    pub price_info: Option<PriceInfo>,
}

#[derive(Debug)]
pub struct Home {
    pub current_subscription: Option<Subscription>,
}

#[derive(Debug)]
pub struct Viewer {
    pub login: Option<String>,
    pub user_id: Option<String>,
    pub name: Option<String>,
    pub websocket_subscription_url: Option<String>,
    pub homes: Vec<Option<Home>>,
}

/// The decoded shape of the provider's whole response.
#[derive(Debug)]
pub struct MyQuery {
    pub viewer: Viewer,
}

/// One retained price point: a present total at a parsed timestamp.
#[derive(Debug, Clone, Copy, PartialEq, Eq, Structural)]
pub struct HourlyPrice {
    /// Full price, milli-units per kWh.
    pub total: i64,
    /// Seconds since the Unix epoch, start of the hour the price covers.
    pub starts_at: i64,
}

/// The normalized price series.
#[derive(Debug)]
pub struct TibberData {
    pub hourly_prices: Vec<HourlyPrice>,
}

/// The price point an entry denotes, if both consumed fields are present and
/// the timestamp text parses.
pub open spec fn point_of(p: Price) -> Option<HourlyPrice> {
    match (p.starts_at, p.total) {
        (Some(s), Some(t)) => match rfc3339_secs_of(s@) {
            Some(ts) => Some(HourlyPrice { total: t, starts_at: ts }),
            None => None,
        },
        _ => None,
    }
}

/// The total an entry contributes at timestamp `ts`, given the cutoff
/// `start`: present only where the entry's point is at `ts` and not before
/// the cutoff.
pub open spec fn kept_at(p: Price, start: int, ts: int) -> Option<i64> {
    match point_of(p) {
        Some(hp) => if hp.starts_at == ts && hp.starts_at >= start {
            Some(hp.total)
        } else {
            None
        },
        None => None,
    }
}

/// The entries of a window, with the provider's explicit nulls removed.
pub open spec fn some_prices(v: Seq<Option<Price>>) -> Seq<Price>
    decreases v.len(),
{
    if v.len() == 0 {
        Seq::<Price>::empty()
    } else {
        some_prices(v.drop_last()) + match v.last() {
            Some(p) => seq![p],
            None => Seq::<Price>::empty(),
        }
    }
}

/// All entries one home contributes: its subscription's today window
/// followed by its tomorrow window, or nothing where either link is absent.
pub open spec fn home_prices(h: Option<Home>) -> Seq<Price> {
    match h {
        Some(home) => match home.current_subscription {
            Some(sub) => match sub.price_info {
                Some(pi) => some_prices(pi.today@) + some_prices(pi.tomorrow@),
                None => Seq::<Price>::empty(),
            },
            None => Seq::<Price>::empty(),
        },
        None => Seq::<Price>::empty(),
    }
}

pub open spec fn homes_prices(hs: Seq<Option<Home>>) -> Seq<Price>
    decreases hs.len(),
{
    if hs.len() == 0 {
        Seq::<Price>::empty()
    } else {
        homes_prices(hs.drop_last()) + home_prices(hs.last())
    }
}

/// Every raw entry of the response, in provider order.
pub open spec fn query_prices(q: MyQuery) -> Seq<Price> {
    homes_prices(q.viewer.homes@)
}

/// The total of the first entry that contributes a point at `ts`, or `None`
/// where no entry does. Duplicate timestamps keep their first occurrence.
pub open spec fn first_total_at(entries: Seq<Price>, start: int, ts: int) -> Option<i64>
    decreases entries.len(),
{
    if entries.len() == 0 {
        None::<i64>
    } else {
        match kept_at(entries[0], start, ts) {
            Some(t) => Some(t),
            None => first_total_at(entries.drop_first(), start, ts),
        }
    }
}

/// Timestamps strictly ascend, so each occurs at most once.
pub open spec fn sorted_strict(s: Seq<HourlyPrice>) -> bool {
    forall|i: int, j: int| 0 <= i < j < s.len() ==> s[i].starts_at < s[j].starts_at
}

pub open spec fn has_ts(s: Seq<HourlyPrice>, ts: int) -> bool {
    exists|i: int| 0 <= i < s.len() && s[i].starts_at == ts
}

pub open spec fn contains_point(s: Seq<HourlyPrice>, ts: int, t: i64) -> bool {
    exists|i: int| 0 <= i < s.len() && s[i].starts_at == ts && s[i].total == t
}

/// What normalization promises: the series is strictly sorted by timestamp,
/// holds nothing before the cutoff, and holds exactly the first-occurrence
/// total of every timestamp some entry contributes.
pub open spec fn series_matches(series: Seq<HourlyPrice>, entries: Seq<Price>, start: int) -> bool {
    &&& sorted_strict(series)
    &&& forall|i: int| 0 <= i < series.len() ==> series[i].starts_at >= start
    &&& forall|i: int|
        0 <= i < series.len() ==> first_total_at(entries, start, series[i].starts_at as int)
            == Some(series[i].total)
    &&& forall|ts: int| first_total_at(entries, start, ts) is Some ==> has_ts(series, ts)
}

/// A strictly sorted series holds each timestamp at most once, so a
/// duplicate across the two source windows can never appear — nor be
/// double-counted in range statistics.
pub proof fn lemma_timestamps_unique(s: Seq<HourlyPrice>)
    requires
        sorted_strict(s),
    ensures
        forall|i: int, j: int|
            0 <= i < s.len() && 0 <= j < s.len() && i != j ==> s[i].starts_at != s[j].starts_at,
{
}

proof fn lemma_some_prices_take(v: Seq<Option<Price>>, j: int)
    requires
        0 <= j < v.len(),
    ensures
        some_prices(v.take(j + 1)) == some_prices(v.take(j)) + match v[j] {
            Some(p) => seq![p],
            None => Seq::<Price>::empty(),
        },
{
    assert(v.take(j + 1).drop_last() =~= v.take(j));
    assert(v.take(j + 1).last() == v[j]);
}

proof fn lemma_homes_prices_take(hs: Seq<Option<Home>>, i: int)
    requires
        0 <= i < hs.len(),
    ensures
        homes_prices(hs.take(i + 1)) == homes_prices(hs.take(i)) + home_prices(hs[i]),
{
    assert(hs.take(i + 1).drop_last() =~= hs.take(i));
    assert(hs.take(i + 1).last() == hs[i]);
}

/// Appending an entry can only fill timestamps that no earlier entry filled.
proof fn lemma_first_total_push(s: Seq<Price>, e: Price, start: int, ts: int)
    ensures
        first_total_at(s.push(e), start, ts) == match first_total_at(s, start, ts) {
            Some(t) => Some(t),
            None => kept_at(e, start, ts),
        },
    decreases s.len(),
{
    if s.len() == 0 {
        assert(s.push(e)[0] == e);
        assert(s.push(e).drop_first() =~= Seq::<Price>::empty());
        assert(first_total_at(s.push(e).drop_first(), start, ts) is None);
        match kept_at(e, start, ts) {
            Some(t) => {
                assert(first_total_at(s.push(e), start, ts) == Some(t));
            },
            None => {
                assert(first_total_at(s.push(e), start, ts) is None);
            },
        }
    } else {
        assert(s.push(e)[0] == s[0]);
        assert(s.push(e).drop_first() =~= s.drop_first().push(e));
        lemma_first_total_push(s.drop_first(), e, start, ts);
        match kept_at(s[0], start, ts) {
            Some(t) => {
                assert(first_total_at(s.push(e), start, ts) == Some(t));
                assert(first_total_at(s, start, ts) == Some(t));
            },
            None => {
                assert(first_total_at(s.push(e), start, ts) == first_total_at(
                    s.drop_first().push(e),
                    start,
                    ts,
                ));
                assert(first_total_at(s, start, ts) == first_total_at(s.drop_first(), start, ts));
            },
        }
    }
}

/// References to every raw entry, flattened in provider order.
fn flatten_prices<'a>(q: &'a MyQuery) -> (r: Vec<&'a Price>)
    ensures
        r@.len() == query_prices(*q).len(),
        forall|i: int| 0 <= i < r@.len() ==> *r@[i] == query_prices(*q)[i],
{
    let mut r: Vec<&'a Price> = Vec::new();
    let homes = &q.viewer.homes;
    let ghost hs = homes@;
    let mut hi: usize = 0;
    while hi < homes.len()
        invariant
            hs == homes@,
            homes == &q.viewer.homes,
            hi <= homes.len(),
            r@.len() == homes_prices(hs.take(hi as int)).len(),
            forall|i: int| 0 <= i < r@.len() ==> *r@[i] == homes_prices(hs.take(hi as int))[i],
        decreases homes.len() - hi,
    {
        proof {
            lemma_homes_prices_take(hs, hi as int);
        }
        let ghost done = homes_prices(hs.take(hi as int));
        if let Some(home) = &homes[hi] {
            if let Some(sub) = &home.current_subscription {
                if let Some(pi) = &sub.price_info {
                    push_window(&mut r, &pi.today, Ghost(done));
                    push_window(
                        &mut r,
                        &pi.tomorrow,
                        Ghost(done + some_prices(pi.today@)),
                    );
                }
            }
        }
        hi = hi + 1;
    }
    proof {
        assert(hs.take(hs.len() as int) =~= hs);
    }
    r
}

/// Appends references to the present entries of one window.
fn push_window<'a>(r: &mut Vec<&'a Price>, window: &'a Vec<Option<Price>>, done: Ghost<Seq<Price>>)
    requires
        old(r)@.len() == done@.len(),
        forall|i: int| 0 <= i < old(r)@.len() ==> *old(r)@[i] == done@[i],
    ensures
        final(r)@.len() == (done@ + some_prices(window@)).len(),
        forall|i: int|
            0 <= i < final(r)@.len() ==> *final(r)@[i] == (done@ + some_prices(window@))[i],
{
    let mut j: usize = 0;
    while j < window.len()
        invariant
            j <= window.len(),
            r@.len() == (done@ + some_prices(window@.take(j as int))).len(),
            forall|i: int|
                0 <= i < r@.len() ==> *r@[i] == (done@ + some_prices(window@.take(j as int)))[i],
        decreases window.len() - j,
    {
        proof {
            lemma_some_prices_take(window@, j as int);
        }
        if let Some(p) = &window[j] {
            r.push(p);
        }
        j = j + 1;
    }
    proof {
        assert(window@.take(window@.len() as int) =~= window@);
    }
}

/// Inserts a point into a strictly sorted series, keeping the existing point
/// where the timestamp is already present.
fn push_point(series: &mut Vec<HourlyPrice>, p: HourlyPrice)
    requires
        sorted_strict(old(series)@),
    ensures
        sorted_strict(final(series)@),
        forall|ts: int, t: i64|
            contains_point(final(series)@, ts, t) <==> (contains_point(old(series)@, ts, t) || (
            !has_ts(old(series)@, p.starts_at as int) && ts == p.starts_at && t == p.total)),
        forall|ts: int|
            has_ts(final(series)@, ts) <==> (has_ts(old(series)@, ts) || ts == p.starts_at),
{
    let ghost pre = series@;
    let mut k: usize = 0;
    while k < series.len() && series[k].starts_at < p.starts_at
        invariant
            series@ == pre,
            k <= series@.len(),
            forall|i: int| 0 <= i < k ==> series@[i].starts_at < p.starts_at,
        decreases series@.len() - k,
    {
        k = k + 1;
    }
    if k < series.len() && series[k].starts_at == p.starts_at {
        // The timestamp is already present: keep the first occurrence.
        assert(has_ts(pre, p.starts_at as int));
        return ;
    }
    assert(forall|i: int|
        k <= i < pre.len() ==> pre[i].starts_at > p.starts_at) by {
        if k < pre.len() {
            assert(pre[k as int].starts_at > p.starts_at);
        }
    }
    assert(!has_ts(pre, p.starts_at as int));
    series.insert(k, p);
    let ghost post = series@;
    proof {
        assert(forall|i: int| 0 <= i < k ==> post[i] == pre[i]);
        assert(post[k as int] == p);
        assert(forall|i: int| k < i < post.len() ==> post[i] == pre[i - 1]);
        assert(sorted_strict(post));
        assert forall|ts: int, t: i64|
            contains_point(pre, ts, t) implies contains_point(post, ts, t) by {
            let i = choose|i: int| 0 <= i < pre.len() && pre[i].starts_at == ts && pre[i].total == t;
            if i < k {
                assert(post[i].starts_at == ts && post[i].total == t);
            } else {
                assert(post[i + 1].starts_at == ts && post[i + 1].total == t);
            }
        }
        assert forall|ts: int, t: i64|
            contains_point(post, ts, t) && !(ts == p.starts_at && t == p.total)
            implies contains_point(pre, ts, t) by {
            let i = choose|i: int|
                0 <= i < post.len() && post[i].starts_at == ts && post[i].total == t;
            if i < k {
                assert(pre[i].starts_at == ts && pre[i].total == t);
            } else {
                assert(i != k);
                assert(pre[i - 1].starts_at == ts && pre[i - 1].total == t);
            }
        }
        assert(contains_point(post, p.starts_at as int, p.total));
        assert forall|ts: int| has_ts(pre, ts) implies has_ts(post, ts) by {
            let i = choose|i: int| 0 <= i < pre.len() && pre[i].starts_at == ts;
            if i < k {
                assert(post[i].starts_at == ts);
            } else {
                assert(post[i + 1].starts_at == ts);
            }
        }
        assert forall|ts: int| has_ts(post, ts) && ts != p.starts_at implies has_ts(pre, ts) by {
            let i = choose|i: int| 0 <= i < post.len() && post[i].starts_at == ts;
            if i < k {
                assert(pre[i].starts_at == ts);
            } else {
                assert(i != k);
                assert(pre[i - 1].starts_at == ts);
            }
        }
        assert(has_ts(post, p.starts_at as int));
    }
}

/// Turns a decoded provider response into the normalized series: only
/// entries with both consumed fields present and a timestamp at or after
/// `start` are kept, duplicates keep their first occurrence, and the result
/// ascends strictly by timestamp.
pub fn normalize_prices(q: &MyQuery, start: i64) -> (r: TibberData)
    ensures
        series_matches(r.hourly_prices@, query_prices(*q), start as int),
{
    let entries = flatten_prices(q);
    let ghost all = query_prices(*q);
    proof {
        assert(entries@.map(|i: int, p: &Price| *p) =~= all);
    }
    let mut series: Vec<HourlyPrice> = Vec::new();
    let mut i: usize = 0;
    while i < entries.len()
        invariant
            entries@.len() == all.len(),
            forall|j: int| 0 <= j < all.len() ==> *entries@[j] == all[j],
            i <= entries@.len(),
            sorted_strict(series@),
            forall|j: int| 0 <= j < series@.len() ==> series@[j].starts_at >= start,
            forall|ts: int, t: i64|
                contains_point(series@, ts, t) <==> first_total_at(all.take(i as int), start as int, ts)
                    == Some(t),
            forall|ts: int|
                has_ts(series@, ts) <==> first_total_at(all.take(i as int), start as int, ts) is Some,
        decreases entries@.len() - i,
    {
        let p: &Price = entries[i];
        let ghost prev = all.take(i as int);
        proof {
            assert(all.take(i + 1) =~= all.take(i as int).push(all[i as int]));
        }
        assert forall|ts: int| #![trigger first_total_at(all.take(i + 1), start as int, ts)]
            first_total_at(all.take(i + 1), start as int, ts) == match first_total_at(
                prev,
                start as int,
                ts,
            ) {
                Some(t) => Some(t),
                None => kept_at(*p, start as int, ts),
            } by {
            lemma_first_total_push(prev, all[i as int], start as int, ts);
        }
        let mut parsed: Option<i64> = None;
        if let Some(s) = &p.starts_at {
            parsed = crate::clock::parse_rfc3339_secs(s.as_str());
        }
        if let Some(ts) = parsed {
            if let Some(t) = p.total {
                if ts >= start {
                    assert(kept_at(*p, start as int, ts as int) == Some(t));
                    assert(forall|ts2: int|
                        ts2 != ts ==> kept_at(*p, start as int, ts2) is None);
                    let ghost before = series@;
                    push_point(&mut series, HourlyPrice { total: t, starts_at: ts });
                    proof {
                        assert forall|j: int|
                            0 <= j < series@.len() implies series@[j].starts_at >= start by {
                            let jts = series@[j].starts_at as int;
                            let jt = series@[j].total;
                            assert(contains_point(series@, jts, jt));
                            if contains_point(before, jts, jt) {
                                let ii = choose|ii: int|
                                    0 <= ii < before.len() && before[ii].starts_at == jts
                                        && before[ii].total == jt;
                                assert(before[ii].starts_at >= start);
                            }
                        }
                    }
                } else {
                    assert(forall|ts2: int| kept_at(*p, start as int, ts2) is None);
                }
            } else {
                assert(forall|ts2: int| kept_at(*p, start as int, ts2) is None);
            }
        } else {
            assert(forall|ts2: int| kept_at(*p, start as int, ts2) is None);
        }
        i = i + 1;
    }
    proof {
        assert(all.take(all.len() as int) =~= all);
        assert forall|j: int| 0 <= j < series@.len() implies first_total_at(
            all,
            start as int,
            series@[j].starts_at as int,
        ) == Some(series@[j].total) by {
            assert(contains_point(series@, series@[j].starts_at as int, series@[j].total));
        }
    }
    TibberData { hourly_prices: series }
}

} // verus!
