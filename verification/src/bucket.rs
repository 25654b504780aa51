//! Classifies a price series into low/medium/high display buckets against
//! the observed range, with the upper bound capped so a single spike does not
//! compress every other price into one bucket.
//!
//! All thresholds are exact: a price is low when `total <= min + delta/3`
//! and medium when `total <= min + 2*delta/3`, with the comparisons stated
//! multiplicatively (`3*(total - min) <= delta`) so no rounding is involved.
//! Ties resolve to the lower-intensity bucket.

use vstd::prelude::*;

use crate::price::HourlyPrice;
use crate::price::TibberData;

verus! {

/// The range cap, in milli-units: 1.5 currency units.
pub const PRICE_CAP_MILLI: i64 = 1500;

/// The three-way display classification of one price.
#[derive(Debug, Clone, Copy, PartialEq, Eq, Structural)]
pub enum BucketLevel {
    Low,
    Medium,
    High,
}

/// One display row: the hour label in local time, the price scaled for
/// display, and its bucket.
#[derive(Debug)]
pub struct BucketEntry {
    /// Two zero-padded digits, "00" through "23", the point's start hour in
    /// the machine's local time zone.
    pub hour_label: String,
    /// The price in tenths of the display unit, i.e. `total * 100` carried
    /// to one decimal: a total of 1.234 currency units is 1234.
    pub display_tenths: i64,
    pub level: BucketLevel,
}

pub open spec fn min_total(s: Seq<HourlyPrice>) -> int
    recommends
        s.len() > 0,
    decreases s.len(),
{
    if s.len() <= 1 {
        if s.len() == 1 {
            s[0].total as int
        } else {
            0
        }
    } else {
        let rest = min_total(s.drop_last());
        if s.last().total < rest {
            s.last().total as int
        } else {
            rest
        }
    }
}

pub open spec fn max_total(s: Seq<HourlyPrice>) -> int
    recommends
        s.len() > 0,
    decreases s.len(),
{
    if s.len() <= 1 {
        if s.len() == 1 {
            s[0].total as int
        } else {
            0
        }
    } else {
        let rest = max_total(s.drop_last());
        if s.last().total > rest {
            s.last().total as int
        } else {
            rest
        }
    }
}

/// The upper bound of the range used for bucketing: the maximum, capped.
pub open spec fn capped_max(s: Seq<HourlyPrice>) -> int {
    if max_total(s) > PRICE_CAP_MILLI as int {
        PRICE_CAP_MILLI as int
    } else {
        max_total(s)
    }
}

/// The bucket of a price against the range `[lo, hi]`, by exact thirds.
pub open spec fn level_in_range(total: int, lo: int, hi: int) -> BucketLevel {
    let delta = hi - lo;
    if 3 * (total - lo) <= delta {
        BucketLevel::Low
    } else if 3 * (total - lo) <= 2 * delta {
        BucketLevel::Medium
    } else {
        BucketLevel::High
    }
}

/// The bucket a price of the series falls in.
pub open spec fn bucket_level(s: Seq<HourlyPrice>, total: int) -> BucketLevel {
    level_in_range(total, min_total(s), capped_max(s))
}

/// The view of the zero-padded decimal text of one digit.
pub open spec fn digit_text_spec(d: int) -> Seq<char> {
    if d == 0 {
        "0"@
    } else if d == 1 {
        "1"@
    } else if d == 2 {
        "2"@
    } else if d == 3 {
        "3"@
    } else if d == 4 {
        "4"@
    } else if d == 5 {
        "5"@
    } else if d == 6 {
        "6"@
    } else if d == 7 {
        "7"@
    } else if d == 8 {
        "8"@
    } else {
        "9"@
    }
}

/// The two-digit zero-padded text of an hour number.
pub open spec fn hour_label_spec(h: int) -> Seq<char> {
    digit_text_spec(h / 10) + digit_text_spec(h % 10)
}

/// The text is the zero-padded label of some hour of the day.
pub open spec fn is_hour_label(s: Seq<char>) -> bool {
    exists|h: int| 0 <= h < 24 && s == hour_label_spec(h)
}

fn digit_text(d: u8) -> (r: &'static str)
    requires
        d < 10,
    ensures
        r@ == digit_text_spec(d as int),
{
    match d {
        0 => "0",
        1 => "1",
        2 => "2",
        3 => "3",
        4 => "4",
        5 => "5",
        6 => "6",
        7 => "7",
        8 => "8",
        _ => "9",
    }
}

/// The zero-padded 24-hour label of an hour number.
fn hour_label(h: u8) -> (r: String)
    requires
        h < 24,
    ensures
        r@ == hour_label_spec(h as int),
{
    String::from_str(digit_text(h / 10)).concat(digit_text(h % 10))
}

fn classify(total: i64, lo: i64, hi: i64) -> (r: BucketLevel)
    ensures
        r == level_in_range(total as int, lo as int, hi as int),
{
    let delta: i128 = (hi as i128) - (lo as i128);
    let d: i128 = 3 * ((total as i128) - (lo as i128));
    if d <= delta {
        BucketLevel::Low
    } else if d <= 2 * delta {
        BucketLevel::Medium
    } else {
        BucketLevel::High
    }
}

/// The minimum and maximum totals of a non-empty series.
fn range_of(prices: &Vec<HourlyPrice>) -> (r: (i64, i64))
    requires
        prices@.len() > 0,
    ensures
        r.0 as int == min_total(prices@),
        r.1 as int == max_total(prices@),
{
    let mut lo: i64 = prices[0].total;
    let mut hi: i64 = prices[0].total;
    let mut i: usize = 1;
    while i < prices.len()
        invariant
            1 <= i <= prices@.len(),
            lo as int == min_total(prices@.take(i as int)),
            hi as int == max_total(prices@.take(i as int)),
        decreases prices@.len() - i,
    {
        proof {
            assert(prices@.take(i + 1).drop_last() =~= prices@.take(i as int));
            assert(prices@.take(i + 1).last() == prices@[i as int]);
        }
        if prices[i].total < lo {
            lo = prices[i].total;
        }
        if prices[i].total > hi {
            hi = prices[i].total;
        }
        i = i + 1;
    }
    proof {
        assert(prices@.take(prices@.len() as int) =~= prices@);
    }
    (lo, hi)
}

/// Turns a normalized series into display rows, one per point and in the
/// same order. An empty series yields an empty result; a degenerate range
/// involves no division, so no point is misclassified.
///
/// The timestamp bound admits every date the time library can represent a
/// local hour for.
pub fn bucket(data: &TibberData) -> (r: Vec<BucketEntry>)
    requires
        forall|i: int|
            0 <= i < data.hourly_prices@.len() ==> 0 <= #[trigger] data.hourly_prices@[i].starts_at
                < 100_000_000_000,
    ensures
        r@.len() == data.hourly_prices@.len(),
        forall|i: int|
            0 <= i < r@.len() ==> #[trigger] r@[i].level == bucket_level(
                data.hourly_prices@,
                data.hourly_prices@[i].total as int,
            ),
        forall|i: int|
            0 <= i < r@.len() ==> #[trigger] r@[i].display_tenths == data.hourly_prices@[i].total,
        forall|i: int| 0 <= i < r@.len() ==> #[trigger] is_hour_label(r@[i].hour_label@),
{
    let prices = &data.hourly_prices;
    let mut r: Vec<BucketEntry> = Vec::new();
    if prices.len() == 0 {
        return r;
    }
    let (lo, hi) = range_of(prices);
    let hi = if hi > PRICE_CAP_MILLI {
        PRICE_CAP_MILLI
    } else {
        hi
    };
    assert(hi as int == capped_max(prices@));
    let mut i: usize = 0;
    while i < prices.len()
        invariant
            prices == &data.hourly_prices,
            forall|j: int|
                0 <= j < prices@.len() ==> 0 <= #[trigger] prices@[j].starts_at < 100_000_000_000,
            lo as int == min_total(prices@),
            hi as int == capped_max(prices@),
            i <= prices@.len(),
            r@.len() == i,
            forall|j: int|
                0 <= j < i ==> #[trigger] r@[j].level == bucket_level(
                    prices@,
                    prices@[j].total as int,
                ),
            forall|j: int| 0 <= j < i ==> #[trigger] r@[j].display_tenths == prices@[j].total,
            forall|j: int| 0 <= j < i ==> #[trigger] is_hour_label(r@[j].hour_label@),
        decreases prices@.len() - i,
    {
        let p = prices[i];
        let h = crate::clock::local_hour_of(p.starts_at);
        let entry = BucketEntry {
            hour_label: hour_label(h),
            display_tenths: p.total,
            level: classify(p.total, lo, hi),
        };
        assert(entry.hour_label@ == hour_label_spec(h as int));
        assert(is_hour_label(entry.hour_label@));
        r.push(entry);
        i = i + 1;
    }
    r
}

proof fn lemma_uniform_range(s: Seq<HourlyPrice>, t: i64)
    requires
        s.len() > 0,
        forall|i: int| 0 <= i < s.len() ==> #[trigger] s[i].total == t,
    ensures
        min_total(s) == t as int,
        max_total(s) == t as int,
    decreases s.len(),
{
    if s.len() > 1 {
        lemma_uniform_range(s.drop_last(), t);
        assert(s.last() == s[s.len() - 1]);
    }
}

/// Degenerate range: when every total is the same value and that value does
/// not exceed the cap, the range collapses to a point and every price
/// classifies as low — the boundary comparison is non-strict, so
/// `total <= min + 0` holds.
///
/// When the shared value exceeds the cap this does not hold: the capped
/// upper bound then lies below the minimum and every price classifies as
/// high.
pub proof fn lemma_uniform_series_all_low(s: Seq<HourlyPrice>, t: i64)
    requires
        s.len() > 0,
        forall|i: int| 0 <= i < s.len() ==> #[trigger] s[i].total == t,
        t <= PRICE_CAP_MILLI,
    ensures
        forall|i: int|
            0 <= i < s.len() ==> #[trigger] bucket_level(s, s[i].total as int) == BucketLevel::Low,
{
    lemma_uniform_range(s, t);
}

} // verus!
