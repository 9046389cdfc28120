use vstd::prelude::*;
use vstd::string::StringExecFns;

use crate::catalog::TimeRange;
use crate::text::{decimal, decimal_text, digits_value, lemma_decimal_reads_back, string_from_chars};

verus! {

/// Milliseconds in a day.
pub const DAY_MS: i64 = 86_400_000;

/// Which price a period's profit and loss is measured from.
#[derive(Clone, Copy, Debug, PartialEq, Eq, Structural)]
pub enum BasePoint {
    /// The period is the whole holding: the profit and loss against the average cost.
    WholeHolding,
    /// There is no price history: measure from the average cost.
    AverageCost,
    /// Measure from the price of this point of the history.
    Point(usize),
}

/// The first index from `i` on whose time is at or after `start`.
pub open spec fn first_at_or_after(ts: Seq<i64>, start: int, i: int) -> Option<int>
    decreases ts.len() - i,
{
    if i < 0 || i >= ts.len() {
        None
    } else if ts[i] >= start {
        Some(i)
    } else {
        first_at_or_after(ts, start, i + 1)
    }
}

/// When the period `range` starts, seen at time `now` (milliseconds); none for the whole holding.
pub open spec fn period_start(range: TimeRange, now: int) -> Option<int> {
    match range.spec_days() {
        Some(d) => Some(now - d * DAY_MS),
        None => None,
    }
}

/// The base of the period: the first point of the history at or after the
/// period's start, else the last point, else the average cost.
pub open spec fn base_point_of(range: TimeRange, now: i64, ts: Seq<i64>) -> BasePoint {
    match period_start(range, now as int) {
        None => BasePoint::WholeHolding,
        Some(start) => if ts.len() == 0 {
            BasePoint::AverageCost
        } else {
            match first_at_or_after(ts, start, 0) {
                Some(i) => BasePoint::Point(i as usize),
                None => BasePoint::Point((ts.len() - 1) as usize),
            }
        },
    }
}

/// Which price the profit and loss over `range`, seen at `now_ms`, is measured
/// from, for a history whose points were taken at `timestamps` (milliseconds).
pub fn base_point(range: TimeRange, now_ms: i64, timestamps: &Vec<i64>) -> (b: BasePoint)
    ensures
        b == base_point_of(range, now_ms, timestamps@),
{
    match range.days() {
        None => BasePoint::WholeHolding,
        Some(d) => {
            let start: i128 = (now_ms as i128) - (d as i128) * (DAY_MS as i128);
            let n = timestamps.len();
            if n == 0 {
                return BasePoint::AverageCost;
            }
            for i in 0..n
                invariant
                    n == timestamps.len(),
                    n > 0,
                    range.spec_days() == Some(d),
                    start == now_ms - d * DAY_MS,
                    first_at_or_after(timestamps@, start as int, 0) == first_at_or_after(
                        timestamps@,
                        start as int,
                        i as int,
                    ),
            {
                if (timestamps[i] as i128) >= start {
                    return BasePoint::Point(i);
                }
            }
            BasePoint::Point(n - 1)
        },
    }
}

proof fn lemma_first_at_or_after(ts: Seq<i64>, start: int, i: int)
    requires
        0 <= i,
    ensures
        first_at_or_after(ts, start, i) matches Some(k) ==> i <= k < ts.len() && ts[k] >= start
            && forall|j: int| i <= j < k ==> ts[j] < start,
        first_at_or_after(ts, start, i) is None ==> forall|j: int| i <= j < ts.len() ==> ts[j] < start,
    decreases ts.len() - i,
{
    if i < ts.len() && ts[i] < start {
        lemma_first_at_or_after(ts, start, i + 1);
    }
}

/// The rule by which a period's base is chosen. ALL measures from the average
/// cost over the whole holding; 7D, 30D and 90D start 604,800,000,
/// 2,592,000,000 and 7,776,000,000 milliseconds before `now`. With no history
/// the base is the average cost. Otherwise it is a point of the history: the
/// first one at or after the start, or, when every point is older, the last
/// (latest) one. Every point before the chosen one is older than the start.
pub proof fn lemma_base_point_rule(range: TimeRange, now: i64, ts: Seq<i64>)
    requires
        ts.len() <= usize::MAX,
    ensures
        range == TimeRange::All ==> base_point_of(range, now, ts) == BasePoint::WholeHolding,
        range != TimeRange::All && ts.len() == 0 ==> base_point_of(range, now, ts)
            == BasePoint::AverageCost,
        range != TimeRange::All && ts.len() > 0 ==> {
            let start: int = match range {
                TimeRange::D7 => now - 604_800_000,
                TimeRange::D30 => now - 2_592_000_000,
                TimeRange::D90 => now - 7_776_000_000,
                TimeRange::All => now as int,
            };
            &&& base_point_of(range, now, ts) matches BasePoint::Point(i)
            &&& 0 <= (i as int) < ts.len()
            &&& forall|j: int| 0 <= j < i ==> ts[j] < start
            &&& (ts[i as int] >= start || (i == ts.len() - 1 && forall|j: int|
                0 <= j < ts.len() ==> ts[j] < start))
        },
{
    if range != TimeRange::All && ts.len() > 0 {
        let start = period_start(range, now as int)->0;
        lemma_first_at_or_after(ts, start, 0);
    }
}

/// When every point of a history is older than the period's start, the
/// period measures from the last (latest) point.
pub proof fn lemma_base_point_all_older(range: TimeRange, now: i64, ts: Seq<i64>)
    requires
        range != TimeRange::All,
        0 < ts.len() <= usize::MAX,
        forall|j: int| 0 <= j < ts.len() ==> ts[j] < now - range.spec_days()->0 * DAY_MS,
    ensures
        base_point_of(range, now, ts) == BasePoint::Point((ts.len() - 1) as usize),
{
    lemma_base_point_rule(range, now, ts);
    lemma_period_days();
}

/// The days each period reaches back, and the length of a day.
pub proof fn lemma_period_days()
    ensures
        TimeRange::D7.spec_days() == Some(7u32),
        TimeRange::D30.spec_days() == Some(30u32),
        TimeRange::D90.spec_days() == Some(90u32),
        TimeRange::All.spec_days() is None,
        DAY_MS == 86_400_000,
{
}

/// How many days before its creation each point of a new asset's starting history lies.
pub open spec fn demo_days_back() -> Seq<int> {
    seq![90, 30, 7, 0]
}

/// The times of a new asset's starting history: ninety, thirty and seven days
/// before `now`, then `now` itself.
pub open spec fn demo_timestamps(now: int) -> Seq<int> {
    demo_days_back().map_values(|d: int| now - d * DAY_MS)
}

/// The times of the history that a new asset starts with, so that each period
/// has a point of its own from the first day on.
pub fn demo_history_timestamps(now_ms: i64) -> (v: Vec<i64>)
    requires
        now_ms >= i64::MIN + 90 * DAY_MS,
    ensures
        v.len() == 4,
        forall|i: int| 0 <= i < 4 ==> v@[i] as int == #[trigger] demo_timestamps(now_ms as int)[i],
{
    let v = vec![now_ms - 90 * DAY_MS, now_ms - 30 * DAY_MS, now_ms - 7 * DAY_MS, now_ms];
    assert forall|i: int| 0 <= i < 4 implies v@[i] as int == #[trigger] demo_timestamps(now_ms as int)[i] by {
        assert(demo_days_back()[i] == seq![90int, 30, 7, 0][i]);
    }
    v
}

/// The times of a new asset's starting history: 90, 30 and 7 days of
/// 86,400,000 milliseconds before its creation, then the creation itself.
pub proof fn lemma_demo_times(now: int)
    ensures
        demo_timestamps(now) == seq![now - 7_776_000_000, now - 2_592_000_000, now - 604_800_000, now],
{
    assert(demo_timestamps(now) =~= seq![now - 7_776_000_000, now - 2_592_000_000, now - 604_800_000, now]);
}

/// Seen at the moment a new asset is made, each period measures from the
/// point of the starting history that lies exactly that period back: ninety
/// days from the first, thirty from the second, seven from the third.
pub proof fn lemma_demo_history_periods(now: i64, ts: Seq<i64>, range: TimeRange)
    requires
        ts.len() == 4,
        forall|i: int| 0 <= i < 4 ==> ts[i] as int == #[trigger] demo_timestamps(now as int)[i],
    ensures
        base_point_of(range, now, ts) == match range {
            TimeRange::D90 => BasePoint::Point(0),
            TimeRange::D30 => BasePoint::Point(1),
            TimeRange::D7 => BasePoint::Point(2),
            TimeRange::All => BasePoint::WholeHolding,
        },
{
    let d = demo_timestamps(now as int);
    assert(ts[0] as int == d[0]);
    assert(ts[1] as int == d[1]);
    assert(ts[2] as int == d[2]);
    assert(ts[3] as int == d[3]);
    match range {
        TimeRange::D90 => {
            assert(first_at_or_after(ts, now - 90 * DAY_MS, 0) == Some(0int));
        },
        TimeRange::D30 => {
            assert(first_at_or_after(ts, now - 30 * DAY_MS, 1) == Some(1int));
        },
        TimeRange::D7 => {
            assert(first_at_or_after(ts, now - 7 * DAY_MS, 2) == Some(2int));
            assert(first_at_or_after(ts, now - 7 * DAY_MS, 1) == Some(2int));
        },
        TimeRange::All => {},
    }
}

/// Read at any time in the first seven days after a new asset is made (after
/// the moment itself), each period measures from a point of its own: seven
/// days from the last, thirty from the third, ninety from the second.
pub proof fn lemma_demo_history_first_week(created: i64, now: i64, ts: Seq<i64>, range: TimeRange)
    requires
        ts.len() == 4,
        forall|i: int| 0 <= i < 4 ==> ts[i] as int == #[trigger] demo_timestamps(created as int)[i],
        created < now <= created + 7 * DAY_MS,
    ensures
        base_point_of(range, now, ts) == match range {
            TimeRange::D90 => BasePoint::Point(1),
            TimeRange::D30 => BasePoint::Point(2),
            TimeRange::D7 => BasePoint::Point(3),
            TimeRange::All => BasePoint::WholeHolding,
        },
{
    let d = demo_timestamps(created as int);
    assert(ts[0] as int == d[0]);
    assert(ts[1] as int == d[1]);
    assert(ts[2] as int == d[2]);
    assert(ts[3] as int == d[3]);
    match range {
        TimeRange::D90 => {
            assert(first_at_or_after(ts, now - 90 * DAY_MS, 1) == Some(1int));
        },
        TimeRange::D30 => {
            assert(first_at_or_after(ts, now - 30 * DAY_MS, 2) == Some(2int));
            assert(first_at_or_after(ts, now - 30 * DAY_MS, 1) == Some(2int));
        },
        TimeRange::D7 => {
            assert(first_at_or_after(ts, now - 7 * DAY_MS, 3) == Some(3int));
            assert(first_at_or_after(ts, now - 7 * DAY_MS, 2) == Some(3int));
            assert(first_at_or_after(ts, now - 7 * DAY_MS, 1) == Some(3int));
        },
        TimeRange::All => {},
    }
}

/// The text `str::to_uppercase` makes of `s`: each character mapped to its
/// Unicode upper case (which may be more than one character).
pub uninterp spec fn upper_case(s: Seq<char>) -> Seq<char>;

/// `str::to_uppercase`. Claimed: the result is `upper_case` of the text, a
/// function of the text alone.
#[verifier::external_body]
fn to_upper(s: &str) -> (r: String)
    ensures
        r@ == upper_case(s@),
{
    s.to_uppercase()
}

/// The decimal numeral of `n`, with a minus sign when it is negative.
pub open spec fn signed_decimal(n: int) -> Seq<char> {
    if n < 0 {
        seq!['-'] + decimal((-n) as nat)
    } else {
        decimal(n as nat)
    }
}

/// The id's time part: a non-negative time reads back as itself; a negative
/// one is a minus sign followed by a numeral that reads back as its size.
pub proof fn lemma_signed_decimal_reads_back(n: int)
    ensures
        n >= 0 ==> digits_value(signed_decimal(n)) == n && signed_decimal(n)[0] != '-',
        n < 0 ==> signed_decimal(n)[0] == '-' && digits_value(signed_decimal(n).skip(1)) == -n,
{
    if n >= 0 {
        lemma_decimal_reads_back(n as nat);
    } else {
        lemma_decimal_reads_back((-n) as nat);
        assert(signed_decimal(n).skip(1) =~= decimal((-n) as nat));
    }
}

/// The names a new asset is given.
#[derive(Debug)]
pub struct AssetLabel {
    /// The symbol as typed, a dash, and the creation time in milliseconds.
    pub id: String,
    /// The symbol in upper case.
    pub symbol: String,
}

/// The names of an asset made at `now_ms` from the typed `symbol`.
pub fn asset_label(symbol: &str, now_ms: i64) -> (l: AssetLabel)
    ensures
        l.id@ == symbol@ + seq!['-'] + signed_decimal(now_ms as int),
        l.symbol@ == upper_case(symbol@),
{
    let mut id = String::from_str(symbol);
    id.append("-");
    if now_ms < 0 {
        id.append("-");
        let magnitude: u64 = ((-(now_ms + 1)) as u64) + 1;
        let digits = string_from_chars(&decimal_text(magnitude));
        id.append(digits.as_str());
    } else {
        let digits = string_from_chars(&decimal_text(now_ms as u64));
        id.append(digits.as_str());
    }
    proof {
        reveal_strlit("-");
    }
    assert(id@ =~= symbol@ + seq!['-'] + signed_decimal(now_ms as int));
    AssetLabel { id, symbol: to_upper(symbol) }
}

} // verus!
