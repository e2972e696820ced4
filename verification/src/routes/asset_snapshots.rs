//! Asset snapshots: the net worth of each day that has snapshots.
use vstd::prelude::*;

use crate::calendar::{chrono_date, format_date, parse_date_fmt, CalendarDate};
use crate::errors::{is_bad_request, AppError};
use crate::routes::kream::date_text;

verus! {

/// The days a net worth history is asked for, written `YYYY-MM-DD`.
#[derive(Debug, Clone)]
pub struct NetWorthQuery {
    pub from: String,
    pub to: String,
}

/// The net worth of one day.
#[derive(Debug, Clone)]
pub struct NetWorthPoint {
    pub date: String,
    pub assets: i64,
    pub liabilities: i64,
    pub net_worth: i64,
}

/// The snapshot totals of one day and one account type: the assets (all
/// types but card liabilities) and the card liabilities.
#[derive(Debug, Clone, Copy)]
pub struct SnapshotTotal {
    pub date: CalendarDate,
    pub assets: Option<i64>,
    pub liabilities: Option<i64>,
}

/// The days of a net worth history: each must be a `%Y-%m-%d` date.
pub open spec fn range_spec(from: Seq<char>, to: Seq<char>) -> Result<(CalendarDate, CalendarDate), Seq<char>> {
    match chrono_date(from, "%Y-%m-%d"@) {
        None => Err("시작일 형식이 올바르지 않습니다"@),
        Some((fy, fm, fd)) => match chrono_date(to, "%Y-%m-%d"@) {
            None => Err("종료일 형식이 올바르지 않습니다"@),
            Some((ty, tm, td)) => Ok(
                (
                    CalendarDate { year: fy, month: fm, day: fd },
                    CalendarDate { year: ty, month: tm, day: td },
                ),
            ),
        },
    }
}

/// The first and last day of a net worth history; see `range_spec`.
pub fn net_worth_range(query: &NetWorthQuery) -> (r: Result<(CalendarDate, CalendarDate), AppError>)
    ensures
        match range_spec(query.from@, query.to@) {
            Ok(v) => r == Ok::<(CalendarDate, CalendarDate), AppError>(v),
            Err(m) => r matches Err(e) && is_bad_request(e, m),
        },
{
    let (fy, fm, fd) = match parse_date_fmt(query.from.as_str(), "%Y-%m-%d") {
        Some(v) => v,
        None => return Err(AppError::bad_request("시작일 형식이 올바르지 않습니다")),
    };
    let (ty, tm, td) = match parse_date_fmt(query.to.as_str(), "%Y-%m-%d") {
        Some(v) => v,
        None => return Err(AppError::bad_request("종료일 형식이 올바르지 않습니다")),
    };
    Ok(
        (
            CalendarDate { year: fy, month: fm, day: fd },
            CalendarDate { year: ty, month: tm, day: td },
        ),
    )
}

/// `a` comes before `b`, by year, then month, then day.
pub open spec fn date_before(a: CalendarDate, b: CalendarDate) -> bool {
    a.year < b.year || (a.year == b.year && (a.month < b.month || (a.month == b.month && a.day
        < b.day)))
}

pub open spec fn or_zero(v: Option<i64>) -> int {
    match v {
        Some(x) => x as int,
        None => 0,
    }
}

/// The assets of the rows of day `d`.
pub open spec fn assets_on(rows: Seq<SnapshotTotal>, d: CalendarDate) -> int
    decreases rows.len(),
{
    if rows.len() == 0 {
        0
    } else {
        assets_on(rows.drop_last(), d) + if rows.last().date == d {
            or_zero(rows.last().assets)
        } else {
            0
        }
    }
}

/// The liabilities of the rows of day `d`.
pub open spec fn liabilities_on(rows: Seq<SnapshotTotal>, d: CalendarDate) -> int
    decreases rows.len(),
{
    if rows.len() == 0 {
        0
    } else {
        liabilities_on(rows.drop_last(), d) + if rows.last().date == d {
            or_zero(rows.last().liabilities)
        } else {
            0
        }
    }
}

/// Every running total of each day, and each day's net worth, fits in an
/// `i64`.
pub open spec fn totals_fit(rows: Seq<SnapshotTotal>) -> bool {
    &&& forall|k: int, d: CalendarDate|
        0 <= k <= rows.len() ==> i64::MIN <= #[trigger] assets_on(rows.take(k), d) <= i64::MAX
            && i64::MIN <= liabilities_on(rows.take(k), d) <= i64::MAX
    &&& forall|d: CalendarDate|
        i64::MIN <= #[trigger] assets_on(rows, d) - liabilities_on(rows, d) <= i64::MAX
}

/// One day's totals while they are gathered.
#[derive(Debug, Clone, Copy)]
pub struct DayTotal {
    pub date: CalendarDate,
    pub assets: i64,
    pub liabilities: i64,
}

pub open spec fn has_date(rows: Seq<SnapshotTotal>, d: CalendarDate) -> bool {
    exists|j: int| 0 <= j < rows.len() && rows[j].date == d
}

/// The days gathered so far: in order, each day once, each with the totals
/// of the rows seen, and exactly the days of those rows.
pub open spec fn days_of(g: Seq<DayTotal>, rows: Seq<SnapshotTotal>) -> bool {
    &&& forall|a: int, b: int| 0 <= a < b < g.len() ==> date_before(#[trigger] g[a].date, #[trigger] g[b].date)
    &&& forall|a: int|
        0 <= a < g.len() ==> (#[trigger] g[a]).assets == assets_on(rows, g[a].date)
            && g[a].liabilities == liabilities_on(rows, g[a].date) && has_date(rows, g[a].date)
    &&& forall|j: int| 0 <= j < rows.len() ==> exists|a: int| 0 <= a < g.len() && g[a].date == (#[trigger] rows[j]).date
}

proof fn lemma_step(rows: Seq<SnapshotTotal>, k: int, d: CalendarDate)
    requires
        0 <= k < rows.len(),
    ensures
        assets_on(rows.take(k + 1), d) == assets_on(rows.take(k), d) + if rows[k].date == d {
            or_zero(rows[k].assets)
        } else {
            0
        },
        liabilities_on(rows.take(k + 1), d) == liabilities_on(rows.take(k), d) + if rows[k].date == d {
            or_zero(rows[k].liabilities)
        } else {
            0
        },
{
    assert(rows.take(k + 1).drop_last() =~= rows.take(k));
}

proof fn lemma_absent_zero(rows: Seq<SnapshotTotal>, d: CalendarDate)
    requires
        !has_date(rows, d),
    ensures
        assets_on(rows, d) == 0,
        liabilities_on(rows, d) == 0,
    decreases rows.len(),
{
    if rows.len() > 0 {
        assert(!has_date(rows.drop_last(), d)) by {
            if has_date(rows.drop_last(), d) {
                let j = choose|j: int| 0 <= j < rows.drop_last().len() && rows.drop_last()[j].date == d;
                assert(rows[j].date == d);
            }
        }
        assert(rows.last().date != d) by {
            if rows.last().date == d {
                assert(rows[rows.len() - 1].date == d);
            }
        }
        lemma_absent_zero(rows.drop_last(), d);
    }
}

fn same_date(a: CalendarDate, b: CalendarDate) -> (r: bool)
    ensures
        r == (a == b),
{
    a.year == b.year && a.month == b.month && a.day == b.day
}

fn before(a: CalendarDate, b: CalendarDate) -> (r: bool)
    ensures
        r == date_before(a, b),
{
    a.year < b.year || (a.year == b.year && (a.month < b.month || (a.month == b.month && a.day < b.day)))
}

pub open spec fn day_fits(rows: Seq<SnapshotTotal>, k: int, d: CalendarDate) -> bool {
    i64::MIN <= assets_on(rows.take(k), d) <= i64::MAX && i64::MIN <= liabilities_on(rows.take(k), d)
        <= i64::MAX
}

proof fn lemma_absent_prefix(rows: Seq<SnapshotTotal>, k: int, d: CalendarDate)
    requires
        0 <= k <= rows.len(),
        !has_date(rows, d),
    ensures
        assets_on(rows.take(k), d) == 0,
        liabilities_on(rows.take(k), d) == 0,
{
    assert(!has_date(rows.take(k), d)) by {
        if has_date(rows.take(k), d) {
            let j = choose|j: int| 0 <= j < rows.take(k).len() && rows.take(k)[j].date == d;
            assert(rows[j].date == d);
        }
    }
    lemma_absent_zero(rows.take(k), d);
}

/// Whether `totals_fit` holds, which `net_worth_points` needs: every
/// running total of each day, and each day's net worth, fits in an `i64`.
pub fn totals_fit_check(rows: &Vec<SnapshotTotal>) -> (ok: bool)
    ensures
        ok == totals_fit(rows@),
{
    let n = rows.len();
    let mut j: usize = 0;
    while j < n
        invariant
            j <= n == rows@.len(),
            forall|jj: int, k: int| 0 <= jj < j && 0 <= k <= n ==> #[trigger] day_fits(rows@, k, rows@[jj].date),
            forall|jj: int|
                0 <= jj < j ==> i64::MIN <= #[trigger] assets_on(rows@, rows@[jj].date) - liabilities_on(
                    rows@,
                    rows@[jj].date,
                ) <= i64::MAX,
        decreases n - j,
    {
        let d = rows[j].date;
        let mut a: i64 = 0;
        let mut l: i64 = 0;
        let mut k: usize = 0;
        assert(rows@.take(0) =~= Seq::<SnapshotTotal>::empty());
        while k < n
            invariant
                k <= n == rows@.len(),
                d == rows@[j as int].date,
                a == assets_on(rows@.take(k as int), d),
                l == liabilities_on(rows@.take(k as int), d),
                forall|kk: int| 0 <= kk <= k ==> #[trigger] day_fits(rows@, kk, d),
            decreases n - k,
        {
            proof {
                lemma_step(rows@, k as int, d);
            }
            let r = rows[k];
            if same_date(r.date, d) {
                let add_a: i64 = match r.assets {
                    Some(x) => x,
                    None => 0,
                };
                let add_l: i64 = match r.liabilities {
                    Some(x) => x,
                    None => 0,
                };
                let na: i128 = a as i128 + add_a as i128;
                let nl: i128 = l as i128 + add_l as i128;
                if na < i64::MIN as i128 || na > i64::MAX as i128 || nl < i64::MIN as i128 || nl
                    > i64::MAX as i128 {
                    assert(!day_fits(rows@, k + 1, d));
                    return false;
                }
                a = na as i64;
                l = nl as i64;
            }
            k += 1;
        }
        assert(rows@.take(n as int) =~= rows@);
        let net: i128 = a as i128 - l as i128;
        if net < i64::MIN as i128 || net > i64::MAX as i128 {
            return false;
        }
        j += 1;
    }
    proof {
        assert forall|k: int, d: CalendarDate| 0 <= k <= rows@.len() implies i64::MIN <= #[trigger] assets_on(
            rows@.take(k),
            d,
        ) <= i64::MAX && i64::MIN <= liabilities_on(rows@.take(k), d) <= i64::MAX by {
            if has_date(rows@, d) {
                let jj = choose|jj: int| 0 <= jj < rows@.len() && rows@[jj].date == d;
                assert(day_fits(rows@, k, rows@[jj].date));
            } else {
                lemma_absent_prefix(rows@, k, d);
            }
        }
        assert forall|d: CalendarDate| i64::MIN <= #[trigger] assets_on(rows@, d) - liabilities_on(rows@, d)
            <= i64::MAX by {
            if has_date(rows@, d) {
                let jj = choose|jj: int| 0 <= jj < rows@.len() && rows@[jj].date == d;
                assert(i64::MIN <= assets_on(rows@, rows@[jj].date) - liabilities_on(rows@, rows@[jj].date) <= i64::MAX);
            } else {
                lemma_absent_zero(rows@, d);
            }
        }
    }
    true
}

/// The totals of each day of the rows, in date order; see `days_of`.
pub fn gather_days(rows: &Vec<SnapshotTotal>) -> (g: Vec<DayTotal>)
    requires
        totals_fit(rows@),
    ensures
        days_of(g@, rows@),
{
    let mut g: Vec<DayTotal> = Vec::new();
    let mut k: usize = 0;
    assert(rows@.take(0) =~= Seq::<SnapshotTotal>::empty());
    while k < rows.len()
        invariant
            k <= rows@.len(),
            totals_fit(rows@),
            days_of(g@, rows@.take(k as int)),
        decreases rows@.len() - k,
    {
        let ghost prev = rows@.take(k as int);
        let ghost next = rows@.take(k + 1);
        let ghost old_g = g@;
        let r = rows[k];
        assert(next =~= prev.push(r));
        proof {
            assert forall|d: CalendarDate| #![auto]
                assets_on(next, d) == assets_on(prev, d) + (if r.date == d { or_zero(r.assets) } else { 0 })
                && liabilities_on(next, d) == liabilities_on(prev, d) + (if r.date == d { or_zero(r.liabilities) } else { 0 }) by {
                lemma_step(rows@, k as int, d);
            }
            assert(i64::MIN <= assets_on(next, r.date) <= i64::MAX);
            assert(i64::MIN <= liabilities_on(next, r.date) <= i64::MAX);
        }
        let mut j: usize = 0;
        while j < g.len() && before(g[j].date, r.date)
            invariant
                j <= g@.len(),
                g@ == old_g,
                forall|a: int| 0 <= a < j ==> date_before(#[trigger] g@[a].date, r.date),
            decreases g@.len() - j,
        {
            j += 1;
        }
        if j < g.len() && same_date(g[j].date, r.date) {
            let add_a: i64 = match r.assets {
                Some(x) => x,
                None => 0,
            };
            let add_l: i64 = match r.liabilities {
                Some(x) => x,
                None => 0,
            };
            let cur = g[j];
            let updated = DayTotal {
                date: cur.date,
                assets: cur.assets + add_a,
                liabilities: cur.liabilities + add_l,
            };
            g.set(j, updated);
            proof {
                assert forall|a: int| 0 <= a < g@.len() implies (#[trigger] g@[a]).assets == assets_on(next, g@[a].date)
                    && g@[a].liabilities == liabilities_on(next, g@[a].date) && has_date(next, g@[a].date) by {
                    assert(has_date(prev, old_g[a].date));
                    let w = choose|w: int| 0 <= w < prev.len() && prev[w].date == old_g[a].date;
                    assert(next[w] == prev[w]);
                    if a != j {
                        assert(old_g[a].date != r.date) by {
                            if a < j {
                                assert(date_before(old_g[a].date, r.date));
                            } else {
                                assert(date_before(old_g[j as int].date, old_g[a].date));
                            }
                        }
                    }
                }
                assert forall|w: int| 0 <= w < next.len() implies exists|a: int| 0 <= a < g@.len() && g@[a].date == (#[trigger] next[w]).date by {
                    if w < prev.len() {
                        assert(next[w] == prev[w]);
                        let a = choose|a: int| 0 <= a < old_g.len() && old_g[a].date == prev[w].date;
                        assert(g@[a].date == old_g[a].date);
                    } else {
                        assert(g@[j as int].date == next[w].date);
                    }
                }
            }
        } else {
            proof {
                assert(!has_date(prev, r.date)) by {
                    if has_date(prev, r.date) {
                        let w = choose|w: int| 0 <= w < prev.len() && prev[w].date == r.date;
                        let a = choose|a: int| 0 <= a < old_g.len() && old_g[a].date == prev[w].date;
                        if a < j {
                            assert(date_before(old_g[a].date, r.date));
                        } else if a == j {
                        } else {
                            assert(date_before(old_g[j as int].date, old_g[a].date));
                            assert(!date_before(old_g[j as int].date, r.date));
                        }
                    }
                }
                lemma_absent_zero(prev, r.date);
            }
            let fresh = DayTotal {
                date: r.date,
                assets: match r.assets {
                    Some(x) => x,
                    None => 0,
                },
                liabilities: match r.liabilities {
                    Some(x) => x,
                    None => 0,
                },
            };
            g.insert(j, fresh);
            proof {
                assert forall|a: int, b: int| 0 <= a < b < g@.len() implies date_before(#[trigger] g@[a].date, #[trigger] g@[b].date) by {
                    if b < j {
                    } else if b == j {
                    } else if a < j {
                        assert(date_before(old_g[a].date, r.date));
                        assert(g@[b] == old_g[b - 1]);
                        if b - 1 > j {
                            assert(date_before(old_g[j as int].date, old_g[b - 1].date));
                        }
                    } else if a == j {
                        assert(g@[b] == old_g[b - 1]);
                        if b - 1 > j {
                            assert(date_before(old_g[j as int].date, old_g[b - 1].date));
                        }
                    } else {
                        assert(g@[a] == old_g[a - 1]);
                        assert(g@[b] == old_g[b - 1]);
                    }
                }
                assert forall|a: int| 0 <= a < g@.len() implies (#[trigger] g@[a]).assets == assets_on(next, g@[a].date)
                    && g@[a].liabilities == liabilities_on(next, g@[a].date) && has_date(next, g@[a].date) by {
                    if a == j {
                        assert(next[k as int].date == r.date);
                    } else {
                        let o = if a < j { a } else { a - 1 };
                        assert(g@[a] == old_g[o]);
                        assert(has_date(prev, old_g[o].date));
                        let w = choose|w: int| 0 <= w < prev.len() && prev[w].date == old_g[o].date;
                        assert(next[w] == prev[w]);
                        assert(old_g[o].date != r.date);
                    }
                }
                assert forall|w: int| 0 <= w < next.len() implies exists|a: int| 0 <= a < g@.len() && g@[a].date == (#[trigger] next[w]).date by {
                    if w < prev.len() {
                        assert(next[w] == prev[w]);
                        let a = choose|a: int| 0 <= a < old_g.len() && old_g[a].date == prev[w].date;
                        if a < j {
                            assert(g@[a] == old_g[a]);
                        } else {
                            assert(g@[a + 1] == old_g[a]);
                        }
                    } else {
                        assert(g@[j as int].date == next[w].date);
                    }
                }
            }
        }
        k += 1;
    }
    assert(rows@.take(rows@.len() as int) =~= rows@);
    g
}

/// The net worth history: one point per day of the rows, in date order,
/// with the day written `%Y-%m-%d`, its assets, its liabilities and their
/// difference.
pub fn net_worth_points(rows: &Vec<SnapshotTotal>) -> (points: Vec<NetWorthPoint>)
    requires
        totals_fit(rows@),
    ensures
        exists|g: Seq<DayTotal>| {
            &&& days_of(g, rows@)
            &&& g.len() == points@.len()
            &&& forall|a: int|
                0 <= a < g.len() ==> {
                    &&& (#[trigger] points@[a]).date@ == date_text(g[a].date, "%Y-%m-%d"@)
                    &&& points@[a].assets == g[a].assets
                    &&& points@[a].liabilities == g[a].liabilities
                    &&& points@[a].net_worth == g[a].assets - g[a].liabilities
                }
        },
{
    let g = gather_days(rows);
    let mut points: Vec<NetWorthPoint> = Vec::new();
    let mut a: usize = 0;
    while a < g.len()
        invariant
            a <= g@.len(),
            days_of(g@, rows@),
            totals_fit(rows@),
            points@.len() == a,
            forall|b: int|
                0 <= b < a ==> {
                    &&& (#[trigger] points@[b]).date@ == date_text(g@[b].date, "%Y-%m-%d"@)
                    &&& points@[b].assets == g@[b].assets
                    &&& points@[b].liabilities == g@[b].liabilities
                    &&& points@[b].net_worth == g@[b].assets - g@[b].liabilities
                },
        decreases g@.len() - a,
    {
        let day = g[a];
        assert(i64::MIN <= assets_on(rows@, day.date) - liabilities_on(rows@, day.date) <= i64::MAX);
        let text = match format_date(day.date.year, day.date.month, day.date.day, "%Y-%m-%d") {
            Some(t) => t,
            None => String::new(),
        };
        points.push(
            NetWorthPoint {
                date: text,
                assets: day.assets,
                liabilities: day.liabilities,
                net_worth: day.assets - day.liabilities,
            },
        );
        a += 1;
    }
    points
}

} // verus!
