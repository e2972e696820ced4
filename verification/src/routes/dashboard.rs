//! The dashboard's periods and figures.
use vstd::prelude::*;

use crate::calendar::{
    CalendarDate, chrono_date, chrono_date_text, chrono_local_instant, format_date, local_instant,
    parse_date_fmt, shift_month, shift_month_spec, KST_OFFSET_SECS,
};
use crate::errors::{is_bad_request, AppError};
use crate::import::{display_name_spec, make_card_display_name};
use crate::text::{append_str, chars_of, string_of};

verus! {

/// A month asked for, written `YYYY-MM`.
#[derive(Debug, Clone)]
pub struct MonthQuery {
    pub month: String,
}

/// A day asked for, written `YYYY-MM-DD`.
#[derive(Debug, Clone)]
pub struct DateQuery {
    pub date: String,
}

/// A named total of the monthly breakdowns.
#[derive(Debug, Clone)]
pub struct BreakdownItem {
    pub name: String,
    pub amount: i64,
}

/// The expense of one day of the calendar.
#[derive(Debug, Clone)]
pub struct CalendarDayTotal {
    pub date: String,
    pub total_expense: i64,
}

/// The name a card's spending is shown under: the issuer with the card's
/// last digits where both are known, else whichever is known, else
/// `미지정 카드`.
pub open spec fn card_display_spec(issuer: Option<Seq<char>>, card_name: Option<Seq<char>>) -> Seq<char> {
    match (issuer, card_name) {
        (Some(i), Some(n)) => display_name_spec(i, n),
        (Some(i), None) => i,
        (None, Some(n)) => n,
        (None, None) => "미지정 카드"@,
    }
}

/// The name a card's spending is shown under; see `card_display_spec`.
pub fn format_card_display_name(issuer: Option<&str>, card_name: Option<&str>) -> (r: String)
    ensures
        r@ == card_display_spec(
            match issuer {
                Some(i) => Some(i@),
                None => None,
            },
            match card_name {
                Some(n) => Some(n@),
                None => None,
            },
        ),
{
    match (issuer, card_name) {
        (Some(i), Some(n)) => make_card_display_name(i, n),
        (Some(i), None) => string_of(&chars_of(i)),
        (None, Some(n)) => string_of(&chars_of(n)),
        (None, None) => string_of(&chars_of("미지정 카드")),
    }
}

/// The message for a month that is not written `YYYY-MM`.
pub open spec fn month_message() -> Seq<char> {
    "월 형식이 올바르지 않습니다. YYYY-MM 형식으로 입력해 주세요"@
}

/// The instants (seconds since the Unix epoch, taken at UTC midnight) that
/// bound a month and the month before it, with that month's name.
#[derive(Debug, Clone)]
pub struct MonthPeriod {
    pub start: i64,
    pub next_start: i64,
    pub previous_start: i64,
    pub previous_month: String,
}

/// The period of the month `month`: its first day is `month` followed by
/// `-01` read as `%Y-%m-%d`; the month after and the month before are counted
/// from it. It fails with the month message where the text is no month, or
/// where the date library cannot place one of the three first days.
pub open spec fn month_period_spec(month: Seq<char>) -> Option<(i64, i64, i64, Seq<char>)> {
    match chrono_date(month + "-01"@, "%Y-%m-%d"@) {
        None => None,
        Some((y, m, d)) => {
            let (ny, nm) = shift_month_spec(y as int, m as int, 1);
            let (py, pm) = shift_month_spec(y as int, m as int, -1);
            match (
                chrono_local_instant(y, m, 1, 0, 0, 0, 0),
                chrono_local_instant(ny as i32, nm as u32, 1, 0, 0, 0, 0),
                chrono_local_instant(py as i32, pm as u32, 1, 0, 0, 0, 0),
                chrono_date_text(py as i32, pm as u32, 1, "%Y-%m"@),
            ) {
                (Some(s), Some(n), Some(p), Some(label)) => Some((s, n, p, label)),
                _ => None,
            }
        },
    }
}

/// The period of a month asked for; see `month_period_spec`.
pub fn month_period(month: &str) -> (r: Result<MonthPeriod, AppError>)
    ensures
        match month_period_spec(month@) {
            Some((s, n, p, label)) => r matches Ok(mp) && mp.start == s && mp.next_start == n
                && mp.previous_start == p && mp.previous_month@ == label,
            None => r matches Err(e) && is_bad_request(e, month_message()),
        },
{
    let mut text = string_of(&chars_of(month));
    append_str(&mut text, "-01");
    let (y, m, _d) = match parse_date_fmt(text.as_str(), "%Y-%m-%d") {
        Some(v) => v,
        None => return Err(AppError::bad_request("월 형식이 올바르지 않습니다. YYYY-MM 형식으로 입력해 주세요")),
    };
    let (ny, nm) = shift_month(y, m, 1);
    let (py, pm) = shift_month(y, m, -1);
    let start = local_instant(y, m, 1, 0, 0, 0, 0);
    let next_start = local_instant(ny, nm, 1, 0, 0, 0, 0);
    let previous_start = local_instant(py, pm, 1, 0, 0, 0, 0);
    let label = format_date(py, pm, 1, "%Y-%m");
    match (start, next_start, previous_start, label) {
        (Some(s), Some(n), Some(p), Some(l)) => Ok(
            MonthPeriod { start: s, next_start: n, previous_start: p, previous_month: l },
        ),
        _ => Err(AppError::bad_request("월 형식이 올바르지 않습니다. YYYY-MM 형식으로 입력해 주세요")),
    }
}

/// The instants (seconds since the Unix epoch) of the first and last second
/// of a day in Korea.
pub open spec fn day_period_spec(date: Seq<char>) -> Result<(i64, i64), Seq<char>> {
    match chrono_date(date, "%Y-%m-%d"@) {
        None => Err("날짜 형식이 올바르지 않습니다. YYYY-MM-DD 형식으로 입력해 주세요"@),
        Some((y, m, d)) => match chrono_local_instant(y, m, d, 0, 0, 0, KST_OFFSET_SECS) {
            None => Err("시작 시각 계산에 실패했습니다"@),
            Some(s) => match chrono_local_instant(y, m, d, 23, 59, 59, KST_OFFSET_SECS) {
                None => Err("종료 시각 계산에 실패했습니다"@),
                Some(e) => Ok((s, e)),
            },
        },
    }
}

/// The first and last second of a day asked for; see `day_period_spec`.
pub fn day_period(date: &str) -> (r: Result<(i64, i64), AppError>)
    ensures
        match day_period_spec(date@) {
            Ok(v) => r == Ok::<(i64, i64), AppError>(v),
            Err(m) => r matches Err(e) && is_bad_request(e, m),
        },
{
    let (y, m, d) = match parse_date_fmt(date, "%Y-%m-%d") {
        Some(v) => v,
        None => return Err(AppError::bad_request("날짜 형식이 올바르지 않습니다. YYYY-MM-DD 형식으로 입력해 주세요")),
    };
    let start = match local_instant(y, m, d, 0, 0, 0, KST_OFFSET_SECS) {
        Some(s) => s,
        None => return Err(AppError::bad_request("시작 시각 계산에 실패했습니다")),
    };
    let end = match local_instant(y, m, d, 23, 59, 59, KST_OFFSET_SECS) {
        Some(e) => e,
        None => return Err(AppError::bad_request("종료 시각 계산에 실패했습니다")),
    };
    Ok((start, end))
}

/// What `chrono::NaiveDate::format` writes for a day, or nothing where the
/// library knows no such day.
pub open spec fn day_text(d: CalendarDate) -> Seq<char> {
    match chrono_date_text(d.year, d.month, d.day, "%Y-%m-%d"@) {
        Some(t) => t,
        None => Seq::<char>::empty(),
    }
}

/// The expense of each day of the calendar, the day written `%Y-%m-%d` and
/// a missing total read as 0.
pub fn calendar_day_totals(rows: &Vec<(CalendarDate, Option<i64>)>) -> (r: Vec<CalendarDayTotal>)
    ensures
        r@.len() == rows@.len(),
        forall|i: int|
            0 <= i < r@.len() ==> {
                &&& (#[trigger] r@[i]).date@ == day_text(rows@[i].0)
                &&& r@[i].total_expense == match rows@[i].1 {
                    Some(v) => v,
                    None => 0,
                }
            },
{
    let mut r: Vec<CalendarDayTotal> = Vec::new();
    let mut k: usize = 0;
    while k < rows.len()
        invariant
            k <= rows@.len(),
            r@.len() == k,
            forall|i: int|
                0 <= i < k ==> {
                    &&& (#[trigger] r@[i]).date@ == day_text(rows@[i].0)
                    &&& r@[i].total_expense == match rows@[i].1 {
                        Some(v) => v,
                        None => 0,
                    }
                },
        decreases rows@.len() - k,
    {
        let (day, total) = rows[k];
        let date = match format_date(day.year, day.month, day.day, "%Y-%m-%d") {
            Some(t) => t,
            None => String::new(),
        };
        let total_expense: i64 = match total {
            Some(v) => v,
            None => 0,
        };
        r.push(CalendarDayTotal { date, total_expense });
        k += 1;
    }
    r
}

/// The change of the month's expense against the month before, as the
/// dashboard shows it in percent: none when neither month spent, all of it
/// when only this month spent, else the change over the earlier expense.
#[derive(Debug, Clone, Copy, PartialEq, Eq)]
pub enum ExpenseChangeRate {
    Zero,
    Hundred,
    Ratio { change: i64, previous: i64 },
}

/// The figures of a month against the month before.
#[derive(Debug, Clone, Copy, PartialEq, Eq)]
pub struct MonthlyFigures {
    pub net_expense: i64,
    pub previous_net_expense: i64,
    pub income_change_amount: i64,
    pub expense_change_amount: i64,
    pub net_expense_change_amount: i64,
    pub expense_change_rate: ExpenseChangeRate,
}

pub open spec fn fits(v: int) -> bool {
    i64::MIN <= v <= i64::MAX
}

/// The net expense of each month (expense less income), the changes of
/// income, expense and net expense, and how the change rate of the expense
/// is taken.
pub fn monthly_figures(
    total_income: i64,
    total_expense: i64,
    previous_total_income: i64,
    previous_total_expense: i64,
) -> (r: MonthlyFigures)
    requires
        fits(total_expense - total_income),
        fits(previous_total_expense - previous_total_income),
        fits(total_expense - previous_total_expense),
        fits(total_income - previous_total_income),
        fits((total_expense - total_income) - (previous_total_expense - previous_total_income)),
    ensures
        r.net_expense == total_expense - total_income,
        r.previous_net_expense == previous_total_expense - previous_total_income,
        r.income_change_amount == total_income - previous_total_income,
        r.expense_change_amount == total_expense - previous_total_expense,
        r.net_expense_change_amount == r.net_expense - r.previous_net_expense,
        r.expense_change_rate == (if previous_total_expense <= 0 {
            if total_expense <= 0 {
                ExpenseChangeRate::Zero
            } else {
                ExpenseChangeRate::Hundred
            }
        } else {
            ExpenseChangeRate::Ratio {
                change: (total_expense - previous_total_expense) as i64,
                previous: previous_total_expense,
            }
        }),
{
    let net_expense = total_expense - total_income;
    let previous_net_expense = previous_total_expense - previous_total_income;
    let expense_change_amount = total_expense - previous_total_expense;
    let income_change_amount = total_income - previous_total_income;
    let net_expense_change_amount = net_expense - previous_net_expense;
    let expense_change_rate = if previous_total_expense <= 0 {
        if total_expense <= 0 {
            ExpenseChangeRate::Zero
        } else {
            ExpenseChangeRate::Hundred
        }
    } else {
        ExpenseChangeRate::Ratio { change: expense_change_amount, previous: previous_total_expense }
    };
    MonthlyFigures {
        net_expense,
        previous_net_expense,
        income_change_amount,
        expense_change_amount,
        net_expense_change_amount,
        expense_change_rate,
    }
}

} // verus!
