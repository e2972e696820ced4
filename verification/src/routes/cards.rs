//! Cards: the checks of a new card, the month of a card's summary, and the
//! totals of its transactions.
use vstd::prelude::*;

use crate::calendar::{chrono_date, chrono_local_instant, local_instant, parse_date_fmt, shift_month, shift_month_spec};
use crate::errors::{is_bad_request, AppError};
use crate::text::{append_str, chars_of, string_of, trim, trim_seq};

verus! {

/// The month a card's summary is asked for, written `YYYY-MM`.
#[derive(Debug, Clone)]
pub struct CardSummaryQuery {
    pub month: String,
}

/// A new card needs an issuer and a card name that are not blank.
pub fn check_new_card(issuer: &str, card_name: &str) -> (r: Result<(), AppError>)
    ensures
        trim_seq(issuer@).len() == 0 || trim_seq(card_name@).len() == 0 ==> (r matches Err(e)
            && is_bad_request(e, "카드사와 카드명을 입력해 주세요"@)),
        trim_seq(issuer@).len() > 0 && trim_seq(card_name@).len() > 0 ==> r is Ok,
{
    if trim(issuer).as_str().unicode_len() == 0 || trim(card_name).as_str().unicode_len() == 0 {
        return Err(AppError::bad_request("카드사와 카드명을 입력해 주세요"));
    }
    Ok(())
}

/// The instants (UTC midnight, seconds since the Unix epoch) of the first
/// day of the month `month` and of the month after it.
pub open spec fn card_month_spec(month: Seq<char>) -> Option<(i64, i64)> {
    match chrono_date(month + "-01"@, "%Y-%m-%d"@) {
        None => None,
        Some((y, m, d)) => {
            let (ny, nm) = shift_month_spec(y as int, m as int, 1);
            match (
                chrono_local_instant(y, m, 1, 0, 0, 0, 0),
                chrono_local_instant(ny as i32, nm as u32, 1, 0, 0, 0, 0),
            ) {
                (Some(s), Some(n)) => Some((s, n)),
                _ => None,
            }
        },
    }
}

/// The bounds of the month of a card's summary; see `card_month_spec`. It
/// fails with the month message where the text is no month or the date
/// library cannot place the bounds.
pub fn card_month_range(month: &str) -> (r: Result<(i64, i64), AppError>)
    ensures
        match card_month_spec(month@) {
            Some(v) => r == Ok::<(i64, i64), AppError>(v),
            None => r matches Err(e) && is_bad_request(
                e,
                "월 형식이 올바르지 않습니다. YYYY-MM 형식으로 입력해 주세요"@,
            ),
        },
{
    let mut text = string_of(&chars_of(month));
    append_str(&mut text, "-01");
    let (y, m, _d) = match parse_date_fmt(text.as_str(), "%Y-%m-%d") {
        Some(v) => v,
        None => return Err(AppError::bad_request("월 형식이 올바르지 않습니다. YYYY-MM 형식으로 입력해 주세요")),
    };
    let (ny, nm) = shift_month(y, m, 1);
    match (local_instant(y, m, 1, 0, 0, 0, 0), local_instant(ny, nm, 1, 0, 0, 0, 0)) {
        (Some(s), Some(n)) => Ok((s, n)),
        _ => Err(AppError::bad_request("월 형식이 올바르지 않습니다. YYYY-MM 형식으로 입력해 주세요")),
    }
}

pub open spec fn sum_amounts(a: Seq<i64>) -> int
    decreases a.len(),
{
    if a.len() == 0 {
        0
    } else {
        sum_amounts(a.drop_last()) + a.last()
    }
}

/// Every running total of the amounts fits in an `i64`.
pub open spec fn running_totals_fit(a: Seq<i64>) -> bool {
    forall|k: int| 0 <= k <= a.len() ==> i64::MIN <= #[trigger] sum_amounts(a.take(k)) <= i64::MAX
}

/// The number of a card's transactions of the month and their total.
pub fn card_transaction_totals(amounts: &Vec<i64>) -> (r: (i32, i64))
    requires
        running_totals_fit(amounts@),
    ensures
        r.0 == amounts@.len() as i32,
        r.1 == sum_amounts(amounts@),
{
    let mut total: i64 = 0;
    let mut i: usize = 0;
    assert(amounts@.take(0) =~= Seq::<i64>::empty());
    while i < amounts.len()
        invariant
            i <= amounts@.len(),
            running_totals_fit(amounts@),
            total == sum_amounts(amounts@.take(i as int)),
        decreases amounts@.len() - i,
    {
        assert(amounts@.take(i + 1).drop_last() =~= amounts@.take(i as int));
        assert(i64::MIN <= sum_amounts(amounts@.take(i + 1)) <= i64::MAX);
        total = total + amounts[i];
        i += 1;
    }
    assert(amounts@.take(amounts@.len() as int) =~= amounts@);
    (#[verifier::truncate] (amounts.len() as i32), total)
}

} // verus!
