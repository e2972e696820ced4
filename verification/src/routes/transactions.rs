//! What the transaction handlers decide: the checks of a request, the
//! business kind of a transaction, its scope, and the filter of a listing.
use vstd::prelude::*;

use crate::calendar::{chrono_date, chrono_local_instant, local_instant, parse_date_fmt};
use crate::errors::{is_bad_request, AppError};
use crate::services::transaction_scope::opt_str_view;
use crate::text::{append_str, chars_of, str_eq, string_of, trim, trim_seq};

verus! {

/// A transaction's amount must not be zero.
pub fn check_amount(amount: i64) -> (r: Result<(), AppError>)
    ensures
        amount != 0 ==> r is Ok,
        amount == 0 ==> (r matches Err(e) && is_bad_request(e, "금액은 0이 될 수 없습니다"@)),
{
    if amount == 0 {
        return Err(AppError::bad_request("금액은 0이 될 수 없습니다"));
    }
    Ok(())
}

/// How a transaction's business kind is found.
#[derive(Debug, Clone, PartialEq, Eq)]
pub enum KindDecision {
    /// The transaction is personal: it has no business kind.
    Personal,
    /// The kind the request names.
    Given(String),
    /// The kind the user's keyword rules give, if any.
    Infer,
}

/// A `KindDecision` as contracts see it.
pub enum KindChoice {
    Personal,
    Given(Seq<char>),
    Infer,
}

pub open spec fn valid_kind(k: Seq<char>) -> bool {
    k == "purchase"@ || k == "settlement"@ || k == "side_cost"@
}

/// The decision for a requested scope and kind: a kind other than purchase,
/// settlement or side cost is refused; a scope of `personal` (once trimmed)
/// means no kind; else the kind given, or else the rules decide.
pub open spec fn kind_decision_spec(scope: Option<Seq<char>>, kind: Option<Seq<char>>) -> Option<KindChoice> {
    if kind matches Some(k) && !valid_kind(k) {
        None
    } else if scope matches Some(s) && trim_seq(s) == "personal"@ {
        Some(KindChoice::Personal)
    } else {
        match kind {
            Some(k) => Some(KindChoice::Given(k)),
            None => Some(KindChoice::Infer),
        }
    }
}

/// How the business kind of a transaction is found; see
/// `kind_decision_spec`.
pub fn kream_kind_decision(explicit_scope: Option<&str>, explicit_kind: Option<&str>) -> (r: Result<KindDecision, AppError>)
    ensures
        match kind_decision_spec(opt_str_view(explicit_scope), opt_str_view(explicit_kind)) {
            Some(KindChoice::Given(k)) => r matches Ok(KindDecision::Given(g)) && g@ == k,
            Some(KindChoice::Personal) => r matches Ok(KindDecision::Personal),
            Some(KindChoice::Infer) => r matches Ok(KindDecision::Infer),
            None => r matches Err(e) && is_bad_request(
                e,
                "kream_kind must be purchase, settlement, or side_cost"@,
            ),
        },
{
    proof {
        reveal_strlit("purchase");
        reveal_strlit("settlement");
        reveal_strlit("side_cost");
        reveal_strlit("personal");
    }
    match explicit_kind {
        Some(k) => {
            if !str_eq(k, "purchase") && !str_eq(k, "settlement") && !str_eq(k, "side_cost") {
                return Err(AppError::bad_request("kream_kind must be purchase, settlement, or side_cost"));
            }
        },
        None => {},
    }
    match explicit_scope {
        Some(s) => {
            if str_eq(trim(s).as_str(), "personal") {
                return Ok(KindDecision::Personal);
            }
        },
        None => {},
    }
    match explicit_kind {
        Some(k) => Ok(KindDecision::Given(string_of(&chars_of(k)))),
        None => Ok(KindDecision::Infer),
    }
}

/// The scope a transaction is stored in: the business scope where it has a
/// business kind and the request named no scope (or a blank one), else the
/// scope resolved from the request.
pub fn final_scope(resolved: String, kream_kind: Option<&str>, explicit_scope: Option<&str>) -> (r: String)
    ensures
        r@ == (if kream_kind is Some && trim_seq(
            match explicit_scope {
                Some(s) => s@,
                None => Seq::<char>::empty(),
            },
        ).len() == 0 {
            "kream"@
        } else {
            resolved@
        }),
{
    let blank = match explicit_scope {
        Some(s) => trim(s).as_str().unicode_len() == 0,
        None => true,
    };
    if kream_kind.is_some() && blank {
        string_of(&chars_of("kream"))
    } else {
        resolved
    }
}

/// The filter of a transaction listing.
#[derive(Debug, Clone)]
pub struct TransactionFilter {
    /// From this instant on (seconds since the Unix epoch, UTC).
    pub start: Option<i64>,
    /// Up to this instant.
    pub end: Option<i64>,
    /// Only this scope; `None` for all.
    pub scope: Option<String>,
    /// The `%keyword%` pattern searched in merchant, description and memo.
    pub pattern: Option<String>,
}

/// The instant a listing starts from: midnight UTC of a `%Y-%m-%d` date.
pub open spec fn start_spec(date: Seq<char>) -> Option<i64> {
    match chrono_date(date, "%Y-%m-%d"@) {
        Some((y, m, d)) => chrono_local_instant(y, m, d, 0, 0, 0, 0),
        None => None,
    }
}

/// The instant a listing ends at: 23:59:59 UTC of a `%Y-%m-%d` date.
pub open spec fn end_spec(date: Seq<char>) -> Option<i64> {
    match chrono_date(date, "%Y-%m-%d"@) {
        Some((y, m, d)) => chrono_local_instant(y, m, d, 23, 59, 59, 0),
        None => None,
    }
}

/// The scope a listing asks for: `personal` where absent, no filter for
/// `all`; other than these, only `personal` and `kream`.
pub open spec fn listing_scope_spec(scope: Option<Seq<char>>) -> Option<Option<Seq<char>>> {
    let s = match scope {
        Some(v) => v,
        None => "personal"@,
    };
    if s == "all"@ {
        Some(None)
    } else if s == "personal"@ || s == "kream"@ {
        Some(Some(s))
    } else {
        None
    }
}

fn day_instant(date: &str, h: u32, mi: u32, s: u32) -> (r: Option<i64>)
    ensures
        r == match chrono_date(date@, "%Y-%m-%d"@) {
            Some((y, m, d)) => chrono_local_instant(y, m, d, h, mi, s, 0),
            None => None,
        },
{
    match parse_date_fmt(date, "%Y-%m-%d") {
        Some((y, m, d)) => local_instant(y, m, d, h, mi, s, 0),
        None => None,
    }
}

/// A listing date: `Some(None)` where absent, `Some(Some(t))` where read,
/// `None` where unreadable.
pub open spec fn listing_date(date: Option<Seq<char>>, end: bool) -> Option<Option<i64>> {
    match date {
        None => Some(None),
        Some(d) => match (if end {
            end_spec(d)
        } else {
            start_spec(d)
        }) {
            Some(t) => Some(Some(t)),
            None => None,
        },
    }
}

/// The filter of a listing: its start and end dates (each refused where it
/// is not a `%Y-%m-%d` date, in that order), its scope (see
/// `listing_scope_spec`), and the pattern of its trimmed keyword.
pub fn plan_listing(
    start_date: Option<&str>,
    end_date: Option<&str>,
    scope: Option<&str>,
    keyword: Option<&str>,
) -> (r: Result<TransactionFilter, AppError>)
    ensures
        match (
            listing_date(opt_str_view(start_date), false),
            listing_date(opt_str_view(end_date), true),
            listing_scope_spec(opt_str_view(scope)),
        ) {
            (None, _, _) => r matches Err(e) && is_bad_request(e, "시작일 형식이 올바르지 않습니다"@),
            (Some(_), None, _) => r matches Err(e) && is_bad_request(
                e,
                "종료일 형식이 올바르지 않습니다"@,
            ),
            (Some(_), Some(_), None) => r matches Err(e) && is_bad_request(
                e,
                "scope must be personal, kream, or all"@,
            ),
            (Some(st), Some(en), Some(sc)) => r matches Ok(f) && f.start == st && f.end == en
                && match sc {
                Some(x) => f.scope matches Some(y) && y@ == x,
                None => f.scope is None,
            } && match keyword {
                Some(k) => f.pattern matches Some(p) && p@ == "%"@ + trim_seq(k@) + "%"@,
                None => f.pattern is None,
            },
        },
{
    proof {
        reveal_strlit("all");
        reveal_strlit("personal");
        reveal_strlit("kream");
    }
    let start = match start_date {
        Some(d) => match day_instant(d, 0, 0, 0) {
            Some(t) => Some(t),
            None => return Err(AppError::bad_request("시작일 형식이 올바르지 않습니다")),
        },
        None => None,
    };
    let end = match end_date {
        Some(d) => match day_instant(d, 23, 59, 59) {
            Some(t) => Some(t),
            None => return Err(AppError::bad_request("종료일 형식이 올바르지 않습니다")),
        },
        None => None,
    };
    let s: &str = match scope {
        Some(v) => v,
        None => "personal",
    };
    let scope_filter = if str_eq(s, "all") {
        None
    } else if str_eq(s, "personal") || str_eq(s, "kream") {
        Some(string_of(&chars_of(s)))
    } else {
        return Err(AppError::bad_request("scope must be personal, kream, or all"));
    };
    let pattern = match keyword {
        Some(k) => {
            let mut p = string_of(&chars_of("%"));
            append_str(&mut p, trim(k).as_str());
            append_str(&mut p, "%");
            Some(p)
        },
        None => None,
    };
    Ok(TransactionFilter { start, end, scope: scope_filter, pattern })
}

} // verus!
