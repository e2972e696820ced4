//! Categories and the merchant rules that file transactions under them.
use vstd::prelude::*;

use crate::errors::{is_bad_request, AppError};
use crate::services::auto_categorize::{normalize_merchant_spec, normalize_merchant};
use crate::text::{string_of, trim, trim_seq};

verus! {

/// A new category needs a name that is not blank; its sort order is 0
/// where the request gives none.
pub fn plan_new_category(name: &str, sort_order: Option<i32>) -> (r: Result<i32, AppError>)
    ensures
        trim_seq(name@).len() == 0 ==> (r matches Err(e) && is_bad_request(
            e,
            "카테고리 이름을 입력해 주세요"@,
        )),
        trim_seq(name@).len() > 0 ==> r == Ok::<i32, AppError>(
            match sort_order {
                Some(v) => v,
                None => 0,
            },
        ),
{
    if trim(name).as_str().unicode_len() == 0 {
        return Err(AppError::bad_request("카테고리 이름을 입력해 주세요"));
    }
    Ok(
        match sort_order {
            Some(v) => v,
            None => 0,
        },
    )
}

/// What a merchant rule is stored with.
#[derive(Debug, Clone)]
pub struct RulePlan {
    pub keyword: String,
    pub keyword_normalized: String,
    pub priority: i32,
}

/// A merchant rule: its keyword trimmed (not blank), the keyword's
/// normalised form, and its priority (200 where absent). The category must
/// be one of the user's.
pub fn plan_rule(keyword: &str, priority: Option<i32>, category_owned: bool) -> (r: Result<RulePlan, AppError>)
    ensures
        trim_seq(keyword@).len() == 0 ==> (r matches Err(e) && is_bad_request(e, "키워드를 입력해 주세요"@)),
        trim_seq(keyword@).len() > 0 && !category_owned ==> (r matches Err(e) && is_bad_request(
            e,
            "유효하지 않은 카테고리입니다"@,
        )),
        trim_seq(keyword@).len() > 0 && category_owned ==> (r matches Ok(p) && p.keyword@ == trim_seq(
            keyword@,
        ) && p.keyword_normalized@ == normalize_merchant_spec(trim_seq(keyword@)) && p.priority == match priority {
            Some(v) => v,
            None => 200,
        }),
{
    let k = trim(keyword);
    if k.as_str().unicode_len() == 0 {
        return Err(AppError::bad_request("키워드를 입력해 주세요"));
    }
    let normalized = normalize_merchant(k.as_str());
    if !category_owned {
        return Err(AppError::bad_request("유효하지 않은 카테고리입니다"));
    }
    Ok(
        RulePlan {
            keyword: k,
            keyword_normalized: normalized,
            priority: match priority {
                Some(v) => v,
                None => 200,
            },
        },
    )
}

} // verus!
