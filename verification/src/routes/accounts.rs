//! Accounts: what a new account is stored with.
use vstd::prelude::*;

use crate::errors::{is_bad_request, AppError};
use crate::text::{chars_of, string_of, trim, trim_seq};

verus! {

/// A request for a new account.
#[derive(Debug, Clone)]
pub struct CreateAccountRequest {
    pub name: String,
    pub account_type: String,
    pub institution: Option<String>,
    pub currency: Option<String>,
    pub is_active: Option<bool>,
}

/// A request to change an account; what is absent stays.
#[derive(Debug, Clone)]
pub struct UpdateAccountRequest {
    pub name: Option<String>,
    pub account_type: Option<String>,
    pub institution: Option<String>,
    pub currency: Option<String>,
    pub is_active: Option<bool>,
}

/// The currency and the active flag a new account is stored with: `KRW`
/// and active where the request names none.
#[derive(Debug, Clone)]
pub struct NewAccountDefaults {
    pub currency: String,
    pub is_active: bool,
}

/// Checks a new account (its name must not be blank) and gives its
/// currency and active flag.
pub fn plan_new_account(req: &CreateAccountRequest) -> (r: Result<NewAccountDefaults, AppError>)
    ensures
        trim_seq(req.name@).len() == 0 ==> (r matches Err(e) && is_bad_request(
            e,
            "계좌 이름을 입력해 주세요"@,
        )),
        trim_seq(req.name@).len() > 0 ==> (r matches Ok(d) && d.currency@ == match req.currency {
            Some(c) => c@,
            None => "KRW"@,
        } && d.is_active == match req.is_active {
            Some(a) => a,
            None => true,
        }),
{
    if trim(req.name.as_str()).as_str().unicode_len() == 0 {
        return Err(AppError::bad_request("계좌 이름을 입력해 주세요"));
    }
    let currency = match &req.currency {
        Some(c) => c.clone(),
        None => string_of(&chars_of("KRW")),
    };
    let is_active = match req.is_active {
        Some(a) => a,
        None => true,
    };
    Ok(NewAccountDefaults { currency, is_active })
}

} // verus!
