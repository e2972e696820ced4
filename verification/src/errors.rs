//! The errors that the library's requests end in.
use vstd::prelude::*;

verus! {

/// Why a request was refused.
#[derive(Debug, Clone, PartialEq, Eq)]
pub enum AppError {
    Unauthorized,
    Forbidden,
    BadRequest(String),
    NotFound,
    Internal,
}

/// The body of an error reply.
#[derive(Debug, Clone)]
pub struct ErrorResponse {
    pub message: String,
}

/// A `BadRequest` carrying `msg`.
pub open spec fn is_bad_request(e: AppError, msg: Seq<char>) -> bool {
    e matches AppError::BadRequest(m) && m@ == msg
}

/// The HTTP status of each error.
pub open spec fn status_spec(e: AppError) -> u16 {
    match e {
        AppError::Unauthorized => 401,
        AppError::Forbidden => 403,
        AppError::BadRequest(_) => 400,
        AppError::NotFound => 404,
        AppError::Internal => 500,
    }
}

impl AppError {
    pub fn bad_request(msg: &str) -> (e: AppError)
        ensures
            is_bad_request(e, msg@),
    {
        AppError::BadRequest(crate::text::string_of(&crate::text::chars_of(msg)))
    }

    /// The HTTP status code that answers this error.
    pub fn status_code(&self) -> (s: u16)
        ensures
            s == status_spec(*self),
    {
        match self {
            AppError::Unauthorized => 401,
            AppError::Forbidden => 403,
            AppError::BadRequest(_) => 400,
            AppError::NotFound => 404,
            AppError::Internal => 500,
        }
    }

    /// The message that the error reply carries.
    pub fn message(&self) -> (m: String)
        ensures
            match *self {
                AppError::Unauthorized => m@ == "인증이 필요합니다"@,
                AppError::Forbidden => m@ == "권한이 없습니다"@,
                AppError::BadRequest(d) => m@ == "요청 데이터가 올바르지 않습니다: "@ + d@,
                AppError::NotFound => m@ == "데이터를 찾을 수 없습니다"@,
                AppError::Internal => m@ == "서버 오류가 발생했습니다"@,
            },
    {
        match self {
            AppError::Unauthorized => crate::text::string_of(&crate::text::chars_of("인증이 필요합니다")),
            AppError::Forbidden => crate::text::string_of(&crate::text::chars_of("권한이 없습니다")),
            AppError::BadRequest(d) => {
                let mut m = crate::text::string_of(
                    &crate::text::chars_of("요청 데이터가 올바르지 않습니다: "),
                );
                m.append(d.as_str());
                m
            },
            AppError::NotFound => crate::text::string_of(&crate::text::chars_of("데이터를 찾을 수 없습니다")),
            AppError::Internal => crate::text::string_of(&crate::text::chars_of("서버 오류가 발생했습니다")),
        }
    }

    /// The reply for this error: its status and body.
    pub fn into_response(&self) -> (r: (u16, ErrorResponse))
        ensures
            r.0 == status_spec(*self),
            r.1.message@ == self.message_spec(),
    {
        (self.status_code(), ErrorResponse { message: self.message() })
    }

    pub open spec fn message_spec(&self) -> Seq<char> {
        match *self {
            AppError::Unauthorized => "인증이 필요합니다"@,
            AppError::Forbidden => "권한이 없습니다"@,
            AppError::BadRequest(d) => "요청 데이터가 올바르지 않습니다: "@ + d@,
            AppError::NotFound => "데이터를 찾을 수 없습니다"@,
            AppError::Internal => "서버 오류가 발생했습니다"@,
        }
    }
}

} // verus!
