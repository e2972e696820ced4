//! Statement imports: the stored records, and what an upload is stored
//! under.
use vstd::prelude::*;

use crate::errors::{is_bad_request, AppError};
use crate::import::{detect_institution_from_filename, institution_spec};
use crate::text::{chars_of, string_of, trim, trim_seq};

verus! {

/// A stored import.
#[derive(Debug, Clone)]
pub struct ImportRecord {
    pub id: u128,
    pub user_id: u128,
    pub source_type: String,
    pub institution: String,
    pub original_filename: Option<String>,
    pub status: String,
    pub raw_text: Option<String>,
    pub parsed_count: i32,
    pub imported_count: i32,
    pub duplicate_count: i32,
    pub error_message: Option<String>,
    pub created_at: i64,
    pub updated_at: i64,
}

/// A stored row of an import; the transaction it parsed to is JSON text.
#[derive(Debug, Clone)]
pub struct ImportRow {
    pub id: u128,
    pub import_id: u128,
    pub user_id: u128,
    pub row_index: i32,
    pub parsed_transaction: String,
    pub status: String,
    pub error_message: Option<String>,
    pub created_at: i64,
}

/// An import with its rows.
#[derive(Debug, Clone)]
pub struct ImportDetailResponse {
    pub import: ImportRecord,
    pub rows: Vec<ImportRow>,
}

/// Pasted statement text, with the institution it is from where known.
#[derive(Debug, Clone)]
pub struct PastedTextImportRequest {
    pub institution: Option<String>,
    pub text: String,
}

/// The institution an uploaded file is stored under: the one the upload
/// names (where it is not blank), else the one its file name shows, else
/// `unknown`.
pub open spec fn upload_institution_spec(provided: Option<Seq<char>>, filename: Option<Seq<char>>) -> Seq<char> {
    match provided {
        Some(p) => if trim_seq(p).len() > 0 {
            p
        } else {
            match filename {
                Some(f) => match institution_spec(f) {
                    Some(i) => i,
                    None => "unknown"@,
                },
                None => "unknown"@,
            }
        },
        None => match filename {
            Some(f) => match institution_spec(f) {
                Some(i) => i,
                None => "unknown"@,
            },
            None => "unknown"@,
        },
    }
}

/// The institution an uploaded file is stored under; see
/// `upload_institution_spec`.
pub fn upload_institution(provided: Option<&str>, filename: Option<&str>) -> (r: String)
    ensures
        r@ == upload_institution_spec(
            match provided {
                Some(p) => Some(p@),
                None => None,
            },
            match filename {
                Some(f) => Some(f@),
                None => None,
            },
        ),
{
    match provided {
        Some(p) => {
            if trim(p).as_str().unicode_len() > 0 {
                return string_of(&chars_of(p));
            }
        },
        None => {},
    }
    match detect_institution_from_filename(filename) {
        Some(i) => i,
        None => string_of(&chars_of("unknown")),
    }
}

/// Checks pasted text (it must not be blank) and gives the institution it
/// is stored under: the one named, else `pasted_text`.
pub fn plan_pasted_import(req: &PastedTextImportRequest) -> (r: Result<String, AppError>)
    ensures
        trim_seq(req.text@).len() == 0 ==> (r matches Err(e) && is_bad_request(
            e,
            "붙여넣을 텍스트를 입력해 주세요"@,
        )),
        trim_seq(req.text@).len() > 0 ==> (r matches Ok(i) && i@ == match req.institution {
            Some(v) => v@,
            None => "pasted_text"@,
        }),
{
    if trim(req.text.as_str()).as_str().unicode_len() == 0 {
        return Err(AppError::bad_request("붙여넣을 텍스트를 입력해 주세요"));
    }
    match &req.institution {
        Some(v) => Ok(v.clone()),
        None => Ok(string_of(&chars_of("pasted_text"))),
    }
}

} // verus!
