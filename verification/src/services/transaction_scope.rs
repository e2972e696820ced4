//! Whether a transaction belongs to personal spending or to the resale
//! business.
use vstd::prelude::*;

use crate::errors::{is_bad_request, AppError};
use crate::text::{
    append_str, chars_of, contains, contains_seq, lowercase, lowercase_chars, remove_char,
    str_eq, string_of, lower_text, trim, trim_seq, without_char,
};

verus! {

/// The words that mark a transaction as part of the resale business: the
/// marketplace and the parcel services it ships with.
pub open spec fn kream_keywords_spec() -> Seq<Seq<char>> {
    seq![
        "kream"@,
        "\u{D06C}\u{B9BC}"@,
        "\u{B86F}\u{B370}\u{AE00}\u{B85C}\u{BC8C}\u{B85C}\u{C9C0}\u{C2A4}"@,
        "\u{B86F}\u{B370}\u{D0DD}\u{BC30}"@,
        "\u{D0DD}\u{BC30}"@,
        "\u{BC30}\u{C1A1}\u{BE44}"@,
        "\u{C6B4}\u{C1A1}\u{C7A5}"@,
        "\u{B300}\u{D55C}\u{D1B5}\u{C6B4}"@,
        "cj\u{B300}\u{D55C}\u{D1B5}\u{C6B4}"@,
        "\u{D3B8}\u{C758}\u{C810}\u{D0DD}\u{BC30}"@,
    ]
}

fn kream_keywords() -> (v: Vec<&'static str>)
    ensures
        v@.len() == kream_keywords_spec().len(),
        forall|i: int| 0 <= i < v@.len() ==> #[trigger] v@[i]@ == kream_keywords_spec()[i],
{
    let v = vec![
        "kream",
        "\u{D06C}\u{B9BC}",
        "\u{B86F}\u{B370}\u{AE00}\u{B85C}\u{BC8C}\u{B85C}\u{C9C0}\u{C2A4}",
        "\u{B86F}\u{B370}\u{D0DD}\u{BC30}",
        "\u{D0DD}\u{BC30}",
        "\u{BC30}\u{C1A1}\u{BE44}",
        "\u{C6B4}\u{C1A1}\u{C7A5}",
        "\u{B300}\u{D55C}\u{D1B5}\u{C6B4}",
        "cj\u{B300}\u{D55C}\u{D1B5}\u{C6B4}",
        "\u{D3B8}\u{C758}\u{C810}\u{D0DD}\u{BC30}",
    ];
    v
}

pub open spec fn opt_or_empty(o: Option<Seq<char>>) -> Seq<char> {
    match o {
        Some(s) => s,
        None => Seq::empty(),
    }
}

pub open spec fn opt_str_view(o: Option<&str>) -> Option<Seq<char>> {
    match o {
        Some(s) => Some(s@),
        None => None,
    }
}

/// Merchant and description, joined by a space, in lower case and without
/// spaces.
pub open spec fn kream_haystack(merchant: Option<Seq<char>>, description: Option<Seq<char>>) -> Seq<char> {
    lowercase(opt_or_empty(merchant) + " "@ + opt_or_empty(description)).filter(without_char(' '))
}

/// Merchant or description mentions one of the business words.
pub open spec fn is_kream_related_spec(merchant: Option<Seq<char>>, description: Option<Seq<char>>) -> bool {
    exists|i: int|
        0 <= i < kream_keywords_spec().len() && contains_seq(
            kream_haystack(merchant, description),
            lowercase(#[trigger] kream_keywords_spec()[i]).filter(without_char(' ')),
        )
}

fn opt_str_or_empty(o: Option<&str>) -> (s: &str)
    ensures
        s@ == opt_or_empty(opt_str_view(o)),
{
    match o {
        Some(s) => s,
        None => {
            proof {
                reveal_strlit("");
            }
            ""
        },
    }
}

pub fn is_kream_related(merchant_name: Option<&str>, description: Option<&str>) -> (b: bool)
    ensures
        b == is_kream_related_spec(opt_str_view(merchant_name), opt_str_view(description)),
{
    let mut joined = String::new();
    append_str(&mut joined, opt_str_or_empty(merchant_name));
    append_str(&mut joined, " ");
    append_str(&mut joined, opt_str_or_empty(description));
    let lowered = lower_text(joined.as_str());
    let haystack = remove_char(&chars_of(lowered.as_str()), ' ');
    proof {
        assert(joined@ =~= opt_or_empty(opt_str_view(merchant_name)) + " "@ + opt_or_empty(
            opt_str_view(description),
        ));
    }
    let keywords = kream_keywords();
    let mut i: usize = 0;
    while i < keywords.len()
        invariant
            i <= keywords@.len() == kream_keywords_spec().len(),
            forall|j: int| 0 <= j < keywords@.len() ==> #[trigger] keywords@[j]@ == kream_keywords_spec()[j],
            haystack@ == kream_haystack(opt_str_view(merchant_name), opt_str_view(description)),
            forall|j: int|
                0 <= j < i ==> !contains_seq(
                    haystack@,
                    lowercase(#[trigger] kream_keywords_spec()[j]).filter(without_char(' ')),
                ),
        decreases keywords.len() - i,
    {
        let kw = remove_char(&lowercase_chars(&chars_of(keywords[i])), ' ');
        assert(keywords@[i as int]@ == kream_keywords_spec()[i as int]);
        if contains(&haystack, &kw) {
            return true;
        }
        i += 1;
    }
    false
}

/// `kream` when the transaction looks like part of the resale business,
/// else `personal`.
pub open spec fn infer_scope_spec(merchant: Option<Seq<char>>, description: Option<Seq<char>>) -> Seq<char> {
    if is_kream_related_spec(merchant, description) {
        "kream"@
    } else {
        "personal"@
    }
}

pub fn infer_scope(merchant_name: Option<&str>, description: Option<&str>) -> (s: String)
    ensures
        s@ == infer_scope_spec(opt_str_view(merchant_name), opt_str_view(description)),
{
    if is_kream_related(merchant_name, description) {
        string_of(&chars_of("kream"))
    } else {
        string_of(&chars_of("personal"))
    }
}

pub open spec fn scope_error_message() -> Seq<char> {
    "scope must be either personal or kream"@
}

/// The scope a transaction is stored under: an explicit `personal` or
/// `kream` (surrounding spaces ignored); an empty or absent one is inferred;
/// anything else is refused.
pub open spec fn resolve_scope_ok(
    explicit: Option<Seq<char>>,
    merchant: Option<Seq<char>>,
    description: Option<Seq<char>>,
) -> Option<Seq<char>> {
    match explicit {
        Some(s) => {
            let t = trim_seq(s);
            if t.len() == 0 {
                Some(infer_scope_spec(merchant, description))
            } else if t == "personal"@ || t == "kream"@ {
                Some(t)
            } else {
                None
            }
        },
        None => Some(infer_scope_spec(merchant, description)),
    }
}

pub fn resolve_scope(
    explicit_scope: Option<&str>,
    merchant_name: Option<&str>,
    description: Option<&str>,
) -> (r: Result<String, AppError>)
    ensures
        match resolve_scope_ok(
            opt_str_view(explicit_scope),
            opt_str_view(merchant_name),
            opt_str_view(description),
        ) {
            Some(s) => r matches Ok(v) && v@ == s,
            None => r matches Err(e) && is_bad_request(e, scope_error_message()),
        },
{
    if let Some(scope) = explicit_scope {
        let scope = trim(scope);
        if scope.as_str().unicode_len() == 0 {
            return Ok(infer_scope(merchant_name, description));
        }
        if str_eq(scope.as_str(), "personal") || str_eq(scope.as_str(), "kream") {
            return Ok(scope);
        }
        return Err(AppError::bad_request("scope must be either personal or kream"));
    }
    Ok(infer_scope(merchant_name, description))
}

} // verus!
