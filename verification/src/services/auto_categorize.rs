//! Keys by which merchants are matched to categories.
use vstd::prelude::*;

use crate::text::{
    case_settled, chars_of, is_ws, lemma_ws_free_lowercase_settled, lowercase, lowercase_chars, not_ws,
    remove_whitespace, string_of, trim, trim_seq,
};

verus! {

/// A merchant name without whitespace, in lower case.
pub open spec fn normalize_merchant_spec(value: Seq<char>) -> Seq<char> {
    lowercase(value.filter(not_ws()))
}

/// A merchant key is settled: where the name holds no capital sigma and
/// each of its characters' lowercase is settled (every ASCII character's
/// is), the key holds no whitespace, is its own lowercase, and normalizing
/// it again gives it back.
pub proof fn lemma_merchant_key_settled(value: Seq<char>)
    requires
        !value.contains('Σ'),
        forall|i: int| 0 <= i < value.len() ==> case_settled(#[trigger] value[i]),
    ensures
        forall|j: int| 0 <= j < normalize_merchant_spec(value).len()
            ==> !is_ws(#[trigger] normalize_merchant_spec(value)[j]),
        lowercase(normalize_merchant_spec(value)) == normalize_merchant_spec(value),
        normalize_merchant_spec(normalize_merchant_spec(value)) == normalize_merchant_spec(value),
{
    lemma_ws_free_lowercase_settled(value);
}

pub fn normalize_merchant(value: &str) -> (r: String)
    ensures
        r@ == normalize_merchant_spec(value@),
{
    let v = remove_whitespace(&chars_of(value));
    string_of(&lowercase_chars(&v))
}

/// The key under which a merchant is looked up, or `None` when there is no
/// merchant name to look up.
pub fn categorize_key(merchant_name: Option<&str>) -> (r: Option<String>)
    ensures
        match merchant_name {
            None => r is None,
            Some(m) => if trim_seq(m@).len() == 0 {
                r is None
            } else {
                r matches Some(k) && k@ == normalize_merchant_spec(trim_seq(m@))
            },
        },
{
    let raw = match merchant_name {
        Some(m) => trim(m),
        None => return None,
    };
    if raw.as_str().unicode_len() == 0 {
        return None;
    }
    Some(normalize_merchant(raw.as_str()))
}

/// The keyword and its key that a rule is learned under, or `None` for a
/// blank merchant name.
pub fn learned_rule_key(merchant_name: &str) -> (r: Option<(String, String)>)
    ensures
        trim_seq(merchant_name@).len() == 0 ==> r is None,
        trim_seq(merchant_name@).len() > 0 ==> (r matches Some((k, n)) && k@ == trim_seq(merchant_name@)
            && n@ == normalize_merchant_spec(trim_seq(merchant_name@))),
{
    let keyword = trim(merchant_name);
    if keyword.as_str().unicode_len() == 0 {
        return None;
    }
    let normalized = normalize_merchant(keyword.as_str());
    Some((keyword, normalized))
}

} // verus!
