//! SHA-256 digests written as hexadecimal text.
use sha2::Digest;
use vstd::prelude::*;

verus! {

/// The SHA-256 digest of the UTF-8 bytes of `s`, written as lowercase
/// hexadecimal.
pub uninterp spec fn sha256_hex_spec(s: Seq<char>) -> Seq<char>;

/// A digit of lowercase hexadecimal: `0`-`9` or `a`-`f`.
pub open spec fn is_lower_hex_digit(c: char) -> bool {
    ('0' <= c && c <= '9') || ('a' <= c && c <= 'f')
}

/// Text of 64 lowercase hexadecimal digits, as a SHA-256 digest is written.
pub open spec fn is_digest_text(s: Seq<char>) -> bool {
    &&& s.len() == 64
    &&& forall|i: int| 0 <= i < s.len() ==> is_lower_hex_digit(#[trigger] s[i])
}

/// `sha2::Sha256` over the bytes of `s`, written with `{:x}`; named
/// `sha256_hex_spec`. The digest has 32 bytes, and `{:x}` writes two
/// characters for each, so the text has 64, each a lowercase hexadecimal
/// digit (`LowerHex` of the digest's bytes).
#[verifier::external_body]
pub(crate) fn sha256_hex(s: &str) -> (r: String)
    ensures
        r@ == sha256_hex_spec(s@),
        is_digest_text(r@),
{
    let mut hasher = sha2::Sha256::new();
    hasher.update(s.as_bytes());
    format!("{:x}", hasher.finalize())
}

} // verus!
