//! The key by which a transaction is known again when it is imported or
//! entered twice.
use vstd::prelude::*;

use crate::calendar::{chrono_iso_seconds, iso_seconds};
use crate::digest::{is_digest_text, sha256_hex, sha256_hex_spec};
use crate::import::parser::{opt_view, ParsedRow};
use crate::numbers::{i64_to_string, int_string, lemma_parse_int_string};
use crate::text::{
    chars_of, join_seq, join_strings, lowercase, string_of, strings_view, lower_text, trim,
    trim_seq,
};

verus! {

/// Sixteen to the power `n`.
pub open spec fn pow16(n: nat) -> nat
    decreases n,
{
    if n == 0 {
        1
    } else {
        16 * pow16((n - 1) as nat)
    }
}

/// The lowercase hexadecimal digit of `d` in `0..16`.
pub open spec fn hex_digit(d: int) -> char {
    if d < 10 {
        (48 + d) as char
    } else {
        (87 + d) as char
    }
}

/// The 32 hexadecimal digits of `v`, most significant first.
pub open spec fn hex32(v: u128) -> Seq<char> {
    Seq::new(32, |i: int| hex_digit((v as int / pow16((31 - i) as nat) as int) % 16))
}

/// How a `uuid::Uuid` of value `v` writes itself: the 32 lowercase
/// hexadecimal digits of `v` in groups of 8, 4, 4, 4 and 12 joined by
/// hyphens.
pub open spec fn uuid_text(v: u128) -> Seq<char> {
    let h = hex32(v);
    h.subrange(0, 8) + seq!['-'] + h.subrange(8, 12) + seq!['-'] + h.subrange(12, 16) + seq!['-']
        + h.subrange(16, 20) + seq!['-'] + h.subrange(20, 32)
}

/// `uuid::Uuid::from_u128(v).to_string()`: the hyphenated lowercase form of
/// the identifier whose 128 bits, read big-endian, are `v`.
#[verifier::external_body]
pub(crate) fn uuid_string(v: u128) -> (s: String)
    ensures
        s@ == uuid_text(v),
{
    uuid::Uuid::from_u128(v).to_string()
}

/// A text field as the key compares it: the value, or `default` where there
/// is none, trimmed and in lower case.
pub open spec fn folded(value: Option<Seq<char>>, default: Seq<char>) -> Seq<char> {
    lowercase(
        trim_seq(
            match value {
                Some(v) => v,
                None => default,
            },
        ),
    )
}

/// An optional identifier as the key writes it: empty where there is none.
pub open spec fn id_text(id: Option<u128>) -> Seq<char> {
    match id {
        Some(v) => uuid_text(v),
        None => Seq::<char>::empty(),
    }
}

/// The approval number as the key writes it: `none` where it is empty.
pub open spec fn approval_text(approval: Option<Seq<char>>) -> Seq<char> {
    let a = folded(approval, Seq::<char>::empty());
    if a.len() == 0 {
        "none"@
    } else {
        a
    }
}

/// The nine fields of the key, in order: user, institution (`unknown` where
/// absent), time, amount, merchant, description, card, account, approval.
pub open spec fn dedupe_fields(
    user_id: u128,
    source_institution: Option<Seq<char>>,
    time_text: Seq<char>,
    amount: i64,
    merchant_name: Option<Seq<char>>,
    description: Option<Seq<char>>,
    card_id: Option<u128>,
    account_id: Option<u128>,
    approval_number: Option<Seq<char>>,
) -> Seq<Seq<char>> {
    seq![
        uuid_text(user_id),
        folded(source_institution, "unknown"@),
        time_text,
        int_string(amount as int),
        folded(merchant_name, Seq::<char>::empty()),
        folded(description, Seq::<char>::empty()),
        id_text(card_id),
        id_text(account_id),
        approval_text(approval_number),
    ]
}

/// The text that is hashed: the fields joined with `|`.
pub open spec fn dedupe_material(
    user_id: u128,
    source_institution: Option<Seq<char>>,
    time_text: Seq<char>,
    amount: i64,
    merchant_name: Option<Seq<char>>,
    description: Option<Seq<char>>,
    card_id: Option<u128>,
    account_id: Option<u128>,
    approval_number: Option<Seq<char>>,
) -> Seq<char> {
    join_seq(
        dedupe_fields(
            user_id,
            source_institution,
            time_text,
            amount,
            merchant_name,
            description,
            card_id,
            account_id,
            approval_number,
        ),
        "|"@,
    )
}

/// The key of a transaction at `transaction_at` (seconds since the Unix
/// epoch): the SHA-256 of its material, with the time written
/// `%Y-%m-%dT%H:%M:%S` in UTC; nothing where the date library cannot write
/// that time.
pub open spec fn dedupe_key_spec(
    user_id: u128,
    source_institution: Option<Seq<char>>,
    transaction_at: i64,
    amount: i64,
    merchant_name: Option<Seq<char>>,
    description: Option<Seq<char>>,
    card_id: Option<u128>,
    account_id: Option<u128>,
    approval_number: Option<Seq<char>>,
) -> Option<Seq<char>> {
    match chrono_iso_seconds(transaction_at) {
        Some(t) => Some(
            sha256_hex_spec(
                dedupe_material(
                    user_id,
                    source_institution,
                    t,
                    amount,
                    merchant_name,
                    description,
                    card_id,
                    account_id,
                    approval_number,
                ),
            ),
        ),
        None => None,
    }
}

pub open spec fn opt_str(o: Option<&str>) -> Option<Seq<char>> {
    match o {
        Some(s) => Some(s@),
        None => None,
    }
}

fn folded_field(value: Option<&str>, default: &str) -> (r: String)
    ensures
        r@ == folded(opt_str(value), default@),
{
    let v = match value {
        Some(s) => s,
        None => default,
    };
    let t = trim(v);
    lower_text(t.as_str())
}

fn id_field(id: Option<u128>) -> (r: String)
    ensures
        r@ == id_text(id),
{
    match id {
        Some(v) => uuid_string(v),
        None => string_of(&Vec::new()),
    }
}

/// The text that is hashed for a transaction whose time is already written.
pub fn dedupe_material_text(
    user_id: u128,
    source_institution: Option<&str>,
    time_text: &str,
    amount: i64,
    merchant_name: Option<&str>,
    description: Option<&str>,
    card_id: Option<u128>,
    account_id: Option<u128>,
    approval_number: Option<&str>,
) -> (r: String)
    ensures
        r@ == dedupe_material(
            user_id,
            opt_str(source_institution),
            time_text@,
            amount,
            opt_str(merchant_name),
            opt_str(description),
            card_id,
            account_id,
            opt_str(approval_number),
        ),
{
    let mut approval = folded_field(approval_number, "");
    if approval.as_str().unicode_len() == 0 {
        approval = string_of(&chars_of("none"));
    }
    let mut fields: Vec<String> = Vec::new();
    fields.push(uuid_string(user_id));
    fields.push(folded_field(source_institution, "unknown"));
    fields.push(string_of(&chars_of(time_text)));
    fields.push(i64_to_string(amount));
    fields.push(folded_field(merchant_name, ""));
    fields.push(folded_field(description, ""));
    fields.push(id_field(card_id));
    fields.push(id_field(account_id));
    fields.push(approval);
    proof {
        reveal_strlit("");
        assert(""@ =~= Seq::<char>::empty());
        assert(strings_view(fields@).skip(0) =~= dedupe_fields(
            user_id,
            opt_str(source_institution),
            time_text@,
            amount,
            opt_str(merchant_name),
            opt_str(description),
            card_id,
            account_id,
            opt_str(approval_number),
        ));
    }
    join_strings(&fields, 0, "|")
}

/// The key of a transaction: the SHA-256 digest, in hexadecimal, of its
/// fields joined with `|` (see `dedupe_fields`). `transaction_at` is in
/// seconds since the Unix epoch; where the date library cannot write it,
/// there is no key.
pub fn build_dedupe_key(
    user_id: u128,
    source_institution: Option<&str>,
    transaction_at: i64,
    amount: i64,
    merchant_name: Option<&str>,
    description: Option<&str>,
    card_id: Option<u128>,
    account_id: Option<u128>,
    approval_number: Option<&str>,
) -> (r: Option<String>)
    ensures
        match dedupe_key_spec(
            user_id,
            opt_str(source_institution),
            transaction_at,
            amount,
            opt_str(merchant_name),
            opt_str(description),
            card_id,
            account_id,
            opt_str(approval_number),
        ) {
            Some(k) => r matches Some(s) && s@ == k,
            None => r is None,
        },
        r matches Some(s) ==> is_digest_text(s@),
{
    let time_text = match iso_seconds(transaction_at) {
        Some(t) => t,
        None => return None,
    };
    let material = dedupe_material_text(
        user_id,
        source_institution,
        time_text.as_str(),
        amount,
        merchant_name,
        description,
        card_id,
        account_id,
        approval_number,
    );
    Some(sha256_hex(material.as_str()))
}

/// The key of an imported row of a user: its institution, time, amount,
/// merchant, description and approval number, with no card or account.
pub fn normalize_row_dedupe_key(user_id: u128, row: &ParsedRow) -> (r: Option<String>)
    ensures
        match dedupe_key_spec(
            user_id,
            Some(row.source_institution@),
            row.transaction_at.utc_seconds,
            row.amount,
            opt_view(row.merchant_name),
            opt_view(row.description),
            None,
            None,
            opt_view(row.approval_number),
        ) {
            Some(k) => r matches Some(s) && s@ == k,
            None => r is None,
        },
        r matches Some(s) ==> is_digest_text(s@),
{
    let merchant = match &row.merchant_name {
        Some(s) => Some(s.as_str()),
        None => None,
    };
    let description = match &row.description {
        Some(s) => Some(s.as_str()),
        None => None,
    };
    let approval = match &row.approval_number {
        Some(s) => Some(s.as_str()),
        None => None,
    };
    build_dedupe_key(
        user_id,
        Some(row.source_institution.as_str()),
        row.transaction_at.utc_seconds,
        row.amount,
        merchant,
        description,
        None,
        None,
        approval,
    )
}

proof fn lemma_join_step(parts: Seq<Seq<char>>, sep: Seq<char>, k: int)
    requires
        1 <= k < parts.len(),
    ensures
        join_seq(parts.take(k + 1), sep) == join_seq(parts.take(k), sep) + sep + parts[k],
{
    assert(parts.take(k + 1).drop_last() =~= parts.take(k));
}

/// A nine-field join from its fourth field on: the first four joined, then
/// each later field after a separator.
proof fn lemma_join_tail(parts: Seq<Seq<char>>, sep: Seq<char>)
    requires
        parts.len() == 9,
    ensures
        join_seq(parts.take(9), sep) =~= join_seq(parts.take(4), sep) + (sep + parts[4] + sep
            + parts[5] + sep + parts[6] + sep + parts[7] + sep + parts[8]),
{
    lemma_join_step(parts, sep, 4);
    lemma_join_step(parts, sep, 5);
    lemma_join_step(parts, sep, 6);
    lemma_join_step(parts, sep, 7);
    lemma_join_step(parts, sep, 8);
}

/// The key compares text fields as trimmed lower case: two transactions
/// whose institution, merchant, description and approval number agree once
/// trimmed and lowered, and that agree in everything else, get the same key
/// (or both none).
pub proof fn lemma_key_ignores_case_and_spacing(
    user_id: u128,
    transaction_at: i64,
    amount: i64,
    card_id: Option<u128>,
    account_id: Option<u128>,
    institution_1: Option<Seq<char>>,
    institution_2: Option<Seq<char>>,
    merchant_1: Option<Seq<char>>,
    merchant_2: Option<Seq<char>>,
    description_1: Option<Seq<char>>,
    description_2: Option<Seq<char>>,
    approval_1: Option<Seq<char>>,
    approval_2: Option<Seq<char>>,
)
    requires
        folded(institution_1, "unknown"@) == folded(institution_2, "unknown"@),
        folded(merchant_1, Seq::<char>::empty()) == folded(merchant_2, Seq::<char>::empty()),
        folded(description_1, Seq::<char>::empty()) == folded(description_2, Seq::<char>::empty()),
        folded(approval_1, Seq::<char>::empty()) == folded(approval_2, Seq::<char>::empty()),
    ensures
        dedupe_key_spec(
            user_id,
            institution_1,
            transaction_at,
            amount,
            merchant_1,
            description_1,
            card_id,
            account_id,
            approval_1,
        ) == dedupe_key_spec(
            user_id,
            institution_2,
            transaction_at,
            amount,
            merchant_2,
            description_2,
            card_id,
            account_id,
            approval_2,
        ),
{
    assert forall|t: Seq<char>|
        dedupe_fields(user_id, institution_1, t, amount, merchant_1, description_1, card_id, account_id, approval_1)
            =~= dedupe_fields(user_id, institution_2, t, amount, merchant_2, description_2, card_id, account_id, approval_2) by {}
}

proof fn lemma_int_string_injective(a: i64, b: i64)
    requires
        int_string(a as int) == int_string(b as int),
    ensures
        a == b,
{
    lemma_parse_int_string(a);
    lemma_parse_int_string(b);
}

/// Two transactions that differ in amount alone are hashed from different
/// texts.
pub proof fn lemma_material_changes_with_amount(
    user_id: u128,
    source_institution: Option<Seq<char>>,
    time_text: Seq<char>,
    a: i64,
    b: i64,
    merchant_name: Option<Seq<char>>,
    description: Option<Seq<char>>,
    card_id: Option<u128>,
    account_id: Option<u128>,
    approval_number: Option<Seq<char>>,
)
    requires
        a != b,
    ensures
        dedupe_material(
            user_id,
            source_institution,
            time_text,
            a,
            merchant_name,
            description,
            card_id,
            account_id,
            approval_number,
        ) != dedupe_material(
            user_id,
            source_institution,
            time_text,
            b,
            merchant_name,
            description,
            card_id,
            account_id,
            approval_number,
        ),
{
    let fa = dedupe_fields(
        user_id,
        source_institution,
        time_text,
        a,
        merchant_name,
        description,
        card_id,
        account_id,
        approval_number,
    );
    let fb = dedupe_fields(
        user_id,
        source_institution,
        time_text,
        b,
        merchant_name,
        description,
        card_id,
        account_id,
        approval_number,
    );
    let sep = "|"@;
    let sa = int_string(a as int);
    let sb = int_string(b as int);
    if sa == sb {
        lemma_int_string_injective(a, b);
    }
    // Both texts are `head + amount + tail` with the same head and tail.
    let head = join_seq(fa.take(3), sep) + sep;
    assert(fa.take(3) =~= fb.take(3));
    let tail = sep + fa[4] + sep + fa[5] + sep + fa[6] + sep + fa[7] + sep + fa[8];
    assert(fa.take(4).drop_last() =~= fa.take(3));
    assert(fb.take(4).drop_last() =~= fb.take(3));
    assert(join_seq(fa.take(4), sep) == head + sa);
    assert(join_seq(fb.take(4), sep) == head + sb);
    lemma_join_tail(fa, sep);
    lemma_join_tail(fb, sep);
    assert(fa.take(9) =~= fa);
    assert(fb.take(9) =~= fb);
    let ma = join_seq(fa, sep);
    let mb = join_seq(fb, sep);
    assert(ma =~= head + sa + tail);
    assert(mb =~= head + sb + tail);
    if sa.len() == sb.len() {
        assert(exists|i: int| 0 <= i < sa.len() && sa[i] != sb[i]) by {
            if !(exists|i: int| 0 <= i < sa.len() && sa[i] != sb[i]) {
                assert(sa =~= sb);
            }
        }
        let i = choose|i: int| 0 <= i < sa.len() && sa[i] != sb[i];
        assert(ma[head.len() + i] == sa[i]);
        assert(mb[head.len() + i] == sb[i]);
    } else {
        assert(ma.len() != mb.len());
    }
}

} // verus!
