pub mod hyundai_card;
pub mod dedupe;
pub mod keyed_ids;
pub mod parser;
pub mod pasted_text;
pub mod samsung_card;
pub mod shinhan_bank;
pub mod shinhan_card;
pub mod tables;

use vstd::prelude::*;

use crate::import::keyed_ids::KeyedIds;
use crate::import::parser::{utf8_lossy, utf8_lossy_string};
use crate::services::transaction_scope::opt_str_view;
use crate::text::{
    append_chars, chars_of, contains, contains_seq, ends_with, ends_with_seq, is_ascii_digit,
    is_digit, is_digit_pred, keep_digits, lowercase, lowercase_chars, not_ws, remove_whitespace,
    str_eq, string_of, strings_view, sub_chars, trim_chars, trim_seq,
};

verus! {

/// Counts of an import: rows in all, new, duplicate and failed.
#[derive(Debug, Clone, Copy)]
pub struct ImportSummary {
    pub total: i32,
    pub new_count: i32,
    pub duplicate_count: i32,
    pub error_count: i32,
}

fn lit(s: &str) -> (v: Vec<char>)
    ensures
        v@ == s@,
{
    chars_of(s)
}

fn owned(s: &str) -> (r: String)
    ensures
        r@ == s@,
{
    string_of(&chars_of(s))
}

// ───────────────────────── institutions and issuers ─────────────────────────

/// The institution that a file name names.
pub open spec fn institution_spec(name: Seq<char>) -> Option<Seq<char>> {
    let n = lowercase(name);
    if contains_seq(n, "shinhan"@) || contains_seq(n, "신한"@) {
        if contains_seq(n, "card"@) || contains_seq(n, "카드"@) {
            Some("shinhan_card"@)
        } else {
            Some("shinhan_bank"@)
        }
    } else if contains_seq(n, "hyundai"@) || contains_seq(n, "현대"@) {
        Some("hyundai_card"@)
    } else if contains_seq(n, "samsung"@) || contains_seq(n, "삼성"@) {
        Some("samsung_card"@)
    } else if contains_seq(n, "bc"@) {
        Some("bc_card"@)
    } else {
        None
    }
}

pub fn detect_institution_from_filename(filename: Option<&str>) -> (r: Option<String>)
    ensures
        match filename {
            None => r is None,
            Some(f) => match institution_spec(f@) {
                None => r is None,
                Some(i) => r matches Some(s) && s@ == i,
            },
        },
{
    let f = match filename {
        Some(f) => f,
        None => return None,
    };
    let name = lowercase_chars(&chars_of(f));
    if contains(&name, &lit("shinhan")) || contains(&name, &lit("신한")) {
        if contains(&name, &lit("card")) || contains(&name, &lit("카드")) {
            Some(owned("shinhan_card"))
        } else {
            Some(owned("shinhan_bank"))
        }
    } else if contains(&name, &lit("hyundai")) || contains(&name, &lit("현대")) {
        Some(owned("hyundai_card"))
    } else if contains(&name, &lit("samsung")) || contains(&name, &lit("삼성")) {
        Some(owned("samsung_card"))
    } else if contains(&name, &lit("bc")) {
        Some(owned("bc_card"))
    } else {
        None
    }
}

/// The kind of file that a watched file's name shows: `xlsx`, `xls`, or
/// else `csv`.
pub open spec fn source_type_spec(filename: Option<Seq<char>>) -> Seq<char> {
    let lower = lowercase(
        match filename {
            Some(f) => f,
            None => Seq::empty(),
        },
    );
    if ends_with_seq(lower, ".xlsx"@) {
        "xlsx"@
    } else if ends_with_seq(lower, ".xls"@) {
        "xls"@
    } else {
        "csv"@
    }
}

pub fn source_type_for_filename(filename: Option<&str>) -> (r: String)
    ensures
        r@ == source_type_spec(opt_str_view(filename)),
{
    let fv: Vec<char> = match filename {
        Some(f) => chars_of(f),
        None => Vec::new(),
    };
    assert(fv@ =~= match opt_str_view(filename) {
        Some(f) => f,
        None => Seq::empty(),
    });
    let lower = lowercase_chars(&fv);
    if ends_with(&lower, &lit(".xlsx")) {
        owned("xlsx")
    } else if ends_with(&lower, &lit(".xls")) {
        owned("xls")
    } else {
        owned("csv")
    }
}

/// The card issuer: from the institution the file came from, else from the
/// card's name, else unclassified.
pub open spec fn card_issuer_spec(source: Option<Seq<char>>, card_name: Seq<char>) -> Seq<char> {
    let s = lowercase(
        match source {
            Some(x) => x,
            None => Seq::empty(),
        },
    );
    let n = lowercase(card_name);
    if contains_seq(s, "hyundai"@) {
        "현대카드"@
    } else if contains_seq(s, "samsung"@) {
        "삼성카드"@
    } else if contains_seq(s, "shinhan"@) {
        "신한카드"@
    } else if contains_seq(s, "kb"@) {
        "KB국민카드"@
    } else if contains_seq(s, "bc"@) {
        "BC카드"@
    } else if contains_seq(n, "현대"@) {
        "현대카드"@
    } else if contains_seq(n, "삼성"@) {
        "삼성카드"@
    } else if contains_seq(n, "신한"@) {
        "신한카드"@
    } else if contains_seq(n, "국민"@) || contains_seq(n, "kb"@) {
        "KB국민카드"@
    } else if contains_seq(n, "bc"@) {
        "BC카드"@
    } else {
        "미분류"@
    }
}

pub fn infer_card_issuer(source_institution: Option<&str>, card_name: &str) -> (r: String)
    ensures
        r@ == card_issuer_spec(opt_str_view(source_institution), card_name@),
{
    let empty: Vec<char> = Vec::new();
    let src: Vec<char> = match source_institution {
        Some(s) => lowercase_chars(&chars_of(s)),
        None => lowercase_chars(&empty),
    };
    if contains(&src, &lit("hyundai")) {
        return owned("현대카드");
    }
    if contains(&src, &lit("samsung")) {
        return owned("삼성카드");
    }
    if contains(&src, &lit("shinhan")) {
        return owned("신한카드");
    }
    if contains(&src, &lit("kb")) {
        return owned("KB국민카드");
    }
    if contains(&src, &lit("bc")) {
        return owned("BC카드");
    }
    let name = lowercase_chars(&chars_of(card_name));
    if contains(&name, &lit("현대")) {
        return owned("현대카드");
    }
    if contains(&name, &lit("삼성")) {
        return owned("삼성카드");
    }
    if contains(&name, &lit("신한")) {
        return owned("신한카드");
    }
    if contains(&name, &lit("국민")) || contains(&name, &lit("kb")) {
        return owned("KB국민카드");
    }
    if contains(&name, &lit("bc")) {
        return owned("BC카드");
    }
    owned("미분류")
}

// ───────────────────────── card names ─────────────────────────

/// A card name without whitespace, in lower case: the key cards are found
/// by.
pub open spec fn card_key_spec(value: Seq<char>) -> Seq<char> {
    lowercase(value.filter(not_ws()))
}

pub fn normalize_card_lookup_key(value: &str) -> (r: Vec<char>)
    ensures
        r@ == card_key_spec(value@),
{
    lowercase_chars(&remove_whitespace(&chars_of(value)))
}

/// The last four digits of a card name, when it has four digits.
pub open spec fn card_last4_spec(value: Seq<char>) -> Option<Seq<char>> {
    let d = value.filter(is_digit_pred());
    if d.len() < 4 {
        None
    } else {
        Some(d.subrange(d.len() - 4, d.len() as int))
    }
}

pub fn extract_card_last4(value: &str) -> (r: Option<Vec<char>>)
    ensures
        match card_last4_spec(value@) {
            None => r is None,
            Some(l) => r matches Some(v) && v@ == l,
        },
{
    let digits = keep_digits(&chars_of(value));
    if digits.len() < 4 {
        return None;
    }
    Some(sub_chars(&digits, digits.len() - 4, digits.len()))
}

/// The run of digits and `*` at the end of `s`.
pub open spec fn trailing_digit_star(s: Seq<char>) -> Seq<char>
    decreases s.len(),
{
    if s.len() > 0 && (is_digit(s.last()) || s.last() == '*') {
        trailing_digit_star(s.drop_last()).push(s.last())
    } else {
        Seq::empty()
    }
}

/// The name a new card is shown by: the issuer and the card's last four
/// digits, else the issuer and a short run of digits and `*` ending the raw
/// name, else the issuer alone.
pub open spec fn display_name_spec(issuer: Seq<char>, raw: Seq<char>) -> Seq<char> {
    match card_last4_spec(raw) {
        Some(l) => issuer + " ("@ + l + ")"@,
        None => {
            let ds = trailing_digit_star(trim_seq(raw));
            if ds.len() > 0 && ds.len() <= 6 {
                issuer + " ("@ + ds + ")"@
            } else {
                issuer
            }
        },
    }
}

fn trailing_digit_star_exec(s: &Vec<char>) -> (r: Vec<char>)
    ensures
        r@ == trailing_digit_star(s@),
{
    let mut start: usize = s.len();
    assert(s@.take(start as int) =~= s@);
    assert(s@.subrange(start as int, s@.len() as int) =~= Seq::<char>::empty());
    assert(trailing_digit_star(s@) =~= trailing_digit_star(s@.take(start as int)) + s@.subrange(start as int, s@.len() as int));
    while start > 0 && (is_ascii_digit(s[start - 1]) || s[start - 1] == '*')
        invariant
            start <= s.len(),
            trailing_digit_star(s@) == trailing_digit_star(s@.take(start as int)) + s@.subrange(
                start as int,
                s@.len() as int,
            ),
        decreases start,
    {
        proof {
            let t = s@.take(start as int);
            assert(t.drop_last() =~= s@.take(start - 1));
            assert(t.last() == s@[start - 1]);
            assert(trailing_digit_star(t) == trailing_digit_star(s@.take(start - 1)).push(s@[start - 1]));
            assert(trailing_digit_star(s@.take(start - 1)).push(s@[start - 1]) + s@.subrange(
                start as int,
                s@.len() as int,
            ) =~= trailing_digit_star(s@.take(start - 1)) + s@.subrange(start - 1, s@.len() as int));
        }
        start -= 1;
    }
    proof {
        let t = s@.take(start as int);
        if start > 0 {
            assert(t.last() == s@[start - 1]);
        }
        assert(trailing_digit_star(t) =~= Seq::<char>::empty());
    }
    let r = sub_chars(s, start, s.len());
    assert(trailing_digit_star(s@) =~= r@);
    r
}

/// The display name of a card created from an import row.
pub fn make_card_display_name(issuer: &str, raw_card_name: &str) -> (r: String)
    ensures
        r@ == display_name_spec(issuer@, raw_card_name@),
{
    proof {
        reveal_strlit(")");
    }
    let mut out = chars_of(issuer);
    if let Some(last4) = extract_card_last4(raw_card_name) {
        append_chars(&mut out, &lit(" ("));
        append_chars(&mut out, &last4);
        out.push(')');
        assert(out@ =~= display_name_spec(issuer@, raw_card_name@));
        return string_of(&out);
    }
    let trimmed = trim_chars(&chars_of(raw_card_name));
    let digits_star = trailing_digit_star_exec(&trimmed);
    if digits_star.len() > 0 && digits_star.len() <= 6 {
        append_chars(&mut out, &lit(" ("));
        append_chars(&mut out, &digits_star);
        out.push(')');
        assert(out@ =~= display_name_spec(issuer@, raw_card_name@));
        return string_of(&out);
    }
    string_of(&out)
}

// ───────────────────────── finding cards and accounts ─────────────────────────

/// Card keys in the order the cards were listed; the first card with a key
/// keeps it.
pub open spec fn card_name_map(cards: Seq<(u128, String)>) -> Map<Seq<char>, u128>
    decreases cards.len(),
{
    if cards.len() == 0 {
        Map::empty()
    } else {
        let m = card_name_map(cards.drop_last());
        let k = card_key_spec(cards.last().1@);
        if m.contains_key(k) {
            m
        } else {
            m.insert(k, cards.last().0)
        }
    }
}

/// Last-four-digit keys with the last card that has each, and the keys that
/// more than one card has.
pub open spec fn card_last4_raw(cards: Seq<(u128, String)>) -> (Map<Seq<char>, u128>, Set<Seq<char>>)
    decreases cards.len(),
{
    if cards.len() == 0 {
        (Map::empty(), Set::empty())
    } else {
        let (m, a) = card_last4_raw(cards.drop_last());
        match card_last4_spec(cards.last().1@) {
            None => (m, a),
            Some(l) => (
                m.insert(l, cards.last().0),
                if m.contains_key(l) {
                    a.insert(l)
                } else {
                    a
                },
            ),
        }
    }
}

/// Last four digits that only one card has, with that card.
pub open spec fn card_last4_map(cards: Seq<(u128, String)>) -> Map<Seq<char>, u128> {
    card_last4_raw(cards).0.remove_keys(card_last4_raw(cards).1)
}

/// The card a raw card name from an import refers to: the card with the same
/// key, else the only card with the same last four digits.
pub open spec fn card_lookup_spec(
    names: Map<Seq<char>, u128>,
    last4s: Map<Seq<char>, u128>,
    raw: Seq<char>,
) -> Option<u128> {
    let k = card_key_spec(raw);
    if names.contains_key(k) {
        Some(names[k])
    } else {
        match card_last4_spec(raw) {
            Some(l) => if last4s.contains_key(l) {
                Some(last4s[l])
            } else {
                None
            },
            None => None,
        }
    }
}

/// The user's cards, found by name and by their last four digits.
#[derive(Debug)]
pub struct CardIndex {
    pub by_name: KeyedIds,
    pub by_last4: KeyedIds,
}

/// What to do with a row's card name.
#[derive(Debug)]
pub enum CardPlan {
    /// The row belongs to this existing card.
    Existing(u128),
    /// A card is to be created with this issuer and display name.
    Create { issuer: String, display_name: String },
}

impl CardIndex {
    pub open spec fn wf(&self) -> bool {
        self.by_name.wf() && self.by_last4.wf()
    }

    /// Files the user's cards, given as (id, name) in the order they were
    /// listed.
    pub fn build(cards: &Vec<(u128, String)>) -> (r: CardIndex)
        ensures
            r.wf(),
            r.by_name.view() == card_name_map(cards@),
            r.by_last4.view() == card_last4_map(cards@),
    {
        let mut by_name = KeyedIds::new();
        let mut raw4 = KeyedIds::new();
        let mut ambiguous: Vec<Vec<char>> = Vec::new();
        let mut i: usize = 0;
        while i < cards.len()
            invariant
                i <= cards@.len(),
                by_name.wf(),
                raw4.wf(),
                by_name.view() == card_name_map(cards@.take(i as int)),
                raw4.view() == card_last4_raw(cards@.take(i as int)).0,
                ambiguous@.map_values(|v: Vec<char>| v@).to_set() == card_last4_raw(
                    cards@.take(i as int),
                ).1,
            decreases cards.len() - i,
        {
            proof {
                assert(cards@.take(i + 1).drop_last() =~= cards@.take(i as int));
            }
            let (id, name) = (cards[i].0, &cards[i].1);
            let key = normalize_card_lookup_key(name.as_str());
            by_name.insert_if_absent(key, id);
            match extract_card_last4(name.as_str()) {
                Some(l4) => {
                    let had = raw4.get(&l4);
                    let ghost old_amb = ambiguous@;
                    let l4c = sub_chars(&l4, 0, l4.len());
                    assert(l4c@ =~= l4@);
                    raw4.insert(l4, id);
                    if had.is_some() {
                        ambiguous.push(l4c);
                        proof {
                            assert(ambiguous@.map_values(|v: Vec<char>| v@) =~= old_amb.map_values(
                                |v: Vec<char>| v@,
                            ).push(l4c@));
                            old_amb.map_values(|v: Vec<char>| v@).lemma_push_to_set_commute(l4c@);
                        }
                    }
                },
                None => {},
            }
            i += 1;
        }
        assert(cards@.take(cards@.len() as int) =~= cards@);
        let ghost full = raw4.view();
        let ghost amb_seq = ambiguous@.map_values(|v: Vec<char>| v@);
        let mut j: usize = 0;
        assert(full.remove_keys(amb_seq.take(0).to_set()) =~= full) by {
            assert(amb_seq.take(0).to_set() =~= Set::<Seq<char>>::empty());
        }
        while j < ambiguous.len()
            invariant
                j <= ambiguous@.len(),
                raw4.wf(),
                amb_seq == ambiguous@.map_values(|v: Vec<char>| v@),
                raw4.view() == full.remove_keys(amb_seq.take(j as int).to_set()),
            decreases ambiguous.len() - j,
        {
            raw4.remove(&ambiguous[j]);
            proof {
                assert(amb_seq.take(j + 1) =~= amb_seq.take(j as int).push(amb_seq[j as int]));
                amb_seq.take(j as int).lemma_push_to_set_commute(amb_seq[j as int]);
                assert(full.remove_keys(amb_seq.take(j as int).to_set()).remove(amb_seq[j as int])
                    =~= full.remove_keys(amb_seq.take(j + 1).to_set()));
            }
            j += 1;
        }
        assert(amb_seq.take(ambiguous@.len() as int) =~= amb_seq);
        CardIndex { by_name, by_last4: raw4 }
    }

    /// The existing card a raw card name refers to.
    pub fn lookup(&self, raw_card_name: &str) -> (r: Option<u128>)
        requires
            self.wf(),
        ensures
            r == card_lookup_spec(self.by_name.view(), self.by_last4.view(), raw_card_name@),
    {
        let key = normalize_card_lookup_key(raw_card_name);
        match self.by_name.get(&key) {
            Some(id) => Some(id),
            None => match extract_card_last4(raw_card_name) {
                Some(l4) => self.by_last4.get(&l4),
                None => None,
            },
        }
    }

    /// The card for a row's card name: an existing one, or the issuer and
    /// display name of one to create.
    pub fn plan(&self, raw_card_name: &str, source_institution: Option<&str>) -> (r: CardPlan)
        requires
            self.wf(),
        ensures
            match card_lookup_spec(self.by_name.view(), self.by_last4.view(), raw_card_name@) {
                Some(id) => r == CardPlan::Existing(id),
                None => r matches CardPlan::Create { issuer, display_name } && issuer@
                    == card_issuer_spec(opt_str_view(source_institution), raw_card_name@)
                    && display_name@ == display_name_spec(issuer@, raw_card_name@),
            },
    {
        match self.lookup(raw_card_name) {
            Some(id) => CardPlan::Existing(id),
            None => {
                let issuer = infer_card_issuer(source_institution, raw_card_name);
                let display_name = make_card_display_name(issuer.as_str(), raw_card_name);
                CardPlan::Create { issuer, display_name }
            },
        }
    }

    /// Files a card just created for a row: under the row's card name, under
    /// its display name, and under its last four digits unless another card
    /// already has them.
    pub fn register(&mut self, id: u128, raw_card_name: &str, display_name: &str)
        requires
            old(self).wf(),
        ensures
            final(self).wf(),
            final(self).by_name.view() == old(self).by_name.view().insert(
                card_key_spec(raw_card_name@),
                id,
            ).insert(card_key_spec(display_name@), id),
            final(self).by_last4.view() == match card_last4_spec(raw_card_name@) {
                Some(l) => if old(self).by_last4.view().contains_key(l) {
                    old(self).by_last4.view()
                } else {
                    old(self).by_last4.view().insert(l, id)
                },
                None => old(self).by_last4.view(),
            },
    {
        self.by_name.insert(normalize_card_lookup_key(raw_card_name), id);
        self.by_name.insert(normalize_card_lookup_key(display_name), id);
        match extract_card_last4(raw_card_name) {
            Some(l4) => self.by_last4.insert_if_absent(l4, id),
            None => {},
        }
    }
}

/// Once a card is filed for a row, that row's card name and the card's
/// display name both find it.
pub proof fn lemma_registered_card_is_found(
    names: Map<Seq<char>, u128>,
    last4s: Map<Seq<char>, u128>,
    id: u128,
    raw: Seq<char>,
    display: Seq<char>,
)
    ensures
        card_lookup_spec(
            names.insert(card_key_spec(raw), id).insert(card_key_spec(display), id),
            last4s,
            raw,
        ) == Some(id),
        card_lookup_spec(
            names.insert(card_key_spec(raw), id).insert(card_key_spec(display), id),
            last4s,
            display,
        ) == Some(id),
{
}

/// The user's accounts by name, trimmed and in lower case; a later account
/// with the same key replaces an earlier one.
pub open spec fn account_key_spec(name: Seq<char>) -> Seq<char> {
    lowercase(trim_seq(name))
}

pub open spec fn account_map(accounts: Seq<(u128, String)>) -> Map<Seq<char>, u128>
    decreases accounts.len(),
{
    if accounts.len() == 0 {
        Map::empty()
    } else {
        card_or_account_insert(
            account_map(accounts.drop_last()),
            account_key_spec(accounts.last().1@),
            accounts.last().0,
        )
    }
}

pub open spec fn card_or_account_insert(m: Map<Seq<char>, u128>, k: Seq<char>, v: u128) -> Map<Seq<char>, u128> {
    m.insert(k, v)
}

pub fn account_key(name: &str) -> (r: Vec<char>)
    ensures
        r@ == account_key_spec(name@),
{
    lowercase_chars(&trim_chars(&chars_of(name)))
}

/// Files the user's accounts by name.
pub fn build_account_index(accounts: &Vec<(u128, String)>) -> (r: KeyedIds)
    ensures
        r.wf(),
        r.view() == account_map(accounts@),
{
    let mut m = KeyedIds::new();
    let mut i: usize = 0;
    while i < accounts.len()
        invariant
            i <= accounts@.len(),
            m.wf(),
            m.view() == account_map(accounts@.take(i as int)),
        decreases accounts.len() - i,
    {
        proof {
            assert(accounts@.take(i + 1).drop_last() =~= accounts@.take(i as int));
        }
        m.insert(account_key(accounts[i].1.as_str()), accounts[i].0);
        i += 1;
    }
    assert(accounts@.take(accounts@.len() as int) =~= accounts@);
    m
}

// ───────────────────────── previews and confirmations ─────────────────────────

/// Marks each row new or duplicate by whether its dedupe key is already
/// stored, and counts them.
pub fn classify_preview_rows(keys: &Vec<String>, existing: &Vec<String>) -> (r: (Vec<bool>, ImportSummary))
    requires
        keys@.len() <= i32::MAX,
    ensures
        r.0@.len() == keys@.len(),
        forall|i: int|
            0 <= i < keys@.len() ==> (#[trigger] r.0@[i] <==> strings_view(existing@).contains(
                keys@[i]@,
            )),
        r.1.total == keys@.len(),
        r.1.new_count + r.1.duplicate_count == r.1.total,
        r.1.duplicate_count == r.0@.filter(|b: bool| b).len(),
        r.1.error_count == 0,
{
    let mut dup: Vec<bool> = Vec::new();
    let mut new_count: i32 = 0;
    let mut duplicate_count: i32 = 0;
    let mut i: usize = 0;
    while i < keys.len()
        invariant
            i <= keys@.len() <= i32::MAX,
            dup@.len() == i,
            forall|j: int| 0 <= j < i ==> (#[trigger] dup@[j] <==> strings_view(existing@).contains(keys@[j]@)),
            new_count + duplicate_count == i,
            duplicate_count == dup@.filter(|b: bool| b).len(),
            new_count >= 0,
            duplicate_count >= 0,
        decreases keys.len() - i,
    {
        let k = chars_of(keys[i].as_str());
        let mut found = false;
        let mut j: usize = 0;
        while j < existing.len()
            invariant
                j <= existing@.len(),
                k@ == keys@[i as int]@,
                found <==> exists|t: int| 0 <= t < j && existing@[t]@ == k@,
            decreases existing.len() - j,
        {
            if !found && crate::text::chars_eq(&chars_of(existing[j].as_str()), &k) {
                found = true;
            }
            j += 1;
        }
        proof {
            if found {
                let t = choose|t: int| 0 <= t < existing@.len() && existing@[t]@ == k@;
                assert(strings_view(existing@)[t] == k@);
            }
            if strings_view(existing@).contains(k@) {
                let t = choose|t: int| 0 <= t < strings_view(existing@).len() && strings_view(existing@)[t] == k@;
                assert(existing@[t]@ == k@);
            }
        }
        let ghost old_dup = dup@;
        dup.push(found);
        proof {
            reveal_with_fuel(Seq::filter, 1);
            assert(dup@.drop_last() =~= old_dup);
        }
        if found {
            duplicate_count += 1;
        } else {
            new_count += 1;
        }
        i += 1;
    }
    (
        dup,
        ImportSummary {
            total: keys.len() as i32,
            new_count,
            duplicate_count,
            error_count: 0,
        },
    )
}

/// What confirming an import does given its status.
#[derive(Debug, Clone, Copy, PartialEq, Eq)]
pub enum ConfirmStart {
    /// Already saved: report the stored counts.
    AlreadyImported,
    /// Cancelled: refuse.
    Cancelled,
    /// Save its new rows.
    Proceed,
}

pub fn confirm_start(status: &str) -> (r: ConfirmStart)
    ensures
        r == if status@ == "imported"@ {
            ConfirmStart::AlreadyImported
        } else if status@ == "failed"@ {
            ConfirmStart::Cancelled
        } else {
            ConfirmStart::Proceed
        },
{
    if str_eq(status, "imported") {
        ConfirmStart::AlreadyImported
    } else if str_eq(status, "failed") {
        ConfirmStart::Cancelled
    } else {
        ConfirmStart::Proceed
    }
}

/// The source type that confirmed rows are stored with.
pub fn confirmed_source_type(import_source_type: &str) -> (r: String)
    ensures
        r@ == if import_source_type@ == "pasted_text"@ {
            "pasted_text"@
        } else {
            "file"@
        },
{
    if str_eq(import_source_type, "pasted_text") {
        owned("pasted_text")
    } else {
        owned("file")
    }
}

/// What happened to one row of an import being confirmed.
#[derive(Debug, Clone, Copy, PartialEq, Eq)]
pub enum RowOutcome {
    Imported,
    Duplicate,
    Failed,
    /// Not a new row, and not marked duplicate either.
    Skipped,
}

/// Running counts of a confirmation.
#[derive(Debug, Clone, Copy)]
pub struct ConfirmTally {
    pub imported: i32,
    pub duplicate: i32,
    pub error: i32,
}

impl ConfirmTally {
    pub fn new() -> (t: ConfirmTally)
        ensures
            t.imported == 0 && t.duplicate == 0 && t.error == 0,
    {
        ConfirmTally { imported: 0, duplicate: 0, error: 0 }
    }

    /// Counts one row.
    pub fn record(&mut self, outcome: RowOutcome)
        requires
            old(self).imported < i32::MAX,
            old(self).duplicate < i32::MAX,
            old(self).error < i32::MAX,
        ensures
            final(self).imported == old(self).imported + if outcome == RowOutcome::Imported { 1int } else { 0 },
            final(self).duplicate == old(self).duplicate + if outcome == RowOutcome::Duplicate { 1int } else { 0 },
            final(self).error == old(self).error + if outcome == RowOutcome::Failed { 1int } else { 0 },
    {
        match outcome {
            RowOutcome::Imported => self.imported += 1,
            RowOutcome::Duplicate => self.duplicate += 1,
            RowOutcome::Failed => self.error += 1,
            RowOutcome::Skipped => {},
        }
    }

    /// The counts reported when the confirmation ends: the total is the sum
    /// of the three.
    pub fn summary(&self) -> (s: ImportSummary)
        requires
            self.imported + self.duplicate + self.error <= i32::MAX,
            self.imported >= 0 && self.duplicate >= 0 && self.error >= 0,
        ensures
            s.total == self.imported + self.duplicate + self.error,
            s.new_count == self.imported,
            s.duplicate_count == self.duplicate,
            s.error_count == self.error,
    {
        ImportSummary {
            total: self.imported + self.duplicate + self.error,
            new_count: self.imported,
            duplicate_count: self.duplicate,
            error_count: self.error,
        }
    }
}

/// The outcome of a stored row that is not new: a duplicate is counted, any
/// other status is passed over.
pub fn outcome_of_stored_status(status: &str) -> (r: Option<RowOutcome>)
    ensures
        r == if status@ == "new"@ {
            None
        } else if status@ == "duplicate"@ {
            Some(RowOutcome::Duplicate)
        } else {
            Some(RowOutcome::Skipped)
        },
{
    if str_eq(status, "new") {
        None
    } else if str_eq(status, "duplicate") {
        Some(RowOutcome::Duplicate)
    } else {
        Some(RowOutcome::Skipped)
    }
}

/// The parser chosen among the detection scores (in hundredths): the last
/// of those with the highest score, when it reaches 30.
pub open spec fn best_parser_spec(scores: Seq<u32>, i: int) -> bool {
    &&& 0 <= i < scores.len()
    &&& scores[i] >= 30
    &&& forall|j: int| 0 <= j < scores.len() ==> #[trigger] scores[j] <= scores[i]
    &&& forall|j: int| i < j < scores.len() ==> #[trigger] scores[j] < scores[i]
}

pub fn detect_best_parser(scores: &Vec<u32>) -> (r: Option<usize>)
    ensures
        match r {
            Some(i) => best_parser_spec(scores@, i as int),
            None => forall|j: int| 0 <= j < scores@.len() ==> #[trigger] scores@[j] < 30,
        },
{
    if scores.len() == 0 {
        return None;
    }
    let mut best: usize = 0;
    let mut i: usize = 1;
    while i < scores.len()
        invariant
            1 <= i <= scores@.len(),
            best < i,
            forall|j: int| 0 <= j < i ==> #[trigger] scores@[j] <= scores@[best as int],
            forall|j: int| best < j < i ==> #[trigger] scores@[j] < scores@[best as int],
        decreases scores.len() - i,
    {
        if scores[i] >= scores[best] {
            best = i;
        }
        i += 1;
    }
    if scores[best] >= 30 {
        Some(best)
    } else {
        None
    }
}

/// The sample a file is shown to the parsers with: its first 600
/// characters, read as UTF-8 with replacement characters.
pub fn preview_sample(content: &[u8]) -> (r: String)
    ensures
        r@ == (if utf8_lossy(content@).len() <= 600 {
            utf8_lossy(content@)
        } else {
            utf8_lossy(content@).take(600)
        }),
{
    let text = chars_of(utf8_lossy_string(content).as_str());
    if text.len() <= 600 {
        string_of(&text)
    } else {
        crate::text::string_of_range(&text, 0, 600)
    }
}

/// A file the import folder's watcher takes up: its extension, in lower
/// case, is `csv`, `xls` or `xlsx`.
pub fn watched_extension(ext: &str) -> (b: bool)
    ensures
        b == (lowercase(ext@) == "csv"@ || lowercase(ext@) == "xls"@ || lowercase(ext@) == "xlsx"@),
{
    let l = lowercase_chars(&chars_of(ext));
    let s = string_of(&l);
    str_eq(s.as_str(), "csv") || str_eq(s.as_str(), "xls") || str_eq(s.as_str(), "xlsx")
}

/// The sheet of a workbook to read: the first whose name, in lower case,
/// contains the hint in lower case, else the first sheet; `None` where the
/// workbook has no sheet.
pub fn pick_sheet(names: &Vec<String>, hint: &str) -> (r: Option<usize>)
    ensures
        match r {
            None => names@.len() == 0,
            Some(i) => {
                &&& 0 <= i < names@.len()
                &&& forall|j: int| 0 <= j < i ==> !contains_seq(lowercase(#[trigger] names@[j]@), lowercase(hint@))
                &&& (contains_seq(lowercase(names@[i as int]@), lowercase(hint@)) || (i == 0 && forall|j: int|
                    0 <= j < names@.len() ==> !contains_seq(lowercase(#[trigger] names@[j]@), lowercase(hint@))))
            },
        },
{
    let h = lowercase_chars(&chars_of(hint));
    let mut i: usize = 0;
    while i < names.len()
        invariant
            i <= names@.len(),
            h@ == lowercase(hint@),
            forall|j: int| 0 <= j < i ==> !contains_seq(lowercase(#[trigger] names@[j]@), lowercase(hint@)),
        decreases names.len() - i,
    {
        let n = lowercase_chars(&chars_of(names[i].as_str()));
        if contains(&n, &h) {
            return Some(i);
        }
        i += 1;
    }
    if names.len() == 0 {
        None
    } else {
        Some(0)
    }
}

} // verus!
