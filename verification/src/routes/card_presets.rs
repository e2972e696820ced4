//! Card presets: applying a preset's benefits to past transactions, and
//! reading the amounts and merchants of a card's benefit text.
use vstd::prelude::*;

use crate::card_rules::div_trunc;
use crate::errors::{is_bad_request, AppError};
use crate::numbers::{parse_i64, parse_i64_spec};
use crate::text::{
    chars_of, contains, contains_seq, find_from, find_from_spec, first_occurrence_from,
    is_digit, occurs_at, remove_char, split_char, split_char_seq, str_eq, string_of, sub_chars,
    trim, trim_chars, trim_seq, without_char,
};

verus! {

/// The text of a preset to read.
#[derive(Debug, Clone)]
pub struct ParsePresetRequest {
    pub text: String,
}

/// How a preset benefit discounts a transaction, as stored in the preset:
/// `kind` is `percent` or `fixed` (anything else gives nothing); absent
/// values are stored as 0 for `value` and `i64::MAX` for the caps.
#[derive(Debug, Clone)]
pub struct PresetDiscount {
    pub kind: String,
    pub value: i64,
    pub per_tx_cap: i64,
    pub max_base: i64,
}

/// A benefit of a preset: its name, the least amount it applies to (0 where
/// absent), the merchant keywords one of which the merchant must hold
/// (`None` where the benefit names none), and its discount.
#[derive(Debug, Clone)]
pub struct PresetBenefit {
    pub name: String,
    pub min_amount: i64,
    pub merchant_keywords: Option<Vec<String>>,
    pub discount: Option<PresetDiscount>,
}

pub open spec fn any_keyword_in(merchant: Seq<char>, keywords: Seq<String>) -> bool {
    exists|k: int| 0 <= k < keywords.len() && contains_seq(merchant, keywords[k]@)
}

/// A transaction earns a benefit when its amount reaches the benefit's
/// least amount and, where the benefit names merchant keywords, its merchant
/// holds one of them.
pub open spec fn matches_benefit_spec(amount: i64, merchant: Seq<char>, b: PresetBenefit) -> bool {
    amount >= b.min_amount && match b.merchant_keywords {
        Some(ks) => any_keyword_in(merchant, ks@),
        None => true,
    }
}

/// The merchant a benefit is matched against: empty where unknown.
pub open spec fn merchant_text(merchant_name: Option<&str>) -> Seq<char> {
    match merchant_name {
        Some(m) => m@,
        None => Seq::<char>::empty(),
    }
}

/// Whether a transaction earns a benefit; see `matches_benefit_spec`.
pub fn transaction_matches_benefit(amount: i64, merchant_name: Option<&str>, benefit: &PresetBenefit) -> (b: bool)
    ensures
        b == matches_benefit_spec(amount, merchant_text(merchant_name), *benefit),
{
    if amount < benefit.min_amount {
        return false;
    }
    match &benefit.merchant_keywords {
        None => true,
        Some(ks) => {
            let merchant = match merchant_name {
                Some(m) => chars_of(m),
                None => Vec::new(),
            };
            let ghost m = merchant_text(merchant_name);
            assert(merchant@ =~= m);
            let mut k: usize = 0;
            while k < ks.len()
                invariant
                    k <= ks@.len(),
                    merchant@ == m,
                    m == merchant_text(merchant_name),
                    benefit.merchant_keywords == Some(*ks),
                    amount >= benefit.min_amount,
                    forall|j: int| 0 <= j < k ==> !contains_seq(merchant@, #[trigger] ks@[j]@),
                decreases ks@.len() - k,
            {
                if contains(&merchant, &chars_of(ks[k].as_str())) {
                    assert(contains_seq(m, ks@[k as int]@));
                    return true;
                }
                k += 1;
            }
            false
        },
    }
}

/// The discount before the per-transaction cap: a percentage of the amount
/// (at most `max_base` of it), cut toward zero, or a fixed value.
pub open spec fn raw_discount(amount: i64, d: PresetDiscount) -> int {
    if d.kind@ == "percent"@ {
        let base = if amount < d.max_base {
            amount
        } else {
            d.max_base
        };
        div_trunc(base * d.value, 100)
    } else if d.kind@ == "fixed"@ {
        d.value as int
    } else {
        0
    }
}

/// The discount of a benefit on an amount: none without a discount, else
/// the raw discount kept under the per-transaction cap.
pub open spec fn discount_spec(amount: i64, b: PresetBenefit) -> int {
    match b.discount {
        None => 0,
        Some(d) => {
            let raw = raw_discount(amount, d);
            if raw < d.per_tx_cap {
                raw
            } else {
                d.per_tx_cap as int
            }
        },
    }
}

/// The percentage of a percent discount fits in an `i64`.
pub open spec fn discount_fits(amount: i64, b: PresetBenefit) -> bool {
    match b.discount {
        Some(d) => d.kind@ == "percent"@ ==> {
            let base = if amount < d.max_base {
                amount
            } else {
                d.max_base
            };
            i64::MIN <= base * d.value <= i64::MAX
        },
        None => true,
    }
}

/// Whether `discount_fits` holds, which `calc_discount` needs: a percent
/// discount's base times its rate fits in an `i64`.
pub fn discount_fits_check(amount: i64, benefit: &PresetBenefit) -> (ok: bool)
    ensures
        ok == discount_fits(amount, *benefit),
{
    proof {
        reveal_strlit("percent");
    }
    match &benefit.discount {
        None => true,
        Some(d) => {
            if !str_eq(d.kind.as_str(), "percent") {
                return true;
            }
            let base: i64 = if amount < d.max_base {
                amount
            } else {
                d.max_base
            };
            let v: i64 = d.value;
            assert(-0x4000_0000_0000_0000_0000_0000_0000_0000 <= (base as int) * (v as int)
                <= 0x4000_0000_0000_0000_0000_0000_0000_0000) by (nonlinear_arith)
                requires
                    -0x8000_0000_0000_0000 <= base <= 0x8000_0000_0000_0000,
                    -0x8000_0000_0000_0000 <= v <= 0x8000_0000_0000_0000,
            ;
            let prod: i128 = base as i128 * v as i128;
            i64::MIN as i128 <= prod && prod <= i64::MAX as i128
        },
    }
}

/// The discount a benefit gives on an amount; see `discount_spec`.
pub fn calc_discount(amount: i64, benefit: &PresetBenefit) -> (r: i64)
    requires
        discount_fits(amount, *benefit),
    ensures
        r == discount_spec(amount, *benefit),
{
    proof {
        reveal_strlit("percent");
        reveal_strlit("fixed");
    }
    match &benefit.discount {
        None => 0,
        Some(d) => {
            let raw: i64 = if str_eq(d.kind.as_str(), "percent") {
                let base = if amount < d.max_base {
                    amount
                } else {
                    d.max_base
                };
                base * d.value / 100
            } else if str_eq(d.kind.as_str(), "fixed") {
                d.value
            } else {
                0
            };
            if raw < d.per_tx_cap {
                raw
            } else {
                d.per_tx_cap
            }
        },
    }
}

/// What happens to one benefit on one transaction.
#[derive(Debug, Clone, Copy, PartialEq, Eq)]
pub enum BenefitStep {
    /// The benefit has no name: it is passed over.
    Unnamed,
    /// The benefit was already applied to the transaction: it counts as
    /// skipped.
    AlreadyApplied,
    /// The transaction does not earn the benefit.
    NotEarned,
    /// The benefit is applied with this discount.
    Apply(i64),
}

/// The step for a benefit on a transaction, in the order the checks are
/// made: the name, whether it was already applied, whether it is earned,
/// then the discount.
pub fn benefit_step(amount: i64, merchant_name: Option<&str>, benefit: &PresetBenefit, already_applied: bool) -> (r: BenefitStep)
    requires
        discount_fits(amount, *benefit),
    ensures
        r == (if benefit.name@.len() == 0 {
            BenefitStep::Unnamed
        } else if already_applied {
            BenefitStep::AlreadyApplied
        } else if !matches_benefit_spec(amount, merchant_text(merchant_name), *benefit) {
            BenefitStep::NotEarned
        } else {
            BenefitStep::Apply(discount_spec(amount, *benefit) as i64)
        }),
{
    if benefit.name.as_str().unicode_len() == 0 {
        return BenefitStep::Unnamed;
    }
    if already_applied {
        return BenefitStep::AlreadyApplied;
    }
    if !transaction_matches_benefit(amount, merchant_name, benefit) {
        return BenefitStep::NotEarned;
    }
    BenefitStep::Apply(calc_discount(amount, benefit))
}

// ───────────────────────── reading a benefit text ─────────────────────────

/// An optional `i64` as an optional integer.
pub open spec fn opt_int(a: Option<i64>) -> Option<int> {
    match a {
        Some(x) => Some(x as int),
        None => None,
    }
}

/// A line without the carriage return before its line feed.
pub open spec fn strip_cr(l: Seq<char>) -> Seq<char> {
    if l.len() > 0 && l.last() == '\r' {
        l.drop_last()
    } else {
        l
    }
}

/// The lines of a text, as `str::lines` gives them: the pieces between line
/// feeds, each without a carriage return before its line feed, and without
/// the empty piece after a final line feed.
pub open spec fn lines_seq(s: Seq<char>) -> Seq<Seq<char>> {
    let parts = split_char_seq(s, '\n');
    let n = parts.len() - 1;
    let head = parts.take(n).map_values(|l: Seq<char>| strip_cr(l));
    if parts[n].len() == 0 {
        head
    } else {
        head.push(parts[n])
    }
}

pub open spec fn char_vecs(v: Seq<Vec<char>>) -> Seq<Seq<char>> {
    v.map_values(|x: Vec<char>| x@)
}

/// The lines of a text; see `lines_seq`.
pub fn text_lines(text: &str) -> (lines: Vec<Vec<char>>)
    ensures
        char_vecs(lines@) == lines_seq(text@),
{
    let parts = split_char(&chars_of(text), '\n');
    proof {
        crate::text::lemma_split_char_len(text@, '\n');
    }
    let ghost ps = split_char_seq(text@, '\n');
    assert(char_vecs(parts@) == ps);
    let n = parts.len() - 1;
    let mut lines: Vec<Vec<char>> = Vec::new();
    let mut i: usize = 0;
    while i < n
        invariant
            i <= n,
            n + 1 == parts@.len(),
            ps == split_char_seq(text@, '\n'),
            char_vecs(parts@) == ps,
            char_vecs(lines@) == ps.take(i as int).map_values(|l: Seq<char>| strip_cr(l)),
        decreases n - i,
    {
        let part = &parts[i];
        assert(part@ == ps[i as int]);
        let line = if part.len() > 0 && part[part.len() - 1] == '\r' {
            sub_chars(part, 0, part.len() - 1)
        } else {
            sub_chars(part, 0, part.len())
        };
        assert(line@ =~= strip_cr(ps[i as int]));
        let ghost before = lines@;
        lines.push(line);
        proof {
            assert(char_vecs(lines@) =~= char_vecs(before).push(strip_cr(ps[i as int])));
            assert(ps.take(i + 1).map_values(|l: Seq<char>| strip_cr(l)) =~= ps.take(
                i as int,
            ).map_values(|l: Seq<char>| strip_cr(l)).push(strip_cr(ps[i as int])));
        }
        i += 1;
    }
    let last = &parts[n];
    assert(last@ == ps[n as int]);
    assert(ps.take(n as int).map_values(|l: Seq<char>| strip_cr(l)) == char_vecs(lines@));
    if last.len() > 0 {
        let ghost before = lines@;
        let copy = sub_chars(last, 0, last.len());
        assert(copy@ =~= ps[n as int]);
        lines.push(copy);
        assert(char_vecs(lines@) =~= char_vecs(before).push(ps[n as int]));
    }
    lines
}

/// The ASCII digits that end just before position `pos`.
pub open spec fn digit_run_before(s: Seq<char>, pos: int) -> Seq<char>
    decreases pos,
{
    if pos <= 0 || pos > s.len() || !is_digit(s[pos - 1]) {
        Seq::<char>::empty()
    } else {
        digit_run_before(s, pos - 1).push(s[pos - 1])
    }
}

fn digits_before(s: &Vec<char>, pos: usize) -> (r: Vec<char>)
    requires
        pos <= s.len(),
    ensures
        r@ == digit_run_before(s@, pos as int),
{
    let mut start = pos;
    while start > 0 && crate::text::is_ascii_digit(s[start - 1])
        invariant
            start <= pos <= s.len(),
            digit_run_before(s@, pos as int) == digit_run_before(s@, start as int) + s@.subrange(
                start as int,
                pos as int,
            ),
        decreases start,
    {
        assert(s@.subrange(start - 1, pos as int) =~= seq![s@[start - 1]] + s@.subrange(
            start as int,
            pos as int,
        ));
        assert(digit_run_before(s@, start as int) == digit_run_before(s@, start - 1).push(
            s@[start - 1],
        ));
        start -= 1;
    }
    assert(digit_run_before(s@, start as int) =~= Seq::<char>::empty());
    sub_chars(s, start, pos)
}

/// The number of ten-thousands written just before the first `만원`: that
/// many times 10000, where digits stand there.
pub open spec fn man_value(t: Seq<char>) -> Option<int> {
    match find_from_spec(t, "만원"@, 0) {
        None => None,
        Some(pos) => match parse_i64_spec(digit_run_before(t, pos)) {
            Some(n) => Some(n * 10000),
            None => None,
        },
    }
}

/// The ten-thousands of `man_value` fit in an `i64`.
pub open spec fn man_fits(t: Seq<char>) -> bool {
    match man_value(t) {
        Some(v) => v <= i64::MAX,
        None => true,
    }
}

proof fn lemma_digit_run_nonneg(t: Seq<char>, pos: int)
    ensures
        parse_i64_spec(digit_run_before(t, pos)) matches Some(n) ==> n >= 0,
    decreases pos,
{
    let d = digit_run_before(t, pos);
    lemma_digit_run_all_digits(t, pos);
    if d.len() > 0 {
        assert(is_digit(d[0]));
    }
    if parse_i64_spec(d) is Some {
        crate::numbers::lemma_digits_value_nonneg(d);
    }
}

proof fn lemma_digit_run_all_digits(t: Seq<char>, pos: int)
    ensures
        forall|i: int| 0 <= i < digit_run_before(t, pos).len() ==> is_digit(#[trigger] digit_run_before(t, pos)[i]),
    decreases pos,
{
    if !(pos <= 0 || pos > t.len() || !is_digit(t[pos - 1])) {
        lemma_digit_run_all_digits(t, pos - 1);
        let prev = digit_run_before(t, pos - 1);
        assert(digit_run_before(t, pos) == prev.push(t[pos - 1]));
        assert forall|i: int| 0 <= i < digit_run_before(t, pos).len() implies is_digit(
            #[trigger] digit_run_before(t, pos)[i],
        ) by {
            if i < prev.len() {
                assert(digit_run_before(t, pos)[i] == prev[i]);
            }
        }
    }
}

/// The amount written as a number of `만원` (ten thousand won); see
/// `man_value`.
pub fn regex_find_man(text: &Vec<char>) -> (r: Option<i64>)
    requires
        man_fits(text@),
    ensures
        opt_int(r) == man_value(text@),
{
    let pos = match find_from(text, &chars_of("만원"), 0) {
        Some(p) => p,
        None => return None,
    };
    proof {
        reveal_strlit("만원");
    }
    let digits = digits_before(text, pos);
    proof {
        lemma_digit_run_nonneg(text@, pos as int);
    }
    match parse_i64(&digits) {
        Some(n) => Some(n * 10000),
        None => None,
    }
}

/// The text without commas and spaces.
pub open spec fn compact(t: Seq<char>) -> Seq<char> {
    t.filter(without_char(',')).filter(without_char(' '))
}

fn compact_chars(t: &Vec<char>) -> (r: Vec<char>)
    ensures
        r@ == compact(t@),
{
    remove_char(&remove_char(t, ','), ' ')
}

/// Where a unit is written: its first occurrence with `원` after it, or
/// else its first occurrence alone.
pub open spec fn unit_pos(t: Seq<char>, with_won: Seq<char>, unit: Seq<char>) -> Option<int> {
    match find_from_spec(t, with_won, 0) {
        Some(p) => Some(p),
        None => find_from_spec(t, unit, 0),
    }
}

/// The number written just before a unit, or 0.
pub open spec fn unit_count(t: Seq<char>, with_won: Seq<char>, unit: Seq<char>) -> int {
    match unit_pos(t, with_won, unit) {
        Some(p) => match parse_i64_spec(digit_run_before(t, p)) {
            Some(n) => n as int,
            None => 0,
        },
        None => 0,
    }
}

/// The amount written with `만` (ten thousand) and `천` (thousand), such as
/// `1만5천원`: the ten-thousands times 10000 plus the thousands times 1000,
/// of the compacted text.
pub open spec fn chon_total(text: Seq<char>) -> int {
    let t = compact(text);
    unit_count(t, "만원"@, "만"@) * 10000 + unit_count(t, "천원"@, "천"@) * 1000
}

/// The amount of `chon_total`, where it is positive.
pub open spec fn chon_value(text: Seq<char>) -> Option<int> {
    if chon_total(text) > 0 {
        Some(chon_total(text))
    } else {
        None
    }
}

fn unit_number(t: &Vec<char>, with_won: &str, unit: &str) -> (r: i64)
    ensures
        r == unit_count(t@, with_won@, unit@),
        r >= 0,
{
    let pos = match find_from(t, &chars_of(with_won), 0) {
        Some(p) => Some(p),
        None => find_from(t, &chars_of(unit), 0),
    };
    match pos {
        Some(p) => {
            proof {
                if find_from_spec(t@, with_won@, 0) is Some {
                    lemma_found(t@, with_won@, 0);
                } else {
                    lemma_found(t@, unit@, 0);
                }
                lemma_digit_run_nonneg(t@, p as int);
            }
            let digits = digits_before(t, p);
            match parse_i64(&digits) {
                Some(n) => n,
                None => 0,
            }
        },
        None => 0,
    }
}

proof fn lemma_found(s: Seq<char>, p: Seq<char>, from: int)
    requires
        find_from_spec(s, p, from) is Some,
    ensures
        first_occurrence_from(s, p, from, find_from_spec(s, p, from)->0),
        find_from_spec(s, p, from)->0 <= s.len(),
{
}

/// The amount written with `만` and `천`; see `chon_value`.
pub fn find_chon(text: &Vec<char>) -> (r: Option<i64>)
    requires
        chon_total(text@) <= i64::MAX,
    ensures
        opt_int(r) == chon_value(text@),
{
    let t = compact_chars(text);
    let man = unit_number(&t, "만원", "만");
    let chon = unit_number(&t, "천원", "천");
    let mut result: i64 = 0;
    result = result + man * 10000;
    result = result + chon * 1000;
    if result > 0 {
        Some(result)
    } else {
        None
    }
}

/// The number of won written just before the first `원`, where it is
/// positive.
pub open spec fn won_value(t: Seq<char>) -> Option<int> {
    match find_from_spec(t, "원"@, 0) {
        None => None,
        Some(pos) => match parse_i64_spec(digit_run_before(t, pos)) {
            Some(v) => if v > 0 {
                Some(v as int)
            } else {
                None
            },
            None => None,
        },
    }
}

/// An amount written in any of the usual ways, read from the text without
/// commas and spaces: `N만M천원`, then `N만원`, then `N원`.
pub open spec fn amount_any_spec(text: Seq<char>) -> Option<int> {
    let t = compact(text);
    let both = contains_seq(t, "만"@) && contains_seq(t, "천"@);
    if both && chon_value(t) is Some {
        chon_value(t)
    } else if man_value(t) is Some {
        man_value(t)
    } else {
        won_value(t)
    }
}

/// The amounts `amount_any_spec` computes on its way fit in an `i64`.
pub open spec fn amount_any_fits(text: Seq<char>) -> bool {
    let t = compact(text);
    let both = contains_seq(t, "만"@) && contains_seq(t, "천"@);
    &&& both ==> chon_total(t) <= i64::MAX
    &&& !(both && chon_value(t) is Some) ==> man_fits(t)
}

proof fn lemma_compact_idempotent(t: Seq<char>)
    ensures
        compact(compact(t)) == compact(t),
{
    let inner = t.filter(without_char(','));
    let c = inner.filter(without_char(' '));
    assert forall|i: int| 0 <= i < c.len() implies (#[trigger] c[i]) != ',' && c[i] != ' ' by {
        inner.lemma_filter_pred(without_char(' '), i);
        assert(c.contains(c[i]));
        inner.lemma_filter_contains_rev(without_char(' '), c[i]);
        let k = choose|k: int| 0 <= k < inner.len() && inner[k] == c[i];
        t.lemma_filter_pred(without_char(','), k);
    }
    crate::text::lemma_filter_all(c, without_char(','));
    crate::text::lemma_filter_all(c, without_char(' '));
}

/// An amount written in any of the usual ways; see `amount_any_spec`.
pub fn extract_amount_any(text: &Vec<char>) -> (r: Option<i64>)
    requires
        amount_any_fits(text@),
    ensures
        opt_int(r) == amount_any_spec(text@),
{
    let t = compact_chars(text);
    proof {
        lemma_compact_idempotent(t@);
        reveal_strlit("원");
    }
    if contains(&t, &chars_of("만")) && contains(&t, &chars_of("천")) {
        match find_chon(&t) {
            Some(v) => return Some(v),
            None => {},
        }
    }
    match regex_find_man(&t) {
        Some(v) => return Some(v),
        None => {},
    }
    match find_from(&t, &chars_of("원"), 0) {
        Some(pos) => {
            let digits = digits_before(&t, pos);
            match parse_i64(&digits) {
                Some(v) => if v > 0 {
                    Some(v)
                } else {
                    None
                },
                None => None,
            }
        },
        None => None,
    }
}

/// An amount on a line: `N만원`, else all the digits of the line read as
/// one number; commas are dropped first.
pub open spec fn line_amount_spec(line: Seq<char>) -> Option<int> {
    let l = line.filter(without_char(','));
    if man_value(l) is Some {
        man_value(l)
    } else {
        let digits = l.filter(crate::text::is_digit_pred());
        if digits.len() == 0 {
            None
        } else {
            match parse_i64_spec(digits) {
                Some(v) => Some(v as int),
                None => None,
            }
        }
    }
}

pub open spec fn line_amount_fits(line: Seq<char>) -> bool {
    man_fits(line.filter(without_char(',')))
}

/// An amount on a line; see `line_amount_spec`.
pub fn extract_amount_from_line(line: &Vec<char>) -> (r: Option<i64>)
    requires
        line_amount_fits(line@),
    ensures
        opt_int(r) == line_amount_spec(line@),
{
    let l = remove_char(line, ',');
    match regex_find_man(&l) {
        Some(v) => return Some(v),
        None => {},
    }
    let digits = crate::text::keep_digits(&l);
    if digits.len() == 0 {
        return None;
    }
    parse_i64(&digits)
}

/// The line speaks of last month's spending.
pub open spec fn requirement_line(l: Seq<char>) -> bool {
    contains_seq(l, "전월실적"@) || contains_seq(l, "전월 실적"@)
}

/// The first amount of a line from position `i` that speaks of last
/// month's spending.
pub open spec fn requirement_from(lines: Seq<Seq<char>>, i: int) -> Option<int>
    decreases lines.len() - i,
{
    if i < 0 || i >= lines.len() {
        None
    } else if requirement_line(lines[i]) && line_amount_spec(lines[i]) is Some {
        line_amount_spec(lines[i])
    } else {
        requirement_from(lines, i + 1)
    }
}

/// Every line the search reads has amounts that fit.
pub open spec fn requirement_fits(lines: Seq<Seq<char>>, i: int) -> bool
    decreases lines.len() - i,
{
    if i < 0 || i >= lines.len() {
        true
    } else if requirement_line(lines[i]) {
        line_amount_fits(lines[i]) && (line_amount_spec(lines[i]) is Some || requirement_fits(
            lines,
            i + 1,
        ))
    } else {
        requirement_fits(lines, i + 1)
    }
}

/// The spending last month a card asks for, as the benefit text states it:
/// the amount of the first line that speaks of it (see
/// `line_amount_spec`).
pub fn extract_monthly_requirement(text: &str) -> (r: Option<i64>)
    requires
        requirement_fits(lines_seq(text@), 0),
    ensures
        opt_int(r) == requirement_from(lines_seq(text@), 0),
{
    let lines = text_lines(text);
    let ghost ls = lines_seq(text@);
    let mut i: usize = 0;
    while i < lines.len()
        invariant
            i <= lines@.len(),
            char_vecs(lines@) == ls,
            ls == lines_seq(text@),
            requirement_from(ls, 0) == requirement_from(ls, i as int),
            requirement_fits(ls, i as int),
        decreases lines@.len() - i,
    {
        let line = &lines[i];
        assert(line@ == ls[i as int]);
        if contains(line, &chars_of("전월실적")) || contains(line, &chars_of("전월 실적")) {
            match extract_amount_from_line(line) {
                Some(v) => return Some(v),
                None => {},
            }
        }
        i += 1;
    }
    None
}

/// The end of a search window of `width` lines from `from`.
pub open spec fn window_end(len: int, from: int, width: int) -> int {
    if len < from + width {
        len
    } else {
        from + width
    }
}

/// A line that may state how often a month the benefit applies.
pub open spec fn usage_line(l: Seq<char>) -> bool {
    (contains_seq(l, "월"@) && contains_seq(l, "회"@)) || contains_seq(l, "이용조건"@)
}

/// The number written just before the first `회` of a line.
pub open spec fn usage_count(l: Seq<char>) -> Option<int> {
    match find_from_spec(l, "회"@, 0) {
        Some(pos) => match parse_i64_spec(digit_run_before(l, pos)) {
            Some(n) => Some(n as int),
            None => None,
        },
        None => None,
    }
}

/// The first count of uses a month among the trimmed lines from `i` to
/// `end`.
pub open spec fn usage_from(lines: Seq<Seq<char>>, i: int, end: int) -> Option<int>
    decreases end - i,
{
    if i < 0 || i >= end || i >= lines.len() {
        None
    } else {
        let l = trim_seq(lines[i]);
        if usage_line(l) && usage_count(l) is Some {
            usage_count(l)
        } else {
            usage_from(lines, i + 1, end)
        }
    }
}

/// How many times a month a benefit applies, as the 30 lines from `from`
/// state it: the number before `회` on the first line that speaks of a
/// monthly count or of conditions of use.
pub fn find_monthly_usage_limit(lines: &Vec<Vec<char>>, from: usize) -> (r: Option<i64>)
    requires
        from <= lines@.len(),
    ensures
        opt_int(r) == usage_from(char_vecs(lines@), from as int, window_end(lines@.len() as int, from as int, 30)),
{
    let ghost ls = char_vecs(lines@);
    let end: usize = if lines.len() - from < 30 {
        lines.len()
    } else {
        from + 30
    };
    let mut i: usize = from;
    while i < end
        invariant
            from <= i <= end <= lines@.len(),
            end == window_end(lines@.len() as int, from as int, 30),
            ls == char_vecs(lines@),
            usage_from(ls, from as int, end as int) == usage_from(ls, i as int, end as int),
        decreases end - i,
    {
        let l = trim_chars(&lines[i]);
        assert(lines@[i as int]@ == ls[i as int]);
        if (contains(&l, &chars_of("월")) && contains(&l, &chars_of("회"))) || contains(&l, &chars_of("이용조건")) {
            match find_from(&l, &chars_of("회"), 0) {
                Some(pos) => {
                    proof {
                        lemma_found(l@, "회"@, 0);
                    }
                    let digits = digits_before(&l, pos);
                    match parse_i64(&digits) {
                        Some(n) => return Some(n),
                        None => {},
                    }
                },
                None => {},
            }
        }
        i += 1;
    }
    None
}

/// A line that opens the section of discount caps.
pub open spec fn cap_marker(l: Seq<char>) -> bool {
    contains_seq(l, "통합할인한도"@) || contains_seq(l, "통합 할인 한도"@) || contains_seq(l, "할인한도"@)
        || contains_seq(l, "할인 한도"@) || contains_seq(l, "월 할인한도"@)
}

/// What follows the first `:` of a line, else the first full-width `：`.
pub open spec fn colon_rhs(l: Seq<char>) -> Seq<char> {
    match find_from_spec(l, seq![':'], 0) {
        Some(p) => l.skip(p + 1),
        None => match find_from_spec(l, seq!['：'], 0) {
            Some(p) => l.skip(p + 1),
            None => l,
        },
    }
}

/// The larger of two optional amounts.
pub open spec fn opt_max(a: Option<int>, b: Option<int>) -> Option<int> {
    match (a, b) {
        (None, _) => b,
        (_, None) => a,
        (Some(x), Some(y)) => Some(if x < y {
            y
        } else {
            x
        }),
    }
}

/// The text of a line of the cap section that an amount is read from, or
/// `None` where the line says nothing (blank) and `Some(None)` where it ends
/// the section.
pub open spec fn cap_source(l: Seq<char>) -> Option<Option<Seq<char>>> {
    if l.len() == 0 {
        None
    } else if l.contains(':') || l.contains('：') {
        Some(Some(colon_rhs(l)))
    } else if l[0] == '-' || l[0] == '•' || l[0] == '*' || contains_seq(l, "원"@) {
        Some(Some(l))
    } else {
        Some(None)
    }
}

/// The largest cap found from line `i` to `end`: a line opening the section
/// gives the amount it states; inside the section, blank lines are passed
/// over, lines with a colon give the amount after it, and lines that start
/// with a bullet or hold `원` give their amount; any other line ends the
/// search.
pub open spec fn cap_scan(lines: Seq<Seq<char>>, i: int, end: int, in_section: bool) -> Option<int>
    decreases end - i,
{
    if i < 0 || i >= end || i >= lines.len() {
        None
    } else {
        let l = trim_seq(lines[i]);
        if cap_marker(l) {
            opt_max(amount_any_spec(l), cap_scan(lines, i + 1, end, true))
        } else if !in_section {
            cap_scan(lines, i + 1, end, false)
        } else {
            match cap_source(l) {
                None => cap_scan(lines, i + 1, end, true),
                Some(None) => None,
                Some(Some(t)) => opt_max(amount_any_spec(t), cap_scan(lines, i + 1, end, true)),
            }
        }
    }
}

/// Every amount `cap_scan` reads fits in an `i64`.
pub open spec fn cap_fits(lines: Seq<Seq<char>>, i: int, end: int, in_section: bool) -> bool
    decreases end - i,
{
    if i < 0 || i >= end || i >= lines.len() {
        true
    } else {
        let l = trim_seq(lines[i]);
        if cap_marker(l) {
            amount_any_fits(l) && cap_fits(lines, i + 1, end, true)
        } else if !in_section {
            cap_fits(lines, i + 1, end, false)
        } else {
            match cap_source(l) {
                None => cap_fits(lines, i + 1, end, true),
                Some(None) => true,
                Some(Some(t)) => amount_any_fits(t) && cap_fits(lines, i + 1, end, true),
            }
        }
    }
}

fn colon_rhs_chars(l: &Vec<char>) -> (r: Vec<char>)
    ensures
        r@ == colon_rhs(l@),
{
    let mut colon: Vec<char> = Vec::new();
    colon.push(':');
    let mut wide: Vec<char> = Vec::new();
    wide.push('：');
    assert(colon@ =~= seq![':']);
    assert(wide@ =~= seq!['：']);
    match find_from(l, &colon, 0) {
        Some(p) => {
            assert(occurs_at(l@, colon@, p as int));
            assert(p < l.len());
            sub_chars(l, p + 1, l.len())
        },
        None => match find_from(l, &wide, 0) {
            Some(p) => {
                assert(occurs_at(l@, wide@, p as int));
                assert(p < l.len());
                sub_chars(l, p + 1, l.len())
            },
            None => sub_chars(l, 0, l.len()),
        },
    }
}

proof fn lemma_opt_max_assoc(a: Option<int>, b: Option<int>, c: Option<int>)
    ensures
        opt_max(a, opt_max(b, c)) == opt_max(opt_max(a, b), c),
{
}

fn max_opt(a: Option<i64>, b: Option<i64>) -> (r: Option<i64>)
    ensures
        opt_int(r) == opt_max(opt_int(a), opt_int(b)),
{
    match (a, b) {
        (None, _) => b,
        (_, None) => a,
        (Some(x), Some(y)) => Some(if x < y {
            y
        } else {
            x
        }),
    }
}

/// The monthly cap of the benefits, as the 60 lines from `from` state it;
/// see `cap_scan`.
pub fn find_integrated_monthly_cap(lines: &Vec<Vec<char>>, from: usize) -> (r: Option<i64>)
    requires
        from <= lines@.len(),
        cap_fits(char_vecs(lines@), from as int, window_end(lines@.len() as int, from as int, 60), false),
    ensures
        opt_int(r) == cap_scan(char_vecs(lines@), from as int, window_end(lines@.len() as int, from as int, 60), false),
{
    let ghost ls = char_vecs(lines@);
    let end: usize = if lines.len() - from < 60 {
        lines.len()
    } else {
        from + 60
    };
    let ghost total = cap_scan(ls, from as int, end as int, false);
    let mut best: Option<i64> = None;
    let mut in_section = false;
    let mut i: usize = from;
    while i < end
        invariant_except_break
            from <= i <= end <= lines@.len(),
            ls == char_vecs(lines@),
            opt_max(opt_int(best), cap_scan(ls, i as int, end as int, in_section)) == total,
            cap_fits(ls, i as int, end as int, in_section),
        ensures
            opt_int(best) == total,
        decreases end - i,
    {
        let l = trim_chars(&lines[i]);
        assert(lines@[i as int]@ == ls[i as int]);
        let ghost lv = l@;
        let ghost rest_true = cap_scan(ls, i + 1, end as int, true);
        let ghost old_best = opt_int(best);
        let marker = contains(&l, &chars_of("통합할인한도")) || contains(&l, &chars_of("통합 할인 한도"))
            || contains(&l, &chars_of("할인한도")) || contains(&l, &chars_of("할인 한도"))
            || contains(&l, &chars_of("월 할인한도"));
        if marker {
            in_section = true;
            let a = extract_amount_any(&l);
            best = max_opt(best, a);
            proof {
                lemma_opt_max_assoc(old_best, amount_any_spec(lv), rest_true);
            }
        } else if in_section {
            if l.len() == 0 {
            } else if crate::text::contains_char(&l, ':') || crate::text::contains_char(&l, '：') {
                let rhs = colon_rhs_chars(&l);
                let a = extract_amount_any(&rhs);
                best = max_opt(best, a);
                proof {
                    lemma_opt_max_assoc(old_best, amount_any_spec(colon_rhs(lv)), rest_true);
                }
            } else if l[0] == '-' || l[0] == '•' || l[0] == '*' || contains(&l, &chars_of("원")) {
                let a = extract_amount_any(&l);
                best = max_opt(best, a);
                proof {
                    lemma_opt_max_assoc(old_best, amount_any_spec(lv), rest_true);
                }
            } else {
                assert(cap_scan(ls, i as int, end as int, true) == None::<int>);
                break;
            }
        }
        i += 1;
    }
    best
}

/// The text without its leading `c` characters.
pub open spec fn drop_leading(s: Seq<char>, c: char) -> Seq<char>
    decreases s.len(),
{
    if s.len() > 0 && s[0] == c {
        drop_leading(s.skip(1), c)
    } else {
        s
    }
}

/// The text up to its first `(`.
pub open spec fn before_paren(s: Seq<char>) -> Seq<char> {
    match find_from_spec(s, seq!['('], 0) {
        Some(p) => s.take(p),
        None => s,
    }
}

/// The merchants of comma-separated pieces: each trimmed, kept when it is
/// not empty and takes at most 20 bytes in UTF-8.
pub open spec fn keep_merchants(parts: Seq<Seq<char>>) -> Seq<Seq<char>>
    decreases parts.len(),
{
    if parts.len() == 0 {
        Seq::<Seq<char>>::empty()
    } else {
        let rest = keep_merchants(parts.drop_last());
        let m = trim_seq(parts.last());
        if m.len() > 0 && vstd::utf8::encode_utf8(m).len() <= 20 {
            rest.push(m)
        } else {
            rest
        }
    }
}

/// The merchants listed after a benefit's line, from line `i` to `end`: the
/// first line that holds more than dashes, up to its first `(`, split at
/// commas; a blank line ends the search.
pub open spec fn merchants_from(lines: Seq<Seq<char>>, i: int, end: int) -> Seq<Seq<char>>
    decreases end - i,
{
    if i < 0 || i >= end || i >= lines.len() {
        Seq::<Seq<char>>::empty()
    } else {
        let l = trim_seq(lines[i]);
        if l.len() == 0 {
            Seq::<Seq<char>>::empty()
        } else {
            let content = trim_seq(drop_leading(l, '-'));
            if content.len() == 0 {
                merchants_from(lines, i + 1, end)
            } else {
                keep_merchants(split_char_seq(before_paren(content), ','))
            }
        }
    }
}

fn drop_leading_chars(s: &Vec<char>, c: char) -> (r: Vec<char>)
    ensures
        r@ == drop_leading(s@, c),
{
    let mut k: usize = 0;
    assert(s@.skip(0) =~= s@);
    while k < s.len() && s[k] == c
        invariant
            k <= s.len(),
            drop_leading(s@, c) == drop_leading(s@.skip(k as int), c),
        decreases s.len() - k,
    {
        assert(s@.skip(k as int).skip(1) =~= s@.skip(k + 1));
        k += 1;
    }
    let r = sub_chars(s, k, s.len());
    assert(r@ =~= s@.skip(k as int));
    r
}

fn merchants_of(parts: &Vec<Vec<char>>) -> (r: Vec<String>)
    ensures
        crate::text::strings_view(r@) == keep_merchants(char_vecs(parts@)),
{
    let ghost ps = char_vecs(parts@);
    let mut r: Vec<String> = Vec::new();
    let mut k: usize = 0;
    assert(ps.take(0) =~= Seq::<Seq<char>>::empty());
    while k < parts.len()
        invariant
            k <= parts@.len(),
            ps == char_vecs(parts@),
            crate::text::strings_view(r@) == keep_merchants(ps.take(k as int)),
        decreases parts@.len() - k,
    {
        let ghost before = r@;
        assert(ps.take(k + 1).drop_last() =~= ps.take(k as int));
        assert(parts@[k as int]@ == ps[k as int]);
        let m = string_of(&trim_chars(&parts[k]));
        assert(m@ == trim_seq(ps[k as int]));
        assert(ps.take(k + 1).last() == ps[k as int]);
        let bytes = m.as_str().as_bytes();
        let blen = bytes.len();
        assert(blen == vstd::utf8::encode_utf8(m@).len());
        if m.as_str().unicode_len() > 0 && blen <= 20 {
            r.push(m);
            assert(crate::text::strings_view(r@) =~= crate::text::strings_view(before).push(m@));
        }
        k += 1;
    }
    assert(ps.take(parts@.len() as int) =~= ps);
    r
}

/// The merchants listed after a benefit's line; see `merchants_from`. At
/// most the three lines from `start` are read.
pub fn collect_merchants_after(lines: &Vec<Vec<char>>, start: usize) -> (r: Vec<String>)
    requires
        start <= usize::MAX - 3,
    ensures
        crate::text::strings_view(r@) == merchants_from(
            char_vecs(lines@),
            start as int,
            window_end(lines@.len() as int, start as int, 3),
        ),
{
    let ghost ls = char_vecs(lines@);
    let end: usize = if lines.len() < start + 3 {
        lines.len()
    } else {
        start + 3
    };
    let ghost total = merchants_from(ls, start as int, end as int);
    let mut i: usize = start;
    while i < end
        invariant
            start <= i,
            end <= lines@.len(),
            end == window_end(lines@.len() as int, start as int, 3),
            ls == char_vecs(lines@),
            total == merchants_from(ls, start as int, end as int),
            merchants_from(ls, i as int, end as int) == total,
        decreases end - i,
    {
        let l = trim_chars(&lines[i]);
        assert(lines@[i as int]@ == ls[i as int]);
        if l.len() == 0 {
            assert(total =~= Seq::<Seq<char>>::empty());
            return Vec::new();
        }
        let content = trim_chars(&drop_leading_chars(&l, '-'));
        if content.len() > 0 {
            let mut paren: Vec<char> = Vec::new();
            paren.push('(');
            assert(paren@ =~= seq!['(']);
            let cut = match find_from(&content, &paren, 0) {
                Some(p) => sub_chars(&content, 0, p),
                None => sub_chars(&content, 0, content.len()),
            };
            assert(cut@ =~= before_paren(content@));
            let parts = split_char(&cut, ',');
            return merchants_of(&parts);
        }
        i += 1;
    }
    assert(total =~= Seq::<Seq<char>>::empty());
    Vec::new()
}

/// The text without its trailing characters that `pred` accepts.
pub open spec fn trim_end_by(s: Seq<char>, pred: spec_fn(char) -> bool) -> Seq<char>
    decreases s.len(),
{
    if s.len() > 0 && pred(s.last()) {
        trim_end_by(s.drop_last(), pred)
    } else {
        s
    }
}

/// The text without the repeats of `p` at its end.
pub open spec fn strip_suffixes(s: Seq<char>, p: Seq<char>) -> Seq<char>
    decreases s.len(),
{
    if p.len() > 0 && s.len() >= p.len() && s.subrange(s.len() - p.len(), s.len() as int) == p {
        strip_suffixes(s.subrange(0, s.len() - p.len()), p)
    } else {
        s
    }
}

pub open spec fn rate_tail() -> spec_fn(char) -> bool {
    |c: char| is_digit(c) || c == '.' || c == '/' || c == ' '
}

pub open spec fn is_open_paren() -> spec_fn(char) -> bool {
    |c: char| c == '('
}

/// The name of a benefit group: the text before the line's first `%`,
/// without the rate, an open parenthesis and the trailing phrases `이용 시`,
/// `에서 결제 시`, `에서` and ` 및`, trimmed; the whole line trimmed where it
/// has no `%`.
pub open spec fn group_name_spec(line: Seq<char>) -> Seq<char> {
    match find_from_spec(line, seq!['%'], 0) {
        Some(pos) => {
            let t1 = trim_seq(trim_end_by(line.take(pos), rate_tail()));
            let t2 = trim_seq(trim_end_by(t1, is_open_paren()));
            trim_seq(
                strip_suffixes(
                    strip_suffixes(
                        strip_suffixes(strip_suffixes(t2, "이용 시"@), "에서 결제 시"@),
                        "에서"@,
                    ),
                    " 및"@,
                ),
            )
        },
        None => trim_seq(line),
    }
}

fn trims_end(c: char, paren: bool) -> (b: bool)
    ensures
        b == (if paren {
            is_open_paren()
        } else {
            rate_tail()
        })(c),
{
    if paren {
        c == '('
    } else {
        crate::text::is_ascii_digit(c) || c == '.' || c == '/' || c == ' '
    }
}

fn trim_end_rate(s: &Vec<char>, paren: bool) -> (r: Vec<char>)
    ensures
        r@ == trim_end_by(s@, if paren {
            is_open_paren()
        } else {
            rate_tail()
        }),
{
    let ghost pred = if paren {
        is_open_paren()
    } else {
        rate_tail()
    };
    let mut n: usize = s.len();
    assert(s@.subrange(0, n as int) =~= s@);
    while n > 0 && trims_end(s[n - 1], paren)
        invariant
            n <= s.len(),
            pred == (if paren {
                is_open_paren()
            } else {
                rate_tail()
            }),
            trim_end_by(s@, pred) == trim_end_by(s@.subrange(0, n as int), pred),
        decreases n,
    {
        assert(s@.subrange(0, n as int).drop_last() =~= s@.subrange(0, n - 1));
        n -= 1;
    }
    sub_chars(s, 0, n)
}

fn strip_suffix_repeats(s: &Vec<char>, p: &str) -> (r: Vec<char>)
    ensures
        r@ == strip_suffixes(s@, p@),
{
    let pv = chars_of(p);
    let mut n: usize = s.len();
    assert(s@.subrange(0, n as int) =~= s@);
    loop
        invariant_except_break
            n <= s.len(),
            pv@ == p@,
            strip_suffixes(s@, p@) == strip_suffixes(s@.subrange(0, n as int), p@),
        ensures
            n <= s.len(),
            strip_suffixes(s@, p@) == s@.subrange(0, n as int),
        decreases n,
    {
        let cur = sub_chars(s, 0, n);
        if pv.len() > 0 && crate::text::ends_with(&cur, &pv) {
            proof {
                let c = s@.subrange(0, n as int);
                assert(c.subrange(c.len() - p@.len(), c.len() as int) =~= c.subrange(
                    n - p@.len(),
                    n as int,
                ));
                assert(c.subrange(0, c.len() - p@.len()) =~= s@.subrange(0, n - p@.len()));
            }
            n = n - pv.len();
        } else {
            break;
        }
    }
    sub_chars(s, 0, n)
}

/// The name of a benefit group; see `group_name_spec`.
pub fn extract_group_name(line: &str) -> (r: String)
    ensures
        r@ == group_name_spec(line@),
{
    let v = chars_of(line);
    let mut pct: Vec<char> = Vec::new();
    pct.push('%');
    assert(pct@ =~= seq!['%']);
    match find_from(&v, &pct, 0) {
        Some(pos) => {
            let before = sub_chars(&v, 0, pos);
            assert(before@ =~= line@.take(pos as int));
            let t1 = trim_chars(&trim_end_rate(&before, false));
            let t2 = trim_chars(&trim_end_rate(&t1, true));
            let t3 = strip_suffix_repeats(&t2, "이용 시");
            let t4 = strip_suffix_repeats(&t3, "에서 결제 시");
            let t5 = strip_suffix_repeats(&t4, "에서");
            let t6 = strip_suffix_repeats(&t5, " 및");
            string_of(&trim_chars(&t6))
        },
        None => string_of(&trim_chars(&v)),
    }
}

// ───────────────────────── where the amounts fit ─────────────────────────

/// Whether `man_value` fits in an `i64`.
pub fn man_fits_check(t: &Vec<char>) -> (b: bool)
    ensures
        b == man_fits(t@),
{
    let pos = match find_from(t, &chars_of("만원"), 0) {
        Some(p) => p,
        None => return true,
    };
    proof {
        reveal_strlit("만원");
    }
    let digits = digits_before(t, pos);
    match parse_i64(&digits) {
        Some(n) => n <= i64::MAX / 10000,
        None => true,
    }
}

/// Whether `chon_total` fits in an `i64`.
pub fn chon_fits_check(text: &Vec<char>) -> (b: bool)
    ensures
        b == (chon_total(text@) <= i64::MAX),
{
    let t = compact_chars(text);
    let man = unit_number(&t, "만원", "만");
    let chon = unit_number(&t, "천원", "천");
    let total: i128 = (man as i128) * 10000 + (chon as i128) * 1000;
    total <= i64::MAX as i128
}

/// Whether `amount_any_fits` holds.
pub fn amount_any_fits_check(text: &Vec<char>) -> (b: bool)
    ensures
        b == amount_any_fits(text@),
{
    let t = compact_chars(text);
    proof {
        lemma_compact_idempotent(t@);
    }
    let both = contains(&t, &chars_of("만")) && contains(&t, &chars_of("천"));
    if both {
        if !chon_fits_check(&t) {
            return false;
        }
        if find_chon(&t).is_some() {
            return true;
        }
    }
    man_fits_check(&t)
}

/// Whether `requirement_fits` holds of the lines of `text`.
pub fn requirement_fits_check(text: &str) -> (b: bool)
    ensures
        b == requirement_fits(lines_seq(text@), 0),
{
    let lines = text_lines(text);
    let ghost ls = lines_seq(text@);
    let mut i: usize = 0;
    while i < lines.len()
        invariant
            i <= lines@.len(),
            char_vecs(lines@) == ls,
            ls == lines_seq(text@),
            requirement_fits(ls, 0) == requirement_fits(ls, i as int),
        decreases lines@.len() - i,
    {
        let line = &lines[i];
        assert(line@ == ls[i as int]);
        if contains(line, &chars_of("전월실적")) || contains(line, &chars_of("전월 실적")) {
            let l = remove_char(line, ',');
            if !man_fits_check(&l) {
                return false;
            }
            if extract_amount_from_line(line).is_some() {
                return true;
            }
        }
        i += 1;
    }
    true
}

/// Whether `cap_fits` holds of the 60 lines from `from`.
pub fn cap_fits_check(lines: &Vec<Vec<char>>, from: usize) -> (b: bool)
    requires
        from <= lines@.len(),
    ensures
        b == cap_fits(char_vecs(lines@), from as int, window_end(lines@.len() as int, from as int, 60), false),
{
    let ghost ls = char_vecs(lines@);
    let end: usize = if lines.len() - from < 60 {
        lines.len()
    } else {
        from + 60
    };
    let mut in_section = false;
    let mut i: usize = from;
    while i < end
        invariant
            from <= i <= end <= lines@.len(),
            end == window_end(lines@.len() as int, from as int, 60),
            ls == char_vecs(lines@),
            cap_fits(ls, from as int, end as int, false) == cap_fits(ls, i as int, end as int, in_section),
        decreases end - i,
    {
        let l = trim_chars(&lines[i]);
        assert(lines@[i as int]@ == ls[i as int]);
        let marker = contains(&l, &chars_of("통합할인한도")) || contains(&l, &chars_of("통합 할인 한도"))
            || contains(&l, &chars_of("할인한도")) || contains(&l, &chars_of("할인 한도"))
            || contains(&l, &chars_of("월 할인한도"));
        if marker {
            in_section = true;
            if !amount_any_fits_check(&l) {
                return false;
            }
        } else if in_section {
            if l.len() == 0 {
            } else if crate::text::contains_char(&l, ':') || crate::text::contains_char(&l, '：') {
                if !amount_any_fits_check(&colon_rhs_chars(&l)) {
                    return false;
                }
            } else if l[0] == '-' || l[0] == '•' || l[0] == '*' || contains(&l, &chars_of("원")) {
                if !amount_any_fits_check(&l) {
                    return false;
                }
            } else {
                return true;
            }
        }
        i += 1;
    }
    true
}

} // verus!
