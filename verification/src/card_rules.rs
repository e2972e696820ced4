//! Monthly card spending against a card's preset: which spending counts
//! toward the monthly requirement, and how much of each benefit was used.
use vstd::prelude::*;

use crate::text::{chars_of, contains, contains_seq, str_eq};

verus! {

/// A transaction as the rules see it.
#[derive(Debug, Clone)]
pub struct RuleTransaction {
    pub amount: i64,
    pub merchant_name: Option<String>,
    pub category_name: Option<String>,
}

/// How much of one benefit was used in the month, and its cap.
#[derive(Debug, Clone)]
pub struct BenefitRule {
    pub name: String,
    pub used_amount: i64,
    pub cap: i64,
}

/// Spending that does not count toward the monthly requirement: a merchant
/// name containing a word, or a category.
#[derive(Debug, Clone)]
pub struct ExcludedRule {
    pub merchant_contains: Option<String>,
    pub category: Option<String>,
}

/// Which transactions a benefit applies to.
#[derive(Debug, Clone)]
pub struct BenefitMatch {
    pub merchant_keywords: Option<Vec<String>>,
    pub category: Option<String>,
}

/// A discount: `percent` of the amount, or a `fixed` amount per transaction.
#[derive(Debug, Clone)]
pub struct DiscountRule {
    pub kind: String,
    pub value: i64,
    pub monthly_cap: Option<i64>,
}

#[derive(Debug, Clone)]
pub struct BenefitConfig {
    pub name: String,
    pub matcher: Option<BenefitMatch>,
    pub discount: DiscountRule,
}

/// A card preset: the monthly requirement, the exclusions and the benefits.
#[derive(Debug, Clone)]
pub struct PresetConfig {
    pub monthly_requirement: Option<i64>,
    pub excluded: Option<Vec<ExcludedRule>>,
    pub benefits: Option<Vec<BenefitConfig>>,
}

/// The month's totals for one card.
#[derive(Debug, Clone)]
pub struct CardBenefitTotals {
    pub monthly_spending: i64,
    pub eligible_spending: i64,
    pub monthly_requirement: i64,
    pub benefits: Vec<BenefitRule>,
}

pub open spec fn pos(a: i64) -> int {
    if a > 0 {
        a as int
    } else {
        0
    }
}

/// The sum of the positive amounts.
pub open spec fn spending(txs: Seq<RuleTransaction>) -> int
    decreases txs.len(),
{
    if txs.len() == 0 {
        0
    } else {
        spending(txs.drop_last()) + pos(txs.last().amount)
    }
}

pub open spec fn rule_excludes(rule: ExcludedRule, tx: RuleTransaction) -> bool {
    ||| (rule.merchant_contains matches Some(k) && tx.merchant_name matches Some(m) && contains_seq(
        m@,
        k@,
    ))
    ||| (rule.category matches Some(c) && tx.category_name matches Some(tc) && tc@ == c@)
}

/// Some exclusion rule applies to the transaction.
pub open spec fn is_excluded_spec(tx: RuleTransaction, rules: Seq<ExcludedRule>) -> bool {
    exists|i: int| 0 <= i < rules.len() && rule_excludes(#[trigger] rules[i], tx)
}

/// The transactions that no exclusion rule applies to, in order.
pub open spec fn eligible(txs: Seq<RuleTransaction>, rules: Seq<ExcludedRule>) -> Seq<RuleTransaction>
    decreases txs.len(),
{
    if txs.len() == 0 {
        Seq::empty()
    } else {
        let rest = eligible(txs.drop_last(), rules);
        if is_excluded_spec(txs.last(), rules) {
            rest
        } else {
            rest.push(txs.last())
        }
    }
}

/// The benefit applies to the transaction: no matcher, or the merchant
/// contains one of the keywords (when keywords are given) and the category
/// is the one named (when one is given).
pub open spec fn benefit_matches_spec(tx: RuleTransaction, matcher: Option<BenefitMatch>) -> bool {
    match matcher {
        None => true,
        Some(m) => {
            let merchant: Seq<char> = match tx.merchant_name {
                Some(s) => s@,
                None => Seq::empty(),
            };
            let merchant_ok = match m.merchant_keywords {
                Some(kws) => exists|i: int|
                    0 <= i < kws.len() && contains_seq(merchant, #[trigger] kws@[i]@),
                None => true,
            };
            let category_ok = match m.category {
                Some(c) => tx.category_name matches Some(tc) && tc@ == c@,
                None => true,
            };
            merchant_ok && category_ok
        },
    }
}

/// Integer division rounding toward zero, as `/` does on `i64`.
pub open spec fn div_trunc(a: int, b: int) -> int {
    if a >= 0 {
        a / b
    } else {
        -((-a) / b)
    }
}

/// The discount a benefit gives on one transaction.
pub open spec fn discount_on(tx: RuleTransaction, d: DiscountRule) -> int {
    if d.kind@ == "percent"@ {
        div_trunc(pos(tx.amount) * d.value, 100)
    } else if d.kind@ == "fixed"@ {
        d.value as int
    } else {
        0
    }
}

/// The total discount of a benefit over the transactions it applies to.
pub open spec fn benefit_used(txs: Seq<RuleTransaction>, b: BenefitConfig) -> int
    decreases txs.len(),
{
    if txs.len() == 0 {
        0
    } else {
        benefit_used(txs.drop_last(), b) + if benefit_matches_spec(txs.last(), b.matcher) {
            discount_on(txs.last(), b.discount)
        } else {
            0
        }
    }
}

/// A benefit whose matcher lists merchant keywords gives no discount on a
/// transaction whose merchant holds none of them (or that has no merchant
/// while no keyword is empty): the benefit does not apply, and adding the
/// transaction leaves the benefit's use as it was.
pub proof fn lemma_other_merchant_earns_nothing(txs: Seq<RuleTransaction>, tx: RuleTransaction, b: BenefitConfig)
    requires
        b.matcher matches Some(m) && m.merchant_keywords matches Some(kws) && forall|k: int|
            0 <= k < kws.len() ==> !contains_seq(
                match tx.merchant_name {
                    Some(s) => s@,
                    None => Seq::<char>::empty(),
                },
                #[trigger] kws@[k]@,
            ),
    ensures
        !benefit_matches_spec(tx, b.matcher),
        benefit_used(txs.push(tx), b) == benefit_used(txs, b),
{
    assert(txs.push(tx).drop_last() =~= txs);
}

/// A transaction that an exclusion rule applies to (its merchant holds the
/// rule's text, or its category is the rule's) does not count toward the
/// requirement: adding it leaves the eligible spending as it was.
pub proof fn lemma_excluded_not_eligible(txs: Seq<RuleTransaction>, tx: RuleTransaction, rules: Seq<ExcludedRule>, r: int)
    requires
        0 <= r < rules.len(),
        (rules[r].merchant_contains matches Some(k) && tx.merchant_name matches Some(m) && contains_seq(m@, k@))
            || (rules[r].category matches Some(c) && tx.category_name matches Some(tc) && tc@ == c@),
    ensures
        eligible(txs.push(tx), rules) == eligible(txs, rules),
        spending(eligible(txs.push(tx), rules)) == spending(eligible(txs, rules)),
{
    assert(rule_excludes(rules[r], tx));
    assert(is_excluded_spec(tx, rules));
    assert(txs.push(tx).drop_last() =~= txs);
}

/// The benefit's matcher names a category, and no transaction is of it.
pub open spec fn category_absent(txs: Seq<RuleTransaction>, b: BenefitConfig) -> bool {
    match b.matcher {
        Some(m) => match m.category {
            Some(c) => forall|j: int|
                0 <= j < txs.len() ==> !((#[trigger] txs[j]).category_name matches Some(tc) && tc@ == c@),
            None => false,
        },
        None => false,
    }
}

/// Every eligible transaction is one of the month's transactions.
pub proof fn lemma_eligible_from(txs: Seq<RuleTransaction>, rules: Seq<ExcludedRule>, i: int)
    requires
        0 <= i < eligible(txs, rules).len(),
    ensures
        exists|j: int| 0 <= j < txs.len() && txs[j] == eligible(txs, rules)[i],
    decreases txs.len(),
{
    let rest = eligible(txs.drop_last(), rules);
    if i < rest.len() {
        lemma_eligible_from(txs.drop_last(), rules, i);
        let j = choose|j: int| 0 <= j < txs.drop_last().len() && txs.drop_last()[j] == rest[i];
        assert(txs[j] == txs.drop_last()[j]);
    } else {
        assert(txs[txs.len() - 1] == eligible(txs, rules)[i]);
    }
}

/// A benefit whose matcher names a category gives no discount on a
/// transaction of another category, or of none: the benefit does not apply
/// to it, and adding it leaves the benefit's use as it was.
pub proof fn lemma_other_category_earns_nothing(txs: Seq<RuleTransaction>, tx: RuleTransaction, b: BenefitConfig)
    requires
        b.matcher matches Some(m) && m.category matches Some(c) && !(tx.category_name matches Some(tc)
            && tc@ == c@),
    ensures
        !benefit_matches_spec(tx, b.matcher),
        benefit_used(txs.push(tx), b) == benefit_used(txs, b),
{
    assert(txs.push(tx).drop_last() =~= txs);
}

/// A benefit whose matcher names a category is not used at all by
/// transactions none of which is of that category.
pub proof fn lemma_no_category_no_use(txs: Seq<RuleTransaction>, b: BenefitConfig)
    requires
        b.matcher matches Some(m) && m.category matches Some(c) && forall|i: int|
            0 <= i < txs.len() ==> !((#[trigger] txs[i]).category_name matches Some(tc) && tc@ == c@),
    ensures
        benefit_used(txs, b) == 0,
    decreases txs.len(),
{
    if txs.len() > 0 {
        let rest = txs.drop_last();
        let m = b.matcher->0;
        let c = m.category->0;
        assert forall|i: int| 0 <= i < rest.len() implies !((#[trigger] rest[i]).category_name matches Some(tc)
            && tc@ == c@) by {
            assert(rest[i] == txs[i]);
        }
        lemma_no_category_no_use(rest, b);
        assert(!(txs[txs.len() - 1].category_name matches Some(tc) && tc@ == c@));
        lemma_other_category_earns_nothing(rest, txs.last(), b);
        assert(rest.push(txs.last()) =~= txs);
    }
}

pub open spec fn fits_i64(v: int) -> bool {
    i64::MIN <= v <= i64::MAX
}

/// Every partial sum of a benefit's discounts, and every single discount,
/// fits in an `i64`.
pub open spec fn benefit_fits(txs: Seq<RuleTransaction>, b: BenefitConfig) -> bool {
    &&& forall|k: int| 0 <= k <= txs.len() ==> fits_i64(#[trigger] benefit_used(txs.take(k), b))
    &&& forall|k: int|
        0 <= k < txs.len() ==> fits_i64(pos(#[trigger] txs[k].amount) * b.discount.value)
}

pub open spec fn opt_vec_seq<T>(o: Option<Vec<T>>) -> Seq<T> {
    match o {
        Some(v) => v@,
        None => Seq::empty(),
    }
}

/// The cap of a benefit: its monthly cap, else no cap.
pub open spec fn benefit_cap(b: BenefitConfig) -> i64 {
    match b.discount.monthly_cap {
        Some(c) => c,
        None => i64::MAX,
    }
}

pub proof fn lemma_spending_nonneg_mono(txs: Seq<RuleTransaction>, k: int)
    requires
        0 <= k <= txs.len(),
    ensures
        0 <= spending(txs.take(k)) <= spending(txs),
    decreases txs.len() - k,
{
    if k < txs.len() {
        lemma_spending_nonneg_mono(txs, k + 1);
        assert(txs.take(k + 1).drop_last() =~= txs.take(k));
        lemma_spending_nonneg(txs.take(k));
    } else {
        assert(txs.take(k) =~= txs);
        lemma_spending_nonneg(txs);
    }
}

pub proof fn lemma_spending_nonneg(txs: Seq<RuleTransaction>)
    ensures
        spending(txs) >= 0,
    decreases txs.len(),
{
    if txs.len() > 0 {
        lemma_spending_nonneg(txs.drop_last());
    }
}

/// Leaving transactions out never raises the spending.
pub proof fn lemma_eligible_spending_le(txs: Seq<RuleTransaction>, rules: Seq<ExcludedRule>)
    ensures
        spending(eligible(txs, rules)) <= spending(txs),
        eligible(txs, rules).len() <= txs.len(),
    decreases txs.len(),
{
    if txs.len() > 0 {
        lemma_eligible_spending_le(txs.drop_last(), rules);
        let rest = eligible(txs.drop_last(), rules);
        if !is_excluded_spec(txs.last(), rules) {
            assert(rest.push(txs.last()).drop_last() =~= rest);
        }
    }
}

/// With no exclusion rules every transaction is eligible.
pub proof fn lemma_eligible_no_rules(txs: Seq<RuleTransaction>)
    ensures
        eligible(txs, Seq::empty()) == txs,
    decreases txs.len(),
{
    if txs.len() > 0 {
        lemma_eligible_no_rules(txs.drop_last());
        assert(txs.drop_last().push(txs.last()) =~= txs);
    }
}

fn opt_str_contains(haystack: &Option<String>, needle: &Option<String>) -> (b: bool)
    ensures
        b == (needle matches Some(k) && haystack matches Some(m) && contains_seq(m@, k@)),
{
    match (needle, haystack) {
        (Some(k), Some(m)) => contains(&chars_of(m.as_str()), &chars_of(k.as_str())),
        _ => false,
    }
}

fn opt_str_equal(a: &Option<String>, b: &Option<String>) -> (r: bool)
    ensures
        r == (a matches Some(x) && b matches Some(y) && x@ == y@),
{
    match (a, b) {
        (Some(x), Some(y)) => str_eq(x.as_str(), y.as_str()),
        _ => false,
    }
}

/// Some exclusion rule applies to the transaction.
pub fn is_excluded(tx: &RuleTransaction, excluded_rules: &Vec<ExcludedRule>) -> (b: bool)
    ensures
        b == is_excluded_spec(*tx, excluded_rules@),
{
    let mut i: usize = 0;
    while i < excluded_rules.len()
        invariant
            i <= excluded_rules@.len(),
            forall|j: int| 0 <= j < i ==> !rule_excludes(#[trigger] excluded_rules@[j], *tx),
        decreases excluded_rules.len() - i,
    {
        let rule = &excluded_rules[i];
        let merchant_hit = opt_str_contains(&tx.merchant_name, &rule.merchant_contains);
        let category_hit = opt_str_equal(&rule.category, &tx.category_name);
        if merchant_hit || category_hit {
            assert(rule_excludes(excluded_rules@[i as int], *tx));
            return true;
        }
        i += 1;
    }
    false
}

/// The benefit applies to the transaction.
pub fn benefit_matches(tx: &RuleTransaction, matcher: Option<&BenefitMatch>) -> (b: bool)
    ensures
        b == benefit_matches_spec(
            *tx,
            match matcher {
                Some(m) => Some(*m),
                None => None,
            },
        ),
{
    let m = match matcher {
        None => return true,
        Some(m) => m,
    };
    let merchant: Vec<char> = match &tx.merchant_name {
        Some(s) => chars_of(s.as_str()),
        None => Vec::new(),
    };
    let merchant_ok = match &m.merchant_keywords {
        Some(kws) => {
            let mut found = false;
            let mut i: usize = 0;
            while i < kws.len()
                invariant
                    i <= kws@.len(),
                    found <==> exists|j: int| 0 <= j < i && contains_seq(merchant@, #[trigger] kws@[j]@),
                decreases kws.len() - i,
            {
                if !found && contains(&merchant, &chars_of(kws[i].as_str())) {
                    found = true;
                }
                i += 1;
            }
            found
        },
        None => true,
    };
    let category_ok = match &m.category {
        Some(c) => match &tx.category_name {
            Some(tc) => str_eq(tc.as_str(), c.as_str()),
            None => false,
        },
        None => true,
    };
    merchant_ok && category_ok
}

/// The discount a benefit gives on one transaction.
fn discount_amount(tx: &RuleTransaction, d: &DiscountRule) -> (r: i64)
    requires
        fits_i64(pos(tx.amount) * d.value),
    ensures
        r == discount_on(*tx, *d),
{
    if str_eq(d.kind.as_str(), "percent") {
        let base: i64 = if tx.amount > 0 {
            tx.amount
        } else {
            0
        };
        let prod: i128 = base as i128 * d.value as i128;
        let q: i128 = if prod >= 0 {
            prod / 100
        } else {
            -((-prod) / 100)
        };
        q as i64
    } else if str_eq(d.kind.as_str(), "fixed") {
        d.value
    } else {
        0
    }
}

/// The total discount of a benefit over the transactions it applies to.
pub fn calculate_benefit_used(transactions: &Vec<RuleTransaction>, benefit: &BenefitConfig) -> (r: i64)
    requires
        benefit_fits(transactions@, *benefit),
    ensures
        r == benefit_used(transactions@, *benefit),
{
    let mut total: i64 = 0;
    let mut i: usize = 0;
    assert(transactions@.take(0) =~= Seq::<RuleTransaction>::empty());
    while i < transactions.len()
        invariant
            i <= transactions@.len(),
            benefit_fits(transactions@, *benefit),
            total == benefit_used(transactions@.take(i as int), *benefit),
        decreases transactions.len() - i,
    {
        let tx = &transactions[i];
        proof {
            assert(transactions@.take(i + 1).drop_last() =~= transactions@.take(i as int));
            assert(fits_i64(benefit_used(transactions@.take(i + 1), *benefit)));
            assert(fits_i64(pos(transactions@[i as int].amount) * benefit.discount.value));
        }
        let m = match &benefit.matcher {
            Some(m) => Some(m),
            None => None,
        };
        if benefit_matches(tx, m) {
            let d = discount_amount(tx, &benefit.discount);
            total = total + d;
        }
        i += 1;
    }
    assert(transactions@.take(transactions@.len() as int) =~= transactions@);
    total
}

/// Whether `benefit_fits` holds of the transactions and benefit: every
/// partial use and every single discount product fits in an `i64`.
pub fn benefit_fits_check(transactions: &Vec<RuleTransaction>, benefit: &BenefitConfig) -> (ok: bool)
    ensures
        ok == benefit_fits(transactions@, *benefit),
{
    let mut total: i64 = 0;
    let mut i: usize = 0;
    assert(transactions@.take(0) =~= Seq::<RuleTransaction>::empty());
    while i < transactions.len()
        invariant
            i <= transactions@.len(),
            total == benefit_used(transactions@.take(i as int), *benefit),
            forall|k: int| 0 <= k <= i ==> fits_i64(#[trigger] benefit_used(transactions@.take(k), *benefit)),
            forall|k: int| 0 <= k < i ==> fits_i64(pos(#[trigger] transactions@[k].amount) * benefit.discount.value),
        decreases transactions.len() - i,
    {
        let tx = &transactions[i];
        let base: i64 = if tx.amount > 0 {
            tx.amount
        } else {
            0
        };
        let v: i64 = benefit.discount.value;
        assert(base as int == pos(transactions@[i as int].amount));
        assert(-0x4000_0000_0000_0000_0000_0000_0000_0000 <= (base as int) * (v as int)
            <= 0x4000_0000_0000_0000_0000_0000_0000_0000) by (nonlinear_arith)
            requires
                0 <= base <= 0x8000_0000_0000_0000,
                -0x8000_0000_0000_0000 <= v <= 0x8000_0000_0000_0000,
        ;
        let prod: i128 = base as i128 * v as i128;
        if prod < i64::MIN as i128 || prod > i64::MAX as i128 {
            assert(!fits_i64(pos(transactions@[i as int].amount) * benefit.discount.value));
            return false;
        }
        proof {
            assert(transactions@.take(i + 1).drop_last() =~= transactions@.take(i as int));
            assert(transactions@.take(i + 1).last() == transactions@[i as int]);
        }
        let m = match &benefit.matcher {
            Some(m) => Some(m),
            None => None,
        };
        if benefit_matches(tx, m) {
            let d = discount_amount(tx, &benefit.discount);
            let next: i128 = total as i128 + d as i128;
            if next < i64::MIN as i128 || next > i64::MAX as i128 {
                assert(!fits_i64(benefit_used(transactions@.take(i + 1), *benefit)));
                return false;
            }
            total = next as i64;
        }
        proof {
            assert forall|k: int| 0 <= k <= i + 1 implies fits_i64(#[trigger] benefit_used(transactions@.take(k), *benefit)) by {
                if k == i + 1 {
                }
            }
        }
        i += 1;
    }
    assert(transactions@.take(transactions@.len() as int) =~= transactions@);
    true
}

/// Whether `totals_fit` holds, which `calculate_summary` needs: the month's
/// spending fits in an `i64`, and `benefit_fits` holds of the eligible
/// transactions for each benefit.
pub fn totals_fit_check(transactions: &Vec<RuleTransaction>, config: &PresetConfig) -> (ok: bool)
    ensures
        ok == totals_fit(transactions@, *config),
{
    let mut monthly: i64 = 0;
    let mut i: usize = 0;
    assert(transactions@.take(0) =~= Seq::<RuleTransaction>::empty());
    while i < transactions.len()
        invariant
            i <= transactions@.len(),
            monthly == spending(transactions@.take(i as int)),
        decreases transactions.len() - i,
    {
        proof {
            assert(transactions@.take(i + 1).drop_last() =~= transactions@.take(i as int));
            lemma_spending_nonneg_mono(transactions@, i + 1);
            lemma_spending_nonneg_mono(transactions@, i as int);
        }
        if transactions[i].amount > 0 {
            if monthly > i64::MAX - transactions[i].amount {
                proof {
                    assert(transactions@.take(i + 1).last() == transactions@[i as int]);
                    assert(spending(transactions@.take(i + 1)) == spending(transactions@.take(i as int)) + pos(transactions@[i as int].amount));
                    assert(spending(transactions@.take(i + 1)) > i64::MAX);
                    lemma_spending_nonneg_mono(transactions@, i + 1);
                    assert(transactions@.take(transactions@.len() as int) =~= transactions@);
                    lemma_spending_nonneg_mono(transactions@, transactions@.len() as int);
                    assert(spending(transactions@) > i64::MAX);
                    assert(!totals_fit(transactions@, *config));
                }
                return false;
            }
            monthly = monthly + transactions[i].amount;
        }
        i += 1;
    }
    assert(transactions@.take(transactions@.len() as int) =~= transactions@);
    let empty_rules: Vec<ExcludedRule> = Vec::new();
    let excluded_rules: &Vec<ExcludedRule> = match &config.excluded {
        Some(v) => v,
        None => &empty_rules,
    };
    assert(excluded_rules@ == opt_vec_seq(config.excluded));
    let mut eligible_txs: Vec<RuleTransaction> = Vec::new();
    let mut i: usize = 0;
    while i < transactions.len()
        invariant
            i <= transactions@.len(),
            eligible_txs@ == eligible(transactions@.take(i as int), excluded_rules@),
        decreases transactions.len() - i,
    {
        proof {
            assert(transactions@.take(i + 1).drop_last() =~= transactions@.take(i as int));
        }
        if !is_excluded(&transactions[i], excluded_rules) {
            eligible_txs.push(transactions[i].clone_rule());
        }
        i += 1;
    }
    assert(eligible_txs@ == eligible(transactions@, excluded_rules@));
    let empty_benefits: Vec<BenefitConfig> = Vec::new();
    let benefits: &Vec<BenefitConfig> = match &config.benefits {
        Some(v) => v,
        None => &empty_benefits,
    };
    assert(benefits@ == opt_vec_seq(config.benefits));
    let mut j: usize = 0;
    while j < benefits.len()
        invariant
            j <= benefits@.len(),
            benefits@ == opt_vec_seq(config.benefits),
            eligible_txs@ == eligible(transactions@, opt_vec_seq(config.excluded)),
            forall|k: int| 0 <= k < j ==> benefit_fits(eligible_txs@, #[trigger] benefits@[k]),
        decreases benefits.len() - j,
    {
        if !benefit_fits_check(&eligible_txs, &benefits[j]) {
            assert(!benefit_fits(
                eligible(transactions@, opt_vec_seq(config.excluded)),
                opt_vec_seq(config.benefits)[j as int],
            ));
            return false;
        }
        j += 1;
    }
    true
}

/// Spending, eligible spending and benefit use of a month of transactions.
pub open spec fn totals_fit(txs: Seq<RuleTransaction>, config: PresetConfig) -> bool {
    &&& spending(txs) <= i64::MAX
    &&& forall|i: int|
        0 <= i < opt_vec_seq(config.benefits).len() ==> benefit_fits(
            eligible(txs, opt_vec_seq(config.excluded)),
            #[trigger] opt_vec_seq(config.benefits)[i],
        )
}

/// The month's totals for a card under its preset: all positive spending,
/// the part no exclusion applies to, the requirement (0 when absent), and
/// for each benefit its use, capped by its monthly cap.
pub fn calculate_summary(transactions: &Vec<RuleTransaction>, config: &PresetConfig) -> (s: CardBenefitTotals)
    requires
        totals_fit(transactions@, *config),
    ensures
        s.monthly_spending == spending(transactions@),
        s.eligible_spending == spending(eligible(transactions@, opt_vec_seq(config.excluded))),
        s.monthly_requirement == match config.monthly_requirement {
            Some(r) => r,
            None => 0,
        },
        s.benefits@.len() == opt_vec_seq(config.benefits).len(),
        forall|i: int|
            0 <= i < s.benefits@.len() ==> {
                let b = #[trigger] opt_vec_seq(config.benefits)[i];
                let used = benefit_used(eligible(transactions@, opt_vec_seq(config.excluded)), b);
                &&& s.benefits@[i].name == b.name
                &&& s.benefits@[i].cap == benefit_cap(b)
                &&& s.benefits@[i].used_amount == if used < benefit_cap(b) {
                    used
                } else {
                    benefit_cap(b) as int
                }
            },
        // what counts toward the requirement is part of what was spent
        0 <= s.eligible_spending <= s.monthly_spending,
        // no benefit is used beyond its cap
        forall|i: int| 0 <= i < s.benefits@.len() ==> s.benefits@[i].used_amount <= s.benefits@[i].cap,
        // a benefit for one category earns nothing in a month with no
        // transaction of that category
        forall|i: int|
            0 <= i < s.benefits@.len() && category_absent(transactions@, #[trigger] opt_vec_seq(config.benefits)[i])
                ==> s.benefits@[i].used_amount == if 0 < benefit_cap(opt_vec_seq(config.benefits)[i]) {
                0
            } else {
                benefit_cap(opt_vec_seq(config.benefits)[i]) as int
            },
{
    let txs = transactions;
    let mut monthly: i64 = 0;
    let mut i: usize = 0;
    assert(txs@.take(0) =~= Seq::<RuleTransaction>::empty());
    while i < txs.len()
        invariant
            i <= txs@.len(),
            spending(txs@) <= i64::MAX,
            monthly == spending(txs@.take(i as int)),
        decreases txs.len() - i,
    {
        proof {
            assert(txs@.take(i + 1).drop_last() =~= txs@.take(i as int));
            lemma_spending_nonneg_mono(txs@, i + 1);
        }
        if txs[i].amount > 0 {
            monthly = monthly + txs[i].amount;
        }
        i += 1;
    }
    assert(txs@.take(txs@.len() as int) =~= txs@);

    let empty_rules: Vec<ExcludedRule> = Vec::new();
    let excluded_rules: &Vec<ExcludedRule> = match &config.excluded {
        Some(v) => v,
        None => &empty_rules,
    };
    assert(excluded_rules@ == opt_vec_seq(config.excluded));
    let mut eligible_txs: Vec<RuleTransaction> = Vec::new();
    let mut i: usize = 0;
    while i < txs.len()
        invariant
            i <= txs@.len(),
            eligible_txs@ == eligible(txs@.take(i as int), excluded_rules@),
        decreases txs.len() - i,
    {
        proof {
            assert(txs@.take(i + 1).drop_last() =~= txs@.take(i as int));
        }
        if !is_excluded(&txs[i], excluded_rules) {
            eligible_txs.push(txs[i].clone_rule());
        }
        i += 1;
    }
    proof {
        lemma_eligible_spending_le(txs@, excluded_rules@);
        lemma_spending_nonneg(eligible(txs@, excluded_rules@));
    }
    let mut eligible_sum: i64 = 0;
    let mut i: usize = 0;
    while i < eligible_txs.len()
        invariant
            i <= eligible_txs@.len(),
            eligible_txs@ == eligible(txs@, excluded_rules@),
            spending(eligible_txs@) <= i64::MAX,
            eligible_sum == spending(eligible_txs@.take(i as int)),
        decreases eligible_txs.len() - i,
    {
        proof {
            assert(eligible_txs@.take(i + 1).drop_last() =~= eligible_txs@.take(i as int));
            lemma_spending_nonneg_mono(eligible_txs@, i + 1);
        }
        if eligible_txs[i].amount > 0 {
            eligible_sum = eligible_sum + eligible_txs[i].amount;
        }
        i += 1;
    }
    assert(eligible_txs@.take(eligible_txs@.len() as int) =~= eligible_txs@);

    let monthly_requirement: i64 = match config.monthly_requirement {
        Some(r) => r,
        None => 0,
    };

    let empty_benefits: Vec<BenefitConfig> = Vec::new();
    let configs: &Vec<BenefitConfig> = match &config.benefits {
        Some(v) => v,
        None => &empty_benefits,
    };
    assert(configs@ == opt_vec_seq(config.benefits));
    let mut benefits: Vec<BenefitRule> = Vec::new();
    let mut k: usize = 0;
    while k < configs.len()
        invariant
            k <= configs@.len(),
            configs@ == opt_vec_seq(config.benefits),
            eligible_txs@ == eligible(txs@, opt_vec_seq(config.excluded)),
            totals_fit(txs@, *config),
            benefits@.len() == k,
            forall|j: int|
                0 <= j < k ==> {
                    let b = #[trigger] configs@[j];
                    let used = benefit_used(eligible(txs@, opt_vec_seq(config.excluded)), b);
                    &&& benefits@[j].name == b.name
                    &&& benefits@[j].cap == benefit_cap(b)
                    &&& benefits@[j].used_amount == if used < benefit_cap(b) {
                        used
                    } else {
                        benefit_cap(b) as int
                    }
                },
        decreases configs.len() - k,
    {
        let b = &configs[k];
        let cap: i64 = match b.discount.monthly_cap {
            Some(c) => c,
            None => i64::MAX,
        };
        let used = calculate_benefit_used(&eligible_txs, b);
        let used = if used < cap {
            used
        } else {
            cap
        };
        benefits.push(BenefitRule { name: b.name.clone(), used_amount: used, cap });
        k += 1;
    }
    assert forall|i: int| 0 <= i < benefits@.len() implies benefits@[i].used_amount <= benefits@[i].cap by {
        let b = configs@[i];
        assert(benefits@[i].cap == benefit_cap(b));
    }
    proof {
        let el = eligible(txs@, opt_vec_seq(config.excluded));
        assert forall|i: int|
            0 <= i < benefits@.len() && category_absent(transactions@, #[trigger] opt_vec_seq(config.benefits)[i])
                implies benefits@[i].used_amount == if 0 < benefit_cap(opt_vec_seq(config.benefits)[i]) {
                0
            } else {
                benefit_cap(opt_vec_seq(config.benefits)[i]) as int
            } by {
            let b = opt_vec_seq(config.benefits)[i];
            let c = b.matcher->0.category->0;
            assert forall|e: int| 0 <= e < el.len() implies !((#[trigger] el[e]).category_name matches Some(tc)
                && tc@ == c@) by {
                lemma_eligible_from(txs@, opt_vec_seq(config.excluded), e);
                let j = choose|j: int| 0 <= j < txs@.len() && txs@[j] == el[e];
                assert(transactions@[j] == el[e]);
            }
            lemma_no_category_no_use(el, b);
            assert(configs@[i] == b);
        }
    }
    CardBenefitTotals {
        monthly_spending: monthly,
        eligible_spending: eligible_sum,
        monthly_requirement,
        benefits,
    }
}

impl RuleTransaction {
    /// A copy of the transaction.
    pub fn clone_rule(&self) -> (r: RuleTransaction)
        ensures
            r == *self,
    {
        RuleTransaction {
            amount: self.amount,
            merchant_name: match &self.merchant_name {
                Some(s) => Some(s.clone()),
                None => None,
            },
            category_name: match &self.category_name {
                Some(s) => Some(s.clone()),
                None => None,
            },
        }
    }
}

} // verus!
