use ledger::card_rules::{
    calculate_benefit_used, calculate_summary, is_excluded, BenefitConfig, BenefitMatch, DiscountRule,
    ExcludedRule, PresetConfig, RuleTransaction,
};

fn tx(amount: i64, merchant: &str, category: &str) -> RuleTransaction {
    RuleTransaction {
        amount,
        merchant_name: Some(merchant.to_string()),
        category_name: Some(category.to_string()),
    }
}

fn coffee_preset() -> PresetConfig {
    PresetConfig {
        monthly_requirement: Some(300000),
        excluded: Some(vec![ExcludedRule { merchant_contains: Some("상품권".to_string()), category: None }]),
        benefits: Some(vec![BenefitConfig {
            name: "커피 할인".to_string(),
            matcher: Some(BenefitMatch {
                merchant_keywords: Some(vec!["스타벅스".to_string(), "투썸".to_string(), "이디야".to_string()]),
                category: None,
            }),
            discount: DiscountRule { kind: "percent".to_string(), value: 10, monthly_cap: Some(2000) },
        }]),
    }
}

#[test]
fn calculates_benefit_with_cap() {
    let tx = vec![tx(10000, "스타벅스 강남점", "카페"), tx(12000, "투썸플레이스", "카페")];
    let preset = coffee_preset();
    let summary = calculate_summary(&tx, &preset);
    assert_eq!(summary.monthly_spending, 22000);
    assert_eq!(summary.eligible_spending, 22000);
    assert_eq!(summary.benefits.len(), 1);
    assert_eq!(summary.benefits[0].used_amount, 2000);
}

#[test]
fn excluded_spending_does_not_count_toward_requirement() {
    let txs = vec![tx(10000, "스타벅스", "카페"), tx(50000, "문화상품권 구매", "기타"), tx(-3000, "환불", "기타")];
    let summary = calculate_summary(&txs, &coffee_preset());
    assert_eq!(summary.monthly_spending, 60000);
    assert_eq!(summary.eligible_spending, 10000);
    assert_eq!(summary.monthly_requirement, 300000);
    assert_eq!(summary.benefits[0].used_amount, 1000);
    assert_eq!(summary.benefits[0].cap, 2000);
}

#[test]
fn exclusion_by_category() {
    let rules = vec![ExcludedRule { merchant_contains: None, category: Some("세금".to_string()) }];
    assert!(is_excluded(&tx(1000, "구청", "세금"), &rules));
    assert!(!is_excluded(&tx(1000, "구청", "카페"), &rules));
}

#[test]
fn fixed_discount_per_transaction_without_cap() {
    let benefit = BenefitConfig {
        name: "정액".to_string(),
        matcher: None,
        discount: DiscountRule { kind: "fixed".to_string(), value: 500, monthly_cap: None },
    };
    let txs = vec![tx(10000, "a", "b"), tx(20000, "c", "d"), tx(0, "e", "f")];
    // a fixed discount counts once for every transaction it matches
    assert_eq!(calculate_benefit_used(&txs, &benefit), 1500);
}

#[test]
fn missing_requirement_reads_as_zero() {
    let preset = PresetConfig { monthly_requirement: None, excluded: None, benefits: None };
    let summary = calculate_summary(&vec![tx(100, "a", "b")], &preset);
    assert_eq!(summary.monthly_requirement, 0);
    assert!(summary.benefits.is_empty());
}
