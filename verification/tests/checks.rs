use argon2::password_hash::{rand_core::OsRng, PasswordHasher, SaltString};
use ledger::calendar::CalendarDate;
use ledger::card_rules::{
    benefit_fits_check, totals_fit_check, BenefitConfig, DiscountRule, PresetConfig, RuleTransaction,
};
use ledger::import::dedupe::build_dedupe_key;
use ledger::import::parser::{normalize_header, parse_korean_date};
use ledger::routes::auth::{plan_password_change, verify_login};
use ledger::import::{pick_sheet, watched_extension};
use ledger::routes::asset_snapshots::SnapshotTotal;
use ledger::routes::card_presets::{discount_fits_check, PresetBenefit, PresetDiscount};
use ledger::services::auto_categorize::normalize_merchant;
use ledger::services::kream_rules::{normalize_haystack, normalize_keyword};

fn plain(amount: i64) -> RuleTransaction {
    RuleTransaction { amount, merchant_name: None, category_name: None }
}

fn percent(value: i64) -> BenefitConfig {
    BenefitConfig {
        name: "할인".to_string(),
        matcher: None,
        discount: DiscountRule { kind: "percent".to_string(), value, monthly_cap: None },
    }
}

#[test]
fn dedupe_key_is_lowercase_hex() {
    let key = build_dedupe_key(7, Some("Shinhan"), 1776679200, 10000, Some("스타벅스"), None, None, None, None).unwrap();
    assert_eq!(key.len(), 64);
    assert!(key.chars().all(|c| c.is_ascii_digit() || ('a'..='f').contains(&c)));
}

#[test]
fn card_totals_checks() {
    let preset = PresetConfig { monthly_requirement: None, excluded: None, benefits: Some(vec![percent(10)]) };
    assert!(totals_fit_check(&vec![plain(10000), plain(-500)], &preset));
    // the month's spending overflows
    assert!(!totals_fit_check(&vec![plain(i64::MAX), plain(1)], &preset));
    // a single discount product overflows
    assert!(!benefit_fits_check(&vec![plain(i64::MAX)], &percent(10)));
    assert!(!totals_fit_check(&vec![plain(i64::MAX)], &preset));
    // fixed discounts whose sum overflows
    let fixed = BenefitConfig {
        name: "정액".to_string(),
        matcher: None,
        discount: DiscountRule { kind: "fixed".to_string(), value: i64::MAX, monthly_cap: None },
    };
    assert!(benefit_fits_check(&vec![plain(1)], &fixed));
    assert!(!benefit_fits_check(&vec![plain(1), plain(1)], &fixed));
}

#[test]
fn preset_discount_check() {
    let b = |kind: &str, value: i64, max_base: i64| PresetBenefit {
        name: "커피".to_string(),
        min_amount: 0,
        merchant_keywords: None,
        discount: Some(PresetDiscount { kind: kind.to_string(), value, per_tx_cap: 1000, max_base }),
    };
    assert!(discount_fits_check(5000, &b("percent", 10, 20000)));
    assert!(!discount_fits_check(i64::MAX, &b("percent", 10, i64::MAX)));
    assert!(discount_fits_check(i64::MAX, &b("percent", 10, 20000)));
    assert!(discount_fits_check(i64::MAX, &b("fixed", i64::MAX, i64::MAX)));
}

#[test]
fn snapshot_totals_check() {
    let d1 = CalendarDate { year: 2026, month: 1, day: 1 };
    let d2 = CalendarDate { year: 2026, month: 1, day: 2 };
    let ok = vec![
        SnapshotTotal { date: d1, assets: Some(1000), liabilities: Some(200) },
        SnapshotTotal { date: d2, assets: Some(i64::MAX), liabilities: None },
        SnapshotTotal { date: d1, assets: Some(5), liabilities: None },
    ];
    assert!(ledger::routes::asset_snapshots::totals_fit_check(&ok));
    let day_overflow = vec![
        SnapshotTotal { date: d2, assets: Some(i64::MAX), liabilities: None },
        SnapshotTotal { date: d2, assets: Some(1), liabilities: None },
    ];
    assert!(!ledger::routes::asset_snapshots::totals_fit_check(&day_overflow));
    let net_overflow = vec![SnapshotTotal { date: d1, assets: Some(i64::MAX), liabilities: Some(-1) }];
    assert!(!ledger::routes::asset_snapshots::totals_fit_check(&net_overflow));
}

#[test]
fn sheets_and_watched_files() {
    let names = vec!["요약".to_string(), "국내이용내역".to_string(), "해외이용내역".to_string()];
    assert_eq!(pick_sheet(&names, "국내이용내역"), Some(1));
    assert_eq!(pick_sheet(&names, "없는 시트"), Some(0));
    assert_eq!(pick_sheet(&Vec::new(), "국내이용내역"), None);
    assert_eq!(pick_sheet(&vec!["Sheet1".to_string(), "DATA".to_string()], "data"), Some(1));
    assert!(watched_extension("CSV"));
    assert!(watched_extension("xlsx"));
    assert!(watched_extension("Xls"));
    assert!(!watched_extension("txt"));
    assert!(!watched_extension("xlsm"));
}

#[test]
fn normalized_keys_are_settled() {
    let m = normalize_merchant(" Star Bucks\t강남 ");
    assert_eq!(m, "starbucks강남");
    assert_eq!(normalize_merchant(&m), m);
    let h = normalize_header(" Amount (KRW) ");
    assert_eq!(h, "amount(krw)");
    assert_eq!(normalize_header(&h), h);
    // a byte-order mark before whitespace leaves the whitespace at first
    assert_eq!(normalize_header("\u{feff}\tA"), "\ta");
    assert_eq!(normalize_header("\ta"), "a");
}

#[test]
fn haystack_is_keywords_joined() {
    let values = [Some("KREAM 배송"), None, Some("CJ 대한통운")];
    assert_eq!(normalize_haystack(&values), "kream배송cj대한통운");
    assert_eq!(
        normalize_haystack(&values),
        format!("{}{}", normalize_keyword("KREAM 배송"), normalize_keyword("CJ 대한통운"))
    );
    assert_eq!(normalize_haystack(&[]), "");
}

#[test]
fn calendar_days_as_chrono_knows_them() {
    assert_eq!(parse_korean_date("2024년 2월 29일"), Some((2024, 2, 29)));
    assert_eq!(parse_korean_date("2023년 2월 29일"), None);
    assert_eq!(parse_korean_date("2000년 2월 29일"), Some((2000, 2, 29)));
    assert_eq!(parse_korean_date("1900년 2월 29일"), None);
    assert_eq!(parse_korean_date("2026년 4월 31일"), None);
    assert_eq!(parse_korean_date("2026년 13월 1일"), None);
    assert_eq!(parse_korean_date("262142년 12월 31일"), Some((262142, 12, 31)));
    assert_eq!(parse_korean_date("262143년 1월 1일"), None);
}

#[test]
fn password_change_hashes_the_new_password() {
    // without a stored hash the current password cannot be checked
    assert!(plan_password_change("x", "first password", None).is_err());
    let old = argon2_hash_of("old password");
    let new_hash = plan_password_change("old password", "brand new pass", Some(&old)).unwrap();
    assert!(verify_login("brand new pass", Some(&new_hash)).is_ok());
    assert!(verify_login("old password", Some(&new_hash)).is_err());
}

fn argon2_hash_of(password: &str) -> String {
    let salt = SaltString::generate(&mut OsRng);
    argon2::Argon2::default().hash_password(password.as_bytes(), &salt).unwrap().to_string()
}
