use ledger::errors::AppError;
use ledger::routes::accounts::{plan_new_account, CreateAccountRequest};
use ledger::routes::card_presets::{
    benefit_step, calc_discount, collect_merchants_after, extract_amount_any, extract_amount_from_line,
    extract_group_name, extract_monthly_requirement, find_chon, find_integrated_monthly_cap, find_monthly_usage_limit,
    regex_find_man, text_lines, transaction_matches_benefit, BenefitStep, PresetBenefit, PresetDiscount,
};
use ledger::routes::cards::{card_month_range, card_transaction_totals, check_new_card};
use ledger::routes::categories::{plan_new_category, plan_rule};
use ledger::routes::imports::{plan_pasted_import, upload_institution, PastedTextImportRequest};
use ledger::routes::transactions::{check_amount, final_scope, kream_kind_decision, plan_listing, KindDecision};

fn chars(s: &str) -> Vec<char> {
    s.chars().collect()
}

fn bad_request_message(e: AppError) -> String {
    match e {
        AppError::BadRequest(m) => m,
        other => panic!("expected a bad request, got {other:?}"),
    }
}

fn coffee(kind: &str, value: i64) -> PresetBenefit {
    PresetBenefit {
        name: "커피".to_string(),
        min_amount: 1000,
        merchant_keywords: Some(vec!["스타벅스".to_string(), "투썸".to_string()]),
        discount: Some(PresetDiscount { kind: kind.to_string(), value, per_tx_cap: 1000, max_base: 20000 }),
    }
}

#[test]
fn preset_benefit_matching() {
    let b = coffee("percent", 10);
    assert!(transaction_matches_benefit(5000, Some("스타벅스 강남"), &b));
    assert!(!transaction_matches_benefit(500, Some("스타벅스 강남"), &b));
    assert!(!transaction_matches_benefit(5000, Some("이디야"), &b));
    assert!(!transaction_matches_benefit(5000, None, &b));
}

#[test]
fn preset_discounts() {
    assert_eq!(calc_discount(5000, &coffee("percent", 10)), 500);
    // the base stops at max_base, then the per-transaction cap applies
    assert_eq!(calc_discount(50000, &coffee("percent", 10)), 1000);
    assert_eq!(calc_discount(50000, &coffee("percent", 3)), 600);
    assert_eq!(calc_discount(50000, &coffee("fixed", 300)), 300);
    assert_eq!(calc_discount(50000, &coffee("points", 300)), 0);
    assert_eq!(calc_discount(-1005, &coffee("percent", 10)), -100);
}

#[test]
fn preset_benefit_steps() {
    let b = coffee("percent", 10);
    let mut unnamed = b.clone();
    unnamed.name = String::new();
    assert_eq!(benefit_step(5000, Some("스타벅스"), &unnamed, false), BenefitStep::Unnamed);
    assert_eq!(benefit_step(5000, Some("스타벅스"), &b, true), BenefitStep::AlreadyApplied);
    assert_eq!(benefit_step(5000, Some("이디야"), &b, false), BenefitStep::NotEarned);
    assert_eq!(benefit_step(5000, Some("스타벅스"), &b, false), BenefitStep::Apply(500));
}

#[test]
fn benefit_text_amounts() {
    assert_eq!(regex_find_man(&chars("전월실적 30만원 이상")), Some(300000));
    assert_eq!(regex_find_man(&chars("만원")), None);
    assert_eq!(find_chon(&chars("1만 5천 원")), Some(15000));
    assert_eq!(find_chon(&chars("할인")), None);
    assert_eq!(extract_amount_any(&chars("1만5천원")), Some(15000));
    assert_eq!(extract_amount_any(&chars("통합 월 5,000원")), Some(5000));
    assert_eq!(extract_amount_any(&chars("0원")), None);
    assert_eq!(extract_amount_any(&chars("할인")), None);
    assert_eq!(extract_amount_from_line(&chars("월 12,000원")), Some(12000));
    assert_eq!(extract_amount_from_line(&chars("없음")), None);
}

#[test]
fn monthly_requirement_from_text() {
    assert_eq!(extract_monthly_requirement("카드 소개\n전월실적 30만원 이상\n"), Some(300000));
    assert_eq!(extract_monthly_requirement("전월 실적 300,000원 이상"), Some(300000));
    assert_eq!(extract_monthly_requirement("연회비 1만원"), None);
}

#[test]
fn benefit_text_lines_and_limits() {
    let lines = text_lines("혜택\r\n각 영역별 월 4회\n");
    assert_eq!(lines.len(), 2);
    assert_eq!(lines[0].iter().collect::<String>(), "혜택");
    assert_eq!(find_monthly_usage_limit(&lines, 0), Some(4));
    assert_eq!(find_monthly_usage_limit(&text_lines("무제한"), 0), None);
}

#[test]
fn integrated_cap_is_the_largest_in_its_section() {
    let lines = text_lines(
        "통합할인한도\n전월 실적 30만 원 이상: 1만 원\n\n전월 실적 50만 원 이상: 2만 원\n다음 섹션\n- 10만원",
    );
    assert_eq!(find_integrated_monthly_cap(&lines, 0), Some(20000));
    assert_eq!(find_integrated_monthly_cap(&text_lines("할인 한도 : 통합 월 5,000원"), 0), Some(5000));
    assert_eq!(find_integrated_monthly_cap(&text_lines("혜택 없음"), 0), None);
}

#[test]
fn merchants_follow_a_benefit_line() {
    let lines = text_lines("- GS25, CU, 세븐일레븐 (일부 제외)\n- 다른 줄");
    assert_eq!(collect_merchants_after(&lines, 0), vec!["GS25", "CU", "세븐일레븐"]);
    assert!(collect_merchants_after(&text_lines("\nGS25"), 0).is_empty());
}

#[test]
fn group_names() {
    assert_eq!(
        extract_group_name("4대 편의점, 생활/잡화, 커피, 월납 20% 할인 (전월실적 30만원 이상)"),
        "4대 편의점, 생활/잡화, 커피, 월납"
    );
    assert_eq!(extract_group_name("스타벅스 이용 시 50% 할인"), "스타벅스");
    assert_eq!(extract_group_name("  교통  "), "교통");
}

#[test]
fn transaction_amounts_must_not_be_zero() {
    assert!(check_amount(1).is_ok());
    assert!(check_amount(-5).is_ok());
    assert_eq!(bad_request_message(check_amount(0).unwrap_err()), "금액은 0이 될 수 없습니다");
}

#[test]
fn kream_kind_decisions() {
    assert!(matches!(kream_kind_decision(Some(" personal "), Some("purchase")), Ok(KindDecision::Personal)));
    assert!(matches!(kream_kind_decision(None, Some("purchase")), Ok(KindDecision::Given(k)) if k == "purchase"));
    assert!(matches!(kream_kind_decision(Some("kream"), None), Ok(KindDecision::Infer)));
    assert_eq!(
        bad_request_message(kream_kind_decision(None, Some("gift")).unwrap_err()),
        "kream_kind must be purchase, settlement, or side_cost"
    );
    assert_eq!(final_scope("personal".to_string(), Some("purchase"), None), "kream");
    assert_eq!(final_scope("personal".to_string(), Some("purchase"), Some("personal")), "personal");
    assert_eq!(final_scope("personal".to_string(), None, None), "personal");
}

#[test]
fn transaction_listing_filters() {
    let f = plan_listing(Some("2026-04-01"), Some("2026-04-30"), None, Some(" 커피 ")).unwrap();
    assert_eq!(f.start, Some(1775001600));
    assert_eq!(f.end, Some(1777593599));
    assert_eq!(f.scope.as_deref(), Some("personal"));
    assert_eq!(f.pattern.as_deref(), Some("%커피%"));
    let f = plan_listing(None, None, Some("all"), None).unwrap();
    assert_eq!((f.start, f.end, f.scope, f.pattern), (None, None, None, None));
    assert_eq!(bad_request_message(plan_listing(Some("x"), None, None, None).unwrap_err()), "시작일 형식이 올바르지 않습니다");
    assert_eq!(bad_request_message(plan_listing(None, Some("x"), None, None).unwrap_err()), "종료일 형식이 올바르지 않습니다");
    assert_eq!(
        bad_request_message(plan_listing(None, None, Some("mine"), None).unwrap_err()),
        "scope must be personal, kream, or all"
    );
}

#[test]
fn category_plans() {
    assert_eq!(plan_new_category("식비", None).unwrap(), 0);
    assert_eq!(plan_new_category("식비", Some(3)).unwrap(), 3);
    assert_eq!(bad_request_message(plan_new_category(" ", None).unwrap_err()), "카테고리 이름을 입력해 주세요");
    let p = plan_rule(" Star Bucks ", None, true).unwrap();
    assert_eq!(p.keyword, "Star Bucks");
    assert_eq!(p.keyword_normalized, "starbucks");
    assert_eq!(p.priority, 200);
    assert_eq!(bad_request_message(plan_rule(" ", None, true).unwrap_err()), "키워드를 입력해 주세요");
    assert_eq!(bad_request_message(plan_rule("a", None, false).unwrap_err()), "유효하지 않은 카테고리입니다");
}

#[test]
fn card_requests() {
    assert!(check_new_card("신한카드", "딥드림").is_ok());
    assert_eq!(bad_request_message(check_new_card("", "딥드림").unwrap_err()), "카드사와 카드명을 입력해 주세요");
    assert_eq!(card_month_range("2026-04").unwrap(), (1775001600, 1777593600));
    assert!(card_month_range("2026-4-1").is_err());
    assert_eq!(card_transaction_totals(&vec![1000, 2500, -500]), (3, 3000));
}

#[test]
fn account_defaults() {
    let req = CreateAccountRequest {
        name: "생활비 통장".to_string(),
        account_type: "bank".to_string(),
        institution: None,
        currency: None,
        is_active: None,
    };
    let d = plan_new_account(&req).unwrap();
    assert_eq!(d.currency, "KRW");
    assert!(d.is_active);
    let blank = CreateAccountRequest { name: "  ".to_string(), ..req };
    assert_eq!(bad_request_message(plan_new_account(&blank).unwrap_err()), "계좌 이름을 입력해 주세요");
}

#[test]
fn import_requests() {
    assert_eq!(upload_institution(Some("samsung_card"), Some("x.csv")), "samsung_card");
    assert_eq!(upload_institution(Some(" "), Some("Shinhancard.xls")), "shinhan_card");
    assert_eq!(upload_institution(None, Some("x.csv")), "unknown");
    let req = PastedTextImportRequest { institution: None, text: "a,b".to_string() };
    assert_eq!(plan_pasted_import(&req).unwrap(), "pasted_text");
    let req = PastedTextImportRequest { institution: None, text: " ".to_string() };
    assert_eq!(bad_request_message(plan_pasted_import(&req).unwrap_err()), "붙여넣을 텍스트를 입력해 주세요");
}
