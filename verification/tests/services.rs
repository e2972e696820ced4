use ledger::errors::AppError;
use ledger::import::{
    detect_best_parser, detect_institution_from_filename, extract_card_last4, infer_card_issuer,
    make_card_display_name, normalize_card_lookup_key, preview_sample, source_type_for_filename, CardIndex,
    CardPlan,
};
use ledger::services::auto_categorize::{categorize_key, normalize_merchant};
use ledger::services::kream_rules::{first_matching_kind, normalize_haystack, normalize_keyword, sql_keyword_pattern};
use ledger::services::transaction_scope::{infer_scope, is_kream_related, resolve_scope};
use ledger::telegram::commands::{classify_command, plan_add_expense, select_pending_import, won, AddExpensePlan, CommandKind, PendingChoice};

#[test]
fn institutions_from_filenames() {
    assert_eq!(detect_institution_from_filename(Some("Shinhancard_20260424.xls")).as_deref(), Some("shinhan_card"));
    assert_eq!(detect_institution_from_filename(Some("신한은행_거래내역.csv")).as_deref(), Some("shinhan_bank"));
    assert_eq!(detect_institution_from_filename(Some("hyundaicard.xls")).as_deref(), Some("hyundai_card"));
    assert_eq!(detect_institution_from_filename(Some("SAMSUNG.xlsx")).as_deref(), Some("samsung_card"));
    assert_eq!(detect_institution_from_filename(Some("bc_2026.csv")).as_deref(), Some("bc_card"));
    assert_eq!(detect_institution_from_filename(Some("notes.csv")), None);
    assert_eq!(detect_institution_from_filename(None), None);
}

#[test]
fn source_types_from_filenames() {
    assert_eq!(source_type_for_filename(Some("a.XLSX")), "xlsx");
    assert_eq!(source_type_for_filename(Some("a.xls")), "xls");
    assert_eq!(source_type_for_filename(Some("a.txt")), "csv");
    assert_eq!(source_type_for_filename(None), "csv");
}

#[test]
fn card_issuers() {
    assert_eq!(infer_card_issuer(Some("hyundai_card"), "x"), "현대카드");
    assert_eq!(infer_card_issuer(None, "신한 딥드림"), "신한카드");
    assert_eq!(infer_card_issuer(None, "KB 카드"), "KB국민카드");
    assert_eq!(infer_card_issuer(None, "무명"), "미분류");
}

#[test]
fn card_keys_and_last_digits() {
    assert_eq!(normalize_card_lookup_key(" Deep Dream ").into_iter().collect::<String>(), "deepdream");
    assert_eq!(extract_card_last4("현대카드M(1234)").map(|v| v.into_iter().collect::<String>()).as_deref(), Some("1234"));
    assert_eq!(extract_card_last4("12-3"), None);
    assert_eq!(make_card_display_name("현대카드", "현대카드M(5678)"), "현대카드 (5678)");
    assert_eq!(make_card_display_name("신한카드", "딥드림 12*"), "신한카드 (12*)");
    assert_eq!(make_card_display_name("신한카드", "딥드림"), "신한카드");
}

#[test]
fn card_index_finds_by_name_then_last_digits() {
    let cards = vec![(1u128, "Deep Dream 1234".to_string()), (2u128, "Mr.Life 9999".to_string()), (3u128, "Other 9999".to_string())];
    let index = CardIndex::build(&cards);
    assert_eq!(index.lookup("deepdream1234"), Some(1));
    assert_eq!(index.lookup("딥드림(1234)"), Some(1));
    // two cards end in 9999: the digits alone decide nothing
    assert_eq!(index.lookup("카드 9999"), None);
    match index.plan("삼성카드 (4321)", Some("samsung_card")) {
        CardPlan::Create { issuer, display_name } => {
            assert_eq!(issuer, "삼성카드");
            assert_eq!(display_name, "삼성카드 (4321)");
        }
        CardPlan::Existing(_) => panic!("expected a new card"),
    }
}

#[test]
fn registered_card_is_found_again() {
    let mut index = CardIndex::build(&Vec::new());
    index.register(42, "신한 딥드림 5555", "신한카드 (5555)");
    assert_eq!(index.lookup("신한 딥드림 5555"), Some(42));
    assert_eq!(index.lookup("다른이름 5555"), Some(42));
}

#[test]
fn best_parser_is_the_last_highest_over_the_bar() {
    assert_eq!(detect_best_parser(&vec![10, 90, 90, 20]), Some(2));
    assert_eq!(detect_best_parser(&vec![10, 29]), None);
    assert_eq!(detect_best_parser(&vec![]), None);
    assert_eq!(detect_best_parser(&vec![30]), Some(0));
}

#[test]
fn preview_sample_takes_600_characters() {
    let long = "가".repeat(700);
    assert_eq!(preview_sample(long.as_bytes()).chars().count(), 600);
    assert_eq!(preview_sample(b"abc"), "abc");
    assert_eq!(preview_sample(&[0x61, 0xff, 0x62]), "a\u{FFFD}b");
}

#[test]
fn merchant_normalisation() {
    assert_eq!(normalize_merchant(" Star Bucks "), "starbucks");
    assert_eq!(categorize_key(None), None);
    assert_eq!(normalize_keyword("  Nike  Dunk"), "nikedunk");
    assert_eq!(sql_keyword_pattern("택 배"), "%택배%");
    assert_eq!(normalize_haystack(&[Some("CJ 대한"), None, Some("통운")]), "cj대한통운");
}

#[test]
fn first_rule_that_matches_gives_the_kind() {
    let rules = vec![("택배".to_string(), "side_cost".to_string()), ("cj".to_string(), "other".to_string())];
    assert_eq!(first_matching_kind("cj대한통운택배", &rules).as_deref(), Some("side_cost"));
    assert_eq!(first_matching_kind("스타벅스", &rules), None);
}

#[test]
fn kream_scope_inference() {
    assert!(is_kream_related(Some("KREAM 정산"), None));
    assert!(is_kream_related(None, Some("크림 판매")));
    assert!(!is_kream_related(Some("스타벅스"), None));
    assert_eq!(infer_scope(Some("kream"), None), "kream");
    assert_eq!(infer_scope(Some("스타벅스"), None), "personal");
    assert_eq!(resolve_scope(Some("personal"), Some("kream"), None).unwrap(), "personal");
    assert_eq!(resolve_scope(None, Some("kream"), None).unwrap(), "kream");
    match resolve_scope(Some("business"), None, None) {
        Err(AppError::BadRequest(m)) => assert_eq!(m, "scope must be either personal or kream"),
        _ => panic!("expected a bad request"),
    }
}

#[test]
fn telegram_commands_are_classified() {
    let (kind, args) = classify_command("/add 12000 점심 회사 근처");
    assert_eq!(kind, CommandKind::Add);
    assert_eq!(args, vec!["12000", "점심", "회사", "근처"]);
    assert_eq!(classify_command("   ").0, CommandKind::Empty);
    assert_eq!(classify_command("/ok@ledger_bot abc").0, CommandKind::Confirm);
    assert_eq!(classify_command("/help").0, CommandKind::Unsupported);
}

#[test]
fn add_expense_plans() {
    let args = |v: &[&str]| v.iter().map(|s| s.to_string()).collect::<Vec<String>>();
    assert!(matches!(plan_add_expense(&args(&["12000"])), AddExpensePlan::Usage));
    assert!(matches!(plan_add_expense(&args(&["abc", "점심"])), AddExpensePlan::InvalidAmount));
    assert!(matches!(plan_add_expense(&args(&["0", "점심"])), AddExpensePlan::InvalidAmount));
    assert!(matches!(plan_add_expense(&args(&["1000", "  "])), AddExpensePlan::MissingMerchant));
    match plan_add_expense(&args(&["12,000원", " 점심 ", "회사", "근처"])) {
        AddExpensePlan::Insert { amount, merchant_name, memo } => {
            assert_eq!(amount, 12000);
            assert_eq!(merchant_name, "점심");
            assert_eq!(memo.as_deref(), Some("회사 근처"));
        }
        other => panic!("unexpected {other:?}"),
    }
}

#[test]
fn pending_imports_are_picked_by_code() {
    let ids = vec!["abc12345-0000".to_string(), "abd99999-0000".to_string()];
    assert_eq!(select_pending_import(&ids, None), PendingChoice::Chosen(0));
    assert_eq!(select_pending_import(&ids, Some(" ABD ")), PendingChoice::Chosen(1));
    assert_eq!(select_pending_import(&ids, Some("ab")), PendingChoice::Ambiguous);
    assert_eq!(select_pending_import(&ids, Some("zz")), PendingChoice::NoMatch);
    assert_eq!(select_pending_import(&Vec::new(), None), PendingChoice::NothingPending);
}

#[test]
fn won_groups_thousands() {
    assert_eq!(won(0), "0원");
    assert_eq!(won(999), "999원");
    assert_eq!(won(1000), "1,000원");
    assert_eq!(won(1234567), "1,234,567원");
    assert_eq!(won(-12300), "-12,300원");
}
