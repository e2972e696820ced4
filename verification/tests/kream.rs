use ledger::calendar::CalendarDate;
use ledger::errors::AppError;
use ledger::routes::kream::{
    check_bulk_mark, check_link_type, kream_csv_table, kream_sales_summary, link_kind, parse_date, parse_money,
    parse_optional_money, plan_keyword_rule, prepare_rows, prepare_upload, rows_to_kream_rows, upload_duplicates,
    KreamRow, KreamSale, LinkKind,
};

fn parse_kream_csv(csv: &str) -> Result<Vec<KreamRow>, AppError> {
    let (headers, rows) = kream_csv_table(csv.as_bytes())?;
    rows_to_kream_rows(&headers, &rows, &Vec::new())
}

#[test]
fn parses_kream_csv_with_required_columns() {
    let csv = "\
상품명,구매 날짜,정산 날짜,구매가격,정산 가격,부대비용,주문번호
Nike Dunk Low,2026-04-01,2026-04-10,120000,150000,3500,KREAM-1
";
    let rows = parse_kream_csv(csv).unwrap();
    assert_eq!(rows.len(), 1);
    assert_eq!(rows[0].product_name, "Nike Dunk Low");
    assert_eq!(rows[0].purchase_price, 120000);
    assert_eq!(rows[0].settlement_price, 150000);
    assert_eq!(rows[0].side_cost, 3500);
}

#[test]
fn same_product_rows_get_distinct_sale_codes_without_order_id() {
    let csv = "\
상품명,구매 날짜,정산 날짜,구매가격,정산 가격
Nike Dunk Low,2026-04-01,2026-04-10,120000,150000
Nike Dunk Low,2026-04-01,2026-04-10,120000,150000
";
    let rows = parse_kream_csv(csv).unwrap();
    let prepared = prepare_rows(&rows);
    assert_eq!(prepared.len(), 2);
    assert_ne!(prepared[0].sale_code, prepared[1].sale_code);
    assert_ne!(prepared[0].dedupe_key, prepared[1].dedupe_key);
}

#[test]
fn kream_row_fields_and_dates() {
    let csv = "상품명,구매 날짜,정산 날짜,구매가격,정산 가격,부대비용,주문번호\nNike Dunk Low,2026-04-01,2026-04-10,\"120,000원\",150000,,KREAM-1\n";
    let rows = parse_kream_csv(csv).unwrap();
    assert_eq!(rows[0].purchase_price, 120000);
    assert_eq!(rows[0].side_cost, 0);
    assert_eq!(rows[0].external_id.as_deref(), Some("KREAM-1"));
    assert_eq!((rows[0].purchase_date.year, rows[0].purchase_date.month, rows[0].purchase_date.day), (2026, 4, 1));
    assert_eq!(rows[0].settlement_date.day, 10);
    assert_eq!(rows[0].source_row_index, 2);
}

#[test]
fn kream_missing_column_is_a_bad_request() {
    let csv = "상품명,구매 날짜,구매가격,정산 가격\nA,2026-04-01,1,2\n";
    assert!(matches!(parse_kream_csv(csv), Err(AppError::BadRequest(_))));
}

#[test]
fn kream_upload_without_rows_is_refused() {
    let csv = "상품명,구매 날짜,정산 날짜,구매가격,정산 가격\n";
    let (headers, rows) = kream_csv_table(csv.as_bytes()).unwrap();
    match prepare_upload(&headers, &rows, &Vec::new()) {
        Err(AppError::BadRequest(m)) => assert_eq!(m, "KREAM file does not contain importable rows"),
        _ => panic!("expected a bad request"),
    }
}

#[test]
fn order_id_gives_the_sale_code() {
    let csv = "상품명,구매 날짜,정산 날짜,구매가격,정산 가격,주문번호\nA,2026-04-01,2026-04-10,1000,2000,K-9\nA,2026-04-01,2026-04-10,1000,2000,K-9\n";
    let (headers, rows) = kream_csv_table(csv.as_bytes()).unwrap();
    let prepared = prepare_upload(&headers, &rows, &Vec::new()).unwrap();
    // the order number names the sale: the same order is the same sale
    assert_eq!(prepared.len(), 2);
    assert_eq!(prepared[0].dedupe_key, prepared[1].dedupe_key);
    assert_eq!(prepared[0].sale_code, format!("KREAM-20260401-{}", &prepared[0].dedupe_key[..8]));
}

#[test]
fn money_cells() {
    assert_eq!(parse_money("12,300원", "구매가격").unwrap(), 12300);
    assert!(matches!(parse_money("", "구매가격"), Err(AppError::BadRequest(_))));
    assert!(matches!(parse_money("abc", "구매가격"), Err(AppError::BadRequest(_))));
    assert_eq!(parse_optional_money("").unwrap(), None);
    assert_eq!(parse_optional_money("3,500").unwrap(), Some(3500));
}

#[test]
fn date_cells() {
    let d = parse_date("2026.04.01", "구매 날짜", None).unwrap();
    assert_eq!((d.year, d.month, d.day), (2026, 4, 1));
    let d = parse_date("20260401", "구매 날짜", None).unwrap();
    assert_eq!((d.year, d.month, d.day), (2026, 4, 1));
    assert!(matches!(parse_date("someday", "구매 날짜", None), Err(AppError::BadRequest(_))));
}

#[test]
fn upload_marks_keys_already_stored_or_repeated() {
    let keys = vec!["a".to_string(), "b".to_string(), "a".to_string()];
    let existing = vec!["b".to_string()];
    assert_eq!(upload_duplicates(&keys, &existing), vec![false, true, true]);
}

#[test]
fn link_kinds() {
    assert_eq!(link_kind("purchase").unwrap(), LinkKind::Purchase);
    assert!(matches!(link_kind("gift"), Err(AppError::BadRequest(_))));
    assert!(check_link_type(LinkKind::Purchase, "expense").is_ok());
    assert!(check_link_type(LinkKind::Purchase, "income").is_err());
}

#[test]
fn bulk_mark_checks() {
    assert_eq!(check_bulk_mark("side_cost", 3).unwrap(), true);
    assert_eq!(check_bulk_mark("side_cost", 0).unwrap(), false);
    match check_bulk_mark("purchase", 3) {
        Err(AppError::BadRequest(m)) => assert_eq!(m, "bulk marking currently supports only side_cost"),
        _ => panic!("expected a bad request"),
    }
}

#[test]
fn keyword_rule_plan_normalizes() {
    let plan = plan_keyword_rule("  Nike Dunk ", None).unwrap();
    assert_eq!(plan.keyword, "Nike Dunk");
    assert_eq!(plan.kind, "side_cost");
    assert_eq!(plan.normalized, "nikedunk");
    assert_eq!(plan.pattern, "%nikedunk%");
    assert!(plan_keyword_rule("   ", None).is_err());
    assert!(plan_keyword_rule("택배", Some("purchase")).is_err());
}

fn sale(purchase: i64, settlement: i64, settled: bool) -> KreamSale {
    let d = CalendarDate { year: 2026, month: 4, day: 1 };
    KreamSale {
        id: 1,
        user_id: 1,
        sale_code: "K".to_string(),
        product_name: "A".to_string(),
        purchase_date: d,
        settlement_date: if settled { Some(d) } else { None },
        purchase_price: purchase,
        settlement_price: settlement,
        side_cost: 0,
        purchase_transaction_id: None,
        settlement_transaction_id: None,
        side_cost_transaction_id: None,
        dedupe_key: "k".to_string(),
        source_filename: None,
        source_row_index: None,
        raw_data: "{}".to_string(),
        memo: None,
        created_at: 0,
        updated_at: 0,
    }
}

#[test]
fn summary_totals_profit() {
    let s = kream_sales_summary(&Vec::new(), 0);
    assert_eq!(s.total_profit, 0);
    let sales = vec![sale(100000, 130000, true), sale(50000, 0, false)];
    let s = kream_sales_summary(&sales, 4000);
    assert_eq!(s.total_purchase_price, 150000);
    assert_eq!(s.total_settlement_price, 130000);
    assert_eq!(s.total_side_cost, 4000);
    assert_eq!(s.total_profit, 26000);
}
