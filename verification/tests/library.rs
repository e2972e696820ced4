use ledger::errors::AppError;
use ledger::import::keyed_ids::KeyedIds;
use ledger::import::parser::{
    ensure_column, header_map, normalize_header, parse_default_type, parse_korean_date, parse_local_datetime,
    pick_col, require_non_empty_rows, row_value,
};
use ledger::import::tables::{csv_records, detect_delimiter, html_table_readable, html_table_rows, strip_html_tags};
use ledger::import::{
    build_account_index, account_key, classify_preview_rows, confirm_start, confirmed_source_type,
    outcome_of_stored_status, ConfirmStart, ConfirmTally, RowOutcome,
};
use ledger::numbers::{i64_to_string, parse_i32, parse_i64, parse_u16, parse_u32};
use ledger::routes::kream::{
    cell, find_col, has_any, hash_key, is_sheet_file, kream_sheet_table, manual_sale_keys, normalize_value,
    plan_candidates, plan_mark, replaced_transaction, require_col, sale_transactions, KreamCandidateQuery,
};
use ledger::services::auto_categorize::learned_rule_key;
use ledger::telegram::webhook::{
    extract_chat_id, extract_message_text, extract_user_id, TelegramChat, TelegramMessage, TelegramUser,
    TelegramWebhookPayload,
};
use ledger::calendar::CalendarDate;

fn chars(s: &str) -> Vec<char> {
    s.chars().collect()
}

fn strings(v: &[&str]) -> Vec<String> {
    v.iter().map(|s| s.to_string()).collect()
}

#[test]
fn tables_need_rows() {
    assert_eq!(require_non_empty_rows(&[]), Err("파싱할 데이터가 없습니다".to_string()));
    assert!(require_non_empty_rows(&[vec!["a".to_string()]]).is_ok());
}

#[test]
fn default_types() {
    assert_eq!(parse_default_type(Some(100), Some(0)), Some(("expense".to_string(), 100)));
    assert_eq!(parse_default_type(Some(0), Some(50)), Some(("income".to_string(), 50)));
    assert_eq!(parse_default_type(Some(-5), None), None);
    assert_eq!(parse_default_type(None, None), None);
}

#[test]
fn korean_dates_and_local_times() {
    assert_eq!(parse_korean_date(" 2026년 04월 23일 "), Some((2026, 4, 23)));
    assert_eq!(parse_korean_date("2026-04-23"), None);
    assert_eq!(parse_korean_date("2026년 02월 30일"), None);
    let t = parse_local_datetime("2026.04.20", Some("12:30")).unwrap();
    assert_eq!((t.year, t.month, t.day, t.hour, t.minute, t.second), (2026, 4, 20, 12, 30, 0));
    // 12:30 in Korea is 03:30 UTC
    assert_eq!(t.utc_seconds, 1776655800);
    let t = parse_local_datetime("20260420", Some("late")).unwrap();
    assert_eq!((t.hour, t.minute), (0, 0));
    assert!(parse_local_datetime("April 20", None).is_none());
}

#[test]
fn headers_and_columns() {
    assert_eq!(normalize_header(" 승인 금액\u{feff}"), "승인금액");
    assert_eq!(normalize_header("Amount"), "amount");
    let headers = strings(&["날짜", "금액 ", "메모", "금액"]);
    let map = header_map(&headers);
    // a repeated header names its last column
    assert_eq!(pick_col(&map, &["없음", "금액"]), Some(3));
    assert_eq!(pick_col(&map, &["없음"]), None);
    let row = strings(&["a", "b"]);
    assert_eq!(row_value(&row, Some(1)), "b");
    assert_eq!(row_value(&row, Some(5)), "");
    assert_eq!(row_value(&row, None), "");
    assert_eq!(ensure_column(Some(2), "없음"), Ok(2));
    assert_eq!(ensure_column(None, "날짜 열이 없습니다"), Err("날짜 열이 없습니다".to_string()));
}

#[test]
fn html_cells_and_tables() {
    assert_eq!(strip_html_tags(&chars(" <b>A&amp;B</b>&nbsp;C ")), "A&B C");
    let rows = html_table_rows("<TABLE><TR><TH>h1</TH><td>h2</td></TR><tr><td>1</td></tr></TABLE>".as_bytes()).unwrap();
    assert_eq!(rows, vec![strings(&["h1", "h2"]), strings(&["1"])]);
    assert!(html_table_rows(b"no table here").is_err());
}

#[test]
fn html_rows_at_lowered_byte_offsets() {
    // a character whose lowercase is longer, after the table, changes nothing
    let after = "<table><tr><td>가</td><td>1</td></tr></table>İ";
    assert!(html_table_readable(after.as_bytes()));
    assert_eq!(html_table_rows(after.as_bytes()).unwrap(), vec![strings(&["가", "1"])]);
    // before the table it shifts the offsets by one byte, which here still
    // cuts the row on character boundaries
    let before = "İ<table><tr><td>가</td></tr></table>";
    assert!(html_table_readable(before.as_bytes()));
    assert_eq!(html_table_rows(before.as_bytes()).unwrap(), vec![strings(&["가"])]);
    // here the shifted end of the row falls inside `가`
    let broken = "İ<table><tr><td>a</td></tr>가</table>";
    assert!(!html_table_readable(broken.as_bytes()));
}

#[test]
fn csv_records_by_delimiter() {
    assert_eq!(detect_delimiter(&chars("a\tb\nc")), b'\t');
    assert_eq!(detect_delimiter(&chars("a;b;c;d;e\n")), b';');
    assert_eq!(detect_delimiter(&chars("a,b\n")), b',');
    let (h, rows) = csv_records(b"a;b;c;d;e\n1;2;3;4;5\n").unwrap();
    assert_eq!(h, strings(&["a", "b", "c", "d", "e"]));
    assert_eq!(rows, vec![strings(&["1", "2", "3", "4", "5"])]);
    assert!(csv_records(b"a,b\n1,2,3\n").is_err());
}

#[test]
fn keyed_ids_read_back_what_was_written() {
    let mut ids = KeyedIds::new();
    ids.insert(chars("a"), 1);
    ids.insert(chars("a"), 2);
    ids.insert_if_absent(chars("a"), 3);
    ids.insert_if_absent(chars("b"), 4);
    assert_eq!(ids.get(&chars("a")), Some(2));
    assert_eq!(ids.get(&chars("b")), Some(4));
    ids.remove(&chars("a"));
    assert_eq!(ids.get(&chars("a")), None);
}

#[test]
fn accounts_are_found_by_trimmed_lower_name() {
    let index = build_account_index(&vec![(1, "Main Account".to_string()), (2, " main account ".to_string())]);
    // the later account with the same key wins
    assert_eq!(index.get(&account_key("MAIN ACCOUNT")), Some(2));
    assert_eq!(index.get(&account_key("other")), None);
}

#[test]
fn previews_and_confirmations() {
    let keys = strings(&["k1", "k2", "k3"]);
    let existing = strings(&["k2"]);
    let (dup, summary) = classify_preview_rows(&keys, &existing);
    assert_eq!(dup, vec![false, true, false]);
    assert_eq!((summary.total, summary.new_count, summary.duplicate_count, summary.error_count), (3, 2, 1, 0));
    assert_eq!(confirm_start("imported"), ConfirmStart::AlreadyImported);
    assert_eq!(confirm_start("failed"), ConfirmStart::Cancelled);
    assert_eq!(confirm_start("parsed"), ConfirmStart::Proceed);
    assert_eq!(confirmed_source_type("pasted_text"), "pasted_text");
    assert_eq!(confirmed_source_type("xlsx"), "file");
    assert_eq!(outcome_of_stored_status("new"), None);
    assert_eq!(outcome_of_stored_status("duplicate"), Some(RowOutcome::Duplicate));
    assert_eq!(outcome_of_stored_status("error"), Some(RowOutcome::Skipped));
    let mut tally = ConfirmTally::new();
    for o in [RowOutcome::Imported, RowOutcome::Imported, RowOutcome::Duplicate, RowOutcome::Failed, RowOutcome::Skipped] {
        tally.record(o);
    }
    let s = tally.summary();
    assert_eq!((s.total, s.new_count, s.duplicate_count, s.error_count), (4, 2, 1, 1));
}

#[test]
fn numbers_parse_and_write() {
    assert_eq!(parse_i64(&chars("-42")), Some(-42));
    assert_eq!(parse_i64(&chars("+7")), Some(7));
    assert_eq!(parse_i64(&chars("9223372036854775808")), None);
    assert_eq!(parse_i32(&chars("2147483647")), Some(i32::MAX));
    assert_eq!(parse_u32(&chars("-1")), None);
    assert_eq!(parse_u16(&chars("65535")), Some(65535));
    assert_eq!(parse_u16(&chars("65536")), None);
    assert_eq!(parse_i64(&chars("")), None);
    assert_eq!(i64_to_string(i64::MIN), "-9223372036854775808");
    assert_eq!(i64_to_string(0), "0");
}

#[test]
fn kream_helpers() {
    assert_eq!(normalize_value(" Nike Dunk "), "nikedunk");
    let headers = strings(&["상품명", "구매 가격(원)", "Order-ID"]);
    assert_eq!(find_col(&headers, &["구매가격"]), None);
    assert_eq!(find_col(&headers, &["구매가격원"]), Some(1));
    assert_eq!(find_col(&headers, &["orderid"]), Some(2));
    assert!(has_any(&strings(&["productname"]), &["product_name"]));
    assert_eq!(cell(&strings(&["a"]), 3), "");
    assert_eq!(require_col(Some(1), "상품명").unwrap(), 1);
    match require_col(None, "상품명") {
        Err(AppError::BadRequest(m)) => assert_eq!(m, "상품명 column is required"),
        _ => panic!("expected a bad request"),
    }
    assert_eq!(hash_key(&strings(&["a", "b"])), "0eab8a0a3380abf4c7d1fb0b43b66aafbb64a4b953e4eb2dccca579461912d0c");
    assert!(is_sheet_file(Some("sales.XLSX")));
    assert!(!is_sheet_file(Some("sales.csv")));
    assert!(!is_sheet_file(None));
}

#[test]
fn kream_sheet_header_is_found() {
    let rows = vec![
        strings(&["KREAM 판매 내역"]),
        strings(&["상품명", "구매 날짜", "정산 날짜", "구매가격", "정산 가격"]),
        strings(&["A", "2026-04-01", "2026-04-10", "1000", "2000"]),
    ];
    let (h, data) = kream_sheet_table(&rows).unwrap();
    assert_eq!(h[0], "상품명");
    assert_eq!(data.len(), 1);
    assert!(kream_sheet_table(&vec![strings(&["x"])]).is_err());
}

#[test]
fn manual_sales_get_codes_from_their_keys() {
    let d = CalendarDate { year: 2026, month: 4, day: 1 };
    let (key, code) = manual_sale_keys(1, 2, d).unwrap();
    assert_eq!(key.len(), 64);
    assert_eq!(code, format!("KREAM-20260401-{}", &key[..8]));
    let (other, _) = manual_sale_keys(1, 3, d).unwrap();
    assert_ne!(key, other);
}

#[test]
fn kream_candidates_marks_and_links() {
    let q = KreamCandidateQuery { kind: Some("settlement".to_string()), keyword: Some(" 나이키 ".to_string()), limit: Some(9999) };
    let p = plan_candidates(&q).unwrap();
    assert_eq!((p.transaction_type.as_str(), p.limit, p.pattern.as_deref()), ("income", 500, Some("%나이키%")));
    let q = KreamCandidateQuery { kind: None, keyword: None, limit: Some(0) };
    let p = plan_candidates(&q).unwrap();
    assert_eq!((p.transaction_type.as_str(), p.limit, p.pattern), ("expense", 1, None));
    assert!(plan_candidates(&KreamCandidateQuery { kind: Some("x".to_string()), keyword: None, limit: None }).is_err());

    let m = plan_mark("kream", Some("side_cost")).unwrap();
    assert_eq!((m.scope.as_str(), m.kream_kind.as_deref(), m.unlink), ("kream", Some("side_cost"), true));
    let m = plan_mark("personal", Some("purchase")).unwrap();
    assert_eq!((m.kream_kind, m.unlink), (None, true));
    let m = plan_mark("kream", Some("purchase")).unwrap();
    assert!(!m.unlink);
    assert!(plan_mark("other", None).is_err());

    assert_eq!(replaced_transaction(Some(5), 5), None);
    assert_eq!(replaced_transaction(Some(5), 6), Some(5));
    assert_eq!(replaced_transaction(None, 6), None);
}

#[test]
fn a_sale_records_its_transactions() {
    use_sale_transactions();
}

fn use_sale_transactions() {
    let csv = "상품명,구매 날짜,정산 날짜,구매가격,정산 가격,부대비용\nA,2026-04-01,2026-04-10,1000,2000,300\n";
    let (h, rows) = ledger::routes::kream::kream_csv_table(csv.as_bytes()).unwrap();
    let prepared = ledger::routes::kream::prepare_upload(&h, &rows, &Vec::new()).unwrap();
    let plans = sale_transactions(&prepared[0]);
    assert_eq!(plans.len(), 3);
    assert_eq!((plans[0].transaction_type.as_str(), plans[0].amount, plans[0].hour), ("expense", 1000, 9));
    assert_eq!((plans[1].transaction_type.as_str(), plans[1].amount, plans[1].date.day), ("income", 2000, 10));
    assert_eq!((plans[2].kream_kind.as_str(), plans[2].amount, plans[2].hour), ("side_cost", 300, 10));
    assert_eq!(plans[0].merchant_name, "KREAM purchase");
    assert_eq!(plans[0].description, "A");
    assert_ne!(plans[0].dedupe_key, plans[1].dedupe_key);
}

#[test]
fn learned_rules_keep_the_trimmed_merchant() {
    assert_eq!(learned_rule_key("  Star Bucks "), Some(("Star Bucks".to_string(), "starbucks".to_string())));
    assert_eq!(learned_rule_key("   "), None);
}

#[test]
fn webhook_fields_prefer_the_top_level() {
    let payload = TelegramWebhookPayload {
        update_id: Some(1),
        telegram_user_id: None,
        telegram_chat_id: Some("top".to_string()),
        message_text: None,
        message: Some(TelegramMessage {
            text: Some("/today".to_string()),
            chat: Some(TelegramChat { id: -100 }),
            from: Some(TelegramUser { id: 42 }),
        }),
    };
    assert_eq!(extract_message_text(&payload).as_deref(), Some("/today"));
    assert_eq!(extract_chat_id(&payload).as_deref(), Some("top"));
    assert_eq!(extract_user_id(&payload).as_deref(), Some("42"));
}

#[test]
fn error_replies() {
    let e = AppError::BadRequest("x".to_string());
    assert_eq!(e.status_code(), 400);
    assert_eq!(e.message(), "요청 데이터가 올바르지 않습니다: x");
    let (status, body) = AppError::Unauthorized.into_response();
    assert_eq!((status, body.message.as_str()), (401, "인증이 필요합니다"));
    assert_eq!(AppError::NotFound.status_code(), 404);
    assert_eq!(AppError::Forbidden.status_code(), 403);
    assert_eq!(AppError::Internal.status_code(), 500);
}
