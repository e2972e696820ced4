use ledger::import::hyundai_card::HyundaiCardParser;
use ledger::import::parser::DetectInput;
use ledger::import::pasted_text::PastedCsvTextParser;
use ledger::import::samsung_card::SamsungCardParser;
use ledger::import::shinhan_bank::ShinhanBankParser;
use ledger::import::shinhan_card::ShinhanCardParser;

#[test]
fn detect_score_hyundai() {
    let parser = HyundaiCardParser;
    let score = parser.detect(&DetectInput {
        filename: Some("hyundaicard_20260424.xls"),
        sample_text: Some("이용일자,카드명(카드뒤4자리),가맹점명,이용금액"),
        content: b"",
    });
    assert!(score > 50, "score={score}");
}

#[test]
fn pasted_parser_works() {
    let text = "날짜,시간,가맹점,금액,카드\n2026-04-22,09:10,스타벅스,5500,딥드림\n";
    let parser = PastedCsvTextParser;
    let rows = parser.parse(text.as_bytes()).unwrap();
    assert_eq!(rows.len(), 1);
    assert_eq!(rows[0].amount, 5500);
    assert_eq!(rows[0].merchant_name.as_deref(), Some("스타벅스"));
}

#[test]
fn detect_score_samsung() {
    let parser = SamsungCardParser;
    let score = parser.detect(&DetectInput {
        filename: Some("samsung.xlsx"),
        sample_text: Some("승인일자,승인시각,가맹점명,승인금액(원),취소여부"),
        content: b"",
    });
    assert!(score > 50, "score={score}");
}

#[test]
fn shinhan_bank_parser_works() {
    let csv = "거래일자,거래시간,적요,출금(원),입금(원),내용,잔액(원),거래점\n2026-04-21,08:30:00,카드결제,12000,0,편의점,100000,모바일\n2026-04-21,09:00:00,급여,0,2500000,회사,2600000,인터넷\n";
    let parser = ShinhanBankParser;
    let rows = parser.parse(csv.as_bytes()).unwrap();
    assert_eq!(rows.len(), 2);
    assert_eq!(rows[0].kind, "expense");
    assert_eq!(rows[0].amount, 12000);
    assert_eq!(rows[1].kind, "income");
    assert_eq!(rows[1].amount, 2500000);
}

#[test]
fn detect_score_shinhan_xls() {
    let parser = ShinhanCardParser;
    let score = parser.detect(&DetectInput {
        filename: Some("Shinhancard_20260424.xls"),
        sample_text: Some("거래일,가맹점명,금액,취소상태"),
        content: b"",
    });
    assert!(score > 50, "score={score}");
}

#[test]
fn pasted_rows_keep_time_card_and_kst_instant() {
    let text = "날짜,시간,가맹점,금액,카드\n2026-04-22,09:10,스타벅스,5500,딥드림\n";
    let rows = PastedCsvTextParser.parse(text.as_bytes()).unwrap();
    let at = rows[0].transaction_at;
    assert_eq!((at.year, at.month, at.day, at.hour, at.minute), (2026, 4, 22, 9, 10));
    // 2026-04-22T00:10:00Z
    assert_eq!(at.utc_seconds, 1776816600);
    assert_eq!(rows[0].card_name.as_deref(), Some("딥드림"));
    assert_eq!(rows[0].kind, "expense");
}

#[test]
fn pasted_parser_reports_missing_columns() {
    let text = "가맹점,금액\n스타벅스,5500\n";
    assert!(PastedCsvTextParser.parse(text.as_bytes()).is_err());
}

#[test]
fn bank_rows_with_no_amount_are_skipped() {
    let csv = "거래일자,거래시간,적요,출금(원),입금(원),내용,잔액(원),거래점\n2026-04-21,08:30:00,메모,0,0,없음,100000,모바일\n";
    let rows = ShinhanBankParser.parse(csv.as_bytes()).unwrap();
    assert!(rows.is_empty());
}

#[test]
fn unrelated_file_scores_low() {
    let score = HyundaiCardParser.detect(&DetectInput {
        filename: Some("notes.txt"),
        sample_text: Some("hello"),
        content: b"",
    });
    assert!(score < 50, "score={score}");
}

#[test]
fn hyundai_html_statement_parses() {
    let html = "<html><table><tr><td>이용일자</td><td>카드명(카드뒤4자리)</td><td>가맹점명</td><td>이용금액</td></tr>\
<tr><td>2026.04.19</td><td>x</td><td>건너뜀</td><td>1</td></tr><tr><td>2026년 04월 20일</td><td>현대카드M(1234)</td><td>스타벅스</td><td>4,500</td></tr></table></html>";
    let rows = HyundaiCardParser.parse(html.as_bytes()).unwrap();
    assert_eq!(rows.len(), 1);
    assert_eq!(rows[0].amount, 4500);
    assert_eq!(rows[0].merchant_name.as_deref(), Some("스타벅스"));
    assert_eq!(rows[0].source_institution, "hyundai_card");
}

#[test]
fn shinhan_card_rows_and_amount_check() {
    let rows: Vec<Vec<String>> = vec![
        vec!["거래일", "가맹점명", "금액", "취소상태"],
        vec!["2026.04.20 12:30", "스타벅스", "-4,500", ""],
        vec!["2026.04.21", "GS25", "1,200", "취소"],
    ]
    .into_iter()
    .map(|r| r.into_iter().map(String::from).collect())
    .collect();
    assert!(ShinhanCardParser.amounts_fit_check(&rows));
    let parsed = ShinhanCardParser.parse_rows(&rows).unwrap();
    assert_eq!(parsed.len(), 1);
    assert_eq!(parsed[0].amount, 4500);
    assert_eq!((parsed[0].transaction_at.hour, parsed[0].transaction_at.minute), (12, 30));
    let mut bad = rows.clone();
    bad[1][2] = i64::MIN.to_string();
    assert!(!ShinhanCardParser.amounts_fit_check(&bad));
}
