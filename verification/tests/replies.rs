use ledger::calendar::CalendarDate;
use ledger::import::ImportSummary;
use ledger::telegram::commands::{AddExpensePlan, CommandKind, PendingChoice};
use ledger::telegram::replies::{
    add_expense_reply, cards_reply, choice_reply, confirmed_reply, fixed_reply, month_reply, pending_list_reply,
    today_reply, InsertOutcome, PendingImport, RecentExpense,
};

const APRIL: CalendarDate = CalendarDate { year: 2026, month: 4, day: 1 };

#[test]
fn fixed_replies() {
    assert_eq!(fixed_reply(CommandKind::Empty).as_deref(), Some("명령어를 입력해 주세요. 예: /today, /month, /add"));
    assert_eq!(
        fixed_reply(CommandKind::Unsupported).as_deref(),
        Some("지원하지 않는 명령입니다. 사용 가능: /today /month /add /cards /import /ok")
    );
    assert_eq!(fixed_reply(CommandKind::Today), None);
}

#[test]
fn add_replies() {
    let plan = AddExpensePlan::Insert { amount: 12000, merchant_name: "점심".to_string(), memo: None };
    assert_eq!(add_expense_reply(&plan, InsertOutcome::Saved), "거래를 추가했습니다.\n가맹점: 점심\n금액: 12,000원");
    assert_eq!(add_expense_reply(&plan, InsertOutcome::Duplicate), "중복 거래로 판단되어 저장하지 않았습니다.");
    assert_eq!(add_expense_reply(&AddExpensePlan::Usage, InsertOutcome::Saved), "사용법: /add 금액 가맹점 [메모]");
    assert_eq!(add_expense_reply(&AddExpensePlan::MissingMerchant, InsertOutcome::Saved), "가맹점명을 입력해 주세요.");
}

#[test]
fn month_summary_reply() {
    assert_eq!(
        month_reply(APRIL, 1500000, 3000000),
        "이번 달 요약 (2026-04)\n지출: 1,500,000원\n수입: 3,000,000원\n순지출: -1,500,000원"
    );
}

#[test]
fn today_summary_reply() {
    let day = CalendarDate { year: 2026, month: 4, day: 22 };
    assert_eq!(
        today_reply(day, 0, 0, &Vec::new()),
        "오늘 요약 (2026-04-22)\n지출: 0원\n수입: 0원\n\n오늘 등록된 지출 내역이 없습니다."
    );
    let recent = vec![
        RecentExpense { merchant_name: Some("스타벅스".to_string()), description: None, amount: 5500 },
        RecentExpense { merchant_name: None, description: Some("현금".to_string()), amount: 1000 },
        RecentExpense { merchant_name: None, description: None, amount: 300 },
    ];
    assert_eq!(
        today_reply(day, 6800, 0, &recent),
        "오늘 요약 (2026-04-22)\n지출: 6,800원\n수입: 0원\n\n최근 지출\n- 스타벅스 5,500원\n- 현금 1,000원\n- 내역 없음 300원\n"
    );
}

#[test]
fn cards_summary_reply() {
    assert_eq!(cards_reply(APRIL, &Vec::new()), "이번 달 카드 지출 내역이 없습니다.");
    let rows = vec![("딥드림".to_string(), Some(120000)), ("미지정 카드".to_string(), None)];
    assert_eq!(cards_reply(APRIL, &rows), "이번 달 카드 지출 (2026-04)\n- 딥드림 120,000원\n- 미지정 카드 0원\n");
}

#[test]
fn pending_list() {
    assert_eq!(
        pending_list_reply(&Vec::new()).as_deref(),
        Some("확정 대기 중인 가져오기가 없습니다. 먼저 파일을 가져오고 미리보기를 생성해 주세요.")
    );
    let pending = vec![PendingImport {
        id: 0xabcdef12_0000_0000_0000_000000000000,
        filename: None,
        institution: "shinhan_card".to_string(),
        parsed_count: 10,
        duplicate_count: 3,
        // 2026-04-22T00:10:00Z, 09:10 in Korea
        created_at: 1776816600,
    }];
    assert_eq!(
        pending_list_reply(&pending).as_deref(),
        Some("확정 가능한 가져오기 목록\n- 코드 abcdef12 | shinhan_card | 신규 7건 | 중복 3건 | 04-22 09:10\n\n저장하려면 /ok 코드 를 입력하세요. 코드 없이 /ok 를 입력하면 가장 최근 건을 저장합니다.")
    );
}

#[test]
fn confirm_replies() {
    assert_eq!(
        choice_reply(PendingChoice::Ambiguous).as_deref(),
        Some("코드가 여러 항목과 일치합니다. 더 긴 코드로 다시 입력해 주세요.")
    );
    assert_eq!(choice_reply(PendingChoice::Chosen(0)), None);
    let summary = ImportSummary { total: 10, new_count: 7, duplicate_count: 3, error_count: 0 };
    assert_eq!(
        confirmed_reply(Some("card.xls"), "shinhan_card", &summary),
        "가져오기를 저장했습니다.\n대상: card.xls\n신규 저장: 7건\n중복: 3건\n오류: 0건"
    );
}
