use argon2::password_hash::{rand_core::OsRng, PasswordHasher, SaltString};
use ledger::config::{AppConfig, ConfigValues};
use ledger::errors::AppError;
use ledger::routes::asset_snapshots::{net_worth_points, net_worth_range, NetWorthQuery, SnapshotTotal};
use ledger::routes::auth::{check_login_request, plan_password_change, verify_login};
use ledger::routes::dashboard::{
    calendar_day_totals, day_period, format_card_display_name, month_period, monthly_figures, ExpenseChangeRate,
};
use ledger::routes::export::{csv_cell, export_csv, ExportRow};
use ledger::routes::telegram::{constant_time_eq, telegram_setup_reply, webhook_secret_ok, TelegramSetupRequest};
use ledger::calendar::CalendarDate;

fn hash_of(password: &str) -> String {
    let salt = SaltString::generate(&mut OsRng);
    argon2::Argon2::default().hash_password(password.as_bytes(), &salt).unwrap().to_string()
}

fn bad_request_message(e: AppError) -> String {
    match e {
        AppError::BadRequest(m) => m,
        other => panic!("expected a bad request, got {other:?}"),
    }
}

#[test]
fn month_period_of_april() {
    let p = month_period("2026-04").unwrap();
    assert_eq!(p.start, 1775001600);
    assert_eq!(p.next_start, 1777593600);
    assert_eq!(p.previous_start, 1772323200);
    assert_eq!(p.previous_month, "2026-03");
}

#[test]
fn month_period_wraps_the_year() {
    let p = month_period("2026-01").unwrap();
    assert_eq!(p.start, 1767225600);
    assert_eq!(p.next_start, 1769904000);
    assert_eq!(p.previous_start, 1764547200);
    assert_eq!(p.previous_month, "2025-12");
}

#[test]
fn month_period_refuses_other_text() {
    let m = bad_request_message(month_period("April").unwrap_err());
    assert_eq!(m, "월 형식이 올바르지 않습니다. YYYY-MM 형식으로 입력해 주세요");
    assert!(month_period("2026-13").is_err());
}

#[test]
fn day_period_is_a_korean_day() {
    assert_eq!(day_period("2026-04-22").unwrap(), (1776783600, 1776869999));
    assert!(day_period("2026/04/22").is_err());
}

#[test]
fn monthly_figures_compare_months() {
    let f = monthly_figures(1000, 5000, 500, 4000);
    assert_eq!(f.net_expense, 4000);
    assert_eq!(f.previous_net_expense, 3500);
    assert_eq!(f.income_change_amount, 500);
    assert_eq!(f.expense_change_amount, 1000);
    assert_eq!(f.net_expense_change_amount, 500);
    assert_eq!(f.expense_change_rate, ExpenseChangeRate::Ratio { change: 1000, previous: 4000 });
    assert_eq!(monthly_figures(0, 0, 0, 0).expense_change_rate, ExpenseChangeRate::Zero);
    assert_eq!(monthly_figures(0, 10, 0, 0).expense_change_rate, ExpenseChangeRate::Hundred);
}

#[test]
fn card_display_names() {
    assert_eq!(format_card_display_name(None, None), "미지정 카드");
}

#[test]
fn csv_cells_are_guarded_and_quoted() {
    assert_eq!(csv_cell("plain"), "plain");
    assert_eq!(csv_cell("=SUM(A1)"), "\"\t=SUM(A1)\"");
    assert_eq!(csv_cell("@x"), "\"\t@x\"");
    assert_eq!(csv_cell("a,b"), "\"a,b\"");
    assert_eq!(csv_cell("say \"hi\""), "\"say \"\"hi\"\"\"");
    assert_eq!(csv_cell("-1,5"), "\"\t-1,5\"");
    assert_eq!(csv_cell(""), "");
}

#[test]
fn export_has_header_and_one_line_per_row() {
    let rows = vec![ExportRow {
        transaction_at: "2026-04-20T10:00:00+09:00".to_string(),
        transaction_type: "expense".to_string(),
        amount: 4500,
        merchant_name: Some("스타벅스".to_string()),
        description: None,
        category_id: None,
        account_id: None,
        card_id: Some(1),
        card_name: Some("딥드림".to_string()),
        memo: Some("=cmd".to_string()),
        source_type: "manual".to_string(),
    }];
    let out = export_csv(&rows);
    let lines: Vec<&str> = out.lines().collect();
    assert_eq!(lines.len(), 2);
    assert!(lines[1].contains("4500"));
    assert!(lines[1].contains("스타벅스"));
    assert!(lines[1].contains("00000000-0000-0000-0000-000000000001"));
    assert!(lines[1].contains("\"\t=cmd\""));
}

#[test]
fn login_needs_a_password() {
    let m = bad_request_message(check_login_request("   ").unwrap_err());
    assert_eq!(m, "비밀번호를 입력해 주세요");
    assert!(check_login_request("secret").is_ok());
}

#[test]
fn login_checks_the_stored_hash() {
    let h = hash_of("correct horse");
    assert!(verify_login("correct horse", Some(&h)).is_ok());
    assert_eq!(verify_login("wrong", Some(&h)), Err(AppError::Unauthorized));
    assert_eq!(verify_login("correct horse", None), Err(AppError::Unauthorized));
    let m = bad_request_message(verify_login("x", Some("not a hash")).unwrap_err());
    assert_eq!(m, "비밀번호 정보를 확인할 수 없습니다");
}

#[test]
fn changed_password_signs_in() {
    let old = hash_of("old password");
    let new_hash = plan_password_change("old password", "  new password  ", Some(&old)).unwrap();
    assert!(verify_login("new password", Some(&new_hash)).is_ok());
    assert_eq!(verify_login("old password", Some(&new_hash)), Err(AppError::Unauthorized));
}

#[test]
fn password_change_errors() {
    let old = hash_of("old password");
    let m = bad_request_message(plan_password_change("old password", "short", Some(&old)).unwrap_err());
    assert_eq!(m, "새 비밀번호는 8자 이상이어야 합니다");
    let m = bad_request_message(plan_password_change("old password", " old password ", Some(&old)).unwrap_err());
    assert_eq!(m, "새 비밀번호가 현재 비밀번호와 동일합니다");
    let m = bad_request_message(plan_password_change("guess", "new password", Some(&old)).unwrap_err());
    assert_eq!(m, "현재 비밀번호가 올바르지 않습니다");
    assert_eq!(plan_password_change("guess", "new password", None), Err(AppError::Unauthorized));
}

#[test]
fn secrets_compare_by_bytes() {
    assert!(constant_time_eq(b"abc", b"abc"));
    assert!(!constant_time_eq(b"abc", b"abd"));
    assert!(!constant_time_eq(b"abc", b"ab"));
    assert!(constant_time_eq(b"", b""));
}

#[test]
fn webhook_secret_rules() {
    assert!(webhook_secret_ok(None, None));
    assert!(webhook_secret_ok(Some("s3"), Some("s3")));
    assert!(!webhook_secret_ok(Some("s3"), Some("s4")));
    assert!(!webhook_secret_ok(Some("s3"), None));
    assert!(webhook_secret_ok(Some(""), None));
}

#[test]
fn telegram_setup_answers() {
    let req = TelegramSetupRequest { bot_token: " ".to_string(), webhook_url: "https://x".to_string() };
    assert_eq!(bad_request_message(telegram_setup_reply(&req).unwrap_err()), "봇 토큰을 입력해 주세요");
    let req = TelegramSetupRequest { bot_token: "t".to_string(), webhook_url: "".to_string() };
    assert_eq!(bad_request_message(telegram_setup_reply(&req).unwrap_err()), "웹훅 URL을 입력해 주세요");
    let req = TelegramSetupRequest { bot_token: "t".to_string(), webhook_url: "https://x".to_string() };
    let resp = telegram_setup_reply(&req).unwrap();
    assert!(!resp.ok);
    assert!(resp.description.contains("수동 등록"));
}

fn values() -> ConfigValues {
    ConfigValues {
        database_url: Some("postgres://db".to_string()),
        host: None,
        port: None,
        admin_password: Some("password1".to_string()),
        session_cookie_name: None,
        cookie_secure: None,
        frontend_origin: None,
        import_dir: None,
        telegram_bot_token: Some(String::new()),
        telegram_webhook_secret: Some("sec".to_string()),
    }
}

#[test]
fn config_defaults() {
    let c: AppConfig = AppConfig::from_values(&values()).unwrap();
    assert_eq!(c.host, "0.0.0.0");
    assert_eq!(c.port, 8080);
    assert_eq!(c.session_cookie_name, "ledger_session");
    assert!(!c.cookie_secure);
    assert_eq!(c.frontend_origin, "http://localhost:5173");
    assert_eq!(c.import_dir, "./data/imports");
    assert_eq!(c.telegram_bot_token, None);
    assert_eq!(c.telegram_webhook_secret.as_deref(), Some("sec"));
    assert_eq!(c.addr_text(), "0.0.0.0:8080");
}

#[test]
fn config_reads_port_and_flag() {
    let mut v = values();
    v.port = Some("3000".to_string());
    v.cookie_secure = Some("true".to_string());
    let c = AppConfig::from_values(&v).unwrap();
    assert_eq!(c.port, 3000);
    assert!(c.cookie_secure);
    v.port = Some("abc".to_string());
    assert_eq!(AppConfig::from_values(&v).unwrap().port, 8080);
}

#[test]
fn config_requires_database_and_password() {
    let mut v = values();
    v.database_url = None;
    assert!(AppConfig::from_values(&v).is_err());
    let mut v = values();
    v.admin_password = Some("short".to_string());
    assert!(AppConfig::from_values(&v).is_err());
}

#[test]
fn net_worth_range_checks_both_days() {
    let q = NetWorthQuery { from: "2026-01-01".to_string(), to: "2026-03-31".to_string() };
    let (a, b) = net_worth_range(&q).unwrap();
    assert_eq!(a, CalendarDate { year: 2026, month: 1, day: 1 });
    assert_eq!(b, CalendarDate { year: 2026, month: 3, day: 31 });
    let q = NetWorthQuery { from: "x".to_string(), to: "2026-03-31".to_string() };
    assert_eq!(bad_request_message(net_worth_range(&q).unwrap_err()), "시작일 형식이 올바르지 않습니다");
    let q = NetWorthQuery { from: "2026-01-01".to_string(), to: "y".to_string() };
    assert_eq!(bad_request_message(net_worth_range(&q).unwrap_err()), "종료일 형식이 올바르지 않습니다");
}

#[test]
fn net_worth_sums_each_day_in_order() {
    let d1 = CalendarDate { year: 2026, month: 2, day: 1 };
    let d2 = CalendarDate { year: 2026, month: 1, day: 15 };
    let rows = vec![
        SnapshotTotal { date: d1, assets: Some(1000), liabilities: Some(300) },
        SnapshotTotal { date: d2, assets: Some(500), liabilities: None },
        SnapshotTotal { date: d1, assets: Some(200), liabilities: Some(100) },
    ];
    let points = net_worth_points(&rows);
    assert_eq!(points.len(), 2);
    assert_eq!(points[0].date, "2026-01-15");
    assert_eq!((points[0].assets, points[0].liabilities, points[0].net_worth), (500, 0, 500));
    assert_eq!(points[1].date, "2026-02-01");
    assert_eq!((points[1].assets, points[1].liabilities, points[1].net_worth), (1200, 400, 800));
}

#[test]
fn calendar_days_are_written_and_missing_totals_read_as_zero() {
    let days = vec![
        (CalendarDate { year: 2026, month: 4, day: 1 }, Some(12000)),
        (CalendarDate { year: 2026, month: 4, day: 2 }, None),
    ];
    let totals = calendar_day_totals(&days);
    assert_eq!(totals.len(), 2);
    assert_eq!((totals[0].date.as_str(), totals[0].total_expense), ("2026-04-01", 12000));
    assert_eq!((totals[1].date.as_str(), totals[1].total_expense), ("2026-04-02", 0));
}

#[test]
fn months_shift_and_compose() {
    use_shift(2026, 1, -1, (2025, 12));
    use_shift(2026, 12, 1, (2027, 1));
    use_shift(2026, 4, 0, (2026, 4));
    let (y, m) = ledger::calendar::shift_month(2026, 3, 11);
    assert_eq!(ledger::calendar::shift_month(y, m, -11), (2026, 3));
}

fn use_shift(y: i32, m: u32, d: i32, expected: (i32, u32)) {
    assert_eq!(ledger::calendar::shift_month(y, m, d), expected);
}
