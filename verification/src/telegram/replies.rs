//! The texts the chat bot answers with, written from what the commands
//! found.
use vstd::prelude::*;

use crate::calendar::{chrono_instant_text, format_date, instant_text, CalendarDate, KST_OFFSET_SECS};
use crate::import::dedupe::{uuid_string, uuid_text};
use crate::import::ImportSummary;
use crate::numbers::{i64_to_string, int_string};
use crate::routes::kream::date_text;
use crate::telegram::commands::{won, won_spec, AddExpensePlan, CommandKind, PendingChoice};
use crate::text::{append_str, chars_of, string_of, string_of_range};

verus! {

pub open spec fn no_command_text() -> Seq<char> {
    "명령어를 입력해 주세요. 예: /today, /month, /add"@
}

pub open spec fn unsupported_text() -> Seq<char> {
    "지원하지 않는 명령입니다. 사용 가능: /today /month /add /cards /import /ok"@
}

/// The reply of a message that needs no data: the prompt where the message
/// holds no command, the list of commands where the command is unknown;
/// `None` for the commands that look things up.
pub fn fixed_reply(kind: CommandKind) -> (r: Option<String>)
    ensures
        match kind {
            CommandKind::Empty => r matches Some(s) && s@ == no_command_text(),
            CommandKind::Unsupported => r matches Some(s) && s@ == unsupported_text(),
            _ => r is None,
        },
{
    match kind {
        CommandKind::Empty => Some(string_of(&chars_of("명령어를 입력해 주세요. 예: /today, /month, /add"))),
        CommandKind::Unsupported => Some(
            string_of(&chars_of("지원하지 않는 명령입니다. 사용 가능: /today /month /add /cards /import /ok")),
        ),
        _ => None,
    }
}

/// What became of an expense the chat asked to record.
#[derive(Debug, Clone, Copy, PartialEq, Eq)]
pub enum InsertOutcome {
    Saved,
    /// The store already holds a transaction with the same key.
    Duplicate,
}

/// The reply to `/add`: why the arguments are refused, or what was recorded.
pub open spec fn add_reply_spec(plan: AddExpensePlan, outcome: InsertOutcome) -> Seq<char> {
    match plan {
        AddExpensePlan::Usage => "사용법: /add 금액 가맹점 [메모]"@,
        AddExpensePlan::InvalidAmount => "금액 형식이 올바르지 않습니다. 예: /add 12000 점심"@,
        AddExpensePlan::MissingMerchant => "가맹점명을 입력해 주세요."@,
        AddExpensePlan::Insert { amount, merchant_name, .. } => match outcome {
            InsertOutcome::Saved => "거래를 추가했습니다.\n가맹점: "@ + merchant_name@ + "\n금액: "@ + won_spec(
                amount as int,
            ),
            InsertOutcome::Duplicate => "중복 거래로 판단되어 저장하지 않았습니다."@,
        },
    }
}

/// The reply to `/add`; see `add_reply_spec`. `outcome` is only read for a
/// plan that records an expense.
pub fn add_expense_reply(plan: &AddExpensePlan, outcome: InsertOutcome) -> (r: String)
    requires
        plan matches AddExpensePlan::Insert { amount, .. } ==> amount != i64::MIN,
    ensures
        r@ == add_reply_spec(*plan, outcome),
{
    match plan {
        AddExpensePlan::Usage => string_of(&chars_of("사용법: /add 금액 가맹점 [메모]")),
        AddExpensePlan::InvalidAmount => string_of(&chars_of("금액 형식이 올바르지 않습니다. 예: /add 12000 점심")),
        AddExpensePlan::MissingMerchant => string_of(&chars_of("가맹점명을 입력해 주세요.")),
        AddExpensePlan::Insert { amount, merchant_name, .. } => match outcome {
            InsertOutcome::Saved => {
                let mut r = string_of(&chars_of("거래를 추가했습니다.\n가맹점: "));
                append_str(&mut r, merchant_name.as_str());
                append_str(&mut r, "\n금액: ");
                let w = won(*amount);
                append_str(&mut r, w.as_str());
                r
            },
            InsertOutcome::Duplicate => string_of(&chars_of("중복 거래로 판단되어 저장하지 않았습니다.")),
        },
    }
}

/// A date written with one of the layouts the date library is asked for.
fn date_string(d: CalendarDate, fmt: &str) -> (r: String)
    requires
        d.valid(),
        fmt@ == "%Y-%m-%d"@ || fmt@ == "%Y-%m"@,
    ensures
        r@ == date_text(d, fmt@),
{
    match format_date(d.year, d.month, d.day, fmt) {
        Some(t) => t,
        None => String::new(),
    }
}

/// The reply to `/month`: the month's expense, income and net expense.
pub open spec fn month_reply_spec(month_start: CalendarDate, expense: i64, income: i64) -> Seq<char> {
    "이번 달 요약 ("@ + date_text(month_start, "%Y-%m"@) + ")\n지출: "@ + won_spec(expense as int)
        + "\n수입: "@ + won_spec(income as int) + "\n순지출: "@ + won_spec(expense - income)
}

/// The reply to `/month` for the month starting on `month_start`; see
/// `month_reply_spec`.
pub fn month_reply(month_start: CalendarDate, expense: i64, income: i64) -> (r: String)
    requires
        month_start.valid(),
        expense != i64::MIN,
        income != i64::MIN,
        i64::MIN < expense - income <= i64::MAX,
    ensures
        r@ == month_reply_spec(month_start, expense, income),
{
    let mut r = string_of(&chars_of("이번 달 요약 ("));
    let label = date_string(month_start, "%Y-%m");
    append_str(&mut r, label.as_str());
    append_str(&mut r, ")\n지출: ");
    let e = won(expense);
    append_str(&mut r, e.as_str());
    append_str(&mut r, "\n수입: ");
    let i = won(income);
    append_str(&mut r, i.as_str());
    append_str(&mut r, "\n순지출: ");
    let n = won(expense - income);
    append_str(&mut r, n.as_str());
    r
}

/// A recent expense as `/today` lists it.
#[derive(Debug, Clone)]
pub struct RecentExpense {
    pub merchant_name: Option<String>,
    pub description: Option<String>,
    pub amount: i64,
}

/// The name an expense is listed under: its merchant, else its description,
/// else `내역 없음`.
pub open spec fn expense_name(e: RecentExpense) -> Seq<char> {
    match e.merchant_name {
        Some(m) => m@,
        None => match e.description {
            Some(d) => d@,
            None => "내역 없음"@,
        },
    }
}

/// One listed line: `- name amount`.
pub open spec fn listed_line(name: Seq<char>, amount: int) -> Seq<char> {
    "- "@ + name + " "@ + won_spec(amount) + "\n"@
}

pub open spec fn expense_lines(s: Seq<RecentExpense>) -> Seq<char>
    decreases s.len(),
{
    if s.len() == 0 {
        Seq::empty()
    } else {
        expense_lines(s.drop_last()) + listed_line(expense_name(s.last()), s.last().amount as int)
    }
}

/// The reply to `/today`: the day's expense and income, then the recent
/// expenses, or a note that there are none.
pub open spec fn today_reply_spec(day: CalendarDate, expense: i64, income: i64, recent: Seq<RecentExpense>) -> Seq<char> {
    "오늘 요약 ("@ + date_text(day, "%Y-%m-%d"@) + ")\n지출: "@ + won_spec(expense as int) + "\n수입: "@
        + won_spec(income as int) + "\n"@ + if recent.len() == 0 {
        "\n오늘 등록된 지출 내역이 없습니다."@
    } else {
        "\n최근 지출\n"@ + expense_lines(recent)
    }
}

/// The reply to `/today`; see `today_reply_spec`.
pub fn today_reply(day: CalendarDate, expense: i64, income: i64, recent: &Vec<RecentExpense>) -> (r: String)
    requires
        day.valid(),
        expense != i64::MIN,
        income != i64::MIN,
        forall|i: int| 0 <= i < recent@.len() ==> (#[trigger] recent@[i]).amount != i64::MIN,
    ensures
        r@ == today_reply_spec(day, expense, income, recent@),
{
    let mut r = string_of(&chars_of("오늘 요약 ("));
    let label = date_string(day, "%Y-%m-%d");
    append_str(&mut r, label.as_str());
    append_str(&mut r, ")\n지출: ");
    let e = won(expense);
    append_str(&mut r, e.as_str());
    append_str(&mut r, "\n수입: ");
    let i = won(income);
    append_str(&mut r, i.as_str());
    append_str(&mut r, "\n");
    if recent.len() == 0 {
        append_str(&mut r, "\n오늘 등록된 지출 내역이 없습니다.");
        return r;
    }
    append_str(&mut r, "\n최근 지출\n");
    let ghost head = r@;
    let mut k: usize = 0;
    assert(recent@.take(0) =~= Seq::<RecentExpense>::empty());
    while k < recent.len()
        invariant
            k <= recent@.len(),
            forall|i: int| 0 <= i < recent@.len() ==> (#[trigger] recent@[i]).amount != i64::MIN,
            r@ == head + expense_lines(recent@.take(k as int)),
        decreases recent@.len() - k,
    {
        let item = &recent[k];
        append_str(&mut r, "- ");
        match &item.merchant_name {
            Some(m) => append_str(&mut r, m.as_str()),
            None => match &item.description {
                Some(d) => append_str(&mut r, d.as_str()),
                None => append_str(&mut r, "내역 없음"),
            },
        }
        append_str(&mut r, " ");
        let w = won(item.amount);
        append_str(&mut r, w.as_str());
        append_str(&mut r, "\n");
        assert(recent@.take(k + 1).drop_last() =~= recent@.take(k as int));
        k += 1;
    }
    assert(recent@.take(recent@.len() as int) =~= recent@);
    r
}

/// A card's spending of the month as `/cards` lists it.
pub open spec fn card_lines(s: Seq<(String, Option<i64>)>) -> Seq<char>
    decreases s.len(),
{
    if s.len() == 0 {
        Seq::empty()
    } else {
        card_lines(s.drop_last()) + listed_line(
            s.last().0@,
            match s.last().1 {
                Some(v) => v as int,
                None => 0,
            },
        )
    }
}

/// The reply to `/cards`: the spending of each card listed, or a note that
/// there is none.
pub open spec fn cards_reply_spec(month_start: CalendarDate, rows: Seq<(String, Option<i64>)>) -> Seq<char> {
    if rows.len() == 0 {
        "이번 달 카드 지출 내역이 없습니다."@
    } else {
        "이번 달 카드 지출 ("@ + date_text(month_start, "%Y-%m"@) + ")\n"@ + card_lines(rows)
    }
}

/// The reply to `/cards` for the month starting on `month_start`, with the
/// cards' names and totals; see `cards_reply_spec`.
pub fn cards_reply(month_start: CalendarDate, rows: &Vec<(String, Option<i64>)>) -> (r: String)
    requires
        month_start.valid(),
        forall|i: int| 0 <= i < rows@.len() ==> (#[trigger] rows@[i]).1 != Some(i64::MIN),
    ensures
        r@ == cards_reply_spec(month_start, rows@),
{
    if rows.len() == 0 {
        return string_of(&chars_of("이번 달 카드 지출 내역이 없습니다."));
    }
    let mut r = string_of(&chars_of("이번 달 카드 지출 ("));
    let label = date_string(month_start, "%Y-%m");
    append_str(&mut r, label.as_str());
    append_str(&mut r, ")\n");
    let ghost head = r@;
    let mut k: usize = 0;
    assert(rows@.take(0) =~= Seq::<(String, Option<i64>)>::empty());
    while k < rows.len()
        invariant
            k <= rows@.len(),
            forall|i: int| 0 <= i < rows@.len() ==> (#[trigger] rows@[i]).1 != Some(i64::MIN),
            r@ == head + card_lines(rows@.take(k as int)),
        decreases rows@.len() - k,
    {
        let row = &rows[k];
        append_str(&mut r, "- ");
        append_str(&mut r, row.0.as_str());
        append_str(&mut r, " ");
        let amount: i64 = match row.1 {
            Some(v) => v,
            None => 0,
        };
        let w = won(amount);
        append_str(&mut r, w.as_str());
        append_str(&mut r, "\n");
        assert(rows@.take(k + 1).drop_last() =~= rows@.take(k as int));
        k += 1;
    }
    assert(rows@.take(rows@.len() as int) =~= rows@);
    r
}

/// An import waiting to be confirmed, as `/import` lists it.
#[derive(Debug, Clone)]
pub struct PendingImport {
    pub id: u128,
    pub filename: Option<String>,
    pub institution: String,
    pub parsed_count: i32,
    pub duplicate_count: i32,
    /// When it was made, in seconds since the Unix epoch.
    pub created_at: i64,
}

/// The short code of an import: the first eight characters of its id.
pub open spec fn short_code(id: u128) -> Seq<char> {
    uuid_text(id).take(8)
}

/// An import's title: its file name, else its institution.
pub open spec fn import_title(filename: Option<String>, institution: String) -> Seq<char> {
    match filename {
        Some(f) => f@,
        None => institution@,
    }
}

/// `parsed - duplicate`, kept within `i32`.
pub open spec fn new_rows(parsed: i32, duplicate: i32) -> int {
    let d = parsed - duplicate;
    if d < i32::MIN {
        i32::MIN as int
    } else if d > i32::MAX {
        i32::MAX as int
    } else {
        d
    }
}

/// The time an import was made, as the list writes it in Korean time.
pub open spec fn created_label(secs: i64) -> Option<Seq<char>> {
    chrono_instant_text(secs, KST_OFFSET_SECS, "%m-%d %H:%M"@)
}

pub open spec fn pending_line(p: PendingImport, label: Seq<char>) -> Seq<char> {
    "- 코드 "@ + short_code(p.id) + " | "@ + import_title(p.filename, p.institution) + " | 신규 "@
        + int_string(new_rows(p.parsed_count, p.duplicate_count)) + "건 | 중복 "@ + int_string(
        p.duplicate_count as int,
    ) + "건 | "@ + label + "\n"@
}

/// The lines of the list, or `None` where a time cannot be written.
pub open spec fn pending_lines(s: Seq<PendingImport>) -> Option<Seq<char>>
    decreases s.len(),
{
    if s.len() == 0 {
        Some(Seq::empty())
    } else {
        match (pending_lines(s.drop_last()), created_label(s.last().created_at)) {
            (Some(head), Some(label)) => Some(head + pending_line(s.last(), label)),
            _ => None,
        }
    }
}

pub open spec fn pending_list_spec(s: Seq<PendingImport>) -> Option<Seq<char>> {
    if s.len() == 0 {
        Some("확정 대기 중인 가져오기가 없습니다. 먼저 파일을 가져오고 미리보기를 생성해 주세요."@)
    } else {
        match pending_lines(s) {
            Some(lines) => Some(
                "확정 가능한 가져오기 목록\n"@ + lines
                    + "\n저장하려면 /ok 코드 를 입력하세요. 코드 없이 /ok 를 입력하면 가장 최근 건을 저장합니다."@,
            ),
            None => None,
        }
    }
}

/// One line of the `/import` list; see `pending_line`.
fn pending_line_text(p: &PendingImport, label: &str) -> (r: String)
    ensures
        r@ == pending_line(*p, label@),
{
    let mut r = string_of(&chars_of("- 코드 "));
    let id = chars_of(uuid_string(p.id).as_str());
    let code = string_of_range(&id, 0, if id.len() < 8 { id.len() } else { 8 });
    assert(code@ =~= short_code(p.id));
    append_str(&mut r, code.as_str());
    append_str(&mut r, " | ");
    match &p.filename {
        Some(f) => append_str(&mut r, f.as_str()),
        None => append_str(&mut r, p.institution.as_str()),
    }
    append_str(&mut r, " | 신규 ");
    let fresh: i64 = p.parsed_count as i64 - p.duplicate_count as i64;
    let fresh: i64 = if fresh < i32::MIN as i64 {
        i32::MIN as i64
    } else if fresh > i32::MAX as i64 {
        i32::MAX as i64
    } else {
        fresh
    };
    let n = i64_to_string(fresh);
    append_str(&mut r, n.as_str());
    append_str(&mut r, "건 | 중복 ");
    let d = i64_to_string(p.duplicate_count as i64);
    append_str(&mut r, d.as_str());
    append_str(&mut r, "건 | ");
    append_str(&mut r, label);
    append_str(&mut r, "\n");
    r
}

/// The reply to `/import`: the imports waiting to be confirmed, newest
/// first, each with its code, title, new and duplicate rows and the time it
/// was made; see `pending_list_spec`. `None` where the date library cannot
/// write one of the times.
pub fn pending_list_reply(pending: &Vec<PendingImport>) -> (r: Option<String>)
    ensures
        match pending_list_spec(pending@) {
            Some(t) => r matches Some(s) && s@ == t,
            None => r is None,
        },
{
    if pending.len() == 0 {
        return Some(
            string_of(&chars_of("확정 대기 중인 가져오기가 없습니다. 먼저 파일을 가져오고 미리보기를 생성해 주세요.")),
        );
    }
    let mut r = string_of(&chars_of("확정 가능한 가져오기 목록\n"));
    let ghost head = r@;
    let mut k: usize = 0;
    assert(pending@.take(0) =~= Seq::<PendingImport>::empty());
    while k < pending.len()
        invariant
            k <= pending@.len(),
            pending_lines(pending@.take(k as int)) matches Some(lines) && r@ == head + lines,
        decreases pending@.len() - k,
    {
        let p = &pending[k];
        assert(pending@.take(k + 1).drop_last() =~= pending@.take(k as int));
        let label = match instant_text(p.created_at, KST_OFFSET_SECS, "%m-%d %H:%M") {
            Some(t) => t,
            None => {
                proof {
                    lemma_pending_lines_none(pending@, k as int + 1);
                }
                return None;
            },
        };
        let line = pending_line_text(p, label.as_str());
        append_str(&mut r, line.as_str());
        k += 1;
    }
    assert(pending@.take(pending@.len() as int) =~= pending@);
    append_str(&mut r, "\n저장하려면 /ok 코드 를 입력하세요. 코드 없이 /ok 를 입력하면 가장 최근 건을 저장합니다.");
    Some(r)
}

/// Once a time cannot be written, no longer list can be written either.
proof fn lemma_pending_lines_none(s: Seq<PendingImport>, k: int)
    requires
        0 < k <= s.len(),
        created_label(s[k - 1].created_at) is None,
    ensures
        pending_lines(s) is None,
    decreases s.len(),
{
    if s.len() > k {
        lemma_pending_lines_none(s.drop_last(), k);
        assert(s.drop_last()[k - 1] == s[k - 1]);
    } else {
        assert(s.drop_last().len() == k - 1);
    }
}

/// The reply to `/ok` where no import is picked; `None` where one is.
pub open spec fn choice_reply_spec(choice: PendingChoice) -> Option<Seq<char>> {
    match choice {
        PendingChoice::NothingPending => Some("확정할 가져오기 항목이 없습니다. /import 로 목록을 확인해 주세요."@),
        PendingChoice::NoMatch => Some("해당 코드를 찾을 수 없습니다. /import 로 코드를 확인해 주세요."@),
        PendingChoice::Ambiguous => Some("코드가 여러 항목과 일치합니다. 더 긴 코드로 다시 입력해 주세요."@),
        PendingChoice::Chosen(_) => None,
    }
}

/// The reply to `/ok` where no import is picked; see `choice_reply_spec`.
pub fn choice_reply(choice: PendingChoice) -> (r: Option<String>)
    ensures
        match choice_reply_spec(choice) {
            Some(t) => r matches Some(s) && s@ == t,
            None => r is None,
        },
{
    match choice {
        PendingChoice::NothingPending => Some(
            string_of(&chars_of("확정할 가져오기 항목이 없습니다. /import 로 목록을 확인해 주세요.")),
        ),
        PendingChoice::NoMatch => Some(string_of(&chars_of("해당 코드를 찾을 수 없습니다. /import 로 코드를 확인해 주세요."))),
        PendingChoice::Ambiguous => Some(
            string_of(&chars_of("코드가 여러 항목과 일치합니다. 더 긴 코드로 다시 입력해 주세요.")),
        ),
        PendingChoice::Chosen(_) => None,
    }
}

/// The reply once an import is saved: its title and its counts.
pub open spec fn confirmed_reply_spec(title: Seq<char>, summary: ImportSummary) -> Seq<char> {
    "가져오기를 저장했습니다.\n대상: "@ + title + "\n신규 저장: "@ + int_string(summary.new_count as int)
        + "건\n중복: "@ + int_string(summary.duplicate_count as int) + "건\n오류: "@ + int_string(
        summary.error_count as int,
    ) + "건"@
}

/// The reply once an import is saved; its title is its file name, else its
/// institution; see `confirmed_reply_spec`.
pub fn confirmed_reply(filename: Option<&str>, institution: &str, summary: &ImportSummary) -> (r: String)
    ensures
        r@ == confirmed_reply_spec(
            match filename {
                Some(f) => f@,
                None => institution@,
            },
            *summary,
        ),
{
    let mut r = string_of(&chars_of("가져오기를 저장했습니다.\n대상: "));
    match filename {
        Some(f) => append_str(&mut r, f),
        None => append_str(&mut r, institution),
    }
    append_str(&mut r, "\n신규 저장: ");
    let n = i64_to_string(summary.new_count as i64);
    append_str(&mut r, n.as_str());
    append_str(&mut r, "건\n중복: ");
    let d = i64_to_string(summary.duplicate_count as i64);
    append_str(&mut r, d.as_str());
    append_str(&mut r, "건\n오류: ");
    let e = i64_to_string(summary.error_count as i64);
    append_str(&mut r, e.as_str());
    append_str(&mut r, "건");
    r
}

} // verus!
