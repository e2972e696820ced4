//! Card statements of Shinhan Card, as spreadsheet rows.
use vstd::prelude::*;

use crate::calendar::LocalDateTime;
use crate::import::parser::{
    amount_spec, cell_spec, collect_rows, find_header_row, header_map, header_map_spec,
    header_row_spec, headers_message, local_datetime_spec, lowered_filename, lowered_name,
    marker_count, marker_score, nonempty, opt_nonempty, parse_amount, parse_local_datetime,
    pick_col, pick_col_spec, preview_message, preview_spec, row_value, rows_view, sample_of,
    sample_spec, strs_view, table_view, trimmed_cell, DetectInput, ParsedRow, ParsedRowView,
    lemma_collect_rows_origin,
};
use crate::text::{
    chars_of, contains, contains_seq, ends_with, ends_with_seq, find_from, find_from_spec,
    join_seq, string_of, strings_view, sub_chars, trim_seq,
};

verus! {

/// Reads Shinhan Card statements.
#[derive(Debug, Default, Clone, Copy)]
pub struct ShinhanCardParser;

/// The columns of a Shinhan Card statement; only the date is required.
#[derive(Debug, Clone, Copy, PartialEq, Eq)]
pub struct ShinhanCardColumns {
    pub date: usize,
    pub merchant: Option<usize>,
    pub amount: Option<usize>,
    pub card_name: Option<usize>,
    pub approval: Option<usize>,
    pub cancel: Option<usize>,
    pub installment: Option<usize>,
}

pub open spec fn header_markers() -> Seq<Seq<char>> {
    seq!["이용일자"@, "승인일자"@, "거래일"@, "매출일"@, "가맹점"@, "이용금액"@]
}

pub open spec fn sample_markers() -> Seq<Seq<char>> {
    seq!["거래일"@, "이용일자"@, "승인일자"@, "가맹점"@, "이용금액"@, "승인금액"@, "승인번호"@]
}

/// The detection score in hundredths: 50 for a Shinhan file name, 20 for a
/// spreadsheet extension, 5 for each marker in the sample, at most 100.
pub open spec fn detect_spec(input: DetectInput) -> u32 {
    let name_part: int = match lowered_name(input) {
        Some(n) => (if contains_seq(n, "shinhan"@) || contains_seq(n, "신한"@) {
            50int
        } else {
            0int
        }) + (if ends_with_seq(n, ".xls"@) || ends_with_seq(n, ".xlsx"@) {
            20int
        } else {
            0int
        }),
        None => 0,
    };
    let total = name_part + 5 * marker_count(sample_spec(input), sample_markers());
    if total > 100 {
        100
    } else {
        total as u32
    }
}

pub open spec fn col(m: Map<Seq<char>, u128>, cands: Seq<&str>) -> Option<usize> {
    pick_col_spec(m, cands)
}

pub open spec fn date_cands() -> Seq<&'static str> {
    seq!["거래일", "승인일자", "이용일자", "일자", "날짜", "매출일"]
}

/// The columns that the header names, or `None` without a date column.
pub open spec fn columns_spec(m: Map<Seq<char>, u128>) -> Option<ShinhanCardColumns> {
    match col(m, date_cands()) {
        None => None,
        Some(d) => Some(
            ShinhanCardColumns {
                date: d,
                merchant: col(m, seq!["가맹점명", "가맹점", "이용처", "가맹점/ATM명"]),
                amount: col(m, seq!["금액", "승인금액", "이용금액", "거래금액", "매출금액"]),
                card_name: col(m, seq!["이용카드", "카드명", "카드"]),
                approval: col(m, seq!["승인번호", "승인no", "approval"]),
                cancel: col(m, seq!["취소상태", "취소여부", "승인취소", "취소", "매입구분"]),
                installment: col(m, seq!["이용구분", "할부", "할부개월"]),
            },
        ),
    }
}

/// When the date cell holds a date and time separated by a space.
pub open spec fn row_datetime(date_raw: Seq<char>) -> Option<LocalDateTime> {
    match find_from_spec(date_raw, seq![' '], 0) {
        Some(p) => local_datetime_spec(date_raw.take(p), Some(date_raw.skip(p + 1))),
        None => local_datetime_spec(date_raw, None),
    }
}

/// A cancelled transaction.
pub open spec fn is_cancelled(cancel_text: Seq<char>) -> bool {
    cancel_text == "취소"@ || contains_seq(cancel_text, "취소"@) || cancel_text == "Y"@
        || cancel_text == "y"@
}

/// The date and signed amount of a row that becomes a transaction: one with
/// a readable date, a non-zero amount, and not cancelled.
pub open spec fn row_gate(row: Seq<Seq<char>>, c: ShinhanCardColumns) -> Option<(LocalDateTime, i64)> {
    let date_raw = trim_seq(cell_spec(row, Some(c.date)));
    if date_raw.len() == 0 {
        None
    } else {
        match row_datetime(date_raw) {
            None => None,
            Some(t) => match amount_spec(cell_spec(row, c.amount)) {
                Some(v) => if v == 0 {
                    None
                } else if is_cancelled(trim_seq(cell_spec(row, c.cancel))) {
                    None
                } else {
                    Some((t, v))
                },
                None => None,
            },
        }
    }
}

/// The transaction a row becomes: an expense of the amount's magnitude.
pub open spec fn row_spec(row: Seq<Seq<char>>, c: ShinhanCardColumns) -> Option<ParsedRowView> {
    match row_gate(row, c) {
        None => None,
        Some((t, v)) => Some(
            ParsedRowView {
                transaction_at: t,
                kind: "expense"@,
                amount: (if v < 0 {
                    -v
                } else {
                    v as int
                }) as i64,
                merchant_name: nonempty(trim_seq(cell_spec(row, c.merchant))),
                description: nonempty(trim_seq(cell_spec(row, c.installment))),
                account_name: None,
                card_name: nonempty(trim_seq(cell_spec(row, c.card_name))),
                source_institution: "shinhan_card"@,
                balance_after: None,
                approval_number: nonempty(trim_seq(cell_spec(row, c.approval))),
                branch_or_channel: None,
            },
        ),
    }
}

pub open spec fn header_missing_prefix() -> Seq<char> {
    "신한카드 헤더 행을 찾을 수 없습니다. 파일의 첫 행들:\n"@
}

pub open spec fn date_missing_prefix() -> Seq<char> {
    "날짜 열을 찾을 수 없습니다. 인식된 헤더: "@
}

pub open spec fn row_fn(c: ShinhanCardColumns) -> spec_fn(Seq<Seq<char>>) -> Option<ParsedRowView> {
    |row: Seq<Seq<char>>| row_spec(row, c)
}

/// The transactions of a statement, or why it cannot be read.
pub open spec fn parse_spec(t: Seq<Seq<Seq<char>>>) -> Result<Seq<ParsedRowView>, Seq<char>> {
    if t.len() == 0 {
        Err("엑셀 데이터가 비어 있습니다"@)
    } else {
        match header_row_spec(t, header_markers(), true) {
            None => Err(header_missing_prefix() + preview_spec(t)),
            Some(h) => match columns_spec(header_map_spec(t[h])) {
                None => Err(date_missing_prefix() + join_seq(t[h], ", "@)),
                Some(c) => Ok(collect_rows(t.skip(h + 1), row_fn(c))),
            },
        }
    }
}

/// No row that becomes a transaction has the one amount whose magnitude does
/// not fit.
pub open spec fn amounts_fit(t: Seq<Seq<Seq<char>>>) -> bool {
    match header_row_spec(t, header_markers(), true) {
        None => true,
        Some(h) => match columns_spec(header_map_spec(t[h])) {
            None => true,
            Some(c) => forall|k: int|
                h < k < t.len() ==> match row_gate(#[trigger] t[k], c) {
                    Some((_, v)) => v != i64::MIN,
                    None => true,
                },
        },
    }
}

/// No transaction of a Shinhan Card statement comes from a cancelled
/// approval: each is read from a row below the header whose cancel cell,
/// trimmed, is neither `Y` nor `y` and does not hold `취소`, and whose
/// amount is not zero; each is an expense.
pub proof fn lemma_shinhan_no_cancelled_rows(t: Seq<Seq<Seq<char>>>)
    ensures
        parse_spec(t) matches Ok(v) ==> {
            let h = header_row_spec(t, header_markers(), true)->0;
            let c = columns_spec(header_map_spec(t[h]))->0;
            forall|i: int|
                0 <= i < v.len() ==> (#[trigger] v[i]).kind == "expense"@ && exists|k: int|
                    #![trigger t[k]]
                    {
                        let x = trim_seq(cell_spec(t[k], c.cancel));
                        &&& h < k < t.len()
                        &&& x != "Y"@
                        &&& x != "y"@
                        &&& !contains_seq(x, "취소"@)
                        &&& amount_spec(cell_spec(t[k], c.amount)) matches Some(a) && a != 0
                        &&& row_spec(t[k], c) == Some(v[i])
                    }
        },
{
    if parse_spec(t) is Ok {
        let h = header_row_spec(t, header_markers(), true)->0;
        let c = columns_spec(header_map_spec(t[h]))->0;
        let rows = t.skip(h + 1);
        let v = collect_rows(rows, row_fn(c));
        assert forall|i: int| 0 <= i < v.len() implies (#[trigger] v[i]).kind == "expense"@ && exists|k: int|
            #![trigger t[k]]
            {
                let x = trim_seq(cell_spec(t[k], c.cancel));
                &&& h < k < t.len()
                &&& x != "Y"@
                &&& x != "y"@
                &&& !contains_seq(x, "취소"@)
                &&& amount_spec(cell_spec(t[k], c.amount)) matches Some(a) && a != 0
                &&& row_spec(t[k], c) == Some(v[i])
            } by {
            lemma_collect_rows_origin(rows, row_fn(c), i);
            let k = choose|k: int| 0 <= k < rows.len() && row_fn(c)(rows[k]) == Some(v[i]);
            assert(row_spec(rows[k], c) == Some(v[i]));
            assert(rows[k] == t[h + 1 + k]);
            assert(row_gate(t[h + 1 + k], c) is Some);
        }
    }
}

/// Each transaction of a Shinhan Card statement is an expense of the
/// magnitude of its row's amount, so always positive: a negative amount
/// (as some statements write charges) is spent all the same.
pub proof fn lemma_shinhan_amount_magnitude(t: Seq<Seq<Seq<char>>>)
    requires
        amounts_fit(t),
    ensures
        parse_spec(t) matches Ok(v) ==> {
            let h = header_row_spec(t, header_markers(), true)->0;
            let c = columns_spec(header_map_spec(t[h]))->0;
            forall|i: int|
                0 <= i < v.len() ==> (#[trigger] v[i]).amount > 0 && exists|k: int|
                    #![trigger t[k]]
                    h < k < t.len() && (amount_spec(cell_spec(t[k], c.amount)) matches Some(a) && v[i].amount == (
                    if a < 0 {
                        -a
                    } else {
                        a as int
                    }))
        },
{
    if parse_spec(t) is Ok {
        let h = header_row_spec(t, header_markers(), true)->0;
        let c = columns_spec(header_map_spec(t[h]))->0;
        let rows = t.skip(h + 1);
        let v = collect_rows(rows, row_fn(c));
        assert forall|i: int| 0 <= i < v.len() implies (#[trigger] v[i]).amount > 0 && exists|k: int|
            #![trigger t[k]]
            h < k < t.len() && (amount_spec(cell_spec(t[k], c.amount)) matches Some(a) && v[i].amount == (
            if a < 0 {
                -a
            } else {
                a as int
            })) by {
            lemma_collect_rows_origin(rows, row_fn(c), i);
            let k = choose|k: int| 0 <= k < rows.len() && row_fn(c)(rows[k]) == Some(v[i]);
            assert(row_spec(rows[k], c) == Some(v[i]));
            assert(rows[k] == t[h + 1 + k]);
            assert(row_gate(t[h + 1 + k], c) is Some);
            assert(match row_gate(t[h + 1 + k], c) {
                Some((_, a)) => a != i64::MIN,
                None => true,
            });
        }
    }
}

fn datetime_of(date_raw: &Vec<char>) -> (r: Option<LocalDateTime>)
    ensures
        r == row_datetime(date_raw@),
{
    let sp: Vec<char> = vec![' '];
    assert(sp@ =~= seq![' ']);
    match find_from(date_raw, &sp, 0) {
        Some(p) => {
            assert(crate::text::occurs_at(date_raw@, sp@, p as int));
            assert(sp@.len() == 1);
            assert(p < date_raw.len());
            let head = string_of(&sub_chars(date_raw, 0, p));
            let tail = string_of(&sub_chars(date_raw, p + 1, date_raw.len()));
            assert(head@ =~= date_raw@.take(p as int));
            assert(tail@ =~= date_raw@.skip(p + 1));
            parse_local_datetime(head.as_str(), Some(tail.as_str()))
        },
        None => {
            let s = string_of(date_raw);
            parse_local_datetime(s.as_str(), None)
        },
    }
}

fn cancelled(text: &Vec<char>) -> (b: bool)
    ensures
        b == is_cancelled(text@),
{
    crate::text::chars_eq(text, &chars_of("취소")) || contains(text, &chars_of("취소"))
        || crate::text::chars_eq(text, &chars_of("Y")) || crate::text::chars_eq(text, &chars_of("y"))
}

/// The signed amount of a row that becomes a transaction; see `row_gate`.
fn gate_amount(row: &Vec<String>, c: ShinhanCardColumns) -> (r: Option<i64>)
    ensures
        r == match row_gate(strings_view(row@), c) {
            Some((_, v)) => Some(v),
            None => None,
        },
{
    let date_raw = trimmed_cell(row.as_slice(), Some(c.date));
    if date_raw.len() == 0 {
        return None;
    }
    if datetime_of(&date_raw).is_none() {
        return None;
    }
    let amount = match parse_amount(row_value(row.as_slice(), c.amount)) {
        Some(v) => v,
        None => return None,
    };
    if amount == 0 {
        return None;
    }
    let cancel_text = trimmed_cell(row.as_slice(), c.cancel);
    if cancelled(&cancel_text) {
        return None;
    }
    Some(amount)
}

fn read_row(row: &Vec<String>, c: ShinhanCardColumns) -> (r: Option<ParsedRow>)
    requires
        match row_gate(strings_view(row@), c) {
            Some((_, v)) => v != i64::MIN,
            None => true,
        },
    ensures
        match row_spec(strings_view(row@), c) {
            Some(v) => r matches Some(p) && p.view() == v,
            None => r is None,
        },
{
    let date_raw = trimmed_cell(row.as_slice(), Some(c.date));
    if date_raw.len() == 0 {
        return None;
    }
    let transaction_at = match datetime_of(&date_raw) {
        Some(v) => v,
        None => return None,
    };
    let amount = match parse_amount(row_value(row.as_slice(), c.amount)) {
        Some(v) => if v != 0 {
            v
        } else {
            return None;
        },
        None => return None,
    };
    let cancel_text = trimmed_cell(row.as_slice(), c.cancel);
    if cancelled(&cancel_text) {
        return None;
    }
    let merchant_name = trimmed_cell(row.as_slice(), c.merchant);
    let card_name = trimmed_cell(row.as_slice(), c.card_name);
    let approval_number = trimmed_cell(row.as_slice(), c.approval);
    let installment = trimmed_cell(row.as_slice(), c.installment);
    let magnitude: i64 = if amount < 0 {
        -amount
    } else {
        amount
    };
    Some(
        ParsedRow {
            transaction_at,
            kind: string_of(&chars_of("expense")),
            amount: magnitude,
            merchant_name: opt_nonempty(&merchant_name),
            description: opt_nonempty(&installment),
            account_name: None,
            card_name: opt_nonempty(&card_name),
            source_institution: string_of(&chars_of("shinhan_card")),
            balance_after: None,
            approval_number: opt_nonempty(&approval_number),
            branch_or_channel: None,
        },
    )
}

impl ShinhanCardParser {
    pub fn name(&self) -> (s: &'static str)
        ensures
            s@ == "shinhan_card"@,
    {
        "shinhan_card"
    }

    /// How likely the file is a Shinhan Card statement, in hundredths.
    pub fn detect(&self, input: &DetectInput) -> (score: u32)
        ensures
            score == detect_spec(*input),
            score <= 100,
    {
        let mut score: u32 = 0;
        match lowered_filename(input) {
            Some(n) => {
                if contains(&n, &chars_of("shinhan")) || contains(&n, &chars_of("신한")) {
                    score = score + 50;
                }
                if ends_with(&n, &chars_of(".xls")) || ends_with(&n, &chars_of(".xlsx")) {
                    score = score + 20;
                }
            },
            None => {},
        }
        let sample = sample_of(input);
        let markers: [&str; 7] = ["거래일", "이용일자", "승인일자", "가맹점", "이용금액", "승인금액", "승인번호"];
        assert(strs_view(markers@) =~= sample_markers());
        let m = marker_score(&sample, &markers, 5);
        proof {
            assert(marker_count(sample@, sample_markers()) <= 7) by {
                crate::import::parser::lemma_marker_count_le(sample@, sample_markers());
            }
        }
        let total = score + m;
        if total > 100 {
            100
        } else {
            total
        }
    }

    /// Whether the rows meet `amounts_fit`, which `parse_rows` needs: no
    /// row that becomes a transaction has the amount `i64::MIN`.
    pub fn amounts_fit_check(&self, rows: &Vec<Vec<String>>) -> (b: bool)
        ensures
            b == amounts_fit(table_view(rows@)),
    {
        let ghost t = table_view(rows@);
        let header_markers_arr: [&str; 6] = ["이용일자", "승인일자", "거래일", "매출일", "가맹점", "이용금액"];
        assert(strs_view(header_markers_arr@) =~= header_markers());
        let h = match find_header_row(rows, &header_markers_arr, true) {
            Some(h) => h,
            None => return true,
        };
        let headers = &rows[h];
        assert(h < rows.len());
        assert(t[h as int] == strings_view(headers@));
        let map = header_map(headers.as_slice());
        let d: [&str; 6] = ["거래일", "승인일자", "이용일자", "일자", "날짜", "매출일"];
        assert(d@ =~= date_cands());
        let date = match pick_col(&map, &d) {
            Some(i) => i,
            None => {
                assert(columns_spec(header_map_spec(t[h as int])) is None);
                return true;
            },
        };
        let c = ShinhanCardColumns {
            date,
            merchant: pick_col(&map, &["가맹점명", "가맹점", "이용처", "가맹점/ATM명"]),
            amount: pick_col(&map, &["금액", "승인금액", "이용금액", "거래금액", "매출금액"]),
            card_name: pick_col(&map, &["이용카드", "카드명", "카드"]),
            approval: pick_col(&map, &["승인번호", "승인no", "approval"]),
            cancel: pick_col(&map, &["취소상태", "취소여부", "승인취소", "취소", "매입구분"]),
            installment: pick_col(&map, &["이용구분", "할부", "할부개월"]),
        };
        assert(columns_spec(header_map_spec(t[h as int])) == Some(c));
        let mut k: usize = h + 1;
        while k < rows.len()
            invariant
                h < k <= rows@.len(),
                t == table_view(rows@),
                header_row_spec(t, header_markers(), true) == Some(h as int),
                columns_spec(header_map_spec(t[h as int])) == Some(c),
                forall|j: int|
                    h < j < k ==> match row_gate(#[trigger] t[j], c) {
                        Some((_, v)) => v != i64::MIN,
                        None => true,
                    },
            decreases rows.len() - k,
        {
            assert(t[k as int] == strings_view(rows@[k as int]@));
            if gate_amount(&rows[k], c) == Some(i64::MIN) {
                return false;
            }
            k += 1;
        }
        true
    }

    /// The transactions of a statement's rows: the rows after the first row
    /// that names a known column, read by the columns that row names.
    pub fn parse_rows(&self, rows: &Vec<Vec<String>>) -> (r: Result<Vec<ParsedRow>, String>)
        requires
            amounts_fit(table_view(rows@)),
        ensures
            match parse_spec(table_view(rows@)) {
                Ok(v) => r matches Ok(out) && rows_view(out@) == v,
                Err(e) => r matches Err(m) && m@ == e,
            },
    {
        let ghost t = table_view(rows@);
        if rows.len() == 0 {
            return Err(string_of(&chars_of("엑셀 데이터가 비어 있습니다")));
        }
        let header_markers_arr: [&str; 6] = ["이용일자", "승인일자", "거래일", "매출일", "가맹점", "이용금액"];
        assert(strs_view(header_markers_arr@) =~= header_markers());
        let h = match find_header_row(rows, &header_markers_arr, true) {
            Some(h) => h,
            None => {
                return Err(
                    preview_message(
                        "신한카드 헤더 행을 찾을 수 없습니다. 파일의 첫 행들:\n",
                        rows,
                    ),
                );
            },
        };
        let headers = &rows[h];
        assert(t[h as int] == strings_view(headers@));
        let map = header_map(headers.as_slice());
        let d: [&str; 6] = ["거래일", "승인일자", "이용일자", "일자", "날짜", "매출일"];
        let date = match pick_col(&map, &d) {
            Some(i) => i,
            None => {
                return Err(headers_message("날짜 열을 찾을 수 없습니다. 인식된 헤더: ", headers));
            },
        };
        let c = ShinhanCardColumns {
            date,
            merchant: pick_col(&map, &["가맹점명", "가맹점", "이용처", "가맹점/ATM명"]),
            amount: pick_col(&map, &["금액", "승인금액", "이용금액", "거래금액", "매출금액"]),
            card_name: pick_col(&map, &["이용카드", "카드명", "카드"]),
            approval: pick_col(&map, &["승인번호", "승인no", "approval"]),
            cancel: pick_col(&map, &["취소상태", "취소여부", "승인취소", "취소", "매입구분"]),
            installment: pick_col(&map, &["이용구분", "할부", "할부개월"]),
        };
        assert(columns_spec(header_map_spec(t[h as int])) == Some(c));
        let ghost f = row_fn(c);
        let mut out: Vec<ParsedRow> = Vec::new();
        let mut k: usize = h + 1;
        assert(t.subrange(h + 1, h + 1) =~= Seq::<Seq<Seq<char>>>::empty());
        while k < rows.len()
            invariant
                h < k <= rows@.len(),
                t == table_view(rows@),
                amounts_fit(t),
                header_row_spec(t, header_markers(), true) == Some(h as int),
                columns_spec(header_map_spec(t[h as int])) == Some(c),
                f == row_fn(c),
                rows_view(out@) == collect_rows(t.subrange(h + 1, k as int), f),
            decreases rows.len() - k,
        {
            let ghost before = out@;
            proof {
                assert(t.subrange(h + 1, k + 1).drop_last() =~= t.subrange(h + 1, k as int));
                assert(t.subrange(h + 1, k + 1).last() == t[k as int]);
                assert(t[k as int] == strings_view(rows@[k as int]@));
            }
            assert(f(t[k as int]) == row_spec(t[k as int], c));
            match read_row(&rows[k], c) {
                Some(p) => {
                    out.push(p);
                    assert(rows_view(out@) =~= rows_view(before).push(out@.last().view()));
                },
                None => {},
            }
            assert(rows_view(out@) == collect_rows(t.subrange(h + 1, k + 1), f));
            k += 1;
        }
        assert(t.subrange(h + 1, rows@.len() as int) =~= t.skip(h + 1));
        Ok(out)
    }
}

} // verus!
