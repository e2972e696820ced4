//! Card statements of Samsung Card, as spreadsheet rows.
use vstd::prelude::*;

use crate::calendar::LocalDateTime;
use crate::import::parser::{
    amount_spec, cell_spec, collect_rows, find_header_row, header_map, header_map_spec,
    header_row_spec, headers_message, local_datetime_spec, lowered_filename, lowered_name,
    marker_count, marker_score, nonempty, opt_nonempty, parse_amount, parse_local_datetime,
    pick_col, pick_col_spec, preview_message, preview_spec, row_value, rows_view, sample_of,
    sample_spec, strs_view, table_view, trimmed_cell, DetectInput, ParsedRow, ParsedRowView,
    lemma_collect_rows_origin,
};
use crate::text::{chars_of, contains, contains_seq, ends_with, ends_with_seq, join_seq, string_of, strings_view, trim_seq};

verus! {

/// Reads Samsung Card statements.
#[derive(Debug, Default, Clone, Copy)]
pub struct SamsungCardParser;

/// The columns of a Samsung Card statement; only the date is required.
#[derive(Debug, Clone, Copy, PartialEq, Eq)]
pub struct SamsungCardColumns {
    pub date: usize,
    pub time: Option<usize>,
    pub merchant: Option<usize>,
    pub amount: Option<usize>,
    pub card_no: Option<usize>,
    pub approval: Option<usize>,
    pub cancel: Option<usize>,
    pub installment: Option<usize>,
}

pub open spec fn header_markers() -> Seq<Seq<char>> {
    seq!["승인일자"@, "가맹점명"@, "승인금액"@]
}

pub open spec fn sample_markers() -> Seq<Seq<char>> {
    seq!["승인일자"@, "승인시각"@, "승인금액(원)"@, "취소여부"@, "국내이용내역"@]
}

/// The detection score in hundredths: 50 for a Samsung file name, 10 for a
/// spreadsheet extension, 10 for each marker in the sample, at most 100.
pub open spec fn detect_spec(input: DetectInput) -> u32 {
    let name_part: int = match lowered_name(input) {
        Some(n) => (if contains_seq(n, "samsung"@) || contains_seq(n, "삼성"@) {
            50int
        } else {
            0int
        }) + (if ends_with_seq(n, ".xlsx"@) || ends_with_seq(n, ".xls"@) {
            10int
        } else {
            0int
        }),
        None => 0,
    };
    let total = name_part + 10 * marker_count(sample_spec(input), sample_markers());
    if total > 100 {
        100
    } else {
        total as u32
    }
}

pub open spec fn columns_spec(m: Map<Seq<char>, u128>) -> Option<SamsungCardColumns> {
    match pick_col_spec(m, seq!["승인일자", "이용일자", "거래일"]) {
        None => None,
        Some(d) => Some(
            SamsungCardColumns {
                date: d,
                time: pick_col_spec(m, seq!["승인시각", "이용시간", "시간"]),
                merchant: pick_col_spec(m, seq!["가맹점명", "가맹점"]),
                amount: pick_col_spec(m, seq!["승인금액(원)", "승인금액", "이용금액", "금액"]),
                card_no: pick_col_spec(m, seq!["카드번호"]),
                approval: pick_col_spec(m, seq!["승인번호"]),
                cancel: pick_col_spec(m, seq!["취소여부"]),
                installment: pick_col_spec(m, seq!["일시불할부구분", "이용구분"]),
            },
        ),
    }
}

/// The transaction a row becomes: a readable date (with the time when
/// given), an amount, not cancelled, and positive.
pub open spec fn row_spec(row: Seq<Seq<char>>, c: SamsungCardColumns) -> Option<ParsedRowView> {
    let date_raw = trim_seq(cell_spec(row, Some(c.date)));
    let time_raw = trim_seq(cell_spec(row, c.time));
    if date_raw.len() == 0 {
        None
    } else {
        match local_datetime_spec(date_raw, if time_raw.len() == 0 { None } else { Some(time_raw) }) {
            None => None,
            Some(t) => match amount_spec(cell_spec(row, c.amount)) {
                None => None,
                Some(v) => if contains_seq(trim_seq(cell_spec(row, c.cancel)), "취소"@) || v <= 0 {
                    None
                } else {
                    Some(
                        ParsedRowView {
                            transaction_at: t,
                            kind: "expense"@,
                            amount: v,
                            merchant_name: nonempty(trim_seq(cell_spec(row, c.merchant))),
                            description: nonempty(trim_seq(cell_spec(row, c.installment))),
                            account_name: None,
                            card_name: nonempty(trim_seq(cell_spec(row, c.card_no))),
                            source_institution: "samsung_card"@,
                            balance_after: None,
                            approval_number: nonempty(trim_seq(cell_spec(row, c.approval))),
                            branch_or_channel: None,
                        },
                    )
                },
            },
        }
    }
}

pub open spec fn row_fn(c: SamsungCardColumns) -> spec_fn(Seq<Seq<char>>) -> Option<ParsedRowView> {
    |row: Seq<Seq<char>>| row_spec(row, c)
}

pub open spec fn parse_spec(t: Seq<Seq<Seq<char>>>) -> Result<Seq<ParsedRowView>, Seq<char>> {
    if t.len() == 0 {
        Err("삼성카드 파일에서 데이터를 읽을 수 없습니다"@)
    } else {
        match header_row_spec(t, header_markers(), false) {
            None => Err("삼성카드 헤더 행을 찾을 수 없습니다. 첫 행들:\n"@ + preview_spec(t)),
            Some(h) => match columns_spec(header_map_spec(t[h])) {
                None => Err("날짜 열을 찾을 수 없습니다. 헤더: "@ + join_seq(t[h], ", "@)),
                Some(c) => Ok(collect_rows(t.skip(h + 1), row_fn(c))),
            },
        }
    }
}

/// No transaction of a Samsung Card statement comes from a cancelled
/// approval: each is read from a row below the header whose cancel cell,
/// trimmed, does not hold `취소` (as `전체취소` and `부분취소` do), and each
/// is an expense of a positive amount.
pub proof fn lemma_samsung_no_cancelled_rows(t: Seq<Seq<Seq<char>>>)
    ensures
        parse_spec(t) matches Ok(v) ==> {
            let h = header_row_spec(t, header_markers(), false)->0;
            let c = columns_spec(header_map_spec(t[h]))->0;
            forall|i: int|
                0 <= i < v.len() ==> (#[trigger] v[i]).amount > 0 && v[i].kind == "expense"@ && exists|k: int|
                    h < k < t.len() && !contains_seq(trim_seq(cell_spec(t[k], c.cancel)), "취소"@)
                        && row_spec(t[k], c) == Some(v[i])
        },
{
    if parse_spec(t) is Ok {
        let h = header_row_spec(t, header_markers(), false)->0;
        let c = columns_spec(header_map_spec(t[h]))->0;
        let rows = t.skip(h + 1);
        let v = collect_rows(rows, row_fn(c));
        assert forall|i: int| 0 <= i < v.len() implies (#[trigger] v[i]).amount > 0 && v[i].kind == "expense"@
            && exists|k: int|
            h < k < t.len() && !contains_seq(trim_seq(cell_spec(t[k], c.cancel)), "취소"@)
                && row_spec(t[k], c) == Some(v[i]) by {
            lemma_collect_rows_origin(rows, row_fn(c), i);
            let k = choose|k: int| 0 <= k < rows.len() && row_fn(c)(rows[k]) == Some(v[i]);
            assert(row_spec(rows[k], c) == Some(v[i]));
            assert(rows[k] == t[h + 1 + k]);
            assert(!contains_seq(trim_seq(cell_spec(t[h + 1 + k], c.cancel)), "취소"@));
        }
    }
}

fn read_row(row: &Vec<String>, c: SamsungCardColumns) -> (r: Option<ParsedRow>)
    ensures
        match row_spec(strings_view(row@), c) {
            Some(v) => r matches Some(p) && p.view() == v,
            None => r is None,
        },
{
    let date_raw = trimmed_cell(row.as_slice(), Some(c.date));
    if date_raw.len() == 0 {
        return None;
    }
    let time_raw = trimmed_cell(row.as_slice(), c.time);
    let ds = string_of(&date_raw);
    let ts = string_of(&time_raw);
    let transaction_at = match parse_local_datetime(
        ds.as_str(),
        if time_raw.len() == 0 {
            None
        } else {
            Some(ts.as_str())
        },
    ) {
        Some(v) => v,
        None => return None,
    };
    let amount = match parse_amount(row_value(row.as_slice(), c.amount)) {
        Some(v) => v,
        None => return None,
    };
    let cancel_text = trimmed_cell(row.as_slice(), c.cancel);
    if contains(&cancel_text, &chars_of("취소")) {
        return None;
    }
    if amount <= 0 {
        return None;
    }
    let merchant_name = trimmed_cell(row.as_slice(), c.merchant);
    let card_no = trimmed_cell(row.as_slice(), c.card_no);
    let approval_number = trimmed_cell(row.as_slice(), c.approval);
    let installment = trimmed_cell(row.as_slice(), c.installment);
    Some(
        ParsedRow {
            transaction_at,
            kind: string_of(&chars_of("expense")),
            amount,
            merchant_name: opt_nonempty(&merchant_name),
            description: opt_nonempty(&installment),
            account_name: None,
            card_name: opt_nonempty(&card_no),
            source_institution: string_of(&chars_of("samsung_card")),
            balance_after: None,
            approval_number: opt_nonempty(&approval_number),
            branch_or_channel: None,
        },
    )
}

impl SamsungCardParser {
    pub fn name(&self) -> (s: &'static str)
        ensures
            s@ == "samsung_card"@,
    {
        "samsung_card"
    }

    /// How likely the file is a Samsung Card statement, in hundredths.
    pub fn detect(&self, input: &DetectInput) -> (score: u32)
        ensures
            score == detect_spec(*input),
            score <= 100,
    {
        let mut score: u32 = 0;
        match lowered_filename(input) {
            Some(n) => {
                if contains(&n, &chars_of("samsung")) || contains(&n, &chars_of("삼성")) {
                    score = score + 50;
                }
                if ends_with(&n, &chars_of(".xlsx")) || ends_with(&n, &chars_of(".xls")) {
                    score = score + 10;
                }
            },
            None => {},
        }
        let sample = sample_of(input);
        let markers: [&str; 5] = ["승인일자", "승인시각", "승인금액(원)", "취소여부", "국내이용내역"];
        assert(strs_view(markers@) =~= sample_markers());
        let m = marker_score(&sample, &markers, 10);
        proof {
            crate::import::parser::lemma_marker_count_le(sample@, sample_markers());
        }
        let total = score + m;
        if total > 100 {
            100
        } else {
            total
        }
    }

    /// The transactions of the rows of the domestic-use sheet.
    pub fn parse_rows(&self, rows: &Vec<Vec<String>>) -> (r: Result<Vec<ParsedRow>, String>)
        ensures
            match parse_spec(table_view(rows@)) {
                Ok(v) => r matches Ok(out) && rows_view(out@) == v,
                Err(e) => r matches Err(m) && m@ == e,
            },
    {
        let ghost t = table_view(rows@);
        if rows.len() == 0 {
            return Err(string_of(&chars_of("삼성카드 파일에서 데이터를 읽을 수 없습니다")));
        }
        let hm: [&str; 3] = ["승인일자", "가맹점명", "승인금액"];
        assert(strs_view(hm@) =~= header_markers());
        let h = match find_header_row(rows, &hm, false) {
            Some(h) => h,
            None => {
                return Err(preview_message("삼성카드 헤더 행을 찾을 수 없습니다. 첫 행들:\n", rows));
            },
        };
        let headers = &rows[h];
        assert(t[h as int] == strings_view(headers@));
        let map = header_map(headers.as_slice());
        let a_date: [&str; 3] = ["승인일자", "이용일자", "거래일"];
        assert(a_date@ =~= seq!["승인일자", "이용일자", "거래일"]);
        let date = match pick_col(&map, &a_date) {
            Some(i) => i,
            None => {
                return Err(headers_message("날짜 열을 찾을 수 없습니다. 헤더: ", headers));
            },
        };
        let a_time: [&str; 3] = ["승인시각", "이용시간", "시간"];
        let a_merchant: [&str; 2] = ["가맹점명", "가맹점"];
        let a_amount: [&str; 4] = ["승인금액(원)", "승인금액", "이용금액", "금액"];
        let a_card: [&str; 1] = ["카드번호"];
        let a_approval: [&str; 1] = ["승인번호"];
        let a_cancel: [&str; 1] = ["취소여부"];
        let a_inst: [&str; 2] = ["일시불할부구분", "이용구분"];
        assert(a_time@ =~= seq!["승인시각", "이용시간", "시간"]);
        assert(a_merchant@ =~= seq!["가맹점명", "가맹점"]);
        assert(a_amount@ =~= seq!["승인금액(원)", "승인금액", "이용금액", "금액"]);
        assert(a_card@ =~= seq!["카드번호"]);
        assert(a_approval@ =~= seq!["승인번호"]);
        assert(a_cancel@ =~= seq!["취소여부"]);
        assert(a_inst@ =~= seq!["일시불할부구분", "이용구분"]);
        let c = SamsungCardColumns {
            date,
            time: pick_col(&map, &a_time),
            merchant: pick_col(&map, &a_merchant),
            amount: pick_col(&map, &a_amount),
            card_no: pick_col(&map, &a_card),
            approval: pick_col(&map, &a_approval),
            cancel: pick_col(&map, &a_cancel),
            installment: pick_col(&map, &a_inst),
        };
        assert(columns_spec(header_map_spec(t[h as int])) == Some(c));
        let ghost f = row_fn(c);
        let mut out: Vec<ParsedRow> = Vec::new();
        let mut k: usize = h + 1;
        assert(t.subrange(h + 1, h + 1) =~= Seq::<Seq<Seq<char>>>::empty());
        while k < rows.len()
            invariant
                h < k <= rows@.len(),
                t == table_view(rows@),
                f == row_fn(c),
                rows_view(out@) == collect_rows(t.subrange(h + 1, k as int), f),
            decreases rows.len() - k,
        {
            let ghost before = out@;
            proof {
                assert(t.subrange(h + 1, k + 1).drop_last() =~= t.subrange(h + 1, k as int));
                assert(t.subrange(h + 1, k + 1).last() == t[k as int]);
                assert(t[k as int] == strings_view(rows@[k as int]@));
            }
            assert(f(t[k as int]) == row_spec(t[k as int], c));
            match read_row(&rows[k], c) {
                Some(p) => {
                    out.push(p);
                    assert(rows_view(out@) =~= rows_view(before).push(out@.last().view()));
                },
                None => {},
            }
            assert(rows_view(out@) == collect_rows(t.subrange(h + 1, k + 1), f));
            k += 1;
        }
        assert(t.subrange(h + 1, rows@.len() as int) =~= t.skip(h + 1));
        Ok(out)
    }
}

} // verus!
