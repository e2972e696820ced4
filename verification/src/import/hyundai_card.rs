//! Card statements of Hyundai Card, as the rows of their HTML tables.
use vstd::prelude::*;

use crate::calendar::{kst_datetime, kst_datetime_spec};
use crate::import::parser::{
    amount_spec, cell_spec, collect_rows, find_header_row, header_map, header_map_spec,
    header_row_spec, headers_message, korean_date_spec, parse_korean_date, lowered_filename, lowered_name,
    marker_count, marker_score, nonempty, opt_nonempty, parse_amount,
    pick_col, pick_col_spec, preview_message, preview_spec, row_value, rows_view, sample_of,
    sample_spec, strs_view, table_view, trimmed_cell, utf8_lossy, DetectInput, ParsedRow,
    ParsedRowView, lemma_collect_rows_origin,
};
use crate::import::tables::{html_outcome, html_table_readable, html_table_rows, string_table_view};
use crate::text::{chars_of, lowercase, contains, contains_seq, ends_with, ends_with_seq, join_seq, string_of, strings_view, trim_seq};

verus! {

/// Reads Hyundai Card statements.
#[derive(Debug, Default, Clone, Copy)]
pub struct HyundaiCardParser;

/// The columns of a Hyundai Card statement; only the date is required.
#[derive(Debug, Clone, Copy, PartialEq, Eq)]
pub struct HyundaiCardColumns {
    pub date: usize,
    pub merchant: Option<usize>,
    pub amount: Option<usize>,
    pub card_name: Option<usize>,
    pub approval: Option<usize>,
    pub installment: Option<usize>,
}

pub open spec fn header_markers() -> Seq<Seq<char>> {
    seq!["이용일자"@, "가맹점명"@, "이용금액"@]
}

pub open spec fn sample_markers() -> Seq<Seq<char>> {
    seq!["이용일자"@, "카드명(카드뒤4자리)"@, "이용금액"@, "결제예정일"@, "현대카드"@]
}

/// The detection score in hundredths: 50 for a Hyundai file name, 10 for a
/// spreadsheet extension, 10 for each marker in the sample, at most 100.
pub open spec fn detect_spec(input: DetectInput) -> u32 {
    let name_part: int = match lowered_name(input) {
        Some(n) => (if contains_seq(n, "hyundai"@) || contains_seq(n, "현대"@) {
            50int
        } else {
            0int
        }) + (if ends_with_seq(n, ".xls"@) || ends_with_seq(n, ".xlsx"@) {
            10int
        } else {
            0int
        }),
        None => 0,
    };
    let total = name_part + 10 * marker_count(sample_spec(input), sample_markers());
    if total > 100 {
        100
    } else {
        total as u32
    }
}

pub open spec fn columns_spec(m: Map<Seq<char>, u128>) -> Option<HyundaiCardColumns> {
    match pick_col_spec(m, seq!["이용일자", "거래일", "승인일자"]) {
        None => None,
        Some(d) => Some(
            HyundaiCardColumns {
                date: d,
                merchant: pick_col_spec(m, seq!["가맹점명", "가맹점", "이용처"]),
                amount: pick_col_spec(m, seq!["이용금액", "금액", "승인금액"]),
                card_name: pick_col_spec(m, seq!["카드명(카드뒤4자리)", "카드명", "이용카드"]),
                approval: pick_col_spec(m, seq!["승인번호"]),
                installment: pick_col_spec(m, seq!["이용구분", "할부개월"]),
            },
        ),
    }
}

/// The transaction a row becomes: a date written in Korean (taken at
/// midnight) and a positive amount.
pub open spec fn row_spec(row: Seq<Seq<char>>, c: HyundaiCardColumns) -> Option<ParsedRowView> {
    let date_raw = trim_seq(cell_spec(row, Some(c.date)));
    if date_raw.len() == 0 {
        None
    } else {
        match korean_date_spec(date_raw) {
            None => None,
            Some((y, m, d)) => match (kst_datetime_spec(y, m, d, 0, 0, 0), amount_spec(cell_spec(row, c.amount))) {
                (None, _) => None,
                (_, None) => None,
                (Some(at), Some(v)) => if v <= 0 {
                    None
                } else {
                    Some(
                        ParsedRowView {
                            transaction_at: at,
                            kind: "expense"@,
                            amount: v,
                            merchant_name: nonempty(trim_seq(cell_spec(row, c.merchant))),
                            description: nonempty(trim_seq(cell_spec(row, c.installment))),
                            account_name: None,
                            card_name: nonempty(trim_seq(cell_spec(row, c.card_name))),
                            source_institution: "hyundai_card"@,
                            balance_after: None,
                            approval_number: nonempty(trim_seq(cell_spec(row, c.approval))),
                            branch_or_channel: None,
                        },
                    )
                },
            },
        }
    }
}

pub open spec fn row_fn(c: HyundaiCardColumns) -> spec_fn(Seq<Seq<char>>) -> Option<ParsedRowView> {
    |row: Seq<Seq<char>>| row_spec(row, c)
}

pub open spec fn parse_spec(t: Seq<Seq<Seq<char>>>) -> Result<Seq<ParsedRowView>, Seq<char>> {
    if t.len() == 0 {
        Err("현대카드 파일에서 데이터를 읽을 수 없습니다"@)
    } else {
        match header_row_spec(t, header_markers(), false) {
            None => Err("현대카드 헤더 행을 찾을 수 없습니다. 첫 행들:\n"@ + preview_spec(t)),
            Some(h) => match columns_spec(header_map_spec(t[h])) {
                None => Err("날짜 열을 찾을 수 없습니다. 헤더: "@ + join_seq(t[h], ", "@)),
                Some(c) => Ok(collect_rows(t.skip(h + 1), row_fn(c))),
            },
        }
    }
}

/// Every transaction read from a Hyundai Card statement is an expense of a
/// positive amount: refunds and discounts (rows of zero or negative amount)
/// are left out.
pub proof fn lemma_hyundai_rows_positive(t: Seq<Seq<Seq<char>>>)
    ensures
        parse_spec(t) matches Ok(v) ==> forall|i: int|
            0 <= i < v.len() ==> (#[trigger] v[i]).amount > 0 && v[i].kind == "expense"@,
{
    if parse_spec(t) is Ok {
        let h = header_row_spec(t, header_markers(), false)->0;
        let c = columns_spec(header_map_spec(t[h]))->0;
        let rows = t.skip(h + 1);
        let v = collect_rows(rows, row_fn(c));
        assert forall|i: int| 0 <= i < v.len() implies (#[trigger] v[i]).amount > 0 && v[i].kind == "expense"@ by {
            lemma_collect_rows_origin(rows, row_fn(c), i);
            let k = choose|k: int| 0 <= k < rows.len() && row_fn(c)(rows[k]) == Some(v[i]);
            assert(row_spec(rows[k], c) == Some(v[i]));
        }
    }
}

fn read_row(row: &Vec<String>, c: HyundaiCardColumns) -> (r: Option<ParsedRow>)
    ensures
        match row_spec(strings_view(row@), c) {
            Some(v) => r matches Some(p) && p.view() == v,
            None => r is None,
        },
{
    let date_raw = trimmed_cell(row.as_slice(), Some(c.date));
    if date_raw.len() == 0 {
        return None;
    }
    let ds = string_of(&date_raw);
    let (y, m, d) = match parse_korean_date(ds.as_str()) {
        Some(v) => v,
        None => return None,
    };
    let transaction_at = match kst_datetime(y, m, d, 0, 0, 0) {
        Some(t) => t,
        None => return None,
    };
    let amount = match parse_amount(row_value(row.as_slice(), c.amount)) {
        Some(v) => v,
        None => return None,
    };
    if amount <= 0 {
        return None;
    }
    let merchant_name = trimmed_cell(row.as_slice(), c.merchant);
    let card_name = trimmed_cell(row.as_slice(), c.card_name);
    let approval_number = trimmed_cell(row.as_slice(), c.approval);
    let installment = trimmed_cell(row.as_slice(), c.installment);
    Some(
        ParsedRow {
            transaction_at,
            kind: string_of(&chars_of("expense")),
            amount,
            merchant_name: opt_nonempty(&merchant_name),
            description: opt_nonempty(&installment),
            account_name: None,
            card_name: opt_nonempty(&card_name),
            source_institution: string_of(&chars_of("hyundai_card")),
            balance_after: None,
            approval_number: opt_nonempty(&approval_number),
            branch_or_channel: None,
        },
    )
}

impl HyundaiCardParser {
    pub fn name(&self) -> (s: &'static str)
        ensures
            s@ == "hyundai_card"@,
    {
        "hyundai_card"
    }

    /// How likely the file is a Hyundai Card statement, in hundredths.
    pub fn detect(&self, input: &DetectInput) -> (score: u32)
        ensures
            score == detect_spec(*input),
            score <= 100,
    {
        let mut score: u32 = 0;
        match lowered_filename(input) {
            Some(n) => {
                if contains(&n, &chars_of("hyundai")) || contains(&n, &chars_of("현대")) {
                    score = score + 50;
                }
                if ends_with(&n, &chars_of(".xls")) || ends_with(&n, &chars_of(".xlsx")) {
                    score = score + 10;
                }
            },
            None => {},
        }
        let sample = sample_of(input);
        let markers: [&str; 5] = ["이용일자", "카드명(카드뒤4자리)", "이용금액", "결제예정일", "현대카드"];
        assert(strs_view(markers@) =~= sample_markers());
        let m = marker_score(&sample, &markers, 10);
        proof {
            crate::import::parser::lemma_marker_count_le(sample@, sample_markers());
        }
        let total = score + m;
        if total > 100 {
            100
        } else {
            total
        }
    }

    /// The transactions of the rows of the statement's table.
    pub fn parse_rows(&self, rows: &Vec<Vec<String>>) -> (r: Result<Vec<ParsedRow>, String>)
        ensures
            match parse_spec(table_view(rows@)) {
                Ok(v) => r matches Ok(out) && rows_view(out@) == v,
                Err(e) => r matches Err(m) && m@ == e,
            },
    {
        let ghost t = table_view(rows@);
        if rows.len() == 0 {
            return Err(string_of(&chars_of("현대카드 파일에서 데이터를 읽을 수 없습니다")));
        }
        let hm: [&str; 3] = ["이용일자", "가맹점명", "이용금액"];
        assert(strs_view(hm@) =~= header_markers());
        let h = match find_header_row(rows, &hm, false) {
            Some(h) => h,
            None => {
                return Err(preview_message("현대카드 헤더 행을 찾을 수 없습니다. 첫 행들:\n", rows));
            },
        };
        let headers = &rows[h];
        assert(t[h as int] == strings_view(headers@));
        let map = header_map(headers.as_slice());
        let a_date: [&str; 3] = ["이용일자", "거래일", "승인일자"];
        assert(a_date@ =~= seq!["이용일자", "거래일", "승인일자"]);
        let date = match pick_col(&map, &a_date) {
            Some(i) => i,
            None => {
                return Err(headers_message("날짜 열을 찾을 수 없습니다. 헤더: ", headers));
            },
        };
        let a_merchant: [&str; 3] = ["가맹점명", "가맹점", "이용처"];
        let a_amount: [&str; 3] = ["이용금액", "금액", "승인금액"];
        let a_card: [&str; 3] = ["카드명(카드뒤4자리)", "카드명", "이용카드"];
        let a_approval: [&str; 1] = ["승인번호"];
        let a_inst: [&str; 2] = ["이용구분", "할부개월"];
        assert(a_merchant@ =~= seq!["가맹점명", "가맹점", "이용처"]);
        assert(a_amount@ =~= seq!["이용금액", "금액", "승인금액"]);
        assert(a_card@ =~= seq!["카드명(카드뒤4자리)", "카드명", "이용카드"]);
        assert(a_approval@ =~= seq!["승인번호"]);
        assert(a_inst@ =~= seq!["이용구분", "할부개월"]);
        let c = HyundaiCardColumns {
            date,
            merchant: pick_col(&map, &a_merchant),
            amount: pick_col(&map, &a_amount),
            card_name: pick_col(&map, &a_card),
            approval: pick_col(&map, &a_approval),
            installment: pick_col(&map, &a_inst),
        };
        assert(columns_spec(header_map_spec(t[h as int])) == Some(c));
        let ghost f = row_fn(c);
        let mut out: Vec<ParsedRow> = Vec::new();
        let mut k: usize = h + 1;
        assert(t.subrange(h + 1, h + 1) =~= Seq::<Seq<Seq<char>>>::empty());
        while k < rows.len()
            invariant
                h < k <= rows@.len(),
                t == table_view(rows@),
                f == row_fn(c),
                rows_view(out@) == collect_rows(t.subrange(h + 1, k as int), f),
            decreases rows.len() - k,
        {
            let ghost before = out@;
            proof {
                assert(t.subrange(h + 1, k + 1).drop_last() =~= t.subrange(h + 1, k as int));
                assert(t.subrange(h + 1, k + 1).last() == t[k as int]);
                assert(t[k as int] == strings_view(rows@[k as int]@));
            }
            assert(f(t[k as int]) == row_spec(t[k as int], c));
            match read_row(&rows[k], c) {
                Some(p) => {
                    out.push(p);
                    assert(rows_view(out@) =~= rows_view(before).push(out@.last().view()));
                },
                None => {},
            }
            assert(rows_view(out@) == collect_rows(t.subrange(h + 1, k + 1), f));
            k += 1;
        }
        assert(t.subrange(h + 1, rows@.len() as int) =~= t.skip(h + 1));
        Ok(out)
    }

    /// The transactions of a Hyundai Card statement saved as an HTML table:
    /// its rows (see `html_table_rows`, whose condition this shares) read by
    /// `parse_rows`.
    pub fn parse(&self, content: &[u8]) -> (r: Result<Vec<ParsedRow>, String>)
        requires
            html_outcome(utf8_lossy(content@)) is Some,
        ensures
            match html_outcome(utf8_lossy(content@)) {
                Some(Ok(t)) => match parse_spec(t) {
                    Ok(v) => r matches Ok(out) && rows_view(out@) == v,
                    Err(e) => r matches Err(m) && m@ == e,
                },
                Some(Err(e)) => r matches Err(m) && m@ == e,
                None => false,
            },
    {
        let rows = match html_table_rows(content) {
            Ok(rows) => rows,
            Err(e) => return Err(e),
        };
        assert(string_table_view(rows@) == table_view(rows@));
        self.parse_rows(&rows)
    }

    /// `parse` where the page can be read without a cut falling off a
    /// character boundary (see `html_table_readable`); `None` where it
    /// cannot, as reading it would panic.
    pub fn parse_if_readable(&self, content: &[u8]) -> (r: Option<Result<Vec<ParsedRow>, String>>)
        ensures
            match html_outcome(utf8_lossy(content@)) {
                None => r is None,
                Some(Ok(t)) => match parse_spec(t) {
                    Ok(v) => r matches Some(Ok(out)) && rows_view(out@) == v,
                    Err(e) => r matches Some(Err(m)) && m@ == e,
                },
                Some(Err(e)) => r matches Some(Err(m)) && m@ == e,
            },
    {
        if html_table_readable(content) {
            Some(self.parse(content))
        } else {
            None
        }
    }
}

} // verus!
