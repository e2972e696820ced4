//! Account statements of Shinhan Bank, as CSV records.
use vstd::prelude::*;

use crate::import::parser::{
    amount_spec, cell_spec, collect_rows, default_type_spec, ensure_column, header_map,
    header_map_spec, local_datetime_spec, lowered_filename, lowered_name, marker_count,
    marker_score, nonempty, opt_nonempty, parse_amount, parse_default_type, parse_local_datetime,
    pick_col, pick_col_spec, row_value, rows_view, sample_of, sample_spec, strs_view, table_view,
    trimmed_cell, utf8_lossy, DetectInput, ParsedRow, ParsedRowView,
};
use crate::import::tables::{csv_read_spec, csv_records, delimiter_spec};
use crate::text::{chars_of, contains, contains_seq, ends_with, ends_with_seq, string_of, strings_view, trim_seq};

verus! {

/// Reads Shinhan Bank account statements.
#[derive(Debug, Default, Clone, Copy)]
pub struct ShinhanBankParser;

/// The columns of a Shinhan Bank statement; only the date is required.
#[derive(Debug, Clone, Copy, PartialEq, Eq)]
pub struct ShinhanBankColumns {
    pub date: usize,
    pub time: Option<usize>,
    pub brief: Option<usize>,
    pub outflow: Option<usize>,
    pub inflow: Option<usize>,
    pub desc: Option<usize>,
    pub balance: Option<usize>,
    pub branch: Option<usize>,
}

pub open spec fn sample_markers() -> Seq<Seq<char>> {
    seq!["거래일자"@, "거래시간"@, "출금(원)"@, "입금(원)"@, "잔액(원)"@]
}

/// The detection score in hundredths: 40 for a Shinhan file name, 10 for a
/// `.csv` name, 15 for each marker in the sample, at most 100.
pub open spec fn detect_spec(input: DetectInput) -> u32 {
    let name_part: int = match lowered_name(input) {
        Some(n) => (if contains_seq(n, "shinhan"@) || contains_seq(n, "신한"@) {
            40int
        } else {
            0int
        }) + (if ends_with_seq(n, ".csv"@) {
            10int
        } else {
            0int
        }),
        None => 0,
    };
    let total = name_part + 15 * marker_count(sample_spec(input), sample_markers());
    if total > 100 {
        100
    } else {
        total as u32
    }
}

pub open spec fn columns_spec(m: Map<Seq<char>, u128>) -> Option<ShinhanBankColumns> {
    match pick_col_spec(m, seq!["거래일자", "일자", "날짜"]) {
        None => None,
        Some(d) => Some(
            ShinhanBankColumns {
                date: d,
                time: pick_col_spec(m, seq!["거래시간", "시간"]),
                brief: pick_col_spec(m, seq!["적요", "내용"]),
                outflow: pick_col_spec(m, seq!["출금(원)", "출금", "지출"]),
                inflow: pick_col_spec(m, seq!["입금(원)", "입금", "수입"]),
                desc: pick_col_spec(m, seq!["내용", "가맹점", "상호"]),
                balance: pick_col_spec(m, seq!["잔액(원)", "잔액"]),
                branch: pick_col_spec(m, seq!["거래점", "채널"]),
            },
        ),
    }
}

/// The transaction a record becomes: a readable date and time, and a
/// positive withdrawal (an expense) or else a positive deposit (income).
pub open spec fn row_spec(row: Seq<Seq<char>>, c: ShinhanBankColumns) -> Option<ParsedRowView> {
    match local_datetime_spec(cell_spec(row, Some(c.date)), Some(cell_spec(row, c.time))) {
        None => None,
        Some(t) => match default_type_spec(
            amount_spec(cell_spec(row, c.outflow)),
            amount_spec(cell_spec(row, c.inflow)),
        ) {
            None => None,
            Some((typ, amount)) => Some(
                ParsedRowView {
                    transaction_at: t,
                    kind: typ,
                    amount,
                    merchant_name: nonempty(trim_seq(cell_spec(row, c.desc))),
                    description: nonempty(trim_seq(cell_spec(row, c.brief))),
                    account_name: None,
                    card_name: None,
                    source_institution: "shinhan_bank"@,
                    balance_after: amount_spec(cell_spec(row, c.balance)),
                    approval_number: None,
                    branch_or_channel: Some(trim_seq(cell_spec(row, c.branch))),
                },
            ),
        },
    }
}

pub open spec fn row_fn(c: ShinhanBankColumns) -> spec_fn(Seq<Seq<char>>) -> Option<ParsedRowView> {
    |row: Seq<Seq<char>>| row_spec(row, c)
}

pub open spec fn parse_spec(headers: Seq<Seq<char>>, t: Seq<Seq<Seq<char>>>) -> Result<Seq<ParsedRowView>, Seq<char>> {
    match columns_spec(header_map_spec(headers)) {
        None => Err("거래일자 열이 필요합니다"@),
        Some(c) => Ok(collect_rows(t, row_fn(c))),
    }
}

fn read_row(row: &Vec<String>, c: ShinhanBankColumns) -> (r: Option<ParsedRow>)
    ensures
        match row_spec(strings_view(row@), c) {
            Some(v) => r matches Some(p) && p.view() == v,
            None => r is None,
        },
{
    let date = row_value(row.as_slice(), Some(c.date));
    let time = row_value(row.as_slice(), c.time);
    let transaction_at = match parse_local_datetime(date, Some(time)) {
        Some(v) => v,
        None => return None,
    };
    let outflow = parse_amount(row_value(row.as_slice(), c.outflow));
    let inflow = parse_amount(row_value(row.as_slice(), c.inflow));
    let (kind, amount) = match parse_default_type(outflow, inflow) {
        Some(v) => v,
        None => return None,
    };
    let description = trimmed_cell(row.as_slice(), c.brief);
    let merchant = trimmed_cell(row.as_slice(), c.desc);
    let balance_after = parse_amount(row_value(row.as_slice(), c.balance));
    let branch = trimmed_cell(row.as_slice(), c.branch);
    Some(
        ParsedRow {
            transaction_at,
            kind,
            amount,
            merchant_name: opt_nonempty(&merchant),
            description: opt_nonempty(&description),
            account_name: None,
            card_name: None,
            source_institution: string_of(&chars_of("shinhan_bank")),
            balance_after,
            approval_number: None,
            branch_or_channel: Some(string_of(&branch)),
        },
    )
}

impl ShinhanBankParser {
    pub fn name(&self) -> (s: &'static str)
        ensures
            s@ == "shinhan_bank"@,
    {
        "shinhan_bank"
    }

    /// How likely the file is a Shinhan Bank statement, in hundredths.
    pub fn detect(&self, input: &DetectInput) -> (score: u32)
        ensures
            score == detect_spec(*input),
            score <= 100,
    {
        let mut score: u32 = 0;
        match lowered_filename(input) {
            Some(n) => {
                if contains(&n, &chars_of("shinhan")) || contains(&n, &chars_of("신한")) {
                    score = score + 40;
                }
                if ends_with(&n, &chars_of(".csv")) {
                    score = score + 10;
                }
            },
            None => {},
        }
        let sample = sample_of(input);
        let markers: [&str; 5] = ["거래일자", "거래시간", "출금(원)", "입금(원)", "잔액(원)"];
        assert(strs_view(markers@) =~= sample_markers());
        let m = marker_score(&sample, &markers, 15);
        proof {
            crate::import::parser::lemma_marker_count_le(sample@, sample_markers());
        }
        let total = score + m;
        if total > 100 {
            100
        } else {
            total
        }
    }

    /// The transactions of the statement's records, read by the columns its
    /// header names.
    pub fn parse_table(&self, headers: &Vec<String>, rows: &Vec<Vec<String>>) -> (r: Result<Vec<ParsedRow>, String>)
        ensures
            match parse_spec(strings_view(headers@), table_view(rows@)) {
                Ok(v) => r matches Ok(out) && rows_view(out@) == v,
                Err(e) => r matches Err(m) && m@ == e,
            },
    {
        let ghost t = table_view(rows@);
        let map = header_map(headers.as_slice());
        let a_date: [&str; 3] = ["거래일자", "일자", "날짜"];
        assert(a_date@ =~= seq!["거래일자", "일자", "날짜"]);
        let date = match ensure_column(pick_col(&map, &a_date), "거래일자 열이 필요합니다") {
            Ok(i) => i,
            Err(e) => return Err(e),
        };
        let a_time: [&str; 2] = ["거래시간", "시간"];
        let a_brief: [&str; 2] = ["적요", "내용"];
        let a_out: [&str; 3] = ["출금(원)", "출금", "지출"];
        let a_in: [&str; 3] = ["입금(원)", "입금", "수입"];
        let a_desc: [&str; 3] = ["내용", "가맹점", "상호"];
        let a_bal: [&str; 2] = ["잔액(원)", "잔액"];
        let a_branch: [&str; 2] = ["거래점", "채널"];
        assert(a_time@ =~= seq!["거래시간", "시간"]);
        assert(a_brief@ =~= seq!["적요", "내용"]);
        assert(a_out@ =~= seq!["출금(원)", "출금", "지출"]);
        assert(a_in@ =~= seq!["입금(원)", "입금", "수입"]);
        assert(a_desc@ =~= seq!["내용", "가맹점", "상호"]);
        assert(a_bal@ =~= seq!["잔액(원)", "잔액"]);
        assert(a_branch@ =~= seq!["거래점", "채널"]);
        let c = ShinhanBankColumns {
            date,
            time: pick_col(&map, &a_time),
            brief: pick_col(&map, &a_brief),
            outflow: pick_col(&map, &a_out),
            inflow: pick_col(&map, &a_in),
            desc: pick_col(&map, &a_desc),
            balance: pick_col(&map, &a_bal),
            branch: pick_col(&map, &a_branch),
        };
        assert(columns_spec(header_map_spec(strings_view(headers@))) == Some(c));
        let ghost f = row_fn(c);
        let mut out: Vec<ParsedRow> = Vec::new();
        let mut k: usize = 0;
        assert(t.take(0) =~= Seq::<Seq<Seq<char>>>::empty());
        while k < rows.len()
            invariant
                k <= rows@.len(),
                t == table_view(rows@),
                f == row_fn(c),
                rows_view(out@) == collect_rows(t.take(k as int), f),
            decreases rows.len() - k,
        {
            let ghost before = out@;
            proof {
                assert(t.take(k + 1).drop_last() =~= t.take(k as int));
                assert(t.take(k + 1).last() == t[k as int]);
                assert(t[k as int] == strings_view(rows@[k as int]@));
            }
            assert(f(t[k as int]) == row_spec(t[k as int], c));
            match read_row(&rows[k], c) {
                Some(p) => {
                    out.push(p);
                    assert(rows_view(out@) =~= rows_view(before).push(out@.last().view()));
                },
                None => {},
            }
            assert(rows_view(out@) == collect_rows(t.take(k + 1), f));
            k += 1;
        }
        assert(t.take(rows@.len() as int) =~= t);
        Ok(out)
    }

    /// The transactions of a Shinhan Bank CSV statement: its records (see
    /// `csv_records`) read by `parse_table`.
    pub fn parse(&self, content: &[u8]) -> (r: Result<Vec<ParsedRow>, String>)
        ensures
            match csv_read_spec(content@, delimiter_spec(utf8_lossy(content@))) {
                None => r is Err,
                Some((h, t)) => match parse_spec(h, t) {
                    Ok(v) => r matches Ok(out) && rows_view(out@) == v,
                    Err(e) => r matches Err(m) && m@ == e,
                },
            },
    {
        let (headers, rows) = match csv_records(content) {
            Ok(t) => t,
            Err(e) => return Err(e),
        };
        self.parse_table(&headers, &rows)
    }
}

} // verus!
