//! Transactions pasted as comma-separated text.
use vstd::prelude::*;

use crate::import::parser::{
    amount_spec, cell_spec, collect_rows, default_type_spec, ensure_column, header_map,
    header_map_spec, local_datetime_spec, lowered_filename, lowered_name, marker_count,
    marker_score, nonempty, opt_nonempty, parse_amount, parse_default_type, parse_local_datetime,
    pick_col, pick_col_spec, row_value, rows_view, sample_of, sample_spec, strs_view, table_view,
    trimmed_cell, utf8_lossy, DetectInput, ParsedRow, ParsedRowView, lemma_collect_rows_origin,
};
use crate::import::tables::{csv_read_spec, csv_records, delimiter_spec};
use crate::text::{chars_of, contains, contains_seq, ends_with, ends_with_seq, string_of, strings_view, trim_seq};

verus! {

/// Reads pasted comma-separated text.
#[derive(Debug, Default, Clone, Copy)]
pub struct PastedCsvTextParser;

/// The columns of pasted text; only the date is required.
#[derive(Debug, Clone, Copy, PartialEq, Eq)]
pub struct PastedColumns {
    pub date: usize,
    pub time: Option<usize>,
    pub merchant: Option<usize>,
    pub desc: Option<usize>,
    pub amount: Option<usize>,
    pub outflow: Option<usize>,
    pub inflow: Option<usize>,
    pub card: Option<usize>,
    pub account: Option<usize>,
}

pub open spec fn sample_markers() -> Seq<Seq<char>> {
    seq!["날짜"@, "일자"@, "시간"@, "가맹점"@, "금액"@, "출금"@, "입금"@]
}

/// The detection score in hundredths: 15 for each marker in the sample, at
/// most 100.
pub open spec fn detect_spec(input: DetectInput) -> u32 {
    let total = 15 * marker_count(sample_spec(input), sample_markers());
    if total > 100 {
        100
    } else {
        total as u32
    }
}

pub open spec fn columns_spec(m: Map<Seq<char>, u128>) -> Option<PastedColumns> {
    match pick_col_spec(m, seq!["날짜", "일자", "거래일자"]) {
        None => None,
        Some(d) => Some(
            PastedColumns {
                date: d,
                time: pick_col_spec(m, seq!["시간", "거래시간"]),
                merchant: pick_col_spec(m, seq!["가맹점", "가맹점명", "내용", "상호"]),
                desc: pick_col_spec(m, seq!["내용", "적요", "메모"]),
                amount: pick_col_spec(m, seq!["금액", "이용금액", "승인금액"]),
                outflow: pick_col_spec(m, seq!["출금", "지출"]),
                inflow: pick_col_spec(m, seq!["입금", "수입"]),
                card: pick_col_spec(m, seq!["카드", "카드명"]),
                account: pick_col_spec(m, seq!["계좌", "계좌명"]),
            },
        ),
    }
}

/// The type and amount of a row: a signed amount (negative for income), or
/// else a withdrawal or deposit.
pub open spec fn row_amount(row: Seq<Seq<char>>, c: PastedColumns) -> Option<(Seq<char>, int)> {
    match amount_spec(cell_spec(row, c.amount)) {
        Some(v) => if v >= 0 {
            Some(("expense"@, v as int))
        } else {
            Some(("income"@, -v))
        },
        None => match default_type_spec(
            amount_spec(cell_spec(row, c.outflow)),
            amount_spec(cell_spec(row, c.inflow)),
        ) {
            Some((t, v)) => Some((t, v as int)),
            None => None,
        },
    }
}

pub open spec fn row_spec(row: Seq<Seq<char>>, c: PastedColumns) -> Option<ParsedRowView> {
    match local_datetime_spec(cell_spec(row, Some(c.date)), Some(cell_spec(row, c.time))) {
        None => None,
        Some(t) => match row_amount(row, c) {
            None => None,
            Some((typ, amount)) => Some(
                ParsedRowView {
                    transaction_at: t,
                    kind: typ,
                    amount: amount as i64,
                    merchant_name: nonempty(trim_seq(cell_spec(row, c.merchant))),
                    description: nonempty(trim_seq(cell_spec(row, c.desc))),
                    account_name: nonempty(trim_seq(cell_spec(row, c.account))),
                    card_name: nonempty(trim_seq(cell_spec(row, c.card))),
                    source_institution: "pasted_text"@,
                    balance_after: None,
                    approval_number: None,
                    branch_or_channel: None,
                },
            ),
        },
    }
}

pub open spec fn row_fn(c: PastedColumns) -> spec_fn(Seq<Seq<char>>) -> Option<ParsedRowView> {
    |row: Seq<Seq<char>>| row_spec(row, c)
}

pub open spec fn parse_spec(headers: Seq<Seq<char>>, t: Seq<Seq<Seq<char>>>) -> Result<Seq<ParsedRowView>, Seq<char>> {
    match columns_spec(header_map_spec(headers)) {
        None => Err("날짜/일자 열이 필요합니다"@),
        Some(c) => Ok(collect_rows(t, row_fn(c))),
    }
}

/// No row with a readable date has the one negative amount whose magnitude
/// does not fit.
pub open spec fn amounts_fit(headers: Seq<Seq<char>>, t: Seq<Seq<Seq<char>>>) -> bool {
    match columns_spec(header_map_spec(headers)) {
        None => true,
        Some(c) => forall|k: int|
            0 <= k < t.len() ==> amount_spec(cell_spec(#[trigger] t[k], c.amount)) != Some(i64::MIN),
    }
}

/// A signed amount decides the type: every pasted transaction read from a
/// row whose amount cell holds a number `a` is an expense of `a` where `a`
/// is not negative, and income of `-a` where it is negative (a refund, a
/// salary). Each transaction is read from a row of the text.
pub proof fn lemma_pasted_sign_decides_type(headers: Seq<Seq<char>>, t: Seq<Seq<Seq<char>>>)
    requires
        amounts_fit(headers, t),
    ensures
        parse_spec(headers, t) matches Ok(v) ==> {
            let c = columns_spec(header_map_spec(headers))->0;
            forall|i: int|
                0 <= i < v.len() ==> exists|k: int|
                    #![trigger t[k]]
                    0 <= k < t.len() && row_spec(t[k], c) == Some(#[trigger] v[i]) && match amount_spec(
                        cell_spec(t[k], c.amount),
                    ) {
                        Some(a) => if a < 0 {
                            v[i].kind == "income"@ && v[i].amount == -a
                        } else {
                            v[i].kind == "expense"@ && v[i].amount == a
                        },
                        None => true,
                    }
        },
{
    if parse_spec(headers, t) is Ok {
        let c = columns_spec(header_map_spec(headers))->0;
        let v = collect_rows(t, row_fn(c));
        assert forall|i: int| 0 <= i < v.len() implies exists|k: int|
            #![trigger t[k]]
            0 <= k < t.len() && row_spec(t[k], c) == Some(#[trigger] v[i]) && match amount_spec(
                cell_spec(t[k], c.amount),
            ) {
                Some(a) => if a < 0 {
                    v[i].kind == "income"@ && v[i].amount == -a
                } else {
                    v[i].kind == "expense"@ && v[i].amount == a
                },
                None => true,
            } by {
            lemma_collect_rows_origin(t, row_fn(c), i);
            let k = choose|k: int| 0 <= k < t.len() && row_fn(c)(t[k]) == Some(v[i]);
            assert(row_spec(t[k], c) == Some(v[i]));
            assert(amount_spec(cell_spec(t[k], c.amount)) != Some(i64::MIN));
        }
    }
}

fn read_row(row: &Vec<String>, c: PastedColumns) -> (r: Option<ParsedRow>)
    requires
        amount_spec(cell_spec(strings_view(row@), c.amount)) != Some(i64::MIN),
    ensures
        match row_spec(strings_view(row@), c) {
            Some(v) => r matches Some(p) && p.view() == v,
            None => r is None,
        },
{
    let date = row_value(row.as_slice(), Some(c.date));
    let time = row_value(row.as_slice(), c.time);
    let transaction_at = match parse_local_datetime(date, Some(time)) {
        Some(v) => v,
        None => return None,
    };
    let amount = parse_amount(row_value(row.as_slice(), c.amount));
    let outflow = parse_amount(row_value(row.as_slice(), c.outflow));
    let inflow = parse_amount(row_value(row.as_slice(), c.inflow));
    let (kind, amount) = match amount {
        Some(v) => if v >= 0 {
            (string_of(&chars_of("expense")), v)
        } else {
            (string_of(&chars_of("income")), -v)
        },
        None => match parse_default_type(outflow, inflow) {
            Some(v) => v,
            None => return None,
        },
    };
    let merchant_name = trimmed_cell(row.as_slice(), c.merchant);
    let description = trimmed_cell(row.as_slice(), c.desc);
    let card_name = trimmed_cell(row.as_slice(), c.card);
    let account_name = trimmed_cell(row.as_slice(), c.account);
    Some(
        ParsedRow {
            transaction_at,
            kind,
            amount,
            merchant_name: opt_nonempty(&merchant_name),
            description: opt_nonempty(&description),
            account_name: opt_nonempty(&account_name),
            card_name: opt_nonempty(&card_name),
            source_institution: string_of(&chars_of("pasted_text")),
            balance_after: None,
            approval_number: None,
            branch_or_channel: None,
        },
    )
}

impl PastedCsvTextParser {
    pub fn name(&self) -> (s: &'static str)
        ensures
            s@ == "pasted_text"@,
    {
        "pasted_text"
    }

    /// How likely the text is a pasted table of transactions, in hundredths.
    pub fn detect(&self, input: &DetectInput) -> (score: u32)
        ensures
            score == detect_spec(*input),
            score <= 100,
    {
        let sample = sample_of(input);
        let markers: [&str; 7] = ["날짜", "일자", "시간", "가맹점", "금액", "출금", "입금"];
        assert(strs_view(markers@) =~= sample_markers());
        let m = marker_score(&sample, &markers, 15);
        proof {
            crate::import::parser::lemma_marker_count_le(sample@, sample_markers());
        }
        if m > 100 {
            100
        } else {
            m
        }
    }

    /// The transactions of the pasted records, read by the columns the header
    /// names.
    pub fn parse_table(&self, headers: &Vec<String>, rows: &Vec<Vec<String>>) -> (r: Result<Vec<ParsedRow>, String>)
        requires
            amounts_fit(strings_view(headers@), table_view(rows@)),
        ensures
            match parse_spec(strings_view(headers@), table_view(rows@)) {
                Ok(v) => r matches Ok(out) && rows_view(out@) == v,
                Err(e) => r matches Err(m) && m@ == e,
            },
    {
        let ghost t = table_view(rows@);
        let map = header_map(headers.as_slice());
        let a_date: [&str; 3] = ["날짜", "일자", "거래일자"];
        assert(a_date@ =~= seq!["날짜", "일자", "거래일자"]);
        let date = match ensure_column(pick_col(&map, &a_date), "날짜/일자 열이 필요합니다") {
            Ok(i) => i,
            Err(e) => return Err(e),
        };
        let a_time: [&str; 2] = ["시간", "거래시간"];
        let a_merchant: [&str; 4] = ["가맹점", "가맹점명", "내용", "상호"];
        let a_desc: [&str; 3] = ["내용", "적요", "메모"];
        let a_amount: [&str; 3] = ["금액", "이용금액", "승인금액"];
        let a_out: [&str; 2] = ["출금", "지출"];
        let a_in: [&str; 2] = ["입금", "수입"];
        let a_card: [&str; 2] = ["카드", "카드명"];
        let a_account: [&str; 2] = ["계좌", "계좌명"];
        assert(a_time@ =~= seq!["시간", "거래시간"]);
        assert(a_merchant@ =~= seq!["가맹점", "가맹점명", "내용", "상호"]);
        assert(a_desc@ =~= seq!["내용", "적요", "메모"]);
        assert(a_amount@ =~= seq!["금액", "이용금액", "승인금액"]);
        assert(a_out@ =~= seq!["출금", "지출"]);
        assert(a_in@ =~= seq!["입금", "수입"]);
        assert(a_card@ =~= seq!["카드", "카드명"]);
        assert(a_account@ =~= seq!["계좌", "계좌명"]);
        let c = PastedColumns {
            date,
            time: pick_col(&map, &a_time),
            merchant: pick_col(&map, &a_merchant),
            desc: pick_col(&map, &a_desc),
            amount: pick_col(&map, &a_amount),
            outflow: pick_col(&map, &a_out),
            inflow: pick_col(&map, &a_in),
            card: pick_col(&map, &a_card),
            account: pick_col(&map, &a_account),
        };
        assert(columns_spec(header_map_spec(strings_view(headers@))) == Some(c));
        let ghost f = row_fn(c);
        let mut out: Vec<ParsedRow> = Vec::new();
        let mut k: usize = 0;
        assert(t.take(0) =~= Seq::<Seq<Seq<char>>>::empty());
        while k < rows.len()
            invariant
                k <= rows@.len(),
                t == table_view(rows@),
                f == row_fn(c),
                amounts_fit(strings_view(headers@), t),
                columns_spec(header_map_spec(strings_view(headers@))) == Some(c),
                rows_view(out@) == collect_rows(t.take(k as int), f),
            decreases rows.len() - k,
        {
            let ghost before = out@;
            proof {
                assert(t.take(k + 1).drop_last() =~= t.take(k as int));
                assert(t.take(k + 1).last() == t[k as int]);
                assert(t[k as int] == strings_view(rows@[k as int]@));
            }
            assert(f(t[k as int]) == row_spec(t[k as int], c));
            match read_row(&rows[k], c) {
                Some(p) => {
                    out.push(p);
                    assert(rows_view(out@) =~= rows_view(before).push(out@.last().view()));
                },
                None => {},
            }
            assert(rows_view(out@) == collect_rows(t.take(k + 1), f));
            k += 1;
        }
        assert(t.take(rows@.len() as int) =~= t);
        Ok(out)
    }

    /// Whether the records meet `amounts_fit`, which `parse_table` needs.
    pub fn amounts_fit_check(&self, headers: &Vec<String>, rows: &Vec<Vec<String>>) -> (b: bool)
        ensures
            b == amounts_fit(strings_view(headers@), table_view(rows@)),
    {
        let ghost t = table_view(rows@);
        let map = header_map(headers.as_slice());
        let a_date: [&str; 3] = ["날짜", "일자", "거래일자"];
        assert(a_date@ =~= seq!["날짜", "일자", "거래일자"]);
        if pick_col(&map, &a_date).is_none() {
            return true;
        }
        let a_amount: [&str; 3] = ["금액", "이용금액", "승인금액"];
        assert(a_amount@ =~= seq!["금액", "이용금액", "승인금액"]);
        let amount = pick_col(&map, &a_amount);
        let ghost c = columns_spec(header_map_spec(strings_view(headers@)))->0;
        assert(columns_spec(header_map_spec(strings_view(headers@))) == Some(c));
        assert(c.amount == amount);
        let mut k: usize = 0;
        while k < rows.len()
            invariant
                k <= rows@.len(),
                t == table_view(rows@),
                c.amount == amount,
                columns_spec(header_map_spec(strings_view(headers@))) == Some(c),
                forall|j: int| 0 <= j < k ==> amount_spec(cell_spec(#[trigger] t[j], c.amount)) != Some(i64::MIN),
            decreases rows.len() - k,
        {
            assert(t[k as int] == strings_view(rows@[k as int]@));
            if parse_amount(row_value(rows[k].as_slice(), amount)) == Some(i64::MIN) {
                assert(amount_spec(cell_spec(t[k as int], c.amount)) == Some(i64::MIN));
                assert(!amounts_fit(strings_view(headers@), t));
                return false;
            }
            k += 1;
        }
        true
    }

    /// The transactions of pasted CSV text: its records (see `csv_records`)
    /// read by `parse_table`. Where a record holds an amount of `i64::MIN`,
    /// whose magnitude does not fit, the text is refused.
    pub fn parse(&self, content: &[u8]) -> (r: Result<Vec<ParsedRow>, String>)
        ensures
            match csv_read_spec(content@, delimiter_spec(utf8_lossy(content@))) {
                None => r is Err,
                Some((h, t)) => if amounts_fit(h, t) {
                    match parse_spec(h, t) {
                        Ok(v) => r matches Ok(out) && rows_view(out@) == v,
                        Err(e) => r matches Err(m) && m@ == e,
                    }
                } else {
                    r is Err
                },
            },
    {
        let (headers, rows) = match csv_records(content) {
            Ok(t) => t,
            Err(e) => return Err(e),
        };
        if !self.amounts_fit_check(&headers, &rows) {
            return Err(string_of(&chars_of("금액이 너무 큽니다")));
        }
        self.parse_table(&headers, &rows)
    }
}

} // verus!
