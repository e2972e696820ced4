//! KREAM resale bookkeeping: reading sales files, keying the sales, and the
//! figures and checks of the sales handlers.
use vstd::prelude::*;

use crate::calendar::{
    add_days, chrono_add_days, chrono_date, chrono_date_text, chrono_datetime_date, format_date,
    parse_date_fmt, parse_datetime_date_fmt, CalendarDate,
};
use crate::digest::{is_digest_text, sha256_hex, sha256_hex_spec};
use crate::import::dedupe::{uuid_string, uuid_text};
use crate::services::kream_rules::{
    normalize_keyword, normalize_keyword_spec, sql_keyword_pattern, sql_keyword_pattern_spec,
};
use crate::errors::{is_bad_request, AppError};
use crate::import::parser::{table_view, utf8_lossy, utf8_lossy_string};
use crate::import::tables::{csv_read, csv_read_spec, first_line, first_line_of, CsvFailure};
use crate::numbers::{dec_chars, dec_seq, i64_to_string, int_string, lemma_dec_seq_digits, parse_i64, parse_i64_spec};
use crate::text::{
    append_str, chars_of, is_digit, is_ws, join_seq, join_strings, str_eq, lemma_filter_take_step, lowercase, lowercase_chars,
    remove_whitespace, not_ws, string_of, string_of_range, strings_view, trim, trim_chars, trim_seq,
};

verus! {

// ───────────────────────── headers and cells ─────────────────────────

/// A character that header matching ignores: whitespace, `_`, `-`, `/`,
/// `(` and `)`.
pub open spec fn header_noise(c: char) -> bool {
    is_ws(c) || c == '_' || c == '-' || c == '/' || c == '(' || c == ')'
}

pub open spec fn not_header_noise() -> spec_fn(char) -> bool {
    |c: char| !header_noise(c)
}

/// A header as columns are matched by: without noise characters, in lower
/// case.
pub open spec fn header_key(value: Seq<char>) -> Seq<char> {
    lowercase(value.filter(not_header_noise()))
}

/// A value as sales are keyed by: without whitespace, in lower case.
pub open spec fn value_key(value: Seq<char>) -> Seq<char> {
    lowercase(value.filter(not_ws()))
}

fn header_key_chars(value: &Vec<char>) -> (r: Vec<char>)
    ensures
        r@ == header_key(value@),
{
    let mut kept: Vec<char> = Vec::new();
    let mut i: usize = 0;
    while i < value.len()
        invariant
            i <= value.len(),
            kept@ == value@.take(i as int).filter(not_header_noise()),
        decreases value.len() - i,
    {
        proof {
            lemma_filter_take_step(value@, i as int, not_header_noise());
        }
        let c = value[i];
        if !(crate::text::is_whitespace(c) || c == '_' || c == '-' || c == '/' || c == '(' || c == ')') {
            kept.push(c);
        }
        i += 1;
    }
    assert(value@.take(value.len() as int) =~= value@);
    lowercase_chars(&kept)
}

/// A header without whitespace and the characters `_-/()`, in lower case.
pub fn normalize_header(value: &str) -> (r: String)
    ensures
        r@ == header_key(value@),
{
    string_of(&header_key_chars(&chars_of(value)))
}

/// A value without whitespace, in lower case.
pub fn normalize_value(value: &str) -> (r: String)
    ensures
        r@ == value_key(value@),
{
    string_of(&lowercase_chars(&remove_whitespace(&chars_of(value))))
}

/// `h` matches one of the candidates once both are normalised.
pub open spec fn header_among(h: Seq<char>, cands: Seq<Seq<char>>) -> bool {
    exists|j: int| 0 <= j < cands.len() && header_key(cands[j]) == header_key(h)
}

/// The first header from position `i` that matches a candidate.
pub open spec fn find_col_from(headers: Seq<Seq<char>>, cands: Seq<Seq<char>>, i: int) -> Option<int>
    decreases headers.len() - i,
{
    if i < 0 || i >= headers.len() {
        None
    } else if header_among(headers[i], cands) {
        Some(i)
    } else {
        find_col_from(headers, cands, i + 1)
    }
}

pub open spec fn strs_view(v: Seq<&str>) -> Seq<Seq<char>> {
    v.map_values(|s: &str| s@)
}

fn candidate_keys(candidates: &[&str]) -> (keys: Vec<Vec<char>>)
    ensures
        keys@.len() == candidates@.len(),
        forall|j: int| 0 <= j < keys@.len() ==> #[trigger] keys@[j]@ == header_key(candidates@[j]@),
{
    let mut keys: Vec<Vec<char>> = Vec::new();
    let mut j: usize = 0;
    while j < candidates.len()
        invariant
            j <= candidates@.len(),
            keys@.len() == j,
            forall|k: int| 0 <= k < j ==> #[trigger] keys@[k]@ == header_key(candidates@[k]@),
        decreases candidates@.len() - j,
    {
        keys.push(header_key_chars(&chars_of(candidates[j])));
        j += 1;
    }
    keys
}

fn key_among(key: &Vec<char>, keys: &Vec<Vec<char>>) -> (b: bool)
    ensures
        b == exists|j: int| 0 <= j < keys@.len() && keys@[j]@ == key@,
{
    let mut j: usize = 0;
    while j < keys.len()
        invariant
            j <= keys@.len(),
            forall|k: int| 0 <= k < j ==> keys@[k]@ != key@,
        decreases keys@.len() - j,
    {
        if crate::text::chars_eq(&keys[j], key) {
            return true;
        }
        j += 1;
    }
    false
}

/// The position of the first header that matches one of the candidates,
/// both taken without noise characters and in lower case.
pub fn find_col(headers: &Vec<String>, candidates: &[&str]) -> (r: Option<usize>)
    ensures
        match find_col_from(strings_view(headers@), strs_view(candidates@), 0) {
            Some(i) => r == Some(i as usize),
            None => r is None,
        },
{
    let ghost hs = strings_view(headers@);
    let ghost cs = strs_view(candidates@);
    let keys = candidate_keys(candidates);
    let mut i: usize = 0;
    while i < headers.len()
        invariant
            i <= headers@.len(),
            hs == strings_view(headers@),
            cs == strs_view(candidates@),
            keys@.len() == cs.len(),
            forall|j: int| 0 <= j < keys@.len() ==> #[trigger] keys@[j]@ == header_key(cs[j]),
            find_col_from(hs, cs, 0) == find_col_from(hs, cs, i as int),
        decreases headers@.len() - i,
    {
        let key = header_key_chars(&chars_of(headers[i].as_str()));
        assert(hs[i as int] == headers@[i as int]@);
        if key_among(&key, &keys) {
            proof {
                let j = choose|j: int| 0 <= j < keys@.len() && keys@[j]@ == key@;
                assert(header_key(cs[j]) == header_key(hs[i as int]));
            }
            return Some(i);
        }
        proof {
            assert forall|j: int| 0 <= j < cs.len() implies header_key(cs[j]) != header_key(
                hs[i as int],
            ) by {
                assert(keys@[j]@ == header_key(cs[j]));
            }
        }
        i += 1;
    }
    None
}

/// The message for a column that a sales file lacks.
pub open spec fn missing_column_message(label: Seq<char>) -> Seq<char> {
    label + " column is required"@
}

/// The column's position, or the error naming the missing column.
pub fn require_col(value: Option<usize>, label: &str) -> (r: Result<usize, AppError>)
    ensures
        match value {
            Some(i) => r == Ok::<usize, AppError>(i),
            None => r matches Err(e) && is_bad_request(e, missing_column_message(label@)),
        },
{
    match value {
        Some(i) => Ok(i),
        None => {
            let mut m = string_of(&chars_of(label));
            append_str(&mut m, " column is required");
            Err(AppError::BadRequest(m))
        },
    }
}

/// One of the (already normalised) values matches a candidate.
pub open spec fn has_any_spec(values: Seq<Seq<char>>, cands: Seq<Seq<char>>) -> bool {
    exists|i: int, j: int|
        0 <= i < values.len() && 0 <= j < cands.len() && values[i] == header_key(cands[j])
}

/// Whether one of the normalised `values` is one of the candidates.
pub fn has_any(values: &Vec<String>, candidates: &[&str]) -> (b: bool)
    ensures
        b == has_any_spec(strings_view(values@), strs_view(candidates@)),
{
    let ghost vs = strings_view(values@);
    let ghost cs = strs_view(candidates@);
    let keys = candidate_keys(candidates);
    let mut i: usize = 0;
    while i < values.len()
        invariant
            i <= values@.len(),
            vs == strings_view(values@),
            cs == strs_view(candidates@),
            keys@.len() == cs.len(),
            forall|j: int| 0 <= j < keys@.len() ==> #[trigger] keys@[j]@ == header_key(cs[j]),
            forall|k: int, j: int| 0 <= k < i && 0 <= j < cs.len() ==> vs[k] != header_key(cs[j]),
        decreases values@.len() - i,
    {
        let v = chars_of(values[i].as_str());
        assert(vs[i as int] == values@[i as int]@);
        if key_among(&v, &keys) {
            proof {
                let j = choose|j: int| 0 <= j < keys@.len() && keys@[j]@ == v@;
                assert(vs[i as int] == header_key(cs[j]));
            }
            return true;
        }
        proof {
            assert forall|j: int| 0 <= j < cs.len() implies vs[i as int] != header_key(cs[j]) by {
                assert(keys@[j]@ == header_key(cs[j]));
            }
        }
        i += 1;
    }
    false
}

/// The cell at `idx`, or empty text past the row's end.
pub open spec fn cell_spec(row: Seq<Seq<char>>, idx: int) -> Seq<char> {
    if 0 <= idx < row.len() {
        row[idx]
    } else {
        Seq::<char>::empty()
    }
}

/// The cell of a row at `idx`; empty past the row's end.
pub fn cell(row: &Vec<String>, idx: usize) -> (r: &str)
    ensures
        r@ == cell_spec(strings_view(row@), idx as int),
{
    if idx < row.len() {
        assert(strings_view(row@)[idx as int] == row@[idx as int]@);
        row[idx].as_str()
    } else {
        proof {
            reveal_strlit("");
        }
        ""
    }
}

// ───────────────────────── amounts and dates ─────────────────────────

pub open spec fn money_char() -> spec_fn(char) -> bool {
    |c: char| is_digit(c) || c == '-'
}

/// The digits and minus signs of the trimmed value.
pub open spec fn money_text(value: Seq<char>) -> Seq<char> {
    trim_seq(value).filter(money_char())
}

/// A money cell: nothing where it holds no digits (or a lone `-`), else the
/// integer its digits and minus signs make, or an error where they make
/// none.
pub open spec fn optional_money_spec(value: Seq<char>) -> Result<Option<i64>, Seq<char>> {
    let cleaned = money_text(value);
    if cleaned.len() == 0 || cleaned == seq!['-'] {
        Ok(None)
    } else {
        match parse_i64_spec(cleaned) {
            Some(v) => Ok(Some(v)),
            None => Err("invalid money value: "@ + value),
        }
    }
}

/// A money cell that may be blank.
pub fn parse_optional_money(value: &str) -> (r: Result<Option<i64>, AppError>)
    ensures
        match optional_money_spec(value@) {
            Ok(v) => r == Ok::<Option<i64>, AppError>(v),
            Err(m) => r matches Err(e) && is_bad_request(e, m),
        },
{
    let t = trim_chars(&chars_of(value));
    let mut cleaned: Vec<char> = Vec::new();
    let mut i: usize = 0;
    while i < t.len()
        invariant
            i <= t.len(),
            cleaned@ == t@.take(i as int).filter(money_char()),
        decreases t.len() - i,
    {
        proof {
            lemma_filter_take_step(t@, i as int, money_char());
        }
        let c = t[i];
        if crate::text::is_ascii_digit(c) || c == '-' {
            cleaned.push(c);
        }
        i += 1;
    }
    assert(t@.take(t.len() as int) =~= t@);
    if cleaned.len() == 0 || (cleaned.len() == 1 && cleaned[0] == '-') {
        assert(cleaned.len() == 1 ==> cleaned@ =~= seq![cleaned@[0]]);
        return Ok(None);
    }
    assert(cleaned@ != seq!['-']);
    match parse_i64(&cleaned) {
        Some(v) => Ok(Some(v)),
        None => {
            let mut m = string_of(&chars_of("invalid money value: "));
            append_str(&mut m, value);
            Err(AppError::BadRequest(m))
        },
    }
}

/// The message for a required value that is blank.
pub open spec fn required_message(label: Seq<char>) -> Seq<char> {
    label + " is required"@
}

/// A money cell that must not be blank.
pub open spec fn money_spec(value: Seq<char>, label: Seq<char>) -> Result<i64, Seq<char>> {
    match optional_money_spec(value) {
        Ok(Some(v)) => Ok(v),
        Ok(None) => Err(required_message(label)),
        Err(m) => Err(m),
    }
}

/// A money cell that must not be blank; `label` names it in the error.
pub fn parse_money(value: &str, label: &str) -> (r: Result<i64, AppError>)
    ensures
        match money_spec(value@, label@) {
            Ok(v) => r == Ok::<i64, AppError>(v),
            Err(m) => r matches Err(e) && is_bad_request(e, m),
        },
{
    match parse_optional_money(value) {
        Ok(Some(v)) => Ok(v),
        Ok(None) => {
            let mut m = string_of(&chars_of(label));
            append_str(&mut m, " is required");
            Err(AppError::BadRequest(m))
        },
        Err(e) => Err(e),
    }
}

/// The layouts a sales date is tried in, in order; each is tried as a date
/// and then as a date with a time.
pub open spec fn kream_date_formats() -> Seq<Seq<char>> {
    seq![
        "%Y-%m-%d"@,
        "%Y.%m.%d"@,
        "%Y/%m/%d"@,
        "%Y%m%d"@,
        "%Y-%m-%d %H:%M:%S"@,
        "%Y.%m.%d %H:%M:%S"@,
        "%m/%d/%Y"@,
    ]
}

/// The date that the first fitting layout from position `i` reads.
pub open spec fn date_from_formats(v: Seq<char>, fmts: Seq<Seq<char>>, i: int) -> Option<(i32, u32, u32)>
    decreases fmts.len() - i,
{
    if i < 0 || i >= fmts.len() {
        None
    } else {
        match chrono_date(v, fmts[i]) {
            Some(d) => Some(d),
            None => match chrono_datetime_date(v, fmts[i]) {
                Some(d) => Some(d),
                None => date_from_formats(v, fmts, i + 1),
            },
        }
    }
}

/// A date cell. `serial_days` is the value read as a spreadsheet serial
/// number and cut to whole days, where it reads as a number; serial numbers
/// from 20000 to 69999 count days from 1899-12-30.
pub open spec fn kream_date_spec(value: Seq<char>, label: Seq<char>, serial_days: Option<i64>) -> Result<CalendarDate, Seq<char>> {
    let v = trim_seq(value);
    let unsupported = label + " has an unsupported date format: "@ + v;
    if v.len() == 0 {
        Err(required_message(label))
    } else {
        match date_from_formats(v, kream_date_formats(), 0) {
            Some((y, m, d)) => Ok(CalendarDate { year: y, month: m, day: d }),
            None => match serial_days {
                Some(days) => if 20000 <= days < 70000 {
                    match chrono_add_days(1899, 12, 30, days) {
                        Some((y, m, d)) => Ok(CalendarDate { year: y, month: m, day: d }),
                        None => Err(unsupported),
                    }
                } else {
                    Err(unsupported)
                },
                None => Err(unsupported),
            },
        }
    }
}

/// A date cell of a sales file; see `kream_date_spec`.
pub fn parse_date(value: &str, label: &str, serial_days: Option<i64>) -> (r: Result<CalendarDate, AppError>)
    ensures
        match kream_date_spec(value@, label@, serial_days) {
            Ok(d) => r == Ok::<CalendarDate, AppError>(d),
            Err(m) => r matches Err(e) && is_bad_request(e, m),
        },
        r matches Ok(d) ==> d.valid(),
{
    let v = trim(value);
    if v.as_str().unicode_len() == 0 {
        let mut m = string_of(&chars_of(label));
        append_str(&mut m, " is required");
        return Err(AppError::BadRequest(m));
    }
    let fmts: Vec<&str> = vec![
        "%Y-%m-%d",
        "%Y.%m.%d",
        "%Y/%m/%d",
        "%Y%m%d",
        "%Y-%m-%d %H:%M:%S",
        "%Y.%m.%d %H:%M:%S",
        "%m/%d/%Y",
    ];
    let ghost all = kream_date_formats();
    assert(fmts@.len() == all.len());
    let mut i: usize = 0;
    while i < fmts.len()
        invariant
            i <= fmts@.len(),
            fmts@.len() == all.len(),
            all == kream_date_formats(),
            forall|j: int| 0 <= j < fmts@.len() ==> #[trigger] fmts@[j]@ == all[j],
            date_from_formats(v@, all, 0) == date_from_formats(v@, all, i as int),
            v@ == trim_seq(value@),
            v@.len() > 0,
        decreases fmts@.len() - i,
    {
        match parse_date_fmt(v.as_str(), fmts[i]) {
            Some((y, m, d)) => return Ok(CalendarDate { year: y, month: m, day: d }),
            None => {},
        }
        match parse_datetime_date_fmt(v.as_str(), fmts[i]) {
            Some((y, m, d)) => return Ok(CalendarDate { year: y, month: m, day: d }),
            None => {},
        }
        i += 1;
    }
    let mut m = string_of(&chars_of(label));
    append_str(&mut m, " has an unsupported date format: ");
    append_str(&mut m, v.as_str());
    match serial_days {
        Some(days) => {
            if 20000 <= days && days < 70000 {
                match add_days(1899, 12, 30, days) {
                    Some((y, mo, d)) => return Ok(CalendarDate { year: y, month: mo, day: d }),
                    None => {},
                }
            }
        },
        None => {},
    }
    Err(AppError::BadRequest(m))
}

// ───────────────────────── sales rows ─────────────────────────

/// One sale read from a sales file.
#[derive(Debug, Clone)]
pub struct KreamRow {
    pub product_name: String,
    pub purchase_date: CalendarDate,
    pub settlement_date: CalendarDate,
    pub purchase_price: i64,
    pub settlement_price: i64,
    pub side_cost: i64,
    pub external_id: Option<String>,
    pub source_row_index: i32,
}

/// A sale as its contracts see it.
pub struct KreamRowView {
    pub product_name: Seq<char>,
    pub purchase_date: CalendarDate,
    pub settlement_date: CalendarDate,
    pub purchase_price: i64,
    pub settlement_price: i64,
    pub side_cost: i64,
    pub external_id: Option<Seq<char>>,
    pub source_row_index: i32,
}

impl View for KreamRow {
    type V = KreamRowView;

    open spec fn view(&self) -> KreamRowView {
        KreamRowView {
            product_name: self.product_name@,
            purchase_date: self.purchase_date,
            settlement_date: self.settlement_date,
            purchase_price: self.purchase_price,
            settlement_price: self.settlement_price,
            side_cost: self.side_cost,
            external_id: match self.external_id {
                Some(s) => Some(s@),
                None => None,
            },
            source_row_index: self.source_row_index,
        }
    }
}

pub open spec fn kream_rows_view(v: Seq<KreamRow>) -> Seq<KreamRowView> {
    v.map_values(|r: KreamRow| r.view())
}

/// The columns of a sales file.
#[derive(Debug, Clone, Copy, PartialEq, Eq)]
pub struct KreamColumns {
    pub product: usize,
    pub purchase_date: usize,
    pub settlement_date: usize,
    pub purchase_price: usize,
    pub settlement_price: usize,
    pub side_cost: Option<usize>,
    pub external_id: Option<usize>,
}

pub open spec fn product_names() -> Seq<Seq<char>> {
    seq!["상품명"@, "productname"@, "product"@]
}

pub open spec fn purchase_date_names() -> Seq<Seq<char>> {
    seq!["구매날짜"@, "구매일"@, "purchasedate"@]
}

pub open spec fn settlement_date_names() -> Seq<Seq<char>> {
    seq!["정산날짜"@, "정산일"@, "settlementdate"@]
}

pub open spec fn purchase_price_names() -> Seq<Seq<char>> {
    seq!["구매가격"@, "구매가"@, "purchaseprice"@, "cost"@]
}

pub open spec fn settlement_price_names() -> Seq<Seq<char>> {
    seq!["정산가격"@, "정산가"@, "settlementprice"@, "settlement"@]
}

pub open spec fn side_cost_names() -> Seq<Seq<char>> {
    seq!["부대비용"@, "배송비"@, "택배비"@, "sidecost"@, "additionalcost"@]
}

pub open spec fn external_id_names() -> Seq<Seq<char>> {
    seq!["주문번호"@, "판매번호"@, "관리번호"@, "orderno"@, "orderid"@]
}

pub open spec fn opt_usize(o: Option<int>) -> Option<usize> {
    match o {
        Some(i) => Some(i as usize),
        None => None,
    }
}

/// The columns the header names, or the error for the first required one
/// it lacks (product, purchase date, settlement date, purchase price,
/// settlement price, in that order).
pub open spec fn kream_columns_spec(headers: Seq<Seq<char>>) -> Result<KreamColumns, Seq<char>> {
    match find_col_from(headers, product_names(), 0) {
        None => Err(missing_column_message("상품명"@)),
        Some(product) => match find_col_from(headers, purchase_date_names(), 0) {
            None => Err(missing_column_message("구매 날짜"@)),
            Some(pd) => match find_col_from(headers, settlement_date_names(), 0) {
                None => Err(missing_column_message("정산 날짜"@)),
                Some(sd) => match find_col_from(headers, purchase_price_names(), 0) {
                    None => Err(missing_column_message("구매가격"@)),
                    Some(pp) => match find_col_from(headers, settlement_price_names(), 0) {
                        None => Err(missing_column_message("정산 가격"@)),
                        Some(sp) => Ok(
                            KreamColumns {
                                product: product as usize,
                                purchase_date: pd as usize,
                                settlement_date: sd as usize,
                                purchase_price: pp as usize,
                                settlement_price: sp as usize,
                                side_cost: opt_usize(find_col_from(headers, side_cost_names(), 0)),
                                external_id: opt_usize(
                                    find_col_from(headers, external_id_names(), 0),
                                ),
                            },
                        ),
                    },
                },
            },
        },
    }
}

/// Every cell of the row is blank once trimmed.
pub open spec fn blank_row(row: Seq<Seq<char>>) -> bool {
    forall|k: int| 0 <= k < row.len() ==> #[trigger] trim_seq(row[k]).len() == 0
}

/// The serial-number reading of a cell; see `kream_date_spec`.
pub open spec fn serial_of(serials: Seq<Option<i64>>, idx: int) -> Option<i64> {
    if 0 <= idx < serials.len() {
        serials[idx]
    } else {
        None
    }
}

/// What the row at position `idx` of the data becomes: skipped (`Ok(None)`)
/// where it is blank or names no product, else a sale, or the error of its
/// first bad cell.
pub open spec fn kream_row_spec(row: Seq<Seq<char>>, c: KreamColumns, serials: Seq<Option<i64>>, idx: int) -> Result<Option<KreamRowView>, Seq<char>> {
    let product = trim_seq(cell_spec(row, c.product as int));
    if blank_row(row) || product.len() == 0 {
        Ok(None)
    } else {
        match kream_date_spec(
            cell_spec(row, c.purchase_date as int),
            "구매 날짜"@,
            serial_of(serials, c.purchase_date as int),
        ) {
            Err(m) => Err(m),
            Ok(pd) => match kream_date_spec(
                cell_spec(row, c.settlement_date as int),
                "정산 날짜"@,
                serial_of(serials, c.settlement_date as int),
            ) {
                Err(m) => Err(m),
                Ok(sd) => match money_spec(cell_spec(row, c.purchase_price as int), "구매가격"@) {
                    Err(m) => Err(m),
                    Ok(pp) => match money_spec(
                        cell_spec(row, c.settlement_price as int),
                        "정산 가격"@,
                    ) {
                        Err(m) => Err(m),
                        Ok(sp) => {
                            let side: Result<i64, Seq<char>> = match c.side_cost {
                                Some(col) => match optional_money_spec(cell_spec(row, col as int)) {
                                    Ok(Some(v)) => Ok(v),
                                    Ok(None) => Ok(0),
                                    Err(m) => Err(m),
                                },
                                None => Ok(0),
                            };
                            match side {
                                Err(m) => Err(m),
                                Ok(sc) => Ok(
                                    Some(
                                        KreamRowView {
                                            product_name: product,
                                            purchase_date: pd,
                                            settlement_date: sd,
                                            purchase_price: pp,
                                            settlement_price: sp,
                                            side_cost: sc,
                                            external_id: match c.external_id {
                                                Some(col) => {
                                                    let e = trim_seq(cell_spec(row, col as int));
                                                    if e.len() == 0 {
                                                        None
                                                    } else {
                                                        Some(e)
                                                    }
                                                },
                                                None => None,
                                            },
                                            source_row_index: (idx + 2) as i32,
                                        },
                                    ),
                                ),
                            }
                        },
                    },
                },
            },
        }
    }
}

pub open spec fn serial_row(serials: Seq<Seq<Option<i64>>>, k: int) -> Seq<Option<i64>> {
    if 0 <= k < serials.len() {
        serials[k]
    } else {
        Seq::<Option<i64>>::empty()
    }
}

/// The sales of the first `k` data rows, or the error of the first bad row.
pub open spec fn kream_rows_prefix(t: Seq<Seq<Seq<char>>>, c: KreamColumns, serials: Seq<Seq<Option<i64>>>, k: int) -> Result<Seq<KreamRowView>, Seq<char>>
    decreases k,
{
    if k <= 0 {
        Ok(Seq::<KreamRowView>::empty())
    } else {
        match kream_rows_prefix(t, c, serials, k - 1) {
            Err(m) => Err(m),
            Ok(prev) => match kream_row_spec(t[k - 1], c, serial_row(serials, k - 1), k - 1) {
                Err(m) => Err(m),
                Ok(None) => Ok(prev),
                Ok(Some(r)) => Ok(prev.push(r)),
            },
        }
    }
}

/// The sales of a table: its columns, then each data row in order.
pub open spec fn kream_rows_spec(headers: Seq<Seq<char>>, t: Seq<Seq<Seq<char>>>, serials: Seq<Seq<Option<i64>>>) -> Result<Seq<KreamRowView>, Seq<char>> {
    match kream_columns_spec(headers) {
        Err(m) => Err(m),
        Ok(c) => kream_rows_prefix(t, c, serials, t.len() as int),
    }
}

/// Once a row fails, the table fails with that row's error.
proof fn lemma_prefix_error_persists(t: Seq<Seq<Seq<char>>>, c: KreamColumns, sv: Seq<Seq<Option<i64>>>, k: int, n: int)
    requires
        0 <= k <= n,
        kream_rows_prefix(t, c, sv, k) is Err,
    ensures
        kream_rows_prefix(t, c, sv, n) == kream_rows_prefix(t, c, sv, k),
    decreases n - k,
{
    if k < n {
        lemma_prefix_error_persists(t, c, sv, k, n - 1);
    }
}

fn kream_columns(headers: &Vec<String>) -> (r: Result<KreamColumns, AppError>)
    ensures
        match kream_columns_spec(strings_view(headers@)) {
            Ok(c) => r == Ok::<KreamColumns, AppError>(c),
            Err(m) => r matches Err(e) && is_bad_request(e, m),
        },
{
    let a_product: [&str; 3] = ["상품명", "productname", "product"];
    let a_pd: [&str; 3] = ["구매날짜", "구매일", "purchasedate"];
    let a_sd: [&str; 3] = ["정산날짜", "정산일", "settlementdate"];
    let a_pp: [&str; 4] = ["구매가격", "구매가", "purchaseprice", "cost"];
    let a_sp: [&str; 4] = ["정산가격", "정산가", "settlementprice", "settlement"];
    let a_side: [&str; 5] = ["부대비용", "배송비", "택배비", "sidecost", "additionalcost"];
    let a_ext: [&str; 5] = ["주문번호", "판매번호", "관리번호", "orderno", "orderid"];
    assert(strs_view(a_product@) =~= product_names());
    assert(strs_view(a_pd@) =~= purchase_date_names());
    assert(strs_view(a_sd@) =~= settlement_date_names());
    assert(strs_view(a_pp@) =~= purchase_price_names());
    assert(strs_view(a_sp@) =~= settlement_price_names());
    assert(strs_view(a_side@) =~= side_cost_names());
    assert(strs_view(a_ext@) =~= external_id_names());
    let product = find_col(headers, &a_product);
    let pd = find_col(headers, &a_pd);
    let sd = find_col(headers, &a_sd);
    let pp = find_col(headers, &a_pp);
    let sp = find_col(headers, &a_sp);
    let side = find_col(headers, &a_side);
    let ext = find_col(headers, &a_ext);
    let product = match require_col(product, "상품명") {
        Ok(i) => i,
        Err(e) => return Err(e),
    };
    let pd = match require_col(pd, "구매 날짜") {
        Ok(i) => i,
        Err(e) => return Err(e),
    };
    let sd = match require_col(sd, "정산 날짜") {
        Ok(i) => i,
        Err(e) => return Err(e),
    };
    let pp = match require_col(pp, "구매가격") {
        Ok(i) => i,
        Err(e) => return Err(e),
    };
    let sp = match require_col(sp, "정산 가격") {
        Ok(i) => i,
        Err(e) => return Err(e),
    };
    Ok(
        KreamColumns {
            product,
            purchase_date: pd,
            settlement_date: sd,
            purchase_price: pp,
            settlement_price: sp,
            side_cost: side,
            external_id: ext,
        },
    )
}

fn is_blank_row(row: &Vec<String>) -> (b: bool)
    ensures
        b == blank_row(strings_view(row@)),
{
    let ghost r = strings_view(row@);
    let mut k: usize = 0;
    while k < row.len()
        invariant
            k <= row@.len(),
            r == strings_view(row@),
            forall|j: int| 0 <= j < k ==> #[trigger] trim_seq(r[j]).len() == 0,
        decreases row@.len() - k,
    {
        assert(r[k as int] == row@[k as int]@);
        if trim(row[k].as_str()).as_str().unicode_len() != 0 {
            return false;
        }
        k += 1;
    }
    true
}

fn serials_of(serials: &Vec<Vec<Option<i64>>>, k: usize) -> (r: Vec<Option<i64>>)
    ensures
        r@ == serial_row(serials@.map_values(|v: Vec<Option<i64>>| v@), k as int),
{
    if k < serials.len() {
        serials[k].clone()
    } else {
        Vec::new()
    }
}

fn serial_at(serials: &Vec<Option<i64>>, idx: usize) -> (r: Option<i64>)
    ensures
        r == serial_of(serials@, idx as int),
{
    if idx < serials.len() {
        serials[idx]
    } else {
        None
    }
}

fn kream_row(row: &Vec<String>, c: KreamColumns, serials: &Vec<Option<i64>>, idx: usize) -> (r: Result<Option<KreamRow>, AppError>)
    requires
        idx + 2 <= i32::MAX,
    ensures
        match kream_row_spec(strings_view(row@), c, serials@, idx as int) {
            Ok(None) => r matches Ok(None),
            Ok(Some(v)) => r matches Ok(Some(k)) && k.view() == v,
            Err(m) => r matches Err(e) && is_bad_request(e, m),
        },
        r matches Ok(Some(k)) ==> k.purchase_date.valid() && k.settlement_date.valid(),
{
    if is_blank_row(row) {
        return Ok(None);
    }
    let product = trim(cell(row, c.product));
    if product.as_str().unicode_len() == 0 {
        return Ok(None);
    }
    let purchase_date = match parse_date(
        cell(row, c.purchase_date),
        "구매 날짜",
        serial_at(serials, c.purchase_date),
    ) {
        Ok(d) => d,
        Err(e) => return Err(e),
    };
    let settlement_date = match parse_date(
        cell(row, c.settlement_date),
        "정산 날짜",
        serial_at(serials, c.settlement_date),
    ) {
        Ok(d) => d,
        Err(e) => return Err(e),
    };
    let purchase_price = match parse_money(cell(row, c.purchase_price), "구매가격") {
        Ok(v) => v,
        Err(e) => return Err(e),
    };
    let settlement_price = match parse_money(cell(row, c.settlement_price), "정산 가격") {
        Ok(v) => v,
        Err(e) => return Err(e),
    };
    let side_cost = match c.side_cost {
        Some(col) => match parse_optional_money(cell(row, col)) {
            Ok(Some(v)) => v,
            Ok(None) => 0,
            Err(e) => return Err(e),
        },
        None => 0,
    };
    let external_id = match c.external_id {
        Some(col) => {
            let e = trim(cell(row, col));
            if e.as_str().unicode_len() == 0 {
                None
            } else {
                Some(e)
            }
        },
        None => None,
    };
    Ok(
        Some(
            KreamRow {
                product_name: product,
                purchase_date,
                settlement_date,
                purchase_price,
                settlement_price,
                side_cost,
                external_id,
                source_row_index: (idx + 2) as i32,
            },
        ),
    )
}

/// The sales of a table read from a sales file: `headers` name the columns
/// and each row of `rows` is a sale, unless it is blank or names no
/// product. `serials` holds, cell by cell, each value read as a spreadsheet
/// serial number (see `kream_date_spec`). The first bad cell fails the file.
pub fn rows_to_kream_rows(headers: &Vec<String>, rows: &Vec<Vec<String>>, serials: &Vec<Vec<Option<i64>>>) -> (r: Result<Vec<KreamRow>, AppError>)
    requires
        rows@.len() + 2 <= i32::MAX,
    ensures
        match kream_rows_spec(
            strings_view(headers@),
            table_view(rows@),
            serials@.map_values(|v: Vec<Option<i64>>| v@),
        ) {
            Ok(v) => r matches Ok(out) && kream_rows_view(out@) == v,
            Err(m) => r matches Err(e) && is_bad_request(e, m),
        },
        r matches Ok(out) ==> forall|i: int|
            0 <= i < out@.len() ==> (#[trigger] out@[i]).purchase_date.valid()
                && out@[i].settlement_date.valid(),
        r matches Ok(out) ==> out@.len() <= rows@.len(),
{
    let ghost t = table_view(rows@);
    let ghost sv = serials@.map_values(|v: Vec<Option<i64>>| v@);
    let c = match kream_columns(headers) {
        Ok(c) => c,
        Err(e) => return Err(e),
    };
    let mut out: Vec<KreamRow> = Vec::new();
    let mut k: usize = 0;
    assert(kream_rows_view(out@) =~= Seq::<KreamRowView>::empty());
    while k < rows.len()
        invariant
            k <= rows@.len(),
            rows@.len() + 2 <= i32::MAX,
            kream_columns_spec(strings_view(headers@)) == Ok::<KreamColumns, Seq<char>>(c),
            t == table_view(rows@),
            sv == serials@.map_values(|v: Vec<Option<i64>>| v@),
            kream_rows_prefix(t, c, sv, k as int) == Ok::<Seq<KreamRowView>, Seq<char>>(
                kream_rows_view(out@),
            ),
            out@.len() <= k,
            forall|i: int|
                0 <= i < out@.len() ==> (#[trigger] out@[i]).purchase_date.valid()
                    && out@[i].settlement_date.valid(),
        decreases rows@.len() - k,
    {
        let ghost before = out@;
        let sr = serials_of(serials, k);
        assert(t[k as int] == strings_view(rows@[k as int]@));
        match kream_row(&rows[k], c, &sr, k) {
            Ok(Some(row)) => {
                out.push(row);
                assert(kream_rows_view(out@) =~= kream_rows_view(before).push(out@.last().view()));
            },
            Ok(None) => {},
            Err(e) => {
                proof {
                    lemma_prefix_error_persists(t, c, sv, k + 1, t.len() as int);
                }
                return Err(e);
            },
        }
        k += 1;
    }
    assert(t.len() == rows@.len());
    Ok(out)
}

// ───────────────────────── sales files ─────────────────────────

/// The delimiter of a sales CSV text: a tab where its first line holds one,
/// else a comma.
pub open spec fn kream_delimiter(text: Seq<char>) -> u8 {
    if first_line(text).contains('\t') {
        9u8
    } else {
        44u8
    }
}

/// The header and records of a sales CSV file: the bytes are read as UTF-8
/// with replacement characters, and that text is read with the delimiter of
/// `kream_delimiter`. The reader's failure is the error, with its message.
pub fn kream_csv_table(content: &[u8]) -> (r: Result<(Vec<String>, Vec<Vec<String>>), AppError>)
    ensures
        ({
            let text = utf8_lossy(content@);
            let d = kream_delimiter(text);
            &&& r is Ok <==> csv_read_spec(vstd::utf8::encode_utf8(text), d) is Some
            &&& r matches Ok((h, rows)) ==> csv_read_spec(vstd::utf8::encode_utf8(text), d)
                == Some((strings_view(h@), table_view(rows@)))
            &&& r matches Err(e) ==> e is BadRequest
        }),
{
    let text = utf8_lossy_string(content);
    let line = first_line_of(&chars_of(text.as_str()));
    let d: u8 = if crate::text::contains_char(&line, '\t') {
        9
    } else {
        44
    };
    match csv_read(text.as_str().as_bytes(), d) {
        Ok(t) => Ok(t),
        Err(CsvFailure::Header(m)) => Err(AppError::BadRequest(m)),
        Err(CsvFailure::Record(m)) => Err(AppError::BadRequest(m)),
    }
}

pub open spec fn sheet_product_names() -> Seq<Seq<char>> {
    seq!["상품명"@, "productname"@]
}

pub open spec fn sheet_purchase_names() -> Seq<Seq<char>> {
    seq!["구매가격"@, "purchaseprice"@]
}

pub open spec fn sheet_settlement_names() -> Seq<Seq<char>> {
    seq!["정산가격"@, "settlementprice"@]
}

/// The row's cells normalised as headers.
pub open spec fn row_keys(row: Seq<Seq<char>>) -> Seq<Seq<char>> {
    row.map_values(|c: Seq<char>| header_key(c))
}

/// The row names a product, a purchase price and a settlement price.
pub open spec fn is_sheet_header(row: Seq<Seq<char>>) -> bool {
    &&& has_any_spec(row_keys(row), sheet_product_names())
    &&& has_any_spec(row_keys(row), sheet_purchase_names())
    &&& has_any_spec(row_keys(row), sheet_settlement_names())
}

/// The first header row from position `i`.
pub open spec fn sheet_header_from(t: Seq<Seq<Seq<char>>>, i: int) -> Option<int>
    decreases t.len() - i,
{
    if i < 0 || i >= t.len() {
        None
    } else if is_sheet_header(t[i]) {
        Some(i)
    } else {
        sheet_header_from(t, i + 1)
    }
}

fn sheet_header_row(row: &Vec<String>) -> (b: bool)
    ensures
        b == is_sheet_header(strings_view(row@)),
{
    let mut keys: Vec<String> = Vec::new();
    let mut k: usize = 0;
    while k < row.len()
        invariant
            k <= row@.len(),
            strings_view(keys@) == row_keys(strings_view(row@)).take(k as int),
        decreases row@.len() - k,
    {
        let ghost before = keys@;
        assert(strings_view(row@)[k as int] == row@[k as int]@);
        let key = normalize_header(row[k].as_str());
        assert(key@ == row_keys(strings_view(row@))[k as int]);
        keys.push(key);
        assert(strings_view(keys@) =~= strings_view(before).push(key@));
        assert(row_keys(strings_view(row@)).take(k + 1) =~= row_keys(strings_view(row@)).take(
            k as int,
        ).push(key@));
        k += 1;
    }
    assert(row_keys(strings_view(row@)).take(row@.len() as int) =~= row_keys(strings_view(row@)));
    let a1: [&str; 2] = ["상품명", "productname"];
    let a2: [&str; 2] = ["구매가격", "purchaseprice"];
    let a3: [&str; 2] = ["정산가격", "settlementprice"];
    assert(strs_view(a1@) =~= sheet_product_names());
    assert(strs_view(a2@) =~= sheet_purchase_names());
    assert(strs_view(a3@) =~= sheet_settlement_names());
    has_any(&keys, &a1) && has_any(&keys, &a2) && has_any(&keys, &a3)
}

/// The header and data rows of a spreadsheet of sales: the first row that
/// names a product, a purchase price and a settlement price is the header,
/// and the rows after it are the data.
pub fn kream_sheet_table(rows: &Vec<Vec<String>>) -> (r: Result<(Vec<String>, Vec<Vec<String>>), AppError>)
    ensures
        match sheet_header_from(table_view(rows@), 0) {
            Some(h) => r matches Ok((hd, data)) && strings_view(hd@) == table_view(rows@)[h]
                && table_view(data@) == table_view(rows@).skip(h + 1),
            None => r matches Err(e) && is_bad_request(e, "KREAM header row could not be found"@),
        },
{
    let ghost t = table_view(rows@);
    let mut i: usize = 0;
    while i < rows.len()
        invariant
            i <= rows@.len(),
            t == table_view(rows@),
            sheet_header_from(t, 0) == sheet_header_from(t, i as int),
        decreases rows@.len() - i,
    {
        assert(t[i as int] == strings_view(rows@[i as int]@));
        if sheet_header_row(&rows[i]) {
            let headers = crate::text::clone_strings(&rows[i]);
            let mut data: Vec<Vec<String>> = Vec::new();
            let mut k: usize = i + 1;
            assert(table_view(data@) =~= t.subrange(i + 1, i + 1));
            while k < rows.len()
                invariant
                    i < k <= rows@.len(),
                    t == table_view(rows@),
                    table_view(data@) == t.subrange(i + 1, k as int),
                decreases rows@.len() - k,
            {
                let ghost before = data@;
                let copy = crate::text::clone_strings(&rows[k]);
                assert(t[k as int] == strings_view(rows@[k as int]@));
                data.push(copy);
                assert(table_view(data@) =~= table_view(before).push(strings_view(copy@)));
                assert(t.subrange(i + 1, k + 1) =~= t.subrange(i + 1, k as int).push(t[k as int]));
                k += 1;
            }
            assert(t.subrange(i + 1, rows@.len() as int) =~= t.skip(i + 1));
            return Ok((headers, data));
        }
        i += 1;
    }
    Err(AppError::bad_request("KREAM header row could not be found"))
}

/// The file name's extension is one of a spreadsheet: the part after its
/// last `.` (all of it where there is none), in lower case, is `xls` or
/// `xlsx`. A file without a name is read as CSV.
pub open spec fn is_sheet_file_spec(filename: Option<Seq<char>>) -> bool {
    match filename {
        Some(n) => {
            let ext = lowercase(crate::text::split_char_seq(n, '.').last());
            ext == "xls"@ || ext == "xlsx"@
        },
        None => false,
    }
}

/// Whether a sales file is read as a spreadsheet (else as CSV).
pub fn is_sheet_file(filename: Option<&str>) -> (b: bool)
    ensures
        b == is_sheet_file_spec(
            match filename {
                Some(n) => Some(n@),
                None => None,
            },
        ),
{
    match filename {
        Some(n) => {
            let parts = crate::text::split_char(&chars_of(n), '.');
            proof {
                crate::text::lemma_split_char_len(n@, '.');
            }
            let last = &parts[parts.len() - 1];
            let ext = lowercase_chars(last);
            crate::text::chars_eq(&ext, &chars_of("xls")) || crate::text::chars_eq(&ext, &chars_of("xlsx"))
        },
        None => false,
    }
}

// ───────────────────────── keying the sales ─────────────────────────

/// A date as the date library writes it in the layout `fmt`.
pub open spec fn date_text(d: CalendarDate, fmt: Seq<char>) -> Seq<char> {
    match chrono_date_text(d.year, d.month, d.day, fmt) {
        Some(t) => t,
        None => Seq::<char>::empty(),
    }
}

/// What identifies a sale before repeats are counted: its order number where
/// it has one, else its product, dates and prices.
pub open spec fn base_key(r: KreamRowView) -> Seq<char> {
    match r.external_id {
        Some(e) => "external|"@ + value_key(e),
        None => "row|"@ + value_key(r.product_name) + "|"@ + date_text(r.purchase_date, "%Y-%m-%d"@)
            + "|"@ + date_text(r.settlement_date, "%Y-%m-%d"@) + "|"@ + int_string(
            r.purchase_price as int,
        ) + "|"@ + int_string(r.settlement_price as int),
    }
}

/// How often `k` occurs in `keys`.
pub open spec fn count_in(keys: Seq<Seq<char>>, k: Seq<char>) -> nat
    decreases keys.len(),
{
    if keys.len() == 0 {
        0
    } else {
        count_in(keys.drop_last(), k) + if keys.last() == k {
            1nat
        } else {
            0nat
        }
    }
}

pub open spec fn base_keys(rows: Seq<KreamRowView>) -> Seq<Seq<char>> {
    rows.map_values(|r: KreamRowView| base_key(r))
}

/// Which repeat of its base key the sale at `i` is, counting from 1.
pub open spec fn occurrence(rows: Seq<KreamRowView>, i: int) -> nat {
    count_in(base_keys(rows).take(i + 1), base_key(rows[i]))
}

/// What the sale at `i` is keyed by: its base key, and where it has no
/// order number, which repeat of it the sale is.
pub open spec fn sale_seed(rows: Seq<KreamRowView>, i: int) -> Seq<char> {
    if rows[i].external_id is Some {
        base_key(rows[i])
    } else {
        base_key(rows[i]) + "|"@ + dec_seq(occurrence(rows, i))
    }
}

/// The digest of the parts joined with `|`.
pub open spec fn hash_key_spec(parts: Seq<Seq<char>>) -> Seq<char> {
    sha256_hex_spec(join_seq(parts, "|"@))
}

/// The key of the sale at `i`.
pub open spec fn sale_key(rows: Seq<KreamRowView>, i: int) -> Seq<char> {
    hash_key_spec(seq!["kream_sale"@, sale_seed(rows, i)])
}

/// The code of the sale at `i`: `KREAM-`, its purchase date as `YYYYMMDD`,
/// `-` and the first eight characters of its key.
pub open spec fn sale_code(rows: Seq<KreamRowView>, i: int) -> Seq<char> {
    "KREAM-"@ + date_text(rows[i].purchase_date, "%Y%m%d"@) + "-"@ + sale_key(rows, i).take(8)
}

/// The SHA-256 digest, in hexadecimal, of the parts joined with `|`.
pub fn hash_key(parts: &Vec<String>) -> (r: String)
    ensures
        r@ == hash_key_spec(strings_view(parts@)),
        is_digest_text(r@),
{
    let joined = join_strings(parts, 0, "|");
    assert(strings_view(parts@).skip(0) =~= strings_view(parts@));
    sha256_hex(joined.as_str())
}

/// A sale with its code and key.
#[derive(Debug, Clone)]
pub struct PreparedKreamSale {
    pub sale_code: String,
    pub dedupe_key: String,
    pub row: KreamRow,
}

fn date_string(d: CalendarDate, fmt: &str) -> (r: String)
    requires
        d.valid(),
        fmt@ == "%Y-%m-%d"@ || fmt@ == "%Y%m%d"@,
    ensures
        r@ == date_text(d, fmt@),
{
    match format_date(d.year, d.month, d.day, fmt) {
        Some(t) => t,
        None => String::new(),
    }
}

fn base_key_of(r: &KreamRow) -> (k: String)
    requires
        r.purchase_date.valid(),
        r.settlement_date.valid(),
    ensures
        k@ == base_key(r.view()),
{
    match &r.external_id {
        Some(e) => {
            let mut k = string_of(&chars_of("external|"));
            append_str(&mut k, normalize_value(e.as_str()).as_str());
            k
        },
        None => {
            let mut k = string_of(&chars_of("row|"));
            append_str(&mut k, normalize_value(r.product_name.as_str()).as_str());
            append_str(&mut k, "|");
            append_str(&mut k, date_string(r.purchase_date, "%Y-%m-%d").as_str());
            append_str(&mut k, "|");
            append_str(&mut k, date_string(r.settlement_date, "%Y-%m-%d").as_str());
            append_str(&mut k, "|");
            append_str(&mut k, i64_to_string(r.purchase_price).as_str());
            append_str(&mut k, "|");
            append_str(&mut k, i64_to_string(r.settlement_price).as_str());
            k
        },
    }
}

fn copy_row(r: &KreamRow) -> (c: KreamRow)
    ensures
        c.view() == r.view(),
        c.purchase_date == r.purchase_date,
        c.settlement_date == r.settlement_date,
{
    KreamRow {
        product_name: r.product_name.clone(),
        purchase_date: r.purchase_date,
        settlement_date: r.settlement_date,
        purchase_price: r.purchase_price,
        settlement_price: r.settlement_price,
        side_cost: r.side_cost,
        external_id: match &r.external_id {
            Some(e) => Some(e.clone()),
            None => None,
        },
        source_row_index: r.source_row_index,
    }
}

proof fn lemma_count_step(keys: Seq<Seq<char>>, k: Seq<char>, i: int)
    requires
        0 <= i < keys.len(),
    ensures
        count_in(keys.take(i + 1), k) == count_in(keys.take(i), k) + if keys[i] == k {
            1nat
        } else {
            0nat
        },
{
    assert(keys.take(i + 1).drop_last() =~= keys.take(i));
}

/// Keys and codes for the sales of a file, in order. A sale with an order
/// number is keyed by it; one without is keyed by its product, dates and
/// prices and by which repeat of them it is, so that identical rows get
/// distinct keys.
pub fn prepare_rows(rows: &Vec<KreamRow>) -> (out: Vec<PreparedKreamSale>)
    requires
        rows@.len() <= i32::MAX,
        forall|i: int|
            0 <= i < rows@.len() ==> (#[trigger] rows@[i]).purchase_date.valid()
                && rows@[i].settlement_date.valid(),
    ensures
        out@.len() == rows@.len(),
        forall|i: int|
            0 <= i < out@.len() ==> {
                &&& (#[trigger] out@[i]).row.view() == rows@[i].view()
                &&& out@[i].dedupe_key@ == sale_key(kream_rows_view(rows@), i)
                &&& out@[i].sale_code@ == sale_code(kream_rows_view(rows@), i)
            },
{
    let ghost rv = kream_rows_view(rows@);
    let ghost bk = base_keys(rv);
    let n = rows.len();
    let mut bases: Vec<String> = Vec::new();
    let mut i: usize = 0;
    while i < n
        invariant
            i <= n == rows@.len(),
            rv == kream_rows_view(rows@),
            bk == base_keys(rv),
            bases@.len() == i,
            forall|j: int| 0 <= j < i ==> #[trigger] bases@[j]@ == bk[j],
            forall|j: int|
                0 <= j < rows@.len() ==> (#[trigger] rows@[j]).purchase_date.valid()
                    && rows@[j].settlement_date.valid(),
        decreases n - i,
    {
        bases.push(base_key_of(&rows[i]));
        i += 1;
    }
    let mut out: Vec<PreparedKreamSale> = Vec::new();
    let mut i: usize = 0;
    while i < n
        invariant
            i <= n == rows@.len() <= i32::MAX,
            rv == kream_rows_view(rows@),
            bk == base_keys(rv),
            bases@.len() == n,
            forall|j: int| 0 <= j < n ==> #[trigger] bases@[j]@ == bk[j],
            forall|j: int|
                0 <= j < rows@.len() ==> (#[trigger] rows@[j]).purchase_date.valid()
                    && rows@[j].settlement_date.valid(),
            out@.len() == i,
            forall|j: int|
                0 <= j < i ==> {
                    &&& (#[trigger] out@[j]).row.view() == rows@[j].view()
                    &&& out@[j].dedupe_key@ == sale_key(rv, j)
                    &&& out@[j].sale_code@ == sale_code(rv, j)
                },
        decreases n - i,
    {
        let mut count: u64 = 0;
        let mut j: usize = 0;
        assert(bk.len() == n);
        assert(bk.take(0) =~= Seq::<Seq<char>>::empty());
        while j <= i
            invariant
                i < n == bases@.len(),
                n <= i32::MAX,
                j <= i + 1,
                bk == base_keys(rv),
                bk.len() == n,
                forall|k: int| 0 <= k < n ==> #[trigger] bases@[k]@ == bk[k],
                count == count_in(bk.take(j as int), bk[i as int]),
                count <= j,
            decreases i + 1 - j,
        {
            proof {
                lemma_count_step(bk, bk[i as int], j as int);
            }
            if str_eq(bases[j].as_str(), bases[i].as_str()) {
                count += 1;
            }
            j += 1;
        }
        assert(bk[i as int] == base_key(rv[i as int]));
        assert(count == occurrence(rv, i as int));
        let row = &rows[i];
        let mut seed = bases[i].clone();
        if row.external_id.is_none() {
            append_str(&mut seed, "|");
            append_str(&mut seed, string_of(&dec_chars(count)).as_str());
        }
        assert(seed@ == sale_seed(rv, i as int));
        let mut parts: Vec<String> = Vec::new();
        parts.push(string_of(&chars_of("kream_sale")));
        parts.push(seed);
        assert(strings_view(parts@) =~= seq!["kream_sale"@, sale_seed(rv, i as int)]);
        let key = hash_key(&parts);
        let mut code = string_of(&chars_of("KREAM-"));
        append_str(&mut code, date_string(row.purchase_date, "%Y%m%d").as_str());
        append_str(&mut code, "-");
        append_str(&mut code, string_of_range(&chars_of(key.as_str()), 0, 8).as_str());
        assert(code@ =~= sale_code(rv, i as int));
        out.push(PreparedKreamSale { sale_code: code, dedupe_key: key, row: copy_row(row) });
        i += 1;
    }
    out
}

proof fn lemma_count_monotone(keys: Seq<Seq<char>>, k: Seq<char>, a: int, c: int)
    requires
        0 <= a <= c <= keys.len(),
    ensures
        count_in(keys.take(a), k) <= count_in(keys.take(c), k),
    decreases c - a,
{
    if a < c {
        lemma_count_monotone(keys, k, a, c - 1);
        lemma_count_step(keys, k, c - 1);
    }
}

proof fn lemma_dec_seq_injective(a: nat, b: nat)
    requires
        dec_seq(a) == dec_seq(b),
    ensures
        a == b,
{
    lemma_dec_seq_digits(a);
    lemma_dec_seq_digits(b);
}

/// Two sales without order numbers whose product, dates and prices agree
/// are keyed by different texts, so identical rows of a file become
/// distinct sales.
pub proof fn lemma_repeated_rows_get_distinct_seeds(rows: Seq<KreamRowView>, i: int, j: int)
    requires
        0 <= i < j < rows.len(),
        rows[i].external_id is None,
        rows[j].external_id is None,
        base_key(rows[i]) == base_key(rows[j]),
    ensures
        sale_seed(rows, i) != sale_seed(rows, j),
{
    let bk = base_keys(rows);
    let b = base_key(rows[i]);
    assert(bk[j] == b);
    lemma_count_monotone(bk, b, i + 1, j);
    lemma_count_step(bk, b, j);
    assert(occurrence(rows, i) < occurrence(rows, j));
    let prefix = b + "|"@;
    let si = dec_seq(occurrence(rows, i));
    let sj = dec_seq(occurrence(rows, j));
    if sale_seed(rows, i) == sale_seed(rows, j) {
        assert(sale_seed(rows, i) =~= prefix + si);
        assert(sale_seed(rows, j) =~= prefix + sj);
        assert((prefix + si).skip(prefix.len() as int) =~= si);
        assert((prefix + sj).skip(prefix.len() as int) =~= sj);
        lemma_dec_seq_injective(occurrence(rows, i), occurrence(rows, j));
    }
}

/// The sales of an uploaded table, keyed (see `prepare_rows`); a table with
/// no sale is refused.
pub fn prepare_upload(headers: &Vec<String>, rows: &Vec<Vec<String>>, serials: &Vec<Vec<Option<i64>>>) -> (r: Result<Vec<PreparedKreamSale>, AppError>)
    requires
        rows@.len() + 2 <= i32::MAX,
    ensures
        match kream_rows_spec(
            strings_view(headers@),
            table_view(rows@),
            serials@.map_values(|v: Vec<Option<i64>>| v@),
        ) {
            Ok(v) => if v.len() == 0 {
                r matches Err(e) && is_bad_request(e, "KREAM file does not contain importable rows"@)
            } else {
                r matches Ok(out) && out@.len() == v.len() && forall|i: int|
                    0 <= i < out@.len() ==> {
                        &&& (#[trigger] out@[i]).row.view() == v[i]
                        &&& out@[i].dedupe_key@ == sale_key(v, i)
                        &&& out@[i].sale_code@ == sale_code(v, i)
                    }
            },
            Err(m) => r matches Err(e) && is_bad_request(e, m),
        },
{
    let parsed = match rows_to_kream_rows(headers, rows, serials) {
        Ok(p) => p,
        Err(e) => return Err(e),
    };
    if parsed.len() == 0 {
        return Err(AppError::bad_request("KREAM file does not contain importable rows"));
    }
    let prepared = prepare_rows(&parsed);
    Ok(prepared)
}

/// The row at `i` repeats a key that is already stored or that an earlier
/// row of the upload has.
pub open spec fn upload_duplicate(keys: Seq<Seq<char>>, existing: Seq<Seq<char>>, i: int) -> bool {
    existing.contains(keys[i]) || exists|j: int| 0 <= j < i && keys[j] == keys[i]
}

fn contains_string(v: &Vec<String>, k: &String) -> (b: bool)
    ensures
        b == strings_view(v@).contains(k@),
{
    let mut i: usize = 0;
    while i < v.len()
        invariant
            i <= v@.len(),
            forall|j: int| 0 <= j < i ==> strings_view(v@)[j] != k@,
        decreases v@.len() - i,
    {
        assert(strings_view(v@)[i as int] == v@[i as int]@);
        if str_eq(v[i].as_str(), k.as_str()) {
            return true;
        }
        i += 1;
    }
    false
}

/// Which rows of an upload are duplicates (see `upload_duplicate`); the
/// others are stored.
pub fn upload_duplicates(keys: &Vec<String>, existing: &Vec<String>) -> (dup: Vec<bool>)
    ensures
        dup@.len() == keys@.len(),
        forall|i: int|
            0 <= i < dup@.len() ==> #[trigger] dup@[i] == upload_duplicate(
                strings_view(keys@),
                strings_view(existing@),
                i,
            ),
{
    let ghost ks = strings_view(keys@);
    let mut dup: Vec<bool> = Vec::new();
    let mut i: usize = 0;
    while i < keys.len()
        invariant
            i <= keys@.len(),
            ks == strings_view(keys@),
            dup@.len() == i,
            forall|j: int|
                0 <= j < i ==> #[trigger] dup@[j] == upload_duplicate(ks, strings_view(existing@), j),
        decreases keys@.len() - i,
    {
        let mut seen = false;
        let mut j: usize = 0;
        while j < i
            invariant
                j <= i < keys@.len(),
                ks == strings_view(keys@),
                seen == exists|k: int| 0 <= k < j && ks[k] == ks[i as int],
            decreases i - j,
        {
            assert(ks[j as int] == keys@[j as int]@);
            assert(ks[i as int] == keys@[i as int]@);
            if str_eq(keys[j].as_str(), keys[i].as_str()) {
                seen = true;
            }
            j += 1;
        }
        assert(ks[i as int] == keys@[i as int]@);
        let d = contains_string(existing, &keys[i]) || seen;
        dup.push(d);
        i += 1;
    }
    dup
}

/// The rows an upload stores have keys that are new and pairwise distinct.
pub proof fn lemma_stored_keys_distinct(keys: Seq<Seq<char>>, existing: Seq<Seq<char>>, i: int, j: int)
    requires
        0 <= i < j < keys.len(),
        !upload_duplicate(keys, existing, i),
        !upload_duplicate(keys, existing, j),
    ensures
        keys[i] != keys[j],
        !existing.contains(keys[i]),
        !existing.contains(keys[j]),
{
}

// ───────────────────────── stored sales and their figures ─────────────────────────

/// A stored sale.
#[derive(Debug, Clone)]
pub struct KreamSale {
    pub id: u128,
    pub user_id: u128,
    pub sale_code: String,
    pub product_name: String,
    pub purchase_date: CalendarDate,
    pub settlement_date: Option<CalendarDate>,
    pub purchase_price: i64,
    pub settlement_price: i64,
    pub side_cost: i64,
    pub purchase_transaction_id: Option<u128>,
    pub settlement_transaction_id: Option<u128>,
    pub side_cost_transaction_id: Option<u128>,
    pub dedupe_key: String,
    pub source_filename: Option<String>,
    pub source_row_index: Option<i32>,
    pub raw_data: String,
    pub memo: Option<String>,
    pub created_at: i64,
    pub updated_at: i64,
}

/// A stored keyword rule that marks transactions as side costs of the resale
/// business.
#[derive(Debug, Clone)]
pub struct KreamKeywordRule {
    pub id: u128,
    pub user_id: u128,
    pub keyword: String,
    pub keyword_normalized: String,
    pub kream_kind: String,
    pub is_active: bool,
    pub created_at: i64,
    pub updated_at: i64,
}

/// The counts of an upload of sales, with the sales stored.
#[derive(Debug, Clone)]
pub struct KreamUploadResponse {
    pub imported_count: i32,
    pub duplicate_count: i32,
    pub error_count: i32,
    pub sales: Vec<KreamSale>,
}

/// The totals of the sales list.
#[derive(Debug, Clone, Copy, PartialEq, Eq)]
pub struct KreamSalesSummary {
    pub total_purchase_price: i64,
    pub total_settlement_price: i64,
    pub total_side_cost: i64,
    pub total_profit: i64,
}

/// The sales list with its totals.
#[derive(Debug, Clone)]
pub struct KreamSalesResponse {
    pub sales: Vec<KreamSale>,
    pub summary: KreamSalesSummary,
}

/// A request for a keyword rule.
#[derive(Debug, Clone)]
pub struct CreateKreamKeywordRuleRequest {
    pub keyword: String,
    pub kream_kind: Option<String>,
}

/// A stored keyword rule with the number of transactions it marked.
#[derive(Debug, Clone)]
pub struct CreateKreamKeywordRuleResponse {
    pub rule: KreamKeywordRule,
    pub applied_count: u64,
}

/// The number of transactions marked at once.
#[derive(Debug, Clone, Copy)]
pub struct BulkMarkKreamTransactionsResponse {
    pub updated_count: u64,
}

/// A search for transactions to match with sales.
#[derive(Debug, Clone)]
pub struct KreamCandidateQuery {
    pub kind: Option<String>,
    pub keyword: Option<String>,
    pub limit: Option<i64>,
}

/// Which link of a sale to undo.
#[derive(Debug, Clone)]
pub struct UnmatchKreamTransactionRequest {
    pub kind: String,
}

/// The outcome of applying the keyword rules.
#[derive(Debug, Clone, Copy)]
pub struct ApplyKreamKeywordRulesResponse {
    pub applied_count: u64,
    pub rule_count: u64,
}

pub open spec fn sum_purchase(s: Seq<KreamSale>) -> int
    decreases s.len(),
{
    if s.len() == 0 {
        0
    } else {
        sum_purchase(s.drop_last()) + s.last().purchase_price
    }
}

pub open spec fn sum_settlement(s: Seq<KreamSale>) -> int
    decreases s.len(),
{
    if s.len() == 0 {
        0
    } else {
        sum_settlement(s.drop_last()) + s.last().settlement_price
    }
}

/// The profit of the settled sales: settlement less purchase price.
pub open spec fn sum_profit(s: Seq<KreamSale>) -> int
    decreases s.len(),
{
    if s.len() == 0 {
        0
    } else {
        sum_profit(s.drop_last()) + if s.last().settlement_date is Some {
            s.last().settlement_price - s.last().purchase_price
        } else {
            0
        }
    }
}

pub open spec fn in_i64(v: int) -> bool {
    i64::MIN <= v <= i64::MAX
}

/// Every running total of the sales list fits in an `i64`, as does each
/// settled sale's margin and the final profit less the side costs.
pub open spec fn summary_fits(s: Seq<KreamSale>, side_cost: i64) -> bool {
    &&& forall|k: int|
        0 <= k <= s.len() ==> in_i64(sum_purchase(#[trigger] s.take(k))) && in_i64(
            sum_settlement(s.take(k)),
        ) && in_i64(sum_profit(s.take(k)))
    &&& forall|i: int|
        0 <= i < s.len() && (#[trigger] s[i]).settlement_date is Some ==> in_i64(
            s[i].settlement_price - s[i].purchase_price,
        )
    &&& in_i64(sum_profit(s) - side_cost)
}

/// The totals of the sales list: purchase and settlement prices summed over
/// all sales, the side costs of the business, and the profit of the settled
/// sales less those side costs.
pub fn kream_sales_summary(sales: &Vec<KreamSale>, side_cost: i64) -> (r: KreamSalesSummary)
    requires
        summary_fits(sales@, side_cost),
    ensures
        r.total_purchase_price == sum_purchase(sales@),
        r.total_settlement_price == sum_settlement(sales@),
        r.total_side_cost == side_cost,
        r.total_profit == sum_profit(sales@) - side_cost,
{
    let mut purchase: i64 = 0;
    let mut settlement: i64 = 0;
    let mut profit: i64 = 0;
    let mut i: usize = 0;
    assert(sales@.take(0) =~= Seq::<KreamSale>::empty());
    while i < sales.len()
        invariant
            i <= sales@.len(),
            summary_fits(sales@, side_cost),
            purchase == sum_purchase(sales@.take(i as int)),
            settlement == sum_settlement(sales@.take(i as int)),
            profit == sum_profit(sales@.take(i as int)),
        decreases sales@.len() - i,
    {
        let ghost next = sales@.take(i + 1);
        assert(next.drop_last() =~= sales@.take(i as int));
        assert(next.last() == sales@[i as int]);
        assert(in_i64(sum_purchase(next)) && in_i64(sum_settlement(next)) && in_i64(
            sum_profit(next),
        ));
        let sale = &sales[i];
        purchase = purchase + sale.purchase_price;
        settlement = settlement + sale.settlement_price;
        if sale.settlement_date.is_some() {
            assert(in_i64(sales@[i as int].settlement_price - sales@[i as int].purchase_price));
            profit = profit + (sale.settlement_price - sale.purchase_price);
        }
        i += 1;
    }
    assert(sales@.take(sales@.len() as int) =~= sales@);
    KreamSalesSummary {
        total_purchase_price: purchase,
        total_settlement_price: settlement,
        total_side_cost: side_cost,
        total_profit: profit - side_cost,
    }
}

// ───────────────────────── what the handlers check ─────────────────────────

/// A manual sale: its product name trimmed and its settlement price (zero
/// where absent), both checked.
pub open spec fn new_sale_spec(product_name: Seq<char>, purchase_price: i64, settlement_price: Option<i64>) -> Result<(Seq<char>, i64), Seq<char>> {
    let name = trim_seq(product_name);
    let settlement = match settlement_price {
        Some(v) => v,
        None => 0,
    };
    if name.len() == 0 {
        Err("product_name is required"@)
    } else if purchase_price < 0 || settlement < 0 {
        Err("prices must be greater than or equal to zero"@)
    } else {
        Ok((name, settlement))
    }
}

/// Checks a manual sale: a product name is needed and no price is negative.
pub fn check_new_sale(product_name: &str, purchase_price: i64, settlement_price: Option<i64>) -> (r: Result<(String, i64), AppError>)
    ensures
        match new_sale_spec(product_name@, purchase_price, settlement_price) {
            Ok((n, v)) => r matches Ok((name, s)) && name@ == n && s == v,
            Err(m) => r matches Err(e) && is_bad_request(e, m),
        },
{
    let name = trim(product_name);
    let settlement = match settlement_price {
        Some(v) => v,
        None => 0,
    };
    if name.as_str().unicode_len() == 0 {
        return Err(AppError::bad_request("product_name is required"));
    }
    if purchase_price < 0 || settlement < 0 {
        return Err(AppError::bad_request("prices must be greater than or equal to zero"));
    }
    Ok((name, settlement))
}

/// The key and code of a sale entered by hand: the key digests the user and
/// a fresh random identifier, and the code is `KREAM-`, the purchase date as
/// `YYYYMMDD`, `-` and the key's first eight characters. Nothing where the
/// date library knows no such purchase date.
pub fn manual_sale_keys(user_id: u128, seed: u128, purchase_date: CalendarDate) -> (r: Option<(String, String)>)
    ensures
        match r {
            Some((key, code)) => {
                let k = hash_key_spec(seq!["kream_sale_manual"@, uuid_text(user_id), uuid_text(seed)]);
                &&& key@ == k
                &&& code@ == "KREAM-"@ + date_text(purchase_date, "%Y%m%d"@) + "-"@ + k.take(8)
                &&& chrono_date_text(purchase_date.year, purchase_date.month, purchase_date.day, "%Y%m%d"@) is Some
            },
            None => chrono_date_text(purchase_date.year, purchase_date.month, purchase_date.day, "%Y%m%d"@) is None,
        },
{
    let day = match format_date(purchase_date.year, purchase_date.month, purchase_date.day, "%Y%m%d") {
        Some(t) => t,
        None => return None,
    };
    let mut parts: Vec<String> = Vec::new();
    parts.push(string_of(&chars_of("kream_sale_manual")));
    parts.push(uuid_string(user_id));
    parts.push(uuid_string(seed));
    assert(strings_view(parts@) =~= seq!["kream_sale_manual"@, uuid_text(user_id), uuid_text(seed)]);
    let key = hash_key(&parts);
    let mut code = string_of(&chars_of("KREAM-"));
    append_str(&mut code, day.as_str());
    append_str(&mut code, "-");
    append_str(&mut code, string_of_range(&chars_of(key.as_str()), 0, 8).as_str());
    Some((key, code))
}

/// A keyword rule request: the keyword trimmed (not empty) and the kind,
/// `side_cost` where absent and the only kind taken.
pub open spec fn keyword_rule_spec(keyword: Seq<char>, kind: Option<Seq<char>>) -> Result<(Seq<char>, Seq<char>), Seq<char>> {
    let k = trim_seq(keyword);
    let kind = match kind {
        Some(v) => v,
        None => "side_cost"@,
    };
    if k.len() == 0 {
        Err("keyword is required"@)
    } else if kind != "side_cost"@ {
        Err("only side_cost keyword rules are supported for now"@)
    } else {
        Ok((k, kind))
    }
}

/// What a keyword rule stores and searches with.
#[derive(Debug, Clone)]
pub struct KeywordRulePlan {
    pub keyword: String,
    pub kind: String,
    pub normalized: String,
    pub pattern: String,
}

/// Checks a keyword rule request and gives the keyword, its kind, its
/// normalised form and the pattern the existing transactions are searched
/// with.
pub fn plan_keyword_rule(keyword: &str, kind: Option<&str>) -> (r: Result<KeywordRulePlan, AppError>)
    ensures
        match keyword_rule_spec(
            keyword@,
            match kind {
                Some(k) => Some(k@),
                None => None,
            },
        ) {
            Ok((k, kd)) => r matches Ok(p) && p.keyword@ == k && p.kind@ == kd
                && p.normalized@ == normalize_keyword_spec(k) && p.pattern@ == sql_keyword_pattern_spec(k),
            Err(m) => r matches Err(e) && is_bad_request(e, m),
        },
{
    let k = trim(keyword);
    let kd = match kind {
        Some(v) => string_of(&chars_of(v)),
        None => string_of(&chars_of("side_cost")),
    };
    if k.as_str().unicode_len() == 0 {
        return Err(AppError::bad_request("keyword is required"));
    }
    if !str_eq(kd.as_str(), "side_cost") {
        proof {
            reveal_strlit("side_cost");
        }
        return Err(AppError::bad_request("only side_cost keyword rules are supported for now"));
    }
    let normalized = normalize_keyword(k.as_str());
    let pattern = sql_keyword_pattern(k.as_str());
    Ok(KeywordRulePlan { keyword: k, kind: kd, normalized, pattern })
}

/// The pattern a stored rule's normalised keyword is searched with.
pub fn rule_pattern(keyword_normalized: &str) -> (r: String)
    ensures
        r@ == "%"@ + keyword_normalized@ + "%"@,
{
    let mut p = string_of(&chars_of("%"));
    append_str(&mut p, keyword_normalized);
    append_str(&mut p, "%");
    p
}

/// How the candidates for a sale are searched.
#[derive(Debug, Clone)]
pub struct CandidatePlan {
    pub transaction_type: String,
    pub limit: i64,
    pub pattern: Option<String>,
}

/// The type of transaction a link kind takes: income for a settlement,
/// expense for a purchase, a side cost or no kind.
pub open spec fn candidate_type_spec(kind: Option<Seq<char>>) -> Option<Seq<char>> {
    match kind {
        None => Some("expense"@),
        Some(k) => if k == "settlement"@ {
            Some("income"@)
        } else if k == "purchase"@ || k == "side_cost"@ {
            Some("expense"@)
        } else {
            None
        },
    }
}

/// The limit of a candidate search: 200 where absent, kept between 1 and
/// 500.
pub open spec fn candidate_limit_spec(limit: Option<i64>) -> i64 {
    let l = match limit {
        Some(v) => v,
        None => 200,
    };
    if l < 1 {
        1
    } else if l > 500 {
        500
    } else {
        l
    }
}

/// Plans a candidate search: the transaction type of the kind, the limit,
/// and a `%keyword%` pattern where the trimmed keyword is not empty.
pub fn plan_candidates(query: &KreamCandidateQuery) -> (r: Result<CandidatePlan, AppError>)
    ensures
        match candidate_type_spec(
            match query.kind {
                Some(k) => Some(k@),
                None => None,
            },
        ) {
            None => r matches Err(e) && is_bad_request(
                e,
                "kind must be purchase, settlement, or side_cost"@,
            ),
            Some(t) => r matches Ok(p) && p.transaction_type@ == t && p.limit
                == candidate_limit_spec(query.limit) && ({
                let kw = match query.keyword {
                    Some(k) => trim_seq(k@),
                    None => Seq::<char>::empty(),
                };
                if kw.len() == 0 {
                    p.pattern is None
                } else {
                    p.pattern matches Some(q) && q@ == "%"@ + kw + "%"@
                }
            }),
        },
{
    proof {
        reveal_strlit("settlement");
        reveal_strlit("purchase");
        reveal_strlit("side_cost");
    }
    let t = match &query.kind {
        None => "expense",
        Some(k) => if str_eq(k.as_str(), "settlement") {
            "income"
        } else if str_eq(k.as_str(), "purchase") || str_eq(k.as_str(), "side_cost") {
            "expense"
        } else {
            return Err(AppError::bad_request("kind must be purchase, settlement, or side_cost"));
        },
    };
    let l = match query.limit {
        Some(v) => v,
        None => 200,
    };
    let limit = if l < 1 {
        1
    } else if l > 500 {
        500
    } else {
        l
    };
    let kw = match &query.keyword {
        Some(k) => trim(k.as_str()),
        None => String::new(),
    };
    let pattern = if kw.as_str().unicode_len() == 0 {
        None
    } else {
        Some(rule_pattern(kw.as_str()))
    };
    Ok(CandidatePlan { transaction_type: string_of(&chars_of(t)), limit, pattern })
}

/// Which link of a sale a match or an unmatch is about.
#[derive(Debug, Clone, Copy, PartialEq, Eq)]
pub enum LinkKind {
    Purchase,
    Settlement,
}

pub open spec fn link_kind_spec(kind: Seq<char>) -> Option<LinkKind> {
    if kind == "purchase"@ {
        Some(LinkKind::Purchase)
    } else if kind == "settlement"@ {
        Some(LinkKind::Settlement)
    } else {
        None
    }
}

/// The link a kind names; only purchases and settlements are linked.
pub fn link_kind(kind: &str) -> (r: Result<LinkKind, AppError>)
    ensures
        match link_kind_spec(kind@) {
            Some(k) => r == Ok::<LinkKind, AppError>(k),
            None => r matches Err(e) && is_bad_request(e, "kind must be purchase or settlement"@),
        },
{
    proof {
        reveal_strlit("purchase");
        reveal_strlit("settlement");
    }
    if str_eq(kind, "purchase") {
        Ok(LinkKind::Purchase)
    } else if str_eq(kind, "settlement") {
        Ok(LinkKind::Settlement)
    } else {
        Err(AppError::bad_request("kind must be purchase or settlement"))
    }
}

/// The transaction type a link needs: income for a settlement, expense for
/// a purchase.
pub open spec fn expected_type_spec(k: LinkKind) -> Seq<char> {
    match k {
        LinkKind::Settlement => "income"@,
        LinkKind::Purchase => "expense"@,
    }
}

/// The name of a link kind.
pub open spec fn link_name_spec(k: LinkKind) -> Seq<char> {
    match k {
        LinkKind::Settlement => "settlement"@,
        LinkKind::Purchase => "purchase"@,
    }
}

/// Checks that a transaction of type `transaction_type` can be linked as
/// `kind`.
pub fn check_link_type(kind: LinkKind, transaction_type: &str) -> (r: Result<(), AppError>)
    ensures
        transaction_type@ == expected_type_spec(kind) ==> r is Ok,
        transaction_type@ != expected_type_spec(kind) ==> (r matches Err(e) && is_bad_request(
            e,
            link_name_spec(kind) + " matches require a "@ + expected_type_spec(kind)
                + " transaction"@,
        )),
{
    let (name, expected) = match kind {
        LinkKind::Settlement => ("settlement", "income"),
        LinkKind::Purchase => ("purchase", "expense"),
    };
    if str_eq(transaction_type, expected) {
        return Ok(());
    }
    let mut m = string_of(&chars_of(name));
    append_str(&mut m, " matches require a ");
    append_str(&mut m, expected);
    append_str(&mut m, " transaction");
    Err(AppError::BadRequest(m))
}

/// The transaction a new link replaces and that is to be removed if it was
/// made by an upload: the old one, where there was one other than the new.
pub fn replaced_transaction(old: Option<u128>, new: u128) -> (r: Option<u128>)
    ensures
        r == (if old == Some(new) {
            None
        } else {
            old
        }),
{
    match old {
        Some(o) => if o == new {
            None
        } else {
            Some(o)
        },
        None => None,
    }
}

/// What marking a transaction does: its scope, its business kind (only in
/// the business scope), and whether its links to sales are undone (when it
/// becomes personal or a side cost).
#[derive(Debug, Clone)]
pub struct MarkPlan {
    pub scope: String,
    pub kream_kind: Option<String>,
    pub unlink: bool,
}

pub open spec fn mark_spec(scope: Seq<char>, kind: Option<Seq<char>>) -> Result<(Option<Seq<char>>, bool), Seq<char>> {
    if scope != "personal"@ && scope != "kream"@ {
        Err("scope must be personal or kream"@)
    } else if kind matches Some(k) && k != "purchase"@ && k != "settlement"@ && k != "side_cost"@ {
        Err("kream_kind must be purchase, settlement, or side_cost"@)
    } else {
        let kk = if scope == "kream"@ {
            kind
        } else {
            None
        };
        Ok((kk, scope == "personal"@ || kk == Some("side_cost"@)))
    }
}

/// Plans the marking of one transaction; see `MarkPlan`.
pub fn plan_mark(scope: &str, kream_kind: Option<&str>) -> (r: Result<MarkPlan, AppError>)
    ensures
        match mark_spec(
            scope@,
            match kream_kind {
                Some(k) => Some(k@),
                None => None,
            },
        ) {
            Ok((kk, unlink)) => r matches Ok(p) && p.scope@ == scope@ && p.unlink == unlink && match kk {
                Some(k) => p.kream_kind matches Some(x) && x@ == k,
                None => p.kream_kind is None,
            },
            Err(m) => r matches Err(e) && is_bad_request(e, m),
        },
{
    proof {
        reveal_strlit("personal");
        reveal_strlit("kream");
        reveal_strlit("purchase");
        reveal_strlit("settlement");
        reveal_strlit("side_cost");
    }
    if !str_eq(scope, "personal") && !str_eq(scope, "kream") {
        return Err(AppError::bad_request("scope must be personal or kream"));
    }
    match kream_kind {
        Some(k) => {
            if !str_eq(k, "purchase") && !str_eq(k, "settlement") && !str_eq(k, "side_cost") {
                return Err(AppError::bad_request("kream_kind must be purchase, settlement, or side_cost"));
            }
        },
        None => {},
    }
    let kk: Option<String> = if str_eq(scope, "kream") {
        match kream_kind {
            Some(k) => Some(string_of(&chars_of(k))),
            None => None,
        }
    } else {
        None
    };
    let side = match &kk {
        Some(k) => str_eq(k.as_str(), "side_cost"),
        None => false,
    };
    let unlink = str_eq(scope, "personal") || side;
    Ok(MarkPlan { scope: string_of(&chars_of(scope)), kream_kind: kk, unlink })
}

/// Checks a bulk marking: only side costs are marked in bulk. It says
/// whether there is anything to mark.
pub fn check_bulk_mark(kream_kind: &str, count: usize) -> (r: Result<bool, AppError>)
    ensures
        kream_kind@ != "side_cost"@ ==> (r matches Err(e) && is_bad_request(
            e,
            "bulk marking currently supports only side_cost"@,
        )),
        kream_kind@ == "side_cost"@ ==> r == Ok::<bool, AppError>(count > 0),
{
    if !str_eq(kream_kind, "side_cost") {
        return Err(AppError::bad_request("bulk marking currently supports only side_cost"));
    }
    Ok(count > 0)
}

/// One transaction that storing a sale records.
#[derive(Debug, Clone)]
pub struct KreamTransactionPlan {
    pub date: CalendarDate,
    pub hour: u32,
    pub transaction_type: String,
    pub amount: i64,
    pub merchant_name: String,
    pub description: String,
    pub dedupe_key: String,
    pub kream_kind: String,
}

/// The transactions a sale records, in order: the purchase (an expense at
/// 09:00 on the purchase date), the settlement (an income at 09:00 on the
/// settlement date), and a side cost (an expense at 10:00 on the purchase
/// date) where there is one. Each is keyed by the sale's key and its kind.
pub open spec fn sale_transactions_spec(p: PreparedKreamSale) -> Seq<(CalendarDate, u32, Seq<char>, i64, Seq<char>, Seq<char>)> {
    let purchase = (p.row.purchase_date, 9u32, "expense"@, p.row.purchase_price, "KREAM purchase"@, "purchase"@);
    let settlement = (p.row.settlement_date, 9u32, "income"@, p.row.settlement_price, "KREAM settlement"@, "settlement"@);
    let side = (p.row.purchase_date, 10u32, "expense"@, p.row.side_cost, "KREAM side cost"@, "side_cost"@);
    if p.row.side_cost > 0 {
        seq![purchase, settlement, side]
    } else {
        seq![purchase, settlement]
    }
}

fn transaction_plan(
    p: &PreparedKreamSale,
    date: CalendarDate,
    hour: u32,
    transaction_type: &str,
    amount: i64,
    merchant_name: &str,
    kind: &str,
) -> (t: KreamTransactionPlan)
    ensures
        t.date == date,
        t.hour == hour,
        t.transaction_type@ == transaction_type@,
        t.amount == amount,
        t.merchant_name@ == merchant_name@,
        t.description@ == p.row.product_name@,
        t.kream_kind@ == kind@,
        t.dedupe_key@ == hash_key_spec(seq!["kream_transaction"@, p.dedupe_key@ + ":"@ + kind@]),
{
    let mut seed = p.dedupe_key.clone();
    append_str(&mut seed, ":");
    append_str(&mut seed, kind);
    let mut parts: Vec<String> = Vec::new();
    parts.push(string_of(&chars_of("kream_transaction")));
    parts.push(seed);
    assert(strings_view(parts@) =~= seq!["kream_transaction"@, p.dedupe_key@ + ":"@ + kind@]);
    KreamTransactionPlan {
        date,
        hour,
        transaction_type: string_of(&chars_of(transaction_type)),
        amount,
        merchant_name: string_of(&chars_of(merchant_name)),
        description: p.row.product_name.clone(),
        dedupe_key: hash_key(&parts),
        kream_kind: string_of(&chars_of(kind)),
    }
}

/// The transactions that storing a sale records; see
/// `sale_transactions_spec`.
pub fn sale_transactions(p: &PreparedKreamSale) -> (r: Vec<KreamTransactionPlan>)
    ensures
        r@.len() == sale_transactions_spec(*p).len(),
        forall|i: int|
            0 <= i < r@.len() ==> {
                let (d, h, t, a, m, k) = sale_transactions_spec(*p)[i];
                &&& (#[trigger] r@[i]).date == d
                &&& r@[i].hour == h
                &&& r@[i].transaction_type@ == t
                &&& r@[i].amount == a
                &&& r@[i].merchant_name@ == m
                &&& r@[i].description@ == p.row.product_name@
                &&& r@[i].kream_kind@ == k
                &&& r@[i].dedupe_key@ == hash_key_spec(
                    seq!["kream_transaction"@, p.dedupe_key@ + ":"@ + k],
                )
            },
{
    let mut r: Vec<KreamTransactionPlan> = Vec::new();
    r.push(transaction_plan(p, p.row.purchase_date, 9, "expense", p.row.purchase_price, "KREAM purchase", "purchase"));
    r.push(transaction_plan(p, p.row.settlement_date, 9, "income", p.row.settlement_price, "KREAM settlement", "settlement"));
    if p.row.side_cost > 0 {
        r.push(transaction_plan(p, p.row.purchase_date, 10, "expense", p.row.side_cost, "KREAM side cost", "side_cost"));
    }
    r
}

} // verus!
