//! What every statement importer shares: header lookup, cell access, amounts
//! and dates.
use vstd::prelude::*;

use crate::calendar::{
    chrono_date, chrono_time, chrono_ymd_valid, kst_datetime, kst_datetime_spec, parse_date_fmt,
    parse_time_fmt, ymd_valid, LocalDateTime,
};
use crate::import::keyed_ids::KeyedIds;
use crate::numbers::{parse_i32, parse_i32_spec, parse_i64, parse_i64_spec, parse_u32, parse_u32_spec};
use crate::text::{
    append_str, chars_of, char_vecs_view, contains, contains_seq, join_seq, join_strings,
    lemma_split_any_len, lowercase, lowercase_chars, remove_char, split_any, split_any_seq,
    string_of, strings_view, trim_chars, trim_seq, without_char, case_settled, is_ws,
    lemma_filter_ends, lemma_filter_keeps_all, lemma_lower_each_ends, lemma_lowercase_settled,
    lemma_trim_shape, char_lower, lower_each,
};

verus! {

/// What a parser is shown to decide whether a file is its kind: the file's
/// name, a sample of its text, and its bytes.
#[derive(Debug, Clone, Copy)]
pub struct DetectInput<'a> {
    pub filename: Option<&'a str>,
    pub sample_text: Option<&'a str>,
    pub content: &'a [u8],
}

/// The text that `String::from_utf8_lossy` makes of the bytes.
pub uninterp spec fn utf8_lossy(bytes: Seq<u8>) -> Seq<char>;

/// `String::from_utf8_lossy`; named `utf8_lossy`. As its documentation
/// says, valid UTF-8 is read as it stands; how invalid sequences become
/// replacement characters is not restated here.
#[verifier::external_body]
pub(crate) fn utf8_lossy_string(bytes: &[u8]) -> (s: String)
    ensures
        s@ == utf8_lossy(bytes@),
        vstd::utf8::valid_utf8(bytes@) ==> s@ == vstd::utf8::decode_utf8(bytes@),
{
    String::from_utf8_lossy(bytes).to_string()
}

/// The text a parser looks for its markers in: the sample when there is one,
/// else all of the file read as text.
pub open spec fn sample_spec(input: DetectInput) -> Seq<char> {
    match input.sample_text {
        Some(t) => t@,
        None => utf8_lossy(input.content@),
    }
}

pub fn sample_of(input: &DetectInput) -> (v: Vec<char>)
    ensures
        v@ == sample_spec(*input),
{
    match input.sample_text {
        Some(t) => chars_of(t),
        None => chars_of(utf8_lossy_string(input.content).as_str()),
    }
}

/// A header without spaces or byte-order marks, in lower case.
pub open spec fn normalize_header_spec(value: Seq<char>) -> Seq<char> {
    lowercase(trim_seq(value).filter(without_char(' ')).filter(without_char('\u{feff}')))
}

/// The header as it is lowered: trimmed and without spaces or byte-order
/// marks.
pub open spec fn header_material(value: Seq<char>) -> Seq<char> {
    trim_seq(value).filter(without_char(' ')).filter(without_char('\u{feff}'))
}

proof fn lemma_header_material(value: Seq<char>)
    requires
        !value.contains('\u{feff}'),
        !value.contains('Σ'),
        forall|i: int| 0 <= i < value.len() ==> case_settled(#[trigger] value[i]),
    ensures
        forall|i: int| 0 <= i < header_material(value).len() ==> {
            let c = #[trigger] header_material(value)[i];
            case_settled(c) && c != ' ' && c != 'Σ' && c != '\u{feff}'
        },
        header_material(value).len() > 0 ==> !is_ws(header_material(value)[0]) && !is_ws(
            header_material(value).last(),
        ),
{
    let t = trim_seq(value);
    lemma_trim_shape(value);
    let a = t.filter(without_char(' '));
    let f = header_material(value);
    assert forall|i: int| 0 <= i < a.len() implies #[trigger] without_char('\u{feff}')(a[i]) by {
        t.lemma_filter_contains_rev(without_char(' '), a[i]);
        assert(a.contains(a[i]));
        let k = choose|k: int| 0 <= k < t.len() && t[k] == a[i];
        assert(value.contains(t[k]));
    }
    lemma_filter_keeps_all(a, without_char('\u{feff}'));
    assert(f == a);
    assert forall|i: int| 0 <= i < f.len() implies {
        let c = #[trigger] f[i];
        case_settled(c) && c != ' ' && c != 'Σ' && c != '\u{feff}'
    } by {
        t.lemma_filter_contains_rev(without_char(' '), f[i]);
        t.lemma_filter_pred(without_char(' '), i);
        assert(a.contains(f[i]));
        let k = choose|k: int| 0 <= k < t.len() && t[k] == f[i];
        assert(value.contains(t[k]));
        let m = choose|m: int| 0 <= m < value.len() && value[m] == t[k];
        assert(case_settled(value[m]));
        assert(without_char('\u{feff}')(a[i]));
    }
    if f.len() > 0 {
        assert(t.len() > 0) by {
            if t.len() == 0 {
                reveal_with_fuel(Seq::filter, 1);
            }
        }
        lemma_filter_ends(t, without_char(' '));
    }
}

proof fn lemma_header_lowered(f: Seq<char>)
    requires
        forall|i: int| 0 <= i < f.len() ==> {
            let c = #[trigger] f[i];
            case_settled(c) && c != ' ' && c != 'Σ' && c != '\u{feff}'
        },
        f.len() > 0 ==> !is_ws(f[0]) && !is_ws(f.last()),
    ensures
        forall|j: int| 0 <= j < lowercase(f).len() ==> {
            let c = #[trigger] lowercase(f)[j];
            c != ' ' && c != '\u{feff}'
        },
        lowercase(f).len() > 0 ==> !is_ws(lowercase(f)[0]) && !is_ws(lowercase(f).last()),
        lowercase(lowercase(f)) == lowercase(f),
{
    assert(!f.contains('Σ'));
    assert forall|i: int| 0 <= i < f.len() implies case_settled(#[trigger] f[i]) by {}
    lemma_lowercase_settled(f);
    let r = lowercase(f);
    assert forall|j: int| 0 <= j < r.len() implies {
        let c = #[trigger] r[j];
        c != ' ' && c != '\u{feff}'
    } by {
        if r[j] == ' ' || r[j] == '\u{feff}' {
            assert(is_ws(' '));
            assert(f.contains(r[j]));
            let k = choose|k: int| 0 <= k < f.len() && f[k] == r[j];
            assert(f[k] != ' ' && f[k] != '\u{feff}');
        }
    }
    if f.len() > 0 {
        assert(case_settled(f[0]) && case_settled(f[f.len() - 1]));
        lemma_lower_each_ends(f);
        let l0 = char_lower(f[0]);
        let k0 = choose|k: int| 0 <= k < l0.len() && l0[k] == r[0];
        assert(!is_ws(r[0])) by {
            if is_ws(r[0]) {
                assert(l0[k0] == f[0]);
            }
        }
        let ll = char_lower(f.last());
        let k1 = choose|k: int| 0 <= k < ll.len() && ll[k] == r.last();
        assert(!is_ws(r.last())) by {
            if is_ws(r.last()) {
                assert(ll[k1] == f.last());
            }
        }
    } else {
        assert(lower_each(f).len() == 0);
    }
}

/// A normalized header is settled: where the header holds no byte-order
/// mark and no capital sigma, and each of its characters' lowercase is
/// settled (every ASCII character's is), the result holds no space, has
/// nothing to trim, is its own lowercase, and normalizing it again gives it
/// back.
pub proof fn lemma_header_settled(value: Seq<char>)
    requires
        !value.contains('\u{feff}'),
        !value.contains('Σ'),
        forall|i: int| 0 <= i < value.len() ==> case_settled(#[trigger] value[i]),
    ensures
        !normalize_header_spec(value).contains(' '),
        trim_seq(normalize_header_spec(value)) == normalize_header_spec(value),
        lowercase(normalize_header_spec(value)) == normalize_header_spec(value),
        normalize_header_spec(normalize_header_spec(value)) == normalize_header_spec(value),
{
    lemma_header_material(value);
    let f = header_material(value);
    assert(normalize_header_spec(value) == lowercase(f));
    lemma_header_lowered(f);
    let r = lowercase(f);
    assert(!r.contains(' ')) by {
        if r.contains(' ') {
            let j = choose|j: int| 0 <= j < r.len() && r[j] == ' ';
            assert(r[j] != ' ');
        }
    }
    lemma_trim_shape(r);
    assert forall|j: int| 0 <= j < r.len() implies #[trigger] without_char(' ')(r[j]) by {
        assert(r[j] != ' ');
    }
    lemma_filter_keeps_all(r, without_char(' '));
    assert forall|j: int| 0 <= j < r.len() implies #[trigger] without_char('\u{feff}')(r[j]) by {
        assert(r[j] != '\u{feff}');
    }
    lemma_filter_keeps_all(r, without_char('\u{feff}'));
    assert(header_material(r) == r);
}

pub fn normalize_header_chars(value: &Vec<char>) -> (r: Vec<char>)
    ensures
        r@ == normalize_header_spec(value@),
{
    let t = trim_chars(value);
    let a = remove_char(&t, ' ');
    let b = remove_char(&a, '\u{feff}');
    lowercase_chars(&b)
}

pub fn normalize_header(value: &str) -> (r: String)
    ensures
        r@ == normalize_header_spec(value@),
{
    string_of(&normalize_header_chars(&chars_of(value)))
}

/// An amount cell: commas, `원`, spaces and `+` are ignored; an empty cell
/// has no amount.
pub open spec fn amount_spec(value: Seq<char>) -> Option<i64> {
    let cleaned = trim_seq(value).filter(without_char(',')).filter(without_char('원')).filter(
        without_char(' '),
    ).filter(without_char('+'));
    if cleaned.len() == 0 {
        None
    } else {
        parse_i64_spec(cleaned)
    }
}

pub fn parse_amount(value: &str) -> (r: Option<i64>)
    ensures
        r == amount_spec(value@),
{
    let t = trim_chars(&chars_of(value));
    let a = remove_char(&t, ',');
    let b = remove_char(&a, '원');
    let c = remove_char(&b, ' ');
    let d = remove_char(&c, '+');
    if d.len() == 0 {
        return None;
    }
    parse_i64(&d)
}

// ───────────────────────── headers ─────────────────────────

/// Each normalized header with its column; a later column with the same
/// header takes its place.
pub open spec fn header_map_spec(headers: Seq<Seq<char>>) -> Map<Seq<char>, u128>
    decreases headers.len(),
{
    if headers.len() == 0 {
        Map::empty()
    } else {
        header_map_spec(headers.drop_last()).insert(
            normalize_header_spec(headers.last()),
            (headers.len() - 1) as u128,
        )
    }
}

/// The columns of a table by normalized header.
#[derive(Debug)]
pub struct HeaderMap {
    pub keys: KeyedIds,
    pub columns: usize,
}

impl View for HeaderMap {
    type V = Map<Seq<char>, u128>;

    open spec fn view(&self) -> Map<Seq<char>, u128> {
        self.keys.view()
    }
}

impl HeaderMap {

    pub open spec fn wf(&self) -> bool {
        &&& self.keys.wf()
        &&& forall|k: Seq<char>| #[trigger] self.keys.view().contains_key(k) ==> self.keys.view()[k]
            < self.columns
    }
}

proof fn lemma_header_map_bound(headers: Seq<Seq<char>>)
    ensures
        forall|k: Seq<char>| #[trigger] header_map_spec(headers).contains_key(k) ==> header_map_spec(
            headers,
        )[k] < headers.len(),
    decreases headers.len(),
{
    if headers.len() > 0 {
        lemma_header_map_bound(headers.drop_last());
        assert forall|k: Seq<char>| #[trigger] header_map_spec(headers).contains_key(k) implies header_map_spec(
            headers,
        )[k] < headers.len() by {
            if k != normalize_header_spec(headers.last()) {
                assert(header_map_spec(headers.drop_last()).contains_key(k));
            }
        }
    }
}

pub fn header_map(headers: &[String]) -> (m: HeaderMap)
    ensures
        m.wf(),
        m.columns == headers@.len(),
        m.view() == header_map_spec(strings_view(headers@)),
{
    let mut keys = KeyedIds::new();
    let mut i: usize = 0;
    while i < headers.len()
        invariant
            i <= headers@.len(),
            keys.wf(),
            keys.view() == header_map_spec(strings_view(headers@).take(i as int)),
        decreases headers.len() - i,
    {
        proof {
            assert(strings_view(headers@).take(i + 1).drop_last() =~= strings_view(headers@).take(
                i as int,
            ));
        }
        let k = normalize_header_chars(&chars_of(headers[i].as_str()));
        keys.insert(k, i as u128);
        i += 1;
    }
    assert(strings_view(headers@).take(headers@.len() as int) =~= strings_view(headers@));
    proof {
        lemma_header_map_bound(strings_view(headers@));
    }
    HeaderMap { keys, columns: headers.len() }
}

/// The column of the first candidate header that the table has.
pub open spec fn pick_col_from(m: Map<Seq<char>, u128>, cands: Seq<Seq<char>>, i: int) -> Option<u128>
    decreases cands.len() - i,
{
    if i < 0 || i >= cands.len() {
        None
    } else if m.contains_key(normalize_header_spec(cands[i])) {
        Some(m[normalize_header_spec(cands[i])])
    } else {
        pick_col_from(m, cands, i + 1)
    }
}

pub open spec fn strs_view(v: Seq<&str>) -> Seq<Seq<char>> {
    v.map_values(|s: &str| s@)
}

pub open spec fn pick_col_spec(m: Map<Seq<char>, u128>, cands: Seq<&str>) -> Option<usize> {
    match pick_col_from(m, strs_view(cands), 0) {
        Some(v) => Some(v as usize),
        None => None,
    }
}

pub fn pick_col(map: &HeaderMap, candidates: &[&str]) -> (r: Option<usize>)
    requires
        map.wf(),
    ensures
        r == pick_col_spec(map.view(), candidates@),
        r matches Some(c) ==> c < map.columns,
{
    let ghost cv = strs_view(candidates@);
    let mut i: usize = 0;
    while i < candidates.len()
        invariant
            i <= candidates@.len(),
            map.wf(),
            cv == strs_view(candidates@),
            pick_col_from(map.view(), cv, 0) == pick_col_from(map.view(), cv, i as int),
        decreases candidates.len() - i,
    {
        let k = normalize_header_chars(&chars_of(candidates[i]));
        assert(cv[i as int] == candidates@[i as int]@);
        match map.keys.get(&k) {
            Some(v) => {
                return Some(v as usize);
            },
            None => {},
        }
        i += 1;
    }
    None
}

/// An error with `message` when the column is missing.
pub fn ensure_column(idx: Option<usize>, message: &str) -> (r: Result<usize, String>)
    ensures
        match idx {
            Some(i) => r == Ok::<usize, String>(i),
            None => r matches Err(e) && e@ == message@,
        },
{
    match idx {
        Some(i) => Ok(i),
        None => Err(string_of(&chars_of(message))),
    }
}

/// The cell at a column, or empty text when there is no such column or the
/// row is shorter.
pub open spec fn cell_spec(row: Seq<Seq<char>>, idx: Option<usize>) -> Seq<char> {
    match idx {
        Some(i) => if i < row.len() {
            row[i as int]
        } else {
            Seq::empty()
        },
        None => Seq::empty(),
    }
}

pub fn row_value<'a>(row: &'a [String], idx: Option<usize>) -> (r: &'a str)
    ensures
        r@ == cell_spec(strings_view(row@), idx),
{
    match idx {
        Some(i) => if i < row.len() {
            row[i].as_str()
        } else {
            proof {
                reveal_strlit("");
            }
            ""
        },
        None => {
            proof {
                reveal_strlit("");
            }
            ""
        },
    }
}

/// `expense` for a positive outflow, else `income` for a positive inflow.
pub open spec fn default_type_spec(outflow: Option<i64>, inflow: Option<i64>) -> Option<(Seq<char>, i64)> {
    let o = match outflow {
        Some(v) => v,
        None => 0,
    };
    let i = match inflow {
        Some(v) => v,
        None => 0,
    };
    if o > 0 {
        Some(("expense"@, o))
    } else if i > 0 {
        Some(("income"@, i))
    } else {
        None
    }
}

pub fn parse_default_type(outflow: Option<i64>, inflow: Option<i64>) -> (r: Option<(String, i64)>)
    ensures
        match default_type_spec(outflow, inflow) {
            Some((t, v)) => r matches Some((rt, rv)) && rt@ == t && rv == v,
            None => r is None,
        },
{
    let o: i64 = match outflow {
        Some(v) => v,
        None => 0,
    };
    let i: i64 = match inflow {
        Some(v) => v,
        None => 0,
    };
    if o > 0 {
        Some((string_of(&chars_of("expense")), o))
    } else if i > 0 {
        Some((string_of(&chars_of("income")), i))
    } else {
        None
    }
}

pub open spec fn no_rows_message() -> Seq<char> {
    "파싱할 데이터가 없습니다"@
}

/// Refuses an empty table.
pub fn require_non_empty_rows(rows: &[Vec<String>]) -> (r: Result<(), String>)
    ensures
        rows@.len() == 0 ==> (r matches Err(e) && e@ == no_rows_message()),
        rows@.len() > 0 ==> r is Ok,
{
    if rows.len() == 0 {
        return Err(string_of(&chars_of("파싱할 데이터가 없습니다")));
    }
    Ok(())
}

/// The views of the rows of a table.
pub open spec fn table_view(rows: Seq<Vec<String>>) -> Seq<Seq<Seq<char>>> {
    rows.map_values(|r: Vec<String>| strings_view(r@))
}

// ───────────────────────── dates ─────────────────────────

pub open spec fn date_formats() -> Seq<Seq<char>> {
    seq!["%Y-%m-%d"@, "%Y.%m.%d"@, "%Y/%m/%d"@, "%Y%m%d"@]
}

pub open spec fn time_formats() -> Seq<Seq<char>> {
    seq!["%H:%M:%S"@, "%H:%M"@]
}

/// The date read with the first format, from position `i`, that reads it.
pub open spec fn first_date(s: Seq<char>, fmts: Seq<Seq<char>>, i: int) -> Option<(i32, u32, u32)>
    decreases fmts.len() - i,
{
    if i < 0 || i >= fmts.len() {
        None
    } else {
        match chrono_date(s, fmts[i]) {
            Some(d) => Some(d),
            None => first_date(s, fmts, i + 1),
        }
    }
}

pub open spec fn first_time(s: Seq<char>, fmts: Seq<Seq<char>>, i: int) -> Option<(u32, u32, u32)>
    decreases fmts.len() - i,
{
    if i < 0 || i >= fmts.len() {
        None
    } else {
        match chrono_time(s, fmts[i]) {
            Some(t) => Some(t),
            None => first_time(s, fmts, i + 1),
        }
    }
}

/// A local date and optional time: the date in one of four layouts
/// (required), the time in one of two (midnight when absent or unreadable).
pub open spec fn local_datetime_spec(date: Seq<char>, time: Option<Seq<char>>) -> Option<LocalDateTime> {
    let d = trim_seq(date);
    let t = trim_seq(
        match time {
            Some(t) => t,
            None => "00:00:00"@,
        },
    );
    match first_date(d, date_formats(), 0) {
        None => None,
        Some((y, m, dd)) => {
            let (h, mi, s) = match first_time(t, time_formats(), 0) {
                Some(x) => x,
                None => (0u32, 0u32, 0u32),
            };
            kst_datetime_spec(y, m, dd, h, mi, s)
        },
    }
}

pub fn parse_local_datetime(date: &str, time: Option<&str>) -> (r: Option<LocalDateTime>)
    ensures
        r == local_datetime_spec(
            date@,
            match time {
                Some(t) => Some(t@),
                None => None,
            },
        ),
{
    let d = string_of(&trim_chars(&chars_of(date)));
    let traw: &str = match time {
        Some(t) => t,
        None => "00:00:00",
    };
    let t = string_of(&trim_chars(&chars_of(traw)));
    let dfmts: Vec<&str> = vec!["%Y-%m-%d", "%Y.%m.%d", "%Y/%m/%d", "%Y%m%d"];
    let mut found: Option<(i32, u32, u32)> = None;
    let mut i: usize = 0;
    while i < dfmts.len()
        invariant
            i <= dfmts@.len(),
            dfmts@.len() == date_formats().len(),
            forall|j: int| 0 <= j < dfmts@.len() ==> #[trigger] dfmts@[j]@ == date_formats()[j],
            found is None ==> first_date(d@, date_formats(), 0) == first_date(d@, date_formats(), i as int),
            found is Some ==> found == first_date(d@, date_formats(), 0),
        decreases dfmts.len() - i,
    {
        if found.is_none() {
            found = parse_date_fmt(d.as_str(), dfmts[i]);
        }
        i += 1;
    }
    let (y, m, dd) = match found {
        Some(x) => x,
        None => return None,
    };
    let tfmts: Vec<&str> = vec!["%H:%M:%S", "%H:%M"];
    let mut tfound: Option<(u32, u32, u32)> = None;
    let mut i: usize = 0;
    while i < tfmts.len()
        invariant
            i <= tfmts@.len(),
            tfmts@.len() == time_formats().len(),
            forall|j: int| 0 <= j < tfmts@.len() ==> #[trigger] tfmts@[j]@ == time_formats()[j],
            tfound is None ==> first_time(t@, time_formats(), 0) == first_time(t@, time_formats(), i as int),
            tfound is Some ==> tfound == first_time(t@, time_formats(), 0),
        decreases tfmts.len() - i,
    {
        if tfound.is_none() {
            tfound = parse_time_fmt(t.as_str(), tfmts[i]);
        }
        i += 1;
    }
    let (h, mi, s) = match tfound {
        Some(x) => x,
        None => (0u32, 0u32, 0u32),
    };
    kst_datetime(y, m, dd, h, mi, s)
}

/// A date written `2026년 04월 23일`: the pieces between `년`, `월` and `일`
/// read as year, month and day, when they make a date.
pub open spec fn korean_date_spec(s: Seq<char>) -> Option<(i32, u32, u32)> {
    let parts = split_any_seq(trim_seq(s), seq!['년', '월', '일']);
    if parts.len() >= 3 {
        match (
            parse_i32_spec(trim_seq(parts[0])),
            parse_u32_spec(trim_seq(parts[1])),
            parse_u32_spec(trim_seq(parts[2])),
        ) {
            (Some(y), Some(m), Some(d)) => if chrono_ymd_valid(y, m, d) {
                Some((y, m, d))
            } else {
                None
            },
            _ => None,
        }
    } else {
        None
    }
}

pub fn parse_korean_date(s: &str) -> (r: Option<(i32, u32, u32)>)
    ensures
        r == korean_date_spec(s@),
{
    let t = trim_chars(&chars_of(s));
    let seps: Vec<char> = vec!['년', '월', '일'];
    assert(seps@ =~= seq!['년', '월', '일']);
    let parts = split_any(&t, &seps);
    if parts.len() >= 3 {
        let y = match parse_i32(&trim_chars(&parts[0])) {
            Some(v) => v,
            None => return None,
        };
        let m = match parse_u32(&trim_chars(&parts[1])) {
            Some(v) => v,
            None => return None,
        };
        let d = match parse_u32(&trim_chars(&parts[2])) {
            Some(v) => v,
            None => return None,
        };
        if ymd_valid(y, m, d) {
            return Some((y, m, d));
        }
        return None;
    }
    None
}

// ───────────────────────── rows of a statement ─────────────────────────

/// One transaction read from a statement.
#[derive(Debug, Clone)]
pub struct ParsedRow {
    pub transaction_at: LocalDateTime,
    pub kind: String,
    pub amount: i64,
    pub merchant_name: Option<String>,
    pub description: Option<String>,
    pub account_name: Option<String>,
    pub card_name: Option<String>,
    pub source_institution: String,
    pub balance_after: Option<i64>,
    pub approval_number: Option<String>,
    /// The bank branch or channel, which bank statements record.
    pub branch_or_channel: Option<String>,
}

/// A transaction read from a statement, as text.
pub struct ParsedRowView {
    pub transaction_at: LocalDateTime,
    pub kind: Seq<char>,
    pub amount: i64,
    pub merchant_name: Option<Seq<char>>,
    pub description: Option<Seq<char>>,
    pub account_name: Option<Seq<char>>,
    pub card_name: Option<Seq<char>>,
    pub source_institution: Seq<char>,
    pub balance_after: Option<i64>,
    pub approval_number: Option<Seq<char>>,
    pub branch_or_channel: Option<Seq<char>>,
}

pub open spec fn opt_view(o: Option<String>) -> Option<Seq<char>> {
    match o {
        Some(s) => Some(s@),
        None => None,
    }
}

impl View for ParsedRow {
    type V = ParsedRowView;

    open spec fn view(&self) -> ParsedRowView {
        ParsedRowView {
            transaction_at: self.transaction_at,
            kind: self.kind@,
            amount: self.amount,
            merchant_name: opt_view(self.merchant_name),
            description: opt_view(self.description),
            account_name: opt_view(self.account_name),
            card_name: opt_view(self.card_name),
            source_institution: self.source_institution@,
            balance_after: self.balance_after,
            approval_number: opt_view(self.approval_number),
            branch_or_channel: opt_view(self.branch_or_channel),
        }
    }
}

pub open spec fn rows_view(v: Seq<ParsedRow>) -> Seq<ParsedRowView> {
    v.map_values(|r: ParsedRow| r.view())
}

/// The rows that `f` keeps, as it makes them, in order.
pub open spec fn collect_rows(
    rows: Seq<Seq<Seq<char>>>,
    f: spec_fn(Seq<Seq<char>>) -> Option<ParsedRowView>,
) -> Seq<ParsedRowView>
    decreases rows.len(),
{
    if rows.len() == 0 {
        Seq::empty()
    } else {
        let rest = collect_rows(rows.drop_last(), f);
        match f(rows.last()) {
            Some(r) => rest.push(r),
            None => rest,
        }
    }
}

/// Every row collected is what the reading gives for some source row.
pub proof fn lemma_collect_rows_origin(
    rows: Seq<Seq<Seq<char>>>,
    f: spec_fn(Seq<Seq<char>>) -> Option<ParsedRowView>,
    i: int,
)
    requires
        0 <= i < collect_rows(rows, f).len(),
    ensures
        exists|k: int| 0 <= k < rows.len() && f(rows[k]) == Some(collect_rows(rows, f)[i]),
    decreases rows.len(),
{
    let rest = collect_rows(rows.drop_last(), f);
    if i < rest.len() {
        lemma_collect_rows_origin(rows.drop_last(), f, i);
        let k = choose|k: int| 0 <= k < rows.drop_last().len() && f(rows.drop_last()[k]) == Some(rest[i]);
        assert(rows[k] == rows.drop_last()[k]);
        assert(f(rows[k]) == Some(collect_rows(rows, f)[i]));
    } else {
        let k = rows.len() - 1;
        assert(f(rows[k]) == Some(collect_rows(rows, f)[i]));
    }
}

/// Empty text is no value.
pub open spec fn nonempty(s: Seq<char>) -> Option<Seq<char>> {
    if s.len() == 0 {
        None
    } else {
        Some(s)
    }
}

pub fn opt_nonempty(v: &Vec<char>) -> (r: Option<String>)
    ensures
        opt_view(r) == nonempty(v@),
{
    if v.len() == 0 {
        None
    } else {
        Some(string_of(v))
    }
}

/// The trimmed cell at a column.
pub fn trimmed_cell(row: &[String], idx: Option<usize>) -> (r: Vec<char>)
    ensures
        r@ == trim_seq(cell_spec(strings_view(row@), idx)),
{
    trim_chars(&chars_of(row_value(row, idx)))
}

/// Some marker occurs in the cell.
pub open spec fn has_marker(cell: Seq<char>, markers: Seq<Seq<char>>) -> bool {
    exists|i: int| 0 <= i < markers.len() && contains_seq(cell, #[trigger] markers[i])
}

/// The cell as header detection sees it: without spaces when `strip`.
pub open spec fn marker_cell(cell: Seq<char>, strip: bool) -> Seq<char> {
    if strip {
        cell.filter(without_char(' '))
    } else {
        cell
    }
}

/// Some cell of the row holds a marker.
pub open spec fn is_header_row(row: Seq<Seq<char>>, markers: Seq<Seq<char>>, strip: bool) -> bool {
    exists|j: int| 0 <= j < row.len() && has_marker(marker_cell(#[trigger] row[j], strip), markers)
}

/// `h` is the first row that holds a marker.
pub open spec fn first_header_row(rows: Seq<Seq<Seq<char>>>, markers: Seq<Seq<char>>, strip: bool, h: int) -> bool {
    &&& 0 <= h < rows.len()
    &&& is_header_row(rows[h], markers, strip)
    &&& forall|k: int| 0 <= k < h ==> !is_header_row(#[trigger] rows[k], markers, strip)
}

pub open spec fn header_row_spec(rows: Seq<Seq<Seq<char>>>, markers: Seq<Seq<char>>, strip: bool) -> Option<int> {
    if exists|h: int| first_header_row(rows, markers, strip, h) {
        Some(choose|h: int| first_header_row(rows, markers, strip, h))
    } else {
        None
    }
}

proof fn lemma_first_header_unique(rows: Seq<Seq<Seq<char>>>, markers: Seq<Seq<char>>, strip: bool, a: int, b: int)
    requires
        first_header_row(rows, markers, strip, a),
        first_header_row(rows, markers, strip, b),
    ensures
        a == b,
{
    if a < b {
        assert(!is_header_row(rows[a], markers, strip));
    } else if b < a {
        assert(!is_header_row(rows[b], markers, strip));
    }
}

fn cell_has_marker(cell: &Vec<char>, markers: &Vec<Vec<char>>) -> (b: bool)
    ensures
        b == has_marker(cell@, char_vecs_view(markers@)),
{
    let mut i: usize = 0;
    while i < markers.len()
        invariant
            i <= markers@.len(),
            forall|k: int| 0 <= k < i ==> !contains_seq(cell@, #[trigger] char_vecs_view(markers@)[k]),
        decreases markers.len() - i,
    {
        if contains(cell, &markers[i]) {
            assert(contains_seq(cell@, char_vecs_view(markers@)[i as int]));
            return true;
        }
        i += 1;
    }
    false
}

/// The literal markers as character vectors.
pub fn marker_list(markers: &[&str]) -> (r: Vec<Vec<char>>)
    ensures
        char_vecs_view(r@) == strs_view(markers@),
{
    let mut r: Vec<Vec<char>> = Vec::new();
    let mut i: usize = 0;
    while i < markers.len()
        invariant
            i <= markers@.len(),
            char_vecs_view(r@) == strs_view(markers@).take(i as int),
        decreases markers.len() - i,
    {
        let ghost old_r = r@;
        let c = chars_of(markers[i]);
        r.push(c);
        assert(char_vecs_view(r@) =~= char_vecs_view(old_r).push(markers@[i as int]@));
        assert(strs_view(markers@).take(i + 1) =~= strs_view(markers@).take(i as int).push(markers@[i as int]@));
        assert(char_vecs_view(r@) =~= strs_view(markers@).take(i + 1));
        i += 1;
    }
    assert(strs_view(markers@).take(markers@.len() as int) =~= strs_view(markers@));
    r
}

/// The first row of the table that holds one of the markers.
pub fn find_header_row(rows: &Vec<Vec<String>>, markers: &[&str], strip: bool) -> (r: Option<usize>)
    ensures
        match header_row_spec(table_view(rows@), strs_view(markers@), strip) {
            Some(h) => r == Some(h as usize),
            None => r is None,
        },
{
    let ms = marker_list(markers);
    let ghost t = table_view(rows@);
    let ghost mv = strs_view(markers@);
    let mut i: usize = 0;
    while i < rows.len()
        invariant
            i <= rows@.len(),
            t == table_view(rows@),
            mv == strs_view(markers@),
            char_vecs_view(ms@) == mv,
            forall|k: int| 0 <= k < i ==> !is_header_row(#[trigger] t[k], mv, strip),
        decreases rows.len() - i,
    {
        let row = &rows[i];
        let mut j: usize = 0;
        let mut hit = false;
        while j < row.len()
            invariant
                j <= row@.len(),
                t == table_view(rows@),
                mv == strs_view(markers@),
                char_vecs_view(ms@) == mv,
                t[i as int] == strings_view(row@),
                hit <==> exists|q: int| 0 <= q < j && has_marker(marker_cell(#[trigger] t[i as int][q], strip), mv),
            decreases row.len() - j,
        {
            let raw = chars_of(row[j].as_str());
            let cell = if strip {
                remove_char(&raw, ' ')
            } else {
                raw
            };
            assert(cell@ == marker_cell(t[i as int][j as int], strip));
            if !hit && cell_has_marker(&cell, &ms) {
                hit = true;
            }
            j += 1;
        }
        if hit {
            proof {
                assert(first_header_row(t, mv, strip, i as int));
                let h = choose|h: int| first_header_row(t, mv, strip, h);
                lemma_first_header_unique(t, mv, strip, i as int, h);
            }
            return Some(i);
        }
        i += 1;
    }
    None
}

/// The first five rows, each joined with ` | `, one per line.
pub open spec fn preview_spec(rows: Seq<Seq<Seq<char>>>) -> Seq<char> {
    let n = if rows.len() < 5 {
        rows.len() as int
    } else {
        5
    };
    join_seq(Seq::new(n as nat, |i: int| join_seq(rows[i], " | "@)), "\n"@)
}

/// `prefix` followed by a preview of the table's first rows.
pub fn preview_message(prefix: &str, rows: &Vec<Vec<String>>) -> (r: String)
    ensures
        r@ == prefix@ + preview_spec(table_view(rows@)),
{
    let n: usize = if rows.len() < 5 {
        rows.len()
    } else {
        5
    };
    let mut lines: Vec<String> = Vec::new();
    let mut i: usize = 0;
    while i < n
        invariant
            i <= n <= rows@.len(),
            n == if rows@.len() < 5 { rows@.len() } else { 5 },
            strings_view(lines@) == Seq::new(i as nat, |k: int| join_seq(table_view(rows@)[k], " | "@)),
        decreases n - i,
    {
        let line = join_strings(&rows[i], 0, " | ");
        assert(strings_view(rows@[i as int]@).skip(0) =~= table_view(rows@)[i as int]);
        let ghost old_l = lines@;
        let ghost lv = line@;
        lines.push(line);
        assert(strings_view(lines@) =~= strings_view(old_l).push(lv));
        i += 1;
        assert(strings_view(lines@) =~= Seq::new(i as nat, |k: int| join_seq(table_view(rows@)[k], " | "@)));
    }
    let joined = join_strings(&lines, 0, "\n");
    assert(strings_view(lines@).skip(0) =~= strings_view(lines@));
    let mut r = string_of(&chars_of(prefix));
    append_str(&mut r, joined.as_str());
    r
}

/// `prefix` followed by the headers joined with `, `.
pub fn headers_message(prefix: &str, headers: &Vec<String>) -> (r: String)
    ensures
        r@ == prefix@ + join_seq(strings_view(headers@), ", "@),
{
    let joined = join_strings(headers, 0, ", ");
    assert(strings_view(headers@).skip(0) =~= strings_view(headers@));
    let mut r = string_of(&chars_of(prefix));
    append_str(&mut r, joined.as_str());
    r
}

// ───────────────────────── detection scores ─────────────────────────

/// How many of the markers occur in the text.
pub open spec fn marker_count(text: Seq<char>, markers: Seq<Seq<char>>) -> nat
    decreases markers.len(),
{
    if markers.len() == 0 {
        0
    } else {
        marker_count(text, markers.drop_last()) + if contains_seq(text, markers.last()) {
            1nat
        } else {
            0nat
        }
    }
}

/// `each` points for every marker that occurs in the text.
pub fn marker_score(text: &Vec<char>, markers: &[&str], each: u32) -> (r: u32)
    requires
        markers@.len() <= 100,
        each <= 100,
    ensures
        r == each * marker_count(text@, strs_view(markers@)),
{
    let ms = marker_list(markers);
    let mut score: u32 = 0;
    let mut i: usize = 0;
    assert(char_vecs_view(ms@).len() == ms@.len());
    assert(strs_view(markers@).len() == markers@.len());
    assert(strs_view(markers@).take(0) =~= Seq::<Seq<char>>::empty());
    assert(each * marker_count(text@, strs_view(markers@).take(0)) == 0) by (nonlinear_arith)
        requires
            marker_count(text@, strs_view(markers@).take(0)) == 0,
    ;
    while i < ms.len()
        invariant
            i <= ms@.len() == markers@.len() <= 100,
            each <= 100,
            char_vecs_view(ms@) == strs_view(markers@),
            score == each * marker_count(text@, strs_view(markers@).take(i as int)),
            marker_count(text@, strs_view(markers@).take(i as int)) <= i,
        decreases ms.len() - i,
    {
        proof {
            assert(strs_view(markers@).take(i + 1).drop_last() =~= strs_view(markers@).take(i as int));
            assert(strs_view(markers@).take(i + 1).last() == char_vecs_view(ms@)[i as int]);
        }
        if contains(text, &ms[i]) {
            assert(each * (marker_count(text@, strs_view(markers@).take(i as int)) + 1) <= 100 * 101)
                by (nonlinear_arith)
                requires
                    each <= 100,
                    marker_count(text@, strs_view(markers@).take(i as int)) <= i,
                    i < 100,
            ;
            assert(each * (marker_count(text@, strs_view(markers@).take(i as int)) + 1) == each
                * marker_count(text@, strs_view(markers@).take(i as int)) + each) by (nonlinear_arith);
            score = score + each;
        }
        i += 1;
    }
    assert(strs_view(markers@).take(ms@.len() as int) =~= strs_view(markers@));
    score
}

/// The file's name in lower case, when it has one.
pub open spec fn lowered_name(input: DetectInput) -> Option<Seq<char>> {
    match input.filename {
        Some(n) => Some(lowercase(n@)),
        None => None,
    }
}

pub fn lowered_filename(input: &DetectInput) -> (r: Option<Vec<char>>)
    ensures
        match lowered_name(*input) {
            Some(n) => r matches Some(v) && v@ == n,
            None => r is None,
        },
{
    match input.filename {
        Some(n) => Some(lowercase_chars(&chars_of(n))),
        None => None,
    }
}

pub proof fn lemma_marker_count_le(text: Seq<char>, markers: Seq<Seq<char>>)
    ensures
        marker_count(text, markers) <= markers.len(),
    decreases markers.len(),
{
    if markers.len() > 0 {
        lemma_marker_count_le(text, markers.drop_last());
    }
}

} // verus!
