//! Statements as tables of text: HTML tables saved under a spreadsheet name,
//! and CSV files.
use vstd::prelude::*;

use crate::import::parser::{table_view, utf8_lossy, utf8_lossy_string};
use crate::text::{
    chars_of, contains, contains_seq, find_from, find_from_spec, first_occurrence_from,
    lowercase, occurs_at, replace_all, replace_seq, string_of, strings_view, sub_chars,
    lower_text, trim_chars, trim_seq,
};
use vstd::string::StringSliceAdditionalSpecFns;
use vstd::utf8::{
    decode_utf8, encode_utf8, encode_utf8_decode_utf8, encode_utf8_valid_utf8, is_char_boundary,
    is_char_boundary_iff_not_is_continuation_byte, is_char_boundary_start_end_of_seq, valid_utf8,
    valid_utf8_split,
};

verus! {

// ───────────────────────── HTML tables ─────────────────────────

/// The characters of `s` outside `<...>` tags; `in_tag` says whether `s`
/// starts inside one.
pub open spec fn outside_tags(s: Seq<char>, in_tag: bool) -> Seq<char>
    decreases s.len(),
{
    if s.len() == 0 {
        Seq::<char>::empty()
    } else if s[0] == '<' {
        outside_tags(s.skip(1), true)
    } else if s[0] == '>' {
        outside_tags(s.skip(1), false)
    } else if in_tag {
        outside_tags(s.skip(1), true)
    } else {
        seq![s[0]] + outside_tags(s.skip(1), false)
    }
}

/// The text of a cell: tags dropped, the entities `&amp;`, `&lt;`, `&gt;`,
/// `&nbsp;` and `&#160;` replaced in that order, and the result trimmed.
pub open spec fn cell_text_spec(s: Seq<char>) -> Seq<char> {
    let bare = outside_tags(s, false);
    let amp = replace_seq(bare, "&amp;"@, "&"@);
    let lt = replace_seq(amp, "&lt;"@, "<"@);
    let gt = replace_seq(lt, "&gt;"@, ">"@);
    let nbsp = replace_seq(gt, "&nbsp;"@, " "@);
    let num = replace_seq(nbsp, "&#160;"@, " "@);
    trim_seq(num)
}

/// Drops the tags of a cell's markup, replaces the common entities and
/// trims the result.
pub fn strip_html_tags(s: &Vec<char>) -> (r: String)
    ensures
        r@ == cell_text_spec(s@),
{
    let mut bare: Vec<char> = Vec::new();
    let mut in_tag = false;
    let mut i: usize = 0;
    assert(s@.skip(0) =~= s@);
    assert(bare@ + outside_tags(s@, false) =~= outside_tags(s@, false));
    while i < s.len()
        invariant
            i <= s.len(),
            bare@ + outside_tags(s@.skip(i as int), in_tag) == outside_tags(s@, false),
        decreases s.len() - i,
    {
        let ghost rest = s@.skip(i as int);
        assert(rest[0] == s@[i as int]);
        assert(rest.skip(1) =~= s@.skip(i + 1));
        let c = s[i];
        if c == '<' {
            in_tag = true;
        } else if c == '>' {
            in_tag = false;
        } else if !in_tag {
            bare.push(c);
            assert(bare@ + outside_tags(s@.skip(i + 1), false) =~= outside_tags(s@, false));
        }
        i += 1;
    }
    assert(s@.skip(i as int) =~= Seq::<char>::empty());
    assert(bare@ + Seq::<char>::empty() =~= bare@);
    proof {
        reveal_strlit("&amp;");
        reveal_strlit("&lt;");
        reveal_strlit("&gt;");
        reveal_strlit("&nbsp;");
        reveal_strlit("&#160;");
    }
    let amp = replace_all(&bare, &chars_of("&amp;"), &chars_of("&"));
    let lt = replace_all(&amp, &chars_of("&lt;"), &chars_of("<"));
    let gt = replace_all(&lt, &chars_of("&gt;"), &chars_of(">"));
    let nbsp = replace_all(&gt, &chars_of("&nbsp;"), &chars_of(" "));
    let num = replace_all(&nbsp, &chars_of("&#160;"), &chars_of(" "));
    string_of(&trim_chars(&num))
}

/// The next cell tag at or after `from` in the lowered row `low`: its
/// position and the closing tag it needs. `<td` wins a tie, which cannot
/// happen, as the two differ in their third character.
pub open spec fn next_cell_tag(low: Seq<char>, from: int) -> Option<(int, Seq<char>)> {
    match (find_from_spec(low, "<td"@, from), find_from_spec(low, "<th"@, from)) {
        (None, None) => None,
        (Some(a), None) => Some((a, "</td>"@)),
        (None, Some(b)) => Some((b, "</th>"@)),
        (Some(a), Some(b)) => if a <= b {
            Some((a, "</td>"@))
        } else {
            Some((b, "</th>"@))
        },
    }
}

/// Where a cell's content starts: after the first `>` from its tag, or
/// just after the tag's `<` where there is none.
pub open spec fn content_start(low: Seq<char>, at: int) -> int {
    match find_from_spec(low, seq!['>'], at) {
        Some(g) => g + 1,
        None => at + 1,
    }
}

/// The bytes of a text, each read as the character of the same number.
/// The tags searched for are ASCII, so they are found here at the byte
/// offsets where `str::find` finds them.
pub open spec fn byte_chars(b: Seq<u8>) -> Seq<char> {
    Seq::new(b.len(), |i: int| b[i] as char)
}

/// The bytes of the lowercase of a text, read as characters.
pub open spec fn lowered_bytes(s: Seq<char>) -> Seq<char> {
    byte_chars(encode_utf8(lowercase(s)))
}

/// `&text[a..b]` on text with bytes `tb` does not panic: the range lies in
/// the text and both ends fall on character boundaries.
pub open spec fn cut_ok(tb: Seq<u8>, a: int, b: int) -> bool {
    &&& 0 <= a <= b <= tb.len()
    &&& is_char_boundary(tb, a)
    &&& is_char_boundary(tb, b)
}

/// The texts of the cells of a row whose bytes are `row`, searched from
/// offset `from` in `low`, the bytes of the row lowered, and cut from the
/// row as written at those offsets. A cell whose closing tag is missing
/// ends the row; `None` where a cut falls off a character boundary or past
/// the row's end.
pub open spec fn cells_from(row: Seq<u8>, low: Seq<char>, from: int) -> Option<Seq<Seq<char>>>
    decreases low.len() - from,
{
    if from < 0 || from > low.len() {
        Some(Seq::<Seq<char>>::empty())
    } else {
        match next_cell_tag(low, from) {
            None => Some(Seq::<Seq<char>>::empty()),
            Some((at, close)) => {
                let cs = content_start(low, at);
                match find_from_spec(low, close, cs) {
                    None => Some(Seq::<Seq<char>>::empty()),
                    Some(e) => {
                        proof {
                            lemma_cell_progress(low, from);
                        }
                        if !cut_ok(row, cs, e) {
                            None
                        } else {
                            match cells_from(row, low, e + close.len()) {
                                None => None,
                                Some(rest) => Some(
                                    seq![cell_text_spec(decode_utf8(row.subrange(cs, e)))] + rest,
                                ),
                            }
                        }
                    },
                }
            },
        }
    }
}

/// The rows of the page with at least one cell, from byte offset `pos` on:
/// `tb` are the page's bytes and `low` the bytes of the page lowered. Each
/// `<tr` up to the next `</tr>` found in `low` is cut from the page at those
/// offsets, lowered again, and read for cells; the search goes on from the
/// byte after the `<tr`. `None` where a cut falls off a character boundary
/// or past the page's end.
pub open spec fn rows_from(tb: Seq<u8>, low: Seq<char>, pos: int) -> Option<Seq<Seq<Seq<char>>>>
    decreases low.len() - pos,
{
    if pos < 0 || pos >= low.len() {
        Some(Seq::<Seq<Seq<char>>>::empty())
    } else {
        match find_from_spec(low, "<tr"@, pos) {
            None => Some(Seq::<Seq<Seq<char>>>::empty()),
            Some(s) => match find_from_spec(low, "</tr>"@, s) {
                None => Some(Seq::<Seq<Seq<char>>>::empty()),
                Some(e) => {
                    proof {
                        reveal_strlit("<tr");
                        lemma_found_bounds(low, "<tr"@, pos);
                    }
                    if !cut_ok(tb, s, e + 5) {
                        None
                    } else {
                        let row = tb.subrange(s, e + 5);
                        match cells_from(row, lowered_bytes(decode_utf8(row)), 0) {
                            None => None,
                            Some(cells) => match rows_from(tb, low, s + 1) {
                                None => None,
                                Some(rest) => Some(
                                    if cells.len() > 0 {
                                        seq![cells] + rest
                                    } else {
                                        rest
                                    },
                                ),
                            },
                        }
                    }
                },
            },
        }
    }
}

/// What reading the page `text` as an HTML table gives: an error where no
/// cell is closed anywhere in its lowered bytes, or where no row has a
/// cell; else the rows. `None` where reading it would cut text off a
/// character boundary, which panics.
pub open spec fn html_outcome(text: Seq<char>) -> Option<Result<Seq<Seq<Seq<char>>>, Seq<char>>> {
    let low = lowered_bytes(text);
    if !contains_seq(low, "</td>"@) && !contains_seq(low, "</th>"@) {
        Some(Err("HTML 테이블이 없습니다"@))
    } else {
        match rows_from(encode_utf8(text), low, 0) {
            None => None,
            Some(rows) => if rows.len() == 0 {
                Some(Err("HTML 테이블에서 데이터를 추출할 수 없습니다"@))
            } else {
                Some(Ok(rows))
            },
        }
    }
}

pub open spec fn string_table_view(rows: Seq<Vec<String>>) -> Seq<Seq<Seq<char>>> {
    table_view(rows)
}

pub proof fn lemma_cell_progress(low: Seq<char>, from: int)
    requires
        0 <= from,
        match next_cell_tag(low, from) {
            Some((at, close)) => find_from_spec(low, close, content_start(low, at)) is Some,
            None => false,
        },
    ensures
        match next_cell_tag(low, from) {
            Some((at, close)) => {
                let e = find_from_spec(low, close, content_start(low, at))->0;
                &&& from <= at < content_start(low, at) <= e
                &&& e + close.len() <= low.len()
            },
            None => false,
        },
{
    if find_from_spec(low, "<td"@, from) is Some {
        lemma_found_bounds(low, "<td"@, from);
    }
    if find_from_spec(low, "<th"@, from) is Some {
        lemma_found_bounds(low, "<th"@, from);
    }
    let (at, close) = match next_cell_tag(low, from) {
        Some(t) => t,
        None => (0, Seq::<char>::empty()),
    };
    if find_from_spec(low, seq!['>'], at) is Some {
        lemma_found_bounds(low, seq!['>'], at);
    }
    lemma_found_bounds(low, close, content_start(low, at));
}

pub proof fn lemma_found_bounds(s: Seq<char>, p: Seq<char>, from: int)
    requires
        find_from_spec(s, p, from) is Some,
    ensures
        first_occurrence_from(s, p, from, find_from_spec(s, p, from)->0),
        from <= find_from_spec(s, p, from)->0,
        find_from_spec(s, p, from)->0 + p.len() <= s.len(),
{
}

fn cell_tag(low: &Vec<char>, from: usize) -> (r: Option<(usize, Vec<char>)>)
    requires
        from <= low.len(),
    ensures
        match next_cell_tag(low@, from as int) {
            None => r is None,
            Some((at, close)) => r matches Some((a, c)) && a == at && c@ == close,
        },
{
    let td = find_from(low, &chars_of("<td"), from);
    let th = find_from(low, &chars_of("<th"), from);
    match (td, th) {
        (None, None) => None,
        (Some(a), None) => Some((a, chars_of("</td>"))),
        (None, Some(b)) => Some((b, chars_of("</th>"))),
        (Some(a), Some(b)) => if a <= b {
            Some((a, chars_of("</td>")))
        } else {
            Some((b, chars_of("</th>")))
        },
    }
}

/// The bytes of `s`, each read as a character (see `byte_chars`).
fn byte_view(s: &str) -> (v: Vec<char>)
    ensures
        v@ == byte_chars(s.spec_bytes()),
{
    let bytes = s.as_bytes();
    let mut v: Vec<char> = Vec::new();
    let mut i: usize = 0;
    while i < bytes.len()
        invariant
            i <= bytes@.len(),
            bytes@ == s.spec_bytes(),
            v@ == byte_chars(bytes@).take(i as int),
        decreases bytes.len() - i,
    {
        v.push(bytes[i] as char);
        assert(v@ =~= byte_chars(bytes@).take(i + 1));
        i += 1;
    }
    assert(byte_chars(bytes@).take(i as int) =~= byte_chars(bytes@));
    v
}

/// A range whose ends fall on character boundaries of valid UTF-8 has its
/// end on a character boundary of what follows its start.
proof fn lemma_boundary_after(tb: Seq<u8>, a: int, b: int)
    requires
        valid_utf8(tb),
        cut_ok(tb, a, b),
    ensures
        valid_utf8(tb.subrange(a, tb.len() as int)),
        is_char_boundary(tb.subrange(a, tb.len() as int), b - a),
{
    valid_utf8_split(tb, a);
    let rest = tb.subrange(a, tb.len() as int);
    if b - a == 0 {
    } else if b == tb.len() {
        is_char_boundary_start_end_of_seq(rest);
    } else {
        is_char_boundary_iff_not_is_continuation_byte(tb, b);
        is_char_boundary_iff_not_is_continuation_byte(rest, b - a);
        assert(rest[b - a] == tb[b]);
    }
}

/// `&s[a..b]` as a `String`, or `None` where that slice would panic.
fn cut_text(s: &str, a: usize, b: usize) -> (r: Option<String>)
    ensures
        r is Some <==> cut_ok(s.spec_bytes(), a as int, b as int),
        r matches Some(x) ==> x@ == decode_utf8(s.spec_bytes().subrange(a as int, b as int))
            && encode_utf8(x@) == s.spec_bytes().subrange(a as int, b as int),
{
    proof {
        encode_utf8_valid_utf8(s@);
    }
    let len = s.as_bytes().len();
    if a > b || b > len {
        return None;
    }
    if !s.is_char_boundary(a) || !s.is_char_boundary(b) {
        return None;
    }
    proof {
        lemma_boundary_after(s.spec_bytes(), a as int, b as int);
    }
    let (_, rest) = s.split_at(a);
    assert(rest.spec_bytes() =~= s.spec_bytes().subrange(a as int, s.spec_bytes().len() as int));
    let (mid, _) = rest.split_at(b - a);
    let x = mid.to_owned();
    proof {
        let tb = s.spec_bytes();
        assert(mid.spec_bytes() =~= tb.subrange(a as int, b as int));
        encode_utf8_decode_utf8(mid@);
    }
    Some(x)
}

/// The cells of one row: `row` is the row as written, `low` the bytes of
/// the row lowered; `None` where a cut would panic (see `cells_from`).
fn row_cells(row: &str, low: &Vec<char>) -> (cells: Option<Vec<String>>)
    ensures
        match cells_from(row.spec_bytes(), low@, 0) {
            None => cells is None,
            Some(v) => cells matches Some(c) && strings_view(c@) == v,
        },
{
    proof {
        reveal_strlit("</td>");
        reveal_strlit("</th>");
        reveal_strlit("<td");
        reveal_strlit("<th");
    }
    let ghost rb = row.spec_bytes();
    let n = low.len();
    let mut cells: Vec<String> = Vec::new();
    let mut pos: usize = 0;
    assert(strings_view(cells@) =~= Seq::<Seq<char>>::empty());
    loop
        invariant_except_break
            pos <= n == low.len(),
            rb == row.spec_bytes(),
            match cells_from(rb, low@, 0) {
                None => cells_from(rb, low@, pos as int) is None,
                Some(all) => cells_from(rb, low@, pos as int) matches Some(rest) && strings_view(
                    cells@,
                ) + rest == all,
            },
        ensures
            cells_from(rb, low@, 0) matches Some(all) && strings_view(cells@) == all,
        decreases n - pos,
    {
        let ghost before = cells@;
        proof {
            reveal_strlit("</td>");
            reveal_strlit("</th>");
            reveal_strlit("<td");
            reveal_strlit("<th");
        }
        let (at, close) = match cell_tag(low, pos) {
            Some(t) => t,
            None => {
                assert(strings_view(cells@) + Seq::<Seq<char>>::empty() =~= strings_view(cells@));
                break;
            },
        };
        proof {
            if find_from_spec(low@, "<td"@, pos as int) is Some {
                lemma_found_bounds(low@, "<td"@, pos as int);
            }
            if find_from_spec(low@, "<th"@, pos as int) is Some {
                lemma_found_bounds(low@, "<th"@, pos as int);
            }
        }
        assert(at + 3 <= n);
        proof {
            reveal_strlit(">");
            assert(">"@ =~= seq!['>']);
        }
        let cs = match find_from(low, &chars_of(">"), at) {
            Some(g) => g + 1,
            None => at + 1,
        };
        assert(cs == content_start(low@, at as int));
        match find_from(low, &close, cs) {
            None => {
                assert(strings_view(cells@) + Seq::<Seq<char>>::empty() =~= strings_view(cells@));
                break;
            },
            Some(e) => {
                assert(close@.len() == 5);
                proof {
                    lemma_cell_progress(low@, pos as int);
                }
                let raw = match cut_text(row, cs, e) {
                    Some(x) => x,
                    None => return None,
                };
                let cell = strip_html_tags(&chars_of(raw.as_str()));
                cells.push(cell);
                proof {
                    assert(strings_view(cells@) =~= strings_view(before) + seq![
                        cell_text_spec(decode_utf8(rb.subrange(cs as int, e as int))),
                    ]);
                }
                pos = e + 5;
            },
        }
    }
    Some(cells)
}

/// The rows of the page `text`, its bytes lowered being `low`; `None` where
/// a cut would panic (see `rows_from`).
fn page_rows(text: &str, low: &Vec<char>) -> (r: Option<Vec<Vec<String>>>)
    ensures
        match rows_from(text.spec_bytes(), low@, 0) {
            None => r is None,
            Some(v) => r matches Some(rows) && string_table_view(rows@) == v,
        },
{
    let ghost tb = text.spec_bytes();
    let n = low.len();
    let mut all: Vec<Vec<String>> = Vec::new();
    let mut pos: usize = 0;
    assert(string_table_view(all@) =~= Seq::<Seq<Seq<char>>>::empty());
    loop
        invariant_except_break
            pos <= n == low.len(),
            tb == text.spec_bytes(),
            match rows_from(tb, low@, 0) {
                None => rows_from(tb, low@, pos as int) is None,
                Some(whole) => rows_from(tb, low@, pos as int) matches Some(rest)
                    && string_table_view(all@) + rest == whole,
            },
        ensures
            match rows_from(tb, low@, 0) {
                None => false,
                Some(whole) => string_table_view(all@) == whole,
            },
        decreases n - pos,
    {
        let ghost before = all@;
        proof {
            reveal_strlit("<tr");
            reveal_strlit("</tr>");
        }
        if pos >= n {
            assert(string_table_view(all@) + Seq::<Seq<Seq<char>>>::empty() =~= string_table_view(
                all@,
            ));
            break;
        }
        let s = match find_from(low, &chars_of("<tr"), pos) {
            Some(s) => s,
            None => {
                assert(string_table_view(all@) + Seq::<Seq<Seq<char>>>::empty()
                    =~= string_table_view(all@));
                break;
            },
        };
        let e = match find_from(low, &chars_of("</tr>"), s) {
            Some(e) => e,
            None => {
                assert(string_table_view(all@) + Seq::<Seq<Seq<char>>>::empty()
                    =~= string_table_view(all@));
                break;
            },
        };
        proof {
            lemma_found_bounds(low@, "<tr"@, pos as int);
            lemma_found_bounds(low@, "</tr>"@, s as int);
        }
        let row = match cut_text(text, s, e + 5) {
            Some(x) => x,
            None => return None,
        };
        let row_low = byte_view(lower_text(row.as_str()).as_str());
        let cells = match row_cells(row.as_str(), &row_low) {
            Some(c) => c,
            None => return None,
        };
        let ghost cv = cells_from(tb.subrange(s as int, e + 5), row_low@, 0)->0;
        if cells.len() > 0 {
            all.push(cells);
            assert(string_table_view(all@) =~= string_table_view(before) + seq![cv]);
        }
        pos = s + 1;
    }
    Some(all)
}

/// What reading a page gives, `None` where the reading would panic (see
/// `html_outcome`).
fn read_html_table(content: &[u8]) -> (r: Option<Result<Vec<Vec<String>>, String>>)
    ensures
        match html_outcome(utf8_lossy(content@)) {
            None => r is None,
            Some(Ok(rows)) => r matches Some(Ok(out)) && string_table_view(out@) == rows,
            Some(Err(e)) => r matches Some(Err(m)) && m@ == e,
        },
{
    proof {
        reveal_strlit("</td>");
        reveal_strlit("</th>");
    }
    let text = utf8_lossy_string(content);
    let lowered = lower_text(text.as_str());
    let low = byte_view(lowered.as_str());
    if !contains(&low, &chars_of("</td>")) && !contains(&low, &chars_of("</th>")) {
        return Some(Err(string_of(&chars_of("HTML 테이블이 없습니다"))));
    }
    let all = match page_rows(text.as_str(), &low) {
        Some(v) => v,
        None => return None,
    };
    if all.len() == 0 {
        return Some(Err(string_of(&chars_of("HTML 테이블에서 데이터를 추출할 수 없습니다"))));
    }
    Some(Ok(all))
}

/// Whether a page can be read as an HTML table without a cut falling off a
/// character boundary, which `html_table_rows` needs.
pub fn html_table_readable(content: &[u8]) -> (b: bool)
    ensures
        b == html_outcome(utf8_lossy(content@)) is Some,
{
    read_html_table(content).is_some()
}

/// The rows of an HTML table saved as a spreadsheet. The page is read as
/// UTF-8 with replacement characters; tags are found at byte offsets of its
/// lowercase, and rows and cells cut from the page as written at those
/// offsets (see `html_outcome`).
pub fn html_table_rows(content: &[u8]) -> (r: Result<Vec<Vec<String>>, String>)
    requires
        html_outcome(utf8_lossy(content@)) is Some,
    ensures
        match html_outcome(utf8_lossy(content@)) {
            Some(Ok(rows)) => r matches Ok(out) && string_table_view(out@) == rows,
            Some(Err(e)) => r matches Err(m) && m@ == e,
            None => false,
        },
{
    match read_html_table(content) {
        Some(r) => r,
        None => Err(String::new()),
    }
}

/// The rows of an HTML table where the page can be read without a cut
/// falling off a character boundary (see `html_table_readable`); `None`
/// where it cannot, as reading it would panic.
pub fn html_table_rows_if_readable(content: &[u8]) -> (r: Option<Result<Vec<Vec<String>>, String>>)
    ensures
        match html_outcome(utf8_lossy(content@)) {
            None => r is None,
            Some(Ok(rows)) => r matches Some(Ok(out)) && string_table_view(out@) == rows,
            Some(Err(e)) => r matches Some(Err(m)) && m@ == e,
        },
{
    if html_table_readable(content) {
        Some(html_table_rows(content))
    } else {
        None
    }
}

// ───────────────────────── CSV files ─────────────────────────

/// How reading a CSV file failed: at its header record or at a later record,
/// with the reader's message.
#[derive(Debug, Clone, PartialEq, Eq)]
pub enum CsvFailure {
    Header(String),
    Record(String),
}

/// What the `csv` reader makes of `content` with the given delimiter and a
/// header record expected: the header's fields and each later record's
/// fields, or nothing where it refuses the file.
pub uninterp spec fn csv_read_spec(content: Seq<u8>, delimiter: u8) -> Option<(Seq<Seq<char>>, Seq<Seq<Seq<char>>>)>;

/// `csv::ReaderBuilder` with headers and the given delimiter, then
/// `Reader::headers` and `Reader::records`. The fields it reads are named
/// `csv_read_spec` (the CSV grammar with quoting is not restated); it fails
/// exactly where that name gives nothing. Which of the two failures comes,
/// and the reader's message, are left unsaid.
#[verifier::external_body]
pub(crate) fn csv_read(content: &[u8], delimiter: u8) -> (r: Result<(Vec<String>, Vec<Vec<String>>), CsvFailure>)
    ensures
        r is Ok <==> csv_read_spec(content@, delimiter) is Some,
        r matches Ok((h, rows)) ==> csv_read_spec(content@, delimiter) == Some(
            (strings_view(h@), table_view(rows@)),
        ),
{
    let mut reader = csv::ReaderBuilder::new().has_headers(true).delimiter(delimiter).from_reader(content);
    let headers: Vec<String> = match reader.headers() {
        Ok(h) => h.iter().map(|v| v.to_string()).collect(),
        Err(e) => return Err(CsvFailure::Header(e.to_string())),
    };
    let mut rows: Vec<Vec<String>> = Vec::new();
    for record in reader.records() {
        match record {
            Ok(rec) => rows.push(rec.iter().map(|v| v.to_string()).collect()),
            Err(e) => return Err(CsvFailure::Record(e.to_string())),
        }
    }
    Ok((headers, rows))
}

/// The text up to its first line feed, or all of it where there is none.
pub open spec fn first_line(s: Seq<char>) -> Seq<char> {
    match find_from_spec(s, seq!['\n'], 0) {
        Some(i) => s.take(i),
        None => s,
    }
}

/// How often `c` occurs in `s`.
pub open spec fn count_char(s: Seq<char>, c: char) -> nat
    decreases s.len(),
{
    if s.len() == 0 {
        0
    } else {
        count_char(s.drop_last(), c) + if s.last() == c {
            1nat
        } else {
            0nat
        }
    }
}

/// The delimiter of a CSV text, judged by its first line: a tab where the
/// line holds one, a semicolon where it holds more than three, else a comma.
pub open spec fn delimiter_spec(text: Seq<char>) -> u8 {
    let line = first_line(text);
    if line.contains('\t') {
        9u8
    } else if count_char(line, ';') > 3 {
        59u8
    } else {
        44u8
    }
}

/// The text up to its first line feed.
pub fn first_line_of(text: &Vec<char>) -> (line: Vec<char>)
    ensures
        line@ == first_line(text@),
{
    let mut newline: Vec<char> = Vec::new();
    newline.push('\n');
    assert(newline@ =~= seq!['\n']);
    let line = match find_from(text, &newline, 0) {
        Some(i) => sub_chars(text, 0, i),
        None => sub_chars(text, 0, text.len()),
    };
    assert(line@ =~= first_line(text@));
    line
}

/// The delimiter of a CSV text.
pub fn detect_delimiter(text: &Vec<char>) -> (d: u8)
    ensures
        d == delimiter_spec(text@),
{
    let line = first_line_of(text);
    if crate::text::contains_char(&line, '\t') {
        return 9;
    }
    let mut semis: usize = 0;
    let mut i: usize = 0;
    assert(line@.take(0) =~= Seq::<char>::empty());
    while i < line.len()
        invariant
            i <= line.len(),
            semis == count_char(line@.take(i as int), ';'),
            semis <= i,
        decreases line.len() - i,
    {
        assert(line@.take(i + 1).drop_last() =~= line@.take(i as int));
        if line[i] == ';' {
            semis += 1;
        }
        i += 1;
    }
    assert(line@.take(line.len() as int) =~= line@);
    if semis > 3 {
        59
    } else {
        44
    }
}

/// The header and the records of a CSV file. The file is read as UTF-8 with
/// replacement characters to choose the delimiter (see `delimiter_spec`),
/// and its bytes are then read with that delimiter.
pub fn csv_records(content: &[u8]) -> (r: Result<(Vec<String>, Vec<Vec<String>>), String>)
    ensures
        ({
            let d = delimiter_spec(utf8_lossy(content@));
            &&& r is Ok <==> csv_read_spec(content@, d) is Some
            &&& r matches Ok((h, rows)) ==> csv_read_spec(content@, d) == Some(
                (strings_view(h@), table_view(rows@)),
            )
        }),
{
    let text = utf8_lossy_string(content);
    let delimiter = detect_delimiter(&chars_of(text.as_str()));
    match csv_read(content, delimiter) {
        Ok(t) => Ok(t),
        Err(CsvFailure::Header(_)) => Err(string_of(&chars_of("CSV 헤더를 읽을 수 없습니다"))),
        Err(CsvFailure::Record(m)) => Err(m),
    }
}

} // verus!
