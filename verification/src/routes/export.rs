//! The CSV export of transactions.
use vstd::prelude::*;

use crate::import::dedupe::{id_text, uuid_string};
use crate::numbers::{i64_to_string, int_string};
use crate::text::{append_str, chars_of, contains_char, push_char, replace_seq, string_of};

verus! {

/// A character a spreadsheet may take as the start of a formula: `=`, `+`,
/// `-`, `@`, tab and carriage return.
pub open spec fn formula_start(c: char) -> bool {
    c == '=' || c == '+' || c == '-' || c == '@' || c == '\t' || c == '\r'
}

/// A character that makes a cell need quotes: comma, double quote, line
/// feed and tab.
pub open spec fn needs_quotes(s: Seq<char>) -> bool {
    s.contains(',') || s.contains('"') || s.contains('\n') || s.contains('\t')
}

/// A cell of the export: a tab before a value that starts like a formula,
/// then, where the value holds a comma, a quote, a line feed or a tab,
/// double quotes around it with its quotes doubled.
pub open spec fn csv_cell_spec(s: Seq<char>) -> Seq<char> {
    let guarded = if s.len() > 0 && formula_start(s[0]) {
        seq!['\t'] + s
    } else {
        s
    };
    if needs_quotes(guarded) {
        seq!['"'] + replace_seq(guarded, seq!['"'], seq!['"', '"']) + seq!['"']
    } else {
        guarded
    }
}

/// Writes a value as a cell of the export (see `csv_cell_spec`). No cell
/// starts with a character that begins a formula, and a cell without
/// quotes holds no comma, quote, line feed or tab.
pub fn csv_cell(s: &str) -> (r: String)
    ensures
        r@ == csv_cell_spec(s@),
        r@.len() > 0 ==> !(r@[0] == '=' || r@[0] == '+' || r@[0] == '-' || r@[0] == '@'),
        r@.len() > 0 && r@[0] != '"' ==> !needs_quotes(r@),
{
    let v = chars_of(s);
    let mut g: Vec<char> = Vec::new();
    if v.len() > 0 && (v[0] == '=' || v[0] == '+' || v[0] == '-' || v[0] == '@' || v[0] == '\t' || v[0] == '\r') {
        g.push('\t');
    }
    crate::text::append_chars(&mut g, &v);
    assert(g@ =~= (if s@.len() > 0 && formula_start(s@[0]) {
        seq!['\t'] + s@
    } else {
        s@
    }));
    if contains_char(&g, ',') || contains_char(&g, '"') || contains_char(&g, '\n') || contains_char(&g, '\t') {
        let mut quote: Vec<char> = Vec::new();
        quote.push('"');
        let mut twice: Vec<char> = Vec::new();
        twice.push('"');
        twice.push('"');
        assert(quote@ =~= seq!['"']);
        assert(twice@ =~= seq!['"', '"']);
        let inner = crate::text::replace_all(&g, &quote, &twice);
        let mut out: Vec<char> = Vec::new();
        out.push('"');
        crate::text::append_chars(&mut out, &inner);
        out.push('"');
        assert(out@ =~= seq!['"'] + inner@ + seq!['"']);
        string_of(&out)
    } else {
        proof {
            if g@.len() > 0 && (g@[0] == '=' || g@[0] == '+' || g@[0] == '-' || g@[0] == '@') {
                assert(!(s@.len() > 0 && formula_start(s@[0])));
                assert(g@ == s@);
                assert(false);
            }
        }
        string_of(&g)
    }
}

/// One transaction as the export writes it; the time is already written.
#[derive(Debug, Clone)]
pub struct ExportRow {
    pub transaction_at: String,
    pub transaction_type: String,
    pub amount: i64,
    pub merchant_name: Option<String>,
    pub description: Option<String>,
    pub category_id: Option<u128>,
    pub account_id: Option<u128>,
    pub card_id: Option<u128>,
    pub card_name: Option<String>,
    pub memo: Option<String>,
    pub source_type: String,
}

pub open spec fn opt_text(o: Option<String>) -> Seq<char> {
    match o {
        Some(s) => s@,
        None => Seq::<char>::empty(),
    }
}

/// The line of a transaction: its time, then the cells of its type, amount,
/// merchant, description, category, account, card, card name, memo and
/// source, separated by commas and ended by a line feed. Identifiers and the
/// amount are written as they are; the other text goes through
/// `csv_cell_spec`.
pub open spec fn export_line_spec(r: ExportRow) -> Seq<char> {
    r.transaction_at@ + ","@ + csv_cell_spec(r.transaction_type@) + ","@ + int_string(r.amount as int)
        + ","@ + csv_cell_spec(opt_text(r.merchant_name)) + ","@ + csv_cell_spec(
        opt_text(r.description),
    ) + ","@ + id_text(r.category_id) + ","@ + id_text(r.account_id) + ","@ + id_text(r.card_id)
        + ","@ + csv_cell_spec(opt_text(r.card_name)) + ","@ + csv_cell_spec(opt_text(r.memo))
        + ","@ + csv_cell_spec(r.source_type@) + "\n"@
}

/// The first line of the export: a byte-order mark, then the column names.
pub open spec fn export_header() -> Seq<char> {
    seq!['\u{FEFF}'] + "거래일시,유형,금액,가맹점,내용,카테고리ID,계좌ID,카드ID,카드명,메모,출처\n"@
}

/// The lines of the first `k` rows.
pub open spec fn export_lines(rows: Seq<ExportRow>, k: int) -> Seq<char>
    decreases k,
{
    if k <= 0 {
        Seq::<char>::empty()
    } else {
        export_lines(rows, k - 1) + export_line_spec(rows[k - 1])
    }
}

fn opt_str_of(o: &Option<String>) -> (r: &str)
    ensures
        r@ == opt_text(*o),
{
    match o {
        Some(s) => s.as_str(),
        None => {
            proof {
                reveal_strlit("");
            }
            ""
        },
    }
}

fn id_field(id: Option<u128>) -> (r: String)
    ensures
        r@ == id_text(id),
{
    match id {
        Some(v) => uuid_string(v),
        None => String::new(),
    }
}

fn export_line(r: &ExportRow) -> (line: String)
    ensures
        line@ == export_line_spec(*r),
{
    let mut line = r.transaction_at.clone();
    append_str(&mut line, ",");
    append_str(&mut line, csv_cell(r.transaction_type.as_str()).as_str());
    append_str(&mut line, ",");
    append_str(&mut line, i64_to_string(r.amount).as_str());
    append_str(&mut line, ",");
    append_str(&mut line, csv_cell(opt_str_of(&r.merchant_name)).as_str());
    append_str(&mut line, ",");
    append_str(&mut line, csv_cell(opt_str_of(&r.description)).as_str());
    append_str(&mut line, ",");
    append_str(&mut line, id_field(r.category_id).as_str());
    append_str(&mut line, ",");
    append_str(&mut line, id_field(r.account_id).as_str());
    append_str(&mut line, ",");
    append_str(&mut line, id_field(r.card_id).as_str());
    append_str(&mut line, ",");
    append_str(&mut line, csv_cell(opt_str_of(&r.card_name)).as_str());
    append_str(&mut line, ",");
    append_str(&mut line, csv_cell(opt_str_of(&r.memo)).as_str());
    append_str(&mut line, ",");
    append_str(&mut line, csv_cell(r.source_type.as_str()).as_str());
    append_str(&mut line, "\n");
    line
}

/// The text of the export: the header line, then one line per transaction
/// in the order given.
pub fn export_csv(rows: &Vec<ExportRow>) -> (out: String)
    ensures
        out@ == export_header() + export_lines(rows@, rows@.len() as int),
{
    let mut out = String::new();
    push_char(&mut out, '\u{FEFF}');
    append_str(&mut out, "거래일시,유형,금액,가맹점,내용,카테고리ID,계좌ID,카드ID,카드명,메모,출처\n");
    assert(out@ =~= export_header() + export_lines(rows@, 0));
    let mut i: usize = 0;
    while i < rows.len()
        invariant
            i <= rows@.len(),
            out@ == export_header() + export_lines(rows@, i as int),
        decreases rows@.len() - i,
    {
        let line = export_line(&rows[i]);
        append_str(&mut out, line.as_str());
        i += 1;
        assert(out@ =~= export_header() + export_lines(rows@, i as int));
    }
    out
}

} // verus!
