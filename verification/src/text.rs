//! Character-level text operations on which the parsers and rules are built.
//!
//! Text is modelled by its sequence of Unicode scalar values (`Seq<char>`),
//! which is the view that vstd gives `str` and `String`.  Positions are
//! character positions.
use vstd::prelude::*;

verus! {

broadcast use vstd::string::group_string_axioms;

// ───────────────────────── whitespace ─────────────────────────

/// The Unicode `White_Space` property, which `char::is_whitespace` and
/// `str::trim` use.
pub open spec fn is_ws(c: char) -> bool {
    ||| ('\u{9}' <= c && c <= '\u{d}')
    ||| c == ' '
    ||| c == '\u{85}'
    ||| c == '\u{a0}'
    ||| c == '\u{1680}'
    ||| ('\u{2000}' <= c && c <= '\u{200a}')
    ||| c == '\u{2028}'
    ||| c == '\u{2029}'
    ||| c == '\u{202f}'
    ||| c == '\u{205f}'
    ||| c == '\u{3000}'
}

pub open spec fn not_ws() -> spec_fn(char) -> bool {
    |c: char| !is_ws(c)
}

pub fn is_whitespace(c: char) -> (b: bool)
    ensures
        b == is_ws(c),
{
    ('\u{9}' <= c && c <= '\u{d}') || c == ' ' || c == '\u{85}' || c == '\u{a0}' || c
        == '\u{1680}' || ('\u{2000}' <= c && c <= '\u{200a}') || c == '\u{2028}' || c
        == '\u{2029}' || c == '\u{202f}' || c == '\u{205f}' || c == '\u{3000}'
}

pub open spec fn is_digit(c: char) -> bool {
    '0' <= c && c <= '9'
}

pub fn is_ascii_digit(c: char) -> (b: bool)
    ensures
        b == is_digit(c),
{
    '0' <= c && c <= '9'
}

pub open spec fn trim_start_seq(s: Seq<char>) -> Seq<char>
    decreases s.len(),
{
    if s.len() > 0 && is_ws(s[0]) {
        trim_start_seq(s.drop_first())
    } else {
        s
    }
}

pub open spec fn trim_end_seq(s: Seq<char>) -> Seq<char>
    decreases s.len(),
{
    if s.len() > 0 && is_ws(s.last()) {
        trim_end_seq(s.drop_last())
    } else {
        s
    }
}

/// What `str::trim` leaves of `s`.
pub open spec fn trim_seq(s: Seq<char>) -> Seq<char> {
    trim_end_seq(trim_start_seq(s))
}

// ───────────────────────── conversions ─────────────────────────

/// The characters of `s`, in order.
pub fn chars_of(s: &str) -> (v: Vec<char>)
    ensures
        v@ == s@,
{
    let mut v: Vec<char> = Vec::new();
    for c in it: s.chars()
        invariant
            v@ == it.seq().take(it.index() as int),
            it.seq() == s@,
    {
        v.push(c);
    }
    v
}

/// `String::push`: appends one character.
#[verifier::external_body]
pub(crate) fn push_char(s: &mut String, c: char)
    ensures
        final(s)@ == old(s)@.push(c),
{
    s.push(c);
}

/// The string made of the characters of `v`.
pub fn string_of(v: &Vec<char>) -> (s: String)
    ensures
        s@ == v@,
{
    let mut s = String::new();
    let mut i: usize = 0;
    while i < v.len()
        invariant
            i <= v.len(),
            s@ == v@.take(i as int),
        decreases v.len() - i,
    {
        push_char(&mut s, v[i]);
        i += 1;
        assert(s@ =~= v@.take(i as int));
    }
    assert(v@.take(v.len() as int) =~= v@);
    s
}

/// The string made of the characters `v[lo..hi]`.
pub fn string_of_range(v: &Vec<char>, lo: usize, hi: usize) -> (s: String)
    requires
        lo <= hi <= v.len(),
    ensures
        s@ == v@.subrange(lo as int, hi as int),
{
    let mut s = String::new();
    let mut i: usize = lo;
    while i < hi
        invariant
            lo <= i <= hi <= v.len(),
            s@ == v@.subrange(lo as int, i as int),
        decreases hi - i,
    {
        push_char(&mut s, v[i]);
        i += 1;
        assert(s@ =~= v@.subrange(lo as int, i as int));
    }
    s
}

/// The characters `v[lo..hi]`.
pub fn sub_chars(v: &Vec<char>, lo: usize, hi: usize) -> (r: Vec<char>)
    requires
        lo <= hi <= v.len(),
    ensures
        r@ == v@.subrange(lo as int, hi as int),
{
    let mut r: Vec<char> = Vec::new();
    let mut i: usize = lo;
    while i < hi
        invariant
            lo <= i <= hi <= v.len(),
            r@ == v@.subrange(lo as int, i as int),
        decreases hi - i,
    {
        r.push(v[i]);
        i += 1;
        assert(r@ =~= v@.subrange(lo as int, i as int));
    }
    r
}

/// Appends the characters of `s` to `out`.
pub fn append_str(out: &mut String, s: &str)
    ensures
        final(out)@ == old(out)@ + s@,
{
    out.append(s);
}

/// Appends the characters of `v` to `out`.
pub fn append_chars(out: &mut Vec<char>, v: &Vec<char>)
    ensures
        final(out)@ == old(out)@ + v@,
{
    let ghost start = out@;
    let mut i: usize = 0;
    while i < v.len()
        invariant
            i <= v.len(),
            out@ == start + v@.take(i as int),
        decreases v.len() - i,
    {
        out.push(v[i]);
        i += 1;
        assert(out@ =~= start + v@.take(i as int));
    }
    assert(v@.take(v.len() as int) =~= v@);
}

/// `s1 == s2` on strings.
pub fn str_eq(s1: &str, s2: &str) -> (b: bool)
    ensures
        b == (s1@ == s2@),
{
    let a = chars_of(s1);
    let b = chars_of(s2);
    chars_eq(&a, &b)
}

pub fn chars_eq(a: &Vec<char>, b: &Vec<char>) -> (r: bool)
    ensures
        r == (a@ == b@),
{
    if a.len() != b.len() {
        return false;
    }
    let mut i: usize = 0;
    while i < a.len()
        invariant
            a.len() == b.len(),
            i <= a.len(),
            forall|j: int| 0 <= j < i ==> a@[j] == b@[j],
        decreases a.len() - i,
    {
        if a[i] != b[i] {
            return false;
        }
        i += 1;
    }
    assert(a@ =~= b@);
    true
}

// ───────────────────────── lowercase ─────────────────────────

/// The result of `str::to_lowercase` on a string with characters `s`.
pub uninterp spec fn str_lowercase(s: Seq<char>) -> Seq<char>;

/// An ASCII capital letter in small form; any other character as it is.
pub open spec fn ascii_lower(c: char) -> char {
    if 'A' <= c && c <= 'Z' {
        ((c as u32) + 32) as char
    } else {
        c
    }
}

/// The lowercase of one character: for ASCII the small letter of a capital
/// and any other character as it is; beyond ASCII what `str::to_lowercase`
/// gives for the character alone, one or more characters.
pub open spec fn char_lower(c: char) -> Seq<char> {
    if (c as u32) < 128 {
        seq![ascii_lower(c)]
    } else {
        str_lowercase(seq![c])
    }
}

/// Each character lowered on its own, the results in order.
pub open spec fn lower_each(s: Seq<char>) -> Seq<char>
    decreases s.len(),
{
    if s.len() == 0 {
        Seq::empty()
    } else {
        lower_each(s.drop_last()) + char_lower(s.last())
    }
}

/// What `str::to_lowercase` makes of `s`: each character's own lowercase,
/// in order, where no capital sigma stands (whose small form depends on
/// whether it ends a word).
#[verifier::opaque]
pub open spec fn lowercase(s: Seq<char>) -> Seq<char> {
    if s.contains('Σ') {
        str_lowercase(s)
    } else {
        lower_each(s)
    }
}

/// `str::to_lowercase`, named `str_lowercase`. Beside the name it states
/// what std's documentation gives: the result is each character's own
/// lowercase mapping in order, with only capital sigma depending on its
/// neighbours, and an ASCII character lowers to the ASCII small letter, or
/// stays as it is where it is no capital letter. Which characters beyond
/// ASCII have a lowercase mapping, and what it is, stays named.
#[verifier::external_body]
pub(crate) fn to_lowercase(s: &str) -> (r: String)
    ensures
        r@ == str_lowercase(s@),
        !s@.contains('Σ') ==> r@ == lower_each(s@),
{
    s.to_lowercase()
}

/// `to_lowercase` with its result as `lowercase` gives it.
pub(crate) fn lower_text(s: &str) -> (r: String)
    ensures
        r@ == lowercase(s@),
{
    let r = to_lowercase(s);
    proof {
        reveal(lowercase);
    }
    r
}

/// `to_lowercase` on a character sequence.
pub fn lowercase_chars(v: &Vec<char>) -> (r: Vec<char>)
    ensures
        r@ == lowercase(v@),
{
    let s = string_of(v);
    let l = lower_text(s.as_str());
    chars_of(l.as_str())
}

/// A character whose lowercase is settled: it lowers to one or more
/// characters that lower to themselves, none a capital sigma, and none
/// whitespace or a byte-order mark unless it is the character itself.
pub open spec fn case_settled(c: char) -> bool {
    let l = char_lower(c);
    &&& l.len() > 0
    &&& lower_each(l) == l
    &&& !l.contains('Σ')
    &&& forall|i: int| 0 <= i < l.len() && (is_ws(l[i]) || l[i] == '\u{feff}') ==> l[i] == c
}

/// Every ASCII character's lowercase is settled.
pub proof fn lemma_ascii_case_settled(c: char)
    requires
        (c as u32) < 128,
    ensures
        case_settled(c),
{
    let d = ascii_lower(c);
    assert((d as u32) < 128 && !('A' <= d && d <= 'Z')) by {
        if 'A' <= c && c <= 'Z' {
            assert(((c as u32) + 32) < 128);
            assert((((c as u32) + 32) as char) as u32 == (c as u32) + 32);
        }
    }
    assert(ascii_lower(d) == d);
    let l = seq![d];
    assert(l.drop_last() =~= Seq::<char>::empty());
    assert(lower_each(l) =~= lower_each(Seq::<char>::empty()) + char_lower(d));
    assert(lower_each(l) =~= l);
    assert(!l.contains('Σ')) by {
        if l.contains('Σ') {
            assert(l[0] == 'Σ');
        }
    }
    assert forall|i: int| 0 <= i < l.len() && (is_ws(l[i]) || l[i] == '\u{feff}') implies l[i] == c by {
        assert(i == 0);
        if 'A' <= c && c <= 'Z' {
            assert((((c as u32) + 32) as char) as u32 == (c as u32) + 32);
        }
    }
}

/// Lowering each character of a concatenation lowers each part.
pub proof fn lemma_lower_each_add(a: Seq<char>, b: Seq<char>)
    ensures
        lower_each(a + b) == lower_each(a) + lower_each(b),
    decreases b.len(),
{
    if b.len() == 0 {
        assert(a + b =~= a);
        assert(lower_each(a) + lower_each(b) =~= lower_each(a));
    } else {
        lemma_lower_each_add(a, b.drop_last());
        assert((a + b).drop_last() =~= a + b.drop_last());
        assert((a + b).last() == b.last());
        assert(lower_each(a) + lower_each(b) =~= lower_each(a) + lower_each(b.drop_last()) + char_lower(b.last()));
    }
}

/// Each character of `lower_each(s)` comes from the lowercase of a
/// character of `s`.
pub proof fn lemma_lower_each_origin(s: Seq<char>, j: int)
    requires
        0 <= j < lower_each(s).len(),
    ensures
        exists|i: int, k: int| 0 <= i < s.len() && 0 <= k < char_lower(s[i]).len() && #[trigger] char_lower(s[i])[k] == lower_each(s)[j],
    decreases s.len(),
{
    let p = lower_each(s.drop_last());
    if j < p.len() {
        lemma_lower_each_origin(s.drop_last(), j);
        let (i, k) = choose|i: int, k: int| 0 <= i < s.drop_last().len() && 0 <= k < char_lower(s.drop_last()[i]).len() && #[trigger] char_lower(s.drop_last()[i])[k] == p[j];
        assert(s.drop_last()[i] == s[i]);
        assert(char_lower(s[i])[k] == lower_each(s)[j]);
    } else {
        let i = s.len() - 1;
        let k = j - p.len();
        assert(char_lower(s[i])[k] == lower_each(s)[j]);
    }
}

/// Where every character's lowercase is settled, lowering again changes
/// nothing.
pub proof fn lemma_lower_each_settled(s: Seq<char>)
    requires
        forall|i: int| 0 <= i < s.len() ==> case_settled(#[trigger] s[i]),
    ensures
        lower_each(lower_each(s)) == lower_each(s),
    decreases s.len(),
{
    if s.len() > 0 {
        let t = s.drop_last();
        assert forall|i: int| 0 <= i < t.len() implies case_settled(#[trigger] t[i]) by {
            assert(t[i] == s[i]);
        }
        lemma_lower_each_settled(t);
        assert(case_settled(s[s.len() - 1]));
        lemma_lower_each_add(lower_each(t), char_lower(s.last()));
    }
}

/// The lowercase of text whose characters' lowercase is settled and which
/// holds no capital sigma: it holds no capital sigma, lowers to itself, and
/// holds whitespace or a byte-order mark only where the text held that very
/// character.
pub proof fn lemma_lowercase_settled(s: Seq<char>)
    requires
        !s.contains('Σ'),
        forall|i: int| 0 <= i < s.len() ==> case_settled(#[trigger] s[i]),
    ensures
        lowercase(s) == lower_each(s),
        !lowercase(s).contains('Σ'),
        lowercase(lowercase(s)) == lowercase(s),
        forall|j: int| 0 <= j < lowercase(s).len() && (is_ws(lowercase(s)[j]) || lowercase(s)[j] == '\u{feff}')
            ==> #[trigger] s.contains(lowercase(s)[j]),
{
    reveal(lowercase);
    let r = lower_each(s);
    assert forall|j: int| 0 <= j < r.len() implies r[j] != 'Σ' && ((is_ws(r[j]) || r[j] == '\u{feff}') ==> s.contains(r[j])) by {
        lemma_lower_each_origin(s, j);
        let (i, k) = choose|i: int, k: int| 0 <= i < s.len() && 0 <= k < char_lower(s[i]).len() && #[trigger] char_lower(s[i])[k] == r[j];
        assert(case_settled(s[i]));
        let l = char_lower(s[i]);
        if r[j] == 'Σ' {
            assert(l.contains('Σ'));
        }
        if is_ws(r[j]) || r[j] == '\u{feff}' {
            assert(l[k] == s[i]);
            assert(s.contains(r[j]));
        }
    }
    assert(!r.contains('Σ'));
    lemma_lower_each_settled(s);
}

/// Text stripped of whitespace and lowered, where it held no capital sigma
/// and each character's lowercase is settled: the result holds no
/// whitespace, is its own lowercase, and stripping and lowering it again
/// gives it back.
pub proof fn lemma_ws_free_lowercase_settled(value: Seq<char>)
    requires
        !value.contains('Σ'),
        forall|i: int| 0 <= i < value.len() ==> case_settled(#[trigger] value[i]),
    ensures
        forall|j: int| 0 <= j < lowercase(value.filter(not_ws())).len()
            ==> !is_ws(#[trigger] lowercase(value.filter(not_ws()))[j]),
        lowercase(lowercase(value.filter(not_ws()))) == lowercase(value.filter(not_ws())),
        lowercase(lowercase(value.filter(not_ws())).filter(not_ws())) == lowercase(value.filter(not_ws())),
{
    let f = value.filter(not_ws());
    assert forall|i: int| 0 <= i < f.len() implies case_settled(#[trigger] f[i]) && !is_ws(f[i]) && f[i] != 'Σ' by {
        value.lemma_filter_contains_rev(not_ws(), f[i]);
        value.lemma_filter_pred(not_ws(), i);
        assert(f.contains(f[i]));
        let k = choose|k: int| 0 <= k < value.len() && value[k] == f[i];
        assert(case_settled(value[k]));
    }
    assert(!f.contains('Σ'));
    lemma_lowercase_settled(f);
    let r = lowercase(f);
    assert forall|j: int| 0 <= j < r.len() implies !is_ws(#[trigger] r[j]) by {
        if is_ws(r[j]) {
            assert(f.contains(r[j]));
            let k = choose|k: int| 0 <= k < f.len() && f[k] == r[j];
            assert(!is_ws(f[k]));
        }
    }
    assert forall|j: int| 0 <= j < r.len() implies #[trigger] not_ws()(r[j]) by {}
    lemma_filter_keeps_all(r, not_ws());
}

/// What `trim_start_seq` leaves is a suffix of the text, starting with a
/// character that is no whitespace.
pub proof fn lemma_trim_start_shape(s: Seq<char>)
    ensures
        trim_start_seq(s).len() <= s.len(),
        trim_start_seq(s) == s.subrange(s.len() - trim_start_seq(s).len(), s.len() as int),
        trim_start_seq(s).len() > 0 ==> !is_ws(trim_start_seq(s)[0]),
    decreases s.len(),
{
    if s.len() > 0 && is_ws(s[0]) {
        lemma_trim_start_shape(s.drop_first());
        let r = trim_start_seq(s.drop_first());
        assert(s.drop_first().subrange(s.drop_first().len() - r.len(), s.drop_first().len() as int)
            =~= s.subrange(s.len() - r.len(), s.len() as int));
    } else {
        assert(s.subrange(0, s.len() as int) =~= s);
    }
}

/// What `trim_end_seq` leaves is a prefix of the text, ending with a
/// character that is no whitespace.
pub proof fn lemma_trim_end_shape(s: Seq<char>)
    ensures
        trim_end_seq(s).len() <= s.len(),
        trim_end_seq(s) == s.subrange(0, trim_end_seq(s).len() as int),
        trim_end_seq(s).len() > 0 ==> !is_ws(trim_end_seq(s).last()),
    decreases s.len(),
{
    if s.len() > 0 && is_ws(s.last()) {
        lemma_trim_end_shape(s.drop_last());
        let r = trim_end_seq(s.drop_last());
        assert(s.drop_last().subrange(0, r.len() as int) =~= s.subrange(0, r.len() as int));
    } else {
        assert(s.subrange(0, s.len() as int) =~= s);
    }
}

/// What `trim_seq` leaves: characters of the text, in a run that starts
/// and ends with no whitespace; and text that starts and ends with no
/// whitespace is left whole.
pub proof fn lemma_trim_shape(s: Seq<char>)
    ensures
        forall|i: int| 0 <= i < trim_seq(s).len() ==> #[trigger] s.contains(trim_seq(s)[i]),
        trim_seq(s).len() > 0 ==> !is_ws(trim_seq(s)[0]) && !is_ws(trim_seq(s).last()),
        (s.len() == 0 || (!is_ws(s[0]) && !is_ws(s.last()))) ==> trim_seq(s) == s,
{
    lemma_trim_start_shape(s);
    let a = trim_start_seq(s);
    lemma_trim_end_shape(a);
    let r = trim_end_seq(a);
    let off = s.len() - a.len();
    assert forall|i: int| 0 <= i < r.len() implies #[trigger] s.contains(r[i]) by {
        assert(r[i] == a[i]);
        assert(a[i] == s[off + i]);
    }
    if r.len() > 0 {
        assert(r[0] == a[0]);
    }
    if s.len() > 0 && !is_ws(s[0]) && !is_ws(s.last()) {
        assert(a == s);
        assert(r == a);
    }
}

/// Filtering keeps a first character that passes at the front, and a last
/// character that passes at the back.
pub proof fn lemma_filter_ends(s: Seq<char>, p: spec_fn(char) -> bool)
    requires
        s.len() > 0,
        p(s[0]),
        p(s.last()),
    ensures
        s.filter(p).len() > 0,
        s.filter(p)[0] == s[0],
        s.filter(p).last() == s.last(),
{
    reveal_with_fuel(Seq::filter, 1);
    s.drop_first().lemma_filter_prepend(s[0], p);
    assert(seq![s[0]] + s.drop_first() =~= s);
    assert(s.filter(p) == seq![s[0]] + s.drop_first().filter(p));
}

/// Lowering each character of text whose lowercase is settled keeps its
/// first and last characters' lowercase at its ends.
pub proof fn lemma_lower_each_ends(s: Seq<char>)
    requires
        s.len() > 0,
        case_settled(s[0]),
        case_settled(s.last()),
    ensures
        lower_each(s).len() > 0,
        char_lower(s[0]).contains(lower_each(s)[0]),
        char_lower(s.last()).contains(lower_each(s).last()),
{
    lemma_lower_each_add(seq![s[0]], s.drop_first());
    assert(seq![s[0]] + s.drop_first() =~= s);
    let one = seq![s[0]];
    assert(one.drop_last() =~= Seq::<char>::empty());
    assert(one.last() == s[0]);
    assert(lower_each(one) == lower_each(one.drop_last()) + char_lower(one.last()));
    assert(lower_each(one) =~= char_lower(s[0]));
    assert(lower_each(s)[0] == char_lower(s[0])[0]);
    let l = lower_each(s);
    assert(l.last() == char_lower(s.last()).last());
    assert(char_lower(s.last())[char_lower(s.last()).len() - 1] == l.last());
}

// ───────────────────────── trimming ─────────────────────────

proof fn lemma_trim_start_step(s: Seq<char>, lo: int)
    requires
        0 <= lo < s.len(),
        is_ws(s[lo]),
    ensures
        trim_start_seq(s.subrange(lo, s.len() as int)) == trim_start_seq(
            s.subrange(lo + 1, s.len() as int),
        ),
{
    let sub = s.subrange(lo, s.len() as int);
    assert(sub.drop_first() =~= s.subrange(lo + 1, s.len() as int));
}

proof fn lemma_trim_end_step(s: Seq<char>, hi: int)
    requires
        0 < hi <= s.len(),
        is_ws(s[hi - 1]),
    ensures
        trim_end_seq(s.subrange(0, hi)) == trim_end_seq(s.subrange(0, hi - 1)),
{
    let sub = s.subrange(0, hi);
    assert(sub.drop_last() =~= s.subrange(0, hi - 1));
}

/// The bounds `(lo, hi)` of what `str::trim` keeps of `v`.
pub fn trim_bounds(v: &Vec<char>) -> (r: (usize, usize))
    ensures
        r.0 <= r.1 <= v.len(),
        v@.subrange(r.0 as int, r.1 as int) == trim_seq(v@),
{
    let n = v.len();
    let mut lo: usize = 0;
    assert(v@.subrange(0, n as int) =~= v@);
    while lo < n && is_whitespace(v[lo])
        invariant
            lo <= n == v.len(),
            trim_start_seq(v@) == trim_start_seq(v@.subrange(lo as int, n as int)),
        decreases n - lo,
    {
        proof {
            lemma_trim_start_step(v@, lo as int);
        }
        lo += 1;
    }
    let ghost start = v@.subrange(lo as int, n as int);
    assert(trim_start_seq(v@) == start);
    let mut hi: usize = n;
    assert(start.subrange(0, (n - lo) as int) =~= start);
    while hi > lo && is_whitespace(v[hi - 1])
        invariant
            lo <= hi <= n == v.len(),
            start == v@.subrange(lo as int, n as int),
            trim_end_seq(start) == trim_end_seq(start.subrange(0, (hi - lo) as int)),
        decreases hi - lo,
    {
        proof {
            assert(start[(hi - lo) - 1] == v@[hi - 1]);
            lemma_trim_end_step(start, (hi - lo) as int);
        }
        hi -= 1;
    }
    assert(start.subrange(0, (hi - lo) as int) =~= v@.subrange(lo as int, hi as int));
    (lo, hi)
}

/// `str::trim` on a character sequence.
pub fn trim_chars(v: &Vec<char>) -> (r: Vec<char>)
    ensures
        r@ == trim_seq(v@),
{
    let (lo, hi) = trim_bounds(v);
    sub_chars(v, lo, hi)
}

/// `str::trim`, giving an owned string.
pub fn trim(s: &str) -> (r: String)
    ensures
        r@ == trim_seq(s@),
{
    let v = chars_of(s);
    let (lo, hi) = trim_bounds(&v);
    string_of_range(&v, lo, hi)
}

// ───────────────────────── searching ─────────────────────────

/// `p` occurs in `s` at position `i`.
pub open spec fn occurs_at(s: Seq<char>, p: Seq<char>, i: int) -> bool {
    0 <= i && i + p.len() <= s.len() && s.subrange(i, i + p.len()) == p
}

/// `str::contains` with a string pattern.
pub open spec fn contains_seq(s: Seq<char>, p: Seq<char>) -> bool {
    exists|i: int| occurs_at(s, p, i)
}

/// `i` is the first position at or after `from` where `p` occurs.
pub open spec fn first_occurrence_from(s: Seq<char>, p: Seq<char>, from: int, i: int) -> bool {
    &&& from <= i
    &&& occurs_at(s, p, i)
    &&& forall|j: int| from <= j < i ==> !#[trigger] occurs_at(s, p, j)
}

/// The first position at or after `from` where `p` occurs, if any: what
/// `s[from..].find(p)` locates.
pub open spec fn find_from_spec(s: Seq<char>, p: Seq<char>, from: int) -> Option<int> {
    if exists|i: int| first_occurrence_from(s, p, from, i) {
        Some(choose|i: int| first_occurrence_from(s, p, from, i))
    } else {
        None
    }
}

pub proof fn lemma_first_occurrence_unique(s: Seq<char>, p: Seq<char>, from: int, i: int, k: int)
    requires
        first_occurrence_from(s, p, from, i),
        first_occurrence_from(s, p, from, k),
    ensures
        i == k,
{
    if i < k {
        assert(!occurs_at(s, p, i));
    } else if k < i {
        assert(!occurs_at(s, p, k));
    }
}

/// `p` occurs in `s` at position `i`.
pub fn occurs_at_exec(s: &Vec<char>, p: &Vec<char>, i: usize) -> (b: bool)
    ensures
        b == occurs_at(s@, p@, i as int),
{
    if i > s.len() || p.len() > s.len() - i {
        return false;
    }
    let mut k: usize = 0;
    while k < p.len()
        invariant
            i + p.len() <= s.len(),
            k <= p.len(),
            forall|j: int| 0 <= j < k ==> s@[i + j] == p@[j],
        decreases p.len() - k,
    {
        if s[i + k] != p[k] {
            assert(s@.subrange(i as int, i + p.len())[k as int] != p@[k as int]);
            return false;
        }
        k += 1;
    }
    assert(s@.subrange(i as int, i + p.len()) =~= p@);
    true
}

/// The first position at or after `from` where `p` occurs in `s`.
pub fn find_from(s: &Vec<char>, p: &Vec<char>, from: usize) -> (r: Option<usize>)
    ensures
        r is None <==> find_from_spec(s@, p@, from as int) is None,
        r matches Some(i) ==> find_from_spec(s@, p@, from as int) == Some(i as int),
        r matches Some(i) ==> first_occurrence_from(s@, p@, from as int, i as int),
        r is None ==> forall|j: int| from <= j ==> !#[trigger] occurs_at(s@, p@, j),
{
    let n = s.len();
    if from > n {
        assert(!exists|k: int| first_occurrence_from(s@, p@, from as int, k));
        return None;
    }
    let mut i: usize = from;
    while i < n
        invariant
            from <= i <= n == s.len(),
            forall|j: int| from <= j < i ==> !#[trigger] occurs_at(s@, p@, j),
        decreases n - i,
    {
        if occurs_at_exec(s, p, i) {
            proof {
                assert(first_occurrence_from(s@, p@, from as int, i as int));
                let k = choose|k: int| first_occurrence_from(s@, p@, from as int, k);
                lemma_first_occurrence_unique(s@, p@, from as int, i as int, k);
            }
            return Some(i);
        }
        i += 1;
    }
    if occurs_at_exec(s, p, n) {
        proof {
            assert(first_occurrence_from(s@, p@, from as int, n as int));
            let k = choose|k: int| first_occurrence_from(s@, p@, from as int, k);
            lemma_first_occurrence_unique(s@, p@, from as int, n as int, k);
        }
        return Some(n);
    }
    assert forall|j: int| from <= j implies !#[trigger] occurs_at(s@, p@, j) by {
        if j > n {
            assert(!(j + p@.len() <= s@.len()));
        }
    }
    assert(!exists|k: int| first_occurrence_from(s@, p@, from as int, k));
    None
}

/// `str::contains` on character sequences.
pub fn contains(s: &Vec<char>, p: &Vec<char>) -> (b: bool)
    ensures
        b == contains_seq(s@, p@),
{
    match find_from(s, p, 0) {
        Some(_) => true,
        None => false,
    }
}

/// `s` contains the character `c`.
pub fn contains_char(s: &Vec<char>, c: char) -> (b: bool)
    ensures
        b == s@.contains(c),
{
    let mut i: usize = 0;
    while i < s.len()
        invariant
            i <= s.len(),
            forall|j: int| 0 <= j < i ==> s@[j] != c,
        decreases s.len() - i,
    {
        if s[i] == c {
            return true;
        }
        i += 1;
    }
    false
}

/// `str::starts_with` with a string pattern.
pub open spec fn starts_with_seq(s: Seq<char>, p: Seq<char>) -> bool {
    occurs_at(s, p, 0)
}

/// `str::ends_with` with a string pattern.
pub open spec fn ends_with_seq(s: Seq<char>, p: Seq<char>) -> bool {
    p.len() <= s.len() && occurs_at(s, p, s.len() - p.len())
}

pub fn starts_with(s: &Vec<char>, p: &Vec<char>) -> (b: bool)
    ensures
        b == starts_with_seq(s@, p@),
{
    occurs_at_exec(s, p, 0)
}

pub fn ends_with(s: &Vec<char>, p: &Vec<char>) -> (b: bool)
    ensures
        b == ends_with_seq(s@, p@),
{
    if p.len() > s.len() {
        false
    } else {
        occurs_at_exec(s, p, s.len() - p.len())
    }
}

// ───────────────────────── filtering and replacing ─────────────────────────

/// `s` with every occurrence of `c` removed: what `replace(c, "")` gives.
pub open spec fn without_char(c: char) -> spec_fn(char) -> bool {
    |x: char| x != c
}

/// Filtering text whose characters all pass keeps it whole.
pub proof fn lemma_filter_keeps_all(s: Seq<char>, p: spec_fn(char) -> bool)
    requires
        forall|i: int| 0 <= i < s.len() ==> #[trigger] p(s[i]),
    ensures
        s.filter(p) == s,
    decreases s.len(),
{
    reveal_with_fuel(Seq::filter, 1);
    if s.len() > 0 {
        let t = s.drop_last();
        assert forall|i: int| 0 <= i < t.len() implies #[trigger] p(t[i]) by {
            assert(t[i] == s[i]);
        }
        lemma_filter_keeps_all(t, p);
        assert(p(s[s.len() - 1]));
        assert(t.push(s.last()) =~= s);
    }
}

pub proof fn lemma_filter_take_step(s: Seq<char>, i: int, p: spec_fn(char) -> bool)
    requires
        0 <= i < s.len(),
    ensures
        s.take(i + 1).filter(p) == (if p(s[i]) {
            s.take(i).filter(p).push(s[i])
        } else {
            s.take(i).filter(p)
        }),
{
    reveal_with_fuel(Seq::filter, 1);
    assert(s.take(i + 1).drop_last() =~= s.take(i));
}

/// Filtering keeps a sequence whose every element passes.
pub proof fn lemma_filter_all(s: Seq<char>, p: spec_fn(char) -> bool)
    requires
        forall|i: int| 0 <= i < s.len() ==> p(#[trigger] s[i]),
    ensures
        s.filter(p) == s,
    decreases s.len(),
{
    reveal_with_fuel(Seq::filter, 1);
    if s.len() > 0 {
        lemma_filter_all(s.drop_last(), p);
        assert(s.drop_last().push(s.last()) =~= s);
    }
}

/// Removes every occurrence of `c`.
pub fn remove_char(s: &Vec<char>, c: char) -> (r: Vec<char>)
    ensures
        r@ == s@.filter(without_char(c)),
{
    let mut r: Vec<char> = Vec::new();
    let mut i: usize = 0;
    while i < s.len()
        invariant
            i <= s.len(),
            r@ == s@.take(i as int).filter(without_char(c)),
        decreases s.len() - i,
    {
        proof {
            lemma_filter_take_step(s@, i as int, without_char(c));
        }
        if s[i] != c {
            r.push(s[i]);
        }
        i += 1;
    }
    assert(s@.take(s.len() as int) =~= s@);
    r
}

/// Removes every whitespace character.
pub fn remove_whitespace(s: &Vec<char>) -> (r: Vec<char>)
    ensures
        r@ == s@.filter(not_ws()),
{
    let mut r: Vec<char> = Vec::new();
    let mut i: usize = 0;
    while i < s.len()
        invariant
            i <= s.len(),
            r@ == s@.take(i as int).filter(not_ws()),
        decreases s.len() - i,
    {
        proof {
            lemma_filter_take_step(s@, i as int, not_ws());
        }
        if !is_whitespace(s[i]) {
            r.push(s[i]);
        }
        i += 1;
    }
    assert(s@.take(s.len() as int) =~= s@);
    r
}

pub open spec fn is_digit_pred() -> spec_fn(char) -> bool {
    |c: char| is_digit(c)
}

/// Keeps the ASCII digits only.
pub fn keep_digits(s: &Vec<char>) -> (r: Vec<char>)
    ensures
        r@ == s@.filter(is_digit_pred()),
{
    let mut r: Vec<char> = Vec::new();
    let mut i: usize = 0;
    while i < s.len()
        invariant
            i <= s.len(),
            r@ == s@.take(i as int).filter(is_digit_pred()),
        decreases s.len() - i,
    {
        proof {
            lemma_filter_take_step(s@, i as int, is_digit_pred());
        }
        if is_ascii_digit(s[i]) {
            r.push(s[i]);
        }
        i += 1;
    }
    assert(s@.take(s.len() as int) =~= s@);
    r
}

/// What `str::replace(p, r)` gives for a non-empty pattern: occurrences are
/// replaced from left to right, without overlap.
pub open spec fn replace_seq(s: Seq<char>, p: Seq<char>, r: Seq<char>) -> Seq<char>
    recommends
        p.len() > 0,
    decreases s.len(),
{
    if p.len() == 0 || s.len() == 0 {
        s
    } else if occurs_at(s, p, 0) {
        r + replace_seq(s.skip(p.len() as int), p, r)
    } else {
        seq![s[0]] + replace_seq(s.skip(1), p, r)
    }
}

/// `str::replace` with a non-empty pattern.
pub fn replace_all(s: &Vec<char>, p: &Vec<char>, rep: &Vec<char>) -> (out: Vec<char>)
    requires
        p.len() > 0,
    ensures
        out@ == replace_seq(s@, p@, rep@),
{
    let mut out: Vec<char> = Vec::new();
    let mut i: usize = 0;
    assert(s@.skip(0) =~= s@);
    assert(out@ + s@ =~= s@);
    while i < s.len()
        invariant
            i <= s.len(),
            p.len() > 0,
            out@ + replace_seq(s@.skip(i as int), p@, rep@) == replace_seq(s@, p@, rep@),
        decreases s.len() - i,
    {
        let ghost rest = s@.skip(i as int);
        if occurs_at_exec(s, p, i) {
            proof {
                assert(rest.subrange(0, p@.len() as int) =~= s@.subrange(
                    i as int,
                    i + p@.len(),
                ));
                assert(occurs_at(rest, p@, 0));
                assert(rest.skip(p@.len() as int) =~= s@.skip(i + p@.len()));
                assert(replace_seq(rest, p@, rep@) == rep@ + replace_seq(
                    s@.skip(i + p@.len()),
                    p@,
                    rep@,
                ));
            }
            append_chars(&mut out, rep);
            i += p.len();
            assert(out@ + replace_seq(s@.skip(i as int), p@, rep@) =~= replace_seq(
                s@,
                p@,
                rep@,
            ));
        } else {
            proof {
                if occurs_at(rest, p@, 0) {
                    assert(rest.subrange(0, p@.len() as int) =~= s@.subrange(
                        i as int,
                        i + p@.len(),
                    ));
                }
                assert(rest.skip(1) =~= s@.skip(i + 1));
                assert(rest[0] == s@[i as int]);
            }
            out.push(s[i]);
            i += 1;
            assert(out@ + replace_seq(s@.skip(i as int), p@, rep@) =~= replace_seq(
                s@,
                p@,
                rep@,
            ));
        }
    }
    assert(s@.skip(i as int) =~= Seq::<char>::empty());
    assert(out@ + Seq::<char>::empty() =~= out@);
    out
}

// ───────────────────────── splitting ─────────────────────────

/// The pieces of `s` between occurrences of the character `sep`: what
/// `str::split(sep)` yields.
pub open spec fn split_char_seq(s: Seq<char>, sep: char) -> Seq<Seq<char>>
    decreases s.len(),
{
    if s.len() == 0 {
        seq![Seq::<char>::empty()]
    } else {
        let rest = split_char_seq(s.drop_last(), sep);
        if s.last() == sep {
            rest.push(Seq::<char>::empty())
        } else {
            rest.update(rest.len() - 1, rest.last().push(s.last()))
        }
    }
}

pub proof fn lemma_split_char_len(s: Seq<char>, sep: char)
    ensures
        split_char_seq(s, sep).len() >= 1,
    decreases s.len(),
{
    if s.len() > 0 {
        lemma_split_char_len(s.drop_last(), sep);
    }
}

/// The views of a sequence of character vectors.
pub open spec fn char_vecs_view(v: Seq<Vec<char>>) -> Seq<Seq<char>> {
    v.map_values(|x: Vec<char>| x@)
}

/// The views of a sequence of strings.
pub open spec fn strings_view(v: Seq<String>) -> Seq<Seq<char>> {
    v.map_values(|x: String| x@)
}

/// A copy of a list of strings.
pub fn clone_strings(v: &Vec<String>) -> (r: Vec<String>)
    ensures
        strings_view(r@) == strings_view(v@),
{
    let mut r: Vec<String> = Vec::new();
    let mut i: usize = 0;
    while i < v.len()
        invariant
            i <= v.len(),
            strings_view(r@) == strings_view(v@).take(i as int),
        decreases v.len() - i,
    {
        let ghost before = r@;
        let c = v[i].clone();
        assert(c@ == v@[i as int]@);
        r.push(c);
        assert(strings_view(r@) =~= strings_view(before).push(c@));
        assert(strings_view(v@).take(i + 1) =~= strings_view(v@).take(i as int).push(v@[i as int]@));
        i += 1;
    }
    assert(strings_view(v@).take(v.len() as int) =~= strings_view(v@));
    r
}

/// `str::split` with a character separator.
pub fn split_char(s: &Vec<char>, sep: char) -> (parts: Vec<Vec<char>>)
    ensures
        char_vecs_view(parts@) == split_char_seq(s@, sep),
{
    let mut parts: Vec<Vec<char>> = Vec::new();
    let mut cur: Vec<char> = Vec::new();
    let mut i: usize = 0;
    assert(char_vecs_view(parts@).push(cur@) =~= split_char_seq(s@.take(0), sep));
    while i < s.len()
        invariant
            i <= s.len(),
            char_vecs_view(parts@).push(cur@) == split_char_seq(s@.take(i as int), sep),
        decreases s.len() - i,
    {
        proof {
            assert(s@.take(i + 1).drop_last() =~= s@.take(i as int));
            lemma_split_char_len(s@.take(i as int), sep);
        }
        let ghost old_parts = parts@;
        let ghost old_cur = cur@;
        if s[i] == sep {
            let done = cur;
            parts.push(done);
            cur = Vec::new();
            assert(char_vecs_view(parts@) =~= char_vecs_view(old_parts).push(old_cur));
            assert(char_vecs_view(parts@).push(cur@) =~= split_char_seq(s@.take(i + 1), sep));
        } else {
            cur.push(s[i]);
            assert(char_vecs_view(parts@).push(cur@) =~= split_char_seq(s@.take(i + 1), sep));
        }
        i += 1;
    }
    let ghost old_parts = parts@;
    parts.push(cur);
    assert(s@.take(s.len() as int) =~= s@);
    assert(char_vecs_view(parts@) =~= char_vecs_view(old_parts).push(cur@));
    parts
}

// ───────────────────────── words ─────────────────────────

/// The maximal runs of non-whitespace characters of `s`: what
/// `str::split_whitespace` yields.
pub open spec fn words(s: Seq<char>) -> Seq<Seq<char>>
    decreases s.len(),
{
    if s.len() == 0 {
        Seq::empty()
    } else {
        let w = words(s.drop_last());
        let c = s.last();
        if is_ws(c) {
            w
        } else if s.len() >= 2 && !is_ws(s[s.len() - 2]) {
            w.update(w.len() - 1, w.last().push(c))
        } else {
            w.push(seq![c])
        }
    }
}

pub proof fn lemma_words_nonempty_end(s: Seq<char>)
    requires
        s.len() > 0,
        !is_ws(s.last()),
    ensures
        words(s).len() > 0,
    decreases s.len(),
{
    if s.len() >= 2 && !is_ws(s[s.len() - 2]) {
        let t = s.drop_last();
        assert(t.last() == s[s.len() - 2]);
        lemma_words_nonempty_end(t);
    }
}

/// `str::split_whitespace`, collecting the words.
pub fn split_whitespace(s: &Vec<char>) -> (ws: Vec<Vec<char>>)
    ensures
        char_vecs_view(ws@) == words(s@),
{
    let mut done: Vec<Vec<char>> = Vec::new();
    let mut cur: Vec<char> = Vec::new();
    let mut i: usize = 0;
    assert(s@.take(0) =~= Seq::<char>::empty());
    assert(char_vecs_view(done@) =~= Seq::<Seq<char>>::empty());
    while i < s.len()
        invariant
            i <= s.len(),
            cur@.len() > 0 <==> (i > 0 && !is_ws(s@[i - 1])),
            words(s@.take(i as int)) == (if cur@.len() > 0 {
                char_vecs_view(done@).push(cur@)
            } else {
                char_vecs_view(done@)
            }),
        decreases s.len() - i,
    {
        let c = s[i];
        let ghost t = s@.take(i + 1);
        proof {
            assert(t.drop_last() =~= s@.take(i as int));
            assert(t.last() == c);
            if i > 0 {
                assert(t[t.len() - 2] == s@[i - 1]);
            }
        }
        let ghost old_done = done@;
        let ghost old_cur = cur@;
        if is_whitespace(c) {
            if cur.len() > 0 {
                let w = cur;
                done.push(w);
                cur = Vec::new();
                assert(char_vecs_view(done@) =~= char_vecs_view(old_done).push(old_cur));
            }
        } else {
            cur.push(c);
            proof {
                if old_cur.len() > 0 {
                    let v = char_vecs_view(old_done).push(old_cur);
                    assert(v.update(v.len() - 1, v.last().push(c)) =~= char_vecs_view(done@).push(cur@));
                } else {
                    assert(cur@ =~= seq![c]);
                    assert(char_vecs_view(old_done).push(seq![c]) =~= char_vecs_view(done@).push(cur@));
                }
            }
        }
        i += 1;
    }
    assert(s@.take(s.len() as int) =~= s@);
    if cur.len() > 0 {
        let ghost old_done = done@;
        done.push(cur);
        assert(char_vecs_view(done@) =~= char_vecs_view(old_done).push(cur@));
    }
    done
}

// ───────────────────────── joining ─────────────────────────

/// The pieces joined with `sep` between them: what `join(sep)` gives.
pub open spec fn join_seq(parts: Seq<Seq<char>>, sep: Seq<char>) -> Seq<char>
    decreases parts.len(),
{
    if parts.len() == 0 {
        Seq::empty()
    } else if parts.len() == 1 {
        parts[0]
    } else {
        join_seq(parts.drop_last(), sep) + sep + parts.last()
    }
}

/// `parts[from..].join(sep)`.
pub fn join_strings(parts: &Vec<String>, from: usize, sep: &str) -> (r: String)
    requires
        from <= parts.len(),
    ensures
        r@ == join_seq(strings_view(parts@).skip(from as int), sep@),
{
    let mut r = String::new();
    let mut i: usize = from;
    let ghost all = strings_view(parts@).skip(from as int);
    assert(all.take(0) =~= Seq::<Seq<char>>::empty());
    while i < parts.len()
        invariant
            from <= i <= parts.len(),
            all == strings_view(parts@).skip(from as int),
            r@ == join_seq(all.take(i - from), sep@),
        decreases parts.len() - i,
    {
        let ghost k = (i - from) as int;
        proof {
            assert(all.take(k + 1).drop_last() =~= all.take(k));
            assert(all.take(k + 1).last() == parts@[i as int]@);
        }
        if i > from {
            r.append(sep);
        } else {
            assert(all.take(k + 1) =~= seq![parts@[i as int]@]);
            assert(r@ =~= Seq::<char>::empty());
        }
        r.append(parts[i].as_str());
        i += 1;
        assert(r@ =~= join_seq(all.take(i - from), sep@));
    }
    assert(all.take(parts.len() - from) =~= all);
    r
}

// ───────────────────────── splitting on several characters ─────────────────────────

/// The pieces of `s` between characters of `seps`: what `str::split` with a
/// set of separator characters yields.
pub open spec fn split_any_seq(s: Seq<char>, seps: Seq<char>) -> Seq<Seq<char>>
    decreases s.len(),
{
    if s.len() == 0 {
        seq![Seq::<char>::empty()]
    } else {
        let rest = split_any_seq(s.drop_last(), seps);
        if seps.contains(s.last()) {
            rest.push(Seq::<char>::empty())
        } else {
            rest.update(rest.len() - 1, rest.last().push(s.last()))
        }
    }
}

pub proof fn lemma_split_any_len(s: Seq<char>, seps: Seq<char>)
    ensures
        split_any_seq(s, seps).len() >= 1,
    decreases s.len(),
{
    if s.len() > 0 {
        lemma_split_any_len(s.drop_last(), seps);
    }
}

/// `str::split` on any of the characters in `seps`.
pub fn split_any(s: &Vec<char>, seps: &Vec<char>) -> (parts: Vec<Vec<char>>)
    ensures
        char_vecs_view(parts@) == split_any_seq(s@, seps@),
{
    let mut parts: Vec<Vec<char>> = Vec::new();
    let mut cur: Vec<char> = Vec::new();
    let mut i: usize = 0;
    assert(char_vecs_view(parts@).push(cur@) =~= split_any_seq(s@.take(0), seps@));
    while i < s.len()
        invariant
            i <= s.len(),
            char_vecs_view(parts@).push(cur@) == split_any_seq(s@.take(i as int), seps@),
        decreases s.len() - i,
    {
        proof {
            assert(s@.take(i + 1).drop_last() =~= s@.take(i as int));
            lemma_split_any_len(s@.take(i as int), seps@);
        }
        let ghost old_parts = parts@;
        let ghost old_cur = cur@;
        if contains_char(seps, s[i]) {
            let done = cur;
            parts.push(done);
            cur = Vec::new();
            assert(char_vecs_view(parts@) =~= char_vecs_view(old_parts).push(old_cur));
            assert(char_vecs_view(parts@).push(cur@) =~= split_any_seq(s@.take(i + 1), seps@));
        } else {
            cur.push(s[i]);
            assert(char_vecs_view(parts@).push(cur@) =~= split_any_seq(s@.take(i + 1), seps@));
        }
        i += 1;
    }
    let ghost old_parts = parts@;
    parts.push(cur);
    assert(s@.take(s.len() as int) =~= s@);
    assert(char_vecs_view(parts@) =~= char_vecs_view(old_parts).push(cur@));
    parts
}

} // verus!
