//! Decimal integers: reading them as `str::parse` does, and writing them as
//! `to_string` does.
use vstd::prelude::*;

use crate::text::is_digit;

verus! {

pub open spec fn digit_val(c: char) -> int {
    c as int - '0' as int
}

pub open spec fn all_digits(s: Seq<char>) -> bool {
    forall|i: int| 0 <= i < s.len() ==> is_digit(#[trigger] s[i])
}

/// The value of a sequence of decimal digits.
pub open spec fn digits_value(s: Seq<char>) -> int
    decreases s.len(),
{
    if s.len() == 0 {
        0
    } else {
        digits_value(s.drop_last()) * 10 + digit_val(s.last())
    }
}

/// What `str::parse` gives for an integer type with the range `lo..=hi`:
/// an optional sign (`-` only for signed types), then at least one ASCII
/// digit and nothing else, with a value in range.
pub open spec fn parse_int_spec(s: Seq<char>, signed: bool, lo: int, hi: int) -> Option<int> {
    let has_sign = s.len() > 0 && (s[0] == '+' || (signed && s[0] == '-'));
    let neg = s.len() > 0 && signed && s[0] == '-';
    let body = if has_sign {
        s.skip(1)
    } else {
        s
    };
    if body.len() == 0 || !all_digits(body) {
        None
    } else {
        let v = if neg {
            -digits_value(body)
        } else {
            digits_value(body)
        };
        if lo <= v && v <= hi {
            Some(v)
        } else {
            None
        }
    }
}

/// `str::parse::<i64>`.
pub open spec fn parse_i64_spec(s: Seq<char>) -> Option<i64> {
    match parse_int_spec(s, true, i64::MIN as int, i64::MAX as int) {
        Some(v) => Some(v as i64),
        None => None,
    }
}

/// `str::parse::<i32>`.
pub open spec fn parse_i32_spec(s: Seq<char>) -> Option<i32> {
    match parse_int_spec(s, true, i32::MIN as int, i32::MAX as int) {
        Some(v) => Some(v as i32),
        None => None,
    }
}

/// `str::parse::<u32>`.
pub open spec fn parse_u32_spec(s: Seq<char>) -> Option<u32> {
    match parse_int_spec(s, false, 0, u32::MAX as int) {
        Some(v) => Some(v as u32),
        None => None,
    }
}

/// `str::parse::<u16>`.
pub open spec fn parse_u16_spec(s: Seq<char>) -> Option<u16> {
    match parse_int_spec(s, false, 0, u16::MAX as int) {
        Some(v) => Some(v as u16),
        None => None,
    }
}

pub proof fn lemma_digits_value_nonneg(s: Seq<char>)
    requires
        all_digits(s),
    ensures
        digits_value(s) >= 0,
    decreases s.len(),
{
    if s.len() > 0 {
        assert(all_digits(s.drop_last()));
        lemma_digits_value_nonneg(s.drop_last());
        assert(is_digit(s[s.len() - 1]));
    }
}

/// A longer run of digits is worth at least as much as its prefix.
pub proof fn lemma_digits_value_prefix(s: Seq<char>, k: int)
    requires
        all_digits(s),
        0 <= k <= s.len(),
    ensures
        digits_value(s.take(k)) <= digits_value(s),
    decreases s.len() - k,
{
    if k < s.len() {
        lemma_digits_value_prefix(s, k + 1);
        assert(s.take(k + 1).drop_last() =~= s.take(k));
        assert(all_digits(s.take(k)));
        lemma_digits_value_nonneg(s.take(k));
        assert(is_digit(s[k]));
        assert(s.take(k + 1).last() == s[k]);
    } else {
        assert(s.take(k) =~= s);
    }
}

/// The core of integer parsing, with the range `lo..=hi`.
fn parse_int(s: &Vec<char>, signed: bool, lo: i128, hi: i128) -> (r: Option<i128>)
    requires
        -0x1_0000_0000_0000_0000 <= lo <= 0 <= hi <= 0x1_0000_0000_0000_0000,
    ensures
        match r {
            Some(v) => parse_int_spec(s@, signed, lo as int, hi as int) == Some(v as int),
            None => parse_int_spec(s@, signed, lo as int, hi as int) is None,
        },
{
    let n = s.len();
    let has_sign = n > 0 && (s[0] == '+' || (signed && s[0] == '-'));
    let neg = n > 0 && signed && s[0] == '-';
    let start: usize = if has_sign {
        1
    } else {
        0
    };
    let ghost body = if has_sign {
        s@.skip(1)
    } else {
        s@
    };
    assert(body =~= s@.subrange(start as int, n as int));
    if start == n {
        return None;
    }
    let bound: i128 = 0x1_0000_0000_0000_0000;
    let mut acc: i128 = 0;
    let mut i: usize = start;
    assert(body.take(0) =~= Seq::<char>::empty());
    while i < n
        invariant
            start <= i <= n == s.len(),
            body == s@.subrange(start as int, n as int),
            has_sign == (s@.len() > 0 && (s@[0] == '+' || (signed && s@[0] == '-'))),
            body == (if has_sign { s@.skip(1) } else { s@ }),
            -0x1_0000_0000_0000_0000 <= lo <= 0 <= hi <= 0x1_0000_0000_0000_0000,
            bound == 0x1_0000_0000_0000_0000,
            0 <= acc <= bound,
            acc == digits_value(body.take(i - start)),
            all_digits(body.take(i - start)),
        decreases n - i,
    {
        let c = s[i];
        if !crate::text::is_ascii_digit(c) {
            proof {
                assert(body[i - start] == c);
                assert(!is_digit(body[i - start]));
                assert(!all_digits(body));
            }
            return None;
        }
        let ghost k = (i - start) as int;
        proof {
            assert(body.take(k + 1).drop_last() =~= body.take(k));
            assert(body.take(k + 1).last() == c);
            assert(all_digits(body.take(k + 1)));
        }
        acc = acc * 10 + (c as u32 as i128 - '0' as u32 as i128);
        i += 1;
        assert(acc == digits_value(body.take(k + 1)));
        if acc > bound {
            proof {
                // Every later digit only makes the value larger.
                if all_digits(body) {
                    lemma_digits_value_prefix(body, k + 1);
                }
            }
            return None;
        }
    }
    assert(body.take(n - start) =~= body);
    if neg {
        if -acc >= lo {
            Some(-acc)
        } else {
            None
        }
    } else {
        if acc <= hi {
            Some(acc)
        } else {
            None
        }
    }
}

/// `str::parse::<i64>` on a character sequence.
pub fn parse_i64(s: &Vec<char>) -> (r: Option<i64>)
    ensures
        r == parse_i64_spec(s@),
{
    match parse_int(s, true, i64::MIN as i128, i64::MAX as i128) {
        Some(v) => Some(v as i64),
        None => None,
    }
}

/// `str::parse::<i32>` on a character sequence.
pub fn parse_i32(s: &Vec<char>) -> (r: Option<i32>)
    ensures
        r == parse_i32_spec(s@),
{
    match parse_int(s, true, i32::MIN as i128, i32::MAX as i128) {
        Some(v) => Some(v as i32),
        None => None,
    }
}

/// `str::parse::<u32>` on a character sequence.
pub fn parse_u32(s: &Vec<char>) -> (r: Option<u32>)
    ensures
        r == parse_u32_spec(s@),
{
    match parse_int(s, false, 0, u32::MAX as i128) {
        Some(v) => Some(v as u32),
        None => None,
    }
}

/// `str::parse::<u16>` on a character sequence.
pub fn parse_u16(s: &Vec<char>) -> (r: Option<u16>)
    ensures
        r == parse_u16_spec(s@),
{
    match parse_int(s, false, 0, u16::MAX as i128) {
        Some(v) => Some(v as u16),
        None => None,
    }
}

// ───────────────────────── writing ─────────────────────────

pub open spec fn digit_char(d: int) -> char {
    (d + 48) as char
}

/// The decimal digits of `n`, without leading zeros.
pub open spec fn dec_seq(n: nat) -> Seq<char>
    decreases n,
{
    if n < 10 {
        seq![digit_char(n as int)]
    } else {
        dec_seq(n / 10).push(digit_char((n % 10) as int))
    }
}

/// What `to_string` gives for an integer `v`.
pub open spec fn int_string(v: int) -> Seq<char> {
    if v < 0 {
        seq!['-'] + dec_seq((-v) as nat)
    } else {
        dec_seq(v as nat)
    }
}

pub proof fn lemma_digit_char(d: int)
    requires
        0 <= d < 10,
    ensures
        digit_val(digit_char(d)) == d,
        is_digit(digit_char(d)),
{
    assert((d + 48) as char as int == d + 48);
}

pub proof fn lemma_dec_seq_digits(n: nat)
    ensures
        dec_seq(n).len() >= 1,
        all_digits(dec_seq(n)),
        dec_seq(n)[0] != '0' || n == 0,
        digits_value(dec_seq(n)) == n,
    decreases n,
{
    lemma_digit_char((n % 10) as int);
    if n < 10 {
        assert(digits_value(dec_seq(n)) == digits_value(dec_seq(n).drop_last()) * 10 + digit_val(dec_seq(n).last()));
        assert(dec_seq(n).drop_last() =~= Seq::<char>::empty());
    }
    if n >= 10 {
        lemma_dec_seq_digits(n / 10);
        let d = dec_seq(n / 10);
        assert(dec_seq(n).drop_last() =~= d);
        assert(dec_seq(n)[0] == d[0]);
    }
}

fn digit_to_char(d: u64) -> (c: char)
    requires
        d < 10,
    ensures
        c == digit_char(d as int),
{
    match d {
        0 => '0',
        1 => '1',
        2 => '2',
        3 => '3',
        4 => '4',
        5 => '5',
        6 => '6',
        7 => '7',
        8 => '8',
        _ => '9',
    }
}

/// The decimal digits of `n`.
pub fn dec_chars(n: u64) -> (r: Vec<char>)
    ensures
        r@ == dec_seq(n as nat),
    decreases n,
{
    if n < 10 {
        let mut r = Vec::new();
        r.push(digit_to_char(n));
        assert(r@ =~= dec_seq(n as nat));
        r
    } else {
        let mut r = dec_chars(n / 10);
        r.push(digit_to_char(n % 10));
        r
    }
}

/// `i64::to_string` as characters.
pub fn i64_chars(v: i64) -> (r: Vec<char>)
    ensures
        r@ == int_string(v as int),
{
    if v < 0 {
        let m: u64 = (-(v as i128)) as u64;
        let d = dec_chars(m);
        let mut r = Vec::new();
        r.push('-');
        crate::text::append_chars(&mut r, &d);
        assert(r@ =~= int_string(v as int));
        r
    } else {
        dec_chars(v as u64)
    }
}

/// `i64::to_string`.
pub fn i64_to_string(v: i64) -> (s: String)
    ensures
        s@ == int_string(v as int),
{
    let c = i64_chars(v);
    crate::text::string_of(&c)
}

/// Reading back what `to_string` writes gives the number again.
pub proof fn lemma_parse_int_string(v: i64)
    ensures
        parse_i64_spec(int_string(v as int)) == Some(v),
{
    if v < 0 {
        let m = (-v) as nat;
        lemma_dec_seq_digits(m);
        let s = int_string(v as int);
        assert(s.skip(1) =~= dec_seq(m));
    } else {
        lemma_dec_seq_digits(v as nat);
        assert(dec_seq(v as nat)[0] != '+' && dec_seq(v as nat)[0] != '-') by {
            assert(is_digit(dec_seq(v as nat)[0]));
        }
    }
}

} // verus!
