//! Reading the text of a chat message as a command.
use vstd::prelude::*;

use crate::numbers::{parse_i64, parse_i64_spec};
use crate::text::{
    chars_of, char_vecs_view, lemma_split_char_len, lowercase, remove_char, split_char, split_char_seq,
    split_whitespace, string_of, strings_view, lower_text, trim_chars, trim_seq, without_char, words,
};

verus! {

/// A command word and the words that follow it.
#[derive(Debug, Clone)]
pub struct TelegramParsedCommand {
    pub command: String,
    pub args: Vec<String>,
}

/// The command named by a token: the part before any `@bot` suffix, in
/// lower case.
pub open spec fn command_of_token(tok: Seq<char>) -> Seq<char> {
    lowercase(split_char_seq(tok, '@')[0])
}

/// The command and the arguments read from a message, or `None` for a blank
/// message.
pub open spec fn parse_command_spec(input: Seq<char>) -> Option<(Seq<char>, Seq<Seq<char>>)> {
    let cleaned = trim_seq(input);
    let w = words(cleaned);
    if cleaned.len() == 0 || w.len() == 0 {
        None
    } else {
        Some((command_of_token(trim_seq(w[0])), w.skip(1)))
    }
}

/// The strings made from a list of character vectors.
pub fn strings_of(v: &Vec<Vec<char>>, from: usize) -> (r: Vec<String>)
    requires
        from <= v.len(),
    ensures
        strings_view(r@) == char_vecs_view(v@).skip(from as int),
{
    let mut r: Vec<String> = Vec::new();
    let mut i: usize = from;
    while i < v.len()
        invariant
            from <= i <= v.len(),
            strings_view(r@) == char_vecs_view(v@).subrange(from as int, i as int),
        decreases v.len() - i,
    {
        let s = string_of(&v[i]);
        let ghost old_r = r@;
        r.push(s);
        assert(strings_view(r@) =~= strings_view(old_r).push(s@));
        i += 1;
        assert(strings_view(r@) =~= char_vecs_view(v@).subrange(from as int, i as int));
    }
    assert(char_vecs_view(v@).skip(from as int) =~= char_vecs_view(v@).subrange(from as int, v@.len() as int));
    r
}

/// Reads a message as a command: the first word, without a `@bot` suffix and
/// in lower case, and the words after it.
pub fn parse_command(input: &str) -> (r: Option<TelegramParsedCommand>)
    ensures
        r is None <==> parse_command_spec(input@) is None,
        r matches Some(c) ==> parse_command_spec(input@) == Some((c.command@, strings_view(c.args@))),
{
    let cleaned = trim_chars(&chars_of(input));
    if cleaned.len() == 0 {
        return None;
    }
    let tokens = split_whitespace(&cleaned);
    if tokens.len() == 0 {
        return None;
    }
    let raw_command = trim_chars(&tokens[0]);
    let pieces = split_char(&raw_command, '@');
    proof {
        lemma_split_char_len(raw_command@, '@');
    }
    let head = string_of(&pieces[0]);
    let command = lower_text(head.as_str());
    let args = strings_of(&tokens, 1);
    Some(TelegramParsedCommand { command, args })
}

/// The amount written in a message: commas, `원` and `+` are ignored, and
/// only a positive whole number is accepted.
pub open spec fn telegram_amount_spec(text: Seq<char>) -> Option<i64> {
    let normalized = trim_seq(text).filter(without_char(',')).filter(without_char('원')).filter(
        without_char('+'),
    );
    match parse_i64_spec(normalized) {
        Some(v) => if v > 0 {
            Some(v)
        } else {
            None
        },
        None => None,
    }
}

/// Reads an amount such as `12,300원`.
pub fn parse_amount(text: &str) -> (r: Option<i64>)
    ensures
        r == telegram_amount_spec(text@),
        r matches Some(v) ==> v > 0,
{
    let t = trim_chars(&chars_of(text));
    let a = remove_char(&t, ',');
    let b = remove_char(&a, '원');
    let c = remove_char(&b, '+');
    match parse_i64(&c) {
        Some(v) => if v > 0 {
            Some(v)
        } else {
            None
        },
        None => None,
    }
}

} // verus!
