//! Deciding what a chat command asks for, and writing amounts for replies.
use vstd::prelude::*;

use crate::numbers::{dec_chars, dec_seq};
use crate::telegram::parser::{parse_amount, parse_command, parse_command_spec, telegram_amount_spec};
use crate::text::{
    is_ws, lemma_filter_all, trim_end_seq, trim_start_seq, without_char, append_chars, chars_of, join_seq, join_strings, lowercase_chars, starts_with,
    starts_with_seq, str_eq, string_of, strings_view, sub_chars, trim, trim_chars, trim_seq,
    lowercase,
};

verus! {

/// The commands that the chat bot answers.
#[derive(Debug, Clone, Copy, PartialEq, Eq)]
pub enum CommandKind {
    /// The message holds no command.
    Empty,
    Today,
    Month,
    Add,
    Cards,
    Import,
    Confirm,
    Unsupported,
}

pub open spec fn kind_of_command(cmd: Seq<char>) -> CommandKind {
    if cmd == "/today"@ {
        CommandKind::Today
    } else if cmd == "/month"@ {
        CommandKind::Month
    } else if cmd == "/add"@ {
        CommandKind::Add
    } else if cmd == "/cards"@ {
        CommandKind::Cards
    } else if cmd == "/import"@ {
        CommandKind::Import
    } else if cmd == "/ok"@ {
        CommandKind::Confirm
    } else {
        CommandKind::Unsupported
    }
}

/// Which command a message asks for.
pub open spec fn command_kind_spec(text: Seq<char>) -> CommandKind {
    match parse_command_spec(text) {
        None => CommandKind::Empty,
        Some((cmd, _)) => kind_of_command(cmd),
    }
}

/// The command a message asks for, with its arguments (empty for a blank
/// message).
pub fn classify_command(text: &str) -> (r: (CommandKind, Vec<String>))
    ensures
        r.0 == command_kind_spec(text@),
        match parse_command_spec(text@) {
            None => r.1@.len() == 0,
            Some((_, args)) => strings_view(r.1@) == args,
        },
{
    match parse_command(text) {
        None => (CommandKind::Empty, Vec::new()),
        Some(parsed) => {
            let cmd = parsed.command.as_str();
            let kind = if str_eq(cmd, "/today") {
                CommandKind::Today
            } else if str_eq(cmd, "/month") {
                CommandKind::Month
            } else if str_eq(cmd, "/add") {
                CommandKind::Add
            } else if str_eq(cmd, "/cards") {
                CommandKind::Cards
            } else if str_eq(cmd, "/import") {
                CommandKind::Import
            } else if str_eq(cmd, "/ok") {
                CommandKind::Confirm
            } else {
                CommandKind::Unsupported
            };
            (kind, parsed.args)
        },
    }
}

/// What `/add amount merchant [memo...]` asks for.
#[derive(Debug)]
pub enum AddExpensePlan {
    /// Fewer than two arguments.
    Usage,
    /// The amount is not a positive whole number.
    InvalidAmount,
    /// The merchant is blank.
    MissingMerchant,
    /// An expense to record.
    Insert { amount: i64, merchant_name: String, memo: Option<String> },
}

pub open spec fn plan_is(
    p: AddExpensePlan,
    args: Seq<Seq<char>>,
) -> bool {
    if args.len() < 2 {
        p is Usage
    } else if telegram_amount_spec(args[0]) is None {
        p is InvalidAmount
    } else if trim_seq(args[1]).len() == 0 {
        p is MissingMerchant
    } else {
        match p {
            AddExpensePlan::Insert { amount, merchant_name, memo } => {
                &&& Some(amount) == telegram_amount_spec(args[0])
                &&& merchant_name@ == trim_seq(args[1])
                &&& if args.len() > 2 {
                    memo matches Some(m) && m@ == join_seq(args.skip(2), " "@)
                } else {
                    memo is None
                }
            },
            _ => false,
        }
    }
}

/// Checks the arguments of `/add` and, when they are usable, gives the
/// expense to record.
pub fn plan_add_expense(args: &Vec<String>) -> (p: AddExpensePlan)
    ensures
        plan_is(p, strings_view(args@)),
{
    if args.len() < 2 {
        return AddExpensePlan::Usage;
    }
    let amount = match parse_amount(args[0].as_str()) {
        Some(v) => v,
        None => return AddExpensePlan::InvalidAmount,
    };
    let merchant_name = trim(args[1].as_str());
    if merchant_name.as_str().unicode_len() == 0 {
        return AddExpensePlan::MissingMerchant;
    }
    let memo = if args.len() > 2 {
        Some(join_strings(args, 2, " "))
    } else {
        None
    };
    AddExpensePlan::Insert { amount, merchant_name, memo }
}

/// Which pending import `/ok [code]` picks.
#[derive(Debug, Clone, Copy, PartialEq, Eq)]
pub enum PendingChoice {
    /// No import is waiting.
    NothingPending,
    /// No waiting import's id starts with the code.
    NoMatch,
    /// More than one waiting import's id starts with the code.
    Ambiguous,
    /// The import at this position.
    Chosen(usize),
}

/// The positions, below `k`, of the ids that start with `code`.
pub open spec fn ids_with_prefix(ids: Seq<Seq<char>>, code: Seq<char>, k: int) -> Seq<int>
    decreases k,
{
    if k <= 0 {
        Seq::empty()
    } else {
        let rest = ids_with_prefix(ids, code, k - 1);
        if starts_with_seq(ids[k - 1], code) {
            rest.push(k - 1)
        } else {
            rest
        }
    }
}

/// The choice for ids listed newest first and an optional code.
pub open spec fn pending_choice_spec(ids: Seq<Seq<char>>, code: Option<Seq<char>>) -> PendingChoice {
    if ids.len() == 0 {
        PendingChoice::NothingPending
    } else {
        match code {
            None => PendingChoice::Chosen(0),
            Some(c) => {
                let m = ids_with_prefix(ids, lowercase(trim_seq(c)), ids.len() as int);
                if m.len() == 0 {
                    PendingChoice::NoMatch
                } else if m.len() > 1 {
                    PendingChoice::Ambiguous
                } else {
                    PendingChoice::Chosen(m[0] as usize)
                }
            },
        }
    }
}

/// Picks the import that `/ok` confirms: the newest one without a code, else
/// the one whose id starts with the code (in lower case).
pub fn select_pending_import(ids: &Vec<String>, code: Option<&str>) -> (r: PendingChoice)
    ensures
        r == pending_choice_spec(
            strings_view(ids@),
            match code {
                Some(c) => Some(c@),
                None => None,
            },
        ),
{
    if ids.len() == 0 {
        return PendingChoice::NothingPending;
    }
    let c = match code {
        None => return PendingChoice::Chosen(0),
        Some(c) => c,
    };
    let normalized = lowercase_chars(&trim_chars(&chars_of(c)));
    let ghost sv = strings_view(ids@);
    let mut matched: Vec<usize> = Vec::new();
    let mut i: usize = 0;
    while i < ids.len()
        invariant
            i <= ids.len(),
            sv == strings_view(ids@),
            matched@.map_values(|x: usize| x as int) == ids_with_prefix(sv, normalized@, i as int),
            forall|j: int| 0 <= j < matched@.len() ==> matched@[j] < ids.len(),
        decreases ids.len() - i,
    {
        let id = chars_of(ids[i].as_str());
        let ghost old_m = matched@;
        if starts_with(&id, &normalized) {
            matched.push(i);
            assert(matched@.map_values(|x: usize| x as int) =~= old_m.map_values(
                |x: usize| x as int,
            ).push(i as int));
        }
        i += 1;
    }
    if matched.len() == 0 {
        PendingChoice::NoMatch
    } else if matched.len() > 1 {
        PendingChoice::Ambiguous
    } else {
        assert(matched@.map_values(|x: usize| x as int)[0] == matched@[0] as int);
        PendingChoice::Chosen(matched[0])
    }
}

// ───────────────────────── amounts in replies ─────────────────────────

/// Digits grouped by three with commas: `1234567` → `1,234,567`.
pub open spec fn group_thousands(s: Seq<char>) -> Seq<char>
    decreases s.len(),
{
    if s.len() <= 3 {
        s
    } else {
        group_thousands(s.subrange(0, s.len() - 3)) + seq![','] + s.subrange(
            s.len() - 3,
            s.len() as int,
        )
    }
}

/// An amount of won as the replies write it: `-1,234원`.
pub open spec fn won_spec(v: int) -> Seq<char> {
    let mag: nat = if v < 0 {
        (-v) as nat
    } else {
        v as nat
    };
    let body = group_thousands(dec_seq(mag));
    if v < 0 {
        seq!['-'] + body + seq!['원']
    } else {
        body + seq!['원']
    }
}

/// Grouping digits by three and dropping the commas again gives the digits.
proof fn lemma_group_thousands_unfilter(d: Seq<char>)
    requires
        crate::numbers::all_digits(d),
    ensures
        group_thousands(d).filter(without_char(',')) == d,
        d.len() > 0 ==> group_thousands(d).len() > 0 && group_thousands(d)[0] == d[0],
    decreases d.len(),
{
    if d.len() <= 3 {
        lemma_filter_all(d, without_char(','));
    } else {
        let head = d.subrange(0, d.len() - 3);
        let tail = d.subrange(d.len() - 3, d.len() as int);
        assert(crate::numbers::all_digits(head));
        lemma_group_thousands_unfilter(head);
        lemma_filter_all(tail, without_char(','));
        reveal_with_fuel(Seq::filter, 2);
        assert(seq![','].filter(without_char(',')) =~= Seq::<char>::empty());
        let g = group_thousands(head);
        Seq::filter_distributes_over_add(g + seq![','], tail, without_char(','));
        Seq::filter_distributes_over_add(g, seq![','], without_char(','));
        assert(head + tail =~= d);
        assert((g + seq![','] + tail)[0] == g[0]);
    }
}

/// What the bot writes of a positive amount, it reads back as the same
/// amount: `parse_amount` of `won`'s text gives the value again.
pub proof fn lemma_won_reads_back(v: i64)
    requires
        v > 0,
    ensures
        telegram_amount_spec(won_spec(v as int)) == Some(v),
{
    let d = dec_seq(v as nat);
    crate::numbers::lemma_dec_seq_digits(v as nat);
    lemma_group_thousands_unfilter(d);
    let g = group_thousands(d);
    let w = won_spec(v as int);
    assert(w == g + seq!['원']);
    assert(!is_ws(w[0])) by {
        assert(w[0] == d[0]);
        assert(crate::text::is_digit(d[0]));
    }
    assert(trim_start_seq(w) == w);
    assert(w.last() == '원');
    assert(trim_end_seq(w) == w);
    reveal_with_fuel(Seq::filter, 2);
    Seq::filter_distributes_over_add(g, seq!['원'], without_char(','));
    assert(seq!['원'].filter(without_char(',')) =~= seq!['원']);
    let s1 = d + seq!['원'];
    assert(w.filter(without_char(',')) == s1);
    Seq::filter_distributes_over_add(d, seq!['원'], without_char('원'));
    assert(seq!['원'].filter(without_char('원')) =~= Seq::<char>::empty());
    assert forall|i: int| 0 <= i < d.len() implies without_char('원')(#[trigger] d[i]) by {
        assert(crate::text::is_digit(d[i]));
    }
    lemma_filter_all(d, without_char('원'));
    assert(s1.filter(without_char('원')) =~= d);
    assert forall|i: int| 0 <= i < d.len() implies without_char('+')(#[trigger] d[i]) by {
        assert(crate::text::is_digit(d[i]));
    }
    lemma_filter_all(d, without_char('+'));
    crate::numbers::lemma_parse_int_string(v);
    assert(crate::numbers::int_string(v as int) == d);
}

/// Writes an amount of won with thousands separators.
pub fn won(value: i64) -> (s: String)
    requires
        value != i64::MIN,
    ensures
        s@ == won_spec(value as int),
{
    let mag: u64 = if value < 0 {
        (-value) as u64
    } else {
        value as u64
    };
    let digits = dec_chars(mag);
    proof {
        crate::numbers::lemma_dec_seq_digits(mag as nat);
    }
    let mut num = digits;
    let mut out: Vec<char> = Vec::new();
    while num.len() > 3
        invariant
            num@.len() >= 1,
            group_thousands(digits@) == (if out@.len() == 0 {
                group_thousands(num@)
            } else {
                group_thousands(num@) + seq![','] + out@
            }),
        decreases num.len(),
    {
        let l = num.len();
        let split = sub_chars(&num, l - 3, l);
        let head = sub_chars(&num, 0, l - 3);
        let ghost old_out = out@;
        if out.len() == 0 {
            out = split;
        } else {
            let mut joined = split;
            joined.push(',');
            append_chars(&mut joined, &out);
            out = joined;
        }
        proof {
            assert(group_thousands(num@) == group_thousands(head@) + seq![','] + split@);
            if old_out.len() > 0 {
                assert(out@ =~= split@ + seq![','] + old_out);
                assert(group_thousands(head@) + seq![','] + out@ =~= group_thousands(head@)
                    + seq![','] + split@ + seq![','] + old_out);
            }
        }
        num = head;
    }
    let mut body: Vec<char> = if out.len() == 0 {
        num
    } else {
        let mut joined = num;
        joined.push(',');
        append_chars(&mut joined, &out);
        joined
    };
    let mut result: Vec<char> = Vec::new();
    if value < 0 {
        result.push('-');
    }
    append_chars(&mut result, &body);
    result.push('원');
    assert(result@ =~= won_spec(value as int));
    string_of(&result)
}

} // verus!
