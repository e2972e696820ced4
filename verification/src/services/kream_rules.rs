//! Keyword rules that mark transactions as costs of the resale business.
use vstd::prelude::*;

use crate::text::{
    case_settled, is_ws, lemma_ws_free_lowercase_settled, chars_of, contains, contains_seq, join_seq,
    lemma_lower_each_add, lower_each, lowercase,
    lowercase_chars, not_ws, remove_whitespace, str_eq, string_of, strings_view,
};

verus! {

/// A keyword without whitespace, in lower case.
pub open spec fn normalize_keyword_spec(value: Seq<char>) -> Seq<char> {
    lowercase(value.filter(not_ws()))
}

/// A normalized keyword is settled: where the keyword holds no capital
/// sigma and each of its characters' lowercase is settled (every ASCII
/// character's is), it holds no whitespace, is its own lowercase, and
/// normalizing it again gives it back.
pub proof fn lemma_keyword_settled(value: Seq<char>)
    requires
        !value.contains('Σ'),
        forall|i: int| 0 <= i < value.len() ==> case_settled(#[trigger] value[i]),
    ensures
        forall|j: int| 0 <= j < normalize_keyword_spec(value).len()
            ==> !is_ws(#[trigger] normalize_keyword_spec(value)[j]),
        lowercase(normalize_keyword_spec(value)) == normalize_keyword_spec(value),
        normalize_keyword_spec(normalize_keyword_spec(value)) == normalize_keyword_spec(value),
{
    lemma_ws_free_lowercase_settled(value);
}

pub fn normalize_keyword(value: &str) -> (r: String)
    ensures
        r@ == normalize_keyword_spec(value@),
{
    let v = remove_whitespace(&chars_of(value));
    string_of(&lowercase_chars(&v))
}

/// The present values, in order.
pub open spec fn present_values(values: Seq<Option<&str>>) -> Seq<Seq<char>>
    decreases values.len(),
{
    if values.len() == 0 {
        Seq::empty()
    } else {
        let rest = present_values(values.drop_last());
        match values.last() {
            Some(s) => rest.push(s@),
            None => rest,
        }
    }
}

/// The present values joined by spaces, without whitespace, in lower case.
pub open spec fn normalize_haystack_spec(values: Seq<Option<&str>>) -> Seq<char> {
    lowercase(join_seq(present_values(values), " "@).filter(not_ws()))
}

pub fn normalize_haystack(values: &[Option<&str>]) -> (r: String)
    ensures
        r@ == normalize_haystack_spec(values@),
{
    let mut present: Vec<String> = Vec::new();
    let mut i: usize = 0;
    while i < values.len()
        invariant
            i <= values@.len(),
            strings_view(present@) == present_values(values@.take(i as int)),
        decreases values.len() - i,
    {
        proof {
            assert(values@.take(i + 1).drop_last() =~= values@.take(i as int));
        }
        let ghost old_p = present@;
        match values[i] {
            Some(s) => {
                present.push(string_of(&chars_of(s)));
                assert(strings_view(present@) =~= strings_view(old_p).push(s@));
            },
            None => {},
        }
        i += 1;
    }
    assert(values@.take(values@.len() as int) =~= values@);
    let joined = crate::text::join_strings(&present, 0, " ");
    assert(strings_view(present@).skip(0) =~= strings_view(present@));
    let v = remove_whitespace(&chars_of(joined.as_str()));
    string_of(&lowercase_chars(&v))
}

/// Each part without whitespace, the results one after another.
pub open spec fn ws_free_concat(parts: Seq<Seq<char>>) -> Seq<char>
    decreases parts.len(),
{
    if parts.len() == 0 {
        Seq::empty()
    } else {
        ws_free_concat(parts.drop_last()) + parts.last().filter(not_ws())
    }
}

/// Each part normalized as a keyword, the results one after another.
pub open spec fn keywords_concat(parts: Seq<Seq<char>>) -> Seq<char>
    decreases parts.len(),
{
    if parts.len() == 0 {
        Seq::empty()
    } else {
        keywords_concat(parts.drop_last()) + normalize_keyword_spec(parts.last())
    }
}

proof fn lemma_join_ws_free(parts: Seq<Seq<char>>)
    ensures
        join_seq(parts, " "@).filter(not_ws()) == ws_free_concat(parts),
    decreases parts.len(),
{
    reveal_strlit(" ");
    if parts.len() == 0 {
        reveal_with_fuel(Seq::filter, 1);
    } else if parts.len() == 1 {
        assert(parts.drop_last().len() == 0);
        assert(ws_free_concat(parts.drop_last()) =~= Seq::<char>::empty());
        assert(ws_free_concat(parts) =~= parts[0].filter(not_ws()));
    } else {
        lemma_join_ws_free(parts.drop_last());
        let j = join_seq(parts.drop_last(), " "@);
        Seq::filter_distributes_over_add(j + " "@, parts.last(), not_ws());
        Seq::filter_distributes_over_add(j, " "@, not_ws());
        assert(" "@ =~= seq![' ']);
        reveal_with_fuel(Seq::filter, 2);
        assert(seq![' '].drop_last() =~= Seq::<char>::empty());
        assert(" "@.filter(not_ws()) =~= Seq::<char>::empty());
        assert(j + " "@ + parts.last() == join_seq(parts, " "@));
        assert(ws_free_concat(parts.drop_last()) + Seq::<char>::empty() =~= ws_free_concat(parts.drop_last()));
    }
}

proof fn lemma_ws_free_concat_lowered(parts: Seq<Seq<char>>)
    requires
        forall|i: int| 0 <= i < parts.len() ==> !(#[trigger] parts[i]).contains('Σ'),
    ensures
        !ws_free_concat(parts).contains('Σ'),
        lower_each(ws_free_concat(parts)) == keywords_concat(parts),
    decreases parts.len(),
{
    reveal(lowercase);
    if parts.len() > 0 {
        let q = parts.drop_last();
        assert forall|i: int| 0 <= i < q.len() implies !(#[trigger] q[i]).contains('Σ') by {
            assert(q[i] == parts[i]);
        }
        lemma_ws_free_concat_lowered(q);
        let last = parts.last();
        let f = last.filter(not_ws());
        assert(!last.contains('Σ')) by {
            assert(last == parts[parts.len() - 1]);
        }
        assert(!f.contains('Σ')) by {
            if f.contains('Σ') {
                last.lemma_filter_contains_rev(not_ws(), 'Σ');
            }
        }
        lemma_lower_each_add(ws_free_concat(q), f);
        assert(normalize_keyword_spec(last) == lower_each(f));
        let w = ws_free_concat(parts);
        assert(w == ws_free_concat(q) + f);
        assert(!w.contains('Σ')) by {
            if w.contains('Σ') {
                let k = choose|k: int| 0 <= k < w.len() && w[k] == 'Σ';
                if k < ws_free_concat(q).len() {
                    assert(ws_free_concat(q)[k] == 'Σ');
                    assert(ws_free_concat(q).contains('Σ'));
                } else {
                    assert(f[k - ws_free_concat(q).len()] == 'Σ');
                    assert(f.contains('Σ'));
                }
            }
        }
    }
}

/// The haystack is the present values, each normalized as a keyword, one
/// after another: where no present value holds a capital sigma, absent
/// values play no part, and no values give empty text.
pub proof fn lemma_haystack_is_keywords(values: Seq<Option<&str>>)
    requires
        forall|i: int| 0 <= i < present_values(values).len()
            ==> !(#[trigger] present_values(values)[i]).contains('Σ'),
    ensures
        normalize_haystack_spec(values) == keywords_concat(present_values(values)),
{
    let p = present_values(values);
    lemma_join_ws_free(p);
    lemma_ws_free_concat_lowered(p);
    reveal(lowercase);
}

/// The pattern that finds a keyword anywhere: `%keyword%`.
pub open spec fn sql_keyword_pattern_spec(keyword: Seq<char>) -> Seq<char> {
    "%"@ + normalize_keyword_spec(keyword) + "%"@
}

pub fn sql_keyword_pattern(keyword: &str) -> (r: String)
    ensures
        r@ == sql_keyword_pattern_spec(keyword@),
{
    let mut r = string_of(&chars_of("%"));
    let k = normalize_keyword(keyword);
    r.append(k.as_str());
    r.append("%");
    r
}

/// The position of the first rule whose keyword occurs in the haystack.
pub open spec fn first_rule_match(haystack: Seq<char>, keywords: Seq<Seq<char>>, i: int) -> bool {
    &&& 0 <= i < keywords.len()
    &&& contains_seq(haystack, keywords[i])
    &&& forall|j: int| 0 <= j < i ==> !contains_seq(haystack, #[trigger] keywords[j])
}

/// The kind named by the first active rule (in creation order) whose
/// normalized keyword occurs in the haystack; an empty haystack matches
/// nothing.
pub fn first_matching_kind(haystack: &str, rules: &Vec<(String, String)>) -> (r: Option<String>)
    ensures
        haystack@.len() == 0 ==> r is None,
        haystack@.len() > 0 ==> match r {
            Some(k) => exists|i: int|
                first_rule_match(
                    haystack@,
                    rules@.map_values(|p: (String, String)| p.0@),
                    i,
                ) && k@ == rules@[i].1@,
            None => forall|j: int|
                0 <= j < rules@.len() ==> !contains_seq(haystack@, #[trigger] rules@[j].0@),
        },
{
    let h = chars_of(haystack);
    if h.len() == 0 {
        return None;
    }
    let ghost keys = rules@.map_values(|p: (String, String)| p.0@);
    let mut i: usize = 0;
    while i < rules.len()
        invariant
            i <= rules@.len(),
            h@ == haystack@,
            haystack@.len() > 0,
            keys == rules@.map_values(|p: (String, String)| p.0@),
            forall|j: int| 0 <= j < i ==> !contains_seq(haystack@, #[trigger] rules@[j].0@),
        decreases rules.len() - i,
    {
        let kw = chars_of(rules[i].0.as_str());
        if contains(&h, &kw) {
            proof {
                assert forall|j: int| 0 <= j < i implies !contains_seq(haystack@, #[trigger] keys[j]) by {
                    assert(keys[j] == rules@[j].0@);
                }
                assert(first_rule_match(haystack@, keys, i as int));
            }
            return Some(rules[i].1.clone());
        }
        i += 1;
    }
    None
}

} // verus!
