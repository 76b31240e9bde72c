//! Literal placeholder substitution.
//!
//! A template is scanned once, left to right.  At each position the first
//! rule of the table whose token occurs there is applied: its value is
//! emitted and the scan resumes behind the token.  Where no token occurs,
//! the character is copied.  Text that a rule emitted is never scanned
//! again.

use vstd::prelude::*;

verus! {

/// A substitution rule as a pair of character sequences.
pub struct Rule {
    pub token: Seq<char>,
    pub value: Seq<char>,
}

/// A substitution rule: every occurrence of `token` is replaced by `value`.
pub struct Placeholder {
    pub token: Vec<char>,
    pub value: Vec<char>,
}

impl View for Placeholder {
    type V = Rule;

    open spec fn view(&self) -> Rule {
        Rule { token: self.token@, value: self.value@ }
    }
}

/// The rules that a table of placeholders stands for, in table order.
pub open spec fn rules_of(table: Seq<Placeholder>) -> Seq<Rule> {
    Seq::new(table.len(), |k: int| table[k]@)
}

/// Whether `token` is not empty and occurs in `text` at position `at`.
pub open spec fn occurs_at(text: Seq<char>, at: int, token: Seq<char>) -> bool {
    &&& 0 <= at
    &&& 0 < token.len()
    &&& at + token.len() <= text.len()
    &&& text.subrange(at, at + token.len()) == token
}

/// The first rule at or behind index `from` whose token occurs at `at`.
pub open spec fn first_match_from(text: Seq<char>, at: int, rules: Seq<Rule>, from: int) -> Option<
    int,
>
    decreases rules.len() - from,
{
    if from < 0 || from >= rules.len() {
        None
    } else if occurs_at(text, at, rules[from].token) {
        Some(from)
    } else {
        first_match_from(text, at, rules, from + 1)
    }
}

/// The first rule of the table whose token occurs at `at`.
pub open spec fn first_match(text: Seq<char>, at: int, rules: Seq<Rule>) -> Option<int> {
    first_match_from(text, at, rules, 0)
}

/// What `first_match_from` finds is a rule whose token occurs at `at`, and no
/// rule before it in the searched range has such a token.
pub proof fn lemma_first_match_from(text: Seq<char>, at: int, rules: Seq<Rule>, from: int)
    requires
        0 <= from,
    ensures
        match first_match_from(text, at, rules, from) {
            Some(k) => {
                &&& from <= k < rules.len()
                &&& occurs_at(text, at, rules[k].token)
                &&& forall|j: int| from <= j < k ==> !occurs_at(text, at, #[trigger] rules[j].token)
            },
            None => forall|j: int|
                from <= j < rules.len() ==> !occurs_at(text, at, #[trigger] rules[j].token),
        },
    decreases rules.len() - from,
{
    if from < rules.len() && !occurs_at(text, at, rules[from].token) {
        lemma_first_match_from(text, at, rules, from + 1);
    }
}

/// The text from position `at` on, with placeholders substituted.
pub open spec fn substitute_from(text: Seq<char>, at: int, rules: Seq<Rule>) -> Seq<char>
    decreases text.len() - at,
{
    if at < 0 || at >= text.len() {
        Seq::empty()
    } else {
        match first_match(text, at, rules) {
            Some(k) => {
                proof {
                    lemma_first_match_from(text, at, rules, 0);
                }
                rules[k].value + substitute_from(text, at + rules[k].token.len(), rules)
            },
            None => seq![text[at]] + substitute_from(text, at + 1, rules),
        }
    }
}

/// The whole text with placeholders substituted.
pub open spec fn substituted(text: Seq<char>, rules: Seq<Rule>) -> Seq<char> {
    substitute_from(text, 0, rules)
}

/// Whether `s` holds no opening brace.
pub open spec fn brace_free(s: Seq<char>) -> bool {
    forall|i: int| 0 <= i < s.len() ==> s[i] != '{'
}

/// Text in which no token of the table occurs is left as it is.
pub proof fn lemma_unmatched_text_is_kept(text: Seq<char>, at: int, rules: Seq<Rule>)
    requires
        0 <= at <= text.len(),
        forall|i: int, k: int|
            at <= i < text.len() && 0 <= k < rules.len() ==> !#[trigger] occurs_at(
                text,
                i,
                rules[k].token,
            ),
    ensures
        substitute_from(text, at, rules) == text.skip(at),
    decreases text.len() - at,
{
    if at < text.len() {
        lemma_first_match_from(text, at, rules, 0);
        lemma_unmatched_text_is_kept(text, at + 1, rules);
        assert(seq![text[at]] + text.skip(at + 1) =~= text.skip(at));
    } else {
        assert(text.skip(at) =~= Seq::<char>::empty());
    }
}

/// Where every opening brace of the text starts a token of the table, and no
/// value holds an opening brace, none is left from position `at` on.
pub proof fn lemma_no_brace_from(text: Seq<char>, at: int, rules: Seq<Rule>)
    requires
        0 <= at,
        forall|k: int| 0 <= k < rules.len() ==> brace_free(#[trigger] rules[k].value),
        forall|i: int|
            0 <= i < text.len() && text[i] == '{' ==> #[trigger] first_match(text, i, rules)
                is Some,
    ensures
        brace_free(substitute_from(text, at, rules)),
    decreases text.len() - at,
{
    if at < text.len() {
        lemma_first_match_from(text, at, rules, 0);
        match first_match(text, at, rules) {
            Some(k) => {
                lemma_no_brace_from(text, at + rules[k].token.len(), rules);
                assert(brace_free(rules[k].value));
            },
            None => {
                lemma_no_brace_from(text, at + 1, rules);
            },
        }
    }
}

/// Substitution is complete: where every opening brace of the template starts
/// a token of the table, and no value holds an opening brace, the result
/// holds no opening brace, so no token that begins with one occurs in it.
pub proof fn lemma_substitution_complete(text: Seq<char>, rules: Seq<Rule>)
    requires
        forall|k: int| 0 <= k < rules.len() ==> brace_free(#[trigger] rules[k].value),
        forall|i: int|
            0 <= i < text.len() && text[i] == '{' ==> #[trigger] first_match(text, i, rules)
                is Some,
    ensures
        brace_free(substituted(text, rules)),
        forall|j: int, token: Seq<char>|
            token.len() > 0 && token[0] == '{' ==> !occurs_at(
                substituted(text, rules),
                j,
                token,
            ),
{
    lemma_no_brace_from(text, 0, rules);
    let out = substituted(text, rules);
    assert forall|j: int, token: Seq<char>| token.len() > 0 && token[0] == '{' implies !occurs_at(
        out,
        j,
        token,
    ) by {
        if occurs_at(out, j, token) {
            assert(out.subrange(j, j + token.len())[0] == out[j]);
        }
    }
}

/// Whether `token` is text between braces that holds no brace itself.
pub open spec fn braced(token: Seq<char>) -> bool {
    &&& token.len() >= 2
    &&& token[0] == '{'
    &&& token[token.len() - 1] == '}'
    &&& forall|i: int| 0 < i < token.len() ==> token[i] != '{'
    &&& forall|i: int| 0 <= i < token.len() - 1 ==> token[i] != '}'
}

/// Braced tokens are unambiguous: two of them that occur in a text either
/// lie apart or are one token at one place.  So none is matched in part by
/// another, whatever the order of the rules.
pub proof fn lemma_braced_tokens_lie_apart(
    text: Seq<char>,
    first: int,
    a: Seq<char>,
    second: int,
    b: Seq<char>,
)
    requires
        braced(a),
        braced(b),
        occurs_at(text, first, a),
        occurs_at(text, second, b),
        first <= second < first + a.len(),
    ensures
        first == second,
        a == b,
{
    let in_a = text.subrange(first, first + a.len());
    let in_b = text.subrange(second, second + b.len());
    assert(in_b[0] == text[second]);
    assert(in_a[second - first] == text[second]);
    assert(first == second);
    if a.len() < b.len() {
        assert(in_a[a.len() - 1] == text[first + a.len() - 1]);
        assert(in_b[a.len() - 1] == text[first + a.len() - 1]);
    } else if b.len() < a.len() {
        assert(in_b[b.len() - 1] == text[first + b.len() - 1]);
        assert(in_a[b.len() - 1] == text[first + b.len() - 1]);
    }
    assert(a =~= b);
}

/// Whether `token` occurs in `text` at `at`.
fn occurs(text: &Vec<char>, at: usize, token: &Vec<char>) -> (found: bool)
    requires
        at <= text.len(),
    ensures
        found == occurs_at(text@, at as int, token@),
{
    let n = token.len();
    if n == 0 || n > text.len() - at {
        return false;
    }
    let mut j: usize = 0;
    while j < n
        invariant
            j <= n,
            n == token.len(),
            at + n <= text.len(),
            forall|m: int| 0 <= m < j ==> text@[at + m] == token@[m],
        decreases n - j,
    {
        if text[at + j] != token[j] {
            proof {
                let part = text@.subrange(at as int, at + n);
                assert(part[j as int] == text@[at + j]);
            }
            return false;
        }
        j += 1;
    }
    assert(text@.subrange(at as int, at + n) =~= token@);
    true
}

/// The index of the first rule whose token occurs in `text` at `at`.
fn find_rule(text: &Vec<char>, at: usize, table: &Vec<Placeholder>) -> (found: Option<usize>)
    requires
        at <= text.len(),
    ensures
        match found {
            Some(k) => first_match(text@, at as int, rules_of(table@)) == Some(k as int),
            None => first_match(text@, at as int, rules_of(table@)) is None,
        },
{
    let ghost rules = rules_of(table@);
    let mut k: usize = 0;
    while k < table.len()
        invariant
            k <= table.len(),
            rules == rules_of(table@),
            at <= text.len(),
            first_match(text@, at as int, rules) == first_match_from(text@, at as int, rules, k as int),
        decreases table.len() - k,
    {
        if occurs(text, at, &table[k].token) {
            return Some(k);
        }
        k += 1;
    }
    None
}

/// Substitutes the placeholders of `table` in `text`.
pub fn substitute(text: &Vec<char>, table: &Vec<Placeholder>) -> (out: Vec<char>)
    ensures
        out@ == substituted(text@, rules_of(table@)),
{
    let ghost rules = rules_of(table@);
    let mut out: Vec<char> = Vec::new();
    let mut at: usize = 0;
    while at < text.len()
        invariant
            at <= text.len(),
            rules == rules_of(table@),
            out@ + substitute_from(text@, at as int, rules) == substituted(text@, rules),
        decreases text.len() - at,
    {
        match find_rule(text, at, table) {
            Some(k) => {
                proof {
                    lemma_first_match_from(text@, at as int, rules, 0);
                    assert((out@ + rules[k as int].value) + substitute_from(
                        text@,
                        at + rules[k as int].token.len(),
                        rules,
                    ) =~= out@ + substitute_from(text@, at as int, rules));
                }
                crate::text::push_all(&mut out, &table[k].value);
                at += table[k].token.len();
            },
            None => {
                proof {
                    assert(out@.push(text@[at as int]) + substitute_from(text@, at + 1, rules)
                        =~= out@ + substitute_from(text@, at as int, rules));
                }
                out.push(text[at]);
                at += 1;
            },
        }
    }
    assert(out@ + Seq::<char>::empty() =~= out@);
    out
}

} // verus!
