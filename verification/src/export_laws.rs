//! What holds of every export.

use crate::exporter::{
    accent_name, accent_rules, channel_values, export_rules, extras_rules, rendered, slot_rules,
    swatch_rules, tags, token, Exporter,
};
use crate::hex::{hex_code, is_hex_digit, lemma_hex_code_digits};
use crate::name_map::NameMap;
use crate::palette::{Swatch, SLOTS};
use crate::template::{
    brace_free, braced, first_match, lemma_braced_tokens_lie_apart, lemma_substitution_complete,
    lemma_unmatched_text_is_kept, occurs_at, Rule,
};
use crate::text::{decimal, is_digit, lemma_decimal_digits};
use vstd::prelude::*;

verus! {

/// Whether `s` holds neither an opening nor a closing brace.
pub open spec fn no_braces(s: Seq<char>) -> bool {
    forall|i: int| 0 <= i < s.len() ==> s[i] != '{' && s[i] != '}'
}

/// Whether none of the fractions that the caller wrote out for the sixteen
/// slots holds an opening brace.
pub open spec fn fractions_brace_free(palette: Seq<Swatch>) -> bool {
    forall|slot: int, c: int|
        0 <= slot < SLOTS && 0 <= c < 3 ==> brace_free(#[trigger] palette[slot].frgb[c]@)
}

/// Whether the value of a rule holds no opening brace.
pub open spec fn value_brace_free(rule: Rule) -> bool {
    brace_free(rule.value)
}

/// Whether the token of a rule is braced.
pub open spec fn token_braced(rule: Rule) -> bool {
    braced(rule.token)
}

/// Whether `holds` is true of every rule.
pub open spec fn every(rules: Seq<Rule>, holds: spec_fn(Rule) -> bool) -> bool {
    forall|k: int| 0 <= k < rules.len() ==> holds(#[trigger] rules[k])
}

proof fn lemma_every_of_both(a: Seq<Rule>, b: Seq<Rule>, holds: spec_fn(Rule) -> bool)
    requires
        every(a, holds),
        every(b, holds),
    ensures
        every(a + b, holds),
{
    assert forall|k: int| 0 <= k < (a + b).len() implies holds(#[trigger] (a + b)[k]) by {
        if k < a.len() {
            assert((a + b)[k] == a[k]);
        } else {
            assert((a + b)[k] == b[k - a.len()]);
        }
    }
}

proof fn lemma_every_slot_rule(palette: Seq<Swatch>, upto: nat, holds: spec_fn(Rule) -> bool)
    requires
        upto <= SLOTS,
        forall|slot: int|
            0 <= slot < SLOTS ==> every(
                #[trigger] swatch_rules(Seq::empty(), decimal(slot as nat), palette[slot]),
                holds,
            ),
    ensures
        every(slot_rules(palette, upto), holds),
    decreases upto,
{
    if upto > 0 {
        lemma_every_slot_rule(palette, (upto - 1) as nat, holds);
        let last = swatch_rules(Seq::empty(), decimal((upto - 1) as nat), palette[upto - 1]);
        assert(every(last, holds));
        lemma_every_of_both(slot_rules(palette, (upto - 1) as nat), last, holds);
    }
}

proof fn lemma_every_extras_rule(
    palette: Seq<Swatch>,
    names: Seq<Seq<char>>,
    slots: Seq<usize>,
    upto: nat,
    holds: spec_fn(Rule) -> bool,
)
    requires
        upto <= names.len(),
        forall|i: int, slot: int|
            0 <= i < names.len() && 0 <= slot < SLOTS ==> every(
                #[trigger] swatch_rules(names[i], Seq::empty(), palette[slot]),
                holds,
            ),
    ensures
        every(extras_rules(palette, names, slots, upto), holds),
    decreases upto,
{
    if upto > 0 {
        lemma_every_extras_rule(palette, names, slots, (upto - 1) as nat, holds);
        if slots[upto - 1] < SLOTS {
            let last = swatch_rules(
                names[upto - 1],
                Seq::empty(),
                palette[slots[upto - 1] as int],
            );
            assert(every(last, holds));
            lemma_every_of_both(
                extras_rules(palette, names, slots, (upto - 1) as nat),
                last,
                holds,
            );
        }
    }
}

/// What holds of the rules of every slot under its number, of every slot
/// under the accent's name and of every slot under the name of each extra,
/// holds of every rule of an export.
pub proof fn lemma_every_export_rule(
    palette: Seq<Swatch>,
    accent: nat,
    names: Seq<Seq<char>>,
    slots: Seq<usize>,
    holds: spec_fn(Rule) -> bool,
)
    requires
        forall|slot: int|
            0 <= slot < SLOTS ==> every(
                #[trigger] swatch_rules(Seq::empty(), decimal(slot as nat), palette[slot]),
                holds,
            ),
        forall|slot: int|
            0 <= slot < SLOTS ==> every(
                #[trigger] swatch_rules(accent_name(), Seq::empty(), palette[slot]),
                holds,
            ),
        forall|i: int, slot: int|
            0 <= i < names.len() && 0 <= slot < SLOTS ==> every(
                #[trigger] swatch_rules(names[i], Seq::empty(), palette[slot]),
                holds,
            ),
    ensures
        every(export_rules(palette, accent, names, slots), holds),
{
    lemma_every_slot_rule(palette, SLOTS as nat, holds);
    if accent < SLOTS {
        assert(every(swatch_rules(accent_name(), Seq::empty(), palette[accent as int]), holds));
    }
    lemma_every_extras_rule(palette, names, slots, names.len(), holds);
    lemma_every_of_both(slot_rules(palette, SLOTS as nat), accent_rules(palette, accent), holds);
    lemma_every_of_both(
        slot_rules(palette, SLOTS as nat) + accent_rules(palette, accent),
        extras_rules(palette, names, slots, names.len()),
        holds,
    );
}

/// A decimal numeral holds no brace.
pub proof fn lemma_numerals_hold_no_brace(n: nat)
    ensures
        no_braces(decimal(n)),
        brace_free(decimal(n)),
{
    lemma_decimal_digits(n);
    assert forall|i: int| 0 <= i < decimal(n).len() implies decimal(n)[i] != '{' && decimal(n)[i]
        != '}' by {
        assert(is_digit(decimal(n)[i]));
    }
}

/// A colour code holds no opening brace.
pub proof fn lemma_codes_hold_no_brace(red: u8, green: u8, blue: u8)
    ensures
        brace_free(hex_code(red, green, blue)),
{
    lemma_hex_code_digits(red, green, blue);
    let code = hex_code(red, green, blue);
    assert forall|i: int| 0 <= i < code.len() implies code[i] != '{' by {
        assert(is_hex_digit(code[i]));
    }
}

proof fn lemma_swatch_values(before: Seq<char>, after: Seq<char>, sw: Swatch)
    requires
        forall|c: int| 0 <= c < 3 ==> brace_free(#[trigger] sw.frgb[c]@),
    ensures
        every(swatch_rules(before, after, sw), |rule: Rule| value_brace_free(rule)),
{
    let rules = swatch_rules(before, after, sw);
    lemma_numerals_hold_no_brace(sw.irgb[0] as nat);
    lemma_numerals_hold_no_brace(sw.irgb[1] as nat);
    lemma_numerals_hold_no_brace(sw.irgb[2] as nat);
    lemma_codes_hold_no_brace(sw.irgb[0], sw.irgb[1], sw.irgb[2]);
    assert(brace_free(sw.frgb[0]@) && brace_free(sw.frgb[1]@) && brace_free(sw.frgb[2]@));
    assert forall|k: int| 0 <= k < rules.len() implies value_brace_free(#[trigger] rules[k]) by {
        let values = channel_values(sw);
        if k == 0 {
        } else if k == 1 {
        } else if k == 2 {
        } else if k == 3 {
        } else if k == 4 {
        } else if k == 5 {
        } else {
        }
    }
}

proof fn lemma_swatch_tokens(before: Seq<char>, after: Seq<char>, sw: Swatch)
    requires
        no_braces(before),
        no_braces(after),
    ensures
        every(swatch_rules(before, after, sw), |rule: Rule| token_braced(rule)),
{
    let rules = swatch_rules(before, after, sw);
    assert forall|k: int| 0 <= k < rules.len() implies token_braced(#[trigger] rules[k]) by {
        let tag = tags()[k];
        assert(no_braces(tag)) by {
            if k == 0 {
            } else if k == 1 {
            } else if k == 2 {
            } else if k == 3 {
            } else if k == 4 {
            } else if k == 5 {
            } else {
            }
        }
        let t = token(before, tag, after);
        assert(rules[k].token == t);
        let inner = before + tag + after;
        assert(t =~= seq!['{'] + inner + seq!['}']);
        assert forall|i: int| 0 <= i < inner.len() implies inner[i] != '{' && inner[i] != '}' by {
            if i < before.len() {
            } else if i < before.len() + tag.len() {
                assert(inner[i] == tag[i - before.len()]);
            } else {
                assert(inner[i] == after[i - before.len() - tag.len()]);
            }
        }
        assert forall|i: int| 0 < i < t.len() implies t[i] != '{' by {
            if i < t.len() - 1 {
                assert(t[i] == inner[i - 1]);
            }
        }
        assert forall|i: int| 0 <= i < t.len() - 1 implies t[i] != '}' by {
            if i > 0 {
                assert(t[i] == inner[i - 1]);
            }
        }
    }
}

/// No value of an export holds an opening brace, provided that the fractions
/// hold none.
pub proof fn lemma_export_values_hold_no_brace(
    palette: Seq<Swatch>,
    accent: nat,
    names: Seq<Seq<char>>,
    slots: Seq<usize>,
)
    requires
        fractions_brace_free(palette),
    ensures
        every(export_rules(palette, accent, names, slots), |rule: Rule| value_brace_free(rule)),
{
    let holds = |rule: Rule| value_brace_free(rule);
    assert forall|slot: int| 0 <= slot < SLOTS implies every(
        #[trigger] swatch_rules(Seq::empty(), decimal(slot as nat), palette[slot]),
        holds,
    ) by {
        lemma_swatch_values(Seq::empty(), decimal(slot as nat), palette[slot]);
    }
    assert forall|slot: int| 0 <= slot < SLOTS implies every(
        #[trigger] swatch_rules(accent_name(), Seq::empty(), palette[slot]),
        holds,
    ) by {
        lemma_swatch_values(accent_name(), Seq::empty(), palette[slot]);
    }
    assert forall|i: int, slot: int| 0 <= i < names.len() && 0 <= slot < SLOTS implies every(
        #[trigger] swatch_rules(names[i], Seq::empty(), palette[slot]),
        holds,
    ) by {
        lemma_swatch_values(names[i], Seq::empty(), palette[slot]);
    }
    lemma_every_export_rule(palette, accent, names, slots, holds);
}

/// The placeholders of an export are unambiguous: where no extra's name
/// holds a brace, every token is braced, so that two placeholders in a
/// template never overlap and none is matched in part by another.
pub proof fn lemma_export_tokens_are_braced(
    palette: Seq<Swatch>,
    accent: nat,
    names: Seq<Seq<char>>,
    slots: Seq<usize>,
)
    requires
        forall|i: int| 0 <= i < names.len() ==> no_braces(#[trigger] names[i]),
    ensures
        every(export_rules(palette, accent, names, slots), |rule: Rule| token_braced(rule)),
{
    let holds = |rule: Rule| token_braced(rule);
    let none = Seq::<char>::empty();
    assert(no_braces(none));
    assert(no_braces(accent_name()));
    assert forall|slot: int| 0 <= slot < SLOTS implies every(
        #[trigger] swatch_rules(Seq::empty(), decimal(slot as nat), palette[slot]),
        holds,
    ) by {
        lemma_numerals_hold_no_brace(slot as nat);
        lemma_swatch_tokens(Seq::empty(), decimal(slot as nat), palette[slot]);
    }
    assert forall|slot: int| 0 <= slot < SLOTS implies every(
        #[trigger] swatch_rules(accent_name(), Seq::empty(), palette[slot]),
        holds,
    ) by {
        lemma_swatch_tokens(accent_name(), Seq::empty(), palette[slot]);
    }
    assert forall|i: int, slot: int| 0 <= i < names.len() && 0 <= slot < SLOTS implies every(
        #[trigger] swatch_rules(names[i], Seq::empty(), palette[slot]),
        holds,
    ) by {
        lemma_swatch_tokens(names[i], Seq::empty(), palette[slot]);
    }
    lemma_every_export_rule(palette, accent, names, slots, holds);
}

/// Two placeholders of an export that occur in a template either lie apart
/// or are one placeholder at one place, where no extra's name holds a brace.
pub proof fn lemma_placeholders_lie_apart(
    formatter: Seq<char>,
    palette: Seq<Swatch>,
    accent: nat,
    names: Seq<Seq<char>>,
    slots: Seq<usize>,
    first: int,
    a: int,
    second: int,
    b: int,
)
    requires
        forall|i: int| 0 <= i < names.len() ==> no_braces(#[trigger] names[i]),
        0 <= a < export_rules(palette, accent, names, slots).len(),
        0 <= b < export_rules(palette, accent, names, slots).len(),
        occurs_at(formatter, first, export_rules(palette, accent, names, slots)[a].token),
        occurs_at(formatter, second, export_rules(palette, accent, names, slots)[b].token),
        first <= second < first + export_rules(palette, accent, names, slots)[a].token.len(),
    ensures
        first == second,
        export_rules(palette, accent, names, slots)[a].token == export_rules(
            palette,
            accent,
            names,
            slots,
        )[b].token,
{
    let rules = export_rules(palette, accent, names, slots);
    lemma_export_tokens_are_braced(palette, accent, names, slots);
    assert(token_braced(rules[a]));
    assert(token_braced(rules[b]));
    lemma_braced_tokens_lie_apart(formatter, first, rules[a].token, second, rules[b].token);
}

/// The extras that a theme holds for an exporter take precedence: the export
/// renders with them, whatever the exporter declares by default.  Where the
/// theme holds none for it, the export renders with the exporter's own.
pub proof fn lemma_theme_extras_take_precedence(
    exporter: Exporter,
    palette: Seq<Swatch>,
    accent: nat,
    book: Map<Seq<char>, NameMap<usize>>,
)
    ensures
        book.contains_key(exporter.name@) ==> exporter.exported(palette, accent, book)
            == rendered(
            exporter.formatter@,
            palette,
            accent,
            book[exporter.name@].names(),
            book[exporter.name@].values(),
        ),
        !book.contains_key(exporter.name@) && exporter.extras is Some ==> exporter.exported(
            palette,
            accent,
            book,
        ) == rendered(
            exporter.formatter@,
            palette,
            accent,
            exporter.extras->0.names(),
            exporter.extras->0.values(),
        ),
        !book.contains_key(exporter.name@) && exporter.extras is None ==> exporter.exported(
            palette,
            accent,
            book,
        ) == rendered(exporter.formatter@, palette, accent, Seq::empty(), Seq::empty()),
{
}

/// Rendering is complete: where every opening brace of the template starts a
/// placeholder of the export, and the fractions hold no opening brace, the
/// rendered text holds none, and so no placeholder of the export occurs in
/// it.
pub proof fn lemma_render_complete(
    formatter: Seq<char>,
    palette: Seq<Swatch>,
    accent: nat,
    names: Seq<Seq<char>>,
    slots: Seq<usize>,
)
    requires
        fractions_brace_free(palette),
        forall|i: int|
            0 <= i < formatter.len() && formatter[i] == '{' ==> #[trigger] first_match(
                formatter,
                i,
                export_rules(palette, accent, names, slots),
            ) is Some,
    ensures
        brace_free(rendered(formatter, palette, accent, names, slots)),
        forall|j: int, k: int|
            0 <= k < export_rules(palette, accent, names, slots).len() ==> !#[trigger] occurs_at(
                rendered(formatter, palette, accent, names, slots),
                j,
                export_rules(palette, accent, names, slots)[k].token,
            ),
{
    let rules = export_rules(palette, accent, names, slots);
    let out = rendered(formatter, palette, accent, names, slots);
    lemma_export_values_hold_no_brace(palette, accent, names, slots);
    assert forall|k: int| 0 <= k < rules.len() implies brace_free(#[trigger] rules[k].value) by {
        assert(value_brace_free(rules[k]));
    }
    lemma_substitution_complete(formatter, rules);
    lemma_export_tokens_open_with_a_brace(palette, accent, names, slots);
    assert forall|j: int, k: int| 0 <= k < rules.len() implies !#[trigger] occurs_at(
        out,
        j,
        rules[k].token,
    ) by {
        assert(token_opens(rules[k]));
    }
}

/// Whether the token of a rule opens with a brace.
pub open spec fn token_opens(rule: Rule) -> bool {
    rule.token.len() > 0 && rule.token[0] == '{'
}

/// Every token of an export opens with a brace, whatever the names of the
/// extras.
pub proof fn lemma_export_tokens_open_with_a_brace(
    palette: Seq<Swatch>,
    accent: nat,
    names: Seq<Seq<char>>,
    slots: Seq<usize>,
)
    ensures
        every(export_rules(palette, accent, names, slots), |rule: Rule| token_opens(rule)),
{
    let holds = |rule: Rule| token_opens(rule);
    assert forall|before: Seq<char>, after: Seq<char>, sw: Swatch| #[trigger]
        every(swatch_rules(before, after, sw), holds) by {
        let rules = swatch_rules(before, after, sw);
        assert forall|k: int| 0 <= k < rules.len() implies token_opens(#[trigger] rules[k]) by {}
    }
    lemma_every_export_rule(palette, accent, names, slots, holds);
}

/// A template in which no placeholder of the export occurs is rendered as
/// it stands: text in braces that is no placeholder is not an error.
pub proof fn lemma_render_keeps_unknown(
    formatter: Seq<char>,
    palette: Seq<Swatch>,
    accent: nat,
    names: Seq<Seq<char>>,
    slots: Seq<usize>,
)
    requires
        forall|i: int, k: int|
            0 <= i < formatter.len() && 0 <= k < export_rules(
                palette,
                accent,
                names,
                slots,
            ).len() ==> !#[trigger] occurs_at(
                formatter,
                i,
                export_rules(palette, accent, names, slots)[k].token,
            ),
    ensures
        rendered(formatter, palette, accent, names, slots) == formatter,
{
    lemma_unmatched_text_is_kept(formatter, 0, export_rules(palette, accent, names, slots));
    assert(formatter.skip(0) =~= formatter);
}

/// An accent that is no slot, and an extra bound to an index that is no
/// slot, make no placeholder.
pub proof fn lemma_invalid_bindings_make_no_rule(
    palette: Seq<Swatch>,
    accent: nat,
    names: Seq<Seq<char>>,
    slots: Seq<usize>,
)
    ensures
        accent >= SLOTS ==> accent_rules(palette, accent).len() == 0,
        names.len() > 0 && slots[names.len() - 1] >= SLOTS ==> extras_rules(
            palette,
            names,
            slots,
            names.len(),
        ) == extras_rules(palette, names, slots, (names.len() - 1) as nat),
{
}

} // verus!
