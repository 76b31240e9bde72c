//! Exporters: named templates that render a palette into text.
//!
//! For each slot `n` the placeholders `{Rn}`, `{Gn}`, `{Bn}` stand for the
//! 8-bit channels in decimal, `{FRn}`, `{FGn}`, `{FBn}` for the channels as
//! the caller wrote them out as fractions, and `{HEXn}` for the six-digit
//! upper-case code.  `{ACCR}` to `{ACCHEX}` stand for the accent slot, and
//! `{nameR}` to `{nameHEX}` for the slot bound to an extra of that name.  An
//! accent or a binding that is no slot makes no placeholder.

use crate::hex::{hex_chars, hex_code};
use crate::name_map::NameMap;
use crate::palette::{Palette, Swatch, SLOTS};
use crate::template::{rules_of, substitute, substituted, Placeholder, Rule};
use crate::text::{chars_of, decimal, push_all, push_decimal, string_of};
use std::path::PathBuf;
use vstd::prelude::*;

verus! {

/// Number of placeholders that one colour gives.
pub const CHANNELS: usize = 7;

/// The channel letters of the seven placeholders of a colour.
pub open spec fn tags() -> Seq<Seq<char>> {
    seq![
        seq!['R'],
        seq!['G'],
        seq!['B'],
        seq!['F', 'R'],
        seq!['F', 'G'],
        seq!['F', 'B'],
        seq!['H', 'E', 'X'],
    ]
}

/// What the seven placeholders of a colour are replaced by, in the order of
/// `tags`.
pub open spec fn channel_values(sw: Swatch) -> Seq<Seq<char>> {
    seq![
        decimal(sw.irgb[0] as nat),
        decimal(sw.irgb[1] as nat),
        decimal(sw.irgb[2] as nat),
        sw.frgb[0]@,
        sw.frgb[1]@,
        sw.frgb[2]@,
        hex_code(sw.irgb[0], sw.irgb[1], sw.irgb[2]),
    ]
}

/// A placeholder: the channel letters between what goes before and after
/// them, in braces.
pub open spec fn token(before: Seq<char>, tag: Seq<char>, after: Seq<char>) -> Seq<char> {
    seq!['{'] + before + tag + after + seq!['}']
}

/// The seven rules of one colour.
pub open spec fn swatch_rules(before: Seq<char>, after: Seq<char>, sw: Swatch) -> Seq<Rule> {
    Seq::new(
        CHANNELS as nat,
        |t: int| Rule { token: token(before, tags()[t], after), value: channel_values(sw)[t] },
    )
}

/// The rules of the slots below `upto`, in slot order.
pub open spec fn slot_rules(palette: Seq<Swatch>, upto: nat) -> Seq<Rule>
    decreases upto,
{
    if upto == 0 {
        Seq::empty()
    } else {
        slot_rules(palette, (upto - 1) as nat) + swatch_rules(
            Seq::empty(),
            decimal((upto - 1) as nat),
            palette[upto - 1],
        )
    }
}

/// The name under which the accent slot is known.
pub open spec fn accent_name() -> Seq<char> {
    seq!['A', 'C', 'C']
}

/// The rules of the accent; none where `accent` is no slot.
pub open spec fn accent_rules(palette: Seq<Swatch>, accent: nat) -> Seq<Rule> {
    if accent < SLOTS {
        swatch_rules(accent_name(), Seq::empty(), palette[accent as int])
    } else {
        Seq::empty()
    }
}

/// The rules of the first `upto` extras, in their order; an extra bound to
/// an index that is no slot gives none.
pub open spec fn extras_rules(
    palette: Seq<Swatch>,
    names: Seq<Seq<char>>,
    slots: Seq<usize>,
    upto: nat,
) -> Seq<Rule>
    decreases upto,
{
    if upto == 0 {
        Seq::empty()
    } else {
        let rest = extras_rules(palette, names, slots, (upto - 1) as nat);
        if slots[upto - 1] < SLOTS {
            rest + swatch_rules(names[upto - 1], Seq::empty(), palette[slots[upto - 1] as int])
        } else {
            rest
        }
    }
}

/// All rules of an export: the sixteen slots, the accent, the extras.
pub open spec fn export_rules(
    palette: Seq<Swatch>,
    accent: nat,
    names: Seq<Seq<char>>,
    slots: Seq<usize>,
) -> Seq<Rule> {
    slot_rules(palette, SLOTS as nat) + accent_rules(palette, accent) + extras_rules(
        palette,
        names,
        slots,
        names.len(),
    )
}

/// The template with the placeholders of the palette, the accent and the
/// extras substituted.
pub open spec fn rendered(
    formatter: Seq<char>,
    palette: Seq<Swatch>,
    accent: nat,
    names: Seq<Seq<char>>,
    slots: Seq<usize>,
) -> Seq<char> {
    substituted(formatter, export_rules(palette, accent, names, slots))
}

fn tag_chars(t: usize) -> (tag: Vec<char>)
    requires
        t < CHANNELS,
    ensures
        tag@ == tags()[t as int],
{
    let mut tag: Vec<char> = Vec::new();
    if t == 0 {
        tag.push('R');
    } else if t == 1 {
        tag.push('G');
    } else if t == 2 {
        tag.push('B');
    } else if t == 3 {
        tag.push('F');
        tag.push('R');
    } else if t == 4 {
        tag.push('F');
        tag.push('G');
    } else if t == 5 {
        tag.push('F');
        tag.push('B');
    } else {
        tag.push('H');
        tag.push('E');
        tag.push('X');
    }
    assert(tag@ =~= tags()[t as int]);
    tag
}

fn channel_value(sw: &Swatch, t: usize) -> (value: Vec<char>)
    requires
        t < CHANNELS,
    ensures
        value@ == channel_values(*sw)[t as int],
{
    if t < 3 {
        let mut value: Vec<char> = Vec::new();
        let channel: usize = sw.irgb[t] as usize;
        push_decimal(&mut value, channel);
        assert(value@ =~= decimal(sw.irgb[t as int] as nat));
        value
    } else if t < 6 {
        chars_of(sw.frgb[t - 3].as_str())
    } else {
        hex_chars(sw.irgb)
    }
}

/// Appends the seven rules of one colour to `table`.
fn push_swatch_rules(
    table: &mut Vec<Placeholder>,
    before: &Vec<char>,
    after: &Vec<char>,
    sw: &Swatch,
)
    ensures
        rules_of(final(table)@) == rules_of(old(table)@) + swatch_rules(before@, after@, *sw),
{
    let ghost start = rules_of(table@);
    let ghost want = swatch_rules(before@, after@, *sw);
    let mut t: usize = 0;
    while t < CHANNELS
        invariant
            t <= CHANNELS,
            want == swatch_rules(before@, after@, *sw),
            rules_of(table@) == start + want.take(t as int),
        decreases CHANNELS - t,
    {
        let mut key: Vec<char> = Vec::new();
        key.push('{');
        push_all(&mut key, before);
        let tag = tag_chars(t);
        push_all(&mut key, &tag);
        push_all(&mut key, after);
        key.push('}');
        assert(key@ =~= token(before@, tags()[t as int], after@));
        let value = channel_value(sw, t);
        let ghost before_push = table@;
        table.push(Placeholder { token: key, value });
        proof {
            assert(table@.last()@ == want[t as int]);
            assert(rules_of(table@) =~= rules_of(before_push).push(want[t as int]));
            assert(start + want.take(t + 1) =~= (start + want.take(t as int)).push(
                want[t as int],
            ));
        }
        t += 1;
    }
    assert(want.take(CHANNELS as int) =~= want);
}

/// The table of all rules of an export.
fn export_table(palette: &Palette, accent: usize, extras: &NameMap<usize>) -> (table: Vec<
    Placeholder,
>)
    ensures
        rules_of(table@) == export_rules(
            palette@,
            accent as nat,
            extras.names(),
            extras.values(),
        ),
{
    let none: Vec<char> = Vec::new();
    let mut table: Vec<Placeholder> = Vec::new();
    assert(rules_of(table@) =~= slot_rules(palette@, 0));
    let mut slot: usize = 0;
    while slot < SLOTS
        invariant
            slot <= SLOTS,
            none@ == Seq::<char>::empty(),
            rules_of(table@) == slot_rules(palette@, slot as nat),
        decreases SLOTS - slot,
    {
        let mut number: Vec<char> = Vec::new();
        push_decimal(&mut number, slot);
        assert(number@ =~= decimal(slot as nat));
        match palette.swatch(slot) {
            Some(sw) => push_swatch_rules(&mut table, &none, &number, sw),
            None => {},
        }
        slot += 1;
    }
    let ghost slots_part = rules_of(table@);
    match palette.swatch(accent) {
        Some(sw) => {
            let mut name: Vec<char> = Vec::new();
            name.push('A');
            name.push('C');
            name.push('C');
            assert(name@ =~= accent_name());
            push_swatch_rules(&mut table, &name, &none, sw);
        },
        None => {
            assert(rules_of(table@) + Seq::<Rule>::empty() =~= rules_of(table@));
        },
    }
    let ghost fixed_part = rules_of(table@);
    assert(fixed_part == slots_part + accent_rules(palette@, accent as nat));
    let count = extras.len();
    assert(fixed_part + extras_rules(palette@, extras.names(), extras.values(), 0) =~= fixed_part);
    let mut i: usize = 0;
    while i < count
        invariant
            i <= count,
            count == extras.names().len(),
            count == extras.values().len(),
            none@ == Seq::<char>::empty(),
            rules_of(table@) == fixed_part + extras_rules(
                palette@,
                extras.names(),
                extras.values(),
                i as nat,
            ),
        decreases count - i,
    {
        let ghost so_far = extras_rules(palette@, extras.names(), extras.values(), i as nat);
        match (extras.name_chars_at(i), extras.value_at(i)) {
            (Some(name), Some(bound)) => {
                match palette.swatch(*bound) {
                    Some(sw) => {
                        push_swatch_rules(&mut table, name, &none, sw);
                        assert((fixed_part + so_far) + swatch_rules(name@, none@, *sw)
                            =~= fixed_part + (so_far + swatch_rules(name@, none@, *sw)));
                    },
                    None => {},
                }
            },
            _ => {},
        }
        i += 1;
    }
    assert(rules_of(table@) =~= export_rules(
        palette@,
        accent as nat,
        extras.names(),
        extras.values(),
    ));
    table
}

/// Renders `formatter` for a palette, an accent slot and the extras of one
/// exporter.
pub fn render(formatter: &str, palette: &Palette, accent: usize, extras: &NameMap<usize>) -> (text:
    String)
    ensures
        text@ == rendered(formatter@, palette@, accent as nat, extras.names(), extras.values()),
{
    let table = export_table(palette, accent, extras);
    let template = chars_of(formatter);
    let out = substitute(&template, &table);
    string_of(&out)
}

/// `std::path::PathBuf`, which the library only carries along.
#[verifier::external_type_specification]
#[verifier::external_body]
pub struct ExPathBuf(PathBuf);

/// A named template, with a hint where its output belongs and the extras it
/// declares by default.
pub struct Exporter {
    pub name: String,
    pub formatter: String,
    pub path: Option<PathBuf>,
    pub extras: Option<NameMap<usize>>,
}

/// The extras that an export under `name` uses: those that the theme holds
/// for that exporter; where it holds none, the exporter's own; else none.
pub open spec fn effective_extras(
    name: Seq<char>,
    defaults: Option<NameMap<usize>>,
    book: Map<Seq<char>, NameMap<usize>>,
) -> Option<NameMap<usize>> {
    if book.contains_key(name) {
        Some(book[name])
    } else {
        defaults
    }
}

impl Exporter {
    /// What `export` returns.
    pub open spec fn exported(
        &self,
        palette: Seq<Swatch>,
        accent: nat,
        book: Map<Seq<char>, NameMap<usize>>,
    ) -> Seq<char> {
        match effective_extras(self.name@, self.extras, book) {
            Some(extras) => rendered(
                self.formatter@,
                palette,
                accent,
                extras.names(),
                extras.values(),
            ),
            None => rendered(self.formatter@, palette, accent, Seq::empty(), Seq::empty()),
        }
    }

    /// Renders this exporter's template for a palette, an accent slot and a
    /// theme's extras, which map exporter names to bindings.
    pub fn export(&self, palette: &Palette, accent: usize, book: &NameMap<NameMap<usize>>) -> (text:
        String)
        ensures
            text@ == self.exported(palette@, accent as nat, book@),
    {
        match book.get(self.name.as_str()) {
            Some(extras) => render(self.formatter.as_str(), palette, accent, extras),
            None => match &self.extras {
                Some(extras) => render(self.formatter.as_str(), palette, accent, extras),
                None => {
                    let extras: NameMap<usize> = NameMap::new();
                    render(self.formatter.as_str(), palette, accent, &extras)
                },
            },
        }
    }
}

} // verus!
