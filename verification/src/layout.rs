//! The fixed layout of the sixteen palette slots.
//!
//! A theme has four base colours: foreground, background, and the two
//! spectrum colours.  Each slot is one of them as it is, a blend of
//! foreground and background, or a spectrum colour with its hue turned by a
//! multiple of sixty degrees.  The layout says which, slot by slot; the
//! arithmetic on the coordinates is the caller's.

use crate::palette::SLOTS;
use vstd::prelude::*;

verus! {

/// Number of hue rotations of each spectrum colour.
pub const HUES: usize = 6;

/// Degrees between two neighbouring hue rotations.
pub const HUE_STEP: u16 = 60;

/// One of a theme's four base colours.
#[derive(Clone, Copy, PartialEq, Eq, Debug, Structural)]
pub enum Base {
    Foreground,
    Background,
    Spectrum,
    SpectrumBright,
}

/// How the perceptual coordinates of one slot derive from the base colours.
#[derive(Clone, Copy, PartialEq, Eq, Debug, Structural)]
pub enum Recipe {
    /// The base colour as it is.
    Plain { base: Base },
    /// On each axis `(2 * near + far) / 3`: `near`, a third of the way
    /// towards `far`.
    Blend { near: Base, far: Base },
    /// Lightness and chroma of `base`; its hue plus `steps` times sixty
    /// degrees.
    Rotation { base: Base, steps: u8 },
}

/// The slots of the six hue rotations, in rotation order: red, yellow,
/// green, cyan, blue, magenta.
pub open spec fn hue_order() -> Seq<nat> {
    seq![1, 3, 2, 6, 4, 5]
}

/// The recipe of each slot.
pub open spec fn recipe_of(slot: nat) -> Recipe {
    if slot == 0 {
        Recipe::Plain { base: Base::Background }
    } else if slot == 15 {
        Recipe::Plain { base: Base::Foreground }
    } else if slot == 8 {
        Recipe::Blend { near: Base::Background, far: Base::Foreground }
    } else if slot == 7 {
        Recipe::Blend { near: Base::Foreground, far: Base::Background }
    } else if slot < 8 {
        Recipe::Rotation { base: Base::Spectrum, steps: hue_order().index_of(slot) as u8 }
    } else {
        Recipe::Rotation {
            base: Base::SpectrumBright,
            steps: hue_order().index_of((slot - 8) as nat) as u8,
        }
    }
}

/// How many thirds of `base` go into each axis of a recipe's colour.
pub open spec fn thirds(recipe: Recipe, base: Base) -> nat {
    match recipe {
        Recipe::Plain { base: b } => if b == base { 3 } else { 0 },
        Recipe::Blend { near, far } => (if near == base { 2nat } else { 0 }) + (if far == base { 1nat } else { 0 }),
        Recipe::Rotation { base: b, .. } => if b == base { 3 } else { 0 },
    }
}

/// The degrees that a recipe adds to the hue of its base colour.
pub open spec fn hue_offset(recipe: Recipe) -> nat {
    match recipe {
        Recipe::Rotation { steps, .. } => (60 * steps) as nat,
        _ => 0,
    }
}

/// Each of the slots one to six is the slot of exactly one rotation.
pub proof fn lemma_hue_order_is_a_permutation()
    ensures
        hue_order().len() == 6,
        hue_order().no_duplicates(),
        forall|slot: nat| 1 <= slot <= 6 <==> hue_order().contains(slot),
        forall|k: int| 0 <= k < 6 ==> hue_order().index_of(#[trigger] hue_order()[k]) == k,
{
    let order = hue_order();
    assert(order[0] == 1 && order[1] == 3 && order[2] == 2 && order[3] == 6 && order[4] == 4
        && order[5] == 5);
    assert forall|slot: nat| 1 <= slot <= 6 implies order.contains(slot) by {
        if slot == 1 {
            assert(order[0] == slot);
        } else if slot == 3 {
            assert(order[1] == slot);
        } else if slot == 2 {
            assert(order[2] == slot);
        } else if slot == 6 {
            assert(order[3] == slot);
        } else if slot == 4 {
            assert(order[4] == slot);
        } else {
            assert(order[5] == slot);
        }
    }
    assert forall|k: int| 0 <= k < 6 implies order.index_of(#[trigger] order[k]) == k by {
        let found = order.index_of(order[k]);
        assert(0 <= found < 6 && order[found] == order[k]);
    }
}

/// Slot 0 is the background as it is, slot 15 the foreground as it is.
pub proof fn lemma_ends_are_the_ground_colours()
    ensures
        recipe_of(0) == (Recipe::Plain { base: Base::Background }),
        recipe_of(15) == (Recipe::Plain { base: Base::Foreground }),
{
}

/// Slot 8 is two thirds background and one third foreground; slot 7 is two
/// thirds foreground and one third background.  Neither has any part of a
/// spectrum colour, and neither turns the hue.
pub proof fn lemma_blends()
    ensures
        recipe_of(8) == (Recipe::Blend { near: Base::Background, far: Base::Foreground }),
        recipe_of(7) == (Recipe::Blend { near: Base::Foreground, far: Base::Background }),
        thirds(recipe_of(8), Base::Background) == 2,
        thirds(recipe_of(8), Base::Foreground) == 1,
        thirds(recipe_of(7), Base::Foreground) == 2,
        thirds(recipe_of(7), Base::Background) == 1,
        forall|slot: nat|
            slot == 7 || slot == 8 ==> {
                &&& thirds(#[trigger] recipe_of(slot), Base::Spectrum) == 0
                &&& thirds(recipe_of(slot), Base::SpectrumBright) == 0
                &&& hue_offset(recipe_of(slot)) == 0
            },
{
}

/// The `k`-th rotation of the spectrum colour, by `60 * k` degrees, stands
/// in slot `hue_order()[k]`, and that of the bright spectrum colour eight
/// slots further.  The six offsets are the multiples of sixty below 360, each
/// once.
pub proof fn lemma_hue_rotations()
    ensures
        forall|k: int|
            0 <= k < 6 ==> #[trigger] recipe_of(hue_order()[k]) == (Recipe::Rotation {
                base: Base::Spectrum,
                steps: k as u8,
            }),
        forall|k: int|
            0 <= k < 6 ==> #[trigger] recipe_of(hue_order()[k] + 8) == (Recipe::Rotation {
                base: Base::SpectrumBright,
                steps: k as u8,
            }),
        forall|k: int| 0 <= k < 6 ==> hue_offset(#[trigger] recipe_of(hue_order()[k])) == 60 * k,
        forall|k: int|
            0 <= k < 6 ==> hue_offset(#[trigger] recipe_of(hue_order()[k] + 8)) == 60 * k,
        forall|slot: nat|
            1 <= slot <= 6 || 9 <= slot <= 14 ==> hue_offset(#[trigger] recipe_of(slot)) < 360,
        forall|a: nat, b: nat|
            1 <= a <= 6 && 1 <= b <= 6 && a != b ==> hue_offset(#[trigger] recipe_of(a))
                != hue_offset(#[trigger] recipe_of(b)),
        forall|a: nat, b: nat|
            9 <= a <= 14 && 9 <= b <= 14 && a != b ==> hue_offset(#[trigger] recipe_of(a))
                != hue_offset(#[trigger] recipe_of(b)),
{
    lemma_hue_order_is_a_permutation();
    let order = hue_order();
    assert(order[0] == 1 && order[1] == 3 && order[2] == 2 && order[3] == 6 && order[4] == 4
        && order[5] == 5);
    assert forall|slot: nat| 1 <= slot <= 6 implies 0 <= #[trigger] order.index_of(slot) < 6
        && order[order.index_of(slot)] == slot by {
        assert(order.contains(slot));
    }
    assert forall|slot: nat| 1 <= slot <= 6 || 9 <= slot <= 14 implies hue_offset(
        #[trigger] recipe_of(slot),
    ) < 360 by {
        if slot <= 6 {
            assert(0 <= order.index_of(slot) < 6);
        } else {
            assert(0 <= order.index_of((slot - 8) as nat) < 6);
        }
    }
    assert forall|a: nat, b: nat| 1 <= a <= 6 && 1 <= b <= 6 && a != b implies hue_offset(
        #[trigger] recipe_of(a),
    ) != hue_offset(#[trigger] recipe_of(b)) by {
        assert(0 <= order.index_of(a) < 6 && order[order.index_of(a)] == a);
        assert(0 <= order.index_of(b) < 6 && order[order.index_of(b)] == b);
    }
    assert forall|a: nat, b: nat| 9 <= a <= 14 && 9 <= b <= 14 && a != b implies hue_offset(
        #[trigger] recipe_of(a),
    ) != hue_offset(#[trigger] recipe_of(b)) by {
        let x = (a - 8) as nat;
        let y = (b - 8) as nat;
        assert(0 <= order.index_of(x) < 6 && order[order.index_of(x)] == x);
        assert(0 <= order.index_of(y) < 6 && order[order.index_of(y)] == y);
    }
}

impl Recipe {
    /// The degrees that this recipe adds to the hue of its base colour.
    pub fn hue_degrees(&self) -> (degrees: u16)
        ensures
            degrees == hue_offset(*self),
    {
        match self {
            Recipe::Rotation { steps, .. } => {
                let steps: u16 = *steps as u16;
                HUE_STEP * steps
            },
            _ => 0,
        }
    }
}

/// The recipes of all sixteen slots, in slot order.
pub fn layout() -> (plan: Vec<Recipe>)
    ensures
        plan@.len() == SLOTS,
        forall|slot: int| 0 <= slot < SLOTS ==> plan@[slot] == recipe_of(slot as nat),
{
    let order: [usize; 6] = [1, 3, 2, 6, 4, 5];
    let ground = Recipe::Plain { base: Base::Background };
    let mut plan: Vec<Recipe> = Vec::new();
    while plan.len() < SLOTS
        invariant
            plan@.len() <= SLOTS,
        decreases SLOTS - plan@.len(),
    {
        plan.push(ground);
    }
    plan.set(0, Recipe::Plain { base: Base::Background });
    plan.set(8, Recipe::Blend { near: Base::Background, far: Base::Foreground });
    plan.set(7, Recipe::Blend { near: Base::Foreground, far: Base::Background });
    plan.set(15, Recipe::Plain { base: Base::Foreground });
    proof {
        lemma_hue_order_is_a_permutation();
    }
    let mut k: usize = 0;
    while k < HUES
        invariant
            k <= HUES,
            plan@.len() == SLOTS,
            order@ == seq![1usize, 3, 2, 6, 4, 5],
            plan@[0] == recipe_of(0),
            plan@[7] == recipe_of(7),
            plan@[8] == recipe_of(8),
            plan@[15] == recipe_of(15),
            forall|j: int|
                0 <= j < k ==> {
                    &&& plan@[hue_order()[j] as int] == #[trigger] recipe_of(hue_order()[j])
                    &&& plan@[(hue_order()[j] + 8) as int] == recipe_of(hue_order()[j] + 8)
                },
        decreases HUES - k,
    {
        proof {
            lemma_hue_order_is_a_permutation();
            lemma_hue_rotations();
            assert(order@[k as int] == hue_order()[k as int]);
            assert forall|j: int| 0 <= j < k implies hue_order()[j] != hue_order()[k as int] by {}
        }
        let slot = order[k];
        let steps: u8 = k as u8;
        plan.set(slot, Recipe::Rotation { base: Base::Spectrum, steps });
        plan.set(slot + 8, Recipe::Rotation { base: Base::SpectrumBright, steps });
        k += 1;
    }
    proof {
        lemma_hue_order_is_a_permutation();
        assert forall|slot: int| 0 <= slot < SLOTS implies plan@[slot] == recipe_of(
            slot as nat,
        ) by {
            if 1 <= slot <= 6 {
                let j = hue_order().index_of(slot as nat);
                assert(hue_order().contains(slot as nat));
                assert(0 <= j < 6 && hue_order()[j] == slot);
                assert(plan@[hue_order()[j] as int] == recipe_of(hue_order()[j]));
            } else if 9 <= slot <= 14 {
                let below = (slot - 8) as nat;
                let j = hue_order().index_of(below);
                assert(hue_order().contains(below));
                assert(0 <= j < 6 && hue_order()[j] == below);
                assert(plan@[hue_order()[j] as int] == recipe_of(hue_order()[j]));
            }
        }
    }
    plan
}

/// The recipe of one slot; none for an index that is no slot.
pub fn slot_recipe(slot: usize) -> (recipe: Option<Recipe>)
    ensures
        recipe == (if slot < SLOTS {
            Some(recipe_of(slot as nat))
        } else {
            None
        }),
{
    if slot < SLOTS {
        let plan = layout();
        Some(plan[slot])
    } else {
        None
    }
}

/// The four base colours of a theme, with coordinates in whatever form the
/// caller holds them.
pub struct BaseColors<C> {
    pub foreground: C,
    pub background: C,
    pub spectrum: C,
    pub spectrum_bright: C,
}

/// The recipe of a slot with the base colours filled in: what is left to do
/// is the arithmetic.
#[derive(Clone, Copy, PartialEq, Debug)]
pub enum Mix<C> {
    /// The colour as it is.
    Plain { color: C },
    /// On each axis `(2 * near + far) / 3`.
    Blend { near: C, far: C },
    /// Lightness and chroma of `color`; its hue plus `steps` times sixty
    /// degrees.
    Rotation { color: C, steps: u8 },
}

impl<C: Copy> BaseColors<C> {
    /// The colour that `base` names.
    pub open spec fn of(self, base: Base) -> C {
        match base {
            Base::Foreground => self.foreground,
            Base::Background => self.background,
            Base::Spectrum => self.spectrum,
            Base::SpectrumBright => self.spectrum_bright,
        }
    }

    /// A recipe with these colours filled in.
    pub open spec fn mix_of(self, recipe: Recipe) -> Mix<C> {
        match recipe {
            Recipe::Plain { base } => Mix::Plain { color: self.of(base) },
            Recipe::Blend { near, far } => Mix::Blend { near: self.of(near), far: self.of(far) },
            Recipe::Rotation { base, steps } => Mix::Rotation { color: self.of(base), steps },
        }
    }

    /// The colour that `base` names.
    pub fn get(&self, base: Base) -> (color: C)
        ensures
            color == self.of(base),
    {
        match base {
            Base::Foreground => self.foreground,
            Base::Background => self.background,
            Base::Spectrum => self.spectrum,
            Base::SpectrumBright => self.spectrum_bright,
        }
    }

    /// A recipe with these colours filled in.
    pub fn mix(&self, recipe: Recipe) -> (mix: Mix<C>)
        ensures
            mix == self.mix_of(recipe),
    {
        match recipe {
            Recipe::Plain { base } => Mix::Plain { color: self.get(base) },
            Recipe::Blend { near, far } => Mix::Blend { near: self.get(near), far: self.get(far) },
            Recipe::Rotation { base, steps } => Mix::Rotation { color: self.get(base), steps },
        }
    }

    /// The sixteen slots before conversion, in slot order: slot 0 is the
    /// background and slot 15 the foreground; slot 8 is the background a
    /// third of the way towards the foreground, slot 7 the foreground a
    /// third of the way towards the background; the six rotations of the
    /// spectrum colour stand in the slots that `hue_order` gives, those of
    /// the bright spectrum colour eight slots further.
    pub fn compute(&self) -> (batch: Vec<Mix<C>>)
        ensures
            batch@.len() == SLOTS,
            forall|slot: int|
                0 <= slot < SLOTS ==> batch@[slot] == self.mix_of(recipe_of(slot as nat)),
            batch@[0] == (Mix::Plain { color: self.background }),
            batch@[15] == (Mix::Plain { color: self.foreground }),
            batch@[8] == (Mix::Blend { near: self.background, far: self.foreground }),
            batch@[7] == (Mix::Blend { near: self.foreground, far: self.background }),
            forall|k: int|
                0 <= k < HUES ==> batch@[#[trigger] hue_order()[k] as int] == (Mix::Rotation {
                    color: self.spectrum,
                    steps: k as u8,
                }),
            forall|k: int|
                0 <= k < HUES ==> batch@[(#[trigger] hue_order()[k] + 8) as int]
                    == (Mix::Rotation { color: self.spectrum_bright, steps: k as u8 }),
    {
        let plan = layout();
        let mut batch: Vec<Mix<C>> = Vec::new();
        let mut slot: usize = 0;
        while slot < SLOTS
            invariant
                slot <= SLOTS,
                plan@.len() == SLOTS,
                batch@.len() == slot,
                forall|s: int| 0 <= s < SLOTS ==> plan@[s] == recipe_of(s as nat),
                forall|s: int| 0 <= s < slot ==> batch@[s] == self.mix_of(recipe_of(s as nat)),
            decreases SLOTS - slot,
        {
            batch.push(self.mix(plan[slot]));
            slot += 1;
        }
        proof {
            lemma_hue_order_is_a_permutation();
            lemma_hue_rotations();
            assert forall|k: int| 0 <= k < HUES implies batch@[#[trigger] hue_order()[k] as int]
                == (Mix::Rotation { color: self.spectrum, steps: k as u8 }) by {
                assert(hue_order().contains(hue_order()[k]));
                assert(recipe_of(hue_order()[k]) == (Recipe::Rotation {
                    base: Base::Spectrum,
                    steps: k as u8,
                }));
            }
            assert forall|k: int| 0 <= k < HUES implies batch@[(#[trigger] hue_order()[k]
                + 8) as int] == (Mix::Rotation { color: self.spectrum_bright, steps: k as u8 }) by {
                assert(hue_order().contains(hue_order()[k]));
                assert(recipe_of(hue_order()[k] + 8) == (Recipe::Rotation {
                    base: Base::SpectrumBright,
                    steps: k as u8,
                }));
            }
        }
        batch
    }
}

} // verus!
