use collurgy::layout::{layout, slot_recipe, Base, BaseColors, Mix, Recipe, HUES, HUE_STEP};
use collurgy::palette::SLOTS;

#[test]
fn layout_has_sixteen_slots() {
    assert_eq!(layout().len(), 16);
    assert_eq!(SLOTS, 16);
    assert_eq!(HUES, 6);
    assert_eq!(HUE_STEP, 60);
}

#[test]
fn ends_are_background_and_foreground() {
    let plan = layout();
    assert_eq!(plan[0], Recipe::Plain { base: Base::Background });
    assert_eq!(plan[15], Recipe::Plain { base: Base::Foreground });
}

#[test]
fn slots_seven_and_eight_are_blends() {
    let plan = layout();
    assert_eq!(plan[8], Recipe::Blend { near: Base::Background, far: Base::Foreground });
    assert_eq!(plan[7], Recipe::Blend { near: Base::Foreground, far: Base::Background });
}

#[test]
fn hue_rotations_follow_ansi_order() {
    let plan = layout();
    let order = [1usize, 3, 2, 6, 4, 5];
    for (k, slot) in order.iter().enumerate() {
        assert_eq!(plan[*slot], Recipe::Rotation { base: Base::Spectrum, steps: k as u8 });
        assert_eq!(
            plan[*slot + 8],
            Recipe::Rotation { base: Base::SpectrumBright, steps: k as u8 }
        );
    }
}

#[test]
fn hue_offsets_are_the_multiples_of_sixty() {
    let plan = layout();
    let mut normal: Vec<u16> = (1..=6).map(|slot| plan[slot].hue_degrees()).collect();
    let mut bright: Vec<u16> = (9..=14).map(|slot| plan[slot].hue_degrees()).collect();
    normal.sort();
    bright.sort();
    assert_eq!(normal, vec![0, 60, 120, 180, 240, 300]);
    assert_eq!(bright, vec![0, 60, 120, 180, 240, 300]);
}

#[test]
fn yellow_is_one_step_and_cyan_three() {
    assert_eq!(slot_recipe(3).unwrap().hue_degrees(), 60);
    assert_eq!(slot_recipe(6).unwrap().hue_degrees(), 180);
    assert_eq!(slot_recipe(1).unwrap().hue_degrees(), 0);
    assert_eq!(slot_recipe(2).unwrap().hue_degrees(), 120);
    assert_eq!(slot_recipe(4).unwrap().hue_degrees(), 240);
    assert_eq!(slot_recipe(5).unwrap().hue_degrees(), 300);
}

#[test]
fn plain_and_blend_do_not_turn_the_hue() {
    assert_eq!(slot_recipe(0).unwrap().hue_degrees(), 0);
    assert_eq!(slot_recipe(7).unwrap().hue_degrees(), 0);
    assert_eq!(slot_recipe(8).unwrap().hue_degrees(), 0);
    assert_eq!(slot_recipe(15).unwrap().hue_degrees(), 0);
}

#[test]
fn slot_recipe_agrees_with_layout() {
    let plan = layout();
    for slot in 0..16 {
        assert_eq!(slot_recipe(slot), Some(plan[slot]));
    }
}

#[test]
fn an_index_past_the_palette_has_no_recipe() {
    assert_eq!(slot_recipe(16), None);
    assert_eq!(slot_recipe(usize::MAX), None);
}

fn named() -> BaseColors<&'static str> {
    BaseColors { foreground: "fg", background: "bg", spectrum: "sp", spectrum_bright: "sb" }
}

#[test]
fn base_colours_by_name() {
    let bases = named();
    assert_eq!(bases.get(Base::Foreground), "fg");
    assert_eq!(bases.get(Base::Background), "bg");
    assert_eq!(bases.get(Base::Spectrum), "sp");
    assert_eq!(bases.get(Base::SpectrumBright), "sb");
}

#[test]
fn recipes_are_filled_in() {
    let bases = named();
    assert_eq!(bases.mix(Recipe::Plain { base: Base::Spectrum }), Mix::Plain { color: "sp" });
    assert_eq!(
        bases.mix(Recipe::Blend { near: Base::Foreground, far: Base::SpectrumBright }),
        Mix::Blend { near: "fg", far: "sb" }
    );
    assert_eq!(
        bases.mix(Recipe::Rotation { base: Base::Background, steps: 4 }),
        Mix::Rotation { color: "bg", steps: 4 }
    );
}

#[test]
fn the_batch_of_sixteen_slots() {
    let batch = named().compute();
    let rot = |color, steps| Mix::Rotation { color, steps };
    assert_eq!(
        batch,
        vec![
            Mix::Plain { color: "bg" },
            rot("sp", 0),
            rot("sp", 2),
            rot("sp", 1),
            rot("sp", 4),
            rot("sp", 5),
            rot("sp", 3),
            Mix::Blend { near: "fg", far: "bg" },
            Mix::Blend { near: "bg", far: "fg" },
            rot("sb", 0),
            rot("sb", 2),
            rot("sb", 1),
            rot("sb", 4),
            rot("sb", 5),
            rot("sb", 3),
            Mix::Plain { color: "fg" },
        ]
    );
}

#[test]
fn the_batch_follows_the_layout() {
    let bases = BaseColors { foreground: 1u8, background: 2, spectrum: 3, spectrum_bright: 4 };
    let batch = bases.compute();
    let plan = layout();
    assert_eq!(batch.len(), 16);
    for slot in 0..16 {
        assert_eq!(batch[slot], bases.mix(plan[slot]));
    }
}
