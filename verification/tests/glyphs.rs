use reaction_diffusion::glyph::{DARK_MAX, FULL_MAX, LIGHT_MAX, MEDIUM_MAX};
use reaction_diffusion::DisplayCharacters;

#[test]
fn each_shade_has_its_character() {
    assert_eq!(DisplayCharacters::FULL.value(), '█');
    assert_eq!(DisplayCharacters::DARK.value(), '▓');
    assert_eq!(DisplayCharacters::MEDIUM.value(), '▒');
    assert_eq!(DisplayCharacters::LIGHT.value(), '░');
    assert_eq!(DisplayCharacters::EMPTY.value(), ' ');
}

#[test]
fn shade_characters_are_distinct() {
    let shades = [
        DisplayCharacters::FULL,
        DisplayCharacters::DARK,
        DisplayCharacters::MEDIUM,
        DisplayCharacters::LIGHT,
        DisplayCharacters::EMPTY,
    ];
    for (i, first) in shades.iter().enumerate() {
        for (j, second) in shades.iter().enumerate() {
            assert_eq!(first.value() == second.value(), i == j);
        }
    }
}

#[test]
fn bucket_limits_are_the_documented_ones() {
    assert_eq!(FULL_MAX, 50);
    assert_eq!(DARK_MAX, 101);
    assert_eq!(MEDIUM_MAX, 152);
    assert_eq!(LIGHT_MAX, 203);
}

#[test]
fn bucket_edges_fall_on_the_right_side() {
    assert_eq!(DisplayCharacters::from_contrast(0), DisplayCharacters::FULL);
    assert_eq!(DisplayCharacters::from_contrast(1), DisplayCharacters::FULL);
    assert_eq!(DisplayCharacters::from_contrast(50), DisplayCharacters::FULL);
    assert_eq!(DisplayCharacters::from_contrast(51), DisplayCharacters::DARK);
    assert_eq!(DisplayCharacters::from_contrast(101), DisplayCharacters::DARK);
    assert_eq!(DisplayCharacters::from_contrast(102), DisplayCharacters::MEDIUM);
    assert_eq!(DisplayCharacters::from_contrast(152), DisplayCharacters::MEDIUM);
    assert_eq!(DisplayCharacters::from_contrast(153), DisplayCharacters::LIGHT);
    assert_eq!(DisplayCharacters::from_contrast(203), DisplayCharacters::LIGHT);
    assert_eq!(DisplayCharacters::from_contrast(204), DisplayCharacters::EMPTY);
    assert_eq!(DisplayCharacters::from_contrast(255), DisplayCharacters::EMPTY);
}

fn in_bucket(shade: DisplayCharacters, contrast: u8) -> bool {
    match shade {
        DisplayCharacters::FULL => contrast <= 50,
        DisplayCharacters::DARK => (51..=101).contains(&contrast),
        DisplayCharacters::MEDIUM => (102..=152).contains(&contrast),
        DisplayCharacters::LIGHT => (153..=203).contains(&contrast),
        DisplayCharacters::EMPTY => contrast >= 204,
    }
}

#[test]
fn every_contrast_has_exactly_one_shade() {
    let shades = [
        DisplayCharacters::FULL,
        DisplayCharacters::DARK,
        DisplayCharacters::MEDIUM,
        DisplayCharacters::LIGHT,
        DisplayCharacters::EMPTY,
    ];
    for contrast in 0..=255u8 {
        let holding: Vec<DisplayCharacters> =
            shades.iter().copied().filter(|shade| in_bucket(*shade, contrast)).collect();
        assert_eq!(holding.len(), 1, "contrast {contrast}");
        assert_eq!(DisplayCharacters::from_contrast(contrast), holding[0]);
    }
}

#[test]
fn shades_darken_as_contrast_falls() {
    let mut last = DisplayCharacters::from_contrast(0);
    let mut changes = 0;
    for contrast in 1..=255u8 {
        let shade = DisplayCharacters::from_contrast(contrast);
        if shade != last {
            changes += 1;
            last = shade;
        }
    }
    assert_eq!(changes, 4);
    assert_eq!(last, DisplayCharacters::EMPTY);
}
