use img2a::{default_palette, pick_char_from_palette, ConvertError};

#[test]
fn default_palette_runs_from_sparse_to_dense() {
    assert_eq!(default_palette(), " .:-=+*#%@");
}

#[test]
fn darkest_level_is_the_first_character() {
    let palette = default_palette();
    assert_eq!(pick_char_from_palette(0, 255, &palette), Ok(' '));
    assert_eq!(pick_char_from_palette(24, 255, &palette), Ok(' '));
    assert_eq!(pick_char_from_palette(25, 255, &palette), Ok('.'));
}

#[test]
fn last_bucket_is_the_last_character() {
    let palette = default_palette();
    assert_eq!(pick_char_from_palette(224, 255, &palette), Ok('%'));
    assert_eq!(pick_char_from_palette(225, 255, &palette), Ok('@'));
    assert_eq!(pick_char_from_palette(249, 255, &palette), Ok('@'));
}

#[test]
fn levels_past_the_last_bucket_are_blank() {
    let palette = default_palette();
    for level in 250..=255 {
        assert_eq!(pick_char_from_palette(level, 255, &palette), Ok(' '));
    }
}

#[test]
fn every_bucket_has_its_character() {
    let palette = default_palette();
    let expected = [' ', '.', ':', '-', '=', '+', '*', '#', '%', '@'];
    for level in 0..250usize {
        assert_eq!(pick_char_from_palette(level, 255, &palette), Ok(expected[level / 25]));
    }
}

#[test]
fn brighter_is_never_sparser() {
    let palette = default_palette();
    let order = " .:-=+*#%@";
    let mut last = 0;
    for level in 0..250 {
        let picked = pick_char_from_palette(level, 255, &palette).unwrap();
        let position = order.find(picked).unwrap();
        assert!(position >= last);
        last = position;
    }
    assert_eq!(last, 9);
}

#[test]
fn single_character_palette() {
    let palette = String::from("#");
    for level in 0..255 {
        assert_eq!(pick_char_from_palette(level, 255, &palette), Ok('#'));
    }
    assert_eq!(pick_char_from_palette(255, 255, &palette), Ok(' '));
}

#[test]
fn brightness_above_the_maximum_is_refused() {
    let palette = default_palette();
    assert_eq!(
        pick_char_from_palette(256, 255, &palette),
        Err(ConvertError::InvalidBrightnessIndex)
    );
    assert_eq!(
        pick_char_from_palette(11, 10, &palette),
        Err(ConvertError::InvalidBrightnessIndex)
    );
}

#[test]
fn other_maximum() {
    let palette = String::from("abc");
    // buckets of 3 levels
    assert_eq!(pick_char_from_palette(0, 10, &palette), Ok('a'));
    assert_eq!(pick_char_from_palette(2, 10, &palette), Ok('a'));
    assert_eq!(pick_char_from_palette(3, 10, &palette), Ok('b'));
    assert_eq!(pick_char_from_palette(8, 10, &palette), Ok('c'));
    assert_eq!(pick_char_from_palette(9, 10, &palette), Ok(' '));
    assert_eq!(pick_char_from_palette(10, 10, &palette), Ok(' '));
}

#[test]
fn palette_is_counted_in_characters() {
    let palette = String::from("░▒▓█");
    // buckets of 63 levels
    assert_eq!(pick_char_from_palette(0, 255, &palette), Ok('░'));
    assert_eq!(pick_char_from_palette(63, 255, &palette), Ok('▒'));
    assert_eq!(pick_char_from_palette(251, 255, &palette), Ok('█'));
    assert_eq!(pick_char_from_palette(252, 255, &palette), Ok(' '));
}

#[test]
fn messages() {
    assert_eq!(ConvertError::TerminalUnavailable.message(), "Can't get terminal size");
    assert_eq!(
        ConvertError::InvalidTerminalSize.message(),
        "The terminal has no columns or no rows"
    );
    assert_eq!(
        ConvertError::InvalidBrightnessIndex.message(),
        "The index is higher than the max index"
    );
}
