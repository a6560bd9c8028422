//! Maps a brightness to a character of an ordered palette.
//!
//! The brightness range is cut into buckets of equal size, one per palette
//! character, from the first character upwards. What is left over at the top
//! of the range, beyond the last bucket, maps to a space.

use crate::error::ConvertError;
use vstd::prelude::*;
use vstd::string::*;

verus! {

/// The characters used where the caller has no palette of its own, from
/// sparse to dense.
pub open spec fn default_palette_chars() -> Seq<char> {
    seq![' ', '.', ':', '-', '=', '+', '*', '#', '%', '@']
}

/// How many brightness levels share one palette character.
pub open spec fn bucket_size(max_index: nat, palette_len: nat) -> nat
    recommends
        palette_len > 0,
{
    max_index / palette_len
}

/// The position in the palette that a brightness falls on; it may lie past
/// the palette's end.
pub open spec fn palette_index(index: nat, max_index: nat, palette_len: nat) -> nat
    recommends
        0 < palette_len <= max_index,
{
    index / bucket_size(max_index, palette_len)
}

/// The character that stands for a brightness: the palette character at
/// [`palette_index`], or a space where that lies past the palette's end.
pub open spec fn palette_char(index: nat, max_index: nat, palette: Seq<char>) -> char
    recommends
        0 < palette.len() <= max_index,
{
    let position = palette_index(index, max_index, palette.len());
    if position < palette.len() {
        palette[position as int]
    } else {
        ' '
    }
}

/// A palette of at most `max_index` characters has buckets of at least one
/// level.
pub proof fn lemma_bucket_size_positive(max_index: nat, palette_len: nat)
    requires
        0 < palette_len <= max_index,
    ensures
        bucket_size(max_index, palette_len) >= 1,
{
    assert(max_index / palette_len >= 1) by (nonlinear_arith)
        requires
            0 < palette_len <= max_index,
    ;
}

/// A brighter input never falls on an earlier palette position.
pub proof fn lemma_palette_index_monotonic(
    darker: nat,
    brighter: nat,
    max_index: nat,
    palette_len: nat,
)
    requires
        0 < palette_len <= max_index,
        darker <= brighter,
    ensures
        palette_index(darker, max_index, palette_len) <= palette_index(
            brighter,
            max_index,
            palette_len,
        ),
{
    lemma_bucket_size_positive(max_index, palette_len);
    let bucket = bucket_size(max_index, palette_len);
    assert(darker / bucket <= brighter / bucket) by (nonlinear_arith)
        requires
            bucket >= 1,
            darker <= brighter,
    ;
}

/// With a palette of one character, every brightness below the maximum maps
/// to that character. The maximum itself falls past the single bucket and
/// maps to a space.
pub proof fn lemma_single_character_palette(index: nat, max_index: nat, palette: Seq<char>)
    requires
        palette.len() == 1,
        index <= max_index,
        max_index >= 1,
    ensures
        index < max_index ==> palette_char(index, max_index, palette) == palette[0],
        index == max_index ==> palette_char(index, max_index, palette) == ' ',
{
    assert(max_index / 1 == max_index);
    if index < max_index {
        assert(index / max_index == 0) by (nonlinear_arith)
            requires
                0 <= index < max_index,
        ;
    } else {
        assert(index / max_index == 1) by (nonlinear_arith)
            requires
                index == max_index,
                max_index >= 1,
        ;
    }
}

/// With the default palette and a maximum of 255, each character covers 25
/// levels: brightness 0 maps to the first character, a space, the levels
/// from 225 to 249 map to the last, `@`, and the six levels above map to a
/// space.
pub proof fn lemma_default_palette(index: nat)
    requires
        index <= 255,
    ensures
        bucket_size(255, default_palette_chars().len()) == 25,
        index < 250 ==> palette_char(index, 255, default_palette_chars())
            == default_palette_chars()[index as int / 25],
        index == 0 ==> palette_char(index, 255, default_palette_chars()) == ' ',
        225 <= index < 250 ==> palette_char(index, 255, default_palette_chars()) == '@',
        250 <= index ==> palette_char(index, 255, default_palette_chars()) == ' ',
{
    let palette = default_palette_chars();
    assert(palette.len() == 10);
    assert(palette[0] == ' ');
    assert(palette[9] == '@');
}

/// The built-in palette: `" .:-=+*#%@"`.
pub fn default_palette() -> (palette: String)
    ensures
        palette@ == default_palette_chars(),
{
    proof {
        reveal_strlit(" .:-=+*#%@");
    }
    let palette = " .:-=+*#%@".to_string();
    assert(palette@ =~= default_palette_chars());
    palette
}

/// Picks the palette character for brightness `index` out of `max_index`.
///
/// A brightness above `max_index` is reported as
/// [`ConvertError::InvalidBrightnessIndex`]. Otherwise the palette must hold
/// at least one character and at most `max_index`.
pub fn pick_char_from_palette(index: usize, max_index: usize, palette: &String) -> (picked: Result<
    char,
    ConvertError,
>)
    requires
        index <= max_index ==> 0 < palette@.len() <= max_index,
    ensures
        index > max_index ==> picked == Err::<char, ConvertError>(
            ConvertError::InvalidBrightnessIndex,
        ),
        index <= max_index ==> picked == Ok::<char, ConvertError>(
            palette_char(index as nat, max_index as nat, palette@),
        ),
{
    if index > max_index {
        Err(ConvertError::InvalidBrightnessIndex)
    } else {
        let palette_length: usize = palette.as_str().unicode_len();
        proof {
            lemma_bucket_size_positive(max_index as nat, palette_length as nat);
        }
        let index_in_palette: usize = max_index / palette_length;
        let position: usize = index / index_in_palette;
        if position < palette_length {
            Ok(palette.as_str().get_char(position))
        } else {
            Ok(' ')
        }
    }
}

} // verus!
