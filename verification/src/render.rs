//! Turns an image into text, one line per band of blocks.
//!
//! Blocks are laid out from the top left corner. A strip at the right or
//! bottom edge that is too narrow for a whole block is left out, so every
//! cell stands for a full block.

use crate::bitmap::{Bitmap, Rgb};
use crate::cluster::Cluster;
use crate::error::ConvertError;
use crate::palette::{palette_char, pick_char_from_palette};
use crate::sampler::{
    get_brightness_of_cluster, get_colour_of_cluster, mean_brightness, mean_colour,
};
use colored::Colorize;
use vstd::prelude::*;
use vstd::string::*;

verus! {

/// The brightest level that a block can have.
pub const MAX_BRIGHTNESS: usize = 255;

/// How many whole blocks of the given side fit into a length.
pub open spec fn whole_blocks(length: nat, side: nat) -> nat
    recommends
        side > 0,
{
    length / side
}

/// The character for the block in the given column and row of blocks.
pub open spec fn ascii_cell(
    image: &Bitmap,
    w: nat,
    h: nat,
    palette: Seq<char>,
    column: int,
    row: int,
) -> char {
    palette_char(mean_brightness(image, column * w, row * h, w, h), MAX_BRIGHTNESS as nat, palette)
}

/// The characters of one row of blocks, from left to right.
pub open spec fn ascii_line(image: &Bitmap, w: nat, h: nat, palette: Seq<char>, row: int) -> Seq<
    char,
> {
    Seq::new(
        whole_blocks(image.width() as nat, w),
        |column: int| ascii_cell(image, w, h, palette, column, row),
    )
}

/// The rows of characters that an image gives, from top to bottom.
pub open spec fn ascii_lines(image: &Bitmap, w: nat, h: nat, palette: Seq<char>) -> Seq<Seq<char>> {
    Seq::new(
        whole_blocks(image.height() as nat, h),
        |row: int| ascii_line(image, w, h, palette, row),
    )
}

/// The colour of the block in the given column and row of blocks.
pub open spec fn colour_cell(image: &Bitmap, w: nat, h: nat, column: int, row: int) -> Rgb {
    mean_colour(image, column * w, row * h, w, h)
}

/// The colours of one row of blocks, from left to right.
pub open spec fn colour_line(image: &Bitmap, w: nat, h: nat, row: int) -> Seq<Rgb> {
    Seq::new(
        whole_blocks(image.width() as nat, w),
        |column: int| colour_cell(image, w, h, column, row),
    )
}

/// The lines one after another, each closed by a line break.
pub open spec fn join_lines(lines: Seq<Seq<char>>) -> Seq<char>
    decreases lines.len(),
{
    if lines.len() == 0 {
        Seq::empty()
    } else {
        join_lines(lines.drop_last()) + lines.last().push('\n')
    }
}

/// The characters of each string.
pub open spec fn texts_of(cells: Seq<String>) -> Seq<Seq<char>> {
    cells.map_values(|cell: String| cell@)
}

/// The text of a grid of painted cells: the cells of each row run together
/// into one line.
pub open spec fn painted_text(painted: Seq<Seq<Seq<char>>>) -> Seq<char> {
    join_lines(painted.map_values(|cells: Seq<Seq<char>>| cells.flatten()))
}

/// Whether `painted` holds `rows` rows of `columns` cells each.
pub open spec fn is_painted_grid(painted: Seq<Seq<Seq<char>>>, rows: nat, columns: nat) -> bool {
    &&& painted.len() == rows
    &&& forall|row: int| 0 <= row < rows ==> (#[trigger] painted[row]).len() == columns
}

/// Whether `text` is what `rows` rows of `columns` painted cells give, for
/// some way of painting the cells.
pub open spec fn is_painted_text(text: Seq<char>, rows: nat, columns: nat) -> bool {
    exists|painted: Seq<Seq<Seq<char>>>|
        is_painted_grid(painted, rows, columns) && text == #[trigger] painted_text(painted)
}

/// Joining one line more appends that line and a line break.
pub proof fn lemma_join_lines_push(lines: Seq<Seq<char>>, line: Seq<char>)
    ensures
        join_lines(lines.push(line)) == join_lines(lines) + line.push('\n'),
{
    assert(lines.push(line).drop_last() =~= lines);
}

/// The joined text holds every character of every line, and one line break
/// per line.
pub proof fn lemma_join_lines_len(lines: Seq<Seq<char>>, columns: nat)
    requires
        forall|row: int| 0 <= row < lines.len() ==> (#[trigger] lines[row]).len() == columns,
    ensures
        join_lines(lines).len() == lines.len() * (columns + 1),
    decreases lines.len(),
{
    if lines.len() > 0 {
        lemma_join_lines_len(lines.drop_last(), columns);
        assert(lines.len() * (columns + 1) == (lines.len() - 1) * (columns + 1) + (columns + 1))
            by (nonlinear_arith);
    } else {
        assert(0 * (columns + 1) == 0) by (nonlinear_arith);
    }
}

/// An image gives one line per whole block that fits into its height, and
/// each line holds one character per whole block that fits into its width.
/// The text as a whole has those characters and one line break per line.
pub proof fn lemma_ascii_dimensions(image: &Bitmap, w: nat, h: nat, palette: Seq<char>)
    requires
        w > 0,
        h > 0,
    ensures
        ({
            let lines = ascii_lines(image, w, h, palette);
            let rows = image.height() as nat / h;
            let columns = image.width() as nat / w;
            &&& lines.len() == rows
            &&& forall|row: int| 0 <= row < rows ==> (#[trigger] lines[row]).len() == columns
            &&& join_lines(lines).len() == rows * (columns + 1)
        }),
{
    lemma_join_lines_len(ascii_lines(image, w, h, palette), image.width() as nat / w);
}

/// A block whose index is below the number of whole blocks lies inside the
/// length.
pub proof fn lemma_block_fits(length: nat, side: nat, index: nat)
    requires
        side > 0,
        index < whole_blocks(length, side),
    ensures
        index * side + side <= length,
{
    let count = length / side;
    assert(count * side <= length) by (nonlinear_arith)
        requires
            count == length / side,
            side > 0,
    ;
    assert(index * side + side <= count * side) by (nonlinear_arith)
        requires
            index + 1 <= count,
            side > 0,
    ;
}

/// `String::push` appends one character to the end of the string.
pub assume_specification[ String::push ](text: &mut String, letter: char)
    ensures
        final(text)@ == old(text)@.push(letter),
;

/// The text on a background of the given colour, as the `Display` of
/// `colored::Colorize::on_truecolor` writes it.
///
/// What comes out depends on the colour settings that the process runs
/// under: escape codes for the exact colour, for the nearest of the sixteen
/// terminal colours, or none at all. So nothing is claimed of it.
#[verifier::external_body]
fn paint(text: &str, colour: Rgb) -> (cell: String) {
    format!("{}", text.on_truecolor(colour.r, colour.g, colour.b))
}

/// The characters of one row of blocks.
pub fn ascii_row(image: &Bitmap, cluster: &Cluster, palette: &String, row: u32) -> (line: Result<
    String,
    ConvertError,
>)
    requires
        0 < palette@.len() <= MAX_BRIGHTNESS,
        row < whole_blocks(image.height() as nat, cluster.height() as nat),
    ensures
        line matches Ok(text) && text@ == ascii_line(
            image,
            cluster.width() as nat,
            cluster.height() as nat,
            palette@,
            row as int,
        ),
{
    let w: u32 = cluster.width();
    let h: u32 = cluster.height();
    let columns: u32 = image.width() / w;
    proof {
        lemma_block_fits(image.height() as nat, h as nat, row as nat);
    }
    let y: u32 = row * h;
    let mut text = String::new();
    let mut column: u32 = 0;
    while column < columns
        invariant
            column <= columns,
            columns == whole_blocks(image.width() as nat, w as nat),
            w == cluster.width(),
            h == cluster.height(),
            w >= 1,
            h >= 1,
            y == row * h,
            y + h <= image.height(),
            0 < palette@.len() <= MAX_BRIGHTNESS,
            text@.len() == column,
            forall|c: int|
                0 <= c < column ==> text@[c] == ascii_cell(
                    image,
                    w as nat,
                    h as nat,
                    palette@,
                    c,
                    row as int,
                ),
        decreases columns - column,
    {
        proof {
            lemma_block_fits(image.width() as nat, w as nat, column as nat);
        }
        let x: u32 = column * w;
        let brightness: usize = get_brightness_of_cluster(image, x, y, w, h);
        let letter: char = match pick_char_from_palette(brightness, MAX_BRIGHTNESS, palette) {
            Ok(letter) => letter,
            Err(e) => { return Err(e); },
        };
        text.push(letter);
        column = column + 1;
    }
    assert(text@ =~= ascii_line(image, w as nat, h as nat, palette@, row as int));
    Ok(text)
}

/// The mean colours of one row of blocks.
pub fn colour_row(image: &Bitmap, cluster: &Cluster, row: u32) -> (colours: Vec<Rgb>)
    requires
        row < whole_blocks(image.height() as nat, cluster.height() as nat),
    ensures
        colours@ == colour_line(
            image,
            cluster.width() as nat,
            cluster.height() as nat,
            row as int,
        ),
{
    let w: u32 = cluster.width();
    let h: u32 = cluster.height();
    let columns: u32 = image.width() / w;
    proof {
        lemma_block_fits(image.height() as nat, h as nat, row as nat);
    }
    let y: u32 = row * h;
    let mut colours: Vec<Rgb> = Vec::new();
    let mut column: u32 = 0;
    while column < columns
        invariant
            column <= columns,
            columns == whole_blocks(image.width() as nat, w as nat),
            w == cluster.width(),
            h == cluster.height(),
            w >= 1,
            h >= 1,
            y == row * h,
            y + h <= image.height(),
            colours@.len() == column,
            forall|c: int|
                0 <= c < column ==> colours@[c] == colour_cell(
                    image,
                    w as nat,
                    h as nat,
                    c,
                    row as int,
                ),
        decreases columns - column,
    {
        proof {
            lemma_block_fits(image.width() as nat, w as nat, column as nat);
        }
        let x: u32 = column * w;
        colours.push(get_colour_of_cluster(image, x, y, w, h));
        column = column + 1;
    }
    assert(colours@ =~= colour_line(image, w as nat, h as nat, row as int));
    colours
}

/// Paints one blank cell for each colour: a space on that background.
pub fn paint_row(colours: &Vec<Rgb>) -> (cells: Vec<String>)
    ensures
        cells@.len() == colours@.len(),
{
    let mut cells: Vec<String> = Vec::new();
    let mut column: usize = 0;
    while column < colours.len()
        invariant
            column <= colours@.len(),
            cells@.len() == column,
        decreases colours@.len() - column,
    {
        cells.push(paint(" ", colours[column]));
        column = column + 1;
    }
    cells
}

/// Runs the cells of one row together, in order.
pub fn join_cells(cells: &Vec<String>) -> (line: String)
    ensures
        line@ == texts_of(cells@).flatten(),
{
    let mut line = String::new();
    let mut column: usize = 0;
    assert(texts_of(cells@).take(0) =~= Seq::<Seq<char>>::empty());
    while column < cells.len()
        invariant
            column <= cells@.len(),
            line@ == texts_of(cells@).take(column as int).flatten(),
        decreases cells@.len() - column,
    {
        proof {
            let texts = texts_of(cells@);
            assert(texts.take(column + 1) =~= texts.take(column as int).push(texts[column as int]));
            texts.take(column as int).lemma_flatten_push(texts[column as int]);
        }
        line.append(cells[column].as_str());
        column = column + 1;
    }
    assert(texts_of(cells@).take(column as int) =~= texts_of(cells@));
    line
}

/// Renders an image as text, one character cell per block of `cluster`
/// pixels.
///
/// Without `colour`, each cell is the palette character for the block's
/// mean brightness, and the text is exactly the lines of
/// [`ascii_lines`], each closed by a line break. With `colour`, each cell is
/// a blank painted in the block's mean colour; how a cell is written out is
/// up to the colour settings that the process runs under, so the text is
/// then known only to be the rows of such cells, each row closed by a line
/// break.
///
/// The palette is used without `colour` only, and must then hold between 1
/// and 255 characters.
pub fn to_ascii(image: &Bitmap, cluster: &Cluster, palette: &String, colour: bool) -> (rendered:
    Result<String, ConvertError>)
    requires
        !colour ==> 0 < palette@.len() <= MAX_BRIGHTNESS,
    ensures
        rendered is Ok,
        !colour ==> rendered->Ok_0@ == join_lines(
            ascii_lines(image, cluster.width() as nat, cluster.height() as nat, palette@),
        ),
        colour ==> is_painted_text(
            rendered->Ok_0@,
            whole_blocks(image.height() as nat, cluster.height() as nat),
            whole_blocks(image.width() as nat, cluster.width() as nat),
        ),
{
    let rows: u32 = image.height() / cluster.height();
    let ghost w = cluster.width() as nat;
    let ghost h = cluster.height() as nat;
    let ghost columns = whole_blocks(image.width() as nat, w);
    let mut text = String::new();
    let mut row: u32 = 0;
    if colour {
        let ghost mut painted: Seq<Seq<Seq<char>>> = Seq::empty();
        assert(painted.map_values(|cells: Seq<Seq<char>>| cells.flatten()) =~= Seq::<
            Seq<char>,
        >::empty());
        while row < rows
            invariant
                row <= rows,
                rows == whole_blocks(image.height() as nat, h),
                w == cluster.width(),
                h == cluster.height(),
                columns == whole_blocks(image.width() as nat, w),
                is_painted_grid(painted, row as nat, columns),
                text@ == painted_text(painted),
            decreases rows - row,
        {
            let colours = colour_row(image, cluster, row);
            let cells = paint_row(&colours);
            let line = join_cells(&cells);
            text.append(line.as_str());
            text.push('\n');
            proof {
                let lines = painted.map_values(|cells: Seq<Seq<char>>| cells.flatten());
                let grown = painted.push(texts_of(cells@));
                assert(grown.map_values(|cells: Seq<Seq<char>>| cells.flatten()) =~= lines.push(
                    line@,
                ));
                lemma_join_lines_push(lines, line@);
                assert(text@ =~= painted_text(grown));
                painted = grown;
            }
            row = row + 1;
        }
        Ok(text)
    } else {
        let ghost lines = ascii_lines(image, w, h, palette@);
        assert(lines.take(0) =~= Seq::<Seq<char>>::empty());
        while row < rows
            invariant
                row <= rows,
                rows == whole_blocks(image.height() as nat, h),
                w == cluster.width(),
                h == cluster.height(),
                0 < palette@.len() <= MAX_BRIGHTNESS,
                lines == ascii_lines(image, w, h, palette@),
                text@ == join_lines(lines.take(row as int)),
            decreases rows - row,
        {
            let line = match ascii_row(image, cluster, palette, row) {
                Ok(line) => line,
                Err(e) => { return Err(e); },
            };
            text.append(line.as_str());
            text.push('\n');
            proof {
                assert(lines.take(row + 1) =~= lines.take(row as int).push(lines[row as int]));
                lemma_join_lines_push(lines.take(row as int), lines[row as int]);
            }
            row = row + 1;
        }
        assert(lines.take(row as int) =~= lines);
        Ok(text)
    }
}

} // verus!
