//! Drawing a grid: one shade per cell by its contrast, the rows one after
//! another, each closed by a line break.

use vstd::prelude::*;
use crate::cell::Cell;
use crate::field::Field;
use crate::glyph::DisplayCharacters;
use crate::grid::{lemma_rows_of, rows_of};

verus! {

/// `String::push` appends the character to the end of the string and leaves
/// what the string held before in place.
pub assume_specification[ String::push ](text: &mut String, ch: char)
    ensures
        final(text)@ == old(text)@.push(ch),
;

/// The shade a cell is drawn with: that of its contrast.
pub open spec fn shade_of(cell: Cell) -> DisplayCharacters {
    DisplayCharacters::of_contrast(cell.contrast_level())
}

/// The characters that draw one row of cells.
pub open spec fn glyphs_of_row(row: Seq<Cell>) -> Seq<char> {
    Seq::new(row.len(), |col: int| shade_of(row[col]).glyph())
}

/// The characters that draw a grid, row by row.
pub open spec fn glyphs_of(field: Field) -> Seq<Seq<char>> {
    Seq::new(field.len(), |row: int| glyphs_of_row(field[row]))
}

/// The rows one after another, each followed by one line break.
pub open spec fn joined(rows: Seq<Seq<char>>) -> Seq<char>
    decreases rows.len(),
{
    if rows.len() == 0 {
        Seq::empty()
    } else {
        joined(rows.drop_last()) + rows.last().push('\n')
    }
}

/// The block of text that shows a grid.
pub open spec fn text_of(field: Field) -> Seq<char> {
    joined(glyphs_of(field))
}

/// The shade a cell is drawn with.
pub fn shade(cell: &Cell) -> (shade: DisplayCharacters)
    ensures
        shade == shade_of(*cell),
{
    DisplayCharacters::from_contrast(cell.contrast())
}

/// Draws every cell: the array of characters, of the same shape as `cells`.
pub fn frame_of(cells: &Vec<Vec<Cell>>) -> (frame: Vec<Vec<char>>)
    ensures
        rows_of(frame) == glyphs_of(rows_of(*cells)),
{
    let mut frame: Vec<Vec<char>> = Vec::new();
    let mut row: usize = 0;
    while row < cells.len()
        invariant
            row <= cells@.len(),
            frame@.len() == row,
            forall|r: int| 0 <= r < row ==> (#[trigger] frame@[r])@ == glyphs_of_row(cells@[r]@),
        decreases cells@.len() - row,
    {
        let mut line: Vec<char> = Vec::new();
        let mut col: usize = 0;
        while col < cells[row].len()
            invariant
                row < cells@.len(),
                col <= cells@[row as int]@.len(),
                line@.len() == col,
                forall|c: int|
                    0 <= c < col ==> #[trigger] line@[c] == shade_of(
                        cells@[row as int]@[c],
                    ).glyph(),
            decreases cells@[row as int]@.len() - col,
        {
            line.push(shade(&cells[row][col]).value());
            col += 1;
        }
        assert(line@ =~= glyphs_of_row(cells@[row as int]@));
        frame.push(line);
        row += 1;
    }
    proof {
        lemma_rows_of(frame);
        lemma_rows_of(*cells);
        assert(rows_of(frame) =~= glyphs_of(rows_of(*cells)));
    }
    frame
}

/// Writes an array of characters as one block of text: each row's
/// characters in order, and one line break after every row.
pub fn serialize(frame: &Vec<Vec<char>>) -> (text: String)
    ensures
        text@ == joined(rows_of(*frame)),
{
    let ghost rows = rows_of(*frame);
    let mut text = String::new();
    let mut row: usize = 0;
    proof {
        lemma_rows_of(*frame);
    }
    while row < frame.len()
        invariant
            row <= frame@.len(),
            rows == rows_of(*frame),
            rows.len() == frame@.len(),
            text@ == joined(rows.take(row as int)),
        decreases frame@.len() - row,
    {
        let ghost before = text@;
        let mut col: usize = 0;
        while col < frame[row].len()
            invariant
                row < frame@.len(),
                col <= frame@[row as int]@.len(),
                text@ == before + frame@[row as int]@.take(col as int),
            decreases frame@[row as int]@.len() - col,
        {
            text.push(frame[row][col]);
            proof {
                let line = frame@[row as int]@;
                assert(line.take(col + 1) =~= line.take(col as int).push(line[col as int]));
            }
            col += 1;
        }
        text.push('\n');
        proof {
            let line = frame@[row as int]@;
            lemma_rows_of(*frame);
            assert(line.take(line.len() as int) =~= line);
            assert(rows.take(row + 1).drop_last() =~= rows.take(row as int));
            assert(rows.take(row + 1).last() == line);
            assert(text@ =~= joined(rows.take(row as int)) + line.push('\n'));
        }
        row += 1;
    }
    proof {
        assert(rows.take(rows.len() as int) =~= rows);
    }
    text
}

/// Draws a grid as one block of text.
pub fn render_cells(cells: &Vec<Vec<Cell>>) -> (text: String)
    ensures
        text@ == text_of(rows_of(*cells)),
{
    let frame = frame_of(cells);
    serialize(&frame)
}

/// With rows of `width` characters each, the text holds `width + 1`
/// characters for every row.
pub proof fn lemma_joined_len(rows: Seq<Seq<char>>, width: nat)
    requires
        forall|r: int| 0 <= r < rows.len() ==> (#[trigger] rows[r]).len() == width,
    ensures
        joined(rows).len() == rows.len() * (width + 1),
    decreases rows.len(),
{
    if rows.len() > 0 {
        let head = rows.drop_last();
        lemma_joined_len(head, width);
        assert(rows.len() * (width + 1) == head.len() * (width + 1) + (width + 1))
            by (nonlinear_arith)
            requires
                rows.len() == head.len() + 1,
        ;
    }
}

/// The rows lie in the text at fixed places: with rows of `width` characters
/// each, row `r` starts at `r * (width + 1)`, its characters follow in order,
/// and its line break comes right after them.
pub proof fn lemma_joined_at(rows: Seq<Seq<char>>, width: nat, r: int, c: int)
    requires
        forall|i: int| 0 <= i < rows.len() ==> (#[trigger] rows[i]).len() == width,
        0 <= r < rows.len(),
        0 <= c <= width,
    ensures
        0 <= r * (width + 1) + c < joined(rows).len(),
        joined(rows)[r * (width + 1) + c] == if c < width {
            rows[r][c]
        } else {
            '\n'
        },
    decreases rows.len(),
{
    let head = rows.drop_last();
    let stride = width + 1;
    lemma_joined_len(head, width);
    lemma_joined_len(rows, width);
    if r == head.len() {
        assert(rows.last() == rows[r]);
    } else {
        lemma_joined_at(head, width, r, c);
        assert(head[r] == rows[r]);
    }
}

} // verus!
