//! The grid as a mathematical object: a sequence of rows of cells, how it is
//! seeded, and what one step makes of it.

use vstd::prelude::*;
use crate::cell::{Cell, SCALE};
use crate::kinetics::{laplacian_of, reacted, RATE_UNIT};

verus! {

/// Share of the half-width that the seeded square reaches from the centre,
/// in thousandths: 0.2.
pub const FILL_AMOUNT: i128 = 200;

/// A grid of cells, row by row.
pub type Field = Seq<Seq<Cell>>;

/// `field` has `height` rows of `width` cells each.
pub open spec fn rectangular(field: Field, height: nat, width: nat) -> bool {
    &&& field.len() == height
    &&& forall|row: int| 0 <= row < height ==> (#[trigger] field[row]).len() == width
}

/// Every concentration in `field` lies in `0.0..=1.0`.
pub open spec fn in_range(field: Field) -> bool {
    forall|row: int, col: int|
        0 <= row < field.len() && 0 <= col < field[row].len()
            ==> (#[trigger] field[row][col]).in_range()
}

/// The cell at `(row, col)` of a grid of `height` by `width` has all eight
/// neighbours.
pub open spec fn is_interior(height: int, width: int, row: int, col: int) -> bool {
    1 <= row < height - 1 && 1 <= col < width - 1
}

/// The cell at `(row, col)` lies on the outer edge of a grid of `height` by
/// `width`.
pub open spec fn is_border(height: int, width: int, row: int, col: int) -> bool {
    &&& 0 <= row < height
    &&& 0 <= col < width
    &&& !is_interior(height, width, row, col)
}

/// Two grids hold the same cells along their outer edge.
pub open spec fn same_border(first: Field, second: Field) -> bool {
    forall|row: int, col: int|
        is_border(first.len() as int, first[row].len() as int, row, col)
            ==> #[trigger] first[row][col] == second[row][col]
}

/// How far the seeded square reaches from the centre of a grid of the given
/// width: `FILL_AMOUNT` of the half-width, rounded down.
pub open spec fn seed_radius(width: nat) -> nat {
    (FILL_AMOUNT * (width / 2) / (RATE_UNIT as int)) as nat
}

/// The seeded square lies within a grid of `height` by `width`.
pub open spec fn seed_fits(height: nat, width: nat) -> bool {
    seed_radius(width) <= height / 2
}

/// `(row, col)` lies in the seeded square of a grid of `height` by `width`:
/// within `seed_radius(width)` before and strictly within it after the centre
/// `(height / 2, width / 2)`, in both directions.
pub open spec fn in_seed(height: nat, width: nat, row: int, col: int) -> bool {
    &&& height / 2 - seed_radius(width) <= row < height / 2 + seed_radius(width)
    &&& width / 2 - seed_radius(width) <= col < width / 2 + seed_radius(width)
}

/// `field` with `b` raised to `1.0` in its seeded square.
pub open spec fn seeded(field: Field, height: nat, width: nat) -> Field {
    Seq::new(
        field.len(),
        |row: int|
            Seq::new(
                field[row].len(),
                |col: int|
                    if in_seed(height, width, row, col) {
                        field[row][col].seeded()
                    } else {
                        field[row][col]
                    },
            ),
    )
}

/// A grid of `height` by `width` resting cells.
pub open spec fn resting_field(height: nat, width: nat) -> Field {
    Seq::new(height, |row: int| Seq::new(width, |col: int| Cell::resting()))
}

/// The grid that a simulation of `height` by `width` starts from.
pub open spec fn initial_field(height: nat, width: nat) -> Field {
    seeded(resting_field(height, width), height, width)
}

/// The Laplacian of species `a` at an interior cell.
pub open spec fn laplace_a_at(field: Field, row: int, col: int) -> int {
    laplacian_of(
        field[row][col].a as int,
        field[row - 1][col].a + field[row + 1][col].a + field[row][col + 1].a + field[row][col
            - 1].a,
        field[row - 1][col - 1].a + field[row + 1][col - 1].a + field[row + 1][col + 1].a
            + field[row - 1][col + 1].a,
    )
}

/// The Laplacian of species `b` at an interior cell.
pub open spec fn laplace_b_at(field: Field, row: int, col: int) -> int {
    laplacian_of(
        field[row][col].b as int,
        field[row - 1][col].b + field[row + 1][col].b + field[row][col + 1].b + field[row][col
            - 1].b,
        field[row - 1][col - 1].b + field[row + 1][col - 1].b + field[row + 1][col + 1].b
            + field[row - 1][col + 1].b,
    )
}

/// The cell at `(row, col)` after one step: an interior cell reacts with its
/// neighbourhood, a border cell stays as it is.
pub open spec fn stepped_cell(field: Field, row: int, col: int) -> Cell {
    if is_interior(field.len() as int, field[row].len() as int, row, col) {
        reacted(field[row][col], laplace_a_at(field, row, col), laplace_b_at(field, row, col))
    } else {
        field[row][col]
    }
}

/// The grid after one step. Every cell is computed from the grid before the
/// step.
pub open spec fn stepped(field: Field) -> Field {
    Seq::new(
        field.len(),
        |row: int| Seq::new(field[row].len(), |col: int| stepped_cell(field, row, col)),
    )
}

/// The grid after `steps` steps.
pub open spec fn after_steps(field: Field, steps: nat) -> Field
    decreases steps,
{
    if steps == 0 {
        field
    } else {
        stepped(after_steps(field, (steps - 1) as nat))
    }
}

/// The radius never exceeds the centre column, so the seeded square cannot
/// start left of the grid: whether it fits depends on the rows alone.
pub proof fn lemma_radius_within_half_width(width: nat)
    ensures
        seed_radius(width) <= width / 2,
{
}

/// A seeded square that fits lies within the grid in both directions.
pub proof fn lemma_seed_within(height: nat, width: nat, row: int, col: int)
    requires
        seed_fits(height, width),
        in_seed(height, width, row, col),
    ensures
        0 <= row < height,
        0 <= col < width,
{
}

/// The starting grid is rectangular and within range, and holds `b = 1.0`
/// exactly in the seeded square and `b = 0.0` elsewhere, with `a = 1.0`
/// throughout.
pub proof fn lemma_initial_field(height: nat, width: nat)
    ensures
        rectangular(initial_field(height, width), height, width),
        in_range(initial_field(height, width)),
        forall|row: int, col: int|
            0 <= row < height && 0 <= col < width
                ==> #[trigger] initial_field(height, width)[row][col] == (Cell {
                a: SCALE,
                b: if in_seed(height, width, row, col) {
                    SCALE
                } else {
                    0
                },
            }),
{
}

/// A step keeps the shape of the grid.
pub proof fn lemma_stepped_shape(field: Field, height: nat, width: nat)
    requires
        rectangular(field, height, width),
    ensures
        rectangular(stepped(field), height, width),
{
}

/// A step leaves every interior cell within `0.0..=1.0`, whatever the grid
/// held, and so keeps a grid within range.
pub proof fn lemma_stepped_in_range(field: Field)
    requires
        in_range(field),
    ensures
        in_range(stepped(field)),
{
    assert forall|row: int, col: int|
        0 <= row < stepped(field).len() && 0 <= col < stepped(field)[row].len() implies (
    #[trigger] stepped(field)[row][col]).in_range() by {
        assert(field[row][col].in_range());
    }
}

/// A step leaves the outer edge of the grid as it is.
pub proof fn lemma_stepped_border(field: Field, height: nat, width: nat, row: int, col: int)
    requires
        rectangular(field, height, width),
        is_border(height as int, width as int, row, col),
    ensures
        stepped(field)[row][col] == field[row][col],
{
}

/// Bounds hold at every step count: a grid that starts rectangular and
/// within `0.0..=1.0` is so after any number of steps.
pub proof fn lemma_after_steps_valid(field: Field, height: nat, width: nat, steps: nat)
    requires
        rectangular(field, height, width),
        in_range(field),
    ensures
        rectangular(after_steps(field, steps), height, width),
        in_range(after_steps(field, steps)),
    decreases steps,
{
    if steps > 0 {
        let before = after_steps(field, (steps - 1) as nat);
        lemma_after_steps_valid(field, height, width, (steps - 1) as nat);
        lemma_stepped_shape(before, height, width);
        lemma_stepped_in_range(before);
    }
}

/// The border is fixed: after any number of steps every cell on the outer
/// edge holds the value it started with.
pub proof fn lemma_after_steps_border(
    field: Field,
    height: nat,
    width: nat,
    steps: nat,
    row: int,
    col: int,
)
    requires
        rectangular(field, height, width),
        is_border(height as int, width as int, row, col),
    ensures
        after_steps(field, steps)[row][col] == field[row][col],
    decreases steps,
{
    if steps > 0 {
        let before = after_steps(field, (steps - 1) as nat);
        lemma_after_steps_border(field, height, width, (steps - 1) as nat, row, col);
        lemma_after_steps_shape(field, height, width, (steps - 1) as nat);
        lemma_stepped_border(before, height, width, row, col);
    }
}

/// From the start on: after any number of steps a simulation of `height` by
/// `width` still has that shape, every concentration in it lies in
/// `0.0..=1.0`, and every cell on its outer edge holds the value it was
/// seeded with.
pub proof fn lemma_from_start(height: nat, width: nat, steps: nat)
    ensures
        rectangular(after_steps(initial_field(height, width), steps), height, width),
        in_range(after_steps(initial_field(height, width), steps)),
        forall|row: int, col: int|
            is_border(height as int, width as int, row, col) ==> #[trigger] after_steps(
                initial_field(height, width),
                steps,
            )[row][col] == initial_field(height, width)[row][col],
{
    let start = initial_field(height, width);
    lemma_initial_field(height, width);
    lemma_after_steps_valid(start, height, width, steps);
    assert forall|row: int, col: int|
        is_border(height as int, width as int, row, col) implies #[trigger] after_steps(
        start,
        steps,
    )[row][col] == start[row][col] by {
        lemma_after_steps_border(start, height, width, steps, row, col);
    }
}

/// Any number of steps keeps the shape of the grid.
pub proof fn lemma_after_steps_shape(field: Field, height: nat, width: nat, steps: nat)
    requires
        rectangular(field, height, width),
    ensures
        rectangular(after_steps(field, steps), height, width),
    decreases steps,
{
    if steps > 0 {
        lemma_after_steps_shape(field, height, width, (steps - 1) as nat);
        lemma_stepped_shape(after_steps(field, (steps - 1) as nat), height, width);
    }
}

} // verus!
