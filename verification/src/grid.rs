//! The simulation: two buffers of cells, one shown and one written, and the
//! step that fills the second from the first and exchanges them.

use vstd::prelude::*;
use crate::cell::{Cell, SCALE};
use crate::field::{
    after_steps, in_range, initial_field, is_border, is_interior, laplace_a_at, laplace_b_at,
    rectangular, resting_field, same_border, seed_fits, seed_radius, seeded, stepped,
    stepped_cell, Field, FILL_AMOUNT,
};
use crate::kinetics::{laplacian, react, RATE_UNIT};
use crate::render::{frame_of, glyphs_of, render_cells, text_of};

verus! {

/// Why a simulation could not be made.
#[derive(Clone, Copy, Debug, PartialEq, Eq, Structural)]
pub enum ConstructionError {
    /// The grid has too few rows for its width: the seeded square would
    /// start above the first row.
    SeedOutOfBounds,
}

/// The rows of a buffer as sequences.
pub open spec fn rows_of<T>(cells: Vec<Vec<T>>) -> Seq<Seq<T>> {
    Seq::new(cells@.len(), |row: int| cells@[row]@)
}

/// Row `r` of `rows_of(cells)` is the view of row `r` of the buffer.
pub proof fn lemma_rows_of<T>(cells: Vec<Vec<T>>)
    ensures
        rows_of(cells).len() == cells@.len(),
        forall|r: int| 0 <= r < cells@.len() ==> rows_of(cells)[r] == (#[trigger] cells@[r])@,
{
}

/// `cells` holds `height` rows of `width` cells each.
spec fn shaped(cells: Vec<Vec<Cell>>, height: nat, width: nat) -> bool {
    &&& cells@.len() == height
    &&& forall|r: int| 0 <= r < height ==> (#[trigger] cells@[r])@.len() == width
}

/// `(r, c)` comes before `(row, col)` when the grid is walked row by row.
spec fn comes_before(r: int, c: int, row: int, col: int) -> bool {
    r < row || (r == row && c < col)
}

/// `next` holds the cell after one step of `shown` at every interior place
/// before `(row, col)`, and what `start` held at every other place.
spec fn stepped_before(
    next: Vec<Vec<Cell>>,
    start: Vec<Vec<Cell>>,
    shown: Field,
    row: int,
    col: int,
) -> bool {
    forall|r: int, c: int|
        0 <= r < shown.len() && 0 <= c < shown[r].len() ==> #[trigger] next@[r]@[c] == if
            comes_before(r, c, row, col)
            && is_interior(shown.len() as int, shown[r].len() as int, r, c) {
            stepped_cell(shown, r, c)
        } else {
            start@[r]@[c]
        }
}

/// A buffer of `height` rows of `width` resting cells.
fn filled(height: usize, width: usize) -> (cells: Vec<Vec<Cell>>)
    ensures
        rows_of(cells) == resting_field(height as nat, width as nat),
{
    let mut cells: Vec<Vec<Cell>> = Vec::new();
    let mut row: usize = 0;
    while row < height
        invariant
            row <= height,
            shaped(cells, row as nat, width as nat),
            forall|r: int, c: int|
                0 <= r < row && 0 <= c < width ==> #[trigger] cells@[r]@[c] == Cell::resting(),
        decreases height - row,
    {
        let mut line: Vec<Cell> = Vec::new();
        let mut col: usize = 0;
        while col < width
            invariant
                col <= width,
                line@.len() == col,
                forall|c: int| 0 <= c < col ==> #[trigger] line@[c] == Cell::resting(),
            decreases width - col,
        {
            line.push(Cell::default());
            col += 1;
        }
        cells.push(line);
        row += 1;
    }
    assert(rows_of(cells) =~~= resting_field(height as nat, width as nat));
    cells
}

/// Raises `b` to `1.0` in every cell of rows `first_row..last_row` and
/// columns `first_col..last_col`, and leaves every other value as it is.
fn seed_square(
    cells: &mut Vec<Vec<Cell>>,
    first_row: usize,
    last_row: usize,
    first_col: usize,
    last_col: usize,
    Ghost(height): Ghost<nat>,
    Ghost(width): Ghost<nat>,
)
    requires
        shaped(*old(cells), height, width),
        first_row <= last_row <= height,
        first_col <= last_col <= width,
    ensures
        shaped(*final(cells), height, width),
        forall|r: int, c: int|
            0 <= r < height && 0 <= c < width ==> #[trigger] final(cells)@[r]@[c] == if first_row
                <= r < last_row && first_col <= c < last_col {
                old(cells)@[r]@[c].seeded()
            } else {
                old(cells)@[r]@[c]
            },
{
    let mut row: usize = first_row;
    while row < last_row
        invariant
            first_row <= row <= last_row <= height,
            first_col <= last_col <= width,
            shaped(*cells, height, width),
            forall|r: int, c: int|
                0 <= r < height && 0 <= c < width ==> #[trigger] cells@[r]@[c] == if first_row <= r
                    < row && first_col <= c < last_col {
                    old(cells)@[r]@[c].seeded()
                } else {
                    old(cells)@[r]@[c]
                },
        decreases last_row - row,
    {
        let mut col: usize = first_col;
        while col < last_col
            invariant
                first_row <= row < last_row <= height,
                first_col <= col <= last_col <= width,
                shaped(*cells, height, width),
                forall|r: int, c: int|
                    0 <= r < height && 0 <= c < width ==> #[trigger] cells@[r]@[c] == if first_col
                        <= c < last_col && (first_row <= r < row || (r == row && c < col)) {
                        old(cells)@[r]@[c].seeded()
                    } else {
                        old(cells)@[r]@[c]
                    },
            decreases last_col - col,
        {
            cells[row][col].b = SCALE;
            col += 1;
        }
        row += 1;
    }
}

/// A Gray-Scott simulation on a grid of fixed size. Its view is the grid
/// that is shown.
#[derive(Debug)]
pub struct ReactionDiffusion {
    grid: Vec<Vec<Cell>>,
    next: Vec<Vec<Cell>>,
    height: usize,
    width: usize,
    center_height: usize,
    center_width: usize,
    radius: usize,
}

impl View for ReactionDiffusion {
    type V = Field;

    closed spec fn view(&self) -> Field {
        rows_of(self.grid)
    }
}

impl ReactionDiffusion {
    /// The grid in the buffer that is not shown, which the next step writes.
    pub closed spec fn next_grid(&self) -> Field {
        rows_of(self.next)
    }

    /// Number of rows.
    pub closed spec fn spec_height(&self) -> usize {
        self.height
    }

    /// Number of columns.
    pub closed spec fn spec_width(&self) -> usize {
        self.width
    }

    /// The stored centre and radius are those of the stored size.
    pub closed spec fn geometry_wf(&self) -> bool {
        &&& self.center_height == self.height / 2
        &&& self.center_width == self.width / 2
        &&& self.radius == seed_radius(self.width as nat)
    }

    /// Both buffers have the stated size and hold concentrations within
    /// `0.0..=1.0`, they agree along the outer edge, and the seeded square
    /// fits.
    pub open spec fn wf(&self) -> bool {
        &&& rectangular(self@, self.height() as nat, self.width() as nat)
        &&& rectangular(self.next_grid(), self.height() as nat, self.width() as nat)
        &&& in_range(self@)
        &&& in_range(self.next_grid())
        &&& same_border(self@, self.next_grid())
        &&& seed_fits(self.height() as nat, self.width() as nat)
        &&& self.geometry_wf()
    }

    /// Makes a simulation of `height` by `width` cells: both buffers filled
    /// with resting cells and then seeded. Fails when the seeded square would
    /// not fit, that is when `seed_radius(width)` exceeds `height / 2`.
    pub fn new(height: usize, width: usize) -> (made: Result<ReactionDiffusion, ConstructionError>)
        ensures
            made is Ok <==> seed_fits(height as nat, width as nat),
            made matches Ok(sim) ==> {
                &&& sim.wf()
                &&& sim.height() == height
                &&& sim.width() == width
                &&& sim@ == initial_field(height as nat, width as nat)
                &&& sim.next_grid() == sim@
            },
            made matches Err(error) ==> error == ConstructionError::SeedOutOfBounds,
    {
        let center_height: usize = height / 2;
        let center_width: usize = width / 2;
        let radius: usize = (FILL_AMOUNT * (center_width as i128) / RATE_UNIT) as usize;
        if radius > center_height {
            return Err(ConstructionError::SeedOutOfBounds);
        }
        let mut sim = ReactionDiffusion {
            grid: filled(height, width),
            next: filled(height, width),
            height,
            width,
            center_height,
            center_width,
            radius,
        };
        sim.init_start_grid();
        Ok(sim)
    }

    /// Number of rows.
    #[verifier::when_used_as_spec(spec_height)]
    pub fn height(&self) -> (rows: usize)
        ensures
            rows == self.spec_height(),
    {
        self.height
    }

    /// Number of columns.
    #[verifier::when_used_as_spec(spec_width)]
    pub fn width(&self) -> (cols: usize)
        ensures
            cols == self.spec_width(),
    {
        self.width
    }

    /// Row and column of the centre of the seeded square.
    pub fn center(&self) -> (at: (usize, usize))
        requires
            self.wf(),
        ensures
            at.0 == self.height() / 2,
            at.1 == self.width() / 2,
    {
        (self.center_height, self.center_width)
    }

    /// How far the seeded square reaches from the centre.
    pub fn radius(&self) -> (reach: usize)
        requires
            self.wf(),
        ensures
            reach == seed_radius(self.width() as nat),
    {
        self.radius
    }

    /// The cell shown at `(row, col)`, if the grid has such a cell.
    pub fn cell(&self, row: usize, col: usize) -> (found: Option<Cell>)
        requires
            self.wf(),
        ensures
            found == if row < self.height() && col < self.width() {
                Some(self@[row as int][col as int])
            } else {
                None
            },
    {
        proof {
            lemma_rows_of(self.grid);
        }
        if row < self.height && col < self.width {
            Some(self.grid[row][col])
        } else {
            None
        }
    }

    /// The cell at `(row, col)` of the buffer that is not shown, if the grid
    /// has such a cell.
    pub fn next_cell(&self, row: usize, col: usize) -> (found: Option<Cell>)
        requires
            self.wf(),
        ensures
            found == if row < self.height() && col < self.width() {
                Some(self.next_grid()[row as int][col as int])
            } else {
                None
            },
    {
        proof {
            lemma_rows_of(self.next);
        }
        if row < self.height && col < self.width {
            Some(self.next[row][col])
        } else {
            None
        }
    }

    /// Seeds both buffers: raises `b` to `1.0` in the square around the
    /// centre and leaves every other value as it is.
    pub fn init_start_grid(&mut self)
        requires
            old(self).wf(),
        ensures
            final(self).wf(),
            final(self).height() == old(self).height(),
            final(self).width() == old(self).width(),
            final(self)@ == seeded(old(self)@, old(self).height() as nat, old(self).width() as nat),
            final(self).next_grid() == seeded(
                old(self).next_grid(),
                old(self).height() as nat,
                old(self).width() as nat,
            ),
    {
        let ghost height = self.height as nat;
        let ghost width = self.width as nat;
        proof {
            lemma_rows_of(self.grid);
            lemma_rows_of(self.next);
        }
        let first_row: usize = self.center_height - self.radius;
        let last_row: usize = self.center_height + self.radius;
        let first_col: usize = self.center_width - self.radius;
        let last_col: usize = self.center_width + self.radius;
        seed_square(
            &mut self.grid,
            first_row,
            last_row,
            first_col,
            last_col,
            Ghost(height),
            Ghost(width),
        );
        seed_square(
            &mut self.next,
            first_row,
            last_row,
            first_col,
            last_col,
            Ghost(height),
            Ghost(width),
        );
        proof {
            lemma_rows_of(self.grid);
            lemma_rows_of(self.next);
            assert(self@ =~~= seeded(old(self)@, height, width));
            assert(self.next_grid() =~~= seeded(old(self).next_grid(), height, width));
            assert forall|r: int, c: int|
                0 <= r < self@.len() && 0 <= c < self@[r].len() implies (
            #[trigger] self@[r][c]).in_range() by {
                assert(old(self)@[r][c].in_range());
            }
            assert forall|r: int, c: int|
                0 <= r < self.next_grid().len() && 0 <= c < self.next_grid()[r].len() implies (
            #[trigger] self.next_grid()[r][c]).in_range() by {
                assert(old(self).next_grid()[r][c].in_range());
            }
            assert forall|r: int, c: int|
                is_border(
                    self@.len() as int,
                    self@[r].len() as int,
                    r,
                    c,
                ) implies #[trigger] self@[r][c] == self.next_grid()[r][c] by {
                assert(old(self)@[r][c] == old(self).next_grid()[r][c]);
            }
        }
    }

    /// The Laplacian of species `a` at an interior cell of the shown grid.
    pub fn laplace_a(&self, x: usize, y: usize) -> (lap: i64)
        requires
            self.wf(),
            is_interior(self.height() as int, self.width() as int, x as int, y as int),
        ensures
            lap == laplace_a_at(self@, x as int, y as int),
    {
        proof {
            lemma_rows_of(self.grid);
        }
        laplacian(
            self.grid[x][y].a,
            [
                self.grid[x - 1][y].a,
                self.grid[x + 1][y].a,
                self.grid[x][y + 1].a,
                self.grid[x][y - 1].a,
            ],
            [
                self.grid[x - 1][y - 1].a,
                self.grid[x + 1][y - 1].a,
                self.grid[x + 1][y + 1].a,
                self.grid[x - 1][y + 1].a,
            ],
        )
    }

    /// The Laplacian of species `b` at an interior cell of the shown grid.
    pub fn laplace_b(&self, x: usize, y: usize) -> (lap: i64)
        requires
            self.wf(),
            is_interior(self.height() as int, self.width() as int, x as int, y as int),
        ensures
            lap == laplace_b_at(self@, x as int, y as int),
    {
        proof {
            lemma_rows_of(self.grid);
        }
        laplacian(
            self.grid[x][y].b,
            [
                self.grid[x - 1][y].b,
                self.grid[x + 1][y].b,
                self.grid[x][y + 1].b,
                self.grid[x][y - 1].b,
            ],
            [
                self.grid[x - 1][y - 1].b,
                self.grid[x + 1][y - 1].b,
                self.grid[x + 1][y + 1].b,
                self.grid[x - 1][y + 1].b,
            ],
        )
    }

    /// Computes the grid after one step into the buffer that is not shown.
    /// Every interior cell is updated from the shown grid by the Laplacians
    /// of its neighbourhood and the reaction; no border cell is written.
    pub fn process_grid(&mut self)
        requires
            old(self).wf(),
        ensures
            final(self).wf(),
            final(self).height() == old(self).height(),
            final(self).width() == old(self).width(),
            final(self)@ == old(self)@,
            final(self).next_grid() == stepped(old(self)@),
    {
        let ghost height = self.height as nat;
        let ghost width = self.width as nat;
        proof {
            lemma_rows_of(self.grid);
            lemma_rows_of(self.next);
        }
        if self.height >= 3 && self.width >= 3 {
            let mut x: usize = 1;
            while x < self.height - 1
                invariant
                    self.wf(),
                    self.height == height,
                    self.width == width,
                    height >= 3,
                    width >= 3,
                    1 <= x <= height - 1,
                    self.grid == old(self).grid,
                    shaped(self.next, height, width),
                    stepped_before(self.next, old(self).next, self@, x as int, 0),
                decreases height - x,
            {
                let mut y: usize = 1;
                while y < self.width - 1
                    invariant
                        self.wf(),
                        self.height == height,
                        self.width == width,
                        height >= 3,
                        width >= 3,
                        1 <= x < height - 1,
                        1 <= y <= width - 1,
                        self.grid == old(self).grid,
                        shaped(self.next, height, width),
                        stepped_before(self.next, old(self).next, self@, x as int, y as int),
                    decreases width - y,
                {
                    proof {
                        lemma_rows_of(self.grid);
                    }
                    let cell = self.grid[x][y];
                    let lap_a = self.laplace_a(x, y);
                    let lap_b = self.laplace_b(x, y);
                    let ghost before = *self;
                    self.next[x][y] = react(cell, lap_a, lap_b);
                    proof {
                        self.lemma_written(before, x as int, y as int);
                    }
                    y += 1;
                }
                x += 1;
            }
        }
        proof {
            lemma_rows_of(self.grid);
            lemma_rows_of(self.next);
            lemma_rows_of(old(self).next);
            assert forall|r: int, c: int|
                0 <= r < height && 0 <= c < width implies #[trigger] self.next_grid()[r][c]
                == stepped_cell(self@, r, c) by {
                if !is_interior(height as int, width as int, r, c) {
                    assert(old(self)@[r][c] == old(self).next_grid()[r][c]);
                }
            }
            assert(self.next_grid() =~~= stepped(self@));
        }
    }

    /// Writing one interior cell that is within range into the buffer that
    /// is not shown keeps the simulation well formed.
    proof fn lemma_written(self, before: ReactionDiffusion, x: int, y: int)
        requires
            before.wf(),
            is_interior(before.height() as int, before.width() as int, x, y),
            self == (ReactionDiffusion { next: self.next, ..before }),
            shaped(self.next, before.height as nat, before.width as nat),
            self.next@[x]@[y].in_range(),
            forall|r: int, c: int|
                0 <= r < before.height && 0 <= c < before.width && !(r == x && c == y)
                    ==> #[trigger] self.next@[r]@[c] == before.next@[r]@[c],
        ensures
            self.wf(),
    {
        lemma_rows_of(self.grid);
        lemma_rows_of(self.next);
        lemma_rows_of(before.next);
        assert forall|r: int, c: int|
            0 <= r < self.next_grid().len() && 0 <= c < self.next_grid()[r].len() implies (
        #[trigger] self.next_grid()[r][c]).in_range() by {
            if !(r == x && c == y) {
                assert(before.next_grid()[r][c].in_range());
            }
        }
        assert forall|r: int, c: int|
            is_border(
                self@.len() as int,
                self@[r].len() as int,
                r,
                c,
            ) implies #[trigger] self@[r][c] == self.next_grid()[r][c] by {
            assert(before@[r][c] == before.next_grid()[r][c]);
        }
    }

    /// Exchanges the two buffers: what was written becomes what is shown.
    /// No cell is copied.
    pub fn swap(&mut self)
        ensures
            final(self)@ == old(self).next_grid(),
            final(self).next_grid() == old(self)@,
            final(self).height() == old(self).height(),
            final(self).width() == old(self).width(),
            old(self).wf() ==> final(self).wf(),
    {
        std::mem::swap(&mut self.grid, &mut self.next);
    }

    /// Advances the simulation by one step: computes the next grid from the
    /// shown one, then exchanges the buffers once. Border cells keep their
    /// values; the grid shown before the step becomes the buffer that the
    /// next step writes.
    pub fn step(&mut self)
        requires
            old(self).wf(),
        ensures
            final(self).wf(),
            final(self).height() == old(self).height(),
            final(self).width() == old(self).width(),
            final(self)@ == stepped(old(self)@),
            final(self).next_grid() == old(self)@,
    {
        self.process_grid();
        self.swap();
    }

    /// The characters that draw the shown grid, one per cell.
    pub fn frame(&self) -> (frame: Vec<Vec<char>>)
        ensures
            rows_of(frame) == glyphs_of(self@),
    {
        frame_of(&self.grid)
    }

    /// The shown grid as one block of text: a line of characters for every
    /// row. The text depends on the cells of the shown grid and on nothing
    /// else, and drawing changes nothing.
    pub fn render(&self) -> (text: String)
        ensures
            text@ == text_of(self@),
    {
        render_cells(&self.grid)
    }

    /// Advances the simulation by one step and draws the grid that step
    /// produced.
    pub fn get_next_frame(&mut self) -> (text: String)
        requires
            old(self).wf(),
        ensures
            final(self).wf(),
            final(self).height() == old(self).height(),
            final(self).width() == old(self).width(),
            final(self)@ == stepped(old(self)@),
            final(self).next_grid() == old(self)@,
            text@ == text_of(stepped(old(self)@)),
    {
        self.step();
        self.render()
    }
}

/// Stepping is deterministic: two simulations that show the same grid show
/// the same grid after any number of steps, whatever else they hold.
pub proof fn lemma_steps_deterministic(
    first: ReactionDiffusion,
    second: ReactionDiffusion,
    steps: nat,
)
    requires
        first@ == second@,
    ensures
        after_steps(first@, steps) == after_steps(second@, steps),
{
}

/// Drawing is a function of the cells alone: two simulations that show the
/// same grid are drawn as the same text.
pub proof fn lemma_render_pure(first: ReactionDiffusion, second: ReactionDiffusion)
    requires
        first@ == second@,
    ensures
        text_of(first@) == text_of(second@),
{
}

} // verus!
