//! A grid cell: the concentrations of the two species, in fixed point.

use vstd::prelude::*;

verus! {

/// The fixed-point number that stands for the concentration `1.0`. A stored
/// value `n` stands for `n / SCALE`; the step `1 / SCALE` is `2^-24`.
pub const SCALE: u32 = 16_777_216;

/// The value closest to `value` within `low..=high`.
pub open spec fn constrained(value: int, low: int, high: int) -> int {
    if value < low {
        low
    } else if value > high {
        high
    } else {
        value
    }
}

/// The concentrations `a / SCALE` and `b / SCALE` of the two species in one
/// cell.
#[derive(Clone, Copy, Debug, PartialEq, Eq, Structural)]
pub struct Cell {
    pub a: u32,
    pub b: u32,
}

impl Cell {
    /// Both concentrations lie in `0.0..=1.0`.
    pub open spec fn in_range(self) -> bool {
        self.a <= SCALE && self.b <= SCALE
    }

    /// The cell a grid is filled with before seeding: `a = 1.0`, `b = 0.0`.
    pub open spec fn resting() -> Cell {
        Cell { a: SCALE, b: 0 }
    }

    /// This cell with `b` raised to `1.0`.
    pub open spec fn seeded(self) -> Cell {
        Cell { a: self.a, b: SCALE }
    }

    /// `floor((a - b) * 255)` over the concentrations, held within `0..=255`.
    pub open spec fn contrast_level(self) -> int {
        constrained(((self.a - self.b) * 255) / (SCALE as int), 0, 255)
    }

    /// The contrast of the cell: `floor((a - b) * 255)`, held within
    /// `0..=255`. A cell with no `b` and full `a` has contrast 255, one with
    /// at least as much `b` as `a` has contrast 0.
    pub fn contrast(&self) -> (level: u8)
        ensures
            level == self.contrast_level(),
    {
        if self.a <= self.b {
            0
        } else {
            let spread: u64 = (self.a - self.b) as u64 * 255;
            let level: u64 = spread / (SCALE as u64);
            if level > 255 {
                255
            } else {
                level as u8
            }
        }
    }
}

impl Default for Cell {
    /// The resting cell: `a = 1.0`, `b = 0.0`.
    fn default() -> (cell: Cell)
        ensures
            cell == Cell::resting(),
    {
        Cell { a: SCALE, b: 0 }
    }
}

} // verus!
