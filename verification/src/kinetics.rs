//! The Gray-Scott update of one cell: a weighted sum over its neighbourhood
//! and the reaction of the two species.
//!
//! Rates and weights are written in thousandths. The update is the exact
//! value of the formula on the stored concentrations, rounded down once to a
//! multiple of `1 / SCALE` and then held within `0.0..=1.0`.

use vstd::prelude::*;
use crate::cell::{constrained, Cell, SCALE};

verus! {

/// What the rates and weights below are fractions of.
pub const RATE_UNIT: i128 = 1000;

/// Diffusion rate of species `a`: 1.0.
pub const DIFFUSION_A: i128 = 1000;

/// Diffusion rate of species `b`: 0.5.
pub const DIFFUSION_B: i128 = 500;

/// Feed rate: 0.055.
pub const FEED: i128 = 55;

/// Kill rate: 0.062.
pub const KILL: i128 = 62;

/// Weight of the cell itself in the neighbourhood sum: -1.0.
pub const WEIGHT_CENTER: i64 = -1000;

/// Weight of each of the four neighbours that share an edge: 0.2.
pub const WEIGHT_ORTHOGONAL: i64 = 200;

/// Weight of each of the four neighbours that share a corner: 0.05.
pub const WEIGHT_DIAGONAL: i64 = 50;

/// The discrete Laplacian of one species at a cell, in units of
/// `1 / (RATE_UNIT * SCALE)`: the cell's own value with weight -1.0, the sum
/// `orthogonal` of its four edge neighbours with weight 0.2 each and the sum
/// `diagonal` of its four corner neighbours with weight 0.05 each.
pub open spec fn laplacian_of(center: int, orthogonal: int, diagonal: int) -> int {
    WEIGHT_CENTER * center + WEIGHT_ORTHOGONAL * orthogonal + WEIGHT_DIAGONAL * diagonal
}

/// What the numerators below are fractions of: `RATE_UNIT^2 * SCALE^2`, so
/// that a numerator of this much stands for one concentration step of
/// `1 / SCALE`.
pub open spec fn denominator() -> int {
    RATE_UNIT * RATE_UNIT * SCALE * SCALE
}

/// `a + Da * lap_a - a * b^2 + Feed * (1 - a)` as a numerator over
/// [`denominator`], for stored concentrations `a` and `b` and a Laplacian as
/// [`laplacian_of`] gives it. The four terms stand in that order.
pub open spec fn next_a_numerator(a: int, b: int, lap_a: int) -> int {
    denominator() * a + DIFFUSION_A * SCALE * SCALE * lap_a - RATE_UNIT * RATE_UNIT * (a * b * b)
        + FEED * RATE_UNIT * SCALE * SCALE * (SCALE - a)
}

/// `b + Db * lap_b + a * b^2 - (Kill + Feed) * b` as a numerator over
/// [`denominator`]. The four terms stand in that order.
pub open spec fn next_b_numerator(a: int, b: int, lap_b: int) -> int {
    denominator() * b + DIFFUSION_B * SCALE * SCALE * lap_b + RATE_UNIT * RATE_UNIT * (a * b * b)
        - (KILL + FEED) * RATE_UNIT * SCALE * SCALE * b
}

/// A numerator as a stored concentration: divided by [`denominator`],
/// rounded down, and held within `0..=SCALE`.
pub open spec fn settled(numerator: int) -> int {
    constrained(numerator / denominator(), 0, SCALE as int)
}

/// The cell after one update, given the Laplacians of both species at it.
pub open spec fn reacted(cell: Cell, lap_a: int, lap_b: int) -> Cell {
    Cell {
        a: settled(next_a_numerator(cell.a as int, cell.b as int, lap_a)) as u32,
        b: settled(next_b_numerator(cell.a as int, cell.b as int, lap_b)) as u32,
    }
}

/// The weights sum to zero: where a species is spread evenly, its Laplacian
/// vanishes.
pub proof fn lemma_laplacian_flat(value: int)
    ensures
        laplacian_of(value, 4 * value, 4 * value) == 0,
{
}

/// Rounding goes down and loses less than one step of `1 / SCALE`: within
/// `0.0..=1.0` the stored value is the largest that does not exceed the exact
/// one. Below that range it is `0`, above it `SCALE`.
pub proof fn lemma_settled(numerator: int)
    ensures
        0 <= settled(numerator) <= SCALE,
        numerator < 0 ==> settled(numerator) == 0,
        numerator >= SCALE * denominator() ==> settled(numerator) == SCALE,
        0 <= numerator < SCALE * denominator() ==> settled(numerator) * denominator() <= numerator
            < (settled(numerator) + 1) * denominator(),
{
    lemma_units();
}

/// A cell at rest among cells at rest stays at rest: with `a = 1.0`,
/// `b = 0.0` and no Laplacian, the update changes nothing.
pub proof fn lemma_resting_is_steady()
    ensures
        reacted(Cell::resting(), 0, 0) == Cell::resting(),
{
    lemma_units();
}

/// The values of the products of units that the update is made of, for
/// working out an update on given numbers.
pub proof fn lemma_units()
    ensures
        RATE_UNIT * RATE_UNIT == 1_000_000,
        RATE_UNIT * RATE_UNIT * SCALE == 16_777_216_000_000,
        RATE_UNIT * RATE_UNIT * SCALE * SCALE == 281_474_976_710_656_000_000,
        denominator() == 281_474_976_710_656_000_000,
        DIFFUSION_A * SCALE == 16_777_216_000,
        DIFFUSION_A * SCALE * SCALE == 281_474_976_710_656_000,
        DIFFUSION_B * SCALE == 8_388_608_000,
        DIFFUSION_B * SCALE * SCALE == 140_737_488_355_328_000,
        FEED * RATE_UNIT == 55_000,
        FEED * RATE_UNIT * SCALE == 922_746_880_000,
        FEED * RATE_UNIT * SCALE * SCALE == 15_481_123_719_086_080_000,
        (KILL + FEED) * RATE_UNIT == 117_000,
        (KILL + FEED) * RATE_UNIT * SCALE == 1_962_934_272_000,
        (KILL + FEED) * RATE_UNIT * SCALE * SCALE == 32_932_572_275_146_752_000,
{
    let unit = RATE_UNIT as int;
    let scale = SCALE as int;
    assert(unit * unit * scale * scale == 281_474_976_710_656_000_000 && unit * unit * scale
        == 16_777_216_000_000 && unit * unit == 1_000_000) by (nonlinear_arith)
        requires
            unit == 1000,
            scale == 16_777_216,
    ;
    let rate_a = DIFFUSION_A as int;
    assert(rate_a * scale * scale == 281_474_976_710_656_000 && rate_a * scale == 16_777_216_000)
        by (nonlinear_arith)
        requires
            rate_a == 1000,
            scale == 16_777_216,
    ;
    let rate_b = DIFFUSION_B as int;
    assert(rate_b * scale * scale == 140_737_488_355_328_000 && rate_b * scale == 8_388_608_000)
        by (nonlinear_arith)
        requires
            rate_b == 500,
            scale == 16_777_216,
    ;
    let feed = FEED as int;
    assert(feed * unit * scale * scale == 15_481_123_719_086_080_000 && feed * unit * scale
        == 922_746_880_000 && feed * unit == 55_000) by (nonlinear_arith)
        requires
            feed == 55,
            unit == 1000,
            scale == 16_777_216,
    ;
    let loss = (KILL + FEED) as int;
    assert(loss * unit * scale * scale == 32_932_572_275_146_752_000 && loss * unit * scale
        == 1_962_934_272_000 && loss * unit == 117_000) by (nonlinear_arith)
        requires
            loss == 117,
            unit == 1000,
            scale == 16_777_216,
    ;
}

/// Holds `value` within `min..=max`: `min` where it is below, `max` where it
/// is above, else the value itself.
pub fn constrain(value: i128, min: i128, max: i128) -> (held: i128)
    ensures
        held == constrained(value as int, min as int, max as int),
{
    if value < min {
        min
    } else if value > max {
        max
    } else {
        value
    }
}

/// The discrete Laplacian at a cell with value `center`, edge neighbours
/// `orthogonal` and corner neighbours `diagonal`.
pub fn laplacian(center: u32, orthogonal: [u32; 4], diagonal: [u32; 4]) -> (lap: i64)
    ensures
        lap == laplacian_of(
            center as int,
            orthogonal[0] + orthogonal[1] + orthogonal[2] + orthogonal[3],
            diagonal[0] + diagonal[1] + diagonal[2] + diagonal[3],
        ),
{
    let edges: i64 = orthogonal[0] as i64 + orthogonal[1] as i64 + orthogonal[2] as i64
        + orthogonal[3] as i64;
    let corners: i64 = diagonal[0] as i64 + diagonal[1] as i64 + diagonal[2] as i64
        + diagonal[3] as i64;
    WEIGHT_CENTER * (center as i64) + WEIGHT_ORTHOGONAL * edges + WEIGHT_DIAGONAL * corners
}

/// Rounds a numerator down to a stored concentration within `0..=SCALE`.
fn settle(numerator: i128) -> (stored: u32)
    ensures
        stored == settled(numerator as int),
        stored <= SCALE,
{
    proof {
        lemma_units();
    }
    let unit: i128 = RATE_UNIT * RATE_UNIT * (SCALE as i128) * (SCALE as i128);
    if numerator <= 0 {
        0
    } else {
        let steps: i128 = numerator / unit;
        constrain(steps, 0, SCALE as i128) as u32
    }
}

/// Updates one cell by the Gray-Scott kinetics:
/// `a + Da * lap_a - a * b^2 + Feed * (1 - a)` and
/// `b + Db * lap_b + a * b^2 - (Kill + Feed) * b`, each rounded down to a
/// stored value and held within `0.0..=1.0`.
pub fn react(cell: Cell, lap_a: i64, lap_b: i64) -> (next: Cell)
    ensures
        next == reacted(cell, lap_a as int, lap_b as int),
        next.in_range(),
{
    let a: i128 = cell.a as i128;
    let b: i128 = cell.b as i128;
    let scale: i128 = SCALE as i128;
    proof {
        lemma_units();
    }
    let whole: i128 = RATE_UNIT * RATE_UNIT * scale * scale;
    proof {
        assert(0 <= a * b <= 0x1_0000_0000 * 0x1_0000_0000) by (nonlinear_arith)
            requires
                0 <= a <= 0x1_0000_0000,
                0 <= b <= 0x1_0000_0000,
        ;
        assert(0 <= a * b * b <= 0x1_0000_0000 * 0x1_0000_0000 * 0x1_0000_0000)
            by (nonlinear_arith)
            requires
                0 <= a * b <= 0x1_0000_0000 * 0x1_0000_0000,
                0 <= b <= 0x1_0000_0000,
        ;
    }
    let consumed: i128 = RATE_UNIT * RATE_UNIT * (a * b * b);
    let spread_a: i128 = DIFFUSION_A * scale * scale;
    let spread_b: i128 = DIFFUSION_B * scale * scale;
    let fed: i128 = FEED * RATE_UNIT * scale * scale;
    let lost: i128 = (KILL + FEED) * RATE_UNIT * scale * scale;
    let next_a: i128 = whole * a + spread_a * (lap_a as i128) - consumed + fed * (scale - a);
    let next_b: i128 = whole * b + spread_b * (lap_b as i128) + consumed - lost * b;
    Cell { a: settle(next_a), b: settle(next_b) }
}

} // verus!
