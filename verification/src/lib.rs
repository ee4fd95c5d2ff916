//! A Gray-Scott reaction-diffusion simulation on a fixed grid, shown as
//! blocks of shaded text.
//!
//! Two species, `a` and `b`, spread over the grid and react with each other.
//! A [`ReactionDiffusion`] holds the grid that is shown and a second buffer
//! of the same size; [`ReactionDiffusion::step`] computes every interior cell
//! of the second from the first and exchanges the two, and
//! [`ReactionDiffusion::render`] draws the shown grid with five shades. The
//! cells on the outer edge are never written: they are the fixed boundary.
//!
//! Concentrations are fixed-point numbers, multiples of `2^-24` stored as
//! integers, so that every step is exact integer arithmetic with one stated
//! rounding, a concentration never leaves `0.0..=1.0`, and the same frames
//! come out on every machine.
//!
//! - [`cell`]: a cell and its contrast.
//! - [`kinetics`]: the rates, the Laplacian and the update of one cell.
//! - [`field`]: the grid as a sequence of rows, its seeding and its step,
//!   and what holds of them at every step count.
//! - [`grid`]: the simulation itself.
//! - [`glyph`]: the shades and the contrasts they stand for.
//! - [`render`]: the text that shows a grid.

pub mod cell;
pub mod field;
pub mod glyph;
pub mod grid;
pub mod kinetics;
pub mod render;

pub use cell::{Cell, SCALE};
pub use glyph::DisplayCharacters;
pub use grid::{ConstructionError, ReactionDiffusion};
