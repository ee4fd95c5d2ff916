//! The five shades a cell can be drawn with, and the split of the contrast
//! range `0..=255` among them.

use vstd::prelude::*;

verus! {

/// Largest contrast drawn as [`DisplayCharacters::FULL`].
pub const FULL_MAX: u8 = 50;

/// Largest contrast drawn as [`DisplayCharacters::DARK`].
pub const DARK_MAX: u8 = 101;

/// Largest contrast drawn as [`DisplayCharacters::MEDIUM`].
pub const MEDIUM_MAX: u8 = 152;

/// Largest contrast drawn as [`DisplayCharacters::LIGHT`].
pub const LIGHT_MAX: u8 = 203;

/// A shade of the display palette, from the darkest to the lightest.
#[derive(Clone, Copy, Debug, PartialEq, Eq, Structural)]
pub enum DisplayCharacters {
    /// A full block, for the lowest contrasts.
    FULL,
    /// Dark shading.
    DARK,
    /// Medium shading.
    MEDIUM,
    /// Light shading.
    LIGHT,
    /// A blank, for the highest contrasts.
    EMPTY,
}

impl DisplayCharacters {
    /// The character that draws this shade.
    pub open spec fn glyph(self) -> char {
        match self {
            DisplayCharacters::FULL => '\u{2588}',
            DisplayCharacters::DARK => '\u{2593}',
            DisplayCharacters::MEDIUM => '\u{2592}',
            DisplayCharacters::LIGHT => '\u{2591}',
            DisplayCharacters::EMPTY => ' ',
        }
    }

    /// Whether `contrast` lies in the bucket of this shade. The buckets are
    /// `0..=50`, `51..=101`, `102..=152`, `153..=203` and `204..=255`.
    pub open spec fn covers(self, contrast: int) -> bool {
        match self {
            DisplayCharacters::FULL => 0 <= contrast <= FULL_MAX,
            DisplayCharacters::DARK => FULL_MAX < contrast <= DARK_MAX,
            DisplayCharacters::MEDIUM => DARK_MAX < contrast <= MEDIUM_MAX,
            DisplayCharacters::LIGHT => MEDIUM_MAX < contrast <= LIGHT_MAX,
            DisplayCharacters::EMPTY => LIGHT_MAX < contrast <= 255,
        }
    }

    /// The shade whose bucket holds `contrast`.
    pub open spec fn of_contrast(contrast: int) -> DisplayCharacters {
        if contrast <= FULL_MAX {
            DisplayCharacters::FULL
        } else if contrast <= DARK_MAX {
            DisplayCharacters::DARK
        } else if contrast <= MEDIUM_MAX {
            DisplayCharacters::MEDIUM
        } else if contrast <= LIGHT_MAX {
            DisplayCharacters::LIGHT
        } else {
            DisplayCharacters::EMPTY
        }
    }

    /// The character that draws this shade.
    pub fn value(&self) -> (c: char)
        ensures
            c == self.glyph(),
    {
        match self {
            DisplayCharacters::FULL => '\u{2588}',
            DisplayCharacters::DARK => '\u{2593}',
            DisplayCharacters::MEDIUM => '\u{2592}',
            DisplayCharacters::LIGHT => '\u{2591}',
            DisplayCharacters::EMPTY => ' ',
        }
    }

    /// Picks the shade for a contrast: the one shade whose bucket holds it.
    pub fn from_contrast(contrast: u8) -> (shade: DisplayCharacters)
        ensures
            shade == DisplayCharacters::of_contrast(contrast as int),
            shade.covers(contrast as int),
    {
        if contrast <= FULL_MAX {
            DisplayCharacters::FULL
        } else if contrast <= DARK_MAX {
            DisplayCharacters::DARK
        } else if contrast <= MEDIUM_MAX {
            DisplayCharacters::MEDIUM
        } else if contrast <= LIGHT_MAX {
            DisplayCharacters::LIGHT
        } else {
            DisplayCharacters::EMPTY
        }
    }
}

/// The buckets split `0..=255` without gap or overlap: every contrast in that
/// range lies in the bucket of exactly one shade, the one that
/// [`DisplayCharacters::of_contrast`] names.
pub proof fn lemma_buckets_partition(contrast: int, shade: DisplayCharacters)
    requires
        0 <= contrast <= 255,
    ensures
        shade.covers(contrast) <==> shade == DisplayCharacters::of_contrast(contrast),
{
}

/// No two shades are drawn with the same character, so a drawn character
/// tells its shade.
pub proof fn lemma_glyphs_distinct(first: DisplayCharacters, second: DisplayCharacters)
    requires
        first.glyph() == second.glyph(),
    ensures
        first == second,
{
}

} // verus!
