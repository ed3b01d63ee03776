//! Fonts.
use vstd::prelude::*;

verus! {

/// A font, told by its family and its three traits.
#[derive(Debug, Clone, Copy, PartialEq, Eq, Hash)]
pub struct Font {
    /// The family of the font.
    pub family: Family,
    /// The weight of the font.
    pub weight: Weight,
    /// The stretch of the font.
    pub stretch: Stretch,
    /// The style of the font.
    pub style: Style,
}

/// A font family.
#[derive(Debug, Clone, Copy, PartialEq, Eq, Hash)]
pub enum Family {
    /// The name of a font family of choice.
    Name(&'static str),
    /// Glyphs with finishing strokes and flared or tapering ends.
    Serif,
    /// Glyphs with plain stroke endings.
    SansSerif,
    /// Glyphs with joining strokes, more like handwriting than print.
    Cursive,
    /// Decorative glyphs.
    Fantasy,
    /// Glyphs that all have the same fixed width.
    Monospace,
}

/// The weight of some text.
#[derive(Debug, Clone, Copy, PartialEq, Eq, Hash, Structural)]
pub enum Weight {
    /// The thinnest strokes.
    Thin,
    /// Very thin strokes.
    ExtraLight,
    /// Thin strokes.
    Light,
    /// The regular thickness of strokes.
    Normal,
    /// Strokes a little thicker than normal.
    Medium,
    /// Strokes between normal and bold.
    Semibold,
    /// Thick strokes.
    Bold,
    /// Very thick strokes.
    ExtraBold,
    /// The thickest strokes.
    Black,
}

/// The width of some text.
#[derive(Debug, Clone, Copy, PartialEq, Eq, Hash, Structural)]
pub enum Stretch {
    /// The narrowest glyphs.
    UltraCondensed,
    /// Very narrow glyphs.
    ExtraCondensed,
    /// Narrow glyphs.
    Condensed,
    /// Glyphs a little narrower than normal.
    SemiCondensed,
    /// The regular width of glyphs.
    Normal,
    /// Glyphs a little wider than normal.
    SemiExpanded,
    /// Wide glyphs.
    Expanded,
    /// Very wide glyphs.
    ExtraExpanded,
    /// The widest glyphs.
    UltraExpanded,
}

/// The style of some text.
#[derive(Debug, Clone, Copy, PartialEq, Eq, Hash, Structural)]
pub enum Style {
    /// Upright glyphs.
    Normal,
    /// Slanted glyphs of a design of their own.
    Italic,
    /// The upright glyphs, slanted.
    Oblique,
}

impl Font {
    /// The font that is used where none is chosen: sans-serif, with every
    /// trait normal.
    pub open spec fn spec_default() -> Font {
        Font {
            family: Family::SansSerif,
            weight: Weight::Normal,
            stretch: Stretch::Normal,
            style: Style::Normal,
        }
    }
}

impl Default for Font {
    fn default() -> (r: Font)
        ensures
            r == Font::spec_default(),
    {
        Font {
            family: Family::SansSerif,
            weight: Weight::Normal,
            stretch: Stretch::Normal,
            style: Style::Normal,
        }
    }
}

} // verus!
