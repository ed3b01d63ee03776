//! What a renderer is asked for, whatever its backend.
use crate::font::Font;
use crate::value::Pixels;
use vstd::prelude::*;

verus! {

/// An antialiasing strategy, by the number of samples per pixel.
#[derive(Debug, Clone, Copy, PartialEq, Eq, Structural)]
pub enum Antialiasing {
    /// Multisample antialiasing with 2 samples.
    MSAAx2,
    /// Multisample antialiasing with 4 samples.
    MSAAx4,
    /// Multisample antialiasing with 8 samples.
    MSAAx8,
    /// Multisample antialiasing with 16 samples.
    MSAAx16,
}

/// The settings of a renderer that do not depend on its backend.
#[derive(Debug, Clone, Copy, PartialEq)]
pub struct Settings {
    /// The default font to use.
    pub default_font: Font,
    /// The default size of text.
    pub default_text_size: Pixels,
    /// The antialiasing strategy that will be used for triangle primitives.
    pub antialiasing: Option<Antialiasing>,
    /// Whether frames are presented in step with the display.
    pub vsync: bool,
}

} // verus!
