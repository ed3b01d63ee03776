//! Configure a renderer.
//!
//! The settings name the present mode, the surface format and the backends
//! by enumerations of their own, which the graphics backend maps to its own. Two
//! of them can be overridden from the environment: whoever reads the
//! variables [`FORMAT_VARIABLE`] and [`PRESENT_MODE_VARIABLE`] hands their
//! values to [`format_from_env`] and [`present_mode_from_env`].
use crate::font::Font;
use crate::graphics;
use crate::graphics::Antialiasing;
use crate::value::{Pixels, Scalar};
use vstd::prelude::*;
use vstd::std_specs::convert::FromSpecImpl;

verus! {

/// The environment variable that overrides the surface format.
pub const FORMAT_VARIABLE: &'static str = "ICED_FORMAT";

/// The environment variable that overrides the present mode.
pub const PRESENT_MODE_VARIABLE: &'static str = "ICED_PRESENT_MODE";

/// The encoding of the default size of text, 16 pixels.
pub const DEFAULT_TEXT_SIZE_BITS: u32 = 0x4180_0000;

/// How finished frames are handed to the display.
#[derive(Debug, Clone, Copy, PartialEq, Eq, Hash, Structural)]
pub enum PresentMode {
    /// In step with the display, by the best mode that is at hand.
    AutoVsync,
    /// Without waiting for the display, by the best mode that is at hand.
    AutoNoVsync,
    /// Frames queue up and are shown one per refresh.
    Fifo,
    /// As `Fifo`, but a late frame is shown at once.
    FifoRelaxed,
    /// Frames are shown at once, which may tear.
    Immediate,
    /// The newest frame is shown at the next refresh.
    Mailbox,
}

/// The surface formats that can be asked for.
#[derive(Debug, Clone, Copy, PartialEq, Eq, Hash, Structural)]
pub enum TextureFormat {
    /// Red, green, blue and alpha, 16 bits each, for extended range.
    Rgba16Float,
    /// Blue, green, red and alpha, 8 bits each, sRGB-encoded.
    Bgra8UnormSrgb,
    /// Blue, green, red and alpha, 8 bits each.
    Bgra8Unorm,
    /// Red, green, blue and alpha, 8 bits each, sRGB-encoded.
    Rgba8UnormSrgb,
    /// Red, green, blue and alpha, 8 bits each.
    Rgba8Unorm,
}

/// The graphics backends that may be used, one flag each.
#[derive(Debug, Clone, Copy, PartialEq, Eq, Hash, Structural)]
pub struct Backends {
    /// Vulkan.
    pub vulkan: bool,
    /// OpenGL and OpenGL ES.
    pub gl: bool,
    /// Metal.
    pub metal: bool,
    /// Direct3D 12.
    pub dx12: bool,
    /// WebGPU in a browser.
    pub browser_webgpu: bool,
}

impl Backends {
    /// Every backend.
    pub open spec fn spec_all() -> Backends {
        Backends { vulkan: true, gl: true, metal: true, dx12: true, browser_webgpu: true }
    }

    /// Every backend.
    #[verifier::when_used_as_spec(spec_all)]
    pub fn all() -> (r: Backends)
        ensures
            r == Backends::spec_all(),
    {
        Backends { vulkan: true, gl: true, metal: true, dx12: true, browser_webgpu: true }
    }
}

/// The settings of a renderer.
#[derive(Debug, Clone, Copy, PartialEq)]
pub struct Settings {
    /// The present mode of the renderer.
    pub present_mode: PresentMode,
    /// The preferred surface format.
    ///
    /// If `Some`, the compositor will use this format when supported by the
    /// surface. If `None`, the compositor selects a format automatically.
    pub format: Option<TextureFormat>,
    /// The graphics backends to use.
    pub backends: Backends,
    /// The default font to use.
    pub default_font: Font,
    /// The default size of text.
    ///
    /// By default, it will be set to 16 pixels.
    pub default_text_size: Pixels,
    /// The antialiasing strategy that will be used for triangle primitives.
    ///
    /// By default, it is `None`.
    pub antialiasing: Option<Antialiasing>,
}

impl Settings {
    /// The settings that are used where none are given.
    pub open spec fn spec_default() -> Settings {
        Settings {
            present_mode: PresentMode::AutoVsync,
            format: None,
            backends: Backends::spec_all(),
            default_font: Font::spec_default(),
            default_text_size: Pixels(Scalar { bits: DEFAULT_TEXT_SIZE_BITS }),
            antialiasing: None,
        }
    }
}

impl Default for Settings {
    fn default() -> (r: Settings)
        ensures
            r == Settings::spec_default(),
    {
        Settings {
            present_mode: PresentMode::AutoVsync,
            format: None,
            backends: Backends::all(),
            default_font: Font::default(),
            default_text_size: Pixels(Scalar::from_bits(DEFAULT_TEXT_SIZE_BITS)),
            antialiasing: None,
        }
    }
}

impl From<graphics::Settings> for Settings {
    fn from(settings: graphics::Settings) -> (r: Self) {
        Self {
            present_mode: if settings.vsync {
                PresentMode::AutoVsync
            } else {
                PresentMode::AutoNoVsync
            },
            default_font: settings.default_font,
            default_text_size: settings.default_text_size,
            antialiasing: settings.antialiasing,
            ..Settings::default()
        }
    }
}

impl FromSpecImpl<graphics::Settings> for Settings {
    open spec fn obeys_from_spec() -> bool {
        true
    }

    /// The backend's settings for the given general ones: the present mode
    /// follows `vsync`, font, text size and antialiasing are taken over, and
    /// format and backends are the default ones.
    open spec fn from_spec(settings: graphics::Settings) -> Self {
        Settings {
            present_mode: if settings.vsync {
                PresentMode::AutoVsync
            } else {
                PresentMode::AutoNoVsync
            },
            format: None,
            backends: Backends::spec_all(),
            default_font: settings.default_font,
            default_text_size: settings.default_text_size,
            antialiasing: settings.antialiasing,
        }
    }
}

/// The lowercase form of a text, as `str::to_lowercase` of the standard
/// library gives it.
pub uninterp spec fn lowercase_of(text: Seq<char>) -> Seq<char>;

/// Calls `str::to_lowercase` of the standard library, which returns the
/// lowercase equivalent of the text as a new `String`. Lowercase is what
/// Unicode defines; it depends on the text alone. The contract gives the
/// result its name and claims nothing else of it.
#[verifier::external_body]
fn to_lowercase(text: &str) -> (r: String)
    ensures
        r@ == lowercase_of(text@),
{
    text.to_lowercase()
}

/// Whether two texts hold the same characters.
fn same_text(left: &str, right: &str) -> (r: bool)
    ensures
        r == (left@ == right@),
{
    left.to_owned() == right.to_owned()
}

/// The surface format that a token names. The tokens are in lowercase; any
/// other text names none.
pub open spec fn format_of(token: Seq<char>) -> Option<TextureFormat> {
    if token == "rgba16float"@ {
        Some(TextureFormat::Rgba16Float)
    } else if token == "bgra8unormsrgb"@ {
        Some(TextureFormat::Bgra8UnormSrgb)
    } else if token == "bgra8unorm"@ {
        Some(TextureFormat::Bgra8Unorm)
    } else if token == "rgba8unormsrgb"@ {
        Some(TextureFormat::Rgba8UnormSrgb)
    } else if token == "rgba8unorm"@ {
        Some(TextureFormat::Rgba8Unorm)
    } else {
        None
    }
}

/// The present mode that a token names. The tokens are in lowercase; any
/// other text names none.
pub open spec fn present_mode_of(token: Seq<char>) -> Option<PresentMode> {
    if token == "vsync"@ {
        Some(PresentMode::AutoVsync)
    } else if token == "no_vsync"@ {
        Some(PresentMode::AutoNoVsync)
    } else if token == "immediate"@ {
        Some(PresentMode::Immediate)
    } else if token == "fifo"@ {
        Some(PresentMode::Fifo)
    } else if token == "fifo_relaxed"@ {
        Some(PresentMode::FifoRelaxed)
    } else if token == "mailbox"@ {
        Some(PresentMode::Mailbox)
    } else {
        None
    }
}

/// The surface format that a lowercase token names, if it names one:
///
/// - `"rgba16float"` → [`TextureFormat::Rgba16Float`]
/// - `"bgra8unormsrgb"` → [`TextureFormat::Bgra8UnormSrgb`]
/// - `"bgra8unorm"` → [`TextureFormat::Bgra8Unorm`]
/// - `"rgba8unormsrgb"` → [`TextureFormat::Rgba8UnormSrgb`]
/// - `"rgba8unorm"` → [`TextureFormat::Rgba8Unorm`]
pub fn format_from_token(token: &str) -> (r: Option<TextureFormat>)
    ensures
        r == format_of(token@),
{
    if same_text(token, "rgba16float") {
        Some(TextureFormat::Rgba16Float)
    } else if same_text(token, "bgra8unormsrgb") {
        Some(TextureFormat::Bgra8UnormSrgb)
    } else if same_text(token, "bgra8unorm") {
        Some(TextureFormat::Bgra8Unorm)
    } else if same_text(token, "rgba8unormsrgb") {
        Some(TextureFormat::Rgba8UnormSrgb)
    } else if same_text(token, "rgba8unorm") {
        Some(TextureFormat::Rgba8Unorm)
    } else {
        None
    }
}

/// The present mode that a lowercase token names, if it names one:
///
/// - `"vsync"` → [`PresentMode::AutoVsync`]
/// - `"no_vsync"` → [`PresentMode::AutoNoVsync`]
/// - `"immediate"` → [`PresentMode::Immediate`]
/// - `"fifo"` → [`PresentMode::Fifo`]
/// - `"fifo_relaxed"` → [`PresentMode::FifoRelaxed`]
/// - `"mailbox"` → [`PresentMode::Mailbox`]
pub fn present_mode_from_token(token: &str) -> (r: Option<PresentMode>)
    ensures
        r == present_mode_of(token@),
{
    if same_text(token, "vsync") {
        Some(PresentMode::AutoVsync)
    } else if same_text(token, "no_vsync") {
        Some(PresentMode::AutoNoVsync)
    } else if same_text(token, "immediate") {
        Some(PresentMode::Immediate)
    } else if same_text(token, "fifo") {
        Some(PresentMode::Fifo)
    } else if same_text(token, "fifo_relaxed") {
        Some(PresentMode::FifoRelaxed)
    } else if same_text(token, "mailbox") {
        Some(PresentMode::Mailbox)
    } else {
        None
    }
}

/// Obtains a surface format from the value of [`FORMAT_VARIABLE`] in the
/// environment, where `None` stands for a variable that is not set.
///
/// The value is matched in any case of its letters against the tokens of
/// [`format_from_token`]. No format is chosen where the variable is not set
/// or its value is no such token.
pub fn format_from_env(value: Option<&str>) -> (r: Option<TextureFormat>)
    ensures
        r == match value {
            Some(text) => format_of(lowercase_of(text@)),
            None => None,
        },
{
    match value {
        Some(text) => {
            let token = to_lowercase(text);
            format_from_token(token.as_str())
        },
        None => None,
    }
}

/// Obtains a present mode from the value of [`PRESENT_MODE_VARIABLE`] in the
/// environment, where `None` stands for a variable that is not set.
///
/// The value is matched in any case of its letters against the tokens of
/// [`present_mode_from_token`]. No mode is chosen where the variable is not
/// set or its value is no such token.
pub fn present_mode_from_env(value: Option<&str>) -> (r: Option<PresentMode>)
    ensures
        r == match value {
            Some(text) => present_mode_of(lowercase_of(text@)),
            None => None,
        },
{
    match value {
        Some(text) => {
            let token = to_lowercase(text);
            present_mode_from_token(token.as_str())
        },
        None => None,
    }
}

} // verus!
