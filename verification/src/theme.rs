//! The look: green phosphor on black, like a seven-segment watch display.
use vstd::prelude::*;

verus! {

/// The colors that are used.
#[derive(Debug, Clone, Copy, PartialEq, Eq, Structural)]
pub enum Color {
    /// Classic terminal-green. A touch brighter than pure lime so it glows.
    Green,
    /// Dimmer green for secondary text and inactive segments.
    GreenDim,
    /// The background.
    Black,
    /// Amber accent for prompts and codes that the user must act on.
    Amber,
    /// Red for errors.
    Red,
}

impl Color {
    /// The red, green and blue parts.
    pub fn rgb(self) -> (r: (u8, u8, u8))
        ensures
            r == match self {
                Color::Green => (0u8, 255u8, 102u8),
                Color::GreenDim => (0u8, 120u8, 48u8),
                Color::Black => (0u8, 0u8, 0u8),
                Color::Amber => (255u8, 176u8, 0u8),
                Color::Red => (255u8, 64u8, 64u8),
            },
    {
        match self {
            Color::Green => (0, 255, 102),
            Color::GreenDim => (0, 120, 48),
            Color::Black => (0, 0, 0),
            Color::Amber => (255, 176, 0),
            Color::Red => (255, 64, 64),
        }
    }
}

/// How text is drawn.
#[derive(Debug, Clone, Copy, PartialEq, Eq, Structural)]
pub struct Style {
    /// The color of the text.
    pub fg: Color,
    /// The color behind it.
    pub bg: Color,
    /// Whether it is bold.
    pub bold: bool,
    /// Whether the two colors are exchanged.
    pub reversed: bool,
}

/// Text in color `fg` on black.
pub open spec fn on_black(fg: Color, bold: bool) -> Style {
    Style { fg, bg: Color::Black, bold, reversed: false }
}

/// Ordinary text.
pub fn base() -> (r: Style)
    ensures
        r == on_black(Color::Green, false),
{
    Style { fg: Color::Green, bg: Color::Black, bold: false, reversed: false }
}

/// Secondary text.
pub fn dim() -> (r: Style)
    ensures
        r == on_black(Color::GreenDim, false),
{
    Style { fg: Color::GreenDim, bg: Color::Black, bold: false, reversed: false }
}

/// Text that stands out.
pub fn bright() -> (r: Style)
    ensures
        r == on_black(Color::Green, true),
{
    Style { fg: Color::Green, bg: Color::Black, bold: true, reversed: false }
}

/// Text that the user must act on.
pub fn accent() -> (r: Style)
    ensures
        r == on_black(Color::Amber, true),
{
    Style { fg: Color::Amber, bg: Color::Black, bold: true, reversed: false }
}

/// Errors.
pub fn error() -> (r: Style)
    ensures
        r == on_black(Color::Red, false),
{
    Style { fg: Color::Red, bg: Color::Black, bold: false, reversed: false }
}

} // verus!
