//! Colors, text styles and border glyph sets used when drawing tabs.

use vstd::prelude::*;

verus! {

/// A terminal color.
#[derive(Clone, Copy, Debug, Default, PartialEq, Eq, Hash, Structural)]
pub enum Color {
    /// The terminal's default color.
    #[default]
    Reset,
    Black,
    Red,
    Green,
    Yellow,
    Blue,
    Magenta,
    Cyan,
    Gray,
    DarkGray,
    LightRed,
    LightGreen,
    LightYellow,
    LightBlue,
    LightMagenta,
    LightCyan,
    White,
    /// A 24-bit color.
    Rgb(u8, u8, u8),
    /// An entry of the 256-color palette.
    Indexed(u8),
}

/// Bold text modifier bit.
pub const MODIFIER_BOLD: u16 = 1;

/// Dim text modifier bit.
pub const MODIFIER_DIM: u16 = 2;

/// Italic text modifier bit.
pub const MODIFIER_ITALIC: u16 = 4;

/// Underlined text modifier bit.
pub const MODIFIER_UNDERLINED: u16 = 8;

/// Reversed colors modifier bit.
pub const MODIFIER_REVERSED: u16 = 64;

/// A style: optional foreground and background colors, and text modifier bits to add
/// and to remove.
#[derive(Clone, Copy, Debug, Default, PartialEq, Eq, Hash, Structural)]
pub struct Style {
    /// The foreground color, if set.
    pub fg: Option<Color>,
    /// The background color, if set.
    pub bg: Option<Color>,
    /// Modifier bits to add.
    pub add_modifier: u16,
    /// Modifier bits to remove.
    pub sub_modifier: u16,
}

impl Style {
    /// A style that changes nothing.
    pub fn new() -> (s: Self)
        ensures
            s.fg == None::<Color>,
            s.bg == None::<Color>,
            s.add_modifier == 0,
            s.sub_modifier == 0,
    {
        Style { fg: None, bg: None, add_modifier: 0, sub_modifier: 0 }
    }

    /// Sets the foreground color.
    pub fn fg(self, color: Color) -> (s: Self)
        ensures
            s == (Style { fg: Some(color), ..self }),
    {
        Style { fg: Some(color), ..self }
    }

    /// Sets the background color.
    pub fn bg(self, color: Color) -> (s: Self)
        ensures
            s == (Style { bg: Some(color), ..self }),
    {
        Style { bg: Some(color), ..self }
    }

    /// Adds the modifier bits `m` (and stops removing them).
    pub fn add_modifier(self, m: u16) -> (s: Self)
        ensures
            s == (Style {
                add_modifier: self.add_modifier | m,
                sub_modifier: self.sub_modifier & !m,
                ..self
            }),
    {
        Style { add_modifier: self.add_modifier | m, sub_modifier: self.sub_modifier & !m, ..self }
    }

    /// Removes the modifier bits `m` (and stops adding them).
    pub fn remove_modifier(self, m: u16) -> (s: Self)
        ensures
            s == (Style {
                add_modifier: self.add_modifier & !m,
                sub_modifier: self.sub_modifier | m,
                ..self
            }),
    {
        Style { add_modifier: self.add_modifier & !m, sub_modifier: self.sub_modifier | m, ..self }
    }
}

/// The glyphs used to draw a box border.
#[derive(Clone, Copy, Debug, PartialEq, Eq)]
pub struct BorderSet<'a> {
    pub top_left: &'a str,
    pub top_right: &'a str,
    pub bottom_left: &'a str,
    pub bottom_right: &'a str,
    pub vertical_left: &'a str,
    pub vertical_right: &'a str,
    pub horizontal_top: &'a str,
    pub horizontal_bottom: &'a str,
}

} // verus!
