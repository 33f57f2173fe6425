//! Border glyph sets for tab boxes: rounded ([`rnd`]) and square ([`sqr`]) corners.

use vstd::prelude::*;

use ratatui_core::symbols::border;

use crate::style::BorderSet;

verus! {

/// The glyphs of `ratatui_core::symbols::border::ROUNDED`, field by field.
///
/// Claims the glyphs that the crate's `symbols::line` constants give: rounded corners
/// `╭ ╮ ╰ ╯`, `│` for both sides and `─` for top and bottom.
#[verifier::external_body]
fn ratatui_rounded() -> (r: BorderSet<'static>)
    ensures
        r.top_left@ == seq!['╭'],
        r.top_right@ == seq!['╮'],
        r.bottom_left@ == seq!['╰'],
        r.bottom_right@ == seq!['╯'],
        r.vertical_left@ == seq!['│'],
        r.vertical_right@ == seq!['│'],
        r.horizontal_top@ == seq!['─'],
        r.horizontal_bottom@ == seq!['─'],
{
    let s = border::ROUNDED;
    BorderSet {
        top_left: s.top_left,
        top_right: s.top_right,
        bottom_left: s.bottom_left,
        bottom_right: s.bottom_right,
        vertical_left: s.vertical_left,
        vertical_right: s.vertical_right,
        horizontal_top: s.horizontal_top,
        horizontal_bottom: s.horizontal_bottom,
    }
}

/// The glyphs of `ratatui_core::symbols::border::PLAIN`, field by field.
///
/// Claims the glyphs that the crate's `symbols::line` constants give: square corners
/// `┌ ┐ └ ┘`, `│` for both sides and `─` for top and bottom.
#[verifier::external_body]
fn ratatui_plain() -> (r: BorderSet<'static>)
    ensures
        r.top_left@ == seq!['┌'],
        r.top_right@ == seq!['┐'],
        r.bottom_left@ == seq!['└'],
        r.bottom_right@ == seq!['┘'],
        r.vertical_left@ == seq!['│'],
        r.vertical_right@ == seq!['│'],
        r.horizontal_top@ == seq!['─'],
        r.horizontal_bottom@ == seq!['─'],
{
    let s = border::PLAIN;
    BorderSet {
        top_left: s.top_left,
        top_right: s.top_right,
        bottom_left: s.bottom_left,
        bottom_right: s.bottom_right,
        vertical_left: s.vertical_left,
        vertical_right: s.vertical_right,
        horizontal_top: s.horizontal_top,
        horizontal_bottom: s.horizontal_bottom,
    }
}

/// Rounded corners (`╭ ╮ ╰ ╯`), the default tab border.
pub fn rnd() -> (r: BorderSet<'static>)
    ensures
        r.top_left@ == seq!['╭'],
        r.top_right@ == seq!['╮'],
        r.bottom_left@ == seq!['╰'],
        r.bottom_right@ == seq!['╯'],
        r.vertical_left@ == seq!['│'],
        r.vertical_right@ == seq!['│'],
        r.horizontal_top@ == seq!['─'],
        r.horizontal_bottom@ == seq!['─'],
{
    ratatui_rounded()
}

/// Square corners (`┌ ┐ └ ┘`).
pub fn sqr() -> (r: BorderSet<'static>)
    ensures
        r.top_left@ == seq!['┌'],
        r.top_right@ == seq!['┐'],
        r.bottom_left@ == seq!['└'],
        r.bottom_right@ == seq!['┘'],
        r.vertical_left@ == seq!['│'],
        r.vertical_right@ == seq!['│'],
        r.horizontal_top@ == seq!['─'],
        r.horizontal_bottom@ == seq!['─'],
{
    ratatui_plain()
}

} // verus!
