//! Drawing tabs: the glyph choices for caps and junctions, tab styles, and the drawing
//! primitives (runs of cells along a row or a column, with or without end glyphs).

use vstd::prelude::*;

use crate::canvas::{DrawOp, Glyph};
use crate::config::{TabBarAlign, TabBarEnd};
use crate::layout::TabEntry;
use crate::nav::TabNav;
use crate::state::TabReorderDrag;
use crate::style::{Color, MODIFIER_BOLD, Style};

verus! {

// ---------------------------------------------------------------------------------------
// Cap and junction glyphs
// ---------------------------------------------------------------------------------------

/// A cap glyph flipped top to bottom.
pub open spec fn flipped_vertically(c: char) -> char {
    if c == '┌' { '└' }
    else if c == '└' { '┌' }
    else if c == '┐' { '┘' }
    else if c == '┘' { '┐' }
    else if c == '╭' { '╰' }
    else if c == '╰' { '╭' }
    else if c == '╮' { '╯' }
    else if c == '╯' { '╮' }
    else if c == '┬' { '┴' }
    else if c == '┴' { '┬' }
    else { c }
}

/// A cap glyph flipped left to right.
pub open spec fn flipped_horizontally(c: char) -> char {
    if c == '├' { '┤' }
    else if c == '┤' { '├' }
    else if c == '┐' { '┌' }
    else if c == '┌' { '┐' }
    else if c == '└' { '┘' }
    else if c == '┘' { '└' }
    else if c == '╮' { '╭' }
    else if c == '╭' { '╮' }
    else if c == '╯' { '╰' }
    else if c == '╰' { '╯' }
    else if c == '┬' { '┴' }
    else if c == '┴' { '┬' }
    else { c }
}

/// Flips a cap glyph top to bottom (`┌`↔`└`, `┐`↔`┘`, rounded alike, `┬`↔`┴`); other
/// glyphs are kept.
pub fn mirror_cap_vertically(symbol: char) -> (r: char)
    ensures
        r == flipped_vertically(symbol),
{
    match symbol {
        '┌' => '└',
        '└' => '┌',
        '┐' => '┘',
        '┘' => '┐',
        '╭' => '╰',
        '╰' => '╭',
        '╮' => '╯',
        '╯' => '╮',
        '┬' => '┴',
        '┴' => '┬',
        other => other,
    }
}

/// Flips a cap glyph left to right (`├`↔`┤`, `┐`↔`┌`, `└`↔`┘`, rounded alike); the tees
/// `┬`↔`┴` are exchanged as well; other glyphs are kept.
pub fn mirror_cap_horizontally(symbol: char) -> (r: char)
    ensures
        r == flipped_horizontally(symbol),
{
    match symbol {
        '├' => '┤',
        '┤' => '├',
        '┐' => '┌',
        '┌' => '┐',
        '└' => '┘',
        '┘' => '└',
        '╮' => '╭',
        '╭' => '╮',
        '╯' => '╰',
        '╰' => '╯',
        '┬' => '┴',
        '┴' => '┬',
        other => other,
    }
}

/// Flipping a cap twice the same way gives it back.
pub proof fn law_mirroring_twice_restores(c: char)
    ensures
        flipped_vertically(flipped_vertically(c)) == c,
        flipped_horizontally(flipped_horizontally(c)) == c,
{
}

/// Trailing baseline junction of a horizontal group: `│` when the last visible tab is
/// selected, `┤` otherwise.
pub open spec fn h_trailing_junction(last_visible_selected: bool) -> char {
    if last_visible_selected { '│' } else { '┤' }
}

/// Trailing baseline junction of a horizontal group.
pub fn horizontal_tab_trailing_junction(last_visible_selected: bool) -> (r: char)
    ensures
        r == h_trailing_junction(last_visible_selected),
{
    if last_visible_selected {
        '│'
    } else {
        '┤'
    }
}

/// Trailing margin cap of a horizontal baseline: `┐`/`╮` for a top strip, `┘`/`╯` for a
/// bottom strip; none without end caps.
pub open spec fn h_margin_trailing_cap(end_style: TabBarEnd, opens_down: bool) -> Option<char> {
    match end_style {
        TabBarEnd::Sqr => Some(if opens_down { '┐' } else { '┘' }),
        TabBarEnd::Rnd => Some(if opens_down { '╮' } else { '╯' }),
        TabBarEnd::NoEnd => None,
    }
}

/// Trailing margin cap of a horizontal baseline.
pub fn horizontal_margin_trailing_cap(end_style: TabBarEnd, opens_down: bool) -> (r: Option<char>)
    ensures
        r == h_margin_trailing_cap(end_style, opens_down),
{
    match end_style {
        TabBarEnd::Sqr => Some(
            if opens_down {
                '┐'
            } else {
                '┘'
            },
        ),
        TabBarEnd::Rnd => Some(
            if opens_down {
                '╮'
            } else {
                '╯'
            },
        ),
        TabBarEnd::NoEnd => None,
    }
}

/// Start-aligned baseline caps: leading `│` when the first visible tab is selected and `├`
/// otherwise; trailing as the margin cap. None without end caps.
pub open spec fn h_start_caps(end_style: TabBarEnd, opens_down: bool, first_visible_selected: bool) -> Option<
    (char, char),
> {
    match h_margin_trailing_cap(end_style, opens_down) {
        Some(trailing) => Some((if first_visible_selected { '│' } else { '├' }, trailing)),
        None => None,
    }
}

/// Start-aligned baseline caps of a horizontal strip.
pub fn horizontal_start_tab_bar_end_caps(
    end_style: TabBarEnd,
    opens_down: bool,
    first_visible_selected: bool,
) -> (r: Option<(char, char)>)
    ensures
        r == h_start_caps(end_style, opens_down, first_visible_selected),
{
    if end_style == TabBarEnd::NoEnd {
        return None;
    }
    let trailing = match horizontal_margin_trailing_cap(end_style, opens_down) {
        Some(t) => t,
        None => {
            return None;
        },
    };
    let leading = if first_visible_selected {
        '│'
    } else {
        '├'
    };
    Some((leading, trailing))
}

/// Baseline caps of a horizontal strip for `align`: centred and end-aligned strips lead
/// with the trailing cap mirrored; end-aligned ones trail with the group's junction.
pub open spec fn h_caps(
    end_style: TabBarEnd,
    align: TabBarAlign,
    first_visible_selected: bool,
    last_visible_selected: bool,
    opens_down: bool,
) -> Option<(char, char)> {
    match h_start_caps(end_style, opens_down, first_visible_selected) {
        None => None,
        Some((leading, trailing)) => match align {
            TabBarAlign::Start => Some((leading, trailing)),
            TabBarAlign::Center => Some((flipped_horizontally(trailing), trailing)),
            TabBarAlign::End => Some(
                (flipped_horizontally(trailing), h_trailing_junction(last_visible_selected)),
            ),
        },
    }
}

/// Whether the first (or last) visible entry is the selected tab.
pub open spec fn first_is(entries: Seq<TabEntry>, selected: usize) -> bool {
    entries.len() > 0 && entries[0].index == selected
}

/// Whether the last visible entry is the selected tab.
pub open spec fn last_is(entries: Seq<TabEntry>, selected: usize) -> bool {
    entries.len() > 0 && entries.last().index == selected
}

fn first_entry_is(entries: &Vec<TabEntry>, selected: usize) -> (r: bool)
    ensures
        r == first_is(entries@, selected),
{
    entries.len() > 0 && entries[0].index == selected
}

fn last_entry_is(entries: &Vec<TabEntry>, selected: usize) -> (r: bool)
    ensures
        r == last_is(entries@, selected),
{
    entries.len() > 0 && entries[entries.len() - 1].index == selected
}

/// Baseline caps of a horizontal strip for the visible `entries` and `align`.
pub fn horizontal_tab_bar_end_caps(
    end_style: TabBarEnd,
    align: TabBarAlign,
    entries: &Vec<TabEntry>,
    selected: usize,
    opens_down: bool,
) -> (r: Option<(char, char)>)
    ensures
        r == h_caps(
            end_style,
            align,
            first_is(entries@, selected),
            last_is(entries@, selected),
            opens_down,
        ),
{
    let first_visible_selected = first_entry_is(entries, selected);
    let last_visible_selected = last_entry_is(entries, selected);
    let (leading, trailing) = match horizontal_start_tab_bar_end_caps(
        end_style,
        opens_down,
        first_visible_selected,
    ) {
        Some(c) => c,
        None => {
            return None;
        },
    };
    match align {
        TabBarAlign::Start => Some((leading, trailing)),
        TabBarAlign::Center => Some((mirror_cap_horizontally(trailing), trailing)),
        TabBarAlign::End => Some(
            (mirror_cap_horizontally(trailing), horizontal_tab_trailing_junction(last_visible_selected)),
        ),
    }
}

/// Leading rail junction of a vertical group: `─` when the first visible tab is active,
/// `┬` otherwise.
pub open spec fn v_leading_junction(first_visible_active: bool) -> char {
    if first_visible_active { '─' } else { '┬' }
}

/// Trailing rail junction of a vertical group: `─` when the last visible tab is active,
/// `┴` otherwise.
pub open spec fn v_trailing_junction(last_visible_active: bool) -> char {
    if last_visible_active { '─' } else { '┴' }
}

/// Leading rail junction of a vertical group.
pub fn vertical_tab_leading_junction(first_visible_active: bool) -> (r: char)
    ensures
        r == v_leading_junction(first_visible_active),
{
    if first_visible_active {
        '─'
    } else {
        '┬'
    }
}

/// Trailing rail junction of a vertical group.
pub fn vertical_tab_trailing_junction(last_visible_active: bool) -> (r: char)
    ensures
        r == v_trailing_junction(last_visible_active),
{
    if last_visible_active {
        '─'
    } else {
        '┴'
    }
}

/// Trailing margin cap of a vertical rail: `└`/`╰` for a left rail, `┘`/`╯` for a right
/// rail; none without end caps.
pub open spec fn v_margin_trailing_cap(end_style: TabBarEnd, opens_right: bool) -> Option<char> {
    match end_style {
        TabBarEnd::Sqr => Some(if opens_right { '└' } else { '┘' }),
        TabBarEnd::Rnd => Some(if opens_right { '╰' } else { '╯' }),
        TabBarEnd::NoEnd => None,
    }
}

/// Trailing margin cap of a vertical rail.
pub fn vertical_margin_trailing_cap(end_style: TabBarEnd, opens_right: bool) -> (r: Option<char>)
    ensures
        r == v_margin_trailing_cap(end_style, opens_right),
{
    match end_style {
        TabBarEnd::Sqr => Some(
            if opens_right {
                '└'
            } else {
                '┘'
            },
        ),
        TabBarEnd::Rnd => Some(
            if opens_right {
                '╰'
            } else {
                '╯'
            },
        ),
        TabBarEnd::NoEnd => None,
    }
}

/// A rail cap as drawn on a rail opening right (kept) or left (mirrored).
pub open spec fn rail_cap(c: char, opens_right: bool) -> char {
    if opens_right { c } else { flipped_horizontally(c) }
}

/// A rail cap as drawn on a rail opening right (kept) or left (mirrored).
pub fn mirror_cap_for_vertical_rail(symbol: char, opens_right: bool) -> (r: char)
    ensures
        r == rail_cap(symbol, opens_right),
{
    if opens_right {
        symbol
    } else {
        mirror_cap_horizontally(symbol)
    }
}

/// Leading and trailing rail junctions of a vertical group.
pub fn vertical_tab_bar_junctions(first_visible_active: bool, last_visible_active: bool) -> (r: (
    char,
    char,
))
    ensures
        r == (v_leading_junction(first_visible_active), v_trailing_junction(last_visible_active)),
{
    (
        vertical_tab_leading_junction(first_visible_active),
        vertical_tab_trailing_junction(last_visible_active),
    )
}

/// Margin caps of a vertical rail: the trailing cap of a left rail, flipped top to bottom
/// for the leading one, both mirrored for a right rail.
pub open spec fn v_margin_caps(end_style: TabBarEnd, opens_right: bool) -> (Option<char>, Option<char>) {
    match v_margin_trailing_cap(end_style, true) {
        Some(t) => (
            Some(rail_cap(flipped_vertically(t), opens_right)),
            Some(rail_cap(t, opens_right)),
        ),
        None => (None, None),
    }
}

/// Margin caps of a vertical rail.
pub fn vertical_tab_bar_margin_caps(end_style: TabBarEnd, opens_right: bool) -> (r: (
    Option<char>,
    Option<char>,
))
    ensures
        r == v_margin_caps(end_style, opens_right),
{
    match vertical_margin_trailing_cap(end_style, true) {
        Some(t) => (
            Some(mirror_cap_for_vertical_rail(mirror_cap_vertically(t), opens_right)),
            Some(mirror_cap_for_vertical_rail(t, opens_right)),
        ),
        None => (None, None),
    }
}

// ---------------------------------------------------------------------------------------
// Styles
// ---------------------------------------------------------------------------------------

/// Whether `tab_index` is the source of an armed drag.
pub open spec fn drag_source(tab_index: usize, reorder_drag: Option<TabReorderDrag>) -> bool {
    reorder_drag matches Some(d) && d.armed && d.source == tab_index
}

/// Whether `tab_index` is the source of an armed drag.
pub fn is_reorder_drag_source(tab_index: usize, reorder_drag: Option<TabReorderDrag>) -> (r: bool)
    ensures
        r == drag_source(tab_index, reorder_drag),
{
    match reorder_drag {
        Some(drag) => drag.armed && drag.source == tab_index,
        None => false,
    }
}

/// The highlight style: foreground indexed color 46.
pub open spec fn highlight_46() -> Style {
    Style { fg: Some(Color::Indexed(46)), bg: None, add_modifier: 0, sub_modifier: 0 }
}

/// Default drag highlight: foreground indexed color 46.
pub fn default_reorder_drag_style() -> (s: Style)
    ensures
        s == highlight_46(),
{
    Style::new().fg(Color::Indexed(46))
}

/// Default selection-flash border: foreground indexed color 46.
pub fn default_selection_flash_style() -> (s: Style)
    ensures
        s == highlight_46(),
{
    Style::new().fg(Color::Indexed(46))
}

impl<'a> TabNav<'a> {
    /// The drag style in use.
    pub open spec fn drag_style_spec(&self) -> Style {
        match self.reorder_drag_style {
            Some(s) => s,
            None => highlight_46(),
        }
    }

    /// The selection-flash style in use.
    pub open spec fn flash_style_spec(&self) -> Style {
        match self.selection_flash_style {
            Some(s) => s,
            None => highlight_46(),
        }
    }

    /// Border style of a tab: the drag style's foreground on the base style while it is
    /// dragged; the flash style's foreground while its selection flash is lit (and
    /// flashing is enabled); the base style otherwise.
    pub open spec fn border_style_for(&self, base: Style, dragging: bool, flash: bool) -> Style {
        if dragging {
            match self.drag_style_spec().fg {
                Some(fg) => Style { fg: Some(fg), ..base },
                None => base,
            }
        } else if self.selection_flash_enabled && flash {
            match self.flash_style_spec().fg {
                Some(fg) => Style { fg: Some(fg), ..base },
                None => base,
            }
        } else {
            base
        }
    }

    /// Label style of a tab: the drag style (bold when highlighting is bold or the tab is
    /// active) while dragged; the highlight style (bold when highlighting is bold) when
    /// active; the inactive style otherwise.
    pub open spec fn text_style_for(&self, active: bool, dragging: bool) -> Style {
        if dragging {
            let s = self.drag_style_spec();
            if self.highlight_bold || active {
                Style {
                    add_modifier: s.add_modifier | MODIFIER_BOLD,
                    sub_modifier: s.sub_modifier & !MODIFIER_BOLD,
                    ..s
                }
            } else {
                s
            }
        } else if active {
            let s = self.highlight_style;
            if self.highlight_bold {
                Style {
                    add_modifier: s.add_modifier | MODIFIER_BOLD,
                    sub_modifier: s.sub_modifier & !MODIFIER_BOLD,
                    ..s
                }
            } else {
                s
            }
        } else {
            self.style
        }
    }
}

fn effective_reorder_drag_style(nav: &TabNav) -> (s: Style)
    ensures
        s == nav.drag_style_spec(),
{
    match nav.reorder_drag_style {
        Some(s) => s,
        None => default_reorder_drag_style(),
    }
}

fn effective_selection_flash_style(nav: &TabNav) -> (s: Style)
    ensures
        s == nav.flash_style_spec(),
{
    match nav.selection_flash_style {
        Some(s) => s,
        None => default_selection_flash_style(),
    }
}

/// Border style of a tab (see [`TabNav::border_style_for`]).
pub fn tab_border_style(nav: &TabNav, base: Style, dragging: bool, selection_flash: bool) -> (s:
    Style)
    ensures
        s == nav.border_style_for(base, dragging, selection_flash),
{
    if dragging {
        let drag = effective_reorder_drag_style(nav);
        if let Some(fg) = drag.fg {
            return base.fg(fg);
        }
        return base;
    }
    if nav.selection_flash_enabled && selection_flash {
        let flash = effective_selection_flash_style(nav);
        if let Some(fg) = flash.fg {
            return base.fg(fg);
        }
    }
    base
}

/// Label style of a tab (see [`TabNav::text_style_for`]).
pub fn tab_text_style(nav: &TabNav, active: bool, dragging: bool) -> (s: Style)
    ensures
        s == nav.text_style_for(active, dragging),
{
    if dragging {
        let mut style = effective_reorder_drag_style(nav);
        if nav.highlight_bold || active {
            style = style.add_modifier(MODIFIER_BOLD);
        }
        return style;
    }
    if active {
        let mut style = nav.highlight_style;
        if nav.highlight_bold {
            style = style.add_modifier(MODIFIER_BOLD);
        }
        style
    } else {
        nav.style
    }
}

// ---------------------------------------------------------------------------------------
// Drawing primitives
// ---------------------------------------------------------------------------------------

/// One drawing operation.
pub open spec fn op<'a>(x: int, y: int, glyph: Glyph<'a>, style: Style) -> DrawOp<'a> {
    DrawOp { x: x as u16, y: y as u16, glyph, style }
}

/// `n` operations along a row from column `x0`.
pub open spec fn row_ops<'a>(x0: int, y: int, n: int, glyph: Glyph<'a>, style: Style) -> Seq<DrawOp<'a>> {
    Seq::new(if n > 0 { n as nat } else { 0 }, |i: int| op(x0 + i, y, glyph, style))
}

/// `n` operations down a column from row `y0`.
pub open spec fn col_ops<'a>(x: int, y0: int, n: int, glyph: Glyph<'a>, style: Style) -> Seq<DrawOp<'a>> {
    Seq::new(if n > 0 { n as nat } else { 0 }, |i: int| op(x, y0 + i, glyph, style))
}

/// A horizontal run with its own end glyphs: `first` at `left`, `fill` strictly between,
/// `last` at `right`.
pub open spec fn capped_row<'a>(
    left: int,
    right: int,
    y: int,
    first: Glyph<'a>,
    fill: Glyph<'a>,
    last: Glyph<'a>,
    style: Style,
) -> Seq<DrawOp<'a>> {
    seq![op(left, y, first, style)] + row_ops(left + 1, y, right - left - 1, fill, style) + seq![
        op(right, y, last, style),
    ]
}

/// A vertical run with its own end glyphs: `first` at `top`, `fill` strictly between,
/// `last` at `bottom`.
pub open spec fn capped_col<'a>(
    x: int,
    top: int,
    bottom: int,
    first: Glyph<'a>,
    fill: Glyph<'a>,
    last: Glyph<'a>,
    style: Style,
) -> Seq<DrawOp<'a>> {
    seq![op(x, top, first, style)] + col_ops(x, top + 1, bottom - top - 1, fill, style) + seq![
        op(x, bottom, last, style),
    ]
}

/// Side borders of a horizontal tab: for each row strictly between `top` and `bottom`, the
/// left glyph at `left` then the right glyph at `right`.
pub open spec fn side_pair_ops<'a>(
    left: int,
    right: int,
    top: int,
    bottom: int,
    gl: Glyph<'a>,
    gr: Glyph<'a>,
    style: Style,
) -> Seq<DrawOp<'a>> {
    let n = if bottom - top - 1 > 0 { bottom - top - 1 } else { 0 };
    Seq::new(
        (2 * n) as nat,
        |k: int|
            if k % 2 == 0 {
                op(left, top + 1 + k / 2, gl, style)
            } else {
                op(right, top + 1 + k / 2, gr, style)
            },
    )
}

pub(crate) fn push_op<'a>(ops: &mut Vec<DrawOp<'a>>, x: u16, y: u16, glyph: Glyph<'a>, style: Style)
    ensures
        final(ops)@ == old(ops)@.push(op(x as int, y as int, glyph, style)),
{
    ops.push(DrawOp { x, y, glyph, style });
}

/// Appends `glyph` at columns `start..end` of row `y`.
pub(crate) fn push_row<'a>(ops: &mut Vec<DrawOp<'a>>, start: u16, end: u16, y: u16, glyph: Glyph<'a>, style: Style)
    ensures
        final(ops)@ == old(ops)@ + row_ops(start as int, y as int, end - start, glyph, style),
{
    let ghost base = ops@;
    if start >= end {
        assert(row_ops(start as int, y as int, end - start, glyph, style) =~= Seq::<DrawOp>::empty());
        assert(ops@ =~= base + Seq::<DrawOp>::empty());
        return;
    }
    let mut x = start;
    while x < end
        invariant
            start <= x <= end,
            ops@ == base + row_ops(start as int, y as int, x - start, glyph, style),
        decreases end - x,
    {
        proof {
            assert(row_ops(start as int, y as int, x + 1 - start, glyph, style) =~= row_ops(
                start as int,
                y as int,
                x - start,
                glyph,
                style,
            ).push(op(x as int, y as int, glyph, style)));
        }
        push_op(ops, x, y, glyph, style);
        x = x + 1;
    }
}

/// Appends `glyph` at rows `start..end` of column `x`.
pub(crate) fn push_col<'a>(ops: &mut Vec<DrawOp<'a>>, x: u16, start: u16, end: u16, glyph: Glyph<'a>, style: Style)
    ensures
        final(ops)@ == old(ops)@ + col_ops(x as int, start as int, end - start, glyph, style),
{
    let ghost base = ops@;
    if start >= end {
        assert(col_ops(x as int, start as int, end - start, glyph, style) =~= Seq::<DrawOp>::empty());
        assert(ops@ =~= base + Seq::<DrawOp>::empty());
        return;
    }
    let mut y = start;
    while y < end
        invariant
            start <= y <= end,
            ops@ == base + col_ops(x as int, start as int, y - start, glyph, style),
        decreases end - y,
    {
        proof {
            assert(col_ops(x as int, start as int, y + 1 - start, glyph, style) =~= col_ops(
                x as int,
                start as int,
                y - start,
                glyph,
                style,
            ).push(op(x as int, y as int, glyph, style)));
        }
        push_op(ops, x, y, glyph, style);
        y = y + 1;
    }
}

/// Appends a capped row: `first` at `left`, `fill` strictly between, `last` at `right`.
pub(crate) fn push_capped_row<'a>(
    ops: &mut Vec<DrawOp<'a>>,
    left: u16,
    right: u16,
    y: u16,
    first: Glyph<'a>,
    fill: Glyph<'a>,
    last: Glyph<'a>,
    style: Style,
)
    requires
        left < u16::MAX,
    ensures
        final(ops)@ == old(ops)@ + capped_row(
            left as int,
            right as int,
            y as int,
            first,
            fill,
            last,
            style,
        ),
{
    let ghost base = ops@;
    push_op(ops, left, y, first, style);
    push_row(ops, left + 1, right, y, fill, style);
    push_op(ops, right, y, last, style);
    assert(ops@ =~= base + capped_row(left as int, right as int, y as int, first, fill, last, style));
}

/// Appends a capped column: `first` at `top`, `fill` strictly between, `last` at `bottom`.
pub(crate) fn push_capped_col<'a>(
    ops: &mut Vec<DrawOp<'a>>,
    x: u16,
    top: u16,
    bottom: u16,
    first: Glyph<'a>,
    fill: Glyph<'a>,
    last: Glyph<'a>,
    style: Style,
)
    requires
        top < u16::MAX,
    ensures
        final(ops)@ == old(ops)@ + capped_col(
            x as int,
            top as int,
            bottom as int,
            first,
            fill,
            last,
            style,
        ),
{
    let ghost base = ops@;
    push_op(ops, x, top, first, style);
    push_col(ops, x, top + 1, bottom, fill, style);
    push_op(ops, x, bottom, last, style);
    assert(ops@ =~= base + capped_col(x as int, top as int, bottom as int, first, fill, last, style));
}

/// Appends the side borders of a horizontal tab.
pub(crate) fn push_side_pairs<'a>(
    ops: &mut Vec<DrawOp<'a>>,
    left: u16,
    right: u16,
    top: u16,
    bottom: u16,
    gl: Glyph<'a>,
    gr: Glyph<'a>,
    style: Style,
)
    requires
        top < u16::MAX,
    ensures
        final(ops)@ == old(ops)@ + side_pair_ops(
            left as int,
            right as int,
            top as int,
            bottom as int,
            gl,
            gr,
            style,
        ),
{
    let ghost base = ops@;
    let mut y = top + 1;
    while y < bottom
        invariant
            top < y,
            top + 1 <= bottom ==> y <= bottom,
            top + 1 > bottom ==> y == top + 1,
            ops@ == base + side_pair_ops(left as int, right as int, top as int, y as int, gl, gr, style),
        decreases bottom - y,
    {
        push_op(ops, left, y, gl, style);
        push_op(ops, right, y, gr, style);
        proof {
            assert(ops@ =~= base + side_pair_ops(
                left as int,
                right as int,
                top as int,
                y + 1,
                gl,
                gr,
                style,
            ));
        }
        y = y + 1;
    }
    proof {
        if top + 1 > bottom {
            assert(side_pair_ops(left as int, right as int, top as int, bottom as int, gl, gr, style)
                =~= side_pair_ops(left as int, right as int, top as int, (top + 1) as int, gl, gr, style));
        }
    }
}

} // verus!
