//! Drawing a whole tab strip: the drawing operations for each visible tab, the baseline,
//! overflow markers and baseline end caps, and rendering them onto a [`Canvas`].

use vstd::prelude::*;

use crate::canvas::{Canvas, DrawOp, Glyph, painted};
use crate::config::{HorizontalPosition, TabBarAlign, TabBarEnd, TabOrientation, VerticalPosition};
use crate::geometry::{sat_add, sat_sub};
use crate::geometry::Rect;
use crate::input::lemma_viewport_indices;
use crate::layout::{
    TabEntry, TabViewport, ViewportModel, auto_vertical_tab_height,
    checked_auto_vertical_tab_height, compute_viewport,
    effective_padding, effective_tab_bar_end, flow_bounds, group_span, horizontal_strip_height,
    horizontal_strip_origin_y, label_origin, vertical_rail_origin_x, vertical_rail_width,
};
use crate::nav::{DEFAULT_INDICATOR, TabNav};
use crate::render::{
    capped_col, capped_row, col_ops, drag_source, first_is, h_caps, h_margin_trailing_cap,
    h_trailing_junction, horizontal_margin_trailing_cap, horizontal_tab_bar_end_caps,
    horizontal_tab_trailing_junction, is_reorder_drag_source, last_is, op, push_capped_col,
    push_capped_row, push_col, push_op, push_row, push_side_pairs, row_ops, side_pair_ops,
    tab_border_style, tab_text_style, v_leading_junction, v_margin_caps, v_trailing_junction,
    vertical_tab_bar_junctions, vertical_tab_bar_margin_caps,
};
use crate::state::{
    SelectionFlash, TabNavState, TabReorderDrag, flash_lit, flash_lit_after, millis_since,
};
use crate::style::Style;
use crate::text::{
    char_cols, char_display_width, label_char, shown_char, split_lines, str_chars, text_lines,
};

verus! {

// ---------------------------------------------------------------------------------------
// Labels
// ---------------------------------------------------------------------------------------

/// A one-row label drawn from column `col`: each character at its column as long as it is
/// visible (nonzero width) and ends at or before `max_x`; drawing stops at the first one
/// that does not.
pub open spec fn hlabel_ops<'a>(
    chars: Seq<char>,
    col: int,
    max_x: int,
    y: int,
    all_caps: bool,
    style: Style,
) -> Seq<DrawOp<'a>>
    decreases chars.len(),
{
    if chars.len() == 0 {
        Seq::empty()
    } else {
        let w = char_cols(chars[0], all_caps);
        if w == 0 || col > max_x || sat_sub(sat_add(col, w), 1) > max_x {
            Seq::empty()
        } else {
            seq![op(col, y, Glyph::Char(shown_char(chars[0], all_caps)), style)] + hlabel_ops(
                chars.drop_first(),
                sat_add(col, w),
                max_x,
                y,
                all_caps,
                style,
            )
        }
    }
}

/// One line of a stacked label: its characters one per column from `x0`, as far as column
/// `xmax`.
pub open spec fn vline_ops<'a>(
    line: Seq<char>,
    x0: int,
    y: int,
    xmax: int,
    all_caps: bool,
    style: Style,
) -> Seq<DrawOp<'a>> {
    let room = xmax - x0 + 1;
    let n = if room <= 0 {
        0
    } else if room < line.len() {
        room
    } else {
        line.len() as int
    };
    Seq::new(n as nat, |c: int| op(x0 + c, y, Glyph::Char(shown_char(line[c], all_caps)), style))
}

/// The lines of a stacked label from line `r` on, line `r` on row `y0 + r`, for the rows
/// before `max_y`.
pub open spec fn vrows_ops<'a>(
    lines: Seq<Seq<char>>,
    r: int,
    x0: int,
    y0: int,
    max_y: int,
    xmax: int,
    all_caps: bool,
    style: Style,
) -> Seq<DrawOp<'a>>
    decreases lines.len() - r,
{
    if r < 0 || r >= lines.len() || y0 + r >= max_y {
        Seq::empty()
    } else {
        vline_ops(lines[r], x0, y0 + r, xmax, all_caps, style) + vrows_ops(
            lines,
            r + 1,
            x0,
            y0,
            max_y,
            xmax,
            all_caps,
            style,
        )
    }
}

/// Appends the operations of a one-row label.
fn push_hlabel<'a>(
    ops: &mut Vec<DrawOp<'a>>,
    chars: &Vec<char>,
    col0: u16,
    max_x: u16,
    y: u16,
    all_caps: bool,
    style: Style,
)
    ensures
        final(ops)@ == old(ops)@ + hlabel_ops(
            chars@,
            col0 as int,
            max_x as int,
            y as int,
            all_caps,
            style,
        ),
{
    let ghost base = ops@;
    let ghost whole = hlabel_ops(chars@, col0 as int, max_x as int, y as int, all_caps, style);
    let mut col = col0;
    let mut i: usize = 0;
    assert(chars@.skip(0) =~= chars@);
    assert(base + whole =~= ops@ + whole);
    while i < chars.len()
        invariant
            i <= chars@.len(),
            base == old(ops)@,
            whole == hlabel_ops(chars@, col0 as int, max_x as int, y as int, all_caps, style),
            base + whole == ops@ + hlabel_ops(
                chars@.skip(i as int),
                col as int,
                max_x as int,
                y as int,
                all_caps,
                style,
            ),
        decreases chars@.len() - i,
    {
        let ghost rest = chars@.skip(i as int);
        assert(rest[0] == chars@[i as int]);
        let ch = chars[i];
        let width = char_display_width(ch, all_caps);
        if width == 0 || col > max_x || col.saturating_add(width).saturating_sub(1) > max_x {
            assert(hlabel_ops(rest, col as int, max_x as int, y as int, all_caps, style)
                =~= Seq::<DrawOp>::empty());
            assert(ops@ + Seq::<DrawOp>::empty() =~= ops@);
            return;
        }
        let ghost o = op(col as int, y as int, Glyph::Char(shown_char(ch, all_caps)), style);
        assert(rest.drop_first() =~= chars@.skip(i + 1));
        assert(ops@.push(o) + hlabel_ops(
            chars@.skip(i + 1),
            sat_add(col as int, width as int),
            max_x as int,
            y as int,
            all_caps,
            style,
        ) =~= ops@ + hlabel_ops(rest, col as int, max_x as int, y as int, all_caps, style));
        ops.push(DrawOp { x: col, y, glyph: Glyph::Char(label_char(ch, all_caps)), style });
        col = col.saturating_add(width);
        i += 1;
    }
    assert(chars@.skip(i as int) =~= Seq::<char>::empty());
    assert(ops@ + Seq::<DrawOp>::empty() =~= ops@);
}

/// Appends the operations of one line of a stacked label.
fn push_vline<'a>(
    ops: &mut Vec<DrawOp<'a>>,
    line: &Vec<char>,
    x0: u16,
    y: u16,
    xmax: u16,
    all_caps: bool,
    style: Style,
)
    ensures
        final(ops)@ == old(ops)@ + vline_ops(line@, x0 as int, y as int, xmax as int, all_caps, style),
{
    let ghost base = ops@;
    let room: usize = if xmax >= x0 {
        (xmax - x0) as usize + 1
    } else {
        0
    };
    let n: usize = if room < line.len() {
        room
    } else {
        line.len()
    };
    let ghost all = vline_ops(line@, x0 as int, y as int, xmax as int, all_caps, style);
    assert(all.len() == n);
    let mut c: usize = 0;
    while c < n
        invariant
            c <= n,
            n <= line@.len(),
            n <= room,
            room == (if xmax >= x0 { xmax - x0 + 1 } else { 0 }),
            all == vline_ops(line@, x0 as int, y as int, xmax as int, all_caps, style),
            all.len() == n,
            ops@ == base + all.take(c as int),
        decreases n - c,
    {
        let x: u16 = x0 + c as u16;
        assert(x == x0 + c);
        ops.push(DrawOp { x, y, glyph: Glyph::Char(label_char(line[c], all_caps)), style });
        assert(all.take(c + 1) =~= all.take(c as int).push(all[c as int]));
        c += 1;
    }
    assert(all.take(n as int) =~= all);
}

/// Appends the operations of a stacked label whose lines are `lines` (viewed as `tl`).
fn push_vrows<'a>(
    ops: &mut Vec<DrawOp<'a>>,
    lines: &Vec<Vec<char>>,
    Ghost(tl): Ghost<Seq<Seq<char>>>,
    x0: u16,
    y0: u16,
    max_y: u16,
    xmax: u16,
    all_caps: bool,
    style: Style,
)
    requires
        lines@.len() == tl.len(),
        forall|i: int| 0 <= i < tl.len() ==> #[trigger] lines@[i]@ == tl[i],
    ensures
        final(ops)@ == old(ops)@ + vrows_ops(
            tl,
            0,
            x0 as int,
            y0 as int,
            max_y as int,
            xmax as int,
            all_caps,
            style,
        ),
{
    let ghost base = ops@;
    let ghost whole = vrows_ops(tl, 0, x0 as int, y0 as int, max_y as int, xmax as int, all_caps, style);
    let rows: usize = if max_y > y0 {
        (max_y - y0) as usize
    } else {
        0
    };
    let n: usize = if rows < lines.len() {
        rows
    } else {
        lines.len()
    };
    assert(base + whole =~= ops@ + whole);
    let mut r: usize = 0;
    while r < n
        invariant
            r <= n,
            n <= lines@.len(),
            n <= rows,
            rows == (if max_y > y0 { max_y - y0 } else { 0 }),
            lines@.len() == tl.len(),
            forall|i: int| 0 <= i < tl.len() ==> #[trigger] lines@[i]@ == tl[i],
            whole == vrows_ops(tl, 0, x0 as int, y0 as int, max_y as int, xmax as int, all_caps, style),
            base + whole == ops@ + vrows_ops(
                tl,
                r as int,
                x0 as int,
                y0 as int,
                max_y as int,
                xmax as int,
                all_caps,
                style,
            ),
        decreases n - r,
    {
        let y: u16 = y0 + r as u16;
        assert(y == y0 + r);
        let ghost before = ops@;
        let ghost line_ops = vline_ops(tl[r as int], x0 as int, y as int, xmax as int, all_caps, style);
        let ghost later = vrows_ops(tl, r + 1, x0 as int, y0 as int, max_y as int, xmax as int, all_caps, style);
        push_vline(ops, &lines[r], x0, y, xmax, all_caps, style);
        assert(before + (line_ops + later) =~= (before + line_ops) + later);
        r += 1;
    }
    assert(vrows_ops(tl, r as int, x0 as int, y0 as int, max_y as int, xmax as int, all_caps, style)
        =~= Seq::<DrawOp>::empty());
    assert(ops@ + Seq::<DrawOp>::empty() =~= ops@);
}

/// Appending six pieces one after another appends their concatenation.
proof fn lemma_chain6<A>(
    base: Seq<A>,
    p1: Seq<A>,
    p2: Seq<A>,
    p3: Seq<A>,
    p4: Seq<A>,
    p5: Seq<A>,
    p6: Seq<A>,
)
    ensures
        base + p1 + p2 + p3 + p4 + p5 + p6 == base + (p1 + p2 + p3 + p4 + p5 + p6),
{
    assert(base + p1 + p2 + p3 + p4 + p5 + p6 =~= base + (p1 + p2 + p3 + p4 + p5 + p6));
}

/// Appending five pieces one after another appends their concatenation.
proof fn lemma_chain5<A>(base: Seq<A>, p1: Seq<A>, p2: Seq<A>, p3: Seq<A>, p4: Seq<A>, p5: Seq<A>)
    ensures
        base + p1 + p2 + p3 + p4 + p5 == base + (p1 + p2 + p3 + p4 + p5),
{
    assert(base + p1 + p2 + p3 + p4 + p5 =~= base + (p1 + p2 + p3 + p4 + p5));
}

// ---------------------------------------------------------------------------------------
// One tab
// ---------------------------------------------------------------------------------------

impl<'a> TabNav<'a> {
    /// The marker drawn beside the active label: the configured one once set explicitly;
    /// otherwise the default marker for horizontal strips and none for vertical rails.
    pub open spec fn indicator_spec(&self) -> Option<&'a str> {
        if self.indicator_explicit {
            self.indicator
        } else if self.orientation == TabOrientation::Vertical {
            None
        } else {
            Some(DEFAULT_INDICATOR)
        }
    }

    /// Whether a visible tab can be drawn with coordinates in `u16`: it ends within the
    /// coordinate space and is not empty at the origin, and its label origin (and, for a
    /// stacked label, its last label row) lies within the coordinate space.
    pub open spec fn entry_drawable(&self, e: TabEntry) -> bool {
        let pad = self.padding_spec();
        &&& 1 <= e.offset + e.size <= u16::MAX
        &&& match self.orientation {
            TabOrientation::Horizontal => e.offset + 1 + pad.left <= u16::MAX && pad.right
                < u16::MAX,
            TabOrientation::Vertical => e.offset + 1 + pad.top <= u16::MAX && e.offset
                + self.auto_height(e.index as int) <= u16::MAX,
        }
    }

    /// The top border of a tab of a top strip (nothing for a bottom strip, whose active
    /// tab is open at the top).
    pub open spec fn h_tab_top(&self, e: TabEntry, top_y: int, opens_down: bool, tbs: Style) -> Seq<
        DrawOp<'a>,
    > {
        let b = self.border_set;
        if opens_down {
            capped_row(
                e.offset as int,
                e.offset + e.size - 1,
                top_y,
                Glyph::Text(b.top_left),
                Glyph::Text(b.horizontal_top),
                Glyph::Text(b.top_right),
                tbs,
            )
        } else {
            Seq::empty()
        }
    }

    /// The side borders of a tab of a horizontal strip, on the rows between `top_y` and
    /// `bot_y`.
    pub open spec fn h_tab_sides(&self, e: TabEntry, top_y: int, bot_y: int, tbs: Style) -> Seq<
        DrawOp<'a>,
    > {
        side_pair_ops(
            e.offset as int,
            e.offset + e.size - 1,
            top_y,
            bot_y,
            Glyph::Text(self.border_set.vertical_left),
            Glyph::Text(self.border_set.vertical_right),
            tbs,
        )
    }

    /// The label of a tab of a horizontal strip: from the left padding on, cut at the right
    /// padding.
    pub open spec fn h_tab_label(&self, e: TabEntry, label_y: int, ts: Style) -> Seq<DrawOp<'a>> {
        let pad = self.padding_spec();
        hlabel_ops(
            self.label(e.index as int),
            e.offset + 1 + pad.left,
            sat_sub(e.offset + e.size - 1, 1 + pad.right),
            label_y,
            self.all_caps,
            ts,
        )
    }

    /// The bottom border of a tab of a horizontal strip.
    pub open spec fn h_tab_bottom(&self, e: TabEntry, bot_y: int, tbs: Style) -> Seq<DrawOp<'a>> {
        let b = self.border_set;
        capped_row(
            e.offset as int,
            e.offset + e.size - 1,
            bot_y,
            Glyph::Text(b.bottom_left),
            Glyph::Text(b.horizontal_bottom),
            Glyph::Text(b.bottom_right),
            tbs,
        )
    }

    /// The indicator beside an active horizontal label, in the cell before the label (or
    /// just inside the border without left padding).
    pub open spec fn h_tab_indicator(&self, e: TabEntry, label_y: int, ts: Style) -> Seq<DrawOp<'a>> {
        let pad = self.padding_spec();
        match self.indicator_spec() {
            Some(sym) => seq![
                op(
                    if pad.left > 0 {
                        e.offset + pad.left
                    } else {
                        e.offset + 1
                    },
                    label_y,
                    Glyph::Text(sym),
                    ts,
                ),
            ],
            None => Seq::empty(),
        }
    }

    /// The edge of a horizontal tab toward the content: open (corners turned outward and
    /// blanks between) for the active tab, with the bottom border for a bottom strip;
    /// tees into the baseline for an inactive tab.
    pub open spec fn h_tab_edge(
        &self,
        e: TabEntry,
        top_y: int,
        bot_y: int,
        opens_down: bool,
        active: bool,
        tbs: Style,
    ) -> Seq<DrawOp<'a>> {
        let b = self.border_set;
        let left = e.offset as int;
        let right = e.offset + e.size - 1;
        if active {
            if opens_down {
                capped_row(
                    left,
                    right,
                    bot_y,
                    Glyph::Text(b.bottom_right),
                    Glyph::Char(' '),
                    Glyph::Text(b.bottom_left),
                    tbs,
                )
            } else {
                capped_row(
                    left,
                    right,
                    top_y,
                    Glyph::Text(b.top_right),
                    Glyph::Char(' '),
                    Glyph::Text(b.top_left),
                    tbs,
                ) + self.h_tab_bottom(e, bot_y, tbs)
            }
        } else if opens_down {
            seq![op(left, bot_y, Glyph::Char('┴'), tbs), op(right, bot_y, Glyph::Char('┴'), tbs)]
        } else {
            seq![op(left, top_y, Glyph::Char('┬'), tbs), op(right, top_y, Glyph::Char('┬'), tbs)]
                + self.h_tab_bottom(e, bot_y, tbs)
        }
    }

    /// Drawing operations for one tab of a horizontal strip whose rows are `top_y` to
    /// `bot_y`, label on row `label_y`, opening down (top strip) or up (bottom strip):
    /// the border of the tab in its border style, its label in its label style, then for
    /// the active tab the indicator and an open edge toward the content, and for an
    /// inactive tab junctions into the baseline.
    pub open spec fn h_tab_ops(
        &self,
        e: TabEntry,
        top_y: int,
        bot_y: int,
        label_y: int,
        opens_down: bool,
        selected: usize,
        drag: Option<TabReorderDrag>,
        lit: Option<usize>,
    ) -> Seq<DrawOp<'a>> {
        let active = e.index == selected;
        let dragging = drag_source(e.index, drag);
        let ts = self.text_style_for(active, dragging);
        let tbs = self.border_style_for(self.border_style, dragging, lit == Some(e.index));
        let ind = if active {
            self.h_tab_indicator(e, label_y, ts)
        } else {
            Seq::empty()
        };
        self.h_tab_top(e, top_y, opens_down, tbs) + self.h_tab_sides(e, top_y, bot_y, tbs)
            + self.h_tab_label(e, label_y, ts) + ind + self.h_tab_edge(
            e,
            top_y,
            bot_y,
            opens_down,
            active,
            tbs,
        )
    }
}

impl<'a> TabNav<'a> {
    /// The top border of a tab of a vertical rail spanning columns `left_x` to `right_x`.
    pub open spec fn v_tab_top(&self, e: TabEntry, left_x: int, right_x: int, tbs: Style) -> Seq<
        DrawOp<'a>,
    > {
        let b = self.border_set;
        capped_row(
            left_x,
            right_x,
            e.offset as int,
            Glyph::Text(b.top_left),
            Glyph::Text(b.horizontal_top),
            Glyph::Text(b.top_right),
            tbs,
        )
    }

    /// The outer side border of a tab of a vertical rail: its left side on a left rail,
    /// its right side on a right rail.
    pub open spec fn v_tab_side(
        &self,
        e: TabEntry,
        left_x: int,
        right_x: int,
        opens_right: bool,
        tbs: Style,
    ) -> Seq<DrawOp<'a>> {
        let b = self.border_set;
        if opens_right {
            col_ops(left_x, e.offset + 1, e.size - 2, Glyph::Text(b.vertical_left), tbs)
        } else {
            col_ops(right_x, e.offset + 1, e.size - 2, Glyph::Text(b.vertical_right), tbs)
        }
    }

    /// The stacked label of a tab of a vertical rail: its lines from the label origin
    /// down, on the rows its default height leaves inside the border, each cut at the
    /// right padding.
    pub open spec fn v_tab_label(&self, e: TabEntry, left_x: int, right_x: int, ts: Style) -> Seq<
        DrawOp<'a>,
    > {
        let pad = self.padding_spec();
        vrows_ops(
            text_lines(self.label(e.index as int)),
            0,
            left_x + 1 + pad.left,
            e.offset + 1 + pad.top,
            e.offset + self.auto_height(e.index as int) - 1,
            sat_sub(right_x, 1 + pad.right),
            self.all_caps,
            ts,
        )
    }

    /// The bottom border of a tab of a vertical rail.
    pub open spec fn v_tab_bottom(&self, e: TabEntry, left_x: int, right_x: int, tbs: Style) -> Seq<
        DrawOp<'a>,
    > {
        let b = self.border_set;
        capped_row(
            left_x,
            right_x,
            e.offset + e.size - 1,
            Glyph::Text(b.bottom_left),
            Glyph::Text(b.horizontal_bottom),
            Glyph::Text(b.bottom_right),
            tbs,
        )
    }

    /// The indicator of an active vertical tab: above the first label line, when top
    /// padding leaves room for it.
    pub open spec fn v_tab_indicator(&self, e: TabEntry, left_x: int, ts: Style) -> Seq<DrawOp<'a>> {
        let pad = self.padding_spec();
        match self.indicator_spec() {
            Some(sym) => if pad.top > 0 {
                seq![op(left_x + 1 + pad.left, e.offset + pad.top, Glyph::Text(sym), ts)]
            } else {
                Seq::empty()
            },
            None => Seq::empty(),
        }
    }

    /// The edge of a vertical tab toward the content: open (corners turned outward and
    /// blanks between) for the active tab; tees into the rail for an inactive tab.
    pub open spec fn v_tab_edge(
        &self,
        e: TabEntry,
        left_x: int,
        right_x: int,
        opens_right: bool,
        active: bool,
        tbs: Style,
    ) -> Seq<DrawOp<'a>> {
        let b = self.border_set;
        let top = e.offset as int;
        let bot = e.offset + e.size - 1;
        if active {
            if opens_right {
                capped_col(
                    right_x,
                    top,
                    bot,
                    Glyph::Text(b.bottom_right),
                    Glyph::Char(' '),
                    Glyph::Text(b.top_right),
                    tbs,
                )
            } else {
                capped_col(
                    left_x,
                    top,
                    bot,
                    Glyph::Text(b.bottom_left),
                    Glyph::Char(' '),
                    Glyph::Text(b.top_left),
                    tbs,
                )
            }
        } else if opens_right {
            seq![op(right_x, top, Glyph::Char('┤'), tbs), op(right_x, bot, Glyph::Char('┤'), tbs)]
        } else {
            seq![op(left_x, top, Glyph::Char('├'), tbs), op(left_x, bot, Glyph::Char('├'), tbs)]
        }
    }

    /// Drawing operations for one tab of a vertical rail spanning columns `left_x` to
    /// `right_x`, opening right (left rail) or left (right rail): top border, outer side,
    /// stacked label, bottom border, then for the active tab the indicator and an open
    /// edge toward the content, and for an inactive tab junctions into the rail.
    pub open spec fn v_tab_ops(
        &self,
        e: TabEntry,
        left_x: int,
        right_x: int,
        opens_right: bool,
        selected: usize,
        drag: Option<TabReorderDrag>,
        lit: Option<usize>,
    ) -> Seq<DrawOp<'a>> {
        let active = e.index == selected;
        let dragging = drag_source(e.index, drag);
        let ts = self.text_style_for(active, dragging);
        let tbs = self.border_style_for(self.border_style, dragging, lit == Some(e.index));
        let ind = if active {
            self.v_tab_indicator(e, left_x, ts)
        } else {
            Seq::empty()
        };
        self.v_tab_top(e, left_x, right_x, tbs) + self.v_tab_side(
            e,
            left_x,
            right_x,
            opens_right,
            tbs,
        ) + self.v_tab_label(e, left_x, right_x, ts) + self.v_tab_bottom(e, left_x, right_x, tbs)
            + ind + self.v_tab_edge(e, left_x, right_x, opens_right, active, tbs)
    }
}

/// The marker drawn beside the active label.
pub fn effective_indicator<'a>(nav: &TabNav<'a>) -> (r: Option<&'a str>)
    ensures
        r == nav.indicator_spec(),
{
    if nav.indicator_explicit {
        nav.indicator
    } else if nav.orientation == TabOrientation::Vertical {
        None
    } else {
        Some(DEFAULT_INDICATOR)
    }
}

/// Appends the edge of a horizontal tab toward the content.
fn push_h_edge<'a>(
    ops: &mut Vec<DrawOp<'a>>,
    nav: &TabNav<'a>,
    e: TabEntry,
    top_y: u16,
    bot_y: u16,
    opens_down: bool,
    active: bool,
    tbs: Style,
)
    requires
        1 <= e.offset + e.size <= u16::MAX,
        e.offset < u16::MAX,
    ensures
        final(ops)@ == old(ops)@ + nav.h_tab_edge(e, top_y as int, bot_y as int, opens_down, active, tbs),
{
    let ghost base = ops@;
    let b = nav.border_set;
    let left = e.offset;
    let right = e.offset + e.size - 1;
    if active {
        if opens_down {
            push_capped_row(ops, left, right, bot_y, Glyph::Text(b.bottom_right), Glyph::Char(' '), Glyph::Text(b.bottom_left), tbs);
        } else {
            push_capped_row(ops, left, right, top_y, Glyph::Text(b.top_right), Glyph::Char(' '), Glyph::Text(b.top_left), tbs);
            let ghost mid = ops@;
            push_capped_row(ops, left, right, bot_y, Glyph::Text(b.bottom_left), Glyph::Text(b.horizontal_bottom), Glyph::Text(b.bottom_right), tbs);
            assert(ops@ =~= base + nav.h_tab_edge(e, top_y as int, bot_y as int, opens_down, active, tbs));
        }
    } else if opens_down {
        push_op(ops, left, bot_y, Glyph::Char('┴'), tbs);
        push_op(ops, right, bot_y, Glyph::Char('┴'), tbs);
        assert(ops@ =~= base + nav.h_tab_edge(e, top_y as int, bot_y as int, opens_down, active, tbs));
    } else {
        push_op(ops, left, top_y, Glyph::Char('┬'), tbs);
        push_op(ops, right, top_y, Glyph::Char('┬'), tbs);
        push_capped_row(ops, left, right, bot_y, Glyph::Text(b.bottom_left), Glyph::Text(b.horizontal_bottom), Glyph::Text(b.bottom_right), tbs);
        assert(ops@ =~= base + nav.h_tab_edge(e, top_y as int, bot_y as int, opens_down, active, tbs));
    }
}

/// Appends the operations of one tab of a horizontal strip.
#[verifier::rlimit(30)]
fn push_h_tab<'a>(
    ops: &mut Vec<DrawOp<'a>>,
    nav: &TabNav<'a>,
    e: TabEntry,
    top_y: u16,
    bot_y: u16,
    label_y: u16,
    opens_down: bool,
    selected: usize,
    drag: Option<TabReorderDrag>,
    lit: Option<usize>,
)
    requires
        nav.orientation == TabOrientation::Horizontal,
        e.index < nav.tabs@.len(),
        nav.entry_drawable(e),
        top_y < bot_y,
    ensures
        final(ops)@ == old(ops)@ + nav.h_tab_ops(
            e,
            top_y as int,
            bot_y as int,
            label_y as int,
            opens_down,
            selected,
            drag,
            lit,
        ),
{
    let ghost base = ops@;
    let b = nav.border_set;
    let pad = effective_padding(nav);
    let left = e.offset;
    let right = e.offset + e.size - 1;
    let active = e.index == selected;
    let dragging = is_reorder_drag_source(e.index, drag);
    let flash = match lit {
        Some(t) => t == e.index,
        None => false,
    };
    let ts = tab_text_style(nav, active, dragging);
    let tbs = tab_border_style(nav, nav.border_style, dragging, flash);
    assert(flash == (lit == Some(e.index)));
    if opens_down {
        push_capped_row(
            ops,
            left,
            right,
            top_y,
            Glyph::Text(b.top_left),
            Glyph::Text(b.horizontal_top),
            Glyph::Text(b.top_right),
            tbs,
        );
    } else {
        assert(ops@ =~= base + nav.h_tab_top(e, top_y as int, opens_down, tbs));
    }
    let ghost s1 = ops@;
    push_side_pairs(
        ops,
        left,
        right,
        top_y,
        bot_y,
        Glyph::Text(b.vertical_left),
        Glyph::Text(b.vertical_right),
        tbs,
    );
    let ghost s2 = ops@;
    let chars = str_chars(nav.tabs[e.index]);
    push_hlabel(
        ops,
        &chars,
        left + 1 + pad.left,
        right.saturating_sub(1 + pad.right),
        label_y,
        nav.all_caps,
        ts,
    );
    let ghost s3 = ops@;
    if active {
        match effective_indicator(nav) {
            Some(sym) => {
                let x = if pad.left > 0 {
                    left + 1 + pad.left - 1
                } else {
                    left + 1
                };
                push_op(ops, x, label_y, Glyph::Text(sym), ts);
            },
            None => {
                assert(ops@ =~= s3 + nav.h_tab_indicator(e, label_y as int, ts));
            },
        }
    } else {
        assert(ops@ =~= s3 + Seq::<DrawOp>::empty());
    }
    let ghost s4 = ops@;
    push_h_edge(ops, nav, e, top_y, bot_y, opens_down, active, tbs);
    let ghost p1 = nav.h_tab_top(e, top_y as int, opens_down, tbs);
    let ghost p2 = nav.h_tab_sides(e, top_y as int, bot_y as int, tbs);
    let ghost p3 = nav.h_tab_label(e, label_y as int, ts);
    let ghost p4 = if active {
        nav.h_tab_indicator(e, label_y as int, ts)
    } else {
        Seq::empty()
    };
    let ghost p5 = nav.h_tab_edge(e, top_y as int, bot_y as int, opens_down, active, tbs);
    assert(s1 == base + p1);
    assert(s2 == s1 + p2);
    assert(s3 == s2 + p3);
    assert(s4 == s3 + p4);
    assert(ops@ == s4 + p5);
    proof {
        lemma_chain5(base, p1, p2, p3, p4, p5);
        assert(nav.h_tab_ops(
            e,
            top_y as int,
            bot_y as int,
            label_y as int,
            opens_down,
            selected,
            drag,
            lit,
        ) == p1 + p2 + p3 + p4 + p5);
    }
}

/// Appends the edge of a vertical tab toward the content.
fn push_v_edge<'a>(
    ops: &mut Vec<DrawOp<'a>>,
    nav: &TabNav<'a>,
    e: TabEntry,
    left_x: u16,
    right_x: u16,
    opens_right: bool,
    active: bool,
    tbs: Style,
)
    requires
        1 <= e.offset + e.size <= u16::MAX,
        e.offset < u16::MAX,
    ensures
        final(ops)@ == old(ops)@ + nav.v_tab_edge(
            e,
            left_x as int,
            right_x as int,
            opens_right,
            active,
            tbs,
        ),
{
    let ghost base = ops@;
    let b = nav.border_set;
    let top = e.offset;
    let bot = e.offset + e.size - 1;
    if active {
        if opens_right {
            push_capped_col(ops, right_x, top, bot, Glyph::Text(b.bottom_right), Glyph::Char(' '), Glyph::Text(b.top_right), tbs);
        } else {
            push_capped_col(ops, left_x, top, bot, Glyph::Text(b.bottom_left), Glyph::Char(' '), Glyph::Text(b.top_left), tbs);
        }
    } else if opens_right {
        push_op(ops, right_x, top, Glyph::Char('┤'), tbs);
        push_op(ops, right_x, bot, Glyph::Char('┤'), tbs);
        assert(ops@ =~= base + nav.v_tab_edge(e, left_x as int, right_x as int, opens_right, active, tbs));
    } else {
        push_op(ops, left_x, top, Glyph::Char('├'), tbs);
        push_op(ops, left_x, bot, Glyph::Char('├'), tbs);
        assert(ops@ =~= base + nav.v_tab_edge(e, left_x as int, right_x as int, opens_right, active, tbs));
    }
}

/// Appends the stacked label of a vertical tab.
fn push_v_label<'a>(
    ops: &mut Vec<DrawOp<'a>>,
    nav: &TabNav<'a>,
    e: TabEntry,
    left_x: u16,
    right_x: u16,
    ts: Style,
)
    requires
        nav.orientation == TabOrientation::Vertical,
        e.index < nav.tabs@.len(),
        nav.entry_drawable(e),
        left_x + 2 + nav.padding_spec().left + nav.padding_spec().right <= right_x + 1,
    ensures
        final(ops)@ == old(ops)@ + nav.v_tab_label(e, left_x as int, right_x as int, ts),
{
    let pad = effective_padding(nav);
    let label = nav.tabs[e.index];
    let chars = str_chars(label);
    let lines = split_lines(&chars);
    let height = auto_vertical_tab_height(label, pad);
    let (label_x, label_y) = label_origin(left_x, e.offset, pad);
    push_vrows(
        ops,
        &lines,
        Ghost(text_lines(label@)),
        label_x,
        label_y,
        e.offset + height - 1,
        right_x.saturating_sub(1 + pad.right),
        nav.all_caps,
        ts,
    );
}

/// Appends the operations of one tab of a vertical rail.
#[verifier::rlimit(30)]
fn push_v_tab<'a>(
    ops: &mut Vec<DrawOp<'a>>,
    nav: &TabNav<'a>,
    e: TabEntry,
    left_x: u16,
    right_x: u16,
    opens_right: bool,
    selected: usize,
    drag: Option<TabReorderDrag>,
    lit: Option<usize>,
)
    requires
        nav.orientation == TabOrientation::Vertical,
        e.index < nav.tabs@.len(),
        nav.entry_drawable(e),
        left_x + 2 + nav.padding_spec().left + nav.padding_spec().right <= right_x + 1,
    ensures
        final(ops)@ == old(ops)@ + nav.v_tab_ops(
            e,
            left_x as int,
            right_x as int,
            opens_right,
            selected,
            drag,
            lit,
        ),
{
    let ghost base = ops@;
    let b = nav.border_set;
    let pad = effective_padding(nav);
    let top = e.offset;
    let bot = e.offset + e.size - 1;
    let active = e.index == selected;
    let dragging = is_reorder_drag_source(e.index, drag);
    let flash = match lit {
        Some(t) => t == e.index,
        None => false,
    };
    let ts = tab_text_style(nav, active, dragging);
    let tbs = tab_border_style(nav, nav.border_style, dragging, flash);
    assert(flash == (lit == Some(e.index)));
    push_capped_row(
        ops,
        left_x,
        right_x,
        top,
        Glyph::Text(b.top_left),
        Glyph::Text(b.horizontal_top),
        Glyph::Text(b.top_right),
        tbs,
    );
    let ghost s1 = ops@;
    if opens_right {
        push_col(ops, left_x, top + 1, bot, Glyph::Text(b.vertical_left), tbs);
    } else {
        push_col(ops, right_x, top + 1, bot, Glyph::Text(b.vertical_right), tbs);
    }
    let ghost s2 = ops@;
    push_v_label(ops, nav, e, left_x, right_x, ts);
    let ghost s3 = ops@;
    push_capped_row(
        ops,
        left_x,
        right_x,
        bot,
        Glyph::Text(b.bottom_left),
        Glyph::Text(b.horizontal_bottom),
        Glyph::Text(b.bottom_right),
        tbs,
    );
    let ghost s4 = ops@;
    if active {
        match effective_indicator(nav) {
            Some(sym) => {
                let (label_x, label_y) = label_origin(left_x, top, pad);
                if label_y > top + 1 {
                    push_op(ops, label_x, label_y - 1, Glyph::Text(sym), ts);
                } else {
                    assert(ops@ =~= s4 + nav.v_tab_indicator(e, left_x as int, ts));
                }
            },
            None => {
                assert(ops@ =~= s4 + nav.v_tab_indicator(e, left_x as int, ts));
            },
        }
    } else {
        assert(ops@ =~= s4 + Seq::<DrawOp>::empty());
    }
    let ghost s5 = ops@;
    push_v_edge(ops, nav, e, left_x, right_x, opens_right, active, tbs);
    let ghost p1 = nav.v_tab_top(e, left_x as int, right_x as int, tbs);
    let ghost p2 = nav.v_tab_side(e, left_x as int, right_x as int, opens_right, tbs);
    let ghost p3 = nav.v_tab_label(e, left_x as int, right_x as int, ts);
    let ghost p4 = nav.v_tab_bottom(e, left_x as int, right_x as int, tbs);
    let ghost p5 = if active {
        nav.v_tab_indicator(e, left_x as int, ts)
    } else {
        Seq::empty()
    };
    let ghost p6 = nav.v_tab_edge(e, left_x as int, right_x as int, opens_right, active, tbs);
    assert(s1 == base + p1);
    assert(s2 == s1 + p2);
    assert(s3 == s2 + p3);
    assert(s4 == s3 + p4);
    assert(s5 == s4 + p5);
    assert(ops@ == s5 + p6);
    proof {
        lemma_chain6(base, p1, p2, p3, p4, p5, p6);
        assert(nav.v_tab_ops(e, left_x as int, right_x as int, opens_right, selected, drag, lit)
            == p1 + p2 + p3 + p4 + p5 + p6);
    }
}

// ---------------------------------------------------------------------------------------
// The whole strip
// ---------------------------------------------------------------------------------------

/// One operation at `(x, y)` drawing `c`, or none.
pub open spec fn opt_op<'a>(x: int, y: int, c: Option<char>, style: Style) -> Seq<DrawOp<'a>> {
    match c {
        Some(c) => seq![op(x, y, Glyph::Char(c), style)],
        None => Seq::empty(),
    }
}

/// The horizontal strip drawn from a viewport: the baseline, the tabs, the markers and the
/// end caps.
pub open spec fn h_strip_ops<'a>(
    nav: &TabNav<'a>,
    vp: ViewportModel,
    fs: int,
    fe: int,
    top_y: int,
    bot_y: int,
    label_y: int,
    opens_down: bool,
    selected: usize,
    drag: Option<TabReorderDrag>,
    lit: Option<usize>,
) -> Seq<DrawOp<'a>> {
    let baseline_y = if opens_down { bot_y } else { top_y };
    row_ops(fs, baseline_y, fe - fs, Glyph::Text(nav.border_set.horizontal_top), nav.border_style)
        + nav.h_tabs_ops(vp.entries, top_y, bot_y, label_y, opens_down, selected, drag, lit)
        + nav.h_marker_ops(vp, baseline_y, label_y) + nav.h_bar_end_ops(
        fs,
        fe,
        baseline_y,
        vp.entries,
        selected,
        opens_down,
    )
}

/// The vertical rail drawn from a viewport: the rail line, the tabs, the markers and (with
/// tabs visible) the end caps.
pub open spec fn v_strip_ops<'a>(
    nav: &TabNav<'a>,
    vp: ViewportModel,
    fs: int,
    fe: int,
    left_x: int,
    right_x: int,
    opens_right: bool,
    selected: usize,
    drag: Option<TabReorderDrag>,
    lit: Option<usize>,
) -> Seq<DrawOp<'a>> {
    let baseline_x = if opens_right { right_x } else { left_x };
    col_ops(baseline_x, fs, fe - fs, Glyph::Text(nav.border_set.vertical_left), nav.border_style)
        + nav.v_tabs_ops(vp.entries, left_x, right_x, opens_right, selected, drag, lit)
        + nav.v_marker_ops(vp, baseline_x) + if vp.entries.len() > 0 {
        nav.v_bar_end_ops(fs, fe, baseline_x, vp.entries, selected, opens_right)
    } else {
        Seq::empty()
    }
}

impl<'a> TabNav<'a> {
    /// The operations of the tabs of a horizontal strip, in order.
    pub open spec fn h_tabs_ops(
        &self,
        entries: Seq<TabEntry>,
        top_y: int,
        bot_y: int,
        label_y: int,
        opens_down: bool,
        selected: usize,
        drag: Option<TabReorderDrag>,
        lit: Option<usize>,
    ) -> Seq<DrawOp<'a>>
        decreases entries.len(),
    {
        if entries.len() == 0 {
            Seq::empty()
        } else {
            self.h_tabs_ops(entries.drop_last(), top_y, bot_y, label_y, opens_down, selected, drag, lit)
                + self.h_tab_ops(
                entries.last(),
                top_y,
                bot_y,
                label_y,
                opens_down,
                selected,
                drag,
                lit,
            )
        }
    }

    /// The operations of the tabs of a vertical rail, in order.
    pub open spec fn v_tabs_ops(
        &self,
        entries: Seq<TabEntry>,
        left_x: int,
        right_x: int,
        opens_right: bool,
        selected: usize,
        drag: Option<TabReorderDrag>,
        lit: Option<usize>,
    ) -> Seq<DrawOp<'a>>
        decreases entries.len(),
    {
        if entries.len() == 0 {
            Seq::empty()
        } else {
            self.v_tabs_ops(entries.drop_last(), left_x, right_x, opens_right, selected, drag, lit)
                + self.v_tab_ops(entries.last(), left_x, right_x, opens_right, selected, drag, lit)
        }
    }

    /// Overflow markers of a horizontal strip. A sliding window marks hidden tabs inside
    /// the edge tabs, on the label row: `⯇` just inside the first visible tab when tabs are
    /// hidden before it, `⯈` just inside the last one when tabs are hidden after it.
    /// Otherwise the markers go on the baseline at the viewport's marker cells: `‹` before,
    /// and `›` after when tabs are also hidden before (`…` when not).
    pub open spec fn h_marker_ops(&self, vp: ViewportModel, baseline_y: int, label_y: int) -> Seq<
        DrawOp<'a>,
    > {
        let bs = self.border_style;
        let entries = vp.entries;
        if self.windowed() {
            (if vp.before_affordance_at is Some && entries.len() > 0 {
                seq![op(entries[0].offset + 1, label_y, Glyph::Char('⯇'), bs)]
            } else {
                Seq::empty()
            }) + (if vp.after_affordance_at is Some && entries.len() > 0 {
                seq![
                    op(
                        sat_sub(entries.last().offset + entries.last().size, 2),
                        label_y,
                        Glyph::Char('⯈'),
                        bs,
                    ),
                ]
            } else {
                Seq::empty()
            })
        } else {
            (match vp.before_affordance_at {
                Some(x) => seq![op(x as int, baseline_y, Glyph::Char('‹'), bs)],
                None => Seq::empty(),
            }) + (match vp.after_affordance_at {
                Some(x) => seq![
                    op(
                        x as int,
                        baseline_y,
                        Glyph::Char(
                            if vp.clipped_before {
                                '›'
                            } else {
                                '…'
                            },
                        ),
                        bs,
                    ),
                ],
                None => Seq::empty(),
            })
        }
    }

    /// Overflow markers of a vertical rail, on the rail column at the viewport's marker
    /// cells: `↑` before, and `↓` after when tabs are also hidden before (`…` when not).
    pub open spec fn v_marker_ops(&self, vp: ViewportModel, baseline_x: int) -> Seq<DrawOp<'a>> {
        let bs = self.border_style;
        (match vp.before_affordance_at {
            Some(y) => seq![op(baseline_x, y as int, Glyph::Char('↑'), bs)],
            None => Seq::empty(),
        }) + (match vp.after_affordance_at {
            Some(y) => seq![
                op(
                    baseline_x,
                    y as int,
                    Glyph::Char(
                        if vp.clipped_before {
                            '↓'
                        } else {
                            '…'
                        },
                    ),
                    bs,
                ),
            ],
            None => Seq::empty(),
        })
    }

    /// End caps of a horizontal baseline spanning `fs..fe`: with end caps on and tabs
    /// visible, the leading cap for the alignment at the first cell (a junction into the
    /// first tab when the tabs fill the span exactly or start it centred, the margin cap
    /// mirrored otherwise for centred and end-aligned strips), and at the end either the
    /// margin cap in the last cell, when slack follows the tabs, or the group's trailing
    /// junction at the last tab's right edge.
    pub open spec fn h_bar_end_ops(
        &self,
        fs: int,
        fe: int,
        baseline_y: int,
        entries: Seq<TabEntry>,
        selected: usize,
        opens_down: bool,
    ) -> Seq<DrawOp<'a>> {
        let bs = self.border_style;
        let end_style = self.bar_end_spec();
        if fe <= fs {
            Seq::empty()
        } else {
            match group_span(entries) {
                None => Seq::empty(),
                Some((gs, ge)) => {
                    let exact = gs == fs && ge == fe;
                    let cap_align = if exact || (self.tab_bar_align == TabBarAlign::Center && gs
                        == fs) {
                        TabBarAlign::Start
                    } else {
                        self.tab_bar_align
                    };
                    match h_caps(
                        end_style,
                        cap_align,
                        first_is(entries, selected),
                        last_is(entries, selected),
                        opens_down,
                    ) {
                        None => Seq::empty(),
                        Some((leading, _)) => seq![
                            op(fs, baseline_y, Glyph::Char(leading), bs),
                        ] + if ge < fe {
                            opt_op(fe - 1, baseline_y, h_margin_trailing_cap(end_style, opens_down), bs)
                        } else {
                            seq![
                                op(
                                    ge - 1,
                                    baseline_y,
                                    Glyph::Char(h_trailing_junction(last_is(entries, selected))),
                                    bs,
                                ),
                            ]
                        },
                    }
                },
            }
        }
    }

    /// End caps of a vertical rail spanning rows `ct..cb`, with end caps on: when the
    /// tabs fill the span exactly, junctions at the first tab's top and the last tab's
    /// bottom; otherwise by alignment: start aligned, the leading junction and, at the
    /// end, the margin cap in the last row (slack after the tabs) or the trailing
    /// junction; centred, margin caps at each end that has slack (as start aligned when
    /// the tabs start the span); end aligned, the leading margin cap (slack before) and
    /// the trailing junction.
    pub open spec fn v_bar_end_ops(
        &self,
        ct: int,
        cb: int,
        baseline_x: int,
        entries: Seq<TabEntry>,
        selected: usize,
        opens_right: bool,
    ) -> Seq<DrawOp<'a>> {
        let bs = self.border_style;
        let end_style = self.bar_end_spec();
        if cb == 0 {
            Seq::empty()
        } else {
            match group_span(entries) {
                None => Seq::empty(),
                Some((gs, ge)) => if end_style == TabBarEnd::NoEnd {
                    Seq::empty()
                } else {
                    let exact = gs == ct && ge == cb;
                    let lead_op = seq![
                        op(
                            baseline_x,
                            entries[0].offset as int,
                            Glyph::Char(v_leading_junction(first_is(entries, selected))),
                            bs,
                        ),
                    ];
                    let trail_op = seq![
                        op(
                            baseline_x,
                            entries.last().offset + entries.last().size - 1,
                            Glyph::Char(v_trailing_junction(last_is(entries, selected))),
                            bs,
                        ),
                    ];
                    let (ml, mt) = v_margin_caps(end_style, opens_right);
                    let lead_cap = if gs > ct {
                        opt_op(baseline_x, ct, ml, bs)
                    } else {
                        Seq::empty()
                    };
                    let trail_cap = if ge < cb {
                        opt_op(baseline_x, cb - 1, mt, bs)
                    } else {
                        Seq::empty()
                    };
                    let cap_align = if self.tab_bar_align == TabBarAlign::Center && gs == ct {
                        TabBarAlign::Start
                    } else {
                        self.tab_bar_align
                    };
                    if exact {
                        lead_op + trail_op
                    } else {
                        match cap_align {
                            TabBarAlign::Start => lead_op + if ge < cb {
                                trail_cap
                            } else {
                                trail_op
                            },
                            TabBarAlign::Center => lead_cap + trail_cap,
                            TabBarAlign::End => lead_cap + trail_op,
                        }
                    }
                },
            }
        }
    }

    /// Whether the strip can be drawn in `area` with the window at `scroll_offset`: the
    /// layout is computable, and every visible tab can be drawn with coordinates in
    /// `u16`.
    pub open spec fn render_ok(&self, area: Rect, scroll_offset: usize) -> bool {
        let entries = self.viewport_model(area, scroll_offset).entries;
        &&& self.layout_ok(area)
        &&& forall|j: int| 0 <= j < entries.len() ==> #[trigger] self.entry_drawable(entries[j])
    }

    /// Drawing operations for the whole strip in `area`, with the tab `selected` active,
    /// the window at `scroll_offset`, an optional reorder drag and the tab whose selection
    /// flash is lit (if any). Nothing when there are no tabs or the area is too small.
    /// A horizontal strip draws its baseline along the flow span, then each visible tab,
    /// the overflow markers and the baseline end caps; a vertical rail draws its rail
    /// line, each visible tab, the markers, and (with tabs visible) the rail end caps.
    pub open spec fn render_ops_spec(
        &self,
        area: Rect,
        selected: usize,
        scroll_offset: usize,
        drag: Option<TabReorderDrag>,
        lit: Option<usize>,
    ) -> Seq<DrawOp<'a>> {
        let vp = self.viewport_model(area, scroll_offset);
        match self.flow_bounds_spec(area) {
            None => Seq::empty(),
            Some((fs, fe)) => match self.orientation {
                TabOrientation::Horizontal => {
                    let top_y = self.strip_origin_y(area);
                    h_strip_ops(
                        self,
                        vp,
                        fs as int,
                        fe as int,
                        top_y,
                        top_y + self.strip_height_spec() - 1,
                        top_y + 1 + self.padding_spec().top,
                        self.horizontal_position.position == HorizontalPosition::Top,
                        selected,
                        drag,
                        lit,
                    )
                },
                TabOrientation::Vertical => {
                    let left_x = self.rail_origin_x(area);
                    v_strip_ops(
                        self,
                        vp,
                        fs as int,
                        fe as int,
                        left_x,
                        left_x + self.rail_in(area) - 1,
                        self.vertical_position.position == VerticalPosition::Left,
                        selected,
                        drag,
                        lit,
                    )
                },
            },
        }
    }
}

/// Appends the operations of the tabs of a horizontal strip.
fn push_h_tabs<'a>(
    ops: &mut Vec<DrawOp<'a>>,
    nav: &TabNav<'a>,
    entries: &Vec<TabEntry>,
    top_y: u16,
    bot_y: u16,
    label_y: u16,
    opens_down: bool,
    selected: usize,
    drag: Option<TabReorderDrag>,
    lit: Option<usize>,
)
    requires
        nav.orientation == TabOrientation::Horizontal,
        top_y < bot_y,
        forall|j: int| 0 <= j < entries@.len() ==> (#[trigger] entries@[j]).index < nav.tabs@.len(),
        forall|j: int| 0 <= j < entries@.len() ==> nav.entry_drawable(#[trigger] entries@[j]),
    ensures
        final(ops)@ == old(ops)@ + nav.h_tabs_ops(
            entries@,
            top_y as int,
            bot_y as int,
            label_y as int,
            opens_down,
            selected,
            drag,
            lit,
        ),
{
    let ghost base = ops@;
    let mut i: usize = 0;
    assert(entries@.take(0) =~= Seq::<TabEntry>::empty());
    assert(ops@ =~= base + Seq::<DrawOp>::empty());
    while i < entries.len()
        invariant
            i <= entries@.len(),
            nav.orientation == TabOrientation::Horizontal,
            top_y < bot_y,
            forall|j: int| 0 <= j < entries@.len() ==> (#[trigger] entries@[j]).index < nav.tabs@.len(),
            forall|j: int| 0 <= j < entries@.len() ==> nav.entry_drawable(#[trigger] entries@[j]),
            ops@ == base + nav.h_tabs_ops(
                entries@.take(i as int),
                top_y as int,
                bot_y as int,
                label_y as int,
                opens_down,
                selected,
                drag,
                lit,
            ),
        decreases entries@.len() - i,
    {
        let ghost before = ops@;
        let e = entries[i];
        push_h_tab(ops, nav, e, top_y, bot_y, label_y, opens_down, selected, drag, lit);
        let ghost prefix = entries@.take(i as int);
        let ghost next = entries@.take(i + 1);
        assert(next.drop_last() =~= prefix);
        assert(next.last() == e);
        let ghost tab = nav.h_tab_ops(e, top_y as int, bot_y as int, label_y as int, opens_down, selected, drag, lit);
        let ghost earlier = nav.h_tabs_ops(prefix, top_y as int, bot_y as int, label_y as int, opens_down, selected, drag, lit);
        assert(base + earlier + tab =~= base + (earlier + tab));
        i += 1;
    }
    assert(entries@.take(i as int) =~= entries@);
}

/// Appends the operations of the tabs of a vertical rail.
fn push_v_tabs<'a>(
    ops: &mut Vec<DrawOp<'a>>,
    nav: &TabNav<'a>,
    entries: &Vec<TabEntry>,
    left_x: u16,
    right_x: u16,
    opens_right: bool,
    selected: usize,
    drag: Option<TabReorderDrag>,
    lit: Option<usize>,
)
    requires
        nav.orientation == TabOrientation::Vertical,
        left_x + 2 + nav.padding_spec().left + nav.padding_spec().right <= right_x + 1,
        forall|j: int| 0 <= j < entries@.len() ==> (#[trigger] entries@[j]).index < nav.tabs@.len(),
        forall|j: int| 0 <= j < entries@.len() ==> nav.entry_drawable(#[trigger] entries@[j]),
    ensures
        final(ops)@ == old(ops)@ + nav.v_tabs_ops(
            entries@,
            left_x as int,
            right_x as int,
            opens_right,
            selected,
            drag,
            lit,
        ),
{
    let ghost base = ops@;
    let mut i: usize = 0;
    assert(entries@.take(0) =~= Seq::<TabEntry>::empty());
    assert(ops@ =~= base + Seq::<DrawOp>::empty());
    while i < entries.len()
        invariant
            i <= entries@.len(),
            nav.orientation == TabOrientation::Vertical,
            left_x + 2 + nav.padding_spec().left + nav.padding_spec().right <= right_x + 1,
            forall|j: int| 0 <= j < entries@.len() ==> (#[trigger] entries@[j]).index < nav.tabs@.len(),
            forall|j: int| 0 <= j < entries@.len() ==> nav.entry_drawable(#[trigger] entries@[j]),
            ops@ == base + nav.v_tabs_ops(
                entries@.take(i as int),
                left_x as int,
                right_x as int,
                opens_right,
                selected,
                drag,
                lit,
            ),
        decreases entries@.len() - i,
    {
        let e = entries[i];
        push_v_tab(ops, nav, e, left_x, right_x, opens_right, selected, drag, lit);
        let ghost prefix = entries@.take(i as int);
        let ghost next = entries@.take(i + 1);
        assert(next.drop_last() =~= prefix);
        assert(next.last() == e);
        let ghost tab = nav.v_tab_ops(e, left_x as int, right_x as int, opens_right, selected, drag, lit);
        let ghost earlier = nav.v_tabs_ops(prefix, left_x as int, right_x as int, opens_right, selected, drag, lit);
        assert(base + earlier + tab =~= base + (earlier + tab));
        i += 1;
    }
    assert(entries@.take(i as int) =~= entries@);
}

/// Appends the overflow markers of a horizontal strip.
fn push_h_markers<'a>(
    ops: &mut Vec<DrawOp<'a>>,
    nav: &TabNav<'a>,
    vp: &TabViewport,
    baseline_y: u16,
    label_y: u16,
)
    requires
        forall|j: int| 0 <= j < vp.entries@.len() ==> nav.entry_drawable(#[trigger] vp.entries@[j]),
        nav.orientation == TabOrientation::Horizontal,
    ensures
        final(ops)@ == old(ops)@ + nav.h_marker_ops(vp@, baseline_y as int, label_y as int),
{
    let ghost base = ops@;
    let bs = nav.border_style;
    let n = vp.entries.len();
    if crate::layout::uses_scroll_window(nav) {
        if vp.before_affordance_at.is_some() && n > 0 {
            let first = vp.entries[0];
            assert(nav.entry_drawable(vp.entries@[0]));
            push_op(ops, first.offset + 1, label_y, Glyph::Char('⯇'), bs);
        }
        let ghost mid = ops@;
        if vp.after_affordance_at.is_some() && n > 0 {
            let last = vp.entries[n - 1];
            assert(nav.entry_drawable(vp.entries@[n - 1]));
            push_op(ops, (last.offset + last.size).saturating_sub(2), label_y, Glyph::Char('⯈'), bs);
        }
        assert(ops@ =~= base + nav.h_marker_ops(vp@, baseline_y as int, label_y as int));
    } else {
        match vp.before_affordance_at {
            Some(x) => {
                push_op(ops, x, baseline_y, Glyph::Char('‹'), bs);
            },
            None => {},
        }
        match vp.after_affordance_at {
            Some(x) => {
                let c = if vp.clipped_before {
                    '›'
                } else {
                    '…'
                };
                push_op(ops, x, baseline_y, Glyph::Char(c), bs);
            },
            None => {},
        }
        assert(ops@ =~= base + nav.h_marker_ops(vp@, baseline_y as int, label_y as int));
    }
}

/// Appends the overflow markers of a vertical rail.
fn push_v_markers<'a>(ops: &mut Vec<DrawOp<'a>>, nav: &TabNav<'a>, vp: &TabViewport, baseline_x: u16)
    ensures
        final(ops)@ == old(ops)@ + nav.v_marker_ops(vp@, baseline_x as int),
{
    let ghost base = ops@;
    let bs = nav.border_style;
    match vp.before_affordance_at {
        Some(y) => {
            push_op(ops, baseline_x, y, Glyph::Char('↑'), bs);
        },
        None => {},
    }
    match vp.after_affordance_at {
        Some(y) => {
            let c = if vp.clipped_before {
                '↓'
            } else {
                '…'
            };
            push_op(ops, baseline_x, y, Glyph::Char(c), bs);
        },
        None => {},
    }
    assert(ops@ =~= base + nav.v_marker_ops(vp@, baseline_x as int));
}

/// Appends the end caps of a horizontal baseline spanning `fs..fe`.
fn push_h_bar_end<'a>(
    ops: &mut Vec<DrawOp<'a>>,
    nav: &TabNav<'a>,
    fs: u16,
    fe: u16,
    baseline_y: u16,
    entries: &Vec<TabEntry>,
    selected: usize,
    opens_down: bool,
)
    ensures
        final(ops)@ == old(ops)@ + nav.h_bar_end_ops(
            fs as int,
            fe as int,
            baseline_y as int,
            entries@,
            selected,
            opens_down,
        ),
{
    let ghost base = ops@;
    let ghost whole = nav.h_bar_end_ops(fs as int, fe as int, baseline_y as int, entries@, selected, opens_down);
    let n = entries.len();
    if fe <= fs || n == 0 {
        assert(whole =~= Seq::<DrawOp>::empty());
        assert(ops@ =~= base + whole);
        return;
    }
    let bs = nav.border_style;
    let gs = entries[0].offset;
    let last = entries[n - 1];
    let ge = last.offset.saturating_add(last.size);
    assert(group_span(entries@) == Some((gs, ge)));
    let exact = gs == fs && ge == fe;
    let cap_align = if exact || (nav.tab_bar_align == TabBarAlign::Center && gs == fs) {
        TabBarAlign::Start
    } else {
        nav.tab_bar_align
    };
    let end_style = effective_tab_bar_end(nav);
    let leading = match horizontal_tab_bar_end_caps(end_style, cap_align, entries, selected, opens_down) {
        Some((l, _)) => l,
        None => {
            assert(whole =~= Seq::<DrawOp>::empty());
            assert(ops@ =~= base + whole);
            return;
        },
    };
    push_op(ops, fs, baseline_y, Glyph::Char(leading), bs);
    if ge < fe {
        match horizontal_margin_trailing_cap(end_style, opens_down) {
            Some(c) => {
                push_op(ops, fe - 1, baseline_y, Glyph::Char(c), bs);
            },
            None => {},
        }
    } else {
        let junction = horizontal_tab_trailing_junction(last.index == selected);
        push_op(ops, ge - 1, baseline_y, Glyph::Char(junction), bs);
    }
    assert(ops@ =~= base + whole);
}

/// Appends the end caps of a vertical rail spanning rows `ct..cb`.
fn push_v_bar_end<'a>(
    ops: &mut Vec<DrawOp<'a>>,
    nav: &TabNav<'a>,
    ct: u16,
    cb: u16,
    baseline_x: u16,
    entries: &Vec<TabEntry>,
    selected: usize,
    opens_right: bool,
)
    requires
        forall|j: int| 0 <= j < entries@.len() ==> nav.entry_drawable(#[trigger] entries@[j]),
    ensures
        final(ops)@ == old(ops)@ + nav.v_bar_end_ops(
            ct as int,
            cb as int,
            baseline_x as int,
            entries@,
            selected,
            opens_right,
        ),
{
    let ghost base = ops@;
    let ghost whole = nav.v_bar_end_ops(ct as int, cb as int, baseline_x as int, entries@, selected, opens_right);
    let n = entries.len();
    let end_style = effective_tab_bar_end(nav);
    if cb == 0 || n == 0 || end_style == TabBarEnd::NoEnd {
        assert(whole =~= Seq::<DrawOp>::empty());
        assert(ops@ =~= base + whole);
        return;
    }
    let bs = nav.border_style;
    let first = entries[0];
    let last = entries[n - 1];
    assert(nav.entry_drawable(entries@[n - 1]));
    let gs = first.offset;
    let ge = last.offset.saturating_add(last.size);
    assert(group_span(entries@) == Some((gs, ge)));
    let first_active = first.index == selected;
    let last_active = last.index == selected;
    let exact = gs == ct && ge == cb;
    let (lead_j, trail_j) = vertical_tab_bar_junctions(first_active, last_active);
    let (margin_lead, margin_trail) = vertical_tab_bar_margin_caps(end_style, opens_right);
    let last_row = last.offset + last.size - 1;
    if exact {
        push_op(ops, baseline_x, first.offset, Glyph::Char(lead_j), bs);
        push_op(ops, baseline_x, last_row, Glyph::Char(trail_j), bs);
        assert(ops@ =~= base + whole);
        return;
    }
    let cap_align = if nav.tab_bar_align == TabBarAlign::Center && gs == ct {
        TabBarAlign::Start
    } else {
        nav.tab_bar_align
    };
    match cap_align {
        TabBarAlign::Start => {
            push_op(ops, baseline_x, first.offset, Glyph::Char(lead_j), bs);
            if ge < cb {
                match margin_trail {
                    Some(c) => {
                        push_op(ops, baseline_x, cb - 1, Glyph::Char(c), bs);
                    },
                    None => {},
                }
            } else {
                push_op(ops, baseline_x, last_row, Glyph::Char(trail_j), bs);
            }
        },
        TabBarAlign::Center => {
            if gs > ct {
                match margin_lead {
                    Some(c) => {
                        push_op(ops, baseline_x, ct, Glyph::Char(c), bs);
                    },
                    None => {},
                }
            }
            if ge < cb {
                match margin_trail {
                    Some(c) => {
                        push_op(ops, baseline_x, cb - 1, Glyph::Char(c), bs);
                    },
                    None => {},
                }
            }
        },
        TabBarAlign::End => {
            if gs > ct {
                match margin_lead {
                    Some(c) => {
                        push_op(ops, baseline_x, ct, Glyph::Char(c), bs);
                    },
                    None => {},
                }
            }
            push_op(ops, baseline_x, last_row, Glyph::Char(trail_j), bs);
        },
    }
    assert(ops@ =~= base + whole);
}

/// Appending four pieces to nothing gives their concatenation.
proof fn lemma_chain4<A>(p1: Seq<A>, p2: Seq<A>, p3: Seq<A>, p4: Seq<A>)
    ensures
        Seq::<A>::empty() + p1 + p2 + p3 + p4 == p1 + p2 + p3 + p4,
{
    assert(Seq::<A>::empty() + p1 =~= p1);
}

impl<'a> TabNav<'a> {
    /// Whether the strip can be drawn in `area` with the window at `scroll_offset` (see
    /// [`TabNav::render_ok`]).
    pub fn render_fits(&self, area: Rect, scroll_offset: usize) -> (r: bool)
        ensures
            r == self.render_ok(area, scroll_offset),
    {
        if !self.layout_fits(area) {
            return false;
        }
        let vp = compute_viewport(self, area, scroll_offset);
        proof {
            lemma_viewport_indices(self, area, scroll_offset);
        }
        let ghost entries = vp.entries@;
        let pad = effective_padding(self);
        let mut i: usize = 0;
        while i < vp.entries.len()
            invariant
                i <= entries.len(),
                entries == vp.entries@,
                entries == self.viewport_model(area, scroll_offset).entries,
                self.layout_ok(area),
                pad == self.padding_spec(),
                forall|j: int| 0 <= j < entries.len() ==> (#[trigger] entries[j]).index < self.tabs@.len(),
                forall|j: int| 0 <= j < i ==> self.entry_drawable(#[trigger] entries[j]),
            decreases entries.len() - i,
        {
            let e = vp.entries[i];
            let end: u32 = e.offset as u32 + e.size as u32;
            if end < 1 || end > u16::MAX as u32 {
                assert(!self.entry_drawable(entries[i as int]));
                return false;
            }
            let fits = match self.orientation {
                TabOrientation::Horizontal => e.offset as u32 + 1 + pad.left as u32 <= u16::MAX as u32
                    && pad.right < u16::MAX,
                TabOrientation::Vertical => {
                    if e.offset as u32 + 1 + pad.top as u32 > u16::MAX as u32 {
                        false
                    } else {
                        match checked_auto_vertical_tab_height(self.tabs[e.index], pad) {
                            Some(h) => e.offset as u32 + h as u32 <= u16::MAX as u32,
                            None => false,
                        }
                    }
                },
            };
            if !fits {
                assert(!self.entry_drawable(entries[i as int]));
                return false;
            }
            assert(self.entry_drawable(entries[i as int]));
            i += 1;
        }
        true
    }

    /// The drawing operations for the whole strip in `area` (see
    /// [`TabNav::render_ops_spec`]), with the tab `selected` active, the window at
    /// `scroll_offset`, an optional reorder drag and the tab whose selection flash is lit.
    #[verifier::rlimit(30)]
    pub fn render_ops(
        &self,
        area: Rect,
        selected: usize,
        scroll_offset: usize,
        drag: Option<TabReorderDrag>,
        lit: Option<usize>,
    ) -> (r: Vec<DrawOp<'a>>)
        requires
            self.render_ok(area, scroll_offset),
        ensures
            r@ == self.render_ops_spec(area, selected, scroll_offset, drag, lit),
    {
        let (fs, fe) = match flow_bounds(self, area) {
            None => {
                return Vec::new();
            },
            Some(b) => b,
        };
        let vp = compute_viewport(self, area, scroll_offset);
        proof {
            lemma_viewport_indices(self, area, scroll_offset);
        }
        let pad = effective_padding(self);
        let bs = self.border_style;
        let mut ops: Vec<DrawOp<'a>> = Vec::new();
        match self.orientation {
            TabOrientation::Horizontal => {
                let sh = horizontal_strip_height(self);
                let top_y = horizontal_strip_origin_y(self, area);
                let bot_y = top_y + sh - 1;
                let label_y = top_y + 1 + pad.top;
                let opens_down = self.horizontal_position.position == HorizontalPosition::Top;
                let baseline_y = if opens_down {
                    bot_y
                } else {
                    top_y
                };
                push_row(&mut ops, fs, fe, baseline_y, Glyph::Text(self.border_set.horizontal_top), bs);
                let ghost s1 = ops@;
                push_h_tabs(&mut ops, self, &vp.entries, top_y, bot_y, label_y, opens_down, selected, drag, lit);
                let ghost s2 = ops@;
                push_h_markers(&mut ops, self, &vp, baseline_y, label_y);
                let ghost s3 = ops@;
                push_h_bar_end(&mut ops, self, fs, fe, baseline_y, &vp.entries, selected, opens_down);
                proof {
                    let p1 = row_ops(fs as int, baseline_y as int, fe - fs, Glyph::Text(self.border_set.horizontal_top), bs);
                    let p2 = self.h_tabs_ops(vp.entries@, top_y as int, bot_y as int, label_y as int, opens_down, selected, drag, lit);
                    let p3 = self.h_marker_ops(vp@, baseline_y as int, label_y as int);
                    let p4 = self.h_bar_end_ops(fs as int, fe as int, baseline_y as int, vp.entries@, selected, opens_down);
                    lemma_chain4(p1, p2, p3, p4);
                }
            },
            TabOrientation::Vertical => {
                let rail = vertical_rail_width(self);
                let rail_width = if rail <= area.width {
                    rail
                } else {
                    area.width
                };
                let left_x = vertical_rail_origin_x(self, area);
                let right_x = left_x + rail_width - 1;
                let opens_right = self.vertical_position.position == VerticalPosition::Left;
                let baseline_x = if opens_right {
                    right_x
                } else {
                    left_x
                };
                push_col(&mut ops, baseline_x, fs, fe, Glyph::Text(self.border_set.vertical_left), bs);
                push_v_tabs(&mut ops, self, &vp.entries, left_x, right_x, opens_right, selected, drag, lit);
                push_v_markers(&mut ops, self, &vp, baseline_x);
                let ghost s3 = ops@;
                if vp.entries.len() > 0 {
                    push_v_bar_end(&mut ops, self, fs, fe, baseline_x, &vp.entries, selected, opens_right);
                } else {
                    assert(ops@ =~= s3 + Seq::<DrawOp>::empty());
                }
                proof {
                    let p1 = col_ops(baseline_x as int, fs as int, fe - fs, Glyph::Text(self.border_set.vertical_left), bs);
                    let p2 = self.v_tabs_ops(vp.entries@, left_x as int, right_x as int, opens_right, selected, drag, lit);
                    let p3 = self.v_marker_ops(vp@, baseline_x as int);
                    let p4 = if vp.entries@.len() > 0 {
                        self.v_bar_end_ops(fs as int, fe as int, baseline_x as int, vp.entries@, selected, opens_right)
                    } else {
                        Seq::empty()
                    };
                    lemma_chain4(p1, p2, p3, p4);
                }
            },
        }
        ops
    }

    /// Draws the strip into `canvas` within `area`, with the tab and window this widget
    /// was configured with, no drag and no selection flash. Nothing is drawn when the
    /// strip cannot be drawn there (see [`TabNav::render_ok`]). Cells outside the canvas
    /// are left alone.
    pub fn render(&self, area: Rect, canvas: &mut Canvas)
        requires
            old(canvas).wf(),
        ensures
            final(canvas).wf(),
            final(canvas).area == old(canvas).area,
            self.render_ok(area, self.scroll_offset) ==> final(canvas)@ == painted(
                old(canvas).area,
                old(canvas)@,
                self.render_ops_spec(area, self.selected, self.scroll_offset, None, None),
            ),
            !self.render_ok(area, self.scroll_offset) ==> final(canvas)@ == old(canvas)@,
    {
        if !self.render_fits(area, self.scroll_offset) {
            return;
        }
        let ops = self.render_ops(area, self.selected, self.scroll_offset, None, None);
        canvas.paint(&ops);
    }

    /// Draws the strip into `canvas` within `area` from `state`: its selected tab, window
    /// and reorder drag, with the selection flash lit on its tab when the flash clock says
    /// so. An expired flash is dropped from the state first. Nothing is drawn when the
    /// strip cannot be drawn there (see [`TabNav::render_ok`]).
    #[verifier::rlimit(30)]
    pub fn render_stateful(&self, area: Rect, canvas: &mut Canvas, state: &mut TabNavState)
        requires
            old(canvas).wf(),
        ensures
            final(canvas).wf(),
            final(canvas).area == old(canvas).area,
            final(state).selected == old(state).selected,
            final(state).scroll_offset == old(state).scroll_offset,
            final(state).reorder_drag == old(state).reorder_drag,
            final(state).selection_flash_enabled == old(state).selection_flash_enabled,
            final(state).selection_flash == old(state).selection_flash
                || final(state).selection_flash == None::<crate::state::SelectionFlash>,
            self.render_ok(area, old(state).scroll_offset) ==> exists|lit: Option<usize>|
                {
                    &&& (lit matches Some(t) ==> final(state).selection_flash matches Some(f)
                        && f.tab == t)
                    &&& final(canvas)@ == painted(
                        old(canvas).area,
                        old(canvas)@,
                        #[trigger] self.render_ops_spec(
                            area,
                            old(state).selected,
                            old(state).scroll_offset,
                            old(state).reorder_drag,
                            lit,
                        ),
                    )
                },
            !self.render_ok(area, old(state).scroll_offset) ==> final(canvas)@ == old(canvas)@,
    {
        state.tick_selection_flash();
        if !self.render_fits(area, state.scroll_offset) {
            return;
        }
        let lit = state.lit_flash_tab();
        let ops = self.render_ops(area, state.selected, state.scroll_offset, state.reorder_drag, lit);
        canvas.paint(&ops);
    }
}

/// Nothing is drawn without tabs, nor in an area without room for the strip: shorter
/// than a horizontal strip, or narrower than a vertical rail's borders and padding.
pub proof fn law_nothing_drawn_without_room(
    nav: &TabNav,
    area: Rect,
    selected: usize,
    scroll_offset: usize,
    drag: Option<TabReorderDrag>,
    lit: Option<usize>,
)
    requires
        nav.tabs@.len() == 0 || (nav.orientation == TabOrientation::Horizontal && area.height
            < nav.strip_height_spec()) || (nav.orientation == TabOrientation::Vertical
            && nav.rail_in(area) < 2 + nav.padding_spec().left + nav.padding_spec().right),
    ensures
        nav.render_ops_spec(area, selected, scroll_offset, drag, lit) == Seq::<DrawOp>::empty(),
{
}

/// The baseline is continuous: with tabs to draw, every cell of the flow span on the
/// baseline row (horizontal strip) or rail column (vertical rail) is drawn, first of all,
/// with the border's line glyph.
#[verifier::rlimit(30)]
pub proof fn law_baseline_spans_flow(
    nav: &TabNav,
    area: Rect,
    selected: usize,
    scroll_offset: usize,
    drag: Option<TabReorderDrag>,
    lit: Option<usize>,
    c: int,
)
    requires
        nav.layout_ok(area),
        nav.flow_bounds_spec(area) matches Some((fs, fe)) && fs <= c < fe,
    ensures
        ({
            let ops = nav.render_ops_spec(area, selected, scroll_offset, drag, lit);
            let k = c - (nav.flow_bounds_spec(area)->0).0;
            &&& 0 <= k < ops.len()
            &&& match nav.orientation {
                TabOrientation::Horizontal => {
                    let top_y = nav.strip_origin_y(area);
                    let baseline_y = if nav.horizontal_position.position == HorizontalPosition::Top {
                        top_y + nav.strip_height_spec() - 1
                    } else {
                        top_y
                    };
                    ops[k] == op(c, baseline_y, Glyph::Text(nav.border_set.horizontal_top), nav.border_style)
                },
                TabOrientation::Vertical => {
                    let left_x = nav.rail_origin_x(area);
                    let baseline_x = if nav.vertical_position.position == VerticalPosition::Left {
                        left_x + nav.rail_in(area) - 1
                    } else {
                        left_x
                    };
                    ops[k] == op(baseline_x, c, Glyph::Text(nav.border_set.vertical_left), nav.border_style)
                },
            }
        }),
{
    let (fs, fe) = nav.flow_bounds_spec(area)->0;
    let k = c - fs;
    let vp = nav.viewport_model(area, scroll_offset);
    let bs = nav.border_style;
    let ops = nav.render_ops_spec(area, selected, scroll_offset, drag, lit);
    match nav.orientation {
        TabOrientation::Horizontal => {
            let top_y = nav.strip_origin_y(area);
            let bot_y = top_y + nav.strip_height_spec() - 1;
            let label_y = top_y + 1 + nav.padding_spec().top;
            let opens_down = nav.horizontal_position.position == HorizontalPosition::Top;
            let baseline_y = if opens_down { bot_y } else { top_y };
            let row = row_ops(fs as int, baseline_y, fe - fs, Glyph::Text(nav.border_set.horizontal_top), bs);
            let tabs = nav.h_tabs_ops(vp.entries, top_y, bot_y, label_y, opens_down, selected, drag, lit);
            let markers = nav.h_marker_ops(vp, baseline_y, label_y);
            let ends = nav.h_bar_end_ops(fs as int, fe as int, baseline_y, vp.entries, selected, opens_down);
            assert(ops == row + tabs + markers + ends);
            assert((row + tabs)[k] == row[k]);
            assert((row + tabs + markers)[k] == row[k]);
            assert((row + tabs + markers + ends)[k] == row[k]);
        },
        TabOrientation::Vertical => {
            let left_x = nav.rail_origin_x(area);
            let right_x = left_x + nav.rail_in(area) - 1;
            let opens_right = nav.vertical_position.position == VerticalPosition::Left;
            let baseline_x = if opens_right { right_x } else { left_x };
            let col = col_ops(baseline_x, fs as int, fe - fs, Glyph::Text(nav.border_set.vertical_left), bs);
            let tabs = nav.v_tabs_ops(vp.entries, left_x, right_x, opens_right, selected, drag, lit);
            let markers = nav.v_marker_ops(vp, baseline_x);
            let ends = if vp.entries.len() > 0 {
                nav.v_bar_end_ops(fs as int, fe as int, baseline_x, vp.entries, selected, opens_right)
            } else {
                Seq::empty()
            };
            assert(ops == col + tabs + markers + ends);
            assert((col + tabs)[k] == col[k]);
            assert((col + tabs + markers)[k] == col[k]);
            assert((col + tabs + markers + ends)[k] == col[k]);
        },
    }
}

/// The tab whose border a selection flash lights `elapsed_ms` milliseconds after it
/// started: the flash's tab during the first and third of its four segments, otherwise
/// none.
pub fn lit_tab_at(flash: SelectionFlash, elapsed_ms: u128) -> (r: Option<usize>)
    ensures
        r == (if flash_lit(elapsed_ms) {
            Some(flash.tab)
        } else {
            None::<usize>
        }),
{
    if flash_lit_after(elapsed_ms) {
        Some(flash.tab)
    } else {
        None
    }
}

impl TabNavState {
    /// The tab whose selection-flash border is lit this frame, if any: only the tab of the
    /// flash can be, and whether it is depends on the time since the flash started, as
    /// [`lit_tab_at`] gives it.
    pub fn lit_flash_tab(&self) -> (r: Option<usize>)
        ensures
            r matches Some(t) ==> (self.selection_flash matches Some(f) && f.tab == t),
    {
        match self.selection_flash {
            None => None,
            Some(flash) => lit_tab_at(flash, millis_since(flash.started)),
        }
    }
}

} // verus!