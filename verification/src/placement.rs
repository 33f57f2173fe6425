//! Where drawing lands: every operation drawn for a visible tab lies in the rectangle that
//! the layout reports for that tab.

use vstd::prelude::*;

use crate::canvas::{DrawOp, Glyph};
use crate::config::{HorizontalPosition, TabOrientation, VerticalPosition};
use crate::draw::{hlabel_ops, vline_ops, vrows_ops};
use crate::geometry::{Rect, sat_add, sat_sub};
use crate::layout::TabEntry;
use crate::nav::TabNav;
use crate::render::{
    capped_col, capped_row, col_ops, drag_source, op, row_ops, side_pair_ops,
};
use crate::state::TabReorderDrag;
use crate::style::Style;
use crate::text::text_lines;

verus! {

/// Whether operation `o` addresses a cell of `r`.
pub open spec fn lands_in(r: Rect, o: DrawOp) -> bool {
    r.x <= o.x < r.x + r.width && r.y <= o.y < r.y + r.height
}

/// Whether every operation of `ops` addresses a cell of `r`.
pub open spec fn all_land_in(r: Rect, ops: Seq<DrawOp>) -> bool {
    forall|k: int| 0 <= k < ops.len() ==> lands_in(r, #[trigger] ops[k])
}

/// Operations that land in `r`, one after the other, land in `r`.
pub proof fn lemma_concat_lands(r: Rect, a: Seq<DrawOp>, b: Seq<DrawOp>)
    requires
        all_land_in(r, a),
        all_land_in(r, b),
    ensures
        all_land_in(r, a + b),
{
    assert forall|k: int| 0 <= k < (a + b).len() implies lands_in(r, #[trigger] (a + b)[k]) by {
        if k < a.len() {
            assert((a + b)[k] == a[k]);
        } else {
            assert((a + b)[k] == b[k - a.len()]);
        }
    }
}

/// An operation at a cell of `r` lands in `r`.
pub proof fn lemma_op_lands(r: Rect, x: int, y: int, g: Glyph, s: Style)
    requires
        r.x <= x < r.x + r.width,
        r.y <= y < r.y + r.height,
        r.x + r.width <= u16::MAX,
        r.y + r.height <= u16::MAX,
    ensures
        all_land_in(r, seq![op(x, y, g, s)]),
{
    assert(lands_in(r, seq![op(x, y, g, s)][0]));
}

/// A run along a row of `r` lands in `r`.
pub proof fn lemma_row_lands(r: Rect, x0: int, y: int, n: int, g: Glyph, s: Style)
    requires
        n <= 0 || (r.x <= x0 && x0 + n <= r.x + r.width),
        n <= 0 || r.y <= y < r.y + r.height,
        r.x + r.width <= u16::MAX,
        r.y + r.height <= u16::MAX,
    ensures
        all_land_in(r, row_ops(x0, y, n, g, s)),
{
    let ops = row_ops(x0, y, n, g, s);
    assert forall|k: int| 0 <= k < ops.len() implies lands_in(r, #[trigger] ops[k]) by {
        assert(ops[k] == op(x0 + k, y, g, s));
    }
}

/// A run down a column of `r` lands in `r`.
pub proof fn lemma_col_lands(r: Rect, x: int, y0: int, n: int, g: Glyph, s: Style)
    requires
        n <= 0 || (r.y <= y0 && y0 + n <= r.y + r.height),
        n <= 0 || r.x <= x < r.x + r.width,
        r.x + r.width <= u16::MAX,
        r.y + r.height <= u16::MAX,
    ensures
        all_land_in(r, col_ops(x, y0, n, g, s)),
{
    let ops = col_ops(x, y0, n, g, s);
    assert forall|k: int| 0 <= k < ops.len() implies lands_in(r, #[trigger] ops[k]) by {
        assert(ops[k] == op(x, y0 + k, g, s));
    }
}

/// A capped row from `left` to `right` on a row of `r` lands in `r`.
pub proof fn lemma_capped_row_lands(
    r: Rect,
    left: int,
    right: int,
    y: int,
    first: Glyph,
    fill: Glyph,
    last: Glyph,
    s: Style,
)
    requires
        r.x <= left <= right < r.x + r.width,
        r.y <= y < r.y + r.height,
        r.x + r.width <= u16::MAX,
        r.y + r.height <= u16::MAX,
    ensures
        all_land_in(r, capped_row(left, right, y, first, fill, last, s)),
{
    lemma_op_lands(r, left, y, first, s);
    lemma_row_lands(r, left + 1, y, right - left - 1, fill, s);
    lemma_op_lands(r, right, y, last, s);
    lemma_concat_lands(r, seq![op(left, y, first, s)], row_ops(left + 1, y, right - left - 1, fill, s));
    lemma_concat_lands(
        r,
        seq![op(left, y, first, s)] + row_ops(left + 1, y, right - left - 1, fill, s),
        seq![op(right, y, last, s)],
    );
}

/// A capped column from `top` to `bottom` on a column of `r` lands in `r`.
pub proof fn lemma_capped_col_lands(
    r: Rect,
    x: int,
    top: int,
    bottom: int,
    first: Glyph,
    fill: Glyph,
    last: Glyph,
    s: Style,
)
    requires
        r.y <= top <= bottom < r.y + r.height,
        r.x <= x < r.x + r.width,
        r.x + r.width <= u16::MAX,
        r.y + r.height <= u16::MAX,
    ensures
        all_land_in(r, capped_col(x, top, bottom, first, fill, last, s)),
{
    lemma_op_lands(r, x, top, first, s);
    lemma_col_lands(r, x, top + 1, bottom - top - 1, fill, s);
    lemma_op_lands(r, x, bottom, last, s);
    lemma_concat_lands(r, seq![op(x, top, first, s)], col_ops(x, top + 1, bottom - top - 1, fill, s));
    lemma_concat_lands(
        r,
        seq![op(x, top, first, s)] + col_ops(x, top + 1, bottom - top - 1, fill, s),
        seq![op(x, bottom, last, s)],
    );
}

/// The side borders between rows `top` and `bottom` on columns `left` and `right` of `r`
/// land in `r`.
pub proof fn lemma_side_pairs_land(
    r: Rect,
    left: int,
    right: int,
    top: int,
    bottom: int,
    gl: Glyph,
    gr: Glyph,
    s: Style,
)
    requires
        r.x <= left < r.x + r.width,
        r.x <= right < r.x + r.width,
        r.y <= top,
        bottom <= r.y + r.height,
        r.x + r.width <= u16::MAX,
        r.y + r.height <= u16::MAX,
    ensures
        all_land_in(r, side_pair_ops(left, right, top, bottom, gl, gr, s)),
{
    let ops = side_pair_ops(left, right, top, bottom, gl, gr, s);
    assert forall|k: int| 0 <= k < ops.len() implies lands_in(r, #[trigger] ops[k]) by {
        let n = if bottom - top - 1 > 0 { bottom - top - 1 } else { 0 };
        assert(0 <= k / 2 < n) by (nonlinear_arith)
            requires
                0 <= k < 2 * n,
        ;
        if k % 2 == 0 {
            assert(ops[k] == op(left, top + 1 + k / 2, gl, s));
        } else {
            assert(ops[k] == op(right, top + 1 + k / 2, gr, s));
        }
    }
}

/// A one-row label from column `col` cut at `max_x`, on a row of `r`, lands in `r` when
/// it starts in `r` and is cut within it.
pub proof fn lemma_hlabel_lands(
    r: Rect,
    chars: Seq<char>,
    col: int,
    max_x: int,
    y: int,
    all_caps: bool,
    s: Style,
)
    requires
        r.x <= col,
        max_x < r.x + r.width,
        r.y <= y < r.y + r.height,
        r.x + r.width <= u16::MAX,
        r.y + r.height <= u16::MAX,
    ensures
        all_land_in(r, hlabel_ops(chars, col, max_x, y, all_caps, s)),
    decreases chars.len(),
{
    if chars.len() > 0 {
        let w = crate::text::char_cols(chars[0], all_caps);
        if !(w == 0 || col > max_x || sat_sub(sat_add(col, w), 1) > max_x) {
            let g = Glyph::Char(crate::text::shown_char(chars[0], all_caps));
            lemma_op_lands(r, col, y, g, s);
            lemma_hlabel_lands(r, chars.drop_first(), sat_add(col, w), max_x, y, all_caps, s);
            lemma_concat_lands(
                r,
                seq![op(col, y, g, s)],
                hlabel_ops(chars.drop_first(), sat_add(col, w), max_x, y, all_caps, s),
            );
        }
    }
}

/// One line of a stacked label from column `x0` cut at `xmax`, on a row of `r`, lands in
/// `r` when it starts in `r` and is cut within it.
pub proof fn lemma_vline_lands(
    r: Rect,
    line: Seq<char>,
    x0: int,
    y: int,
    xmax: int,
    all_caps: bool,
    s: Style,
)
    requires
        r.x <= x0,
        xmax < r.x + r.width,
        r.y <= y < r.y + r.height,
        r.x + r.width <= u16::MAX,
        r.y + r.height <= u16::MAX,
    ensures
        all_land_in(r, vline_ops(line, x0, y, xmax, all_caps, s)),
{
    let ops = vline_ops(line, x0, y, xmax, all_caps, s);
    assert forall|k: int| 0 <= k < ops.len() implies lands_in(r, #[trigger] ops[k]) by {
        assert(ops[k] == op(x0 + k, y, Glyph::Char(crate::text::shown_char(line[k], all_caps)), s));
    }
}

/// The lines of a stacked label from line `row` on, on the rows of `r` before `max_y`,
/// land in `r` when they start in `r`, are cut within it, and stop within it.
pub proof fn lemma_vrows_land(
    r: Rect,
    lines: Seq<Seq<char>>,
    row: int,
    x0: int,
    y0: int,
    max_y: int,
    xmax: int,
    all_caps: bool,
    s: Style,
)
    requires
        0 <= row,
        r.x <= x0,
        xmax < r.x + r.width,
        r.y <= y0,
        max_y <= r.y + r.height,
        r.x + r.width <= u16::MAX,
        r.y + r.height <= u16::MAX,
    ensures
        all_land_in(r, vrows_ops(lines, row, x0, y0, max_y, xmax, all_caps, s)),
    decreases lines.len() - row,
{
    if row < lines.len() && y0 + row < max_y {
        lemma_vline_lands(r, lines[row], x0, y0 + row, xmax, all_caps, s);
        lemma_vrows_land(r, lines, row + 1, x0, y0, max_y, xmax, all_caps, s);
        lemma_concat_lands(
            r,
            vline_ops(lines[row], x0, y0 + row, xmax, all_caps, s),
            vrows_ops(lines, row + 1, x0, y0, max_y, xmax, all_caps, s),
        );
    }
}

impl<'a> TabNav<'a> {
    /// The operations the strip draws for visible tab `e` in `area` (its part of
    /// [`TabNav::render_ops_spec`]).
    pub open spec fn tab_ops_in(
        &self,
        area: Rect,
        e: TabEntry,
        selected: usize,
        drag: Option<TabReorderDrag>,
        lit: Option<usize>,
    ) -> Seq<DrawOp<'a>> {
        match self.orientation {
            TabOrientation::Horizontal => {
                let top_y = self.strip_origin_y(area);
                self.h_tab_ops(
                    e,
                    top_y,
                    top_y + self.strip_height_spec() - 1,
                    top_y + 1 + self.padding_spec().top,
                    self.horizontal_position.position == HorizontalPosition::Top,
                    selected,
                    drag,
                    lit,
                )
            },
            TabOrientation::Vertical => {
                let left_x = self.rail_origin_x(area);
                self.v_tab_ops(
                    e,
                    left_x,
                    left_x + self.rail_in(area) - 1,
                    self.vertical_position.position == VerticalPosition::Left,
                    selected,
                    drag,
                    lit,
                )
            },
        }
    }

    /// Whether visible tab `e` has room for what is drawn in it: a horizontal tab at least
    /// two columns wide and wider than its left padding (room for the indicator); a
    /// vertical tab at least as tall as its label's default height. Tabs of default size
    /// always have room.
    pub open spec fn has_room(&self, e: TabEntry) -> bool {
        match self.orientation {
            TabOrientation::Horizontal => e.size >= 2 && self.padding_spec().left < e.size,
            TabOrientation::Vertical => self.auto_height(e.index as int) <= e.size,
        }
    }
}

/// Tab rectangles have the geometry tabs are drawn with: everything drawn for a visible
/// tab (borders, label, indicator, open edge or junctions) lands in the rectangle that
/// [`TabNav::tab_rects`] reports for it, when the tab has room for its contents.
#[verifier::rlimit(30)]
pub proof fn law_tab_drawn_within_its_rect(
    nav: &TabNav,
    area: Rect,
    scroll_offset: usize,
    selected: usize,
    drag: Option<TabReorderDrag>,
    lit: Option<usize>,
    j: int,
)
    requires
        nav.render_ok(area, scroll_offset),
        0 <= j < nav.viewport_model(area, scroll_offset).entries.len(),
        nav.has_room(nav.viewport_model(area, scroll_offset).entries[j]),
    ensures
        all_land_in(
            nav.rects_spec(area, scroll_offset)[j],
            nav.tab_ops_in(area, nav.viewport_model(area, scroll_offset).entries[j], selected, drag, lit),
        ),
{
    let entries = nav.viewport_model(area, scroll_offset).entries;
    let e = entries[j];
    assert(nav.entry_drawable(e));
    assert(nav.flow_bounds_spec(area) is Some);
    assert(nav.rects_spec(area, scroll_offset)[j] == nav.entry_rect(area, e));
    crate::input::lemma_viewport_indices(nav, area, scroll_offset);
    match nav.orientation {
        TabOrientation::Horizontal => lemma_h_tab_lands(nav, area, e, selected, drag, lit),
        TabOrientation::Vertical => lemma_v_tab_lands(nav, area, e, selected, drag, lit),
    }
}

/// A horizontal tab with room lands in its rectangle.
#[verifier::rlimit(30)]
proof fn lemma_h_tab_lands(
    nav: &TabNav,
    area: Rect,
    e: TabEntry,
    selected: usize,
    drag: Option<TabReorderDrag>,
    lit: Option<usize>,
)
    requires
        nav.orientation == TabOrientation::Horizontal,
        nav.layout_ok(area),
        nav.flow_bounds_spec(area) is Some,
        nav.entry_drawable(e),
        nav.has_room(e),
    ensures
        all_land_in(nav.entry_rect(area, e), nav.tab_ops_in(area, e, selected, drag, lit)),
{
    let r = nav.entry_rect(area, e);
    let pad = nav.padding_spec();
    let b = nav.border_set;
    let top_y = nav.strip_origin_y(area);
    let sh = nav.strip_height_spec();
    let bot_y = top_y + sh - 1;
    let label_y = top_y + 1 + pad.top;
    let opens_down = nav.horizontal_position.position == HorizontalPosition::Top;
    let left = e.offset as int;
    let right = e.offset + e.size - 1;
    let active = e.index == selected;
    let dragging = drag_source(e.index, drag);
    let ts = nav.text_style_for(active, dragging);
    let tbs = nav.border_style_for(nav.border_style, dragging, lit == Some(e.index));
    assert(area.height >= sh);
    assert(top_y + sh <= area.y + area.height);
    assert(r.x == left && r.width == e.size && r.y == top_y && r.height == sh);
    let p1 = nav.h_tab_top(e, top_y, opens_down, tbs);
    let p2 = nav.h_tab_sides(e, top_y, bot_y, tbs);
    let p3 = nav.h_tab_label(e, label_y, ts);
    let p4 = if active {
        nav.h_tab_indicator(e, label_y, ts)
    } else {
        Seq::empty()
    };
    let p5 = nav.h_tab_edge(e, top_y, bot_y, opens_down, active, tbs);
    if opens_down {
        lemma_capped_row_lands(r, left, right, top_y, Glyph::Text(b.top_left), Glyph::Text(b.horizontal_top), Glyph::Text(b.top_right), tbs);
    }
    lemma_side_pairs_land(r, left, right, top_y, bot_y, Glyph::Text(b.vertical_left), Glyph::Text(b.vertical_right), tbs);
    lemma_hlabel_lands(r, nav.label(e.index as int), left + 1 + pad.left, sat_sub(right, 1 + pad.right), label_y, nav.all_caps, ts);
    if active {
        match nav.indicator_spec() {
            Some(sym) => {
                lemma_op_lands(r, if pad.left > 0 { left + pad.left } else { left + 1 }, label_y, Glyph::Text(sym), ts);
            },
            None => {},
        }
    }
    let bottom = nav.h_tab_bottom(e, bot_y, tbs);
    lemma_capped_row_lands(r, left, right, bot_y, Glyph::Text(b.bottom_left), Glyph::Text(b.horizontal_bottom), Glyph::Text(b.bottom_right), tbs);
    if active {
        if opens_down {
            lemma_capped_row_lands(r, left, right, bot_y, Glyph::Text(b.bottom_right), Glyph::Char(' '), Glyph::Text(b.bottom_left), tbs);
        } else {
            let open = capped_row(left, right, top_y, Glyph::Text(b.top_right), Glyph::Char(' '), Glyph::Text(b.top_left), tbs);
            lemma_capped_row_lands(r, left, right, top_y, Glyph::Text(b.top_right), Glyph::Char(' '), Glyph::Text(b.top_left), tbs);
            lemma_concat_lands(r, open, bottom);
        }
    } else if opens_down {
        lemma_op_lands(r, left, bot_y, Glyph::Char('┴'), tbs);
        lemma_op_lands(r, right, bot_y, Glyph::Char('┴'), tbs);
        lemma_concat_lands(r, seq![op(left, bot_y, Glyph::Char('┴'), tbs)], seq![op(right, bot_y, Glyph::Char('┴'), tbs)]);
        assert(p5 =~= seq![op(left, bot_y, Glyph::Char('┴'), tbs)] + seq![op(right, bot_y, Glyph::Char('┴'), tbs)]);
    } else {
        let tees = seq![op(left, top_y, Glyph::Char('┬'), tbs), op(right, top_y, Glyph::Char('┬'), tbs)];
        lemma_op_lands(r, left, top_y, Glyph::Char('┬'), tbs);
        lemma_op_lands(r, right, top_y, Glyph::Char('┬'), tbs);
        lemma_concat_lands(r, seq![op(left, top_y, Glyph::Char('┬'), tbs)], seq![op(right, top_y, Glyph::Char('┬'), tbs)]);
        assert(tees =~= seq![op(left, top_y, Glyph::Char('┬'), tbs)] + seq![op(right, top_y, Glyph::Char('┬'), tbs)]);
        lemma_concat_lands(r, tees, bottom);
    }
    assert(all_land_in(r, p1));
    assert(all_land_in(r, p4));
    lemma_concat_lands(r, p1, p2);
    lemma_concat_lands(r, p1 + p2, p3);
    lemma_concat_lands(r, p1 + p2 + p3, p4);
    lemma_concat_lands(r, p1 + p2 + p3 + p4, p5);
}

/// A vertical tab with room lands in its rectangle.
#[verifier::rlimit(30)]
proof fn lemma_v_tab_lands(
    nav: &TabNav,
    area: Rect,
    e: TabEntry,
    selected: usize,
    drag: Option<TabReorderDrag>,
    lit: Option<usize>,
)
    requires
        nav.orientation == TabOrientation::Vertical,
        nav.layout_ok(area),
        nav.flow_bounds_spec(area) is Some,
        nav.entry_drawable(e),
        nav.has_room(e),
        e.index < nav.tabs@.len(),
    ensures
        all_land_in(nav.entry_rect(area, e), nav.tab_ops_in(area, e, selected, drag, lit)),
{
    let r = nav.entry_rect(area, e);
    let pad = nav.padding_spec();
    let b = nav.border_set;
    let left_x = nav.rail_origin_x(area);
    let rail = nav.rail_in(area);
    let right_x = left_x + rail - 1;
    let opens_right = nav.vertical_position.position == VerticalPosition::Left;
    let top = e.offset as int;
    let bot = e.offset + e.size - 1;
    let active = e.index == selected;
    let dragging = drag_source(e.index, drag);
    let ts = nav.text_style_for(active, dragging);
    let tbs = nav.border_style_for(nav.border_style, dragging, lit == Some(e.index));
    assert(rail >= 2 + pad.left + pad.right);
    assert(left_x + rail <= area.x + area.width);
    assert(r.x == left_x && r.width == rail && r.y == top && r.height == e.size);
    assert(nav.auto_height(e.index as int) >= 2 + pad.top + pad.bottom) by {
        crate::text::lemma_widest_line_nonneg(text_lines(nav.label(e.index as int)), nav.all_caps);
    }
    let p1 = nav.v_tab_top(e, left_x, right_x, tbs);
    let p2 = nav.v_tab_side(e, left_x, right_x, opens_right, tbs);
    let p3 = nav.v_tab_label(e, left_x, right_x, ts);
    let p4 = nav.v_tab_bottom(e, left_x, right_x, tbs);
    let p5 = if active {
        nav.v_tab_indicator(e, left_x, ts)
    } else {
        Seq::empty()
    };
    let p6 = nav.v_tab_edge(e, left_x, right_x, opens_right, active, tbs);
    lemma_capped_row_lands(r, left_x, right_x, top, Glyph::Text(b.top_left), Glyph::Text(b.horizontal_top), Glyph::Text(b.top_right), tbs);
    if opens_right {
        lemma_col_lands(r, left_x, top + 1, e.size - 2, Glyph::Text(b.vertical_left), tbs);
    } else {
        lemma_col_lands(r, right_x, top + 1, e.size - 2, Glyph::Text(b.vertical_right), tbs);
    }
    lemma_vrows_land(
        r,
        text_lines(nav.label(e.index as int)),
        0,
        left_x + 1 + pad.left,
        top + 1 + pad.top,
        top + nav.auto_height(e.index as int) - 1,
        sat_sub(right_x, 1 + pad.right),
        nav.all_caps,
        ts,
    );
    lemma_capped_row_lands(r, left_x, right_x, bot, Glyph::Text(b.bottom_left), Glyph::Text(b.horizontal_bottom), Glyph::Text(b.bottom_right), tbs);
    if active {
        match nav.indicator_spec() {
            Some(sym) => {
                if pad.top > 0 {
                    lemma_op_lands(r, left_x + 1 + pad.left, top + pad.top, Glyph::Text(sym), ts);
                }
            },
            None => {},
        }
        if opens_right {
            lemma_capped_col_lands(r, right_x, top, bot, Glyph::Text(b.bottom_right), Glyph::Char(' '), Glyph::Text(b.top_right), tbs);
        } else {
            lemma_capped_col_lands(r, left_x, top, bot, Glyph::Text(b.bottom_left), Glyph::Char(' '), Glyph::Text(b.top_left), tbs);
        }
    } else {
        let x = if opens_right { right_x } else { left_x };
        let c = if opens_right { '┤' } else { '├' };
        lemma_op_lands(r, x, top, Glyph::Char(c), tbs);
        lemma_op_lands(r, x, bot, Glyph::Char(c), tbs);
        lemma_concat_lands(r, seq![op(x, top, Glyph::Char(c), tbs)], seq![op(x, bot, Glyph::Char(c), tbs)]);
        assert(p6 =~= seq![op(x, top, Glyph::Char(c), tbs)] + seq![op(x, bot, Glyph::Char(c), tbs)]);
    }
    assert(all_land_in(r, p5));
    lemma_concat_lands(r, p1, p2);
    lemma_concat_lands(r, p1 + p2, p3);
    lemma_concat_lands(r, p1 + p2 + p3, p4);
    lemma_concat_lands(r, p1 + p2 + p3 + p4, p5);
    lemma_concat_lands(r, p1 + p2 + p3 + p4 + p5, p6);
}

} // verus!