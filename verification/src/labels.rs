//! Which style the inside of a tab is drawn in: the active tab's label and indicator take
//! the highlight style, an inactive tab's label the inactive style.

use vstd::prelude::*;

use crate::canvas::{DrawOp, Glyph};
use crate::draw::{hlabel_ops, vline_ops, vrows_ops};
use crate::layout::TabEntry;
use crate::nav::TabNav;
use crate::render::{capped_col, capped_row, col_ops, drag_source, op, row_ops, side_pair_ops};
use crate::state::TabReorderDrag;
use crate::style::{MODIFIER_BOLD, Style};

verus! {

/// Whether every operation of `ops` that lands strictly inside the box with corners
/// `(x0, y0)` and `(x1, y1)` is drawn in `s`.
pub open spec fn inside_styled(ops: Seq<DrawOp>, x0: int, x1: int, y0: int, y1: int, s: Style) -> bool {
    forall|k: int|
        0 <= k < ops.len() && x0 < (#[trigger] ops[k]).x < x1 && y0 < ops[k].y < y1
            ==> ops[k].style == s
}

/// Whether every operation of `ops` is drawn in `s`.
pub open spec fn all_styled(ops: Seq<DrawOp>, s: Style) -> bool {
    forall|k: int| 0 <= k < ops.len() ==> (#[trigger] ops[k]).style == s
}

/// Whether every operation of `ops` lands outside the box with corners `(x0, y0)` and
/// `(x1, y1)`, that is, nowhere strictly inside it.
pub open spec fn all_outside(ops: Seq<DrawOp>, x0: int, x1: int, y0: int, y1: int) -> bool {
    forall|k: int|
        0 <= k < ops.len() ==> !(x0 < (#[trigger] ops[k]).x < x1 && y0 < ops[k].y < y1)
}

proof fn lemma_inside_concat(a: Seq<DrawOp>, b: Seq<DrawOp>, x0: int, x1: int, y0: int, y1: int, s: Style)
    requires
        inside_styled(a, x0, x1, y0, y1, s),
        inside_styled(b, x0, x1, y0, y1, s),
    ensures
        inside_styled(a + b, x0, x1, y0, y1, s),
{
    assert forall|k: int|
        0 <= k < (a + b).len() && x0 < (#[trigger] (a + b)[k]).x < x1 && y0 < (a + b)[k].y < y1
        implies (a + b)[k].style == s by {
        if k < a.len() {
            assert((a + b)[k] == a[k]);
        } else {
            assert((a + b)[k] == b[k - a.len()]);
        }
    }
}

proof fn lemma_styled_inside(ops: Seq<DrawOp>, x0: int, x1: int, y0: int, y1: int, s: Style)
    requires
        all_styled(ops, s),
    ensures
        inside_styled(ops, x0, x1, y0, y1, s),
{
}

proof fn lemma_outside_inside(ops: Seq<DrawOp>, x0: int, x1: int, y0: int, y1: int, s: Style)
    requires
        all_outside(ops, x0, x1, y0, y1),
    ensures
        inside_styled(ops, x0, x1, y0, y1, s),
{
}

/// A run along row `y` stays outside a box whose rows do not include `y`.
proof fn lemma_capped_row_outside(
    left: int,
    right: int,
    y: int,
    first: Glyph,
    fill: Glyph,
    last: Glyph,
    s: Style,
    x0: int,
    x1: int,
    y0: int,
    y1: int,
)
    requires
        0 <= y <= u16::MAX,
        !(y0 < y < y1),
    ensures
        all_outside(capped_row(left, right, y, first, fill, last, s), x0, x1, y0, y1),
{
    let a = seq![op(left, y, first, s)];
    let m = row_ops(left + 1, y, right - left - 1, fill, s);
    let b = seq![op(right, y, last, s)];
    let ops = capped_row(left, right, y, first, fill, last, s);
    assert forall|k: int| 0 <= k < ops.len() implies !(x0 < (#[trigger] ops[k]).x < x1 && y0
        < ops[k].y < y1) by {
        if k < 1 {
            assert(ops[k] == a[k]);
        } else if k < 1 + m.len() {
            assert(ops[k] == m[k - 1]);
        } else {
            assert(ops[k] == b[k - 1 - m.len()]);
        }
        assert(ops[k].y == y);
    }
}

/// A run down column `x` stays outside a box whose columns do not include `x`.
proof fn lemma_capped_col_outside(
    x: int,
    top: int,
    bottom: int,
    first: Glyph,
    fill: Glyph,
    last: Glyph,
    s: Style,
    x0: int,
    x1: int,
    y0: int,
    y1: int,
)
    requires
        0 <= x <= u16::MAX,
        !(x0 < x < x1),
    ensures
        all_outside(capped_col(x, top, bottom, first, fill, last, s), x0, x1, y0, y1),
{
    let a = seq![op(x, top, first, s)];
    let m = col_ops(x, top + 1, bottom - top - 1, fill, s);
    let b = seq![op(x, bottom, last, s)];
    let ops = capped_col(x, top, bottom, first, fill, last, s);
    assert forall|k: int| 0 <= k < ops.len() implies !(x0 < (#[trigger] ops[k]).x < x1 && y0
        < ops[k].y < y1) by {
        if k < 1 {
            assert(ops[k] == a[k]);
        } else if k < 1 + m.len() {
            assert(ops[k] == m[k - 1]);
        } else {
            assert(ops[k] == b[k - 1 - m.len()]);
        }
        assert(ops[k].x == x);
    }
}

/// The side borders of a tab stay in their two columns, outside the box between them.
proof fn lemma_side_pairs_outside(
    left: int,
    right: int,
    top: int,
    bottom: int,
    gl: Glyph,
    gr: Glyph,
    s: Style,
    x0: int,
    x1: int,
    y0: int,
    y1: int,
)
    requires
        0 <= left <= u16::MAX,
        0 <= right <= u16::MAX,
        !(x0 < left < x1),
        !(x0 < right < x1),
    ensures
        all_outside(side_pair_ops(left, right, top, bottom, gl, gr, s), x0, x1, y0, y1),
{
}

/// A one-row label is drawn wholly in its style.
proof fn lemma_hlabel_styled(chars: Seq<char>, col: int, max_x: int, y: int, all_caps: bool, s: Style)
    ensures
        all_styled(hlabel_ops(chars, col, max_x, y, all_caps, s), s),
    decreases chars.len(),
{
    if chars.len() > 0 {
        let w = crate::text::char_cols(chars[0], all_caps);
        if !(w == 0 || col > max_x || crate::geometry::sat_sub(crate::geometry::sat_add(col, w), 1)
            > max_x) {
            let g = Glyph::Char(crate::text::shown_char(chars[0], all_caps));
            let rest = hlabel_ops(
                chars.drop_first(),
                crate::geometry::sat_add(col, w),
                max_x,
                y,
                all_caps,
                s,
            );
            lemma_hlabel_styled(
                chars.drop_first(),
                crate::geometry::sat_add(col, w),
                max_x,
                y,
                all_caps,
                s,
            );
            let ops = hlabel_ops(chars, col, max_x, y, all_caps, s);
            assert(ops == seq![op(col, y, g, s)] + rest);
            assert forall|k: int| 0 <= k < ops.len() implies (#[trigger] ops[k]).style == s by {
                if k > 0 {
                    assert(ops[k] == rest[k - 1]);
                }
            }
        }
    }
}

/// A stacked label is drawn wholly in its style.
proof fn lemma_vrows_styled(
    lines: Seq<Seq<char>>,
    r: int,
    x0: int,
    y0: int,
    max_y: int,
    xmax: int,
    all_caps: bool,
    s: Style,
)
    ensures
        all_styled(vrows_ops(lines, r, x0, y0, max_y, xmax, all_caps, s), s),
    decreases lines.len() - r,
{
    if !(r < 0 || r >= lines.len() || y0 + r >= max_y) {
        lemma_vrows_styled(lines, r + 1, x0, y0, max_y, xmax, all_caps, s);
        let a = vline_ops(lines[r], x0, y0 + r, xmax, all_caps, s);
        let b = vrows_ops(lines, r + 1, x0, y0, max_y, xmax, all_caps, s);
        let ops = vrows_ops(lines, r, x0, y0, max_y, xmax, all_caps, s);
        assert(ops == a + b);
        assert forall|k: int| 0 <= k < ops.len() implies (#[trigger] ops[k]).style == s by {
            if k < a.len() {
                assert(ops[k] == a[k]);
            } else {
                assert(ops[k] == b[k - a.len()]);
            }
        }
    }
}

/// What a label style must be for the tab's role: for the active tab the highlight
/// style's colors, with bold added (and not removed) when highlighting is bold, or the
/// highlight style itself otherwise; for an inactive tab the inactive style.
pub open spec fn label_style_fits(nav: &TabNav, active: bool, s: Style) -> bool {
    if active {
        let h = nav.highlight_style;
        &&& s.fg == h.fg
        &&& s.bg == h.bg
        &&& s.add_modifier & h.add_modifier == h.add_modifier
        &&& nav.highlight_bold ==> s.add_modifier & MODIFIER_BOLD == MODIFIER_BOLD
            && s.sub_modifier & MODIFIER_BOLD == 0
        &&& !nav.highlight_bold ==> s == h
    } else {
        s == nav.style
    }
}

/// The label style of a tab that is not being dragged fits its role: the highlight style
/// (bold when highlighting is bold) for the active tab, the inactive style otherwise.
pub proof fn law_label_style_follows_role(nav: &TabNav, active: bool)
    ensures
        label_style_fits(nav, active, nav.text_style_for(active, false)),
{
    let h = nav.highlight_style;
    let a = h.add_modifier;
    let b = h.sub_modifier;
    assert(MODIFIER_BOLD == 1u16);
    assert((a | 1u16) & a == a) by (bit_vector);
    assert((a | 1u16) & 1u16 == 1u16) by (bit_vector);
    assert((b & !1u16) & 1u16 == 0u16) by (bit_vector);
    assert(a & a == a) by (bit_vector);
    let t = nav.text_style_for(active, false);
    if active && nav.highlight_bold {
        assert(t.add_modifier == a | MODIFIER_BOLD);
        assert(t.add_modifier & a == a);
        assert(t.add_modifier & MODIFIER_BOLD == MODIFIER_BOLD);
        assert(t.sub_modifier & MODIFIER_BOLD == 0);
    }
    if active && !nav.highlight_bold {
        assert(t == h);
        assert(t.add_modifier & a == a);
    }
}

/// Inside the border of a tab of a horizontal strip that is not being dragged, everything
/// is drawn in the style of its role: the active tab's label and indicator in the
/// highlight style (bold when highlighting is bold), an inactive tab's label in the
/// inactive style.
pub proof fn law_h_tab_inside_follows_role(
    nav: &TabNav,
    e: TabEntry,
    top_y: int,
    bot_y: int,
    label_y: int,
    opens_down: bool,
    selected: usize,
    drag: Option<TabReorderDrag>,
    lit: Option<usize>,
)
    requires
        !drag_source(e.index, drag),
        0 <= top_y < bot_y <= u16::MAX,
        e.offset + e.size <= u16::MAX,
    ensures
        ({
            let ops = nav.h_tab_ops(e, top_y, bot_y, label_y, opens_down, selected, drag, lit);
            forall|k: int|
                0 <= k < ops.len() && e.offset < (#[trigger] ops[k]).x < e.offset + e.size - 1
                    && top_y < ops[k].y < bot_y ==> label_style_fits(
                    nav,
                    e.index == selected,
                    ops[k].style,
                )
        }),
{
    let active = e.index == selected;
    let ts = nav.text_style_for(active, false);
    law_label_style_follows_role(nav, active);
    if e.size > 0 {
        let tbs = nav.border_style_for(nav.border_style, false, lit == Some(e.index));
        let (x0, x1, y0, y1) = (e.offset as int, e.offset + e.size - 1, top_y, bot_y);
        let b = nav.border_set;
        let left = e.offset as int;
        let right = e.offset + e.size - 1;
        let top = nav.h_tab_top(e, top_y, opens_down, tbs);
        if opens_down {
            lemma_capped_row_outside(
                left,
                right,
                top_y,
                Glyph::Text(b.top_left),
                Glyph::Text(b.horizontal_top),
                Glyph::Text(b.top_right),
                tbs,
                x0,
                x1,
                y0,
                y1,
            );
        }
        let sides = nav.h_tab_sides(e, top_y, bot_y, tbs);
        lemma_side_pairs_outside(
            left,
            right,
            top_y,
            bot_y,
            Glyph::Text(b.vertical_left),
            Glyph::Text(b.vertical_right),
            tbs,
            x0,
            x1,
            y0,
            y1,
        );
        let pad = nav.padding_spec();
        let label = nav.h_tab_label(e, label_y, ts);
        lemma_hlabel_styled(
            nav.label(e.index as int),
            e.offset + 1 + pad.left,
            crate::geometry::sat_sub(e.offset + e.size - 1, 1 + pad.right),
            label_y,
            nav.all_caps,
            ts,
        );
        let ind = if active {
            nav.h_tab_indicator(e, label_y, ts)
        } else {
            Seq::empty()
        };
        assert(all_styled(ind, ts));
        let bottom = nav.h_tab_bottom(e, bot_y, tbs);
        lemma_capped_row_outside(
            left,
            right,
            bot_y,
            Glyph::Text(b.bottom_left),
            Glyph::Text(b.horizontal_bottom),
            Glyph::Text(b.bottom_right),
            tbs,
            x0,
            x1,
            y0,
            y1,
        );
        let edge = nav.h_tab_edge(e, top_y, bot_y, opens_down, active, tbs);
        if active {
            if opens_down {
                lemma_capped_row_outside(
                    left,
                    right,
                    bot_y,
                    Glyph::Text(b.bottom_right),
                    Glyph::Char(' '),
                    Glyph::Text(b.bottom_left),
                    tbs,
                    x0,
                    x1,
                    y0,
                    y1,
                );
            } else {
                lemma_capped_row_outside(
                    left,
                    right,
                    top_y,
                    Glyph::Text(b.top_right),
                    Glyph::Char(' '),
                    Glyph::Text(b.top_left),
                    tbs,
                    x0,
                    x1,
                    y0,
                    y1,
                );
                let c = capped_row(
                    left,
                    right,
                    top_y,
                    Glyph::Text(b.top_right),
                    Glyph::Char(' '),
                    Glyph::Text(b.top_left),
                    tbs,
                );
                lemma_inside_concat(c, bottom, x0, x1, y0, y1, ts);
            }
        } else if opens_down {
            let j = seq![op(left, bot_y, Glyph::Char('┴'), tbs), op(right, bot_y, Glyph::Char('┴'), tbs)];
            assert(all_outside(j, x0, x1, y0, y1)) by {
                assert forall|k: int| 0 <= k < j.len() implies !(x0 < (#[trigger] j[k]).x < x1 && y0
                    < j[k].y < y1) by {
                    assert(j[k].y == bot_y);
                }
            }
        } else {
            let j = seq![op(left, top_y, Glyph::Char('┬'), tbs), op(right, top_y, Glyph::Char('┬'), tbs)];
            assert(all_outside(j, x0, x1, y0, y1)) by {
                assert forall|k: int| 0 <= k < j.len() implies !(x0 < (#[trigger] j[k]).x < x1 && y0
                    < j[k].y < y1) by {
                    assert(j[k].y == top_y);
                }
            }
            lemma_inside_concat(j, bottom, x0, x1, y0, y1, ts);
        }
        assert(inside_styled(edge, x0, x1, y0, y1, ts));
        lemma_inside_concat(top, sides, x0, x1, y0, y1, ts);
        lemma_inside_concat(top + sides, label, x0, x1, y0, y1, ts);
        lemma_inside_concat(top + sides + label, ind, x0, x1, y0, y1, ts);
        lemma_inside_concat(top + sides + label + ind, edge, x0, x1, y0, y1, ts);
        let ops = nav.h_tab_ops(e, top_y, bot_y, label_y, opens_down, selected, drag, lit);
        assert(ops == top + sides + label + ind + edge);
    }
}

/// Inside the border of a tab of a vertical rail that is not being dragged, everything is
/// drawn in the style of its role: the active tab's label and indicator in the highlight
/// style (bold when highlighting is bold), an inactive tab's label in the inactive style.
pub proof fn law_v_tab_inside_follows_role(
    nav: &TabNav,
    e: TabEntry,
    left_x: int,
    right_x: int,
    opens_right: bool,
    selected: usize,
    drag: Option<TabReorderDrag>,
    lit: Option<usize>,
)
    requires
        !drag_source(e.index, drag),
        0 <= left_x < right_x <= u16::MAX,
        e.offset + e.size <= u16::MAX,
    ensures
        ({
            let ops = nav.v_tab_ops(e, left_x, right_x, opens_right, selected, drag, lit);
            forall|k: int|
                0 <= k < ops.len() && left_x < (#[trigger] ops[k]).x < right_x && e.offset
                    < ops[k].y < e.offset + e.size - 1 ==> label_style_fits(
                    nav,
                    e.index == selected,
                    ops[k].style,
                )
        }),
{
    let active = e.index == selected;
    let ts = nav.text_style_for(active, false);
    law_label_style_follows_role(nav, active);
    if e.size > 0 {
        let tbs = nav.border_style_for(nav.border_style, false, lit == Some(e.index));
        let (x0, x1, y0, y1) = (left_x, right_x, e.offset as int, e.offset + e.size - 1);
        let b = nav.border_set;
        let top_row = e.offset as int;
        let bot_row = e.offset + e.size - 1;
        let top = nav.v_tab_top(e, left_x, right_x, tbs);
        lemma_capped_row_outside(
            left_x,
            right_x,
            top_row,
            Glyph::Text(b.top_left),
            Glyph::Text(b.horizontal_top),
            Glyph::Text(b.top_right),
            tbs,
            x0,
            x1,
            y0,
            y1,
        );
        let side = nav.v_tab_side(e, left_x, right_x, opens_right, tbs);
        assert(all_outside(side, x0, x1, y0, y1)) by {
            assert forall|k: int| 0 <= k < side.len() implies !(x0 < (#[trigger] side[k]).x < x1 && y0
                < side[k].y < y1) by {
                if opens_right {
                    assert(side[k].x == left_x);
                } else {
                    assert(side[k].x == right_x);
                }
            }
        }
        let pad = nav.padding_spec();
        let label = nav.v_tab_label(e, left_x, right_x, ts);
        lemma_vrows_styled(
            crate::text::text_lines(nav.label(e.index as int)),
            0,
            left_x + 1 + pad.left,
            e.offset + 1 + pad.top,
            e.offset + nav.auto_height(e.index as int) - 1,
            crate::geometry::sat_sub(right_x, 1 + pad.right),
            nav.all_caps,
            ts,
        );
        let bottom = nav.v_tab_bottom(e, left_x, right_x, tbs);
        lemma_capped_row_outside(
            left_x,
            right_x,
            bot_row,
            Glyph::Text(b.bottom_left),
            Glyph::Text(b.horizontal_bottom),
            Glyph::Text(b.bottom_right),
            tbs,
            x0,
            x1,
            y0,
            y1,
        );
        let ind = if active {
            nav.v_tab_indicator(e, left_x, ts)
        } else {
            Seq::empty()
        };
        assert(all_styled(ind, ts));
        let edge = nav.v_tab_edge(e, left_x, right_x, opens_right, active, tbs);
        if active {
            if opens_right {
                lemma_capped_col_outside(
                    right_x,
                    top_row,
                    bot_row,
                    Glyph::Text(b.bottom_right),
                    Glyph::Char(' '),
                    Glyph::Text(b.top_right),
                    tbs,
                    x0,
                    x1,
                    y0,
                    y1,
                );
            } else {
                lemma_capped_col_outside(
                    left_x,
                    top_row,
                    bot_row,
                    Glyph::Text(b.bottom_left),
                    Glyph::Char(' '),
                    Glyph::Text(b.top_left),
                    tbs,
                    x0,
                    x1,
                    y0,
                    y1,
                );
            }
        } else {
            assert(all_outside(edge, x0, x1, y0, y1)) by {
                assert forall|k: int| 0 <= k < edge.len() implies !(x0 < (#[trigger] edge[k]).x < x1
                    && y0 < edge[k].y < y1) by {
                    if opens_right {
                        assert(edge[k].x == right_x);
                    } else {
                        assert(edge[k].x == left_x);
                    }
                }
            }
        }
        lemma_inside_concat(top, side, x0, x1, y0, y1, ts);
        lemma_inside_concat(top + side, label, x0, x1, y0, y1, ts);
        lemma_inside_concat(top + side + label, bottom, x0, x1, y0, y1, ts);
        lemma_inside_concat(top + side + label + bottom, ind, x0, x1, y0, y1, ts);
        lemma_inside_concat(top + side + label + bottom + ind, edge, x0, x1, y0, y1, ts);
        let ops = nav.v_tab_ops(e, left_x, right_x, opens_right, selected, drag, lit);
        assert(ops == top + side + label + bottom + ind + edge);
    }
}

} // verus!
