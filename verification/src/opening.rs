//! The active tab opens into the content: after the strip is painted, the edge of the
//! active tab that faces the content is blank between its corners.

use vstd::prelude::*;

use crate::canvas::{CellModel, DrawOp, Glyph, addresses, cell_index, in_area, painted};
use crate::config::{HorizontalPosition, TabOrientation, VerticalPosition};
use crate::draw::{h_strip_ops, hlabel_ops, v_strip_ops, vline_ops, vrows_ops};
use crate::geometry::{Rect, sat_add, sat_sub};
use crate::layout::{TabEntry, ViewportModel, group_span};
use crate::nav::TabNav;
use crate::render::{capped_row, col_ops, drag_source, op, row_ops, side_pair_ops};
use crate::text::text_lines;
use crate::state::TabReorderDrag;
use crate::style::Style;

verus! {

/// Whether no operation of `ops` addresses cell `(x, y)`.
pub open spec fn misses(ops: Seq<DrawOp>, x: int, y: int) -> bool {
    forall|k: int| 0 <= k < ops.len() ==> !addresses(#[trigger] ops[k], x, y)
}

/// Whether every operation of `ops` addresses a column at or right of `lo`.
pub open spec fn all_from_col(ops: Seq<DrawOp>, lo: int) -> bool {
    forall|k: int| 0 <= k < ops.len() ==> lo <= (#[trigger] ops[k]).x
}

proof fn lemma_misses_concat(a: Seq<DrawOp>, b: Seq<DrawOp>, x: int, y: int)
    requires
        misses(a, x, y),
        misses(b, x, y),
    ensures
        misses(a + b, x, y),
{
    assert forall|k: int| 0 <= k < (a + b).len() implies !addresses(#[trigger] (a + b)[k], x, y) by {
        if k < a.len() {
            assert((a + b)[k] == a[k]);
        } else {
            assert((a + b)[k] == b[k - a.len()]);
        }
    }
}

proof fn lemma_from_col_concat(a: Seq<DrawOp>, b: Seq<DrawOp>, lo: int)
    requires
        all_from_col(a, lo),
        all_from_col(b, lo),
    ensures
        all_from_col(a + b, lo),
{
    assert forall|k: int| 0 <= k < (a + b).len() implies lo <= (#[trigger] (a + b)[k]).x by {
        if k < a.len() {
            assert((a + b)[k] == a[k]);
        } else {
            assert((a + b)[k] == b[k - a.len()]);
        }
    }
}

proof fn lemma_from_col_misses(ops: Seq<DrawOp>, lo: int, x: int, y: int)
    requires
        all_from_col(ops, lo),
        x < lo,
    ensures
        misses(ops, x, y),
{
    assert forall|k: int| 0 <= k < ops.len() implies !addresses(#[trigger] ops[k], x, y) by {
        assert(lo <= ops[k].x);
    }
}

proof fn lemma_op_from_col(x: int, y: int, g: Glyph, s: Style, lo: int)
    requires
        lo <= x <= u16::MAX,
        0 <= x,
    ensures
        all_from_col(seq![op(x, y, g, s)], lo),
{
    assert(seq![op(x, y, g, s)][0].x == x);
}

proof fn lemma_row_from_col(x0: int, y: int, n: int, g: Glyph, s: Style, lo: int)
    requires
        lo <= x0,
        0 <= x0,
        x0 + n <= u16::MAX + 1,
    ensures
        all_from_col(row_ops(x0, y, n, g, s), lo),
{
    let ops = row_ops(x0, y, n, g, s);
    assert forall|k: int| 0 <= k < ops.len() implies lo <= (#[trigger] ops[k]).x by {
        assert(ops[k] == op(x0 + k, y, g, s));
    }
}

proof fn lemma_capped_row_from_col(
    left: int,
    right: int,
    y: int,
    first: Glyph,
    fill: Glyph,
    last: Glyph,
    s: Style,
    lo: int,
)
    requires
        lo <= left <= u16::MAX,
        lo <= right <= u16::MAX,
        0 <= right,
        0 <= left,
    ensures
        all_from_col(capped_row(left, right, y, first, fill, last, s), lo),
{
    lemma_op_from_col(left, y, first, s, lo);
    lemma_row_from_col(left + 1, y, right - left - 1, fill, s, lo);
    lemma_op_from_col(right, y, last, s, lo);
    lemma_from_col_concat(seq![op(left, y, first, s)], row_ops(left + 1, y, right - left - 1, fill, s), lo);
    lemma_from_col_concat(
        seq![op(left, y, first, s)] + row_ops(left + 1, y, right - left - 1, fill, s),
        seq![op(right, y, last, s)],
        lo,
    );
}

proof fn lemma_hlabel_from_col(chars: Seq<char>, col: int, max_x: int, y: int, all_caps: bool, s: Style, lo: int)
    requires
        lo <= col,
        0 <= col,
        max_x <= u16::MAX,
    ensures
        all_from_col(hlabel_ops(chars, col, max_x, y, all_caps, s), lo),
    decreases chars.len(),
{
    if chars.len() > 0 {
        let w = crate::text::char_cols(chars[0], all_caps);
        if !(w == 0 || col > max_x || sat_sub(sat_add(col, w), 1) > max_x) {
            let g = Glyph::Char(crate::text::shown_char(chars[0], all_caps));
            lemma_op_from_col(col, y, g, s, lo);
            lemma_hlabel_from_col(chars.drop_first(), sat_add(col, w), max_x, y, all_caps, s, lo);
            lemma_from_col_concat(
                seq![op(col, y, g, s)],
                hlabel_ops(chars.drop_first(), sat_add(col, w), max_x, y, all_caps, s),
                lo,
            );
        }
    }
}

/// Everything drawn for an inactive tab of a horizontal strip lies at or right of the
/// column before it.
#[verifier::rlimit(30)]
proof fn lemma_h_inactive_tab_from_col(
    nav: &TabNav,
    e: TabEntry,
    top_y: int,
    bot_y: int,
    label_y: int,
    opens_down: bool,
    selected: usize,
    drag: Option<TabReorderDrag>,
    lit: Option<usize>,
)
    requires
        nav.orientation == TabOrientation::Horizontal,
        nav.entry_drawable(e),
        e.index != selected,
    ensures
        all_from_col(
            nav.h_tab_ops(e, top_y, bot_y, label_y, opens_down, selected, drag, lit),
            e.offset - 1,
        ),
{
    let b = nav.border_set;
    let pad = nav.padding_spec();
    let lo = e.offset - 1;
    let left = e.offset as int;
    let right = e.offset + e.size - 1;
    let dragging = drag_source(e.index, drag);
    let ts = nav.text_style_for(false, dragging);
    let tbs = nav.border_style_for(nav.border_style, dragging, lit == Some(e.index));
    let p1 = nav.h_tab_top(e, top_y, opens_down, tbs);
    let p2 = nav.h_tab_sides(e, top_y, bot_y, tbs);
    let p3 = nav.h_tab_label(e, label_y, ts);
    let p5 = nav.h_tab_edge(e, top_y, bot_y, opens_down, false, tbs);
    if opens_down {
        lemma_capped_row_from_col(left, right, top_y, Glyph::Text(b.top_left), Glyph::Text(b.horizontal_top), Glyph::Text(b.top_right), tbs, lo);
    }
    assert forall|k: int| 0 <= k < p2.len() implies lo <= (#[trigger] p2[k]).x by {
        let n = if bot_y - top_y - 1 > 0 { bot_y - top_y - 1 } else { 0 };
        assert(0 <= k / 2 < n) by (nonlinear_arith)
            requires
                0 <= k < 2 * n,
        ;
        assert(p2 == side_pair_ops(left, right, top_y, bot_y, Glyph::Text(b.vertical_left), Glyph::Text(b.vertical_right), tbs));
        if k % 2 == 0 {
            assert(p2[k] == op(left, top_y + 1 + k / 2, Glyph::Text(b.vertical_left), tbs));
        } else {
            assert(p2[k] == op(right, top_y + 1 + k / 2, Glyph::Text(b.vertical_right), tbs));
        }
    }
    lemma_hlabel_from_col(nav.label(e.index as int), left + 1 + pad.left, sat_sub(right, 1 + pad.right), label_y, nav.all_caps, ts, lo);
    let bottom = nav.h_tab_bottom(e, bot_y, tbs);
    lemma_capped_row_from_col(left, right, bot_y, Glyph::Text(b.bottom_left), Glyph::Text(b.horizontal_bottom), Glyph::Text(b.bottom_right), tbs, lo);
    if opens_down {
        lemma_op_from_col(left, bot_y, Glyph::Char('┴'), tbs, lo);
        lemma_op_from_col(right, bot_y, Glyph::Char('┴'), tbs, lo);
        lemma_from_col_concat(seq![op(left, bot_y, Glyph::Char('┴'), tbs)], seq![op(right, bot_y, Glyph::Char('┴'), tbs)], lo);
        assert(p5 =~= seq![op(left, bot_y, Glyph::Char('┴'), tbs)] + seq![op(right, bot_y, Glyph::Char('┴'), tbs)]);
    } else {
        let tees = seq![op(left, top_y, Glyph::Char('┬'), tbs), op(right, top_y, Glyph::Char('┬'), tbs)];
        lemma_op_from_col(left, top_y, Glyph::Char('┬'), tbs, lo);
        lemma_op_from_col(right, top_y, Glyph::Char('┬'), tbs, lo);
        lemma_from_col_concat(seq![op(left, top_y, Glyph::Char('┬'), tbs)], seq![op(right, top_y, Glyph::Char('┬'), tbs)], lo);
        assert(tees =~= seq![op(left, top_y, Glyph::Char('┬'), tbs)] + seq![op(right, top_y, Glyph::Char('┬'), tbs)]);
        lemma_from_col_concat(tees, bottom, lo);
    }
    assert(all_from_col(p1, lo));
    assert(all_from_col(Seq::<DrawOp>::empty(), lo));
    lemma_from_col_concat(p1, p2, lo);
    lemma_from_col_concat(p1 + p2, p3, lo);
    lemma_from_col_concat(p1 + p2 + p3, Seq::<DrawOp>::empty(), lo);
    lemma_from_col_concat(p1 + p2 + p3 + Seq::<DrawOp>::empty(), p5, lo);
}

/// The tabs of a horizontal strip drawn one after another are drawn as their pieces
/// joined in order.
proof fn lemma_h_tabs_concat(
    nav: &TabNav,
    a: Seq<TabEntry>,
    b: Seq<TabEntry>,
    top_y: int,
    bot_y: int,
    label_y: int,
    opens_down: bool,
    selected: usize,
    drag: Option<TabReorderDrag>,
    lit: Option<usize>,
)
    ensures
        nav.h_tabs_ops(a + b, top_y, bot_y, label_y, opens_down, selected, drag, lit) == nav.h_tabs_ops(
            a,
            top_y,
            bot_y,
            label_y,
            opens_down,
            selected,
            drag,
            lit,
        ) + nav.h_tabs_ops(b, top_y, bot_y, label_y, opens_down, selected, drag, lit),
    decreases b.len(),
{
    if b.len() == 0 {
        assert(a + b =~= a);
        assert(nav.h_tabs_ops(b, top_y, bot_y, label_y, opens_down, selected, drag, lit) =~= Seq::<DrawOp>::empty());
        assert(nav.h_tabs_ops(a, top_y, bot_y, label_y, opens_down, selected, drag, lit) + Seq::<DrawOp>::empty()
            =~= nav.h_tabs_ops(a, top_y, bot_y, label_y, opens_down, selected, drag, lit));
    } else {
        assert((a + b).drop_last() =~= a + b.drop_last());
        assert((a + b).last() == b.last());
        lemma_h_tabs_concat(nav, a, b.drop_last(), top_y, bot_y, label_y, opens_down, selected, drag, lit);
        let ha = nav.h_tabs_ops(a, top_y, bot_y, label_y, opens_down, selected, drag, lit);
        let hb = nav.h_tabs_ops(b.drop_last(), top_y, bot_y, label_y, opens_down, selected, drag, lit);
        let t = nav.h_tab_ops(b.last(), top_y, bot_y, label_y, opens_down, selected, drag, lit);
        assert(ha + hb + t =~= ha + (hb + t));
    }
}

/// Tabs of a horizontal strip that are all inactive and start right of column `x + 1`
/// draw nothing at column `x`.
proof fn lemma_h_tabs_miss(
    nav: &TabNav,
    es: Seq<TabEntry>,
    top_y: int,
    bot_y: int,
    label_y: int,
    opens_down: bool,
    selected: usize,
    drag: Option<TabReorderDrag>,
    lit: Option<usize>,
    x: int,
    y: int,
)
    requires
        nav.orientation == TabOrientation::Horizontal,
        forall|k: int|
            0 <= k < es.len() ==> {
                &&& (#[trigger] es[k]).index != selected
                &&& x + 2 <= es[k].offset
                &&& nav.entry_drawable(es[k])
            },
    ensures
        misses(nav.h_tabs_ops(es, top_y, bot_y, label_y, opens_down, selected, drag, lit), x, y),
    decreases es.len(),
{
    if es.len() > 0 {
        let rest = es.drop_last();
        assert forall|k: int| 0 <= k < rest.len() implies {
            &&& (#[trigger] rest[k]).index != selected
            &&& x + 2 <= rest[k].offset
            &&& nav.entry_drawable(rest[k])
        } by {
            assert(rest[k] == es[k]);
        }
        lemma_h_tabs_miss(nav, rest, top_y, bot_y, label_y, opens_down, selected, drag, lit, x, y);
        let e = es.last();
        assert(e == es[es.len() - 1]);
        lemma_h_inactive_tab_from_col(nav, e, top_y, bot_y, label_y, opens_down, selected, drag, lit);
        lemma_from_col_misses(nav.h_tab_ops(e, top_y, bot_y, label_y, opens_down, selected, drag, lit), e.offset - 1, x, y);
        lemma_misses_concat(
            nav.h_tabs_ops(rest, top_y, bot_y, label_y, opens_down, selected, drag, lit),
            nav.h_tab_ops(e, top_y, bot_y, label_y, opens_down, selected, drag, lit),
            x,
            y,
        );
    }
}

impl<'a> TabNav<'a> {
    /// The row of a horizontal strip's edge that faces the content: the bottom row of a
    /// top strip, the top row of a bottom strip.
    pub open spec fn open_edge_y(&self, area: Rect) -> int {
        let top_y = self.strip_origin_y(area);
        if self.horizontal_position.position == HorizontalPosition::Top {
            top_y + self.strip_height_spec() - 1
        } else {
            top_y
        }
    }
}

/// The active tab opens into the content: once the strip is painted, every cell between
/// the corners of the active tab's edge that faces the content (its bottom row in a top
/// strip, its top row in a bottom strip) holds a blank, whatever the canvas held before.
/// (Stated where the flow span ends before the last coordinate `u16::MAX`.)
#[verifier::rlimit(30)]
pub proof fn law_active_tab_opens_toward_content(
    nav: &TabNav,
    area: Rect,
    scroll_offset: usize,
    selected: usize,
    drag: Option<TabReorderDrag>,
    lit: Option<usize>,
    canvas_area: Rect,
    cells: Seq<CellModel>,
    j: int,
    x: int,
)
    requires
        nav.render_ok(area, scroll_offset),
        nav.orientation == TabOrientation::Horizontal,
        nav.flow_bounds_spec(area) matches Some((fs, fe)) && fe < u16::MAX,
        0 <= j < nav.viewport_model(area, scroll_offset).entries.len(),
        nav.viewport_model(area, scroll_offset).entries[j].index == selected,
        nav.viewport_model(area, scroll_offset).entries[j].offset < x < nav.viewport_model(
            area,
            scroll_offset,
        ).entries[j].offset + nav.viewport_model(area, scroll_offset).entries[j].size - 1,
        in_area(canvas_area, x, nav.open_edge_y(area)),
        cells.len() == canvas_area.width * canvas_area.height,
    ensures
        painted(
            canvas_area,
            cells,
            nav.render_ops_spec(area, selected, scroll_offset, drag, lit),
        )[cell_index(canvas_area, x, nav.open_edge_y(area))].symbol == seq![' '],
{
    let (fs, fe) = nav.flow_bounds_spec(area)->0;
    let vp = nav.viewport_model(area, scroll_offset);
    crate::layout::law_viewport_tabs_packed_within_strip(nav, area, scroll_offset);
    let top_y = nav.strip_origin_y(area);
    let sh = nav.strip_height_spec();
    let bot_y = top_y + sh - 1;
    let label_y = top_y + 1 + nav.padding_spec().top;
    let opens_down = nav.horizontal_position.position == HorizontalPosition::Top;
    assert(area.height >= sh);
    assert(forall|m: int| 0 <= m < vp.entries.len() ==> nav.entry_drawable(#[trigger] vp.entries[m]));
    lemma_spread(vp.entries, fs as int, fe as int);
    assert(vp.before_affordance_at matches Some(b) ==> b == fs);
    assert(vp.after_affordance_at matches Some(a) ==> a == fe - 1);
    lemma_open_edge_blank(
        nav,
        vp,
        fs as int,
        fe as int,
        top_y,
        bot_y,
        label_y,
        opens_down,
        selected,
        drag,
        lit,
        canvas_area,
        cells,
        j,
        x,
    );
}


/// The core of the opening law, over any viewport whose tabs are packed in order within
/// the flow span and whose markers sit at its ends.
#[verifier::rlimit(30)]
proof fn lemma_open_edge_blank(
    nav: &TabNav,
    vp: ViewportModel,
    fs: int,
    fe: int,
    top_y: int,
    bot_y: int,
    label_y: int,
    opens_down: bool,
    selected: usize,
    drag: Option<TabReorderDrag>,
    lit: Option<usize>,
    canvas_area: Rect,
    cells: Seq<CellModel>,
    j: int,
    x: int,
)
    requires
        nav.orientation == TabOrientation::Horizontal,
        spread(vp.entries, fs, fe),
        0 <= fs,
        fe < u16::MAX,
        forall|m: int| 0 <= m < vp.entries.len() ==> nav.entry_drawable(#[trigger] vp.entries[m]),
        vp.before_affordance_at matches Some(b) ==> b == fs,
        vp.after_affordance_at matches Some(a) ==> a == fe - 1,
        0 <= top_y < label_y < bot_y <= u16::MAX,
        0 <= j < vp.entries.len(),
        vp.entries[j].index == selected,
        vp.entries[j].offset < x < vp.entries[j].offset + vp.entries[j].size - 1,
        in_area(canvas_area, x, if opens_down { bot_y } else { top_y }),
        cells.len() == canvas_area.width * canvas_area.height,
    ensures
        painted(
            canvas_area,
            cells,
            h_strip_ops(nav, vp, fs, fe, top_y, bot_y, label_y, opens_down, selected, drag, lit),
        )[cell_index(canvas_area, x, if opens_down { bot_y } else { top_y })].symbol == seq![' '],
{
    let entries = vp.entries;
    let e = entries[j];
    assert(nav.entry_drawable(e));
    let b = nav.border_set;
    let bs = nav.border_style;
    let baseline_y = if opens_down { bot_y } else { top_y };
    let y = baseline_y;
    let dragging = drag_source(e.index, drag);
    let tbs = nav.border_style_for(bs, dragging, lit == Some(e.index));
    let before_tabs = entries.take(j);
    let after_tabs = entries.skip(j + 1);
    let tab = nav.h_tab_ops(e, top_y, bot_y, label_y, opens_down, selected, drag, lit);
    let row = row_ops(fs, baseline_y, fe - fs, Glyph::Text(b.horizontal_top), bs);
    let earlier = nav.h_tabs_ops(before_tabs, top_y, bot_y, label_y, opens_down, selected, drag, lit);
    let later = nav.h_tabs_ops(after_tabs, top_y, bot_y, label_y, opens_down, selected, drag, lit);
    let markers = nav.h_marker_ops(vp, baseline_y, label_y);
    let ends = nav.h_bar_end_ops(fs, fe, baseline_y, entries, selected, opens_down);
    let ops = h_strip_ops(nav, vp, fs, fe, top_y, bot_y, label_y, opens_down, selected, drag, lit);
    // The tabs split around the active one.
    lemma_h_tabs_around(nav, entries, j, top_y, bot_y, label_y, opens_down, selected, drag, lit);
    assert(ops == row + (earlier + tab + later) + markers + ends);
    let (lead, tail) = lemma_active_tab_split(nav, e, top_y, bot_y, label_y, opens_down, selected, drag, lit, x);
    let blank = op(x, y, Glyph::Char(' '), tbs);
    // Later tabs start right of the active tab and are inactive.
    lemma_later_tabs_miss(nav, entries, j, fs, fe, top_y, bot_y, label_y, opens_down, selected, drag, lit, x, y);
    // Markers and end caps avoid the active tab's open edge.
    assert(misses(markers, x, y)) by {
        lemma_markers_miss(nav, vp, baseline_y, label_y, fs, fe, x, y, e);
    }
    assert(misses(ends, x, y)) by {
        lemma_bar_end_misses(nav, fs, fe, baseline_y, entries, selected, opens_down, x, y, j);
    }
    assert(misses(tail + later + markers + ends, x, y)) by {
        lemma_misses_concat(tail, later, x, y);
        lemma_misses_concat(tail + later, markers, x, y);
        lemma_misses_concat(tail + later + markers, ends, x, y);
    }
    // Put the pieces together.
    lemma_regroup(row, earlier, lead, seq![blank], tail, later, markers, ends);
    crate::canvas::lemma_painted_last_touch(canvas_area, cells, row + earlier + lead, blank, tail + later + markers + ends);
}

/// The tabs of a horizontal strip, split around tab `j`.
proof fn lemma_h_tabs_around(
    nav: &TabNav,
    entries: Seq<TabEntry>,
    j: int,
    top_y: int,
    bot_y: int,
    label_y: int,
    opens_down: bool,
    selected: usize,
    drag: Option<TabReorderDrag>,
    lit: Option<usize>,
)
    requires
        0 <= j < entries.len(),
    ensures
        nav.h_tabs_ops(entries, top_y, bot_y, label_y, opens_down, selected, drag, lit) == nav.h_tabs_ops(
            entries.take(j),
            top_y,
            bot_y,
            label_y,
            opens_down,
            selected,
            drag,
            lit,
        ) + nav.h_tab_ops(entries[j], top_y, bot_y, label_y, opens_down, selected, drag, lit)
            + nav.h_tabs_ops(entries.skip(j + 1), top_y, bot_y, label_y, opens_down, selected, drag, lit),
{
    let e = entries[j];
    let one = seq![e];
    assert(entries =~= entries.take(j) + one + entries.skip(j + 1));
    lemma_h_tabs_concat(nav, entries.take(j) + one, entries.skip(j + 1), top_y, bot_y, label_y, opens_down, selected, drag, lit);
    lemma_h_tabs_concat(nav, entries.take(j), one, top_y, bot_y, label_y, opens_down, selected, drag, lit);
    assert(one.drop_last() =~= Seq::<TabEntry>::empty());
    assert(one.last() == e);
    let none = nav.h_tabs_ops(one.drop_last(), top_y, bot_y, label_y, opens_down, selected, drag, lit);
    assert(none =~= Seq::<DrawOp>::empty());
    let tab = nav.h_tab_ops(e, top_y, bot_y, label_y, opens_down, selected, drag, lit);
    assert(nav.h_tabs_ops(one, top_y, bot_y, label_y, opens_down, selected, drag, lit) == none + tab);
    assert(none + tab =~= tab);
}

/// The tabs after the active tab `j` of a spread horizontal strip draw nothing strictly
/// inside it.
proof fn lemma_later_tabs_miss(
    nav: &TabNav,
    entries: Seq<TabEntry>,
    j: int,
    fs: int,
    fe: int,
    top_y: int,
    bot_y: int,
    label_y: int,
    opens_down: bool,
    selected: usize,
    drag: Option<TabReorderDrag>,
    lit: Option<usize>,
    x: int,
    y: int,
)
    requires
        nav.orientation == TabOrientation::Horizontal,
        spread(entries, fs, fe),
        forall|m: int| 0 <= m < entries.len() ==> nav.entry_drawable(#[trigger] entries[m]),
        0 <= j < entries.len(),
        entries[j].index == selected,
        x < entries[j].offset + entries[j].size - 1,
    ensures
        misses(nav.h_tabs_ops(entries.skip(j + 1), top_y, bot_y, label_y, opens_down, selected, drag, lit), x, y),
{
    let after_tabs = entries.skip(j + 1);
    assert forall|i: int| 0 <= i < after_tabs.len() implies {
        &&& (#[trigger] after_tabs[i]).index != selected
        &&& x + 2 <= after_tabs[i].offset
        &&& nav.entry_drawable(after_tabs[i])
    } by {
        assert(after_tabs[i] == entries[j + 1 + i]);
        assert(entries[j].offset + entries[j].size <= entries[j + 1 + i].offset);
        assert(nav.entry_drawable(entries[j + 1 + i]));
    }
    lemma_h_tabs_miss(nav, after_tabs, top_y, bot_y, label_y, opens_down, selected, drag, lit, x, y);
}

/// Regrouping a concatenation around one piece.
proof fn lemma_regroup<A>(
    p1: Seq<A>,
    p2: Seq<A>,
    p3: Seq<A>,
    p4: Seq<A>,
    p5: Seq<A>,
    p6: Seq<A>,
    p7: Seq<A>,
    p8: Seq<A>,
)
    ensures
        p1 + (p2 + (p3 + p4 + p5) + p6) + p7 + p8 == (p1 + p2 + p3) + p4 + (p5 + p6 + p7 + p8),
{
    assert(p1 + (p2 + (p3 + p4 + p5) + p6) + p7 + p8 =~= (p1 + p2 + p3) + p4 + (p5 + p6 + p7 + p8));
}

/// The operations of the active tab of a horizontal strip, split at the blank drawn at
/// column `x` of its open edge: nothing after the blank addresses its cell.
#[verifier::rlimit(30)]
proof fn lemma_active_tab_split<'a>(
    nav: &TabNav<'a>,
    e: TabEntry,
    top_y: int,
    bot_y: int,
    label_y: int,
    opens_down: bool,
    selected: usize,
    drag: Option<TabReorderDrag>,
    lit: Option<usize>,
    x: int,
) -> (r: (Seq<DrawOp<'a>>, Seq<DrawOp<'a>>))
    requires
        e.index == selected,
        e.offset < x < e.offset + e.size - 1,
        e.offset + e.size <= u16::MAX,
        0 <= top_y < bot_y <= u16::MAX,
    ensures
        ({
            let y = if opens_down { bot_y } else { top_y };
            let dragging = drag_source(e.index, drag);
            let tbs = nav.border_style_for(nav.border_style, dragging, lit == Some(e.index));
            &&& nav.h_tab_ops(e, top_y, bot_y, label_y, opens_down, selected, drag, lit) == r.0 + seq![
                op(x, y, Glyph::Char(' '), tbs),
            ] + r.1
            &&& misses(r.1, x, y)
        }),
{
    let b = nav.border_set;
    let y = if opens_down { bot_y } else { top_y };
    let left = e.offset as int;
    let right = e.offset + e.size - 1;
    let dragging = drag_source(e.index, drag);
    let ts = nav.text_style_for(true, dragging);
    let tbs = nav.border_style_for(nav.border_style, dragging, lit == Some(e.index));
    let ind = nav.h_tab_indicator(e, label_y, ts);
    let head = nav.h_tab_top(e, top_y, opens_down, tbs) + nav.h_tab_sides(e, top_y, bot_y, tbs)
        + nav.h_tab_label(e, label_y, ts) + ind;
    let edge_first = if opens_down { Glyph::Text(b.bottom_right) } else { Glyph::Text(b.top_right) };
    let edge_last = if opens_down { Glyph::Text(b.bottom_left) } else { Glyph::Text(b.top_left) };
    let fill = row_ops(left + 1, y, right - left - 1, Glyph::Char(' '), tbs);
    let k = x - left - 1;
    let blank = op(x, y, Glyph::Char(' '), tbs);
    assert(fill[k] == blank);
    let bottom_part = if opens_down {
        Seq::<DrawOp>::empty()
    } else {
        nav.h_tab_bottom(e, bot_y, tbs)
    };
    let tail = fill.skip(k + 1) + seq![op(right, y, edge_last, tbs)] + bottom_part;
    let lead = head + seq![op(left, y, edge_first, tbs)] + fill.take(k);
    assert(fill =~= fill.take(k) + seq![blank] + fill.skip(k + 1));
    assert(nav.h_tab_ops(e, top_y, bot_y, label_y, opens_down, selected, drag, lit) =~= lead + seq![blank] + tail);
    assert(misses(fill.skip(k + 1), x, y)) by {
        let rest = fill.skip(k + 1);
        assert forall|i: int| 0 <= i < rest.len() implies !addresses(#[trigger] rest[i], x, y) by {
            assert(rest[i] == fill[k + 1 + i]);
            assert(fill[k + 1 + i] == op(left + 1 + k + 1 + i, y, Glyph::Char(' '), tbs));
        }
    }
    assert(misses(seq![op(right, y, edge_last, tbs)], x, y)) by {
        assert(seq![op(right, y, edge_last, tbs)][0].x == right);
    }
    assert(misses(bottom_part, x, y)) by {
        if !opens_down {
            let inner = row_ops(left + 1, bot_y, right - left - 1, Glyph::Text(b.horizontal_bottom), tbs);
            assert forall|i: int| 0 <= i < bottom_part.len() implies !addresses(#[trigger] bottom_part[i], x, y) by {
                if 0 < i < bottom_part.len() - 1 {
                    assert(bottom_part[i] == inner[i - 1]);
                }
            }
        }
    }
    lemma_misses_concat(fill.skip(k + 1), seq![op(right, y, edge_last, tbs)], x, y);
    lemma_misses_concat(fill.skip(k + 1) + seq![op(right, y, edge_last, tbs)], bottom_part, x, y);
    (lead, tail)
}

/// Entries lying within `fs..fe`, each ending at or before a later one starts, with
/// increasing tab indices.
pub open spec fn spread(entries: Seq<TabEntry>, fs: int, fe: int) -> bool {
    &&& forall|m: int|
        0 <= m < entries.len() ==> fs <= (#[trigger] entries[m]).offset && entries[m].offset
            + entries[m].size <= fe
    &&& forall|m: int, n: int|
        0 <= m < n < entries.len() ==> (#[trigger] entries[m]).offset + entries[m].size
            <= (#[trigger] entries[n]).offset && entries[m].index < entries[n].index
}

/// Packed entries with consecutive indices are spread.
proof fn lemma_spread(entries: Seq<TabEntry>, fs: int, fe: int)
    requires
        crate::layout::packed_within(entries, fs, fe),
        forall|m: int| 0 <= m < entries.len() - 1 ==> (#[trigger] entries[m]).index + 1 == entries[m + 1].index,
    ensures
        spread(entries, fs, fe),
{
    assert forall|m: int, n: int| 0 <= m < n < entries.len() implies (#[trigger] entries[m]).offset
        + entries[m].size <= (#[trigger] entries[n]).offset && entries[m].index < entries[n].index by {
        crate::layout::lemma_packed_ordered(entries, fs, fe, m, n);
        lemma_indices_increase(entries, m, n);
    }
}

/// Tab indices increase along the visible entries.
proof fn lemma_indices_increase(entries: Seq<TabEntry>, i: int, k: int)
    requires
        0 <= i < k < entries.len(),
        forall|m: int| 0 <= m < entries.len() - 1 ==> (#[trigger] entries[m]).index + 1 == entries[m + 1].index,
    ensures
        entries[i].index < entries[k].index,
    decreases k - i,
{
    assert(entries[k - 1].index + 1 == entries[k].index);
    if i < k - 1 {
        lemma_indices_increase(entries, i, k - 1);
    }
}

/// The overflow markers of a horizontal strip do not address a cell of the baseline
/// strictly inside a visible tab, nor any cell off the label row in a window.
proof fn lemma_markers_miss(
    nav: &TabNav,
    vp: ViewportModel,
    baseline_y: int,
    label_y: int,
    fs: int,
    fe: int,
    x: int,
    y: int,
    e: TabEntry,
)
    requires
        y != label_y,
        0 <= label_y <= u16::MAX,
        0 <= fs,
        fe <= u16::MAX,
        fs <= e.offset < x < e.offset + e.size - 1,
        e.offset + e.size <= fe,
        vp.before_affordance_at matches Some(b) ==> b == fs,
        vp.after_affordance_at matches Some(a) ==> a == fe - 1,
    ensures
        misses(nav.h_marker_ops(vp, baseline_y, label_y), x, y),
{
    let ops = nav.h_marker_ops(vp, baseline_y, label_y);
    assert forall|k: int| 0 <= k < ops.len() implies !addresses(#[trigger] ops[k], x, y) by {
        if nav.windowed() {
            assert(ops[k].y == label_y);
        } else {
            assert(ops[k].x == fs || ops[k].x == fe - 1);
        }
    }
}

/// The end caps of a horizontal baseline do not address a cell strictly inside visible
/// tab `j`.
proof fn lemma_bar_end_misses(
    nav: &TabNav,
    fs: int,
    fe: int,
    baseline_y: int,
    entries: Seq<TabEntry>,
    selected: usize,
    opens_down: bool,
    x: int,
    y: int,
    j: int,
)
    requires
        0 <= j < entries.len(),
        spread(entries, fs, fe),
        0 <= fs,
        fe < u16::MAX,
        entries[j].offset < x < entries[j].offset + entries[j].size - 1,
    ensures
        misses(nav.h_bar_end_ops(fs, fe, baseline_y, entries, selected, opens_down), x, y),
{
    let ops = nav.h_bar_end_ops(fs, fe, baseline_y, entries, selected, opens_down);
    let last = entries.last();
    assert(entries[entries.len() - 1] == last);
    if j < entries.len() - 1 {
        assert(entries[j].offset + entries[j].size <= entries[entries.len() - 1].offset);
    }
    assert(fs <= entries[j].offset);
    assert(last.offset + last.size <= fe);
    assert(group_span(entries) == Some((entries[0].offset, (last.offset + last.size) as u16)));
    assert forall|k: int| 0 <= k < ops.len() implies !addresses(#[trigger] ops[k], x, y) by {
        assert(ops[k].x == fs as u16 || ops[k].x == (fe - 1) as u16 || ops[k].x == (
        last.offset + last.size - 1) as u16);
    }
}

// ---------------------------------------------------------------------------------------
// Vertical rails
// ---------------------------------------------------------------------------------------

/// Whether every operation of `ops` addresses a row at or below `lo`.
pub open spec fn all_from_row(ops: Seq<DrawOp>, lo: int) -> bool {
    forall|k: int| 0 <= k < ops.len() ==> lo <= (#[trigger] ops[k]).y
}

proof fn lemma_from_row_concat(a: Seq<DrawOp>, b: Seq<DrawOp>, lo: int)
    requires
        all_from_row(a, lo),
        all_from_row(b, lo),
    ensures
        all_from_row(a + b, lo),
{
    assert forall|k: int| 0 <= k < (a + b).len() implies lo <= (#[trigger] (a + b)[k]).y by {
        if k < a.len() {
            assert((a + b)[k] == a[k]);
        } else {
            assert((a + b)[k] == b[k - a.len()]);
        }
    }
}

proof fn lemma_from_row_misses(ops: Seq<DrawOp>, lo: int, x: int, y: int)
    requires
        all_from_row(ops, lo),
        y < lo,
    ensures
        misses(ops, x, y),
{
    assert forall|k: int| 0 <= k < ops.len() implies !addresses(#[trigger] ops[k], x, y) by {
        assert(lo <= ops[k].y);
    }
}

proof fn lemma_op_from_row(x: int, y: int, g: Glyph, s: Style, lo: int)
    requires
        lo <= y <= u16::MAX,
        0 <= y,
    ensures
        all_from_row(seq![op(x, y, g, s)], lo),
{
    assert(seq![op(x, y, g, s)][0].y == y);
}

proof fn lemma_row_at_row(x0: int, y: int, n: int, g: Glyph, s: Style, lo: int)
    requires
        lo <= y <= u16::MAX,
        0 <= y,
    ensures
        all_from_row(row_ops(x0, y, n, g, s), lo),
{
    let ops = row_ops(x0, y, n, g, s);
    assert forall|k: int| 0 <= k < ops.len() implies lo <= (#[trigger] ops[k]).y by {
        assert(ops[k] == op(x0 + k, y, g, s));
    }
}

proof fn lemma_capped_row_at_row(
    left: int,
    right: int,
    y: int,
    first: Glyph,
    fill: Glyph,
    last: Glyph,
    s: Style,
    lo: int,
)
    requires
        lo <= y <= u16::MAX,
        0 <= y,
    ensures
        all_from_row(capped_row(left, right, y, first, fill, last, s), lo),
{
    lemma_op_from_row(left, y, first, s, lo);
    lemma_row_at_row(left + 1, y, right - left - 1, fill, s, lo);
    lemma_op_from_row(right, y, last, s, lo);
    lemma_from_row_concat(seq![op(left, y, first, s)], row_ops(left + 1, y, right - left - 1, fill, s), lo);
    lemma_from_row_concat(
        seq![op(left, y, first, s)] + row_ops(left + 1, y, right - left - 1, fill, s),
        seq![op(right, y, last, s)],
        lo,
    );
}

proof fn lemma_col_from_row(x: int, y0: int, n: int, g: Glyph, s: Style, lo: int)
    requires
        lo <= y0,
        0 <= y0,
        y0 + n <= u16::MAX + 1,
    ensures
        all_from_row(col_ops(x, y0, n, g, s), lo),
{
    let ops = col_ops(x, y0, n, g, s);
    assert forall|k: int| 0 <= k < ops.len() implies lo <= (#[trigger] ops[k]).y by {
        assert(ops[k] == op(x, y0 + k, g, s));
    }
}

proof fn lemma_vrows_from_row(
    lines: Seq<Seq<char>>,
    r: int,
    x0: int,
    y0: int,
    max_y: int,
    xmax: int,
    all_caps: bool,
    s: Style,
    lo: int,
)
    requires
        0 <= r,
        lo <= y0,
        0 <= y0,
        max_y <= u16::MAX + 1,
    ensures
        all_from_row(vrows_ops(lines, r, x0, y0, max_y, xmax, all_caps, s), lo),
    decreases lines.len() - r,
{
    if r < lines.len() && y0 + r < max_y {
        let line = vline_ops(lines[r], x0, y0 + r, xmax, all_caps, s);
        assert forall|k: int| 0 <= k < line.len() implies lo <= (#[trigger] line[k]).y by {
            assert(line[k] == op(x0 + k, y0 + r, Glyph::Char(crate::text::shown_char(lines[r][k], all_caps)), s));
        }
        lemma_vrows_from_row(lines, r + 1, x0, y0, max_y, xmax, all_caps, s, lo);
        lemma_from_row_concat(line, vrows_ops(lines, r + 1, x0, y0, max_y, xmax, all_caps, s), lo);
    }
}

/// Everything drawn for an inactive tab of a vertical rail lies at or below the row
/// before it.
#[verifier::rlimit(30)]
proof fn lemma_v_inactive_tab_from_row(
    nav: &TabNav,
    e: TabEntry,
    left_x: int,
    right_x: int,
    opens_right: bool,
    selected: usize,
    drag: Option<TabReorderDrag>,
    lit: Option<usize>,
)
    requires
        nav.orientation == TabOrientation::Vertical,
        nav.entry_drawable(e),
        e.index != selected,
    ensures
        all_from_row(nav.v_tab_ops(e, left_x, right_x, opens_right, selected, drag, lit), e.offset - 1),
{
    let b = nav.border_set;
    let pad = nav.padding_spec();
    let lo = e.offset - 1;
    let top = e.offset as int;
    let bot = e.offset + e.size - 1;
    let dragging = drag_source(e.index, drag);
    let ts = nav.text_style_for(false, dragging);
    let tbs = nav.border_style_for(nav.border_style, dragging, lit == Some(e.index));
    let p1 = nav.v_tab_top(e, left_x, right_x, tbs);
    let p2 = nav.v_tab_side(e, left_x, right_x, opens_right, tbs);
    let p3 = nav.v_tab_label(e, left_x, right_x, ts);
    let p4 = nav.v_tab_bottom(e, left_x, right_x, tbs);
    let p6 = nav.v_tab_edge(e, left_x, right_x, opens_right, false, tbs);
    lemma_capped_row_at_row(left_x, right_x, top, Glyph::Text(b.top_left), Glyph::Text(b.horizontal_top), Glyph::Text(b.top_right), tbs, lo);
    if opens_right {
        lemma_col_from_row(left_x, top + 1, e.size - 2, Glyph::Text(b.vertical_left), tbs, lo);
    } else {
        lemma_col_from_row(right_x, top + 1, e.size - 2, Glyph::Text(b.vertical_right), tbs, lo);
    }
    lemma_vrows_from_row(
        text_lines(nav.label(e.index as int)),
        0,
        left_x + 1 + pad.left,
        top + 1 + pad.top,
        top + nav.auto_height(e.index as int) - 1,
        sat_sub(right_x, 1 + pad.right),
        nav.all_caps,
        ts,
        lo,
    );
    lemma_capped_row_at_row(left_x, right_x, bot, Glyph::Text(b.bottom_left), Glyph::Text(b.horizontal_bottom), Glyph::Text(b.bottom_right), tbs, lo);
    let x = if opens_right { right_x } else { left_x };
    let c = if opens_right { '┤' } else { '├' };
    lemma_op_from_row(x, top, Glyph::Char(c), tbs, lo);
    lemma_op_from_row(x, bot, Glyph::Char(c), tbs, lo);
    lemma_from_row_concat(seq![op(x, top, Glyph::Char(c), tbs)], seq![op(x, bot, Glyph::Char(c), tbs)], lo);
    assert(p6 =~= seq![op(x, top, Glyph::Char(c), tbs)] + seq![op(x, bot, Glyph::Char(c), tbs)]);
    assert(all_from_row(Seq::<DrawOp>::empty(), lo));
    lemma_from_row_concat(p1, p2, lo);
    lemma_from_row_concat(p1 + p2, p3, lo);
    lemma_from_row_concat(p1 + p2 + p3, p4, lo);
    lemma_from_row_concat(p1 + p2 + p3 + p4, Seq::<DrawOp>::empty(), lo);
    lemma_from_row_concat(p1 + p2 + p3 + p4 + Seq::<DrawOp>::empty(), p6, lo);
}

/// The tabs of a vertical rail drawn one after another are drawn as their pieces joined
/// in order.
proof fn lemma_v_tabs_concat(
    nav: &TabNav,
    a: Seq<TabEntry>,
    b: Seq<TabEntry>,
    left_x: int,
    right_x: int,
    opens_right: bool,
    selected: usize,
    drag: Option<TabReorderDrag>,
    lit: Option<usize>,
)
    ensures
        nav.v_tabs_ops(a + b, left_x, right_x, opens_right, selected, drag, lit) == nav.v_tabs_ops(
            a,
            left_x,
            right_x,
            opens_right,
            selected,
            drag,
            lit,
        ) + nav.v_tabs_ops(b, left_x, right_x, opens_right, selected, drag, lit),
    decreases b.len(),
{
    if b.len() == 0 {
        assert(a + b =~= a);
        assert(nav.v_tabs_ops(b, left_x, right_x, opens_right, selected, drag, lit) =~= Seq::<DrawOp>::empty());
        assert(nav.v_tabs_ops(a, left_x, right_x, opens_right, selected, drag, lit) + Seq::<DrawOp>::empty()
            =~= nav.v_tabs_ops(a, left_x, right_x, opens_right, selected, drag, lit));
    } else {
        assert((a + b).drop_last() =~= a + b.drop_last());
        assert((a + b).last() == b.last());
        lemma_v_tabs_concat(nav, a, b.drop_last(), left_x, right_x, opens_right, selected, drag, lit);
        let va = nav.v_tabs_ops(a, left_x, right_x, opens_right, selected, drag, lit);
        let vb = nav.v_tabs_ops(b.drop_last(), left_x, right_x, opens_right, selected, drag, lit);
        let t = nav.v_tab_ops(b.last(), left_x, right_x, opens_right, selected, drag, lit);
        assert(va + vb + t =~= va + (vb + t));
    }
}

/// The tabs of a vertical rail, split around tab `j`.
proof fn lemma_v_tabs_around(
    nav: &TabNav,
    entries: Seq<TabEntry>,
    j: int,
    left_x: int,
    right_x: int,
    opens_right: bool,
    selected: usize,
    drag: Option<TabReorderDrag>,
    lit: Option<usize>,
)
    requires
        0 <= j < entries.len(),
    ensures
        nav.v_tabs_ops(entries, left_x, right_x, opens_right, selected, drag, lit) == nav.v_tabs_ops(
            entries.take(j),
            left_x,
            right_x,
            opens_right,
            selected,
            drag,
            lit,
        ) + nav.v_tab_ops(entries[j], left_x, right_x, opens_right, selected, drag, lit)
            + nav.v_tabs_ops(entries.skip(j + 1), left_x, right_x, opens_right, selected, drag, lit),
{
    let e = entries[j];
    let one = seq![e];
    assert(entries =~= entries.take(j) + one + entries.skip(j + 1));
    lemma_v_tabs_concat(nav, entries.take(j) + one, entries.skip(j + 1), left_x, right_x, opens_right, selected, drag, lit);
    lemma_v_tabs_concat(nav, entries.take(j), one, left_x, right_x, opens_right, selected, drag, lit);
    assert(one.drop_last() =~= Seq::<TabEntry>::empty());
    assert(one.last() == e);
    let none = nav.v_tabs_ops(one.drop_last(), left_x, right_x, opens_right, selected, drag, lit);
    assert(none =~= Seq::<DrawOp>::empty());
    let tab = nav.v_tab_ops(e, left_x, right_x, opens_right, selected, drag, lit);
    assert(nav.v_tabs_ops(one, left_x, right_x, opens_right, selected, drag, lit) == none + tab);
    assert(none + tab =~= tab);
}

/// Tabs of a vertical rail that are all inactive and start below row `y + 1` draw nothing
/// on row `y`.
proof fn lemma_v_tabs_miss(
    nav: &TabNav,
    es: Seq<TabEntry>,
    left_x: int,
    right_x: int,
    opens_right: bool,
    selected: usize,
    drag: Option<TabReorderDrag>,
    lit: Option<usize>,
    x: int,
    y: int,
)
    requires
        nav.orientation == TabOrientation::Vertical,
        forall|k: int|
            0 <= k < es.len() ==> {
                &&& (#[trigger] es[k]).index != selected
                &&& y + 2 <= es[k].offset
                &&& nav.entry_drawable(es[k])
            },
    ensures
        misses(nav.v_tabs_ops(es, left_x, right_x, opens_right, selected, drag, lit), x, y),
    decreases es.len(),
{
    if es.len() > 0 {
        let rest = es.drop_last();
        assert forall|k: int| 0 <= k < rest.len() implies {
            &&& (#[trigger] rest[k]).index != selected
            &&& y + 2 <= rest[k].offset
            &&& nav.entry_drawable(rest[k])
        } by {
            assert(rest[k] == es[k]);
        }
        lemma_v_tabs_miss(nav, rest, left_x, right_x, opens_right, selected, drag, lit, x, y);
        let e = es.last();
        assert(e == es[es.len() - 1]);
        lemma_v_inactive_tab_from_row(nav, e, left_x, right_x, opens_right, selected, drag, lit);
        lemma_from_row_misses(nav.v_tab_ops(e, left_x, right_x, opens_right, selected, drag, lit), e.offset - 1, x, y);
        lemma_misses_concat(
            nav.v_tabs_ops(rest, left_x, right_x, opens_right, selected, drag, lit),
            nav.v_tab_ops(e, left_x, right_x, opens_right, selected, drag, lit),
            x,
            y,
        );
    }
}

/// The tabs after the active tab `j` of a spread vertical rail draw nothing strictly
/// inside it.
proof fn lemma_later_v_tabs_miss(
    nav: &TabNav,
    entries: Seq<TabEntry>,
    j: int,
    fs: int,
    fe: int,
    left_x: int,
    right_x: int,
    opens_right: bool,
    selected: usize,
    drag: Option<TabReorderDrag>,
    lit: Option<usize>,
    x: int,
    y: int,
)
    requires
        nav.orientation == TabOrientation::Vertical,
        spread(entries, fs, fe),
        forall|m: int| 0 <= m < entries.len() ==> nav.entry_drawable(#[trigger] entries[m]),
        0 <= j < entries.len(),
        entries[j].index == selected,
        y < entries[j].offset + entries[j].size - 1,
    ensures
        misses(nav.v_tabs_ops(entries.skip(j + 1), left_x, right_x, opens_right, selected, drag, lit), x, y),
{
    let after_tabs = entries.skip(j + 1);
    assert forall|i: int| 0 <= i < after_tabs.len() implies {
        &&& (#[trigger] after_tabs[i]).index != selected
        &&& y + 2 <= after_tabs[i].offset
        &&& nav.entry_drawable(after_tabs[i])
    } by {
        assert(after_tabs[i] == entries[j + 1 + i]);
        assert(entries[j].offset + entries[j].size <= entries[j + 1 + i].offset);
        assert(nav.entry_drawable(entries[j + 1 + i]));
    }
    lemma_v_tabs_miss(nav, after_tabs, left_x, right_x, opens_right, selected, drag, lit, x, y);
}

/// The operations of the active tab of a vertical rail, split at the blank drawn at row
/// `y` of its open edge: nothing after the blank addresses its cell.
#[verifier::rlimit(30)]
proof fn lemma_v_active_tab_split<'a>(
    nav: &TabNav<'a>,
    e: TabEntry,
    left_x: int,
    right_x: int,
    opens_right: bool,
    selected: usize,
    drag: Option<TabReorderDrag>,
    lit: Option<usize>,
    y: int,
) -> (r: (Seq<DrawOp<'a>>, Seq<DrawOp<'a>>))
    requires
        e.index == selected,
        e.offset < y < e.offset + e.size - 1,
        e.offset + e.size <= u16::MAX,
        0 <= left_x <= right_x <= u16::MAX,
    ensures
        ({
            let x = if opens_right { right_x } else { left_x };
            let dragging = drag_source(e.index, drag);
            let tbs = nav.border_style_for(nav.border_style, dragging, lit == Some(e.index));
            &&& nav.v_tab_ops(e, left_x, right_x, opens_right, selected, drag, lit) == r.0 + seq![
                op(x, y, Glyph::Char(' '), tbs),
            ] + r.1
            &&& misses(r.1, x, y)
        }),
{
    let b = nav.border_set;
    let x = if opens_right { right_x } else { left_x };
    let top = e.offset as int;
    let bot = e.offset + e.size - 1;
    let dragging = drag_source(e.index, drag);
    let ts = nav.text_style_for(true, dragging);
    let tbs = nav.border_style_for(nav.border_style, dragging, lit == Some(e.index));
    let head = nav.v_tab_top(e, left_x, right_x, tbs) + nav.v_tab_side(e, left_x, right_x, opens_right, tbs)
        + nav.v_tab_label(e, left_x, right_x, ts) + nav.v_tab_bottom(e, left_x, right_x, tbs)
        + nav.v_tab_indicator(e, left_x, ts);
    let edge_first = if opens_right { Glyph::Text(b.bottom_right) } else { Glyph::Text(b.bottom_left) };
    let edge_last = if opens_right { Glyph::Text(b.top_right) } else { Glyph::Text(b.top_left) };
    let fill = col_ops(x, top + 1, bot - top - 1, Glyph::Char(' '), tbs);
    let k = y - top - 1;
    let blank = op(x, y, Glyph::Char(' '), tbs);
    assert(fill[k] == blank);
    let tail = fill.skip(k + 1) + seq![op(x, bot, edge_last, tbs)];
    let lead = head + seq![op(x, top, edge_first, tbs)] + fill.take(k);
    assert(fill =~= fill.take(k) + seq![blank] + fill.skip(k + 1));
    assert(nav.v_tab_ops(e, left_x, right_x, opens_right, selected, drag, lit) =~= lead + seq![blank] + tail);
    assert(misses(fill.skip(k + 1), x, y)) by {
        let rest = fill.skip(k + 1);
        assert forall|i: int| 0 <= i < rest.len() implies !addresses(#[trigger] rest[i], x, y) by {
            assert(rest[i] == fill[k + 1 + i]);
            assert(fill[k + 1 + i] == op(x, top + 1 + k + 1 + i, Glyph::Char(' '), tbs));
        }
    }
    assert(misses(seq![op(x, bot, edge_last, tbs)], x, y)) by {
        assert(seq![op(x, bot, edge_last, tbs)][0].y == bot);
    }
    lemma_misses_concat(fill.skip(k + 1), seq![op(x, bot, edge_last, tbs)], x, y);
    (lead, tail)
}

/// The overflow markers of a vertical rail do not address a row strictly inside a visible
/// tab.
proof fn lemma_v_markers_miss(
    nav: &TabNav,
    vp: ViewportModel,
    baseline_x: int,
    fs: int,
    fe: int,
    x: int,
    y: int,
    e: TabEntry,
)
    requires
        0 <= fs,
        fe <= u16::MAX,
        fs <= e.offset < y < e.offset + e.size - 1,
        e.offset + e.size <= fe,
        vp.before_affordance_at matches Some(b) ==> b == fs,
        vp.after_affordance_at matches Some(a) ==> a == fe - 1,
    ensures
        misses(nav.v_marker_ops(vp, baseline_x), x, y),
{
    let ops = nav.v_marker_ops(vp, baseline_x);
    assert forall|k: int| 0 <= k < ops.len() implies !addresses(#[trigger] ops[k], x, y) by {
        assert(ops[k].y == fs || ops[k].y == fe - 1);
    }
}

/// The end caps of a vertical rail do not address a row strictly inside visible tab `j`.
proof fn lemma_v_bar_end_misses(
    nav: &TabNav,
    fs: int,
    fe: int,
    baseline_x: int,
    entries: Seq<TabEntry>,
    selected: usize,
    opens_right: bool,
    x: int,
    y: int,
    j: int,
)
    requires
        0 <= j < entries.len(),
        spread(entries, fs, fe),
        0 <= fs,
        fe < u16::MAX,
        entries[j].offset < y < entries[j].offset + entries[j].size - 1,
    ensures
        misses(nav.v_bar_end_ops(fs, fe, baseline_x, entries, selected, opens_right), x, y),
{
    let ops = nav.v_bar_end_ops(fs, fe, baseline_x, entries, selected, opens_right);
    let last = entries.last();
    assert(entries[entries.len() - 1] == last);
    if j < entries.len() - 1 {
        assert(entries[j].offset + entries[j].size <= entries[entries.len() - 1].offset);
    }
    if j > 0 {
        assert(entries[0].offset + entries[0].size <= entries[j].offset);
    }
    assert(fs <= entries[j].offset);
    assert(last.offset + last.size <= fe);
    assert(group_span(entries) == Some((entries[0].offset, (last.offset + last.size) as u16)));
    assert forall|k: int| 0 <= k < ops.len() implies !addresses(#[trigger] ops[k], x, y) by {
        assert(ops[k].y == fs || ops[k].y == fe - 1 || ops[k].y == entries[0].offset || ops[k].y == (
        last.offset + last.size - 1));
    }
}


/// The core of the opening law for rails, over any viewport whose tabs are spread within
/// the flow span and whose markers sit at its ends.
#[verifier::rlimit(30)]
proof fn lemma_rail_open_edge_blank(
    nav: &TabNav,
    vp: ViewportModel,
    fs: int,
    fe: int,
    left_x: int,
    right_x: int,
    opens_right: bool,
    selected: usize,
    drag: Option<TabReorderDrag>,
    lit: Option<usize>,
    canvas_area: Rect,
    cells: Seq<CellModel>,
    j: int,
    y: int,
)
    requires
        nav.orientation == TabOrientation::Vertical,
        spread(vp.entries, fs, fe),
        0 <= fs,
        fe < u16::MAX,
        forall|m: int| 0 <= m < vp.entries.len() ==> nav.entry_drawable(#[trigger] vp.entries[m]),
        vp.before_affordance_at matches Some(b) ==> b == fs,
        vp.after_affordance_at matches Some(a) ==> a == fe - 1,
        0 <= left_x <= right_x <= u16::MAX,
        0 <= j < vp.entries.len(),
        vp.entries[j].index == selected,
        vp.entries[j].offset < y < vp.entries[j].offset + vp.entries[j].size - 1,
        in_area(canvas_area, if opens_right { right_x } else { left_x }, y),
        cells.len() == canvas_area.width * canvas_area.height,
    ensures
        painted(
            canvas_area,
            cells,
            v_strip_ops(nav, vp, fs, fe, left_x, right_x, opens_right, selected, drag, lit),
        )[cell_index(canvas_area, if opens_right { right_x } else { left_x }, y)].symbol == seq![' '],
{
    let entries = vp.entries;
    let e = entries[j];
    assert(nav.entry_drawable(e));
    let b = nav.border_set;
    let bs = nav.border_style;
    let x = if opens_right { right_x } else { left_x };
    let dragging = drag_source(e.index, drag);
    let tbs = nav.border_style_for(bs, dragging, lit == Some(e.index));
    let tab = nav.v_tab_ops(e, left_x, right_x, opens_right, selected, drag, lit);
    let rail = col_ops(x, fs, fe - fs, Glyph::Text(b.vertical_left), bs);
    let earlier = nav.v_tabs_ops(entries.take(j), left_x, right_x, opens_right, selected, drag, lit);
    let later = nav.v_tabs_ops(entries.skip(j + 1), left_x, right_x, opens_right, selected, drag, lit);
    let markers = nav.v_marker_ops(vp, x);
    let ends = nav.v_bar_end_ops(fs, fe, x, entries, selected, opens_right);
    let ops = v_strip_ops(nav, vp, fs, fe, left_x, right_x, opens_right, selected, drag, lit);
    lemma_v_tabs_around(nav, entries, j, left_x, right_x, opens_right, selected, drag, lit);
    assert(ops == rail + (earlier + tab + later) + markers + ends);
    let (lead, tail) = lemma_v_active_tab_split(nav, e, left_x, right_x, opens_right, selected, drag, lit, y);
    let blank = op(x, y, Glyph::Char(' '), tbs);
    lemma_later_v_tabs_miss(nav, entries, j, fs, fe, left_x, right_x, opens_right, selected, drag, lit, x, y);
    assert(misses(markers, x, y)) by {
        lemma_v_markers_miss(nav, vp, x, fs, fe, x, y, e);
    }
    assert(misses(ends, x, y)) by {
        lemma_v_bar_end_misses(nav, fs, fe, x, entries, selected, opens_right, x, y, j);
    }
    assert(misses(tail + later + markers + ends, x, y)) by {
        lemma_misses_concat(tail, later, x, y);
        lemma_misses_concat(tail + later, markers, x, y);
        lemma_misses_concat(tail + later + markers, ends, x, y);
    }
    lemma_regroup(rail, earlier, lead, seq![blank], tail, later, markers, ends);
    crate::canvas::lemma_painted_last_touch(canvas_area, cells, rail + earlier + lead, blank, tail + later + markers + ends);
}

impl<'a> TabNav<'a> {
    /// The column of a vertical rail's edge that faces the content: the right column of a
    /// left rail, the left column of a right rail.
    pub open spec fn open_edge_x(&self, area: Rect) -> int {
        let left_x = self.rail_origin_x(area);
        if self.vertical_position.position == VerticalPosition::Left {
            left_x + self.rail_in(area) - 1
        } else {
            left_x
        }
    }
}

/// On a vertical rail the active tab opens into the content: once the rail is painted,
/// every cell between the corners of the active tab's edge that faces the content (its
/// right column on a left rail, its left column on a right rail) holds a blank, whatever
/// the canvas held before. (Stated where the flow span ends before the last coordinate
/// `u16::MAX`.)
#[verifier::rlimit(30)]
pub proof fn law_active_rail_tab_opens_toward_content(
    nav: &TabNav,
    area: Rect,
    scroll_offset: usize,
    selected: usize,
    drag: Option<TabReorderDrag>,
    lit: Option<usize>,
    canvas_area: Rect,
    cells: Seq<CellModel>,
    j: int,
    y: int,
)
    requires
        nav.render_ok(area, scroll_offset),
        nav.orientation == TabOrientation::Vertical,
        nav.flow_bounds_spec(area) matches Some((fs, fe)) && fe < u16::MAX,
        0 <= j < nav.viewport_model(area, scroll_offset).entries.len(),
        nav.viewport_model(area, scroll_offset).entries[j].index == selected,
        nav.viewport_model(area, scroll_offset).entries[j].offset < y < nav.viewport_model(
            area,
            scroll_offset,
        ).entries[j].offset + nav.viewport_model(area, scroll_offset).entries[j].size - 1,
        in_area(canvas_area, nav.open_edge_x(area), y),
        cells.len() == canvas_area.width * canvas_area.height,
    ensures
        painted(
            canvas_area,
            cells,
            nav.render_ops_spec(area, selected, scroll_offset, drag, lit),
        )[cell_index(canvas_area, nav.open_edge_x(area), y)].symbol == seq![' '],
{
    let (fs, fe) = nav.flow_bounds_spec(area)->0;
    let vp = nav.viewport_model(area, scroll_offset);
    crate::layout::law_viewport_tabs_packed_within_strip(nav, area, scroll_offset);
    let left_x = nav.rail_origin_x(area);
    let rail = nav.rail_in(area);
    let right_x = left_x + rail - 1;
    let opens_right = nav.vertical_position.position == VerticalPosition::Left;
    assert(rail >= 2);
    assert(left_x + rail <= area.x + area.width);
    assert(forall|m: int| 0 <= m < vp.entries.len() ==> nav.entry_drawable(#[trigger] vp.entries[m]));
    lemma_spread(vp.entries, fs as int, fe as int);
    assert(vp.before_affordance_at matches Some(b) ==> b == fs);
    assert(vp.after_affordance_at matches Some(a) ==> a == fe - 1);
    lemma_rail_open_edge_blank(
        nav,
        vp,
        fs as int,
        fe as int,
        left_x,
        right_x,
        opens_right,
        selected,
        drag,
        lit,
        canvas_area,
        cells,
        j,
        y,
    );
}

} // verus!