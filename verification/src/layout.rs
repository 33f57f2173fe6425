//! Tab sizing and viewport computation: which tabs are visible in an area, where they
//! stand, and whether tabs are clipped at either edge.

use vstd::prelude::*;

use crate::config::{
    HorizontalPosition, OverflowPolicy, TabBarAlign, TabBarEnd, TabMargin, TabOrientation,
    TabPadding, VerticalPosition,
};
use crate::geometry::{Rect, sat_add, sat_sub};
use crate::nav::{TAB_BORDER, TabNav};
use crate::text::{
    label_cols, label_line_count, label_rows, label_width_checked, lemma_widest_line_nonneg,
    lines_fit, text_lines,
};

verus! {

/// One visible tab: its index, its start along the flow axis, and its size along it.
#[derive(Clone, Copy, Debug, PartialEq, Eq, Structural)]
pub struct TabEntry {
    pub index: usize,
    pub offset: u16,
    pub size: u16,
}

/// The visible tabs in an area, and which edges clip hidden tabs.
#[derive(Clone, Debug)]
pub struct TabViewport {
    pub entries: Vec<TabEntry>,
    pub clipped_before: bool,
    pub clipped_after: bool,
    /// Flow-axis cell of the leading overflow marker, if one is drawn.
    pub before_affordance_at: Option<u16>,
    /// Flow-axis cell of the trailing overflow marker, if one is drawn.
    pub after_affordance_at: Option<u16>,
}

/// The contents of a [`TabViewport`] as mathematical values.
pub struct ViewportModel {
    pub entries: Seq<TabEntry>,
    pub clipped_before: bool,
    pub clipped_after: bool,
    pub before_affordance_at: Option<u16>,
    pub after_affordance_at: Option<u16>,
}

impl View for TabViewport {
    type V = ViewportModel;

    open spec fn view(&self) -> ViewportModel {
        ViewportModel {
            entries: self.entries@,
            clipped_before: self.clipped_before,
            clipped_after: self.clipped_after,
            before_affordance_at: self.before_affordance_at,
            after_affordance_at: self.after_affordance_at,
        }
    }
}

/// The primary-axis span of `entries`: from the first entry's start to the last entry's
/// end (saturated), or `None` when there are none.
pub open spec fn group_span(entries: Seq<TabEntry>) -> Option<(u16, u16)> {
    if entries.len() == 0 {
        None
    } else {
        Some(
            (
                entries[0].offset,
                sat_add(entries.last().offset as int, entries.last().size as int) as u16,
            ),
        )
    }
}

impl TabViewport {
    /// Primary-axis span of visible tabs: `(group_start, group_end)`, end exclusive.
    pub fn group_bounds(&self) -> (r: Option<(u16, u16)>)
        ensures
            r == group_span(self.entries@),
    {
        if self.entries.len() == 0 {
            return None;
        }
        let first = self.entries[0];
        let last = self.entries[self.entries.len() - 1];
        Some((first.offset, last.offset.saturating_add(last.size)))
    }
}

/// Horizontal default padding: `0 0 3 3`.
pub open spec fn horizontal_default_padding() -> TabPadding {
    TabPadding { top: 0, bottom: 0, left: 3, right: 3 }
}

/// Vertical default padding: `1 1 1 1`.
pub open spec fn vertical_default_padding() -> TabPadding {
    TabPadding { top: 1, bottom: 1, left: 1, right: 1 }
}

/// Default tab width for a label: borders, side padding and the label's display width.
pub open spec fn auto_width_of(label: Seq<char>, pad: TabPadding, all_caps: bool) -> int {
    2 * TAB_BORDER + pad.left + label_cols(label, all_caps) + pad.right
}

/// Default tab height for a label: borders, top/bottom padding and the label's line count.
pub open spec fn auto_height_of(label: Seq<char>, pad: TabPadding) -> int {
    2 * TAB_BORDER + pad.top + label_rows(label) + pad.bottom
}

/// Whether a label's default width is computable in `u16`.
pub open spec fn auto_width_fits(label: Seq<char>, pad: TabPadding, all_caps: bool) -> bool {
    lines_fit(label, all_caps) && auto_width_of(label, pad, all_caps) <= u16::MAX
}

/// How far [`align_shift`] moves a group of tabs spanning `group_start..group_end` within
/// `align_start..align_end`: nothing when the group fills the span or is start aligned,
/// half the slack when centred, all of it when end aligned.
pub open spec fn align_shift_spec(
    align: TabBarAlign,
    align_start: int,
    align_end: int,
    group_start: int,
    group_end: int,
) -> int {
    let align_span = sat_sub(align_end, align_start);
    let group_span = sat_sub(group_end, group_start);
    if group_span >= align_span {
        0
    } else {
        match align {
            TabBarAlign::Start => 0,
            TabBarAlign::Center => sat_sub(
                sat_add(align_start, (align_span - group_span) / 2),
                group_start,
            ),
            TabBarAlign::End => sat_sub(align_end, group_end),
        }
    }
}

/// Entries with their offsets moved on by `shift` (saturated).
pub open spec fn shifted(entries: Seq<TabEntry>, shift: int) -> Seq<TabEntry> {
    entries.map_values(
        |e: TabEntry| TabEntry { offset: sat_add(e.offset as int, shift) as u16, ..e },
    )
}

impl<'a> TabNav<'a> {
    /// The strip margin in use: the configured one, or none.
    pub open spec fn margin_spec(&self) -> TabMargin {
        match self.margin {
            Some(m) => m,
            None => TabMargin { start: 0, end: 0 },
        }
    }

    /// The tab padding in use: the configured one, or the orientation's default.
    pub open spec fn padding_spec(&self) -> TabPadding {
        match self.padding {
            Some(p) => p,
            None => match self.orientation {
                TabOrientation::Horizontal => horizontal_default_padding(),
                TabOrientation::Vertical => vertical_default_padding(),
            },
        }
    }

    /// The baseline end-cap style in use.
    pub open spec fn bar_end_spec(&self) -> TabBarEnd {
        match self.tab_bar_end {
            Some(e) => e,
            None => TabBarEnd::NoEnd,
        }
    }

    /// The text of label `i`.
    pub open spec fn label(&self, i: int) -> Seq<char> {
        self.tabs@[i]@
    }

    /// Default width of tab `i`.
    pub open spec fn auto_width(&self, i: int) -> int {
        auto_width_of(self.label(i), self.padding_spec(), self.all_caps)
    }

    /// Default height of tab `i`.
    pub open spec fn auto_height(&self, i: int) -> int {
        auto_height_of(self.label(i), self.padding_spec())
    }

    /// Whether the default width of tab `i` is computable in `u16`.
    pub open spec fn width_ok(&self, i: int) -> bool {
        auto_width_fits(self.label(i), self.padding_spec(), self.all_caps)
    }

    /// Whether the default height of tab `i` is computable in `u16`.
    pub open spec fn height_ok(&self, i: int) -> bool {
        self.auto_height(i) <= u16::MAX
    }

    /// Whether tab `i` has an explicit size.
    pub open spec fn overridden(&self, i: int) -> bool {
        match self.tab_sizes {
            Some(s) => 0 <= i < s@.len(),
            None => false,
        }
    }

    /// The size of tab `i` along the flow axis: its explicit size, or its default width
    /// (horizontal) or height (vertical).
    pub open spec fn primary_size(&self, i: int) -> int {
        match self.tab_sizes {
            Some(s) if 0 <= i < s@.len() => s@[i] as int,
            _ => match self.orientation {
                TabOrientation::Horizontal => self.auto_width(i),
                TabOrientation::Vertical => self.auto_height(i),
            },
        }
    }

    /// Height of a horizontal strip: borders, top/bottom padding and one label row.
    pub open spec fn strip_height_spec(&self) -> int {
        2 * TAB_BORDER + self.padding_spec().top + 1 + self.padding_spec().bottom
    }

    /// The widest default width among the first `n` tabs, and at least the width of an
    /// empty label.
    pub open spec fn rail_upto(&self, n: int) -> int
        decreases n,
    {
        if n <= 0 {
            2 * TAB_BORDER + self.padding_spec().left + self.padding_spec().right
        } else {
            let rest = self.rail_upto(n - 1);
            let w = self.auto_width(n - 1);
            if rest >= w {
                rest
            } else {
                w
            }
        }
    }

    /// Width of a vertical rail: the widest default tab width.
    pub open spec fn rail_width_spec(&self) -> int {
        self.rail_upto(self.tabs@.len() as int)
    }

    /// Whether every tab's default width is computable in `u16`.
    pub open spec fn all_widths_ok(&self) -> bool {
        &&& 2 * TAB_BORDER + self.padding_spec().left + self.padding_spec().right <= u16::MAX
        &&& forall|i: int| 0 <= i < self.tabs@.len() ==> #[trigger] self.width_ok(i)
    }

    /// Whether every size the layout reads is computable in `u16`: the strip height, the
    /// margins, and, for each tab, its flow-axis size (and in vertical mode every default
    /// width, for the rail).
    pub open spec fn sizes_ok(&self) -> bool {
        &&& self.margin_spec().start + self.margin_spec().end <= u16::MAX
        &&& match self.orientation {
            TabOrientation::Horizontal => {
                &&& self.strip_height_spec() <= u16::MAX
                &&& forall|i: int|
                    0 <= i < self.tabs@.len() ==> #[trigger] self.overridden(i) || self.width_ok(
                        i,
                    )
            },
            TabOrientation::Vertical => {
                &&& self.all_widths_ok()
                &&& forall|i: int|
                    0 <= i < self.tabs@.len() ==> #[trigger] self.overridden(i) || self.height_ok(
                        i,
                    )
            },
        }
    }

    /// The cap on visible tabs for the current orientation.
    pub open spec fn visible_cap(&self) -> Option<usize> {
        match self.orientation {
            TabOrientation::Horizontal => self.horizontal_position.max_visible,
            TabOrientation::Vertical => self.vertical_position.max_visible,
        }
    }

    /// Whether tabs show through a sliding window: scroll overflow, or a visible-tab cap.
    pub open spec fn windowed(&self) -> bool {
        self.overflow == OverflowPolicy::Scroll || self.visible_cap() is Some
    }

    /// How many tabs the window may show.
    pub open spec fn budget(&self) -> int {
        match self.visible_cap() {
            Some(c) => c as int,
            None => self.tabs@.len() as int + 1,
        }
    }

    /// Whether `area` is large enough for the strip (horizontal) or rail (vertical): as
    /// tall as the strip and wider than its margins, or a rail wide enough for the tab
    /// borders and padding and taller than its margins.
    pub open spec fn strip_fits(&self, area: Rect) -> bool {
        let m = self.margin_spec();
        let pad = self.padding_spec();
        match self.orientation {
            TabOrientation::Horizontal => !(area.height < self.strip_height_spec() || area.width
                <= m.start + m.end),
            TabOrientation::Vertical => !(self.rail_in(area) < 2 * TAB_BORDER + pad.left + pad.right
                || area.height <= m.start + m.end),
        }
    }

    /// The flow-axis span available to tabs in `area`, or `None` when nothing is drawn:
    /// no tabs, or the area too small for the strip (horizontal) or rail (vertical).
    pub open spec fn flow_bounds_spec(&self, area: Rect) -> Option<(u16, u16)> {
        let m = self.margin_spec();
        let pad = self.padding_spec();
        if self.tabs@.len() == 0 {
            None
        } else {
            match self.orientation {
                TabOrientation::Horizontal => if area.height < self.strip_height_spec()
                    || area.width <= m.start + m.end {
                    None
                } else {
                    Some(((area.x + m.start) as u16, (area.right_spec() - m.end) as u16))
                },
                TabOrientation::Vertical => {
                    let rail = if self.rail_width_spec() <= area.width {
                        self.rail_width_spec()
                    } else {
                        area.width as int
                    };
                    if rail < 2 * TAB_BORDER + pad.left + pad.right || area.height <= m.start
                        + m.end {
                        None
                    } else {
                        Some(((area.y + m.start) as u16, (area.bottom_spec() - m.end) as u16))
                    }
                },
            }
        }
    }

    /// Whether a tab of `size` may start at `pos` when packing toward `end`; when more tabs
    /// follow in a window with affordances, one cell is kept free for the marker.
    pub open spec fn fits_at(&self, pos: int, size: int, end: int, has_more: bool) -> bool {
        &&& sat_add(pos, size) <= end
        &&& (self.windowed() && has_more && self.overflow_affordance) ==> sat_add(
            sat_add(pos, size),
            1,
        ) <= end
    }

    /// Tabs packed forward from tab `index` at `pos`, while they fit before `end` and at
    /// most `budget` of them.
    pub open spec fn forward_entries(&self, index: int, pos: int, end: int, budget: int) -> Seq<
        TabEntry,
    >
        decreases self.tabs@.len() - index,
    {
        if index < 0 || index >= self.tabs@.len() || budget <= 0 {
            Seq::empty()
        } else {
            let size = self.primary_size(index);
            if !self.fits_at(pos, size, end, index + 1 < self.tabs@.len()) {
                Seq::empty()
            } else {
                seq![TabEntry { index: index as usize, offset: pos as u16, size: size as u16 }]
                    + self.forward_entries(index + 1, sat_add(pos, size), end, budget - 1)
            }
        }
    }

    /// Tabs packed backward from the tab before `index`, ending at `pos`, while they start
    /// at or after `start`; in increasing order.
    pub open spec fn backward_entries(&self, index: int, pos: int, start: int) -> Seq<TabEntry>
        decreases index,
    {
        if index <= 0 {
            Seq::empty()
        } else {
            let size = self.primary_size(index - 1);
            if size > pos || pos - size < start {
                Seq::empty()
            } else {
                self.backward_entries(index - 1, pos - size, start).push(
                    TabEntry { index: (index - 1) as usize, offset: (pos - size) as u16, size: size as u16 },
                )
            }
        }
    }

    /// The first tab index of the window for `scroll_offset`.
    pub open spec fn first_index(&self, scroll_offset: usize) -> int {
        if self.windowed() {
            if scroll_offset < self.tabs@.len() - 1 {
                scroll_offset as int
            } else {
                sat_sub(self.tabs@.len() as int, 1)
            }
        } else {
            0
        }
    }

    /// Where the first tab of the window starts: on a vertical rail, after the leading
    /// marker cell when tabs are hidden before it and affordances are on; otherwise at the
    /// start of the flow span (a horizontal strip marks hidden tabs inside its edge tabs).
    pub open spec fn content_start(&self, flow_start: int, scroll_offset: usize) -> int {
        if self.windowed() && self.first_index(scroll_offset) > 0 && self.overflow_affordance
            && self.orientation == TabOrientation::Vertical {
            sat_add(flow_start, 1)
        } else {
            flow_start
        }
    }

    /// The visible tabs and clipped edges for `area` and `scroll_offset`.
    pub open spec fn viewport_model(&self, area: Rect, scroll_offset: usize) -> ViewportModel {
        match self.flow_bounds_spec(area) {
            None => ViewportModel {
                entries: Seq::empty(),
                clipped_before: false,
                clipped_after: false,
                before_affordance_at: None,
                after_affordance_at: None,
            },
            Some((fs, fe)) => {
                let total = self.tabs@.len();
                let first = self.first_index(scroll_offset);
                let cs = self.content_start(fs as int, scroll_offset);
                let fwd = self.forward_entries(first, cs, fe as int, self.budget());
                let fwd_clipped_after = fwd.len() > 0 && fwd.last().index + 1 < total;
                let end_packed = self.tab_bar_align == TabBarAlign::End && !self.windowed()
                    && fwd_clipped_after;
                let entries = if end_packed {
                    self.backward_entries(total as int, fe as int, fs as int)
                } else if fwd.len() == 0 {
                    fwd
                } else {
                    let align_end = sat_sub(
                        fe as int,
                        if fwd_clipped_after && self.overflow_affordance {
                            1
                        } else {
                            0
                        },
                    );
                    let shift = align_shift_spec(
                        self.tab_bar_align,
                        cs,
                        align_end,
                        fwd[0].offset as int,
                        sat_add(fwd.last().offset as int, fwd.last().size as int),
                    );
                    shifted(fwd, shift)
                };
                let clipped_before = if end_packed {
                    entries.len() > 0 && entries[0].index > 0
                } else {
                    self.windowed() && first > 0
                };
                let clipped_after = !end_packed && fwd_clipped_after;
                ViewportModel {
                    entries,
                    clipped_before,
                    clipped_after,
                    before_affordance_at: if clipped_before && self.overflow_affordance {
                        Some(fs)
                    } else {
                        None
                    },
                    after_affordance_at: if clipped_after && self.overflow_affordance {
                        Some(sat_sub(fe as int, 1) as u16)
                    } else {
                        None
                    },
                }
            },
        }
    }
}

/// Forward-packed entries are the consecutive tabs from `index` on.
pub proof fn lemma_forward_indices(nav: &TabNav, index: int, pos: int, end: int, budget: int)
    requires
        0 <= index,
    ensures
        ({
            let f = nav.forward_entries(index, pos, end, budget);
            &&& f.len() <= nav.tabs@.len() - index || f.len() == 0
            &&& forall|j: int| 0 <= j < f.len() ==> #[trigger] f[j].index == index + j
            &&& forall|j: int| 0 <= j < f.len() ==> f[j].index < nav.tabs@.len()
        }),
    decreases nav.tabs@.len() - index,
{
    if 0 <= index < nav.tabs@.len() && budget > 0 {
        let size = nav.primary_size(index);
        if nav.fits_at(pos, size, end, index + 1 < nav.tabs@.len()) {
            lemma_forward_indices(nav, index + 1, sat_add(pos, size), end, budget - 1);
            let rest = nav.forward_entries(index + 1, sat_add(pos, size), end, budget - 1);
            let e = TabEntry { index: index as usize, offset: pos as u16, size: size as u16 };
            let f = nav.forward_entries(index, pos, end, budget);
            assert(nav.tabs.len() == nav.tabs@.len());
            assert(f == seq![e] + rest);
            assert forall|j: int| 0 <= j < f.len() implies #[trigger] f[j].index == index + j by {
                if j > 0 {
                    assert(f[j] == rest[j - 1]);
                }
            }
        }
    }
}

/// Backward-packed entries are the consecutive tabs ending just before `index`.
pub proof fn lemma_backward_indices(nav: &TabNav, index: int, pos: int, start: int)
    requires
        index <= nav.tabs@.len(),
    ensures
        ({
            let b = nav.backward_entries(index, pos, start);
            &&& b.len() <= index || b.len() == 0
            &&& forall|j: int| 0 <= j < b.len() ==> #[trigger] b[j].index == index - b.len() + j
        }),
    decreases index,
{
    if index > 0 {
        let size = nav.primary_size(index - 1);
        if !(size > pos || pos - size < start) {
            lemma_backward_indices(nav, index - 1, pos - size, start);
            let rest = nav.backward_entries(index - 1, pos - size, start);
            let e = TabEntry {
                index: (index - 1) as usize,
                offset: (pos - size) as u16,
                size: size as u16,
            };
            let b = nav.backward_entries(index, pos, start);
            assert(b == rest.push(e));
            assert(nav.tabs.len() == nav.tabs@.len());
            assert forall|j: int| 0 <= j < b.len() implies #[trigger] b[j].index == index - b.len()
                + j by {
                if j < rest.len() {
                    assert(b[j] == rest[j]);
                }
            }
        }
    }
}

/// Tabs laid out one after another: each entry ends where the next starts, all within
/// `start..end`.
pub open spec fn packed_within(entries: Seq<TabEntry>, start: int, end: int) -> bool {
    &&& forall|j: int|
        0 <= j < entries.len() ==> start <= (#[trigger] entries[j]).offset && entries[j].offset
            + entries[j].size <= end
    &&& forall|j: int|
        0 <= j < entries.len() - 1 ==> (#[trigger] entries[j]).offset + entries[j].size
            == entries[j + 1].offset
}

/// Forward-packed entries start at `pos`, lie one after another, and end by `end`.
proof fn lemma_forward_packed(nav: &TabNav, index: int, pos: int, end: int, budget: int)
    requires
        nav.sizes_ok(),
        0 <= index,
        0 <= pos,
        end < u16::MAX,
    ensures
        ({
            let f = nav.forward_entries(index, pos, end, budget);
            &&& packed_within(f, pos, end)
            &&& f.len() > 0 ==> f[0].offset == pos
        }),
    decreases nav.tabs@.len() - index,
{
    if 0 <= index < nav.tabs@.len() && budget > 0 {
        let size = nav.primary_size(index);
        lemma_primary_size_u16(nav, index);
        if nav.fits_at(pos, size, end, index + 1 < nav.tabs@.len()) {
            let next = sat_add(pos, size);
            lemma_forward_packed(nav, index + 1, next, end, budget - 1);
            let rest = nav.forward_entries(index + 1, next, end, budget - 1);
            let e = TabEntry { index: index as usize, offset: pos as u16, size: size as u16 };
            let f = nav.forward_entries(index, pos, end, budget);
            assert(f == seq![e] + rest);
            assert(next == pos + size);
            lemma_primary_size_u16(nav, index);
            assert forall|j: int| 0 <= j < f.len() implies pos <= (#[trigger] f[j]).offset
                && f[j].offset + f[j].size <= end by {
                if j > 0 {
                    assert(f[j] == rest[j - 1]);
                }
            }
            assert forall|j: int| 0 <= j < f.len() - 1 implies (#[trigger] f[j]).offset
                + f[j].size == f[j + 1].offset by {
                assert(f[j + 1] == rest[j]);
                if j > 0 {
                    assert(f[j] == rest[j - 1]);
                }
            }
        }
    }
}

/// A tab's flow-axis size, as the layout reads it, is a `u16`.
pub proof fn lemma_primary_size_u16(nav: &TabNav, index: int)
    requires
        nav.sizes_ok(),
        0 <= index < nav.tabs@.len(),
    ensures
        0 <= nav.primary_size(index) <= u16::MAX,
{
    lemma_widest_line_nonneg(text_lines(nav.label(index)), nav.all_caps);
    if !nav.overridden(index) {
        match nav.orientation {
            TabOrientation::Horizontal => assert(nav.width_ok(index)),
            TabOrientation::Vertical => assert(nav.height_ok(index)),
        }
    }
}

/// Backward-packed entries lie one after another, start at or after `start`, and the last
/// one ends at `pos`.
proof fn lemma_backward_packed(nav: &TabNav, index: int, pos: int, start: int)
    requires
        nav.sizes_ok(),
        index <= nav.tabs@.len(),
        pos <= u16::MAX,
        0 <= start,
    ensures
        ({
            let b = nav.backward_entries(index, pos, start);
            &&& packed_within(b, start, pos)
            &&& b.len() > 0 ==> b.last().offset + b.last().size == pos
        }),
    decreases index,
{
    if index > 0 {
        let size = nav.primary_size(index - 1);
        lemma_primary_size_u16(nav, index - 1);
        if !(size > pos || pos - size < start) {
            lemma_backward_packed(nav, index - 1, pos - size, start);
            let rest = nav.backward_entries(index - 1, pos - size, start);
            let e = TabEntry {
                index: (index - 1) as usize,
                offset: (pos - size) as u16,
                size: size as u16,
            };
            let b = nav.backward_entries(index, pos, start);
            assert(b == rest.push(e));
            assert forall|j: int| 0 <= j < b.len() implies start <= (#[trigger] b[j]).offset
                && b[j].offset + b[j].size <= pos by {
                if j < rest.len() {
                    assert(b[j] == rest[j]);
                }
            }
            assert forall|j: int| 0 <= j < b.len() - 1 implies (#[trigger] b[j]).offset
                + b[j].size == b[j + 1].offset by {
                assert(b[j] == rest[j]);
                if j + 1 < rest.len() {
                    assert(b[j + 1] == rest[j + 1]);
                }
            }
        }
    }
}

/// Shifting packed entries by at most the slack before `end` keeps them packed, within
/// `start..end`.
proof fn lemma_shift_packed(entries: Seq<TabEntry>, start: int, end: int, shift: int)
    requires
        packed_within(entries, start, end - shift),
        0 <= shift,
        end <= u16::MAX,
    ensures
        packed_within(shifted(entries, shift), start, end),
        shifted(entries, shift).len() == entries.len(),
        forall|j: int|
            0 <= j < entries.len() ==> (#[trigger] shifted(entries, shift)[j]).index
                == entries[j].index,
{
    let t = shifted(entries, shift);
    assert forall|j: int| 0 <= j < t.len() implies start <= (#[trigger] t[j]).offset
        && t[j].offset + t[j].size <= end by {
        assert(entries[j].offset + entries[j].size <= end - shift);
    }
    assert forall|j: int| 0 <= j < t.len() - 1 implies (#[trigger] t[j]).offset + t[j].size
        == t[j + 1].offset by {
        assert(entries[j].offset + entries[j].size == entries[j + 1].offset);
        assert(entries[j + 1].offset + entries[j + 1].size <= end - shift);
    }
}

/// The visible tabs lie within the strip's flow-axis span, one after another without
/// overlapping, and each is a distinct existing tab in increasing order: what is drawn
/// and hit-tested stays inside the area. When the area has no room for the strip (or
/// there are no tabs) nothing is visible. (Stated where the span ends before the last
/// coordinate `u16::MAX`, where sizes cannot saturate.)
#[verifier::rlimit(30)]
pub proof fn law_viewport_tabs_packed_within_strip(nav: &TabNav, area: Rect, scroll_offset: usize)
    requires
        nav.sizes_ok(),
        area.normalized(),
        nav.flow_bounds_spec(area) matches Some((fs, fe)) ==> fe < u16::MAX,
    ensures
        ({
            let v = nav.viewport_model(area, scroll_offset);
            match nav.flow_bounds_spec(area) {
                None => v.entries.len() == 0,
                Some((fs, fe)) => {
                    &&& packed_within(v.entries, fs as int, fe as int)
                    &&& forall|j: int|
                        0 <= j < v.entries.len() ==> (#[trigger] v.entries[j]).index
                            < nav.tabs@.len()
                    &&& forall|j: int|
                        0 <= j < v.entries.len() - 1 ==> (#[trigger] v.entries[j]).index + 1
                            == v.entries[j + 1].index
                },
            }
        }),
{
    if nav.flow_bounds_spec(area) is Some {
        let (fs, fe) = nav.flow_bounds_spec(area)->0;
        let v = nav.viewport_model(area, scroll_offset);
        let total = nav.tabs@.len();
        let first = nav.first_index(scroll_offset);
        let cs = nav.content_start(fs as int, scroll_offset);
        let fwd = nav.forward_entries(first, cs, fe as int, nav.budget());
        lemma_forward_indices(nav, first, cs, fe as int, nav.budget());
        lemma_forward_packed(nav, first, cs, fe as int, nav.budget());
        lemma_backward_indices(nav, total as int, fe as int, fs as int);
        lemma_backward_packed(nav, total as int, fe as int, fs as int);
        let fwd_clipped_after = fwd.len() > 0 && fwd.last().index + 1 < total;
        let end_packed = nav.tab_bar_align == TabBarAlign::End && !nav.windowed() && fwd_clipped_after;
        if !end_packed && fwd.len() > 0 {
            let align_end = sat_sub(
                fe as int,
                if fwd_clipped_after && nav.overflow_affordance {
                    1
                } else {
                    0
                },
            );
            let gs = fwd[0].offset as int;
            let ge = sat_add(fwd.last().offset as int, fwd.last().size as int);
            let shift = align_shift_spec(nav.tab_bar_align, cs, align_end, gs, ge);
            assert(ge == fwd.last().offset + fwd.last().size);
            assert(gs == cs);
            assert(ge <= fe);
            if shift > 0 {
                assert(ge <= align_end);
                assert(ge + shift <= align_end);
            }
            assert(packed_within(fwd, fs as int, fe - shift)) by {
                if fwd.len() > 1 {
                    assert forall|j: int| 0 <= j < fwd.len() implies (#[trigger] fwd[j]).offset
                        + fwd[j].size <= fwd.last().offset + fwd.last().size by {
                        lemma_packed_ends_before_last(fwd, cs, fe as int, j);
                    }
                }
            }
            lemma_shift_packed(fwd, fs as int, fe as int, shift);
        }
    }
}

/// Forward-packed entries take at most `budget` tabs, and each has its tab's flow-axis
/// size.
proof fn lemma_forward_budget_sizes(nav: &TabNav, index: int, pos: int, end: int, budget: int)
    requires
        nav.sizes_ok(),
        0 <= index,
    ensures
        ({
            let f = nav.forward_entries(index, pos, end, budget);
            &&& f.len() == 0 || f.len() <= budget
            &&& forall|j: int|
                0 <= j < f.len() ==> (#[trigger] f[j]).size == nav.primary_size(f[j].index as int)
        }),
    decreases nav.tabs@.len() - index,
{
    if 0 <= index < nav.tabs@.len() && budget > 0 {
        let size = nav.primary_size(index);
        lemma_primary_size_u16(nav, index);
        if nav.fits_at(pos, size, end, index + 1 < nav.tabs@.len()) {
            let next = sat_add(pos, size);
            lemma_forward_budget_sizes(nav, index + 1, next, end, budget - 1);
            let rest = nav.forward_entries(index + 1, next, end, budget - 1);
            let e = TabEntry { index: index as usize, offset: pos as u16, size: size as u16 };
            let f = nav.forward_entries(index, pos, end, budget);
            assert(f == seq![e] + rest);
            assert(nav.tabs.len() == nav.tabs@.len());
            assert forall|j: int| 0 <= j < f.len() implies (#[trigger] f[j]).size
                == nav.primary_size(f[j].index as int) by {
                if j > 0 {
                    assert(f[j] == rest[j - 1]);
                }
            }
        }
    }
}

/// Backward-packed entries each have their tab's flow-axis size.
proof fn lemma_backward_sizes(nav: &TabNav, index: int, pos: int, start: int)
    requires
        nav.sizes_ok(),
        index <= nav.tabs@.len(),
    ensures
        ({
            let b = nav.backward_entries(index, pos, start);
            forall|j: int|
                0 <= j < b.len() ==> (#[trigger] b[j]).size == nav.primary_size(b[j].index as int)
        }),
    decreases index,
{
    if index > 0 {
        let size = nav.primary_size(index - 1);
        lemma_primary_size_u16(nav, index - 1);
        if !(size > pos || pos - size < start) {
            lemma_backward_sizes(nav, index - 1, pos - size, start);
            let rest = nav.backward_entries(index - 1, pos - size, start);
            let e = TabEntry {
                index: (index - 1) as usize,
                offset: (pos - size) as u16,
                size: size as u16,
            };
            let b = nav.backward_entries(index, pos, start);
            assert(b == rest.push(e));
            assert(nav.tabs.len() == nav.tabs@.len());
            assert forall|j: int| 0 <= j < b.len() implies (#[trigger] b[j]).size
                == nav.primary_size(b[j].index as int) by {
                if j < rest.len() {
                    assert(b[j] == rest[j]);
                }
            }
        }
    }
}

/// A visible-tab cap limits the window: with a cap of `c` tabs for the strip's
/// orientation, at most `c` tabs are visible, whatever the area and scroll offset.
pub proof fn law_visible_cap_limits_window(nav: &TabNav, area: Rect, scroll_offset: usize)
    requires
        nav.sizes_ok(),
    ensures
        (match nav.orientation {
            TabOrientation::Horizontal => nav.horizontal_position.max_visible,
            TabOrientation::Vertical => nav.vertical_position.max_visible,
        }) matches Some(c) ==> nav.viewport_model(area, scroll_offset).entries.len() <= c,
{
    if nav.flow_bounds_spec(area) is Some {
        let (fs, fe) = nav.flow_bounds_spec(area)->0;
        let first = nav.first_index(scroll_offset);
        let cs = nav.content_start(fs as int, scroll_offset);
        lemma_forward_budget_sizes(nav, first, cs, fe as int, nav.budget());
    }
}

/// Each visible tab has its configured size along the flow axis: the explicit size when
/// one is given for it, otherwise its default width (horizontal strip: borders, side
/// padding and label width) or default height (vertical rail: borders, top and bottom
/// padding and line count). Tabs past the end of the explicit sizes take their defaults.
pub proof fn law_visible_tabs_take_their_sizes(nav: &TabNav, area: Rect, scroll_offset: usize)
    requires
        nav.sizes_ok(),
    ensures
        forall|j: int|
            0 <= j < nav.viewport_model(area, scroll_offset).entries.len() ==> {
                let e = #[trigger] nav.viewport_model(area, scroll_offset).entries[j];
                let i = e.index as int;
                &&& nav.overridden(i) ==> e.size == nav.tab_sizes->0@[i]
                &&& !nav.overridden(i) ==> e.size == (
                match nav.orientation {
                    TabOrientation::Horizontal => 2 + nav.padding_spec().left + label_cols(
                        nav.tabs@[i]@,
                        nav.all_caps,
                    ) + nav.padding_spec().right,
                    TabOrientation::Vertical => 2 + nav.padding_spec().top + label_rows(
                        nav.tabs@[i]@,
                    ) + nav.padding_spec().bottom,
                })
            },
{
    let v = nav.viewport_model(area, scroll_offset);
    if nav.flow_bounds_spec(area) is Some {
        let (fs, fe) = nav.flow_bounds_spec(area)->0;
        let total = nav.tabs@.len();
        let first = nav.first_index(scroll_offset);
        let cs = nav.content_start(fs as int, scroll_offset);
        let fwd = nav.forward_entries(first, cs, fe as int, nav.budget());
        lemma_forward_budget_sizes(nav, first, cs, fe as int, nav.budget());
        lemma_forward_indices(nav, first, cs, fe as int, nav.budget());
        lemma_backward_sizes(nav, total as int, fe as int, fs as int);
        lemma_backward_indices(nav, total as int, fe as int, fs as int);
        assert forall|j: int| 0 <= j < v.entries.len() implies #[trigger] v.entries[j].size
            == nav.primary_size(v.entries[j].index as int) && 0 <= v.entries[j].index
            < total by {
            let fwd_clipped_after = fwd.len() > 0 && fwd.last().index + 1 < total;
            let end_packed = nav.tab_bar_align == TabBarAlign::End && !nav.windowed()
                && fwd_clipped_after;
            if !end_packed && fwd.len() > 0 {
                let align_end = sat_sub(
                    fe as int,
                    if fwd_clipped_after && nav.overflow_affordance {
                        1
                    } else {
                        0
                    },
                );
                let shift = align_shift_spec(
                    nav.tab_bar_align,
                    cs,
                    align_end,
                    fwd[0].offset as int,
                    sat_add(fwd.last().offset as int, fwd.last().size as int),
                );
                assert(v.entries == shifted(fwd, shift));
                assert(v.entries[j].size == fwd[j].size);
                assert(v.entries[j].index == fwd[j].index);
            }
        }
    }
}

/// On a vertical rail showing a window with tabs hidden before it, the leading marker cell
/// stays free: every visible tab starts after the row where the marker is drawn.
pub proof fn law_rail_window_clears_leading_marker(
    nav: &TabNav,
    area: Rect,
    scroll_offset: usize,
)
    requires
        nav.sizes_ok(),
        nav.flow_bounds_spec(area) matches Some((fs, fe)) ==> fe < u16::MAX,
        area.normalized(),
        nav.orientation == TabOrientation::Vertical,
        nav.windowed(),
    ensures
        nav.viewport_model(area, scroll_offset).before_affordance_at matches Some(m) ==> forall|
            j: int,
        |
            0 <= j < nav.viewport_model(area, scroll_offset).entries.len() ==> m < (
            #[trigger] nav.viewport_model(area, scroll_offset).entries[j]).offset,
{
    let v = nav.viewport_model(area, scroll_offset);
    if nav.flow_bounds_spec(area) is Some && v.before_affordance_at is Some {
        let (fs, fe) = nav.flow_bounds_spec(area)->0;
        let first = nav.first_index(scroll_offset);
        let cs = nav.content_start(fs as int, scroll_offset);
        assert(first > 0);
        assert(fs < fe);
        assert(cs == fs + 1);
        let fwd = nav.forward_entries(first, cs, fe as int, nav.budget());
        lemma_forward_packed(nav, first, cs, fe as int, nav.budget());
        assert forall|j: int| 0 <= j < v.entries.len() implies v.before_affordance_at->0 < (
        #[trigger] v.entries[j]).offset by {
            let total = nav.tabs@.len();
            let fwd_clipped_after = fwd.len() > 0 && fwd.last().index + 1 < total;
            let align_end = sat_sub(
                fe as int,
                if fwd_clipped_after && nav.overflow_affordance {
                    1
                } else {
                    0
                },
            );
            let shift = align_shift_spec(
                nav.tab_bar_align,
                cs,
                align_end,
                fwd[0].offset as int,
                sat_add(fwd.last().offset as int, fwd.last().size as int),
            );
            assert(v.entries == shifted(fwd, shift));
            assert(cs <= fwd[j].offset);
            assert(shift >= 0);
        }
    }
}

/// In packed entries every entry ends no later than the last one.
proof fn lemma_packed_ends_before_last(entries: Seq<TabEntry>, start: int, end: int, j: int)
    requires
        packed_within(entries, start, end),
        0 <= j < entries.len(),
    ensures
        entries[j].offset + entries[j].size <= entries.last().offset + entries.last().size,
    decreases entries.len() - j,
{
    if j < entries.len() - 1 {
        lemma_packed_ends_before_last(entries, start, end, j + 1);
        assert(entries[j].offset + entries[j].size == entries[j + 1].offset);
    }
}

/// In packed entries an earlier entry ends at or before a later one starts.
pub proof fn lemma_packed_ordered(entries: Seq<TabEntry>, start: int, end: int, k: int, j: int)
    requires
        packed_within(entries, start, end),
        0 <= k < j < entries.len(),
    ensures
        entries[k].offset + entries[k].size <= entries[j].offset,
    decreases j - k,
{
    assert(entries[j - 1].offset + entries[j - 1].size == entries[j].offset);
    if k < j - 1 {
        lemma_packed_ordered(entries, start, end, k, j - 1);
    }
}

/// The rectangle of every visible tab lies inside the area: tabs never extend past the
/// area's edges. (Stated where the flow span ends before the last coordinate
/// `u16::MAX`.)
pub proof fn law_tab_rects_within_area(nav: &TabNav, area: Rect, scroll_offset: usize)
    requires
        nav.sizes_ok(),
        area.normalized(),
        nav.flow_bounds_spec(area) matches Some((fs, fe)) && fe < u16::MAX,
    ensures
        forall|j: int|
            0 <= j < nav.rects_spec(area, scroll_offset).len() ==> {
                let r = #[trigger] nav.rects_spec(area, scroll_offset)[j];
                &&& area.x <= r.x
                &&& r.x + r.width <= area.x + area.width
                &&& area.y <= r.y
                &&& r.y + r.height <= area.y + area.height
            },
{
    law_viewport_tabs_packed_within_strip(nav, area, scroll_offset);
    let entries = nav.viewport_model(area, scroll_offset).entries;
    let rects = nav.rects_spec(area, scroll_offset);
    assert forall|j: int| 0 <= j < rects.len() implies {
        let r = #[trigger] rects[j];
        &&& area.x <= r.x
        &&& r.x + r.width <= area.x + area.width
        &&& area.y <= r.y
        &&& r.y + r.height <= area.y + area.height
    } by {
        assert(rects[j] == nav.entry_rect(area, entries[j]));
    }
}

/// Hit testing finds the tab under the pointer: a cell inside the rectangle of a visible
/// tab maps to that tab. (Stated where the flow span ends before the last coordinate
/// `u16::MAX`.)
pub proof fn law_hit_finds_visible_tab(
    nav: &TabNav,
    area: Rect,
    scroll_offset: usize,
    j: int,
    col: u16,
    row: u16,
)
    requires
        nav.sizes_ok(),
        area.normalized(),
        nav.flow_bounds_spec(area) matches Some((fs, fe)) && fe < u16::MAX,
        0 <= j < nav.viewport_model(area, scroll_offset).entries.len(),
        nav.rects_spec(area, scroll_offset)[j].holds(col as int, row as int),
    ensures
        nav.hit_index(area, scroll_offset, col, row) == Some(
            nav.viewport_model(area, scroll_offset).entries[j].index,
        ),
{
    law_viewport_tabs_packed_within_strip(nav, area, scroll_offset);
    let (fs, fe) = nav.flow_bounds_spec(area)->0;
    let entries = nav.viewport_model(area, scroll_offset).entries;
    let rects = nav.rects_spec(area, scroll_offset);
    assert(rects.len() == entries.len());
    assert forall|k: int| 0 <= k < j implies !(#[trigger] rects[k]).holds(col as int, row as int) by {
        lemma_packed_ordered(entries, fs as int, fe as int, k, j);
        assert(rects[k] == nav.entry_rect(area, entries[k]));
        assert(rects[j] == nav.entry_rect(area, entries[j]));
    }
    lemma_first_hit_skips(rects, entries, col as int, row as int, 0, j);
}

/// `first_hit` from `k` passes over rectangles that miss the cell and stops at `j`.
proof fn lemma_first_hit_skips(
    rects: Seq<Rect>,
    entries: Seq<TabEntry>,
    col: int,
    row: int,
    k: int,
    j: int,
)
    requires
        0 <= k <= j < rects.len(),
        rects.len() == entries.len(),
        rects[j].holds(col, row),
        forall|i: int| k <= i < j ==> !(#[trigger] rects[i]).holds(col, row),
    ensures
        first_hit(rects, entries, col, row, k) == Some(entries[j].index),
    decreases j - k,
{
    if k < j {
        lemma_first_hit_skips(rects, entries, col, row, k + 1, j);
    }
}

/// The strip margin in use: the configured one, or none.
pub fn effective_margin(nav: &TabNav) -> (m: TabMargin)
    ensures
        m == nav.margin_spec(),
{
    match nav.margin {
        Some(m) => m,
        None => match nav.orientation {
            TabOrientation::Horizontal => TabMargin::zero(),
            TabOrientation::Vertical => TabMargin::vertical_default(),
        },
    }
}

/// The tab padding in use: the configured one, or the orientation's default.
pub fn effective_padding(nav: &TabNav) -> (p: TabPadding)
    ensures
        p == nav.padding_spec(),
{
    match nav.padding {
        Some(p) => p,
        None => match nav.orientation {
            TabOrientation::Horizontal => TabPadding::horizontal_default(),
            TabOrientation::Vertical => TabPadding::vertical_default(),
        },
    }
}

/// The baseline end-cap style in use: the configured one, or none.
pub fn effective_tab_bar_end(nav: &TabNav) -> (e: TabBarEnd)
    ensures
        e == nav.bar_end_spec(),
{
    match nav.tab_bar_end {
        Some(e) => e,
        None => TabBarEnd::NoEnd,
    }
}

/// Default width of a tab with `label`: `2 + pad.left + label_display_width + pad.right`.
pub fn auto_horizontal_tab_width(label: &str, pad: TabPadding, all_caps: bool) -> (w: u16)
    requires
        auto_width_fits(label@, pad, all_caps),
    ensures
        w == auto_width_of(label@, pad, all_caps),
{
    match label_width_checked(label, all_caps) {
        Some(cols) => TAB_BORDER * 2 + pad.left + cols + pad.right,
        None => 0,
    }
}

/// Default width of a tab with `label`, or `None` when it does not fit in `u16`.
pub fn checked_auto_horizontal_tab_width(label: &str, pad: TabPadding, all_caps: bool) -> (r:
    Option<u16>)
    ensures
        r is Some <==> auto_width_fits(label@, pad, all_caps),
        r matches Some(w) ==> w == auto_width_of(label@, pad, all_caps),
{
    match label_width_checked(label, all_caps) {
        Some(cols) => {
            let total: u32 = 2 * TAB_BORDER as u32 + pad.left as u32 + cols as u32
                + pad.right as u32;
            if total > u16::MAX as u32 {
                None
            } else {
                Some(total as u16)
            }
        },
        None => None,
    }
}

/// Default height of a tab with `label`: `2 + pad.top + label_line_count + pad.bottom`.
pub fn auto_vertical_tab_height(label: &str, pad: TabPadding) -> (h: u16)
    requires
        auto_height_of(label@, pad) <= u16::MAX,
    ensures
        h == auto_height_of(label@, pad),
{
    TAB_BORDER * 2 + pad.top + label_line_count(label) + pad.bottom
}

/// Default height of a tab with `label`, or `None` when it does not fit in `u16`.
pub fn checked_auto_vertical_tab_height(label: &str, pad: TabPadding) -> (r: Option<u16>)
    ensures
        r is Some <==> auto_height_of(label@, pad) <= u16::MAX,
        r matches Some(h) ==> h == auto_height_of(label@, pad),
{
    let total: u32 = 2 * TAB_BORDER as u32 + pad.top as u32 + label_line_count(label) as u32
        + pad.bottom as u32;
    if total > u16::MAX as u32 {
        None
    } else {
        Some(total as u16)
    }
}

/// Height of a horizontal strip: borders, top/bottom padding and one label row.
pub fn horizontal_strip_height(nav: &TabNav) -> (h: u16)
    requires
        nav.strip_height_spec() <= u16::MAX,
    ensures
        h == nav.strip_height_spec(),
{
    let pad = effective_padding(nav);
    TAB_BORDER * 2 + pad.top + 1 + pad.bottom
}

/// Width of the vertical rail: the widest default tab width.
pub fn vertical_rail_width(nav: &TabNav) -> (w: u16)
    requires
        nav.all_widths_ok(),
    ensures
        w == nav.rail_width_spec(),
{
    let pad = effective_padding(nav);
    let mut widest: u16 = TAB_BORDER * 2 + pad.left + pad.right;
    let mut i: usize = 0;
    while i < nav.tabs.len()
        invariant
            i <= nav.tabs@.len(),
            pad == nav.padding_spec(),
            nav.all_widths_ok(),
            widest == nav.rail_upto(i as int),
        decreases nav.tabs@.len() - i,
    {
        assert(nav.width_ok(i as int));
        let w = auto_horizontal_tab_width(nav.tabs[i], pad, nav.all_caps);
        if w > widest {
            widest = w;
        }
        i += 1;
    }
    widest
}

/// Whether the layout of `nav` is computable: every size it reads fits in `u16`.
#[verifier::rlimit(30)]
pub fn sizes_fit(nav: &TabNav) -> (r: bool)
    ensures
        r == nav.sizes_ok(),
{
    let m = effective_margin(nav);
    if m.start as u32 + m.end as u32 > u16::MAX as u32 {
        return false;
    }
    let pad = effective_padding(nav);
    let n = nav.tabs.len();
    match nav.orientation {
        TabOrientation::Horizontal => {
            if 2 + pad.top as u32 + 1 + pad.bottom as u32 > u16::MAX as u32 {
                return false;
            }
            let mut i: usize = 0;
            while i < n
                invariant
                    i <= n,
                    n == nav.tabs@.len(),
                    pad == nav.padding_spec(),
                    nav.orientation == TabOrientation::Horizontal,
                    forall|j: int| 0 <= j < i ==> #[trigger] nav.overridden(j) || nav.width_ok(j),
                decreases n - i,
            {
                let over = match nav.tab_sizes {
                    Some(s) => i < s.len(),
                    None => false,
                };
                if !over && checked_auto_horizontal_tab_width(nav.tabs[i], pad, nav.all_caps).is_none() {
                    assert(!nav.overridden(i as int) && !nav.width_ok(i as int));
                    return false;
                }
                i += 1;
            }
            true
        },
        TabOrientation::Vertical => {
            if 2 + pad.left as u32 + pad.right as u32 > u16::MAX as u32 {
                return false;
            }
            let mut i: usize = 0;
            while i < n
                invariant
                    i <= n,
                    n == nav.tabs@.len(),
                    pad == nav.padding_spec(),
                    nav.orientation == TabOrientation::Vertical,
                    forall|j: int| 0 <= j < i ==> #[trigger] nav.width_ok(j),
                    forall|j: int| 0 <= j < i ==> #[trigger] nav.overridden(j) || nav.height_ok(j),
                decreases n - i,
            {
                if checked_auto_horizontal_tab_width(nav.tabs[i], pad, nav.all_caps).is_none() {
                    assert(!nav.width_ok(i as int));
                    assert(!nav.all_widths_ok());
                    return false;
                }
                let over = match nav.tab_sizes {
                    Some(s) => i < s.len(),
                    None => false,
                };
                if !over && checked_auto_vertical_tab_height(nav.tabs[i], pad).is_none() {
                    assert(!nav.overridden(i as int) && !nav.height_ok(i as int));
                    return false;
                }
                i += 1;
            }
            true
        },
    }
}

/// Size of tab `index` along the flow axis: its explicit size, or its default width
/// (horizontal) or height (vertical).
fn primary_tab_size(nav: &TabNav, index: usize) -> (r: u16)
    requires
        index < nav.tabs@.len(),
        nav.sizes_ok(),
    ensures
        r == nav.primary_size(index as int),
{
    if let Some(sizes) = nav.tab_sizes {
        if index < sizes.len() {
            return sizes[index];
        }
    }
    assert(!nav.overridden(index as int));
    let pad = effective_padding(nav);
    match nav.orientation {
        TabOrientation::Horizontal => auto_horizontal_tab_width(nav.tabs[index], pad, nav.all_caps),
        TabOrientation::Vertical => auto_vertical_tab_height(nav.tabs[index], pad),
    }
}

/// Whether tabs show through a sliding window: scroll overflow, or a visible-tab cap.
pub fn uses_scroll_window(nav: &TabNav) -> (r: bool)
    ensures
        r == nav.windowed(),
{
    if nav.overflow == OverflowPolicy::Scroll {
        return true;
    }
    match nav.orientation {
        TabOrientation::Horizontal => nav.horizontal_position.max_visible.is_some(),
        TabOrientation::Vertical => nav.vertical_position.max_visible.is_some(),
    }
}

/// The flow-axis span available to tabs in `area`, or `None` when nothing is drawn.
pub fn flow_bounds(nav: &TabNav, area: Rect) -> (r: Option<(u16, u16)>)
    requires
        nav.sizes_ok(),
        area.normalized(),
    ensures
        r == nav.flow_bounds_spec(area),
{
    if nav.tabs.len() == 0 {
        return None;
    }
    let margin = effective_margin(nav);
    match nav.orientation {
        TabOrientation::Horizontal => {
            let strip_height = horizontal_strip_height(nav);
            if area.height < strip_height || area.width <= margin.start + margin.end {
                return None;
            }
            Some((area.x + margin.start, area.right() - margin.end))
        },
        TabOrientation::Vertical => {
            let rail = vertical_rail_width(nav);
            let rail_width = if rail <= area.width {
                rail
            } else {
                area.width
            };
            let pad = effective_padding(nav);
            if rail_width < TAB_BORDER * 2 + pad.left + pad.right || area.height <= margin.start
                + margin.end {
                return None;
            }
            Some((area.y + margin.start, area.bottom() - margin.end))
        },
    }
}

/// Whether a tab of `size` at `pos` ends at or before `flow_end` (saturating).
pub fn tab_fits_before_end(pos: u16, size: u16, flow_end: u16) -> (r: bool)
    ensures
        r == (sat_add(pos as int, size as int) <= flow_end),
{
    pos.saturating_add(size) <= flow_end
}

/// Whether a tab of `size` may start at `pos`, keeping a marker cell free when more tabs
/// follow in a window with affordances.
fn reserve_scroll_affordance(pos: u16, size: u16, flow_end: u16, has_more: bool, nav: &TabNav) -> (r:
    bool)
    requires
        sat_add(pos as int, size as int) <= flow_end,
    ensures
        r == nav.fits_at(pos as int, size as int, flow_end as int, has_more),
{
    if !uses_scroll_window(nav) || !has_more || !nav.overflow_affordance {
        return tab_fits_before_end(pos, size, flow_end);
    }
    pos.saturating_add(size).saturating_add(1) <= flow_end
}

/// How far to move a group of tabs spanning `group_start..group_end` to align it within
/// `align_start..align_end`.
pub fn align_shift(
    align: TabBarAlign,
    align_start: u16,
    align_end: u16,
    group_start: u16,
    group_end: u16,
) -> (r: u16)
    ensures
        r == align_shift_spec(
            align,
            align_start as int,
            align_end as int,
            group_start as int,
            group_end as int,
        ),
{
    let align_span = align_end.saturating_sub(align_start);
    let group_span = group_end.saturating_sub(group_start);
    if group_span >= align_span {
        return 0;
    }
    match align {
        TabBarAlign::Start => 0,
        TabBarAlign::Center => {
            let slack = align_span - group_span;
            align_start.saturating_add(slack / 2).saturating_sub(group_start)
        },
        TabBarAlign::End => align_end.saturating_sub(group_end),
    }
}

/// Packs tabs forward from `first_index` at `content_start` while they fit before
/// `flow_end`, showing at most the visible-tab cap.
#[verifier::rlimit(30)]
fn build_forward_entries(nav: &TabNav, first_index: usize, content_start: u16, flow_end: u16) -> (r:
    Vec<TabEntry>)
    requires
        nav.sizes_ok(),
    ensures
        r@ == nav.forward_entries(
            first_index as int,
            content_start as int,
            flow_end as int,
            nav.budget(),
        ),
{
    let total = nav.tabs.len();
    let cap: Option<usize> = match nav.orientation {
        TabOrientation::Horizontal => nav.horizontal_position.max_visible,
        TabOrientation::Vertical => nav.vertical_position.max_visible,
    };
    let mut entries: Vec<TabEntry> = Vec::new();
    let mut pos = content_start;
    let mut index = first_index;
    let ghost target = nav.forward_entries(
        first_index as int,
        content_start as int,
        flow_end as int,
        nav.budget(),
    );
    while index < total
        invariant
            total == nav.tabs@.len(),
            cap == nav.visible_cap(),
            nav.sizes_ok(),
            target == nav.forward_entries(
                first_index as int,
                content_start as int,
                flow_end as int,
                nav.budget(),
            ),
            entries@ + nav.forward_entries(
                index as int,
                pos as int,
                flow_end as int,
                nav.budget() - entries@.len(),
            ) == target,
            entries@.len() <= index,
        decreases total - index,
    {
        if let Some(c) = cap {
            if entries.len() >= c {
                assert(nav.forward_entries(
                    index as int,
                    pos as int,
                    flow_end as int,
                    nav.budget() - entries@.len(),
                ) =~= Seq::<TabEntry>::empty());
                assert(entries@ + Seq::<TabEntry>::empty() =~= entries@);
                return entries;
            }
        }
        let size = primary_tab_size(nav, index);
        let has_more = index + 1 < total;
        if !tab_fits_before_end(pos, size, flow_end) {
            assert(entries@ + Seq::<TabEntry>::empty() =~= entries@);
            return entries;
        }
        if !reserve_scroll_affordance(pos, size, flow_end, has_more, nav) {
            assert(nav.forward_entries(
                index as int,
                pos as int,
                flow_end as int,
                nav.budget() - entries@.len(),
            ) =~= Seq::<TabEntry>::empty());
            assert(entries@ + Seq::<TabEntry>::empty() =~= entries@);
            return entries;
        }
        let ghost before = entries@;
        let ghost rest = nav.forward_entries(
            index + 1,
            sat_add(pos as int, size as int),
            flow_end as int,
            nav.budget() - entries@.len() - 1,
        );
        entries.push(TabEntry { index, offset: pos, size });
        assert(before + (seq![TabEntry { index, offset: pos, size }] + rest) =~= entries@ + rest);
        pos = pos.saturating_add(size);
        index += 1;
    }
    assert(entries@ + Seq::<TabEntry>::empty() =~= entries@);
    entries
}

/// Packs tabs backward from the last one so that the last tab ends at `flow_end`, while
/// they start at or after `flow_start`.
#[verifier::rlimit(30)]
fn build_backward_entries(nav: &TabNav, flow_start: u16, flow_end: u16) -> (r: Vec<TabEntry>)
    requires
        nav.sizes_ok(),
    ensures
        r@ == nav.backward_entries(nav.tabs@.len() as int, flow_end as int, flow_start as int),
{
    let total = nav.tabs.len();
    let mut entries: Vec<TabEntry> = Vec::new();
    let mut pos = flow_end;
    let mut index = total;
    let ghost target = nav.backward_entries(total as int, flow_end as int, flow_start as int);
    while index > 0
        invariant
            index <= total,
            total == nav.tabs@.len(),
            nav.sizes_ok(),
            target == nav.backward_entries(total as int, flow_end as int, flow_start as int),
            target == nav.backward_entries(index as int, pos as int, flow_start as int)
                + entries@,
        decreases index,
    {
        let size = primary_tab_size(nav, index - 1);
        if size > pos {
            assert(Seq::<TabEntry>::empty() + entries@ =~= entries@);
            return entries;
        }
        let next_start = pos - size;
        if next_start < flow_start {
            assert(Seq::<TabEntry>::empty() + entries@ =~= entries@);
            return entries;
        }
        let ghost before = entries@;
        let e = TabEntry { index: index - 1, offset: next_start, size };
        entries.insert(0, e);
        assert(nav.backward_entries((index - 1) as int, next_start as int, flow_start as int).push(
            e,
        ) + before =~= nav.backward_entries((index - 1) as int, next_start as int, flow_start as int)
            + entries@);
        pos = next_start;
        index -= 1;
    }
    assert(Seq::<TabEntry>::empty() + entries@ =~= entries@);
    entries
}

/// Moves every entry's offset on by `shift` (saturating).
fn shift_entries(entries: Vec<TabEntry>, shift: u16) -> (r: Vec<TabEntry>)
    ensures
        r@ == shifted(entries@, shift as int),
{
    let mut out: Vec<TabEntry> = Vec::new();
    let mut i: usize = 0;
    while i < entries.len()
        invariant
            i <= entries@.len(),
            out@ == shifted(entries@.take(i as int), shift as int),
        decreases entries@.len() - i,
    {
        let e = entries[i];
        out.push(TabEntry { offset: e.offset.saturating_add(shift), ..e });
        i += 1;
        assert(out@ =~= shifted(entries@.take(i as int), shift as int));
    }
    assert(entries@.take(entries@.len() as int) =~= entries@);
    out
}

/// The visible tabs in `area` for `scroll_offset`, where they stand, and which edges clip
/// hidden tabs.
#[verifier::rlimit(30)]
pub fn compute_viewport(nav: &TabNav, area: Rect, scroll_offset: usize) -> (v: TabViewport)
    requires
        nav.sizes_ok(),
        area.normalized(),
    ensures
        v@ == nav.viewport_model(area, scroll_offset),
{
    let (flow_start, flow_end) = match flow_bounds(nav, area) {
        None => {
            return TabViewport {
                entries: Vec::new(),
                clipped_before: false,
                clipped_after: false,
                before_affordance_at: None,
                after_affordance_at: None,
            };
        },
        Some(b) => b,
    };
    let total = nav.tabs.len();
    let windowed = uses_scroll_window(nav);
    let mut first_index: usize = 0;
    let mut clipped_before = false;
    let mut content_start = flow_start;
    if windowed {
        first_index = if scroll_offset < total - 1 {
            scroll_offset
        } else {
            total - 1
        };
        clipped_before = first_index > 0;
        if clipped_before && nav.overflow_affordance && nav.orientation
            == TabOrientation::Vertical {
            content_start = content_start.saturating_add(1);
        }
    }
    assert(first_index == nav.first_index(scroll_offset));
    assert(content_start == nav.content_start(flow_start as int, scroll_offset));
    let mut entries = build_forward_entries(nav, first_index, content_start, flow_end);
    proof {
        lemma_forward_indices(
            nav,
            first_index as int,
            content_start as int,
            flow_end as int,
            nav.budget(),
        );
    }
    let mut clipped_after = entries.len() > 0 && entries[entries.len() - 1].index + 1 < total;
    let mut end_packed = false;
    if nav.tab_bar_align == TabBarAlign::End && !windowed && clipped_after {
        entries = build_backward_entries(nav, flow_start, flow_end);
        clipped_before = entries.len() > 0 && entries[0].index > 0;
        clipped_after = false;
        end_packed = true;
    }
    if !end_packed && entries.len() > 0 {
        let first = entries[0];
        let last = entries[entries.len() - 1];
        let group_start = first.offset;
        let group_end = last.offset.saturating_add(last.size);
        let align_end = flow_end.saturating_sub(
            if clipped_after && nav.overflow_affordance {
                1
            } else {
                0
            },
        );
        let shift = align_shift(nav.tab_bar_align, content_start, align_end, group_start, group_end);
        if shift > 0 {
            entries = shift_entries(entries, shift);
        } else {
            proof {
                assert(shifted(entries@, 0) =~= entries@);
            }
        }
    }
    let before_affordance_at = if clipped_before && nav.overflow_affordance {
        Some(flow_start)
    } else {
        None
    };
    let after_affordance_at = if clipped_after && nav.overflow_affordance {
        Some(flow_end.saturating_sub(1))
    } else {
        None
    };
    TabViewport { entries, clipped_before, clipped_after, before_affordance_at, after_affordance_at }
}

impl<'a> TabNav<'a> {
    /// The layout is computable for `area`: every size fits in `u16` and the area is
    /// normalized.
    pub open spec fn layout_ok(&self, area: Rect) -> bool {
        self.sizes_ok() && area.normalized()
    }

    /// Rail width within `area`: the rail width, at most the area's width.
    pub open spec fn rail_in(&self, area: Rect) -> int {
        if self.rail_width_spec() <= area.width {
            self.rail_width_spec()
        } else {
            area.width as int
        }
    }

    /// Top row of a horizontal strip in `area`: the area's top, or the last rows for a
    /// bottom strip.
    pub open spec fn strip_origin_y(&self, area: Rect) -> int {
        match self.horizontal_position.position {
            HorizontalPosition::Top => area.y as int,
            HorizontalPosition::Bottom => sat_sub(area.bottom_spec(), self.strip_height_spec()),
        }
    }

    /// Left column of a vertical rail in `area`: the area's left, or the last columns for a
    /// right rail.
    pub open spec fn rail_origin_x(&self, area: Rect) -> int {
        match self.vertical_position.position {
            VerticalPosition::Left => area.x as int,
            VerticalPosition::Right => sat_sub(area.right_spec(), self.rail_in(area)),
        }
    }

    /// The rectangle of a visible tab in `area`.
    pub open spec fn entry_rect(&self, area: Rect, e: TabEntry) -> Rect {
        match self.orientation {
            TabOrientation::Horizontal => Rect {
                x: e.offset,
                y: self.strip_origin_y(area) as u16,
                width: e.size,
                height: self.strip_height_spec() as u16,
            },
            TabOrientation::Vertical => Rect {
                x: self.rail_origin_x(area) as u16,
                y: e.offset,
                width: self.rail_in(area) as u16,
                height: e.size,
            },
        }
    }

    /// The rectangles of the visible tabs in `area` for `scroll_offset`, in tab order;
    /// none when the layout is not computable.
    pub open spec fn rects_spec(&self, area: Rect, scroll_offset: usize) -> Seq<Rect> {
        if self.layout_ok(area) {
            self.viewport_model(area, scroll_offset).entries.map_values(
                |e: TabEntry| self.entry_rect(area, e),
            )
        } else {
            Seq::empty()
        }
    }

    /// Whether the layout is computable for `area`: every size fits in `u16` and the area
    /// is normalized.
    pub fn layout_fits(&self, area: Rect) -> (r: bool)
        ensures
            r == self.layout_ok(area),
    {
        sizes_fit(self) && area.x as u32 + area.width as u32 <= u16::MAX as u32 && area.y as u32
            + area.height as u32 <= u16::MAX as u32
    }

    /// Default width of tab `index` with the current padding (ignores explicit widths), or
    /// `None` when there is no such tab or the width does not fit in `u16`.
    pub fn auto_tab_width(&self, index: usize) -> (r: Option<u16>)
        ensures
            r is Some <==> index < self.tabs@.len() && self.width_ok(index as int),
            r matches Some(w) ==> w == self.auto_width(index as int),
    {
        if index >= self.tabs.len() {
            return None;
        }
        checked_auto_horizontal_tab_width(self.tabs[index], effective_padding(self), self.all_caps)
    }

    /// Default height of tab `index` with the current padding (ignores explicit heights),
    /// or `None` when there is no such tab or the height does not fit in `u16`.
    pub fn auto_tab_height(&self, index: usize) -> (r: Option<u16>)
        ensures
            r is Some <==> index < self.tabs@.len() && self.height_ok(index as int),
            r matches Some(h) ==> h == self.auto_height(index as int),
    {
        if index >= self.tabs.len() {
            return None;
        }
        checked_auto_vertical_tab_height(self.tabs[index], effective_padding(self))
    }

    /// Minimum height for a horizontal tab strip with the current padding.
    pub fn horizontal_strip_height(&self) -> (h: u16)
        requires
            self.strip_height_spec() <= u16::MAX,
        ensures
            h == self.strip_height_spec(),
    {
        horizontal_strip_height(self)
    }

    /// Width of the vertical tab rail (widest tab) with the current padding.
    pub fn vertical_rail_width(&self) -> (w: u16)
        requires
            self.all_widths_ok(),
        ensures
            w == self.rail_width_spec(),
    {
        vertical_rail_width(self)
    }

    /// Width of the vertical tab rail, or `None` when some tab's default width does not
    /// fit in `u16`.
    pub fn checked_vertical_rail_width(&self) -> (r: Option<u16>)
        ensures
            r is Some <==> self.all_widths_ok(),
            r matches Some(w) ==> w == self.rail_width_spec(),
    {
        let pad = effective_padding(self);
        if 2 + pad.left as u32 + pad.right as u32 > u16::MAX as u32 {
            return None;
        }
        let mut i: usize = 0;
        while i < self.tabs.len()
            invariant
                i <= self.tabs@.len(),
                pad == self.padding_spec(),
                2 * TAB_BORDER + pad.left + pad.right <= u16::MAX,
                forall|j: int| 0 <= j < i ==> #[trigger] self.width_ok(j),
            decreases self.tabs@.len() - i,
        {
            if checked_auto_horizontal_tab_width(self.tabs[i], pad, self.all_caps).is_none() {
                assert(!self.width_ok(i as int));
                return None;
            }
            i += 1;
        }
        Some(vertical_rail_width(self))
    }

    /// Layout rectangle for each visible tab (same geometry as rendering), in tab order.
    /// Empty when `area` is too small, there are no tabs, or the layout is not computable.
    pub fn tab_rects(&self, area: Rect) -> (r: Vec<Rect>)
        ensures
            r@ == self.rects_spec(area, self.scroll_offset),
    {
        self.tab_rects_with_scroll(area, self.scroll_offset)
    }

    /// Like [`TabNav::tab_rects`] but with an explicit scroll offset.
    pub fn tab_rects_with_scroll(&self, area: Rect, scroll_offset: usize) -> (r: Vec<Rect>)
        ensures
            r@ == self.rects_spec(area, scroll_offset),
    {
        if !self.layout_fits(area) {
            return Vec::new();
        }
        let viewport = compute_viewport(self, area, scroll_offset);
        let ghost entries = viewport.entries@;
        proof {
            if entries.len() > 0 {
                assert(self.flow_bounds_spec(area) is Some);
            }
        }
        let mut rects: Vec<Rect> = Vec::new();
        let mut i: usize = 0;
        while i < viewport.entries.len()
            invariant
                i <= entries.len(),
                entries == viewport.entries@,
                self.layout_ok(area),
                entries == self.viewport_model(area, scroll_offset).entries,
                entries.len() > 0 ==> self.strip_fits(area),
                rects@ == entries.take(i as int).map_values(
                    |e: TabEntry| self.entry_rect(area, e),
                ),
            decreases entries.len() - i,
        {
            match tab_entry_rect(self, area, &viewport.entries[i]) {
                Some(rect) => rects.push(rect),
                None => {},
            }
            i += 1;
            assert(rects@ =~= entries.take(i as int).map_values(
                |e: TabEntry| self.entry_rect(area, e),
            ));
        }
        assert(entries.take(entries.len() as int) =~= entries);
        rects
    }

    /// Index of the visible tab under `(mouse_column, mouse_row)` in `area`, if any.
    pub open spec fn hit_index(
        &self,
        area: Rect,
        scroll_offset: usize,
        mouse_column: u16,
        mouse_row: u16,
    ) -> Option<usize> {
        first_hit(
            self.rects_spec(area, scroll_offset),
            self.viewport_model(area, scroll_offset).entries,
            mouse_column as int,
            mouse_row as int,
            0,
        )
    }

    /// Index of the visible tab under `(mouse_column, mouse_row)` in `area`, if any: the
    /// first visible tab whose rectangle holds the cell.
    pub fn tab_index_at(&self, area: Rect, scroll_offset: usize, mouse_column: u16, mouse_row: u16) -> (r:
        Option<usize>)
        ensures
            r == self.hit_index(area, scroll_offset, mouse_column, mouse_row),
    {
        if !self.layout_fits(area) {
            return None;
        }
        let viewport = compute_viewport(self, area, scroll_offset);
        let ghost entries = viewport.entries@;
        proof {
            if entries.len() > 0 {
                assert(self.flow_bounds_spec(area) is Some);
            }
        }
        let ghost rects = self.rects_spec(area, scroll_offset);
        let mut i: usize = 0;
        while i < viewport.entries.len()
            invariant
                i <= entries.len(),
                entries == viewport.entries@,
                self.layout_ok(area),
                entries == self.viewport_model(area, scroll_offset).entries,
                entries.len() > 0 ==> self.strip_fits(area),
                rects == self.rects_spec(area, scroll_offset),
                rects.len() == entries.len(),
                first_hit(rects, entries, mouse_column as int, mouse_row as int, 0) == first_hit(
                    rects,
                    entries,
                    mouse_column as int,
                    mouse_row as int,
                    i as int,
                ),
            decreases entries.len() - i,
        {
            if let Some(rect) = tab_entry_rect(self, area, &viewport.entries[i]) {
                assert(rect == rects[i as int]);
                if rect.contains(mouse_column, mouse_row) {
                    return Some(viewport.entries[i].index);
                }
            }
            i += 1;
        }
        None
    }

    /// Whether the pointer is over the strip area or over a visible tab.
    pub fn wheel_hover(&self, strip_area: Rect, scroll_offset: usize, mouse_column: u16, mouse_row: u16) -> (r:
        bool)
        ensures
            r == (strip_area.holds(mouse_column as int, mouse_row as int) || self.hit_index(
                strip_area,
                scroll_offset,
                mouse_column,
                mouse_row,
            ) is Some),
    {
        if strip_area.contains(mouse_column, mouse_row) {
            return true;
        }
        self.tab_index_at(strip_area, scroll_offset, mouse_column, mouse_row).is_some()
    }
}

/// The index of the first entry from `j` on whose rectangle holds `(col, row)`.
pub open spec fn first_hit(
    rects: Seq<Rect>,
    entries: Seq<TabEntry>,
    col: int,
    row: int,
    j: int,
) -> Option<usize>
    decreases rects.len() - j,
{
    if j < 0 || j >= rects.len() {
        None
    } else if rects[j].holds(col, row) {
        Some(entries[j].index)
    } else {
        first_hit(rects, entries, col, row, j + 1)
    }
}

/// The first label cell of a tab whose top-left border cell is `(left, top)`: inside the
/// border, after the left and top padding.
pub fn label_origin(left: u16, top: u16, pad: TabPadding) -> (r: (u16, u16))
    requires
        left + TAB_BORDER + pad.left <= u16::MAX,
        top + TAB_BORDER + pad.top <= u16::MAX,
    ensures
        r.0 == left + TAB_BORDER + pad.left,
        r.1 == top + TAB_BORDER + pad.top,
{
    (left + TAB_BORDER + pad.left, top + TAB_BORDER + pad.top)
}

/// Top row of a horizontal strip in `area`.
pub fn horizontal_strip_origin_y(nav: &TabNav, area: Rect) -> (y: u16)
    requires
        nav.strip_height_spec() <= u16::MAX,
    ensures
        y == nav.strip_origin_y(area),
{
    let strip_height = horizontal_strip_height(nav);
    match nav.horizontal_position.position {
        HorizontalPosition::Top => area.y,
        HorizontalPosition::Bottom => area.bottom().saturating_sub(strip_height),
    }
}

/// Left column of a vertical rail in `area`.
pub fn vertical_rail_origin_x(nav: &TabNav, area: Rect) -> (x: u16)
    requires
        nav.all_widths_ok(),
    ensures
        x == nav.rail_origin_x(area),
{
    let rail = vertical_rail_width(nav);
    let rail_width = if rail <= area.width {
        rail
    } else {
        area.width
    };
    match nav.vertical_position.position {
        VerticalPosition::Left => area.x,
        VerticalPosition::Right => area.right().saturating_sub(rail_width),
    }
}

/// Layout rectangle for one visible tab (the same geometry as [`TabNav::tab_rects`]), or
/// `None` when `area` is too small for the strip (horizontal) or rail (vertical).
pub fn tab_entry_rect(nav: &TabNav, area: Rect, entry: &TabEntry) -> (r: Option<Rect>)
    requires
        nav.sizes_ok(),
    ensures
        r == (if nav.strip_fits(area) {
            Some(nav.entry_rect(area, *entry))
        } else {
            None
        }),
{
    let margin = effective_margin(nav);
    match nav.orientation {
        TabOrientation::Horizontal => {
            let strip_height = horizontal_strip_height(nav);
            if area.height < strip_height || area.width <= margin.start + margin.end {
                return None;
            }
            Some(
                Rect {
                    x: entry.offset,
                    y: horizontal_strip_origin_y(nav, area),
                    width: entry.size,
                    height: strip_height,
                },
            )
        },
        TabOrientation::Vertical => {
            let rail = vertical_rail_width(nav);
            let rail_width = if rail <= area.width {
                rail
            } else {
                area.width
            };
            let pad = effective_padding(nav);
            if rail_width < TAB_BORDER * 2 + pad.left + pad.right || area.height <= margin.start
                + margin.end {
                return None;
            }
            Some(
                Rect {
                    x: vertical_rail_origin_x(nav, area),
                    y: entry.offset,
                    width: rail_width,
                    height: entry.size,
                },
            )
        },
    }
}

} // verus!



