//! The tab strip widget configuration and its builder.

use vstd::prelude::*;

use crate::config::{
    HorizontalPosition, HorizontalPositionConfig, OverflowPolicy, TabBarAlign, TabBarEnd,
    TabMargin, TabOrientation, TabPadding, TabReorderPolicy, VerticalPosition,
    VerticalPositionConfig,
};
use crate::style::{BorderSet, Style};
use crate::tab_border;

verus! {

/// Symbol shown beside the active tab label by default in horizontal strips.
pub const DEFAULT_INDICATOR: &'static str = "▸";

/// Width of a tab border line, in cells.
pub const TAB_BORDER: u16 = 1;

/// Tab navigation rendered as individually bordered boxes.
///
/// Adjacent tabs sit flush (no gap). The active tab opens into the adjacent content;
/// inactive tabs use junctions so the baseline stays continuous.
///
/// Default horizontal tab width is `2 + padding.left + label_display_width +
/// padding.right`; default vertical tab height is `2 + padding.top + label_line_count +
/// padding.bottom`. Per-tab sizes may be overridden with [`TabNav::tab_widths`] or
/// [`TabNav::tab_heights`].
pub struct TabNav<'a> {
    /// Tab labels, one per tab (`'\n'` for stacked lines).
    pub tabs: &'a [&'a str],
    /// Index of the active tab for stateless rendering.
    pub selected: usize,
    pub orientation: TabOrientation,
    pub margin: Option<TabMargin>,
    pub padding: Option<TabPadding>,
    pub tab_bar_end: Option<TabBarEnd>,
    pub tab_bar_align: TabBarAlign,
    pub horizontal_position: HorizontalPositionConfig,
    pub vertical_position: VerticalPositionConfig,
    pub all_caps: bool,
    pub style: Style,
    pub highlight_style: Style,
    pub highlight_bold: bool,
    pub border_style: Style,
    pub indicator: Option<&'a str>,
    pub indicator_explicit: bool,
    pub border_set: BorderSet<'a>,
    pub tab_sizes: Option<&'a [u16]>,
    pub overflow: OverflowPolicy,
    pub scroll_offset: usize,
    pub overflow_affordance: bool,
    pub mouse_wheel: bool,
    pub mouse_click: bool,
    pub reorder_policy: TabReorderPolicy,
    pub tab_pinned: Option<&'a [bool]>,
    pub mouse_reorder: bool,
    pub reorder_drag_style: Option<Style>,
    pub selection_flash_enabled: bool,
    pub selection_flash_style: Option<Style>,
}

impl<'a> TabNav<'a> {
    /// Creates a new `TabNav` with the given tab labels and selected index: a horizontal
    /// strip at the top, rounded borders, truncating overflow with edge affordances,
    /// wheel and click selection enabled, no reordering.
    pub fn new(tabs: &'a [&'a str], selected: usize) -> (n: Self)
        ensures
            n.tabs@ == tabs@,
            n.selected == selected,
            n.orientation == TabOrientation::Horizontal,
            n.margin == None::<TabMargin>,
            n.padding == None::<TabPadding>,
            n.tab_bar_end == None::<TabBarEnd>,
            n.tab_bar_align == TabBarAlign::Start,
            n.horizontal_position == (HorizontalPositionConfig {
                position: HorizontalPosition::Top,
                max_visible: None,
            }),
            n.vertical_position == (VerticalPositionConfig {
                position: VerticalPosition::Left,
                max_visible: None,
            }),
            !n.all_caps,
            n.style == (Style { fg: None, bg: None, add_modifier: 0, sub_modifier: 0 }),
            n.highlight_style == (Style { fg: None, bg: None, add_modifier: 0, sub_modifier: 0 }),
            n.border_style == (Style { fg: None, bg: None, add_modifier: 0, sub_modifier: 0 }),
            n.highlight_bold,
            n.indicator == Some(DEFAULT_INDICATOR),
            !n.indicator_explicit,
            n.border_set.top_left@ == seq!['╭'],
            n.border_set.top_right@ == seq!['╮'],
            n.border_set.bottom_left@ == seq!['╰'],
            n.border_set.bottom_right@ == seq!['╯'],
            n.border_set.vertical_left@ == seq!['│'],
            n.border_set.vertical_right@ == seq!['│'],
            n.border_set.horizontal_top@ == seq!['─'],
            n.border_set.horizontal_bottom@ == seq!['─'],
            n.tab_sizes == None::<&[u16]>,
            n.overflow == OverflowPolicy::Truncate,
            n.scroll_offset == 0,
            n.overflow_affordance,
            n.mouse_wheel,
            n.mouse_click,
            n.reorder_policy == TabReorderPolicy::AllPinned,
            n.tab_pinned == None::<&[bool]>,
            !n.mouse_reorder,
            n.reorder_drag_style == None::<Style>,
            n.selection_flash_enabled,
            n.selection_flash_style == None::<Style>,
    {
        TabNav {
            tabs,
            selected,
            orientation: TabOrientation::Horizontal,
            margin: None,
            padding: None,
            tab_bar_end: None,
            tab_bar_align: TabBarAlign::Start,
            horizontal_position: HorizontalPositionConfig::new(HorizontalPosition::Top),
            vertical_position: VerticalPositionConfig::new(VerticalPosition::Left),
            all_caps: false,
            style: Style::new(),
            highlight_style: Style::new(),
            highlight_bold: true,
            border_style: Style::new(),
            indicator: Some(DEFAULT_INDICATOR),
            indicator_explicit: false,
            border_set: tab_border::rnd(),
            tab_sizes: None,
            overflow: OverflowPolicy::Truncate,
            scroll_offset: 0,
            overflow_affordance: true,
            mouse_wheel: true,
            mouse_click: true,
            reorder_policy: TabReorderPolicy::AllPinned,
            tab_pinned: None,
            mouse_reorder: false,
            reorder_drag_style: None,
            selection_flash_enabled: true,
            selection_flash_style: None,
        }
    }

    /// Horizontal strip beside content, or vertical rail.
    pub fn orientation(self, orientation: TabOrientation) -> (n: Self)
        ensures
            n == (TabNav { orientation, ..self }),
    {
        TabNav { orientation, ..self }
    }

    /// Strip inset along the flow axis.
    pub fn margin(self, margin: TabMargin) -> (n: Self)
        ensures
            n == (TabNav { margin: Some(margin), ..self }),
    {
        TabNav { margin: Some(margin), ..self }
    }

    /// Interior spacing inside each tab box.
    pub fn padding(self, padding: TabPadding) -> (n: Self)
        ensures
            n == (TabNav { padding: Some(padding), ..self }),
    {
        TabNav { padding: Some(padding), ..self }
    }

    /// Baseline end-cap style. Default: [`TabBarEnd::NoEnd`].
    pub fn tab_bar_end(self, end: TabBarEnd) -> (n: Self)
        ensures
            n == (TabNav { tab_bar_end: Some(end), ..self }),
    {
        TabNav { tab_bar_end: Some(end), ..self }
    }

    /// Alignment of the tab group within the strip. Default: [`TabBarAlign::Start`].
    pub fn tab_bar_align(self, align: TabBarAlign) -> (n: Self)
        ensures
            n == (TabNav { tab_bar_align: align, ..self }),
    {
        TabNav { tab_bar_align: align, ..self }
    }

    /// Horizontal strip edge (top or bottom), with an optional cap on visible tabs.
    pub fn horizontal_position<P>(self, position: P) -> (n: Self) where
        HorizontalPositionConfig: From<P>,

        ensures
            n == (TabNav { horizontal_position: n.horizontal_position, ..self }),
            call_ensures(HorizontalPositionConfig::from, (position,), n.horizontal_position),
    {
        TabNav { horizontal_position: HorizontalPositionConfig::from(position), ..self }
    }

    /// Vertical rail edge (left or right), with an optional cap on visible tabs.
    pub fn vertical_position<P>(self, position: P) -> (n: Self) where
        VerticalPositionConfig: From<P>,

        ensures
            n == (TabNav { vertical_position: n.vertical_position, ..self }),
            call_ensures(VerticalPositionConfig::from, (position,), n.vertical_position),
    {
        TabNav { vertical_position: VerticalPositionConfig::from(position), ..self }
    }

    /// Horizontal strip edge and visible-tab cap, given as a whole configuration (such as
    /// `HorizontalPosition::Top.max(5)`).
    pub fn horizontal_position_config(self, config: HorizontalPositionConfig) -> (n: Self)
        ensures
            n == (TabNav { horizontal_position: config, ..self }),
    {
        TabNav { horizontal_position: config, ..self }
    }

    /// Vertical rail edge and visible-tab cap, given as a whole configuration (such as
    /// `VerticalPosition::Left.max(5)`).
    pub fn vertical_position_config(self, config: VerticalPositionConfig) -> (n: Self)
        ensures
            n == (TabNav { vertical_position: config, ..self }),
    {
        TabNav { vertical_position: config, ..self }
    }

    /// Render tab labels in uppercase. Default: `false`.
    pub fn all_caps(self, all_caps: bool) -> (n: Self)
        ensures
            n == (TabNav { all_caps, ..self }),
    {
        TabNav { all_caps, ..self }
    }

    /// Style for inactive tab labels.
    pub fn style(self, style: Style) -> (n: Self)
        ensures
            n == (TabNav { style, ..self }),
    {
        TabNav { style, ..self }
    }

    /// Style for the active tab label.
    pub fn highlight_style(self, style: Style) -> (n: Self)
        ensures
            n == (TabNav { highlight_style: style, ..self }),
    {
        TabNav { highlight_style: style, ..self }
    }

    /// Whether to add bold to the active tab label. Default: `true`.
    pub fn highlight_bold(self, bold: bool) -> (n: Self)
        ensures
            n == (TabNav { highlight_bold: bold, ..self }),
    {
        TabNav { highlight_bold: bold, ..self }
    }

    /// Style for borders and the baseline.
    pub fn border_style(self, style: Style) -> (n: Self)
        ensures
            n == (TabNav { border_style: style, ..self }),
    {
        TabNav { border_style: style, ..self }
    }

    /// Symbol shown beside the active tab label (`None` for none).
    pub fn indicator(self, indicator: Option<&'a str>) -> (n: Self)
        ensures
            n == (TabNav { indicator, indicator_explicit: true, ..self }),
    {
        TabNav { indicator, indicator_explicit: true, ..self }
    }

    /// Border glyph set. Default: [`tab_border::rnd`].
    pub fn border_set(self, set: BorderSet<'a>) -> (n: Self)
        ensures
            n == (TabNav { border_set: set, ..self }),
    {
        TabNav { border_set: set, ..self }
    }

    /// Override horizontal tab widths (columns). Missing entries fall back to auto width.
    pub fn tab_widths(self, widths: &'a [u16]) -> (n: Self)
        ensures
            n == (TabNav { tab_sizes: Some(widths), ..self }),
    {
        TabNav { tab_sizes: Some(widths), ..self }
    }

    /// Override vertical tab heights (rows). Missing entries fall back to auto height.
    pub fn tab_heights(self, heights: &'a [u16]) -> (n: Self)
        ensures
            n == (TabNav { tab_sizes: Some(heights), ..self }),
    {
        TabNav { tab_sizes: Some(heights), ..self }
    }

    /// Overflow behaviour when tabs exceed strip space. Default: [`OverflowPolicy::Truncate`].
    pub fn overflow(self, policy: OverflowPolicy) -> (n: Self)
        ensures
            n == (TabNav { overflow: policy, ..self }),
    {
        TabNav { overflow: policy, ..self }
    }

    /// First visible tab index for stateless scroll rendering.
    pub fn scroll_offset(self, offset: usize) -> (n: Self)
        ensures
            n == (TabNav { scroll_offset: offset, ..self }),
    {
        TabNav { scroll_offset: offset, ..self }
    }

    /// Mark clipped edges when tabs are hidden. Default: `true`.
    pub fn overflow_affordance(self, enabled: bool) -> (n: Self)
        ensures
            n == (TabNav { overflow_affordance: enabled, ..self }),
    {
        TabNav { overflow_affordance: enabled, ..self }
    }

    /// Allow mouse wheel tab switching while the pointer is over the strip. Default: `true`.
    pub fn mouse_wheel(self, enabled: bool) -> (n: Self)
        ensures
            n == (TabNav { mouse_wheel: enabled, ..self }),
    {
        TabNav { mouse_wheel: enabled, ..self }
    }

    /// Allow click selection of visible tabs. Default: `true`.
    pub fn mouse_click(self, enabled: bool) -> (n: Self)
        ensures
            n == (TabNav { mouse_click: enabled, ..self }),
    {
        TabNav { mouse_click: enabled, ..self }
    }

    /// Drag reorder policy. Default: [`TabReorderPolicy::AllPinned`].
    pub fn reorder_policy(self, policy: TabReorderPolicy) -> (n: Self)
        ensures
            n == (TabNav { reorder_policy: policy, ..self }),
    {
        TabNav { reorder_policy: policy, ..self }
    }

    /// Per-tab pin flags for [`TabReorderPolicy::SomePinned`].
    pub fn tab_pinned(self, pinned: &'a [bool]) -> (n: Self)
        ensures
            n == (TabNav { tab_pinned: Some(pinned), ..self }),
    {
        TabNav { tab_pinned: Some(pinned), ..self }
    }

    /// Enable drag reordering with the mouse. Default: `false`.
    pub fn mouse_reorder(self, enabled: bool) -> (n: Self)
        ensures
            n == (TabNav { mouse_reorder: enabled, ..self }),
    {
        TabNav { mouse_reorder: enabled, ..self }
    }

    /// Label and border style of the tab being dragged (default: foreground indexed 46).
    pub fn reorder_drag_style(self, style: Style) -> (n: Self)
        ensures
            n == (TabNav { reorder_drag_style: Some(style), ..self }),
    {
        TabNav { reorder_drag_style: Some(style), ..self }
    }

    /// Whether a selection change flashes the new tab's border. Default: `true`.
    pub fn selection_flash(self, enabled: bool) -> (n: Self)
        ensures
            n == (TabNav { selection_flash_enabled: enabled, ..self }),
    {
        TabNav { selection_flash_enabled: enabled, ..self }
    }

    /// Border style of the selection flash (default: foreground indexed 46).
    pub fn selection_flash_style(self, style: Style) -> (n: Self)
        ensures
            n == (TabNav { selection_flash_style: Some(style), ..self }),
    {
        TabNav { selection_flash_style: Some(style), ..self }
    }

    /// Whether mouse wheel tab switching is enabled for this widget.
    pub fn mouse_wheel_enabled(&self) -> (r: bool)
        ensures
            r == self.mouse_wheel,
    {
        self.mouse_wheel
    }

    /// Whether drag reordering is enabled: mouse reordering is on and some tab may move.
    pub open spec fn reorder_on(&self) -> bool {
        self.mouse_reorder && self.reorder_policy != TabReorderPolicy::AllPinned
    }

    /// Whether drag reordering is enabled: mouse reordering is on and some tab may move.
    pub fn reorder_enabled(&self) -> (r: bool)
        ensures
            r == self.reorder_on(),
    {
        self.mouse_reorder && self.reorder_policy != TabReorderPolicy::AllPinned
    }

    /// The number of tabs.
    pub fn tab_count(&self) -> (r: usize)
        ensures
            r == self.tabs@.len(),
    {
        self.tabs.len()
    }
}

} // verus!
