//! Configuration values for the tab strip: margins, padding, orientation, placement,
//! overflow behaviour and navigation directions.

use vstd::prelude::*;

verus! {

/// Inset for the tab strip within its render area.
///
/// Values are applied along the strip's flow axis (the axis tabs advance on):
/// horizontal tabs use `start` = left and `end` = right (columns); vertical tabs use
/// `start` = top and `end` = bottom (rows).
#[derive(Clone, Copy, Debug, PartialEq, Eq, Structural)]
pub struct TabMargin {
    pub start: u16,
    pub end: u16,
}

impl TabMargin {
    /// No inset: `margin: 0 0`.
    pub fn zero() -> (m: Self)
        ensures
            m.start == 0 && m.end == 0,
    {
        TabMargin { start: 0, end: 0 }
    }

    /// Horizontal strip inset: `margin: <left> <right>` (columns).
    pub fn horizontal(left: u16, right: u16) -> (m: Self)
        ensures
            m.start == left && m.end == right,
    {
        TabMargin { start: left, end: right }
    }

    /// Vertical strip inset: `margin: <top> <bottom>` (rows).
    pub fn vertical(top: u16, bottom: u16) -> (m: Self)
        ensures
            m.start == top && m.end == bottom,
    {
        TabMargin { start: top, end: bottom }
    }

    /// Default vertical inset: `margin: 0 0` (same as [`TabMargin::zero`]).
    pub fn vertical_default() -> (m: Self)
        ensures
            m.start == 0 && m.end == 0,
    {
        Self::zero()
    }
}

/// Whether tabs in the strip may be reordered by drag-and-drop.
#[derive(Clone, Copy, Debug, Default, PartialEq, Eq, Structural)]
pub enum TabReorderPolicy {
    /// Fixed order (default): no drag reordering.
    #[default]
    AllPinned,
    /// Every tab may be dragged to another slot.
    NonePinned,
    /// Per-tab pin mask: `true` tabs stay fixed; others may move.
    SomePinned,
}

/// End-cap style for the tab strip baseline.
#[derive(Clone, Copy, Debug, Default, PartialEq, Eq, Structural)]
pub enum TabBarEnd {
    /// Continuous baseline with no corner caps.
    #[default]
    NoEnd,
    /// Square end caps.
    Sqr,
    /// Rounded end caps.
    Rnd,
}

/// Interior spacing inside each tab box: `padding: top bottom left right`, where
/// top/bottom are rows and left/right are columns.
#[derive(Clone, Copy, Debug, PartialEq, Eq, Structural)]
pub struct TabPadding {
    pub top: u16,
    pub bottom: u16,
    pub left: u16,
    pub right: u16,
}

impl TabPadding {
    /// `padding: top bottom left right`.
    pub fn new(top: u16, bottom: u16, left: u16, right: u16) -> (p: Self)
        ensures
            p.top == top && p.bottom == bottom && p.left == left && p.right == right,
    {
        TabPadding { top, bottom, left, right }
    }

    /// Horizontal default: `padding: 0 0 3 3`.
    pub fn horizontal_default() -> (p: Self)
        ensures
            p.top == 0 && p.bottom == 0 && p.left == 3 && p.right == 3,
    {
        Self::new(0, 0, 3, 3)
    }

    /// Vertical default: `padding: 1 1 1 1`.
    pub fn vertical_default() -> (p: Self)
        ensures
            p.top == 1 && p.bottom == 1 && p.left == 1 && p.right == 1,
    {
        Self::new(1, 1, 1, 1)
    }

    /// Equal padding on all sides.
    pub fn uniform(value: u16) -> (p: Self)
        ensures
            p.top == value && p.bottom == value && p.left == value && p.right == value,
    {
        Self::new(value, value, value, value)
    }

    /// Two-value padding: `padding: <vertical> <horizontal>` (top/bottom, then left/right).
    pub fn axes(vertical: u16, horizontal: u16) -> (p: Self)
        ensures
            p.top == vertical && p.bottom == vertical && p.left == horizontal && p.right
                == horizontal,
    {
        Self::new(vertical, vertical, horizontal, horizontal)
    }
}

/// Tab strip layout orientation.
#[derive(Clone, Copy, Debug, Default, PartialEq, Eq, Structural)]
pub enum TabOrientation {
    /// Tabs in a row above content.
    #[default]
    Horizontal,
    /// Tabs in a column beside content.
    Vertical,
}

/// Horizontal strip placement relative to adjacent content.
#[derive(Clone, Copy, Debug, Default, PartialEq, Eq, Structural)]
pub enum HorizontalPosition {
    /// Strip along the top edge; active tab opens downward (default).
    #[default]
    Top,
    /// Strip along the bottom edge; active tab opens upward.
    Bottom,
}

/// Horizontal strip placement plus an optional cap on simultaneously visible tabs.
#[derive(Clone, Copy, Debug, Default, PartialEq, Eq, Structural)]
pub struct HorizontalPositionConfig {
    /// Strip edge and open direction.
    pub position: HorizontalPosition,
    /// When set, at most this many tabs are visible; additional tabs require scrolling.
    pub max_visible: Option<usize>,
}

impl HorizontalPosition {
    /// Caps the visible tab window to `max` tabs (scroll mode semantics).
    pub fn max(self, max: usize) -> (c: HorizontalPositionConfig)
        ensures
            c.position == self && c.max_visible == Some(max),
    {
        HorizontalPositionConfig { position: self, max_visible: Some(max) }
    }
}

impl HorizontalPositionConfig {
    /// Strip edge without an explicit cap.
    pub fn new(position: HorizontalPosition) -> (c: Self)
        ensures
            c.position == position && c.max_visible == None::<usize>,
    {
        HorizontalPositionConfig { position, max_visible: None }
    }

    /// Returns the strip edge.
    pub fn position(self) -> (p: HorizontalPosition)
        ensures
            p == self.position,
    {
        self.position
    }

    /// Returns the configured visible-tab cap, if any.
    pub fn max_visible(self) -> (m: Option<usize>)
        ensures
            m == self.max_visible,
    {
        self.max_visible
    }
}

impl From<HorizontalPosition> for HorizontalPositionConfig {
    fn from(position: HorizontalPosition) -> (c: Self) {
        HorizontalPositionConfig { position, max_visible: None }
    }
}

impl vstd::std_specs::convert::FromSpecImpl<HorizontalPosition> for HorizontalPositionConfig {
    open spec fn obeys_from_spec() -> bool {
        true
    }

    open spec fn from_spec(position: HorizontalPosition) -> Self {
        HorizontalPositionConfig { position, max_visible: None }
    }
}

/// Tab strip alignment within its allocated flow axis.
#[derive(Clone, Copy, Debug, Default, PartialEq, Eq, Structural)]
pub enum TabBarAlign {
    /// Leading edge of the flow axis (left / top).
    #[default]
    Start,
    /// Centred when the strip is narrower than the allocated area.
    Center,
    /// Trailing edge of the flow axis (right / bottom).
    End,
}

/// Vertical rail placement relative to adjacent content.
#[derive(Clone, Copy, Debug, Default, PartialEq, Eq, Structural)]
pub enum VerticalPosition {
    /// Rail along the left edge; active tab opens right (default).
    #[default]
    Left,
    /// Rail along the right edge; active tab opens left.
    Right,
}

/// Vertical rail placement plus an optional cap on simultaneously visible tabs.
#[derive(Clone, Copy, Debug, Default, PartialEq, Eq, Structural)]
pub struct VerticalPositionConfig {
    /// Rail edge and open direction.
    pub position: VerticalPosition,
    /// When set, at most this many tabs are visible; additional tabs require scrolling.
    pub max_visible: Option<usize>,
}

impl VerticalPosition {
    /// Caps the visible tab window to `max` tabs (scroll mode semantics).
    pub fn max(self, max: usize) -> (c: VerticalPositionConfig)
        ensures
            c.position == self && c.max_visible == Some(max),
    {
        VerticalPositionConfig { position: self, max_visible: Some(max) }
    }
}

impl VerticalPositionConfig {
    /// Rail edge without an explicit cap.
    pub fn new(position: VerticalPosition) -> (c: Self)
        ensures
            c.position == position && c.max_visible == None::<usize>,
    {
        VerticalPositionConfig { position, max_visible: None }
    }

    /// Returns the rail edge.
    pub fn position(self) -> (p: VerticalPosition)
        ensures
            p == self.position,
    {
        self.position
    }

    /// Returns the configured visible-tab cap, if any.
    pub fn max_visible(self) -> (m: Option<usize>)
        ensures
            m == self.max_visible,
    {
        self.max_visible
    }
}

impl From<VerticalPosition> for VerticalPositionConfig {
    fn from(position: VerticalPosition) -> (c: Self) {
        VerticalPositionConfig { position, max_visible: None }
    }
}

impl vstd::std_specs::convert::FromSpecImpl<VerticalPosition> for VerticalPositionConfig {
    open spec fn obeys_from_spec() -> bool {
        true
    }

    open spec fn from_spec(position: VerticalPosition) -> Self {
        VerticalPositionConfig { position, max_visible: None }
    }
}

/// Behaviour when tabs exceed available strip space.
#[derive(Clone, Copy, Debug, Default, PartialEq, Eq, Structural)]
pub enum OverflowPolicy {
    /// Show tabs from the start until space runs out. Hidden tabs are omitted.
    Truncate,
    /// Render a sliding window whose first visible tab is the scroll offset.
    #[default]
    Scroll,
}

/// Primary-axis navigation step for keyboard or mouse wheel handlers.
#[derive(Clone, Copy, Debug, PartialEq, Eq, Structural)]
pub enum TabDirection {
    /// Previous tab (left in horizontal mode, up in vertical mode).
    Previous,
    /// Next tab (right in horizontal mode, down in vertical mode).
    Next,
}

/// Physical axis input mapped to [`TabDirection`] by orientation.
#[derive(Clone, Copy, Debug, PartialEq, Eq, Structural)]
pub enum TabAxis {
    /// Left arrow / `h` (horizontal) or up arrow / `k` (vertical).
    Decrease,
    /// Right arrow / `l` (horizontal) or down arrow / `j` (vertical).
    Increase,
}

impl TabAxis {
    /// Maps a decrease/increase axis to previous/next tab selection.
    pub fn direction(self) -> (d: TabDirection)
        ensures
            d == (match self {
                TabAxis::Decrease => TabDirection::Previous,
                TabAxis::Increase => TabDirection::Next,
            }),
    {
        match self {
            TabAxis::Decrease => TabDirection::Previous,
            TabAxis::Increase => TabDirection::Next,
        }
    }
}

/// Mouse wheel step for wheel handling.
#[derive(Clone, Copy, Debug, PartialEq, Eq, Structural)]
pub enum TabWheelDirection {
    /// Scroll wheel toward the user / up (previous tab).
    Up,
    /// Scroll wheel away from the user / down (next tab).
    Down,
}

/// The navigation step that a wheel direction stands for.
pub open spec fn wheel_tab_direction(w: TabWheelDirection) -> TabDirection {
    match w {
        TabWheelDirection::Up => TabDirection::Previous,
        TabWheelDirection::Down => TabDirection::Next,
    }
}

impl TabWheelDirection {
    /// Up selects the previous tab, down the next one.
    pub fn tab_direction(self) -> (d: TabDirection)
        ensures
            d == wheel_tab_direction(self),
    {
        match self {
            TabWheelDirection::Up => TabDirection::Previous,
            TabWheelDirection::Down => TabDirection::Next,
        }
    }

    /// Picks the scroll axis for tab switching.
    ///
    /// Horizontal strips prefer touchpad left/right (`horizontal`) then the vertical wheel;
    /// vertical strips prefer the vertical wheel then horizontal.
    pub fn from_axes(
        vertical: Option<Self>,
        horizontal: Option<Self>,
        orientation: TabOrientation,
    ) -> (r: Option<Self>)
        ensures
            r == (match orientation {
                TabOrientation::Horizontal => if horizontal is Some {
                    horizontal
                } else {
                    vertical
                },
                TabOrientation::Vertical => if vertical is Some {
                    vertical
                } else {
                    horizontal
                },
            }),
    {
        match orientation {
            TabOrientation::Horizontal => match horizontal {
                Some(h) => Some(h),
                None => vertical,
            },
            TabOrientation::Vertical => match vertical {
                Some(v) => Some(v),
                None => horizontal,
            },
        }
    }
}

} // verus!
