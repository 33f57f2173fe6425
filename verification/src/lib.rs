//! Tab navigation for terminal user interfaces: bordered tabs laid out horizontally or
//! vertically, with overflow handling, alignment, selection state and drag reordering.

pub mod canvas;
pub mod config;
pub mod draw;
pub mod geometry;
pub mod input;
pub mod labels;
pub mod layout;
pub mod nav;
pub mod opening;
pub mod placement;
pub mod render;
pub mod reorder;
pub mod state;
pub mod style;
pub mod tab_border;
pub mod text;

pub use canvas::{Canvas, Cell, DrawOp, Glyph};
pub use config::{
    HorizontalPosition, HorizontalPositionConfig, OverflowPolicy, TabAxis, TabBarAlign, TabBarEnd,
    TabDirection, TabMargin, TabOrientation, TabPadding, TabReorderPolicy, TabWheelDirection,
    VerticalPosition, VerticalPositionConfig,
};
pub use draw::{effective_indicator, lit_tab_at};
pub use geometry::Rect;
pub use layout::{
    TabEntry, TabViewport, ViewportModel, align_shift, auto_horizontal_tab_width,
    auto_vertical_tab_height, checked_auto_horizontal_tab_width, checked_auto_vertical_tab_height,
    compute_viewport, effective_margin, effective_padding, effective_tab_bar_end, flow_bounds,
    horizontal_strip_height, horizontal_strip_origin_y, label_origin, sizes_fit,
    tab_entry_rect, tab_fits_before_end, uses_scroll_window, vertical_rail_origin_x,
    vertical_rail_width,
};
pub use nav::{DEFAULT_INDICATOR, TAB_BORDER, TabNav};
pub use render::{
    default_reorder_drag_style, default_selection_flash_style, horizontal_margin_trailing_cap,
    horizontal_start_tab_bar_end_caps, horizontal_tab_bar_end_caps,
    horizontal_tab_trailing_junction, is_reorder_drag_source, mirror_cap_for_vertical_rail,
    mirror_cap_horizontally, mirror_cap_vertically, tab_border_style, tab_text_style,
    vertical_margin_trailing_cap, vertical_tab_bar_junctions, vertical_tab_bar_margin_caps,
    vertical_tab_leading_junction, vertical_tab_trailing_junction,
};
pub use reorder::{
    TabReorder, can_drag_index, can_drop_at, is_pinned, movable_indices, remap_selected_index,
    remap_selected_index_with_pins, try_reorder,
};
pub use state::{
    SELECTION_FLASH_SEGMENT_MS, SELECTION_FLASH_TOTAL_MS, SelectionFlash, TabNavState,
    TabReorderDrag,
};
pub use style::{
    BorderSet, Color, MODIFIER_BOLD, MODIFIER_DIM, MODIFIER_ITALIC, MODIFIER_REVERSED,
    MODIFIER_UNDERLINED, Style,
};
pub use text::{
    char_display_width, label_char, label_display_width, label_line_count, vertical_label,
};
