# ratatui_comfy_tabs

Tab navigation for terminal user interfaces: bordered tabs laid out as a horizontal
strip or a vertical rail, with margins and padding, overflow by truncation or a sliding
window, baseline end caps, selection state, mouse wheel, click and drag-to-reorder
handling, and a border-only selection flash.

The library in `src/` is verified with Verus. Its contracts describe the layout (which
tabs are visible and where), hit testing, selection and scroll state, reordering, and
the exact sequence of drawing operations that renders the strip onto a grid of cells.
Laws proved alongside include: visible tabs sit flush inside the strip, tab rectangles
stay inside the area, hit testing finds the tab under the pointer, everything drawn for
a tab lands in its rectangle, reordering keeps pinned tabs in place and the selection on
the moved tab, and keeping the selection visible picks the earliest window that shows it.

Layout:

| Path | Contents |
|------|----------|
| `src/config.rs` | margin, padding, orientation, position, alignment, overflow and direction types |
| `src/nav.rs` | the `TabNav` widget configuration and its builder |
| `src/text.rs` | label lines, display widths and stacked labels |
| `src/layout.rs` | tab sizes, the visible window, tab rectangles and hit testing |
| `src/state.rs` | `TabNavState`: selection, scroll, drag and selection flash |
| `src/input.rs` | keeping the selection visible; mouse wheel, click and drag handling |
| `src/reorder.rs` | reordering with pinned slots and remapping the selection |
| `src/render.rs` | cap and junction glyphs, tab styles, drawing primitives |
| `src/draw.rs` | the drawing operations for a whole strip and rendering onto a canvas |
| `src/placement.rs` | where the operations for each tab land |
| `src/canvas.rs`, `src/style.rs`, `src/geometry.rs`, `src/tab_border.rs` | cells, styles, rectangles and border glyph sets |
| `app/lib.rs` | ratatui `Widget` / `StatefulWidget` impls and conversions to and from ratatui types |
