//! State changes driven by the layout: scrolling the tab window, keeping the selection
//! visible, and mouse wheel, click and drag handling.

use vstd::prelude::*;

use crate::config::{TabDirection, TabWheelDirection, wheel_tab_direction};
use crate::geometry::Rect;
use crate::layout::{compute_viewport, lemma_forward_indices, uses_scroll_window};
use crate::nav::TabNav;
use crate::reorder::{
    TabReorder, can_drag_index, can_drop_at, draggable, droppable, pins_view, remap_selected_index,
    remapped,
};
use crate::state::{TabNavState, TabReorderDrag, stepped, wrapped, clamped};

verus! {

impl<'a> TabNav<'a> {
    /// Whether tab `index` is among the visible tabs for `scroll_offset` in `area`.
    pub open spec fn shows(&self, area: Rect, scroll_offset: usize, index: int) -> bool {
        exists|j: int|
            0 <= j < self.viewport_model(area, scroll_offset).entries.len() && (#[trigger] self.viewport_model(
                area,
                scroll_offset,
            ).entries[j]).index == index
    }

    /// The first scroll offset from `p` on that shows tab `index`, or the tab count when
    /// none before it does.
    pub open spec fn search_offset(&self, area: Rect, index: int, p: int) -> int
        decreases self.tabs@.len() - p,
    {
        if p < 0 || p >= self.tabs@.len() || self.shows(area, p as usize, index) {
            p
        } else {
            self.search_offset(area, index, p + 1)
        }
    }

    /// The scroll offset after making tab `selected` visible from offset `old`: unchanged
    /// when there is no window or the layout is not computable; otherwise the earliest
    /// offset whose window shows the tab, so that earlier tabs come back into view when
    /// there is room for them. When no window shows it: unchanged if it is visible, the
    /// tab itself when it lies before the window, otherwise the first later offset that
    /// shows it (or the tab count).
    pub open spec fn ensured_offset(&self, area: Rect, old: usize, selected: usize) -> int {
        if self.tabs@.len() == 0 || !self.windowed() || !self.layout_ok(area) {
            old as int
        } else if self.search_offset(area, selected as int, 0) < self.tabs@.len() {
            self.search_offset(area, selected as int, 0)
        } else if self.shows(area, old, selected as int) {
            old as int
        } else if selected < old {
            selected as int
        } else {
            self.search_offset(area, selected as int, old as int)
        }
    }
}

/// The search for an offset never moves back, and never passes the tab count when it
/// starts below it.
proof fn lemma_search_offset_range(nav: &TabNav, area: Rect, index: int, p: int)
    requires
        0 <= p,
    ensures
        nav.search_offset(area, index, p) >= p,
        p <= nav.tabs@.len() ==> nav.search_offset(area, index, p) <= nav.tabs@.len(),
    decreases nav.tabs@.len() - p,
{
    if p < nav.tabs@.len() && !nav.shows(area, p as usize, index) {
        lemma_search_offset_range(nav, area, index, p + 1);
    }
}

/// When a tab would be visible with the window starting at it, making it visible from
/// any offset succeeds: after `ensure_selected_visible` the selected tab is shown, by the
/// earliest window that shows it.
pub proof fn law_ensure_selected_visible_shows_selection(
    nav: &TabNav,
    area: Rect,
    old: usize,
    selected: usize,
)
    requires
        nav.windowed(),
        nav.layout_ok(area),
        nav.shows(area, selected, selected as int),
    ensures
        0 <= nav.ensured_offset(area, old, selected) <= selected,
        nav.shows(area, nav.ensured_offset(area, old, selected) as usize, selected as int),
        forall|q: int|
            0 <= q < nav.ensured_offset(area, old, selected) ==> !#[trigger] nav.shows(
                area,
                q as usize,
                selected as int,
            ),
{
    lemma_search_reaches(nav, area, selected, 0);
    lemma_search_skips(nav, area, selected as int, 0);
    let v = nav.viewport_model(area, selected);
    let j = choose|j: int| 0 <= j < v.entries.len() && (#[trigger] v.entries[j]).index == selected as int;
    assert(v.entries[j].index == selected);
    assert(selected < nav.tabs@.len()) by {
        lemma_viewport_indices(nav, area, selected);
    }
}

/// The search for an offset passes only over offsets that do not show the tab.
proof fn lemma_search_skips(nav: &TabNav, area: Rect, index: int, p: int)
    requires
        0 <= p,
    ensures
        forall|q: int|
            p <= q < nav.search_offset(area, index, p) ==> !#[trigger] nav.shows(
                area,
                q as usize,
                index,
            ),
    decreases nav.tabs@.len() - p,
{
    if p < nav.tabs@.len() && !nav.shows(area, p as usize, index) {
        lemma_search_skips(nav, area, index, p + 1);
        assert forall|q: int| p <= q < nav.search_offset(area, index, p) implies !#[trigger] nav.shows(
            area,
            q as usize,
            index,
        ) by {
            if q > p {
                assert(p + 1 <= q < nav.search_offset(area, index, p + 1));
            }
        }
    }
}

/// Searching from an offset at or before a tab that shows itself ends at an offset that
/// shows it.
proof fn lemma_search_reaches(nav: &TabNav, area: Rect, selected: usize, p: int)
    requires
        0 <= p <= selected,
        nav.shows(area, selected, selected as int),
    ensures
        p <= nav.search_offset(area, selected as int, p) <= selected,
        nav.shows(area, nav.search_offset(area, selected as int, p) as usize, selected as int),
    decreases selected - p,
{
    let v = nav.viewport_model(area, selected);
    let j = choose|j: int| 0 <= j < v.entries.len() && (#[trigger] v.entries[j]).index == selected as int;
    assert(v.entries[j].index == selected);
    assert(selected < nav.tabs@.len()) by {
        lemma_viewport_indices(nav, area, selected);
    }
    if !nav.shows(area, p as usize, selected as int) {
        assert(p != selected);
        lemma_search_reaches(nav, area, selected, p + 1);
    }
}

/// Visible tabs are existing tabs.
pub proof fn lemma_viewport_indices(nav: &TabNav, area: Rect, scroll_offset: usize)
    ensures
        forall|j: int|
            0 <= j < nav.viewport_model(area, scroll_offset).entries.len() ==> (#[trigger] nav.viewport_model(
                area,
                scroll_offset,
            ).entries[j]).index < nav.tabs@.len(),
{
    match nav.flow_bounds_spec(area) {
        None => {},
        Some((fs, fe)) => {
            let total = nav.tabs@.len();
            let first = nav.first_index(scroll_offset);
            let cs = nav.content_start(fs as int, scroll_offset);
            crate::layout::lemma_forward_indices(nav, first, cs, fe as int, nav.budget());
            crate::layout::lemma_backward_indices(nav, total as int, fe as int, fs as int);
        },
    }
}

/// Whether `index` is among the visible entries of `viewport`.
fn viewport_shows(entries: &Vec<crate::layout::TabEntry>, index: usize) -> (r: bool)
    ensures
        r == exists|j: int| 0 <= j < entries@.len() && (#[trigger] entries@[j]).index == index,
{
    let mut i: usize = 0;
    while i < entries.len()
        invariant
            i <= entries@.len(),
            forall|k: int| 0 <= k < i ==> (#[trigger] entries@[k]).index != index,
        decreases entries@.len() - i,
    {
        if entries[i].index == index {
            return true;
        }
        i += 1;
    }
    false
}

impl TabNavState {
    /// Scrolls the window one tab toward the end when more tabs are hidden after it.
    pub fn scroll_next(&mut self, nav: &TabNav, area: Rect)
        ensures
            final(self).scroll_offset == (if nav.windowed() && nav.layout_ok(area)
                && nav.viewport_model(area, old(self).scroll_offset).clipped_after {
                old(self).scroll_offset + 1
            } else {
                old(self).scroll_offset as int
            }),
            *final(self) == (TabNavState { scroll_offset: final(self).scroll_offset, ..*old(self) }),
    {
        if !uses_scroll_window(nav) || !nav.layout_fits(area) {
            return;
        }
        let viewport = compute_viewport(nav, area, self.scroll_offset);
        if viewport.clipped_after {
            proof {
                lemma_clipped_after_offset(nav, area, self.scroll_offset);
                assert(nav.tabs.len() == nav.tabs@.len());
            }
            self.scroll_offset += 1;
        }
    }

    /// Adjusts the scroll offset so that the selected tab is visible (window mode only).
    #[verifier::rlimit(30)]
    pub fn ensure_selected_visible(&mut self, nav: &TabNav, area: Rect)
        ensures
            final(self).scroll_offset == nav.ensured_offset(
                area,
                old(self).scroll_offset,
                old(self).selected,
            ),
            *final(self) == (TabNavState { scroll_offset: final(self).scroll_offset, ..*old(self) }),
    {
        if nav.tabs.len() == 0 || !uses_scroll_window(nav) || !nav.layout_fits(area) {
            return;
        }
        let ghost sel0 = self.selected;
        let ghost orig0 = *self;
        let mut p: usize = 0;
        while p < nav.tabs.len()
            invariant
                p <= nav.tabs@.len(),
                nav.layout_ok(area),
                nav.tabs@.len() > 0,
                nav.windowed(),
                *self == orig0,
                orig0 == *old(self),
                self.selected == sel0,
                nav.search_offset(area, sel0 as int, 0) == nav.search_offset(area, sel0 as int, p as int),
            decreases nav.tabs@.len() - p,
        {
            let window = compute_viewport(nav, area, p);
            if viewport_shows(&window.entries, self.selected) {
                proof {
                    let j = choose|j: int|
                        0 <= j < window.entries@.len() && (#[trigger] window.entries@[j]).index
                            == self.selected;
                    assert(nav.viewport_model(area, p).entries[j].index == self.selected);
                    assert(nav.shows(area, p, sel0 as int));
                    assert(nav.search_offset(area, sel0 as int, p as int) == p);
                }
                self.scroll_offset = p;
                return;
            }
            proof {
                if nav.shows(area, p, sel0 as int) {
                    let j = choose|j: int|
                        0 <= j < nav.viewport_model(area, p).entries.len()
                            && (#[trigger] nav.viewport_model(area, p).entries[j]).index == sel0;
                    assert(window.entries@[j].index == sel0);
                }
            }
            p += 1;
        }
        let viewport = compute_viewport(nav, area, self.scroll_offset);
        if viewport_shows(&viewport.entries, self.selected) {
            proof {
                let j = choose|j: int|
                    0 <= j < viewport.entries@.len() && (#[trigger] viewport.entries@[j]).index
                        == self.selected;
                assert(nav.viewport_model(area, self.scroll_offset).entries[j].index
                    == self.selected);
            }
            return;
        }
        proof {
            if nav.shows(area, self.scroll_offset, self.selected as int) {
                let j = choose|j: int|
                    0 <= j < nav.viewport_model(area, self.scroll_offset).entries.len()
                        && (#[trigger] nav.viewport_model(area, self.scroll_offset).entries[j]).index
                        == self.selected;
                assert(viewport.entries@[j].index == self.selected);
            }
        }
        if self.selected < self.scroll_offset {
            self.scroll_offset = self.selected;
            return;
        }
        let ghost old_offset = self.scroll_offset;
        let ghost sel = self.selected;
        let ghost orig = *self;
        assert(nav.ensured_offset(area, old_offset, sel) == nav.search_offset(
            area,
            sel as int,
            old_offset as int,
        ));
        proof {
            lemma_search_offset_range(nav, area, sel as int, old_offset as int);
        }
        while self.scroll_offset < nav.tabs.len()
            invariant
                old_offset <= self.scroll_offset,
                self.scroll_offset == old_offset || self.scroll_offset <= nav.tabs@.len(),
                *self == (TabNavState { scroll_offset: self.scroll_offset, ..orig }),
                orig == *old(self),
                orig.scroll_offset == old_offset,
                orig.selected == sel,
                nav.ensured_offset(area, old_offset, sel) == nav.search_offset(
                    area,
                    sel as int,
                    old_offset as int,
                ),
                self.selected == sel,
                nav.layout_ok(area),
                nav.search_offset(area, sel as int, old_offset as int) == nav.search_offset(
                    area,
                    sel as int,
                    self.scroll_offset as int,
                ),
            decreases nav.tabs@.len() - self.scroll_offset,
        {
            let viewport = compute_viewport(nav, area, self.scroll_offset);
            if viewport_shows(&viewport.entries, self.selected) {
                proof {
                    let j = choose|j: int|
                        0 <= j < viewport.entries@.len() && (#[trigger] viewport.entries@[j]).index
                            == self.selected;
                    assert(nav.viewport_model(area, self.scroll_offset).entries[j].index
                        == self.selected);
                    assert(nav.shows(area, self.scroll_offset, sel as int));
                    assert(nav.search_offset(area, sel as int, self.scroll_offset as int)
                        == self.scroll_offset);
                }
                return;
            }
            proof {
                if nav.shows(area, self.scroll_offset, self.selected as int) {
                    let j = choose|j: int|
                        0 <= j < nav.viewport_model(area, self.scroll_offset).entries.len()
                            && (#[trigger] nav.viewport_model(
                            area,
                            self.scroll_offset,
                        ).entries[j]).index == self.selected;
                    assert(viewport.entries@[j].index == self.selected);
                }
            }
            self.scroll_offset += 1;
        }
    }

    /// Selects along the primary axis and keeps the selection visible in window mode.
    pub fn select_direction_visible(&mut self, direction: TabDirection, nav: &TabNav, area: Rect)
        requires
            direction == TabDirection::Next && nav.tabs@.len() > 0 ==> old(self).selected
                < usize::MAX,
        ensures
            final(self).selected == stepped(old(self).selected as int, direction, nav.tabs@.len() as int),
            final(self).scroll_offset == nav.ensured_offset(
                area,
                old(self).scroll_offset,
                final(self).selected,
            ),
            final(self).reorder_drag == old(self).reorder_drag,
            final(self).selection_flash_enabled == old(self).selection_flash_enabled,
            final(self).flash_after_change(old(self).selection_flash, old(self).selected),
    {
        self.select_direction(direction, nav.tabs.len());
        self.ensure_selected_visible(nav, area);
    }

    /// Selects with wrap-around and keeps the selection visible in window mode.
    pub fn select_direction_wrapping_visible(
        &mut self,
        direction: TabDirection,
        nav: &TabNav,
        area: Rect,
    )
        requires
            nav.tabs@.len() > 0 ==> (match direction {
                TabDirection::Previous => old(self).selected + nav.tabs@.len() <= usize::MAX,
                TabDirection::Next => old(self).selected < usize::MAX,
            }),
        ensures
            final(self).selected == wrapped(old(self).selected as int, direction, nav.tabs@.len() as int),
            final(self).scroll_offset == nav.ensured_offset(
                area,
                old(self).scroll_offset,
                final(self).selected,
            ),
            final(self).reorder_drag == old(self).reorder_drag,
            final(self).selection_flash_enabled == old(self).selection_flash_enabled,
            final(self).flash_after_change(old(self).selection_flash, old(self).selected),
    {
        self.select_direction_wrapping(direction, nav.tabs.len());
        self.ensure_selected_visible(nav, area);
    }

    /// Steps the selection when the wheel turns over the strip or a visible tab and wheel
    /// switching is enabled; keeps the selection visible in window mode. Returns `true`
    /// when the event was consumed.
    pub fn handle_mouse_wheel(
        &mut self,
        nav: &TabNav,
        strip_area: Rect,
        mouse_column: u16,
        mouse_row: u16,
        direction: TabWheelDirection,
    ) -> (r: bool)
        requires
            direction == TabWheelDirection::Down && nav.mouse_wheel && nav.tabs@.len() > 0 && (
            strip_area.holds(mouse_column as int, mouse_row as int) || nav.hit_index(
                strip_area,
                old(self).scroll_offset,
                mouse_column,
                mouse_row,
            ) is Some) ==> old(self).selected < usize::MAX,
        ensures
            r == (nav.mouse_wheel && nav.tabs@.len() > 0 && (strip_area.holds(
                mouse_column as int,
                mouse_row as int,
            ) || nav.hit_index(strip_area, old(self).scroll_offset, mouse_column, mouse_row) is Some)),
            !r ==> *final(self) == *old(self),
            r ==> final(self).selected == stepped(
                old(self).selected as int,
                wheel_tab_direction(direction),
                nav.tabs@.len() as int,
            ),
            r ==> final(self).scroll_offset == nav.ensured_offset(
                strip_area,
                old(self).scroll_offset,
                final(self).selected,
            ),
            r ==> final(self).flash_after_change(old(self).selection_flash, old(self).selected),
            final(self).reorder_drag == old(self).reorder_drag,
            final(self).selection_flash_enabled == old(self).selection_flash_enabled,
    {
        if !nav.mouse_wheel || nav.tabs.len() == 0 {
            return false;
        }
        if !nav.wheel_hover(strip_area, self.scroll_offset, mouse_column, mouse_row) {
            return false;
        }
        self.select_direction(direction.tab_direction(), nav.tabs.len());
        self.ensure_selected_visible(nav, strip_area);
        true
    }

    /// Selects the visible tab under the pointer when click selection is enabled and no
    /// reorder drag is in progress; keeps the selection visible in window mode. Returns
    /// `true` when a tab was selected.
    pub fn handle_mouse_click(&mut self, nav: &TabNav, area: Rect, mouse_column: u16, mouse_row: u16) -> (r:
        bool)
        ensures
            r == (nav.mouse_click && nav.tabs@.len() > 0 && nav.hit_index(
                area,
                old(self).scroll_offset,
                mouse_column,
                mouse_row,
            ) is Some && old(self).reorder_drag is None),
            !r ==> *final(self) == *old(self),
            r ==> final(self).selected == clamped(
                nav.hit_index(area, old(self).scroll_offset, mouse_column, mouse_row)->0 as int,
                nav.tabs@.len() as int,
            ),
            r ==> final(self).scroll_offset == nav.ensured_offset(
                area,
                old(self).scroll_offset,
                final(self).selected,
            ),
            r ==> final(self).flash_after_change(old(self).selection_flash, old(self).selected),
            final(self).reorder_drag == old(self).reorder_drag,
            final(self).selection_flash_enabled == old(self).selection_flash_enabled,
    {
        if !nav.mouse_click || nav.tabs.len() == 0 {
            return false;
        }
        let index = match nav.tab_index_at(area, self.scroll_offset, mouse_column, mouse_row) {
            Some(i) => i,
            None => {
                return false;
            },
        };
        if self.is_reorder_dragging() {
            return false;
        }
        self.select(index, nav.tabs.len());
        self.ensure_selected_visible(nav, area);
        true
    }

    /// Starts a reorder drag on the draggable tab under the pointer. Returns `true` when a
    /// drag began.
    pub fn handle_mouse_reorder_press(
        &mut self,
        nav: &TabNav,
        area: Rect,
        mouse_column: u16,
        mouse_row: u16,
    ) -> (r: bool)
        ensures
            r == (nav.reorder_on() && (nav.hit_index(
                area,
                old(self).scroll_offset,
                mouse_column,
                mouse_row,
            ) matches Some(i) && draggable(i as int, nav.reorder_policy, pins_view(nav.tab_pinned)))),
            !r ==> *final(self) == *old(self),
            r ==> *final(self) == (TabNavState {
                reorder_drag: Some(
                    TabReorderDrag {
                        source: nav.hit_index(area, old(self).scroll_offset, mouse_column, mouse_row)->0,
                        hover: nav.hit_index(area, old(self).scroll_offset, mouse_column, mouse_row)->0,
                        armed: false,
                    },
                ),
                ..*old(self)
            }),
    {
        if !nav.reorder_enabled() {
            return false;
        }
        let index = match nav.tab_index_at(area, self.scroll_offset, mouse_column, mouse_row) {
            Some(i) => i,
            None => {
                return false;
            },
        };
        if !can_drag_index(index, nav.reorder_policy, nav.tab_pinned) {
            return false;
        }
        self.reorder_drag = Some(TabReorderDrag { source: index, hover: index, armed: false });
        true
    }

    /// While dragging, arms the drag and moves the hover slot to the tab under the pointer
    /// when a drop there is allowed. Returns `true` when a drag is active.
    pub fn handle_mouse_reorder_drag(
        &mut self,
        nav: &TabNav,
        area: Rect,
        mouse_column: u16,
        mouse_row: u16,
    ) -> (r: bool)
        ensures
            r == old(self).reorder_drag is Some,
            !r ==> *final(self) == *old(self),
            r ==> ({
                let drag = old(self).reorder_drag->0;
                let hover = match nav.hit_index(
                    area,
                    old(self).scroll_offset,
                    mouse_column,
                    mouse_row,
                ) {
                    Some(h) => if droppable(
                        drag.source as int,
                        h as int,
                        nav.reorder_policy,
                        pins_view(nav.tab_pinned),
                    ) {
                        h
                    } else {
                        drag.hover
                    },
                    None => drag.hover,
                };
                *final(self) == (TabNavState {
                    reorder_drag: Some(TabReorderDrag { hover, armed: true, ..drag }),
                    ..*old(self)
                })
            }),
    {
        let mut drag = match self.reorder_drag {
            Some(d) => d,
            None => {
                return false;
            },
        };
        drag.armed = true;
        match nav.tab_index_at(area, self.scroll_offset, mouse_column, mouse_row) {
            Some(hover) => {
                if can_drop_at(drag.source, hover, nav.reorder_policy, nav.tab_pinned) {
                    drag.hover = hover;
                }
            },
            None => {},
        }
        self.reorder_drag = Some(drag);
        true
    }

    /// Ends a reorder drag. Returns the move when the tab was dropped on another slot where
    /// a drop is allowed, and remaps the selection through it.
    #[verifier::rlimit(30)]
    pub fn handle_mouse_reorder_release(&mut self, nav: &TabNav) -> (r: Option<TabReorder>)
        ensures
            final(self).reorder_drag == None::<TabReorderDrag>,
            final(self).scroll_offset == old(self).scroll_offset,
            final(self).selection_flash_enabled == old(self).selection_flash_enabled,
            r == (match old(self).reorder_drag {
                Some(d) => if d.source != d.hover && droppable(
                    d.source as int,
                    d.hover as int,
                    nav.reorder_policy,
                    pins_view(nav.tab_pinned),
                ) {
                    Some(TabReorder { from: d.source, to: d.hover })
                } else {
                    None
                },
                None => None,
            }),
            r is None ==> final(self).selected == old(self).selected && final(self).selection_flash
                == old(self).selection_flash,
            r matches Some(m) ==> final(self).selected == remapped(
                old(self).selected as int,
                m.from as int,
                m.to as int,
            ),
            r is Some ==> final(self).flash_after_change(
                old(self).selection_flash,
                old(self).selected,
            ),
    {
        let drag = match self.reorder_drag {
            Some(d) => d,
            None => {
                return None;
            },
        };
        self.reorder_drag = None;
        if drag.source == drag.hover {
            return None;
        }
        if !can_drop_at(drag.source, drag.hover, nav.reorder_policy, nav.tab_pinned) {
            return None;
        }
        let previous = self.selected;
        let remapped_sel = remap_selected_index(self.selected, drag.source, drag.hover);
        self.selected = remapped_sel;
        self.notify_selection_changed(previous);
        Some(TabReorder { from: drag.source, to: drag.hover })
    }
}

/// When more tabs are hidden after the window, its offset is below the last tab, so the
/// next offset exists.
proof fn lemma_clipped_after_offset(nav: &TabNav, area: Rect, scroll_offset: usize)
    requires
        nav.windowed(),
        nav.viewport_model(area, scroll_offset).clipped_after,
    ensures
        scroll_offset + 1 < nav.tabs@.len(),
{
    let (fs, fe) = nav.flow_bounds_spec(area)->0;
    let first = nav.first_index(scroll_offset);
    let cs = nav.content_start(fs as int, scroll_offset);
    lemma_forward_indices(nav, first, cs, fe as int, nav.budget());
    let fwd = nav.forward_entries(first, cs, fe as int, nav.budget());
    assert(fwd.last().index == first + fwd.len() - 1);
}

} // verus!
