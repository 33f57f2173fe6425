//! Mutable tab selection, scroll, drag and selection-flash state.

use std::time::{Duration, Instant};

use vstd::prelude::*;

use crate::config::TabDirection;

verus! {

/// `std::time::Instant`, carried through the state as an opaque value.
#[verifier::external_type_specification]
#[verifier::external_body]
pub struct ExInstant(Instant);

/// The current time, from `std::time::Instant::now`. Nothing is stated of the result: it
/// depends on the clock.
#[verifier::external_body]
fn instant_now() -> Instant {
    Instant::now()
}

/// The time passed since `start`, from `Instant::elapsed`. Nothing is stated of the
/// result: it depends on the clock.
#[verifier::external_body]
fn elapsed_since(start: Instant) -> Duration {
    start.elapsed()
}

/// The whole milliseconds of `d`, from `Duration::as_millis`. Nothing is stated of the
/// result, as a `Duration` is opaque here (and the durations measured come from the
/// clock).
#[verifier::external_body]
fn duration_millis(d: Duration) -> u128 {
    d.as_millis()
}

/// The whole milliseconds elapsed since `start`.
pub(crate) fn millis_since(start: Instant) -> u128 {
    duration_millis(elapsed_since(start))
}

/// Wall-clock length in milliseconds of each on or off segment of the selection flash
/// (four segments = two blinks).
pub const SELECTION_FLASH_SEGMENT_MS: u128 = 150;

/// Total wall-clock duration in milliseconds of the selection flash animation.
pub const SELECTION_FLASH_TOTAL_MS: u128 = 600;

/// In-progress mouse drag for tab reordering.
#[derive(Clone, Copy, Debug, PartialEq, Eq, Structural)]
pub struct TabReorderDrag {
    /// Display index of the tab being dragged.
    pub source: usize,
    /// Current hover index (valid drop target).
    pub hover: usize,
    /// `true` after the first drag event; press alone does not draw drag highlight.
    pub armed: bool,
}

/// Border-only flash when a tab becomes selected (two on/off pulses).
#[derive(Clone, Copy, Debug, PartialEq, Eq)]
pub struct SelectionFlash {
    /// Tab whose border flashes.
    pub tab: usize,
    /// When the flash started.
    pub started: Instant,
}

/// Whether a flash that started `elapsed_ms` milliseconds ago is still running.
pub open spec fn flash_running(elapsed_ms: u128) -> bool {
    elapsed_ms < SELECTION_FLASH_TOTAL_MS
}

/// Whether a flash that started `elapsed_ms` milliseconds ago draws its border highlight:
/// during the first and third of its four segments.
pub open spec fn flash_lit(elapsed_ms: u128) -> bool {
    flash_running(elapsed_ms) && (elapsed_ms / SELECTION_FLASH_SEGMENT_MS) % 2 == 0
}

/// Whether a flash that started `elapsed_ms` milliseconds ago is still running.
pub fn flash_running_after(elapsed_ms: u128) -> (r: bool)
    ensures
        r == flash_running(elapsed_ms),
{
    elapsed_ms < SELECTION_FLASH_TOTAL_MS
}

/// Whether a flash that started `elapsed_ms` milliseconds ago draws its border highlight.
pub fn flash_lit_after(elapsed_ms: u128) -> (r: bool)
    ensures
        r == flash_lit(elapsed_ms),
{
    if elapsed_ms >= SELECTION_FLASH_TOTAL_MS {
        return false;
    }
    let segment = elapsed_ms / SELECTION_FLASH_SEGMENT_MS;
    segment % 2 == 0
}

/// Mutable tab selection and scroll state kept between frames.
#[derive(Clone, Copy, Debug, Default, PartialEq, Eq)]
pub struct TabNavState {
    /// Index of the highlighted tab.
    pub selected: usize,
    /// Index of the first visible tab when scrolling is active.
    pub scroll_offset: usize,
    /// Active drag when reordering tabs with the mouse.
    pub reorder_drag: Option<TabReorderDrag>,
    /// Border highlight animation after selection changes.
    pub selection_flash: Option<SelectionFlash>,
    /// When `false`, selection changes do not start a flash.
    pub selection_flash_enabled: bool,
}

/// The selection after one step in `direction` among `tab_count` tabs, stopping at the ends.
pub open spec fn stepped(selected: int, direction: TabDirection, tab_count: int) -> int {
    if tab_count == 0 {
        selected
    } else {
        match direction {
            TabDirection::Previous => if selected > 0 {
                selected - 1
            } else {
                0
            },
            TabDirection::Next => if selected + 1 < tab_count - 1 {
                selected + 1
            } else {
                tab_count - 1
            },
        }
    }
}

/// The selection after one step in `direction` among `tab_count` tabs, wrapping at the ends.
pub open spec fn wrapped(selected: int, direction: TabDirection, tab_count: int) -> int {
    if tab_count == 0 {
        selected
    } else {
        match direction {
            TabDirection::Previous => (selected + tab_count - 1) % tab_count,
            TabDirection::Next => (selected + 1) % tab_count,
        }
    }
}

/// The selection after choosing `index` among `tab_count` tabs: clamped to the last tab, or
/// zero when there are none.
pub open spec fn clamped(index: int, tab_count: int) -> int {
    if tab_count == 0 {
        0
    } else if index < tab_count - 1 {
        index
    } else {
        tab_count - 1
    }
}

impl TabNavState {
    /// The flash after the selection moved from `previous` to `self.selected`: a new flash
    /// on the selected tab when the selection changed and flashing is enabled, otherwise
    /// the flash as it was in `before`.
    pub open spec fn flash_after_change(
        self,
        before: Option<SelectionFlash>,
        previous: usize,
    ) -> bool {
        if self.selected != previous && self.selection_flash_enabled {
            self.selection_flash matches Some(f) && f.tab == self.selected
        } else {
            self.selection_flash == before
        }
    }

    /// Creates state with `selected`, a zero scroll offset, no drag, no flash, and flashing
    /// enabled.
    pub fn new(selected: usize) -> (s: Self)
        ensures
            s.selected == selected,
            s.scroll_offset == 0,
            s.reorder_drag == None::<TabReorderDrag>,
            s.selection_flash == None::<SelectionFlash>,
            s.selection_flash_enabled,
    {
        TabNavState {
            selected,
            scroll_offset: 0,
            reorder_drag: None,
            selection_flash: None,
            selection_flash_enabled: true,
        }
    }

    /// Starts the border-only selection flash on `tab_index` (two pulses), unless flashing
    /// is disabled.
    pub fn flash_selection(&mut self, tab_index: usize)
        ensures
            final(self).selected == old(self).selected,
            final(self).scroll_offset == old(self).scroll_offset,
            final(self).reorder_drag == old(self).reorder_drag,
            final(self).selection_flash_enabled == old(self).selection_flash_enabled,
            old(self).selection_flash_enabled ==> (final(self).selection_flash matches Some(f)
                && f.tab == tab_index),
            !old(self).selection_flash_enabled ==> final(self).selection_flash == old(self).selection_flash,
    {
        if !self.selection_flash_enabled {
            return;
        }
        self.selection_flash = Some(SelectionFlash { tab: tab_index, started: instant_now() });
    }

    /// Clears an in-progress selection flash.
    pub fn cancel_selection_flash(&mut self)
        ensures
            *final(self) == (TabNavState { selection_flash: None, ..*old(self) }),
    {
        self.selection_flash = None;
    }

    /// Whether a selection-flash animation is still running (apps should keep redrawing).
    /// Without a flash this is `false`; with one it depends on the clock.
    pub fn selection_flash_active(&self) -> (r: bool)
        ensures
            self.selection_flash is None ==> !r,
    {
        match self.selection_flash {
            None => false,
            Some(flash) => flash_running_after(millis_since(flash.started)),
        }
    }

    /// Whether `tab_index` draws the selection-flash border style this frame: only the tab
    /// of a running flash can, and then it depends on the clock.
    pub fn selection_flash_border_on(&self, tab_index: usize) -> (r: bool)
        ensures
            r ==> (self.selection_flash matches Some(f) && f.tab == tab_index),
    {
        match self.selection_flash {
            None => false,
            Some(flash) => {
                if flash.tab != tab_index {
                    return false;
                }
                flash_lit_after(millis_since(flash.started))
            },
        }
    }

    /// Drops expired selection-flash state.
    pub fn tick_selection_flash(&mut self)
        ensures
            final(self).selected == old(self).selected,
            final(self).scroll_offset == old(self).scroll_offset,
            final(self).reorder_drag == old(self).reorder_drag,
            final(self).selection_flash_enabled == old(self).selection_flash_enabled,
            final(self).selection_flash == old(self).selection_flash || final(self).selection_flash == None::<SelectionFlash>,
    {
        if self.selection_flash_active() {
            return;
        }
        self.selection_flash = None;
    }

    pub(crate) fn notify_selection_changed(&mut self, previous: usize)
        ensures
            final(self).selected == old(self).selected,
            final(self).scroll_offset == old(self).scroll_offset,
            final(self).reorder_drag == old(self).reorder_drag,
            final(self).selection_flash_enabled == old(self).selection_flash_enabled,
            final(self).flash_after_change(old(self).selection_flash, previous),
    {
        if self.selected != previous {
            self.flash_selection(self.selected);
        }
    }

    /// Whether a tab reorder drag is in progress.
    pub fn is_reorder_dragging(&self) -> (r: bool)
        ensures
            r == self.reorder_drag is Some,
    {
        self.reorder_drag.is_some()
    }

    /// Sets the selected tab, clamped to `tab_count`. With no tabs the selection and the
    /// scroll offset return to zero.
    pub fn select(&mut self, index: usize, tab_count: usize)
        ensures
            final(self).selected == clamped(index as int, tab_count as int),
            final(self).scroll_offset == (if tab_count == 0 {
                0
            } else {
                old(self).scroll_offset
            }),
            final(self).reorder_drag == old(self).reorder_drag,
            final(self).selection_flash_enabled == old(self).selection_flash_enabled,
            final(self).flash_after_change(old(self).selection_flash, old(self).selected),
    {
        let previous = self.selected;
        if tab_count == 0 {
            self.selected = 0;
            self.scroll_offset = 0;
            self.notify_selection_changed(previous);
            return;
        }
        self.selected = if index < tab_count - 1 {
            index
        } else {
            tab_count - 1
        };
        self.notify_selection_changed(previous);
    }

    /// Moves the selection one step along the strip's primary axis, stopping at the ends.
    pub fn select_direction(&mut self, direction: TabDirection, tab_count: usize)
        requires
            direction == TabDirection::Next && tab_count > 0 ==> old(self).selected < usize::MAX,
        ensures
            final(self).selected == stepped(old(self).selected as int, direction, tab_count as int),
            final(self).scroll_offset == old(self).scroll_offset,
            final(self).reorder_drag == old(self).reorder_drag,
            final(self).selection_flash_enabled == old(self).selection_flash_enabled,
            final(self).flash_after_change(old(self).selection_flash, old(self).selected),
    {
        if tab_count == 0 {
            return;
        }
        let previous = self.selected;
        self.selected = match direction {
            TabDirection::Previous => self.selected.saturating_sub(1),
            TabDirection::Next => {
                let next = self.selected + 1;
                if next < tab_count - 1 {
                    next
                } else {
                    tab_count - 1
                }
            },
        };
        self.notify_selection_changed(previous);
    }

    /// Moves the selection one step, wrapping at the ends of the tab list.
    pub fn select_direction_wrapping(&mut self, direction: TabDirection, tab_count: usize)
        requires
            tab_count > 0 ==> (match direction {
                TabDirection::Previous => old(self).selected + tab_count <= usize::MAX,
                TabDirection::Next => old(self).selected < usize::MAX,
            }),
        ensures
            final(self).selected == wrapped(old(self).selected as int, direction, tab_count as int),
            final(self).scroll_offset == old(self).scroll_offset,
            final(self).reorder_drag == old(self).reorder_drag,
            final(self).selection_flash_enabled == old(self).selection_flash_enabled,
            final(self).flash_after_change(old(self).selection_flash, old(self).selected),
    {
        if tab_count == 0 {
            return;
        }
        let previous = self.selected;
        self.selected = match direction {
            TabDirection::Previous => (self.selected + tab_count - 1) % tab_count,
            TabDirection::Next => (self.selected + 1) % tab_count,
        };
        self.notify_selection_changed(previous);
    }

    /// Scrolls the window one tab toward the start.
    pub fn scroll_prev(&mut self)
        ensures
            *final(self) == (TabNavState {
                scroll_offset: if old(self).scroll_offset > 0 {
                    (old(self).scroll_offset - 1) as usize
                } else {
                    0
                },
                ..*old(self)
            }),
    {
        self.scroll_offset = self.scroll_offset.saturating_sub(1);
    }

    /// Cancels an in-progress reorder drag without applying it.
    pub fn cancel_reorder_drag(&mut self)
        ensures
            *final(self) == (TabNavState { reorder_drag: None, ..*old(self) }),
    {
        self.reorder_drag = None;
    }

    /// Resets the scroll offset (call when the strip layout or orientation changes).
    pub fn clear_scroll(&mut self)
        ensures
            *final(self) == (TabNavState { scroll_offset: 0, ..*old(self) }),
    {
        self.scroll_offset = 0;
    }
}

/// Any selection step keeps the selection on an existing tab.
pub proof fn law_steps_stay_in_range(selected: int, direction: TabDirection, tab_count: int)
    requires
        0 <= selected < tab_count,
    ensures
        0 <= stepped(selected, direction, tab_count) < tab_count,
        0 <= wrapped(selected, direction, tab_count) < tab_count,
{
}

/// A wrapping step forward and a wrapping step back return to the tab where they started,
/// in either order.
pub proof fn law_wrapping_steps_undo(selected: int, tab_count: int)
    requires
        0 <= selected < tab_count,
    ensures
        wrapped(wrapped(selected, TabDirection::Next, tab_count), TabDirection::Previous, tab_count)
            == selected,
        wrapped(wrapped(selected, TabDirection::Previous, tab_count), TabDirection::Next, tab_count)
            == selected,
{
    if selected + 1 == tab_count {
        assert((selected + 1) % tab_count == 0) by (nonlinear_arith)
            requires
                selected + 1 == tab_count,
                tab_count > 0,
        ;
        assert((0 + tab_count - 1) % tab_count == tab_count - 1) by (nonlinear_arith)
            requires
                tab_count > 0,
        ;
    } else {
        assert((selected + 1) % tab_count == selected + 1) by (nonlinear_arith)
            requires
                0 <= selected + 1 < tab_count,
        ;
        assert((selected + 1 + tab_count - 1) % tab_count == selected) by (nonlinear_arith)
            requires
                0 <= selected < tab_count,
        ;
    }
    if selected == 0 {
        assert((0 + tab_count - 1) % tab_count == tab_count - 1) by (nonlinear_arith)
            requires
                tab_count > 0,
        ;
        assert((tab_count - 1 + 1) % tab_count == 0) by (nonlinear_arith)
            requires
                tab_count > 0,
        ;
    } else {
        assert((selected + tab_count - 1) % tab_count == selected - 1) by (nonlinear_arith)
            requires
                0 < selected < tab_count,
        ;
        assert((selected - 1 + 1) % tab_count == selected) by (nonlinear_arith)
            requires
                0 < selected < tab_count,
        ;
    }
}

/// Stepping back from any tab but the first and then forward returns to it; stepping
/// forward from any tab but the last and then back returns to it.
pub proof fn law_steps_undo_away_from_ends(selected: int, tab_count: int)
    requires
        0 <= selected < tab_count,
    ensures
        selected > 0 ==> stepped(
            stepped(selected, TabDirection::Previous, tab_count),
            TabDirection::Next,
            tab_count,
        ) == selected,
        selected < tab_count - 1 ==> stepped(
            stepped(selected, TabDirection::Next, tab_count),
            TabDirection::Previous,
            tab_count,
        ) == selected,
{
}

} // verus!
