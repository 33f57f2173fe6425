use ratatui_comfy_tabs::{
    Canvas, Color, DrawOp, Glyph, HorizontalPosition, OverflowPolicy, Rect, Style, TabBarAlign,
    TabBarEnd, TabDirection, TabNav, TabNavState, TabOrientation, TabPadding, TabReorderDrag,
    TabReorderPolicy, TabWheelDirection, VerticalPosition, align_shift, char_display_width,
    compute_viewport, default_reorder_drag_style, default_selection_flash_style,
    horizontal_tab_bar_end_caps, label_char, label_display_width, label_line_count,
    label_origin, mirror_cap_for_vertical_rail, mirror_cap_horizontally, mirror_cap_vertically,
    tab_border, tab_entry_rect, try_reorder, vertical_label, vertical_tab_bar_margin_caps,
    TabEntry, MODIFIER_BOLD, HorizontalPositionConfig, SelectionFlash, VerticalPositionConfig,
    lit_tab_at,
};

fn line(buf: &Canvas, y: u16) -> String {
    (buf.area.x..buf.area.right())
        .map(|x| buf.symbol(x, y).to_string())
        .collect()
}

fn column(buf: &Canvas, x: u16) -> String {
    (buf.area.y..buf.area.bottom())
        .map(|y| buf.symbol(x, y).to_string())
        .collect()
}

#[test]
fn mirroring_a_cap_twice_restores_it() {
    for c in [
        '┌', '└', '┐', '┘', '╭', '╰', '╮', '╯', '┬', '┴', '├', '┤', '─', '│', 'x',
    ] {
        assert_eq!(mirror_cap_vertically(mirror_cap_vertically(c)), c);
        assert_eq!(mirror_cap_horizontally(mirror_cap_horizontally(c)), c);
    }
    assert_eq!(mirror_cap_vertically('╮'), '╯');
    assert_eq!(mirror_cap_horizontally('╮'), '╭');
    assert_eq!(mirror_cap_horizontally('┬'), '┴');
    assert_eq!(mirror_cap_for_vertical_rail('└', true), '└');
    assert_eq!(mirror_cap_for_vertical_rail('└', false), '┘');
}

#[test]
fn vertical_margin_caps_follow_the_rail_side() {
    assert_eq!(vertical_tab_bar_margin_caps(TabBarEnd::Sqr, true), (Some('┌'), Some('└')));
    assert_eq!(vertical_tab_bar_margin_caps(TabBarEnd::Rnd, false), (Some('╮'), Some('╯')));
    assert_eq!(vertical_tab_bar_margin_caps(TabBarEnd::NoEnd, true), (None, None));
}

#[test]
fn horizontal_caps_by_alignment() {
    let entries = vec![
        TabEntry { index: 0, offset: 0, size: 5 },
        TabEntry { index: 1, offset: 5, size: 5 },
    ];
    assert_eq!(
        horizontal_tab_bar_end_caps(TabBarEnd::Sqr, TabBarAlign::Start, &entries, 0, true),
        Some(('│', '┐'))
    );
    assert_eq!(
        horizontal_tab_bar_end_caps(TabBarEnd::Sqr, TabBarAlign::Start, &entries, 1, true),
        Some(('├', '┐'))
    );
    assert_eq!(
        horizontal_tab_bar_end_caps(TabBarEnd::Rnd, TabBarAlign::Center, &entries, 1, false),
        Some(('╰', '╯'))
    );
    assert_eq!(
        horizontal_tab_bar_end_caps(TabBarEnd::Sqr, TabBarAlign::End, &entries, 1, true),
        Some(('┌', '│'))
    );
    assert_eq!(
        horizontal_tab_bar_end_caps(TabBarEnd::NoEnd, TabBarAlign::End, &entries, 1, true),
        None
    );
}

#[test]
fn label_helpers_measure_and_stack() {
    assert_eq!(char_display_width('a', false), 1);
    assert_eq!(char_display_width('日', false), 2);
    assert_eq!(char_display_width('\u{7}', false), 0);
    assert_eq!(label_char('a', true), 'A');
    assert_eq!(label_char('a', false), 'a');
    assert_eq!(label_char('ß', true), 'S');
    assert_eq!(label_display_width("ab\nwide line", false), 9);
    assert_eq!(label_display_width("日本", false), 4);
    assert_eq!(label_line_count(""), 0);
    assert_eq!(label_line_count("a\nb\r\nc\n"), 3);
    assert_eq!(vertical_label("Tab"), "T\na\nb");
    assert_eq!(label_origin(4, 2, TabPadding::new(1, 0, 3, 3)), (8, 4));
}

#[test]
fn border_sets_come_from_ratatui_symbols() {
    let rnd = tab_border::rnd();
    assert_eq!(
        (rnd.top_left, rnd.top_right, rnd.bottom_left, rnd.bottom_right),
        ("╭", "╮", "╰", "╯")
    );
    assert_eq!((rnd.horizontal_top, rnd.vertical_left), ("─", "│"));
    let sqr = tab_border::sqr();
    assert_eq!(
        (sqr.top_left, sqr.top_right, sqr.bottom_left, sqr.bottom_right),
        ("┌", "┐", "└", "┘")
    );
}

#[test]
fn align_shift_places_groups() {
    assert_eq!(align_shift(TabBarAlign::Start, 0, 20, 0, 10), 0);
    assert_eq!(align_shift(TabBarAlign::Center, 0, 20, 0, 10), 5);
    assert_eq!(align_shift(TabBarAlign::Center, 0, 21, 0, 10), 5);
    assert_eq!(align_shift(TabBarAlign::End, 0, 20, 0, 10), 10);
    assert_eq!(align_shift(TabBarAlign::End, 0, 10, 0, 12), 0);
}

#[test]
fn tab_rects_lie_inside_the_area_and_hit_their_tab() {
    let tabs = ["One", "Two", "Three", "Four", "Five"];
    for align in [TabBarAlign::Start, TabBarAlign::Center, TabBarAlign::End] {
        for overflow in [OverflowPolicy::Truncate, OverflowPolicy::Scroll] {
            let nav = TabNav::new(&tabs, 0).tab_bar_align(align).overflow(overflow);
            let area = Rect::new(3, 2, 40, 4);
            for scroll in 0..tabs.len() {
                let rects = nav.tab_rects_with_scroll(area, scroll);
                let viewport = compute_viewport(&nav, area, scroll);
                assert_eq!(rects.len(), viewport.entries.len());
                for (rect, entry) in rects.iter().zip(viewport.entries.iter()) {
                    assert!(area.x <= rect.x && rect.x + rect.width <= area.x + area.width);
                    assert!(area.y <= rect.y && rect.y + rect.height <= area.y + area.height);
                    for col in rect.x..rect.right() {
                        assert_eq!(
                            nav.tab_index_at(area, scroll, col, rect.y + 1),
                            Some(entry.index)
                        );
                    }
                }
            }
        }
    }
}

#[test]
fn visible_tabs_sit_flush_in_order() {
    let tabs = ["Overview", "Nodes", "Network", "Content", "UI"];
    let nav = TabNav::new(&tabs, 0).tab_bar_align(TabBarAlign::Center);
    let area = Rect::new(0, 0, 70, 3);
    let viewport = compute_viewport(&nav, area, 0);
    assert!(viewport.entries.len() >= 2);
    for pair in viewport.entries.windows(2) {
        assert_eq!(pair[0].offset + pair[0].size, pair[1].offset);
        assert_eq!(pair[0].index + 1, pair[1].index);
    }
}

#[test]
fn ensure_selected_visible_picks_the_earliest_window() {
    let tabs = ["A", "B", "C", "D", "E"];
    let nav = TabNav::new(&tabs, 0).overflow(OverflowPolicy::Scroll);
    let area = Rect::new(0, 0, 24, 3);
    let mut state = TabNavState::new(4);
    state.ensure_selected_visible(&nav, area);
    assert_eq!(state.scroll_offset, 3);
    state.select(3, tabs.len());
    state.ensure_selected_visible(&nav, area);
    assert_eq!(state.scroll_offset, 2);
    // Without a window the offset is left alone.
    let fixed = TabNav::new(&tabs, 0).overflow(OverflowPolicy::Truncate);
    let mut other = TabNavState::new(4);
    other.scroll_offset = 7;
    other.ensure_selected_visible(&fixed, area);
    assert_eq!(other.scroll_offset, 7);
}

#[test]
fn selection_steps_clamp_and_wrap() {
    let mut state = TabNavState::new(0);
    state.select_direction(TabDirection::Previous, 3);
    assert_eq!(state.selected, 0);
    state.select_direction(TabDirection::Next, 3);
    state.select_direction(TabDirection::Next, 3);
    state.select_direction(TabDirection::Next, 3);
    assert_eq!(state.selected, 2);
    state.select_direction_wrapping(TabDirection::Next, 3);
    assert_eq!(state.selected, 0);
    state.select_direction_wrapping(TabDirection::Previous, 3);
    assert_eq!(state.selected, 2);
    state.select(10, 3);
    assert_eq!(state.selected, 2);
    state.select(1, 0);
    assert_eq!(state.selected, 0);
}

#[test]
fn stepping_forth_and_back_returns() {
    for start in 0..4 {
        let mut state = TabNavState::new(start);
        state.select_direction_wrapping(TabDirection::Next, 4);
        state.select_direction_wrapping(TabDirection::Previous, 4);
        assert_eq!(state.selected, start);
    }
    let mut state = TabNavState::new(1);
    state.select_direction(TabDirection::Next, 4);
    state.select_direction(TabDirection::Previous, 4);
    assert_eq!(state.selected, 1);
}

#[test]
fn selection_change_starts_a_flash_on_the_new_tab() {
    let mut state = TabNavState::new(0);
    state.select_direction(TabDirection::Next, 3);
    let flash = state.selection_flash.expect("flash after a selection change");
    assert_eq!(flash.tab, 1);
    assert!(state.selection_flash_active());
    assert!(state.selection_flash_border_on(1));
    assert!(!state.selection_flash_border_on(0));
    assert_eq!(state.lit_flash_tab(), Some(1));
    state.cancel_selection_flash();
    assert!(!state.selection_flash_active());
    assert_eq!(state.lit_flash_tab(), None);
    state.selection_flash_enabled = false;
    state.select_direction(TabDirection::Next, 3);
    assert!(state.selection_flash.is_none());
}

#[test]
fn scrolling_moves_the_window_one_tab() {
    let tabs = ["A", "B", "C", "D", "E"];
    let nav = TabNav::new(&tabs, 0).overflow(OverflowPolicy::Scroll);
    let area = Rect::new(0, 0, 24, 3);
    let mut state = TabNavState::new(0);
    state.scroll_next(&nav, area);
    assert_eq!(state.scroll_offset, 1);
    state.scroll_prev();
    state.scroll_prev();
    assert_eq!(state.scroll_offset, 0);
    state.scroll_offset = 3;
    state.scroll_next(&nav, area);
    assert_eq!(state.scroll_offset, 3);
    state.clear_scroll();
    assert_eq!(state.scroll_offset, 0);
}

#[test]
fn wheel_direction_maps_to_steps() {
    assert_eq!(TabWheelDirection::Up.tab_direction(), TabDirection::Previous);
    assert_eq!(TabWheelDirection::Down.tab_direction(), TabDirection::Next);
    assert_eq!(
        TabWheelDirection::from_axes(None, None, TabOrientation::Horizontal),
        None
    );
    assert_eq!(
        TabWheelDirection::from_axes(None, Some(TabWheelDirection::Up), TabOrientation::Vertical),
        Some(TabWheelDirection::Up)
    );
}

#[test]
fn drag_release_reports_the_move_and_clears_the_drag() {
    let tabs = ["A", "B", "C"];
    let nav = TabNav::new(&tabs, 0)
        .reorder_policy(TabReorderPolicy::NonePinned)
        .mouse_reorder(true);
    let mut state = TabNavState::new(0);
    state.reorder_drag = Some(TabReorderDrag { source: 0, hover: 2, armed: true });
    let reorder = state.handle_mouse_reorder_release(&nav).expect("a move");
    assert_eq!((reorder.from, reorder.to), (0, 2));
    assert_eq!(state.selected, 2);
    assert!(state.reorder_drag.is_none());
    assert!(state.handle_mouse_reorder_release(&nav).is_none());
    state.reorder_drag = Some(TabReorderDrag { source: 1, hover: 1, armed: true });
    state.cancel_reorder_drag();
    assert!(!state.is_reorder_dragging());
}

#[test]
fn horizontal_window_marks_hidden_tabs_inside_edge_tabs() {
    let tabs = ["One", "Two", "Three", "Four"];
    let nav = TabNav::new(&tabs, 3)
        .overflow(OverflowPolicy::Scroll)
        .scroll_offset(1);
    let area = Rect::new(0, 0, 28, 3);
    let viewport = compute_viewport(&nav, area, 1);
    let first = viewport.entries[0];
    let last = viewport.entries[viewport.entries.len() - 1];
    let mut buf = Canvas::empty(area);
    nav.render(area, &mut buf);
    assert_eq!(first.offset, 0);
    assert_eq!(buf.symbol(first.offset + 1, 1), "⯇");
    assert_eq!(buf.symbol(last.offset + last.size - 2, 1), "⯈");
    // Without affordances no markers are drawn.
    let plain = TabNav::new(&tabs, 3)
        .overflow(OverflowPolicy::Scroll)
        .scroll_offset(1)
        .overflow_affordance(false);
    let mut quiet = Canvas::empty(area);
    plain.render(area, &mut quiet);
    assert!(!line(&quiet, 1).contains('⯇'));
    assert!(!line(&quiet, 1).contains('⯈'));
}

#[test]
fn end_packed_strip_marks_hidden_tabs_on_the_baseline() {
    let tabs = ["AAA", "BBB", "CCC", "DDD"];
    let nav = TabNav::new(&tabs, 3).tab_bar_align(TabBarAlign::End);
    let area = Rect::new(0, 0, 24, 3);
    let mut buf = Canvas::empty(area);
    nav.render(area, &mut buf);
    assert_eq!(buf.symbol(0, 2), "‹");
}

#[test]
fn vertical_window_marks_hidden_tabs_on_the_rail() {
    let labels: Vec<String> = ["One", "Two", "Three", "Four", "Five"]
        .into_iter()
        .map(vertical_label)
        .collect();
    let tabs: Vec<&str> = labels.iter().map(String::as_str).collect();
    let nav = TabNav::new(&tabs, 2)
        .orientation(TabOrientation::Vertical)
        .overflow(OverflowPolicy::Scroll)
        .scroll_offset(2);
    let width = nav.vertical_rail_width();
    let area = Rect::new(0, 0, width, 12);
    let mut buf = Canvas::empty(area);
    nav.render(area, &mut buf);
    let rail = column(&buf, width - 1);
    assert!(rail.starts_with('↑'));
    assert!(rail.ends_with('↓'));
}

#[test]
fn bottom_strip_and_right_rail_open_toward_content() {
    let area = Rect::new(0, 0, 20, 4);
    let mut buf = Canvas::empty(area);
    TabNav::new(&["Tab"], 0)
        .horizontal_position(HorizontalPosition::Bottom)
        .render(area, &mut buf);
    assert_eq!(buf.symbol(0, 1), "╮");
    assert_eq!(buf.symbol(10, 1), "╭");
    assert_eq!(buf.symbol(0, 3), "╰");

    let label = vertical_label("Ab");
    let tabs = [label.as_str()];
    let nav = TabNav::new(&tabs, 0)
        .orientation(TabOrientation::Vertical)
        .vertical_position(VerticalPosition::Right);
    let width = nav.vertical_rail_width();
    let area = Rect::new(0, 0, width + 2, 6);
    let mut rail = Canvas::empty(area);
    nav.render(area, &mut rail);
    assert_eq!(rail.symbol(2, 0), "╰");
    assert_eq!(rail.symbol(2, 5), "╭");
    assert_eq!(rail.symbol(4, 2), "A");
    assert_eq!(rail.symbol(4, 3), "b");
}

#[test]
fn labels_are_cut_at_the_right_padding() {
    let widths = [9u16];
    let nav = TabNav::new(&["Overflowing"], 0).tab_widths(&widths);
    let area = Rect::new(0, 0, 20, 3);
    let mut buf = Canvas::empty(area);
    nav.render(area, &mut buf);
    let mid: String = line(&buf, 1).chars().take(9).collect();
    assert_eq!(mid, "│  ▸O   │");
}

#[test]
fn wide_characters_stop_before_the_padding() {
    let widths = [10u16];
    let nav = TabNav::new(&["日本語"], 1).tab_widths(&widths);
    let area = Rect::new(0, 0, 10, 3);
    let mut buf = Canvas::empty(area);
    nav.render(area, &mut buf);
    assert_eq!(buf.symbol(4, 1), "日");
    assert_eq!(buf.symbol(5, 1), " ");
}

#[test]
fn undrawable_layouts_leave_the_canvas_alone() {
    let widths = [0u16];
    let nav = TabNav::new(&["A"], 0).tab_widths(&widths);
    let area = Rect::new(0, 0, 10, 3);
    assert!(!nav.render_fits(area, 0));
    let mut buf = Canvas::empty(area);
    let before = buf.cells.clone();
    nav.render(area, &mut buf);
    assert_eq!(buf.cells, before);
    assert!(TabNav::new(&["A"], 0).render_fits(area, 0));
}

#[test]
fn render_ops_empty_without_room() {
    let nav = TabNav::new(&["Tab"], 0);
    let short = Rect::new(0, 0, 20, 2);
    assert!(nav.render_ops(short, 0, 0, None, None).is_empty());
    let none: [&str; 0] = [];
    let empty = TabNav::new(&none, 0);
    assert!(empty.render_ops(Rect::new(0, 0, 20, 3), 0, 0, None, None).is_empty());
}

#[test]
fn canvas_ignores_cells_outside_it() {
    let area = Rect::new(2, 2, 3, 2);
    let mut buf = Canvas::empty(area);
    let before = buf.cells.clone();
    let style = Style::new().fg(Color::Red);
    buf.apply(&DrawOp { x: 0, y: 0, glyph: Glyph::Char('x'), style });
    buf.apply(&DrawOp { x: 5, y: 2, glyph: Glyph::Char('x'), style });
    assert_eq!(buf.cells, before);
    buf.apply(&DrawOp { x: 4, y: 3, glyph: Glyph::Text("y"), style: style.add_modifier(MODIFIER_BOLD) });
    assert_eq!(buf.symbol(4, 3), "y");
    assert_eq!(buf.cell(4, 3).fg, Color::Red);
    assert_eq!(buf.cell(4, 3).bg, Color::Reset);
    assert_eq!(buf.cell(4, 3).modifier, MODIFIER_BOLD);
    buf.apply(&DrawOp { x: 4, y: 3, glyph: Glyph::Char('z'), style: Style::new().remove_modifier(MODIFIER_BOLD) });
    assert_eq!(buf.symbol(4, 3), "z");
    assert_eq!(buf.cell(4, 3).fg, Color::Red);
    assert_eq!(buf.cell(4, 3).modifier, 0);
}

#[test]
fn default_highlights_use_indexed_46() {
    assert_eq!(default_reorder_drag_style().fg, Some(Color::Indexed(46)));
    assert_eq!(default_selection_flash_style().fg, Some(Color::Indexed(46)));
}

#[test]
fn active_label_is_bold_by_default() {
    let area = Rect::new(0, 0, 20, 3);
    let mut buf = Canvas::empty(area);
    TabNav::new(&["Tab", "B"], 0).render(area, &mut buf);
    assert_eq!(buf.cell(5, 1).modifier & MODIFIER_BOLD, MODIFIER_BOLD);
    assert_eq!(buf.symbol(15, 1), "B");
    assert_eq!(buf.cell(15, 1).modifier & MODIFIER_BOLD, 0);
    let mut plain = Canvas::empty(area);
    TabNav::new(&["Tab"], 0).highlight_bold(false).render(area, &mut plain);
    assert_eq!(plain.cell(5, 1).modifier & MODIFIER_BOLD, 0);
}

#[test]
fn vertical_label_rows_stop_at_the_default_height() {
    let label = vertical_label("ABCDE");
    let tabs = [label.as_str()];
    let heights = [4u16];
    let nav = TabNav::new(&tabs, 0)
        .orientation(TabOrientation::Vertical)
        .tab_heights(&heights);
    let width = nav.vertical_rail_width();
    let area = Rect::new(0, 0, width, 12);
    let mut buf = Canvas::empty(area);
    nav.render(area, &mut buf);
    // The bottom border (row 3) is drawn over the second label line.
    assert_eq!(column(&buf, 2), "─ A─CDE     ");
}

#[test]
fn tabs_are_drawn_inside_their_rects() {
    let labels: Vec<String> = ["One", "Two", "Three", "Four", "Five"]
        .into_iter()
        .map(vertical_label)
        .collect();
    let stacked: Vec<&str> = labels.iter().map(String::as_str).collect();
    let flat = ["One", "Two", "Three", "Four", "Five"];
    for vertical in [false, true] {
        for align in [TabBarAlign::Start, TabBarAlign::Center, TabBarAlign::End] {
            for selected in 0..5 {
                let nav = if vertical {
                    TabNav::new(&stacked, selected)
                        .orientation(TabOrientation::Vertical)
                        .tab_bar_align(align)
                        .overflow(OverflowPolicy::Scroll)
                        .scroll_offset(1)
                } else {
                    TabNav::new(&flat, selected)
                        .tab_bar_align(align)
                        .overflow(OverflowPolicy::Scroll)
                        .scroll_offset(1)
                };
                let area = if vertical {
                    Rect::new(4, 3, nav.vertical_rail_width(), 20)
                } else {
                    Rect::new(4, 3, 40, 3)
                };
                let rects = nav.tab_rects(area);
                let ops = nav.render_ops(area, selected, 1, None, None);
                let mut canvas = Canvas::empty(Rect::new(0, 0, 60, 30));
                let before = canvas.cells.clone();
                nav.render(area, &mut canvas);
                assert_ne!(canvas.cells, before);
                for op in &ops {
                    let in_area = area.contains(op.x, op.y);
                    assert!(in_area, "drawn outside the area at ({}, {})", op.x, op.y);
                }
                for y in 0..30 {
                    for x in 0..60 {
                        if !area.contains(x, y) {
                            assert_eq!(canvas.symbol(x, y), " ");
                        }
                    }
                }
                // Every tab border corner is drawn at its rect's corner cells.
                for rect in &rects {
                    assert_ne!(canvas.symbol(rect.x, rect.y), " ");
                    assert_ne!(canvas.symbol(rect.right() - 1, rect.bottom() - 1), " ");
                }
            }
        }
    }
}

#[test]
fn active_tab_edge_toward_content_is_open() {
    let flat = ["Files", "Search", "Settings", "Help"];
    for bottom in [false, true] {
        for selected in 0..4 {
            let nav = TabNav::new(&flat, selected)
                .tab_bar_end(TabBarEnd::Rnd)
                .horizontal_position(if bottom {
                    HorizontalPosition::Bottom
                } else {
                    HorizontalPosition::Top
                });
            let area = Rect::new(1, 1, 60, 5);
            let mut canvas = Canvas::empty(Rect::new(0, 0, 64, 8));
            for y in 0..8 {
                for x in 0..64 {
                    canvas.apply(&DrawOp { x, y, glyph: Glyph::Char('#'), style: Style::new() });
                }
            }
            nav.render(area, &mut canvas);
            let viewport = compute_viewport(&nav, area, 0);
            let active = viewport.entries.iter().find(|e| e.index == selected).unwrap();
            let edge_y = if bottom { area.bottom() - 3 } else { area.y + 2 };
            for x in active.offset + 1..active.offset + active.size - 1 {
                assert_eq!(canvas.symbol(x, edge_y), " ");
            }
            for other in viewport.entries.iter().filter(|e| e.index != selected) {
                assert_eq!(canvas.symbol(other.offset + 1, edge_y), "─");
            }
        }
    }
    let labels: Vec<String> = ["Files", "Search", "Help"].into_iter().map(vertical_label).collect();
    let stacked: Vec<&str> = labels.iter().map(String::as_str).collect();
    for right in [false, true] {
        let nav = TabNav::new(&stacked, 1)
            .orientation(TabOrientation::Vertical)
            .vertical_position(if right { VerticalPosition::Right } else { VerticalPosition::Left });
        let width = nav.vertical_rail_width();
        let area = Rect::new(0, 0, width + 3, 30);
        let mut canvas = Canvas::empty(area);
        nav.render(area, &mut canvas);
        let viewport = compute_viewport(&nav, area, 0);
        let active = viewport.entries.iter().find(|e| e.index == 1).unwrap();
        let edge_x = if right { area.right() - width } else { width - 1 };
        for y in active.offset + 1..active.offset + active.size - 1 {
            assert_eq!(canvas.symbol(edge_x, y), " ");
        }
    }
}

#[test]
fn checked_sizes_report_overflow() {
    let nav = TabNav::new(&["ab", "wide label"], 0);
    assert_eq!(nav.checked_vertical_rail_width(), Some(2 + 3 + 10 + 3));
    assert_eq!(nav.checked_vertical_rail_width(), Some(nav.vertical_rail_width()));
    let huge = TabNav::new(&["ab"], 0).padding(TabPadding::new(0, 0, u16::MAX, 0));
    assert_eq!(huge.checked_vertical_rail_width(), None);
    assert_eq!(huge.auto_tab_width(0), None);
    assert_eq!(nav.auto_tab_width(5), None);
    assert!(!huge.layout_fits(Rect::new(0, 0, 10, 3)));
    assert!(nav.layout_fits(Rect::new(0, 0, 10, 3)));
    assert!(huge.tab_rects(Rect::new(0, 0, 10, 3)).is_empty());
}

#[test]
fn new_nav_uses_the_rounded_border_set() {
    let tabs = ["A"];
    let b = TabNav::new(&tabs, 0).border_set;
    assert_eq!(
        (b.top_left, b.top_right, b.bottom_left, b.bottom_right),
        ("╭", "╮", "╰", "╯")
    );
    assert_eq!((b.vertical_left, b.vertical_right), ("│", "│"));
    assert_eq!((b.horizontal_top, b.horizontal_bottom), ("─", "─"));
}

#[test]
fn moving_back_restores_the_order() {
    let pins = [false, true, false, false, true, false];
    for (policy, mask) in [
        (TabReorderPolicy::NonePinned, None),
        (TabReorderPolicy::SomePinned, Some(&pins[..])),
    ] {
        for from in 0..6 {
            for to in 0..6 {
                let original = vec!['a', 'b', 'c', 'd', 'e', 'f'];
                let mut items = original.clone();
                if try_reorder(&mut items, from, to, policy, mask) {
                    assert!(try_reorder(&mut items, to, from, policy, mask));
                    assert_eq!(items, original);
                }
            }
        }
    }
    let mut items = vec!['a', 'b', 'c', 'd'];
    assert!(try_reorder(&mut items, 0, 3, TabReorderPolicy::NonePinned, None));
    assert_eq!(items, ['b', 'c', 'd', 'a']);
    assert!(try_reorder(&mut items, 3, 0, TabReorderPolicy::NonePinned, None));
    assert_eq!(items, ['a', 'b', 'c', 'd']);
}

#[test]
fn entry_rect_needs_room_for_the_strip() {
    let tabs = ["One", "Two"];
    let entry = TabEntry { index: 0, offset: 2, size: 5 };
    let nav = TabNav::new(&tabs, 0);
    assert_eq!(tab_entry_rect(&nav, Rect::new(0, 0, 20, 3), &entry), Some(Rect::new(2, 0, 5, 3)));
    assert_eq!(tab_entry_rect(&nav, Rect::new(0, 0, 20, 2), &entry), None);
    let rail = TabNav::new(&tabs, 0).orientation(TabOrientation::Vertical);
    assert_eq!(tab_entry_rect(&rail, Rect::new(0, 0, 1, 10), &entry), None);
    assert_eq!(tab_entry_rect(&rail, Rect::new(0, 0, 20, 0), &entry), None);
}

#[test]
fn printable_ascii_is_one_column() {
    for c in ' '..'\u{7f}' {
        assert_eq!(char_display_width(c, false), 1);
    }
    assert_eq!(label_display_width("Hello, tabs!", false), 12);
}

#[test]
fn new_nav_starts_with_plain_styles() {
    let tabs = ["A"];
    let nav = TabNav::new(&tabs, 0);
    assert_eq!(nav.style, Style::new());
    assert_eq!(nav.highlight_style, Style::new());
    assert_eq!(nav.border_style, Style::new());
}

#[test]
fn position_configs_keep_their_caps() {
    let tabs = ["A", "B"];
    let nav = TabNav::new(&tabs, 0).horizontal_position_config(HorizontalPosition::Bottom.max(5));
    assert_eq!(
        nav.horizontal_position,
        HorizontalPositionConfig { position: HorizontalPosition::Bottom, max_visible: Some(5) }
    );
    let rail = TabNav::new(&tabs, 0).vertical_position_config(VerticalPosition::Right.max(2));
    assert_eq!(
        rail.vertical_position,
        VerticalPositionConfig { position: VerticalPosition::Right, max_visible: Some(2) }
    );
}

#[test]
fn flash_lights_its_tab_in_the_first_and_third_segments() {
    let flash = SelectionFlash { tab: 3, started: std::time::Instant::now() };
    assert_eq!(lit_tab_at(flash, 0), Some(3));
    assert_eq!(lit_tab_at(flash, 149), Some(3));
    assert_eq!(lit_tab_at(flash, 150), None);
    assert_eq!(lit_tab_at(flash, 299), None);
    assert_eq!(lit_tab_at(flash, 300), Some(3));
    assert_eq!(lit_tab_at(flash, 449), Some(3));
    assert_eq!(lit_tab_at(flash, 450), None);
    assert_eq!(lit_tab_at(flash, 600), None);
    assert_eq!(lit_tab_at(flash, 750), None);
}
