use ratatui_comfy_tabs::{
    TabReorderPolicy, can_drag_index, can_drop_at, is_pinned, movable_indices,
    remap_selected_index, remap_selected_index_with_pins, try_reorder,
};

#[test]
fn all_pinned_rejects_reorder() {
    let mut items = vec!['a', 'b', 'c'];
    assert!(!try_reorder(
        &mut items,
        0,
        2,
        TabReorderPolicy::AllPinned,
        None
    ));
}

#[test]
fn none_pinned_reorders() {
    let mut items = vec!['a', 'b', 'c', 'd'];
    assert!(try_reorder(
        &mut items,
        1,
        3,
        TabReorderPolicy::NonePinned,
        None
    ));
    assert_eq!(items, ['a', 'c', 'd', 'b']);
}

#[test]
fn some_pinned_keeps_pinned_slot() {
    let mut items = vec!['a', 'b', 'c', 'd'];
    let pinned = [true, false, true, false];
    assert!(!try_reorder(
        &mut items,
        0,
        2,
        TabReorderPolicy::SomePinned,
        Some(&pinned)
    ));
    assert!(!try_reorder(
        &mut items,
        1,
        2,
        TabReorderPolicy::SomePinned,
        Some(&pinned)
    ));
    assert!(try_reorder(
        &mut items,
        1,
        3,
        TabReorderPolicy::SomePinned,
        Some(&pinned)
    ));
    assert_eq!(items, ['a', 'd', 'c', 'b']);
}

#[test]
fn some_pinned_preserves_anchor_when_moving_across_pinned() {
    let mut items = vec!['a', 'b', 'c', 'd', 'e'];
    let pinned = [true, false, true, false, false];
    assert!(try_reorder(
        &mut items,
        1,
        4,
        TabReorderPolicy::SomePinned,
        Some(&pinned)
    ));
    assert_eq!(items, ['a', 'd', 'c', 'e', 'b']);
    assert_eq!(items[2], 'c');
}

#[test]
fn remap_selected_follows_move() {
    assert_eq!(remap_selected_index(1, 1, 3), 3);
    assert_eq!(remap_selected_index(2, 1, 3), 1);
}

#[test]
fn remap_selected_outside_move_is_unchanged() {
    assert_eq!(remap_selected_index(0, 1, 3), 0);
    assert_eq!(remap_selected_index(4, 1, 3), 4);
    assert_eq!(remap_selected_index(2, 3, 1), 3);
    assert_eq!(remap_selected_index(3, 3, 1), 1);
}

#[test]
fn remap_with_pins_follows_move_among_movable() {
    let pinned = [true, false, true, false, false];
    // Moving movable tab 1 to slot 4: movable order 1,3,4 becomes 3,4,1.
    assert_eq!(remap_selected_index_with_pins(1, 1, 4, Some(&pinned)), 4);
    assert_eq!(remap_selected_index_with_pins(3, 1, 4, Some(&pinned)), 1);
    assert_eq!(remap_selected_index_with_pins(4, 1, 4, Some(&pinned)), 3);
    // Pinned slots keep their selection.
    assert_eq!(remap_selected_index_with_pins(2, 1, 4, Some(&pinned)), 2);
    assert_eq!(remap_selected_index_with_pins(0, 1, 4, Some(&pinned)), 0);
    // Without pins it is the plain remap.
    assert_eq!(remap_selected_index_with_pins(2, 1, 3, None), remap_selected_index(2, 1, 3));
}

#[test]
fn remap_then_reorder_keeps_selected_item() {
    let mut items = vec!['a', 'b', 'c', 'd', 'e'];
    let pinned = [true, false, true, false, false];
    let selected_item = items[3];
    let new_index = remap_selected_index_with_pins(3, 1, 4, Some(&pinned));
    assert!(try_reorder(&mut items, 1, 4, TabReorderPolicy::SomePinned, Some(&pinned)));
    assert_eq!(items[new_index], selected_item);
}

#[test]
fn pins_and_drag_drop_rules() {
    let pinned = [true, false, true];
    assert!(is_pinned(0, Some(&pinned)));
    assert!(!is_pinned(1, Some(&pinned)));
    assert!(!is_pinned(5, Some(&pinned)));
    assert!(!is_pinned(0, None));

    assert!(!can_drag_index(1, TabReorderPolicy::AllPinned, None));
    assert!(can_drag_index(0, TabReorderPolicy::NonePinned, None));
    assert!(can_drag_index(1, TabReorderPolicy::SomePinned, Some(&pinned)));
    assert!(!can_drag_index(2, TabReorderPolicy::SomePinned, Some(&pinned)));

    assert!(can_drop_at(1, 1, TabReorderPolicy::AllPinned, None));
    assert!(!can_drop_at(0, 2, TabReorderPolicy::AllPinned, None));
    assert!(can_drop_at(0, 2, TabReorderPolicy::NonePinned, None));
    assert!(!can_drop_at(1, 0, TabReorderPolicy::SomePinned, Some(&pinned)));
    assert!(!can_drop_at(1, 2, TabReorderPolicy::SomePinned, Some(&pinned)));
    let more = [true, false, true, false];
    assert!(can_drop_at(1, 3, TabReorderPolicy::SomePinned, Some(&more)));

    assert_eq!(movable_indices(5, Some(&[true, false, true, false, false])), vec![1, 3, 4]);
    assert_eq!(movable_indices(3, None), vec![0, 1, 2]);
}

#[test]
fn out_of_range_reorder_is_rejected() {
    let mut items = vec!['a', 'b'];
    assert!(!try_reorder(&mut items, 0, 5, TabReorderPolicy::NonePinned, None));
    assert!(!try_reorder(&mut items, 7, 0, TabReorderPolicy::NonePinned, None));
    assert_eq!(items, ['a', 'b']);
    // Dropping a tab onto itself is accepted and changes nothing.
    assert!(try_reorder(&mut items, 1, 1, TabReorderPolicy::NonePinned, None));
    assert_eq!(items, ['a', 'b']);
}
