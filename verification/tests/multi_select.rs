use bookstore::multi_select::{get_items_bounds, MultiSelectListState};

#[test]
fn multi_select_front_is_smallest() {
    let mut s = MultiSelectListState::default();
    assert_eq!(s.front_selection(), None);
    s.select(7);
    s.select(3);
    s.select(9);
    assert_eq!(s.front_selection(), Some(3));
    s.deselect(3);
    assert_eq!(s.front_selection(), Some(7));
    assert_eq!(s.selected().len(), 2);
    s.deselect_all();
    assert!(s.selected().is_empty());
}

#[test]
fn items_bounds_keep_selection_in_view() {
    let ones = vec![1, 1, 1, 1, 1];
    assert_eq!(get_items_bounds(&ones, None, 0, 3), (0, 3));
    assert_eq!(get_items_bounds(&ones, Some(4), 0, 3), (2, 5));
    assert_eq!(get_items_bounds(&ones, Some(0), 4, 3), (0, 3));
    assert_eq!(get_items_bounds(&ones, Some(9), 9, 10), (4, 5));
    // An item taller than the rows is not shown.
    assert_eq!(get_items_bounds(&vec![2, 5, 1], Some(1), 0, 3), (1, 1));
    assert_eq!(get_items_bounds(&vec![2, 1, 3], Some(2), 0, 3), (2, 3));
}

#[test]
fn placing_items_moves_offset() {
    let mut s = MultiSelectListState::default();
    let heights = vec![1, 1, 1, 1, 1, 1];
    assert_eq!(s.place_items(&heights, 2), (0, 2));
    s.select(5);
    assert_eq!(s.place_items(&heights, 2), (4, 6));
    s.deselect_all();
    assert_eq!(s.place_items(&heights, 2), (0, 2));
}
