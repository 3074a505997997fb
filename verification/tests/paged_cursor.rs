use bookstore::paged_cursor::{Direction, PageCursorMultiple, Selection};

#[test]
fn paged_cursor_test_at_end() {
    let cursor = PageCursorMultiple::new(20, 25);
    assert!(cursor.at_end());
    let mut cursor = PageCursorMultiple::new(40, 25);
    assert!(!cursor.at_end());
    cursor.scroll_down(10);
    assert!(!cursor.at_end());
    cursor.scroll_down(10);
    assert!(cursor.at_end());
}

#[test]
fn cursor_select_up() {
    let mut cursor = PageCursorMultiple::new(20, 25);
    assert!(cursor.select_up(1));
    assert_eq!(cursor.selected(), Some(&Selection::Single(0)));
    assert!(!cursor.select_up(1));
    assert_eq!(cursor.selected(), Some(&Selection::Single(0)));
    assert!(!cursor.select_up(5));
    assert_eq!(cursor.selected(), Some(&Selection::Single(0)));
    cursor.select_down(5);
    assert_eq!(cursor.selected(), Some(&Selection::Range(0, 6, Direction::Down)));
    cursor.select_up(1);
    assert_eq!(cursor.selected(), Some(&Selection::Range(0, 5, Direction::Down)));
    cursor.select_up(3);
    assert_eq!(cursor.selected(), Some(&Selection::Range(0, 2, Direction::Down)));
    cursor.select_up(100);
    assert_eq!(cursor.selected(), Some(&Selection::Single(0)));

    assert!(cursor.select_down(25));
    assert_eq!(cursor.top_index(), 0);
    assert!(cursor.down());
    assert_eq!(cursor.top_index(), 0);
    assert_eq!(cursor.selected(), Some(&Selection::Single(19)));
    cursor.select_index(10);
    assert!(cursor.select_up(5));
    assert_eq!(cursor.selected(), Some(&Selection::Range(5, 11, Direction::Up)));
    assert!(cursor.select_down(10));
    assert_eq!(cursor.selected(), Some(&Selection::Range(10, 16, Direction::Down)));
    assert!(cursor.select_up(15));
    assert_eq!(cursor.selected(), Some(&Selection::Range(0, 11, Direction::Up)));
}

#[test]
fn paged_cursor_test_window_slice() {
    let mut cursor = PageCursorMultiple::new(50, 25);
    assert!(cursor.window_range().eq(0..25));
    assert!(cursor.scroll_down(10));
    assert!(cursor.window_range().eq(10..35));
    cursor.scroll_down(20);
    assert!(cursor.window_range().eq(25..50));
}

#[test]
fn paged_cursor_test_scroll() {
    let mut cursor = PageCursorMultiple::new(50, 25);
    assert_eq!(cursor.window_range().len(), 25);
    cursor.scroll_down(10);
    assert_eq!(cursor.window_range().len(), 25);
    cursor.scroll_down(20);
    assert_eq!(cursor.window_range().len(), 25);
    cursor.scroll_down(100);
    assert_eq!(cursor.window_range().len(), 25);
    cursor.scroll_up(10);
    assert_eq!(cursor.window_range().len(), 25);
    cursor.scroll_up(20);
    assert_eq!(cursor.window_range().len(), 25);
    cursor.scroll_up(100);
    assert_eq!(cursor.window_range().len(), 25);
}

#[test]
fn paged_cursor_test_selected_never_out_of_bounds() {
    let mut cursor = PageCursorMultiple::new(50, 25);
    cursor.select_relative(15);
    assert_eq!(cursor.selected(), Some(&Selection::Single(15)));
}

#[test]
fn test_select_up_down_no_select_when_empty() {
    let mut cursor = PageCursorMultiple::new(25, 0);
    assert!(!cursor.select_up(1));
    assert!(!cursor.select_down(1));
}

#[test]
fn cursor_at_end_needs_last_item() {
    // The window [14, 39) does not show item 39.
    let mut cursor = PageCursorMultiple::new(40, 25);
    cursor.scroll_down(14);
    assert_eq!(cursor.top_index(), 14);
    assert!(!cursor.at_end());
    cursor.scroll_down(1);
    assert_eq!(cursor.top_index(), 15);
    assert!(cursor.at_end());
}

#[test]
fn cursor_make_visible_in_the_middle() {
    let mut cursor = PageCursorMultiple::new(100, 10);
    assert!(cursor.select_index_and_make_visible(50));
    assert_eq!(cursor.selected(), Some(&Selection::Single(50)));
    assert_eq!(cursor.top_index(), 41);
    assert!(cursor.select_index_and_make_visible(45));
    assert_eq!(cursor.top_index(), 41);
    assert!(cursor.select_index_and_make_visible(20));
    assert_eq!(cursor.top_index(), 20);
}

#[test]
fn cursor_page_and_home_end() {
    let mut cursor = PageCursorMultiple::new(100, 10);
    assert!(cursor.down());
    assert_eq!(cursor.selected(), Some(&Selection::Single(0)));
    assert!(cursor.page_down());
    assert_eq!(cursor.selected(), Some(&Selection::Single(10)));
    assert_eq!(cursor.top_index(), 10);
    assert!(cursor.page_up());
    assert_eq!(cursor.selected(), Some(&Selection::Single(0)));
    assert_eq!(cursor.top_index(), 0);
    assert!(cursor.end());
    assert_eq!(cursor.top_index(), 90);
    assert_eq!(cursor.selected(), Some(&Selection::Single(99)));
    assert!(cursor.home());
    assert_eq!(cursor.top_index(), 0);
    assert_eq!(cursor.selected(), Some(&Selection::Single(0)));
    assert!(cursor.up() == false);
    assert!(cursor.deselect());
    assert_eq!(cursor.selected(), None);
    assert!(!cursor.deselect());
}

#[test]
fn cursor_refresh_and_visible_selection() {
    let mut cursor = PageCursorMultiple::new(100, 10);
    assert!(cursor.select_index_and_make_visible(95));
    assert_eq!(cursor.top_index(), 90);
    assert_eq!(cursor.selected(), Some(&Selection::Single(95)));
    cursor.refresh_height(50);
    assert_eq!(cursor.top_index(), 40);
    assert_eq!(cursor.selected(), None);
    assert!(cursor.refresh_window_size(20));
    assert_eq!(cursor.top_index(), 30);
    assert_eq!(cursor.window_size(), 20);
    assert!(!cursor.refresh_window_size(20));
    cursor.refresh_height(0);
    assert_eq!(cursor.top_index(), 0);
}

#[test]
fn cursor_select_page_and_to_ends() {
    let mut cursor = PageCursorMultiple::new(30, 10);
    cursor.select_index(5);
    assert!(cursor.select_page_down());
    assert_eq!(cursor.selected(), Some(&Selection::Range(5, 16, Direction::Down)));
    assert!(cursor.select_to_end());
    assert_eq!(cursor.selected(), Some(&Selection::Range(5, 30, Direction::Down)));
    assert_eq!(cursor.top_index(), 20);
    cursor.select_index(12);
    assert!(cursor.select_to_home());
    assert_eq!(cursor.selected(), Some(&Selection::Range(0, 13, Direction::Up)));
    assert_eq!(cursor.top_index(), 0);
    cursor.select_index(12);
    assert!(cursor.select_page_up());
    assert_eq!(cursor.selected(), Some(&Selection::Range(2, 13, Direction::Up)));
}
