use bookstore::paged_view::PageView;

#[test]
fn paged_view_test_at_end() {
    let view = PageView::new(25, vec![0; 20]);
    assert!(view.at_end());
    let mut view = PageView::new(20, vec![0; 40]);
    assert!(!view.at_end());
    view.scroll_down(10);
    assert!(!view.at_end());
    view.scroll_down(10);
    assert!(view.at_end());
}

#[test]
fn paged_view_test_window_slice() {
    let vals: Vec<_> = (0..50).into_iter().collect();
    let mut view = PageView::new(25, vals.clone());
    assert!(view.window_slice().eq(&vals[0..25]));
    view.scroll_down(10);
    assert!(view.window_slice().eq(&vals[10..35]));
    view.scroll_down(20);
    assert!(view.window_slice().eq(&vals[25..50]));
}

#[test]
fn paged_view_test_scroll() {
    let mut view = PageView::new(25, vec![0; 50]);
    assert_eq!(view.window_slice().len(), 25);
    view.scroll_down(10);
    assert_eq!(view.window_slice().len(), 25);
    view.scroll_down(20);
    assert_eq!(view.window_slice().len(), 25);
    view.scroll_down(100);
    assert_eq!(view.window_slice().len(), 25);
    view.scroll_up(10);
    assert_eq!(view.window_slice().len(), 25);
    view.scroll_up(20);
    assert_eq!(view.window_slice().len(), 25);
    view.scroll_up(100);
    assert_eq!(view.window_slice().len(), 25);
}

#[test]
fn paged_view_test_selected_never_out_of_bounds() {
    let mut view = PageView::new(25, vec![0; 50]);
    view.select(Some(15));
    assert!(view.selected().unwrap() < 25);
    view.end();
    assert!(view.selected().unwrap() < 25);
    view.home();
    assert!(view.selected().unwrap() < 25);
    view.scroll_down(40);
    assert!(view.selected().unwrap() < 25);
    view.scroll_down(15);
    assert!(view.selected().unwrap() < 25);
    view.scroll_up(15);
    assert!(view.selected().unwrap() < 25);
    view.scroll_up(40);
    assert!(view.selected().unwrap() < 25);
}

#[test]
fn paged_view_moves_and_resizes() {
    let mut view = PageView::new(10, (0..30).collect::<Vec<u32>>());
    assert!(view.select_down());
    assert_eq!(view.selected(), Some(9));
    assert_eq!(view.selected_item(), Some(&9));
    assert!(view.select_down());
    assert_eq!(view.selected(), Some(9));
    assert_eq!(view.selected_item(), Some(&10));
    assert!(view.page_down());
    assert_eq!(view.selected_item(), Some(&20));
    assert!(view.page_down());
    assert_eq!(view.selected_item(), Some(&29));
    assert!(view.page_up());
    assert_eq!(view.selected_item(), Some(&19));
    assert!(view.select_up());
    assert_eq!(view.selected(), Some(8));
    view.refresh_window_size(5);
    assert_eq!(view.window_size(), 5);
    assert_eq!(view.selected(), Some(4));
    assert_eq!(view.selected_item(), Some(&18));
    view.refresh_data(vec![1, 2, 3]);
    assert_eq!(view.window_slice(), &[1, 2, 3][..]);
    assert!(view.home());
    assert_eq!(view.selected(), Some(0));
    assert!(view.at_top());
    assert_eq!(view.data(), &vec![1, 2, 3]);
    view.data_mut().push(4);
    assert_eq!(view.data().len(), 4);
    assert!(view.select(None));
    assert_eq!(view.selected_item(), None);
}
