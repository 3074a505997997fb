use bookstore::page_window::{
    fill_after_scroll_up, plan_scroll_down, plan_scroll_up, settle_scroll_down, top_after_fill,
    window_range, ScrollPlan,
};

#[test]
fn window_within_loaded_books() {
    assert_eq!(window_range(2, 5, 10), Some((2, 7)));
    assert_eq!(window_range(8, 5, 10), Some((8, 10)));
    assert_eq!(window_range(12, 5, 10), None);
}

#[test]
fn scrolling_down_loads_when_short() {
    assert_eq!(plan_scroll_down(0, 5, 1, 10), ScrollPlan::Move(1));
    assert_eq!(plan_scroll_down(4, 5, 1, 10), ScrollPlan::LoadAfter(0));
    assert_eq!(plan_scroll_down(4, 5, 3, 10), ScrollPlan::LoadAfter(2));
    assert_eq!(settle_scroll_down(5, 12), ScrollPlan::Move(7));
    assert_eq!(settle_scroll_down(5, 3), ScrollPlan::LoadBefore(2));
}

#[test]
fn scrolling_up_loads_when_short() {
    assert_eq!(plan_scroll_up(4, 1), ScrollPlan::Move(3));
    assert_eq!(plan_scroll_up(1, 4), ScrollPlan::LoadBefore(3));
    assert_eq!(fill_after_scroll_up(3, 5, 10), None);
    assert_eq!(fill_after_scroll_up(6, 5, 10), Some(1));
    assert_eq!(top_after_fill(6, 5, 10), 5);
    assert_eq!(top_after_fill(2, 5, 10), 2);
    assert_eq!(top_after_fill(2, 5, 3), 0);
}
