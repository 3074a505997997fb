use bookstore::scrollable_text::{BlindOffset, ScrollableText};

#[test]
fn scrollable_text_stays_in_range() {
    let mut t = ScrollableText::new("a\nb\nc\nd\ne\n");
    t.refresh_window_height(2);
    t.scroll_down(10);
    assert_eq!(t.offset(), 3);
    t.page_up();
    assert_eq!(t.offset(), 1);
    t.scroll_up(5);
    assert_eq!(t.offset(), 0);
    t.page_down();
    assert_eq!(t.offset(), 2);
    t.end();
    assert_eq!(t.offset(), 3);
    t.home();
    assert_eq!(t.offset(), 0);
    assert_eq!(t.text(), "a\nb\nc\nd\ne\n");
}

#[test]
fn scrollable_text_counts_lines() {
    let mut t = ScrollableText::new("one\ntwo");
    t.end();
    assert_eq!(t.offset(), 2);
    let mut e = ScrollableText::new("");
    e.scroll_down(3);
    assert_eq!(e.offset(), 0);
}

#[test]
fn blind_offset_limits_to_height() {
    let mut b = BlindOffset::new();
    b.refresh_window_height(10);
    b.end();
    assert_eq!(b.offset_with_height(25), 15);
    b.page_up();
    assert_eq!(b.offset_with_height(25), 5);
    b.page_down();
    b.scroll_down(100);
    assert_eq!(b.offset_with_height(4), 0);
    b.scroll_down(3);
    b.scroll_up(1);
    assert_eq!(b.offset_with_height(100), 2);
    b.home();
    assert_eq!(b.offset_with_height(100), 0);
}
