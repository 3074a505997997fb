use bookstore::layout::column_widths;

#[test]
fn views_test_chunk_split() {
    let width = 50;

    assert_eq!(column_widths(width, 0), Vec::<u16>::new());

    for i in 1..width {
        assert_eq!(column_widths(width, i).iter().sum::<u16>(), width);
    }
}

#[test]
fn column_widths_even_and_leading_wider() {
    assert_eq!(column_widths(10, 3), vec![4, 3, 3]);
    assert_eq!(column_widths(10, 4), vec![3, 3, 2, 2]);
    assert_eq!(column_widths(3, 5), vec![1, 1, 1, 0, 0]);
    assert_eq!(column_widths(0, 2), vec![0, 0]);
    for n in 1..20u16 {
        let a = column_widths(37, n);
        let b = column_widths(37, n + 1);
        for i in 0..usize::from(n) {
            assert!(b[i] <= a[i]);
        }
        let max = *a.iter().max().unwrap();
        let min = *a.iter().min().unwrap();
        assert!(max - min <= 1);
    }
}
