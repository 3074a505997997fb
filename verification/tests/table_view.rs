use bookstore::records::ColumnIdentifier;
use bookstore::table_view::TableView;

#[test]
fn table_columns_are_caseless_and_distinct() {
    let mut t = TableView::from_columns(vec!["Title".to_string(), "Authors".to_string()]);
    t.add_column("title".to_string());
    assert_eq!(t.selected_cols(), &vec!["Title".to_string(), "Authors".to_string()]);
    t.add_column("Series".to_string());
    assert_eq!(t.selected_cols().len(), 3);
    t.remove_column("AUTHORS");
    assert_eq!(t.selected_cols(), &vec!["Title".to_string(), "Series".to_string()]);
    assert_eq!(t.column_ids(), vec![ColumnIdentifier::Title, ColumnIdentifier::Series]);
    t.set_column_data(vec![vec!["Dune".to_string()], vec!["".to_string()]]);
    assert_eq!(t.get_column(0), &vec!["Dune".to_string()]);
    let h = t.header_cols();
    assert_eq!(h.len(), 2);
    assert_eq!(h[1].0, "Series");
    let d = TableView::default();
    assert!(d.selected_cols().is_empty());
}
