use bookstore::paginator::{add_id, BookKey, QueryBuilder, Variable};
use bookstore::records::{ColumnIdentifier, ColumnOrder};

#[test]
fn query_for_first_page() {
    let q = QueryBuilder::default().sort_rules(&vec![(ColumnIdentifier::Title, ColumnOrder::Ascending)]);
    let (sql, binds) = q.join_cols(None);
    assert_eq!(
        sql,
        "SELECT ATABLE.book_id FROM (SELECT book_id, title as a from books) as ATABLE INNER JOIN (SELECT book_id, book_id as b from books) as BTABLE ON BTABLE.book_id = ATABLE.book_id   ORDER BY a ASC, b ASC LIMIT ?;"
    );
    assert!(binds.is_empty());
}

#[test]
fn query_after_a_book() {
    let q = QueryBuilder::default()
        .sort_rules(&vec![(ColumnIdentifier::Title, ColumnOrder::Ascending)])
        .order(ColumnOrder::Ascending)
        .include_id(true);
    let key = BookKey { id: 7, values: vec!["T".to_string(), "".to_string()] };
    let (sql, binds) = q.join_cols(Some(&key));
    assert_eq!(
        sql,
        "SELECT ATABLE.book_id FROM (SELECT book_id, title as a from books) as ATABLE INNER JOIN (SELECT book_id, book_id as b from books) as BTABLE ON BTABLE.book_id = ATABLE.book_id  WHERE (ATABLE.a <= ? AND BTABLE.b <= ?) ORDER BY a DESC, b DESC LIMIT ?;"
    );
    assert_eq!(binds, vec![Variable::Str("T".to_string()), Variable::Int(7)]);
}

#[test]
fn query_with_named_tag_and_exclusive_id() {
    let q = QueryBuilder::default()
        .sort_rules(&vec![(ColumnIdentifier::ExtendedTag("genre".to_string()), ColumnOrder::Descending)]);
    let key = BookKey { id: 3, values: vec!["sf".to_string(), String::new()] };
    let (sql, binds) = q.join_cols(Some(&key));
    assert!(sql.contains("WHERE (ATABLE.a <= ? AND BTABLE.b > ?)"));
    assert!(sql.ends_with("ORDER BY a DESC, b ASC LIMIT ?;"));
    assert_eq!(binds, vec![Variable::Str("genre".to_string()), Variable::Str("sf".to_string()), Variable::Int(3)]);
}

#[test]
fn add_id_only_when_missing() {
    let r = add_id(vec![(ColumnIdentifier::Author, ColumnOrder::Descending)]);
    assert_eq!(r, vec![(ColumnIdentifier::Author, ColumnOrder::Descending), (ColumnIdentifier::ID, ColumnOrder::Ascending)]);
    let r = add_id(vec![(ColumnIdentifier::ID, ColumnOrder::Descending)]);
    assert_eq!(r, vec![(ColumnIdentifier::ID, ColumnOrder::Descending)]);
}
