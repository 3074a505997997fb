use bookstore::records::{ColumnIdentifier, Edit};
use bookstore::sql_edit::{edit_statement, edit_statements, SqlValue};

fn columns() -> Vec<ColumnIdentifier> {
    vec![
        ColumnIdentifier::Title,
        ColumnIdentifier::Author,
        ColumnIdentifier::Description,
        ColumnIdentifier::ExtendedTag("genre".to_string()),
        ColumnIdentifier::Tags,
        ColumnIdentifier::ExactTag("old".to_string()),
    ]
}

#[test]
fn every_statement_binds_each_placeholder() {
    let edits = vec![
        Edit::Delete,
        Edit::Replace("x".to_string()),
        Edit::Append("y".to_string()),
    ];
    for c in columns() {
        for e in edits.iter() {
            let s = edit_statement(7, &c, e);
            assert_eq!(s.sql.matches('?').count(), s.params.len(), "{}", s.sql);
        }
    }
    for e in edits.iter().take(2) {
        let s = edit_statement(7, &ColumnIdentifier::Series, e);
        assert_eq!(s.sql.matches('?').count(), s.params.len(), "{}", s.sql);
    }
}

#[test]
fn title_and_tag_statements() {
    let s = edit_statement(3, &ColumnIdentifier::Title, &Edit::Replace("Dune".to_string()));
    assert_eq!(s.sql, "UPDATE books SET title = ? WHERE book_id = ?;");
    assert!(matches!(&s.params[..], [SqlValue::Text(t), SqlValue::Int(3)] if t == "Dune"));
    let s = edit_statement(
        4,
        &ColumnIdentifier::ExactTag("sci".to_string()),
        &Edit::Append("-fi".to_string()),
    );
    assert!(matches!(
        &s.params[..],
        [SqlValue::Text(a), SqlValue::Int(4), SqlValue::Text(b), SqlValue::Int(4)]
            if a == "sci" && b == "sci-fi"
    ));
    let s = edit_statement(5, &ColumnIdentifier::Series, &Edit::Replace("Dune [2]".to_string()));
    assert!(matches!(
        &s.params[..],
        [SqlValue::SeriesName(a), SqlValue::SeriesIndex(b), SqlValue::Int(5)]
            if a == "Dune [2]" && b == "Dune [2]"
    ));
    let all = edit_statements(
        9,
        &vec![
            (ColumnIdentifier::Tags, Edit::Delete),
            (ColumnIdentifier::Author, Edit::Append("Le Guin".to_string())),
        ],
    );
    assert_eq!(all.len(), 2);
    assert_eq!(all[0].sql, "DELETE FROM free_tags where book_id = ?;");
    assert!(all[1].sql.starts_with("INSERT INTO multimap_tags"));
}
