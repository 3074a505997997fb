use bookstore::edit::Edit::{Delete, Insert, MoveLeft, MoveRight};
use bookstore::edit::{EditStart, UserEdit};

#[test]
fn test_edit() {
    let mut edit = UserEdit {
        edits: vec![MoveLeft(5), MoveRight(5), Insert(vec!['a', 'b', 'c'])],
        start: EditStart::FromEnd,
    };
    assert_eq!(edit.apply("hello").as_str(), "helloabc");
    edit.start = EditStart::FromStart;
    assert_eq!(edit.apply("hello").as_str(), "helloabc");
    edit.start = EditStart::DeleteAll;
    assert_eq!(edit.apply("hello").as_str(), "abc");
}

#[test]
fn edit_delete_removes_backwards() {
    let edit = UserEdit { edits: vec![Delete(2)], start: EditStart::FromEnd };
    assert_eq!(edit.apply("hello").as_str(), "hel");
    let edit = UserEdit { edits: vec![Delete(2)], start: EditStart::FromStart };
    assert_eq!(edit.apply("abcdef").as_str(), "abcdef");
    let edit = UserEdit { edits: vec![MoveRight(4), Delete(2)], start: EditStart::FromStart };
    assert_eq!(edit.apply("abcdef").as_str(), "abef");
    let edit = UserEdit { edits: vec![MoveLeft(1), Delete(9), Insert(vec!['x'])], start: EditStart::FromEnd };
    assert_eq!(edit.apply("abc").as_str(), "xc");
    let edit = UserEdit { edits: vec![MoveLeft(3), Insert(vec!['x'])], start: EditStart::FromEnd };
    assert_eq!(edit.apply("abcdef").as_str(), "abcxdef");
}

#[test]
fn edit_sql_replaces_value() {
    let edit = UserEdit { edits: vec![Insert(vec!['a', 'b'])], start: EditStart::DeleteAll };
    let (expr, binds) = edit.sql();
    assert_eq!(expr, "?");
    assert_eq!(binds, vec!["ab".to_string()]);
    let d = UserEdit::default();
    assert_eq!(d.start, EditStart::FromEnd);
    assert!(d.edits.is_empty());
}
