use bookstore::basic_input::{CommandString, EditState};
use bookstore::basic_keys::{basic_column_event, basic_complete, basic_edit_event, BasicEditTask};
use bookstore::key_input::{ColumnTask, InputEvent, Key, KeyPress, ListMove};
use bookstore::user_input::AutoCompleter;

fn press(k: Key) -> InputEvent {
    InputEvent::Key(KeyPress { key: k, shift: false, control: false, alt: false })
}

#[test]
fn basic_book_list_keys() {
    let mut c = CommandString::new();
    for ch in "!d 4".chars() {
        assert!(matches!(
            basic_column_event(&mut c, press(Key::Char(ch)), false, false, false, 2),
            ColumnTask::Update
        ));
    }
    assert!(matches!(
        basic_column_event(&mut c, press(Key::Delete), false, false, false, 2),
        ColumnTask::Update
    ));
    match basic_column_event(&mut c, press(Key::Enter), false, false, false, 2) {
        ColumnTask::Run(args) => assert_eq!(args, vec!["!d".to_string(), "4".to_string()]),
        _ => panic!("expected the command to run"),
    }
    assert!(c.is_empty());
    assert!(matches!(
        basic_column_event(&mut c, press(Key::Delete), false, false, false, 2),
        ColumnTask::DeleteSelected
    ));
    assert!(matches!(
        basic_column_event(&mut c, press(Key::PageUp), false, false, false, 2),
        ColumnTask::Move(ListMove::PageUp)
    ));
    assert!(matches!(
        basic_column_event(&mut c, InputEvent::ScrollUp(0, 0), false, true, true, 2),
        ColumnTask::ScrollDetails(false, 2)
    ));
    assert!(matches!(
        basic_column_event(&mut c, press(Key::F(2)), true, false, false, 2),
        ColumnTask::ToEdit
    ));
}

#[test]
fn basic_completion_of_add() {
    let mut c = CommandString::new();
    for ch in "!a -d bo".chars() {
        basic_column_event(&mut c, press(Key::Char(ch)), false, false, false, 2);
    }
    match basic_column_event(&mut c, press(Key::Tab), false, false, false, 2) {
        ColumnTask::Complete(Some(w)) => assert_eq!(w, "bo"),
        _ => panic!("expected a word to complete"),
    }
    c.set_auto_fill(AutoCompleter::new(
        "bo".to_string(),
        vec![("box.epub".to_string(), false), ("books".to_string(), true)],
    ));
    basic_complete(&mut c);
    assert_eq!(c.to_string(), "!a -d books");
}

#[test]
fn basic_field_editor_keys() {
    let mut e = EditState::new("Dune", 2);
    match basic_edit_event(&mut e, press(Key::Right), 1, 3) {
        BasicEditTask::Show(s) => assert_eq!(s, "Dune"),
        _ => panic!("expected the value shown"),
    }
    match basic_edit_event(&mut e, press(Key::Char('!')), 1, 3) {
        BasicEditTask::Show(s) => assert_eq!(s, "Dune!"),
        _ => panic!("expected the value shown"),
    }
    match basic_edit_event(&mut e, press(Key::Down), 1, 3) {
        BasicEditTask::Reload(Some(v), 2) => assert_eq!(v, "Dune!"),
        _ => panic!("expected a write and a move"),
    }
    assert!(matches!(basic_edit_event(&mut e, press(Key::Up), 0, 3), BasicEditTask::Reload(None, 0)));
    match basic_edit_event(&mut e, press(Key::Enter), 1, 3) {
        BasicEditTask::WriteAndClose(v) => assert_eq!(v, "Dune!"),
        _ => panic!("expected a write"),
    }
    let mut e = EditState::new("Emma", 0);
    match basic_edit_event(&mut e, press(Key::Esc), 0, 1) {
        BasicEditTask::RestoreAndClose(v) => assert_eq!(v, "Emma"),
        _ => panic!("expected a restore"),
    }
    assert!(matches!(basic_edit_event(&mut e, InputEvent::Resize, 0, 1), BasicEditTask::Update));
    assert_eq!(e.selected, 0);
}
