use bookstore::key_input::{
    help_event, HelpTask, global_key, GlobalKey, ColumnContext, ColumnInput, ColumnTask, EditTask, EditWidget, InputEvent, Key, KeyPress,
    ListMove,
};
use bookstore::scrollable_text::ScrollableText;
use bookstore::user_input::{AutoCompleter, CommandString, EditState};

fn key(k: Key) -> InputEvent {
    InputEvent::Key(KeyPress { key: k, shift: false, control: false, alt: false })
}

fn shift(k: Key) -> InputEvent {
    InputEvent::Key(KeyPress { key: k, shift: true, control: false, alt: false })
}

fn ctrl(c: char) -> InputEvent {
    InputEvent::Key(KeyPress { key: Key::Char(c), shift: false, control: true, alt: false })
}

fn ctx(book_selected: bool) -> ColumnContext {
    ColumnContext { book_selected, over_details: false, inverted: false, scroll: 3, clipboard: true }
}

#[test]
fn field_editor_keys() {
    let mut w = EditWidget { edit: EditState::new("Dune"), focused: false };
    assert!(matches!(w.handle_event(key(Key::Char('X')), true, 1, 3), EditTask::Update));
    assert_eq!(w.edit.value_to_string(), "X");
    match w.handle_event(key(Key::Tab), true, 1, 3) {
        EditTask::SaveAndMoveColumn(Some(v), Some(2)) => assert_eq!(v, "X"),
        _ => panic!("expected a save and a move to the next column"),
    }
    let mut w = EditWidget { edit: EditState::new("Dune"), focused: false };
    assert!(matches!(
        w.handle_event(key(Key::Tab), true, 2, 3),
        EditTask::SaveAndMoveColumn(None, None)
    ));
    assert!(matches!(w.handle_event(key(Key::Enter), true, 2, 3), EditTask::Update));
    assert!(w.focused);
    assert!(matches!(w.handle_event(key(Key::Left), true, 2, 3), EditTask::Update));
    assert!(matches!(w.handle_event(ctrl('c'), true, 2, 3), EditTask::Copy(ref s) if s == "Dune"));
    assert!(matches!(w.handle_event(ctrl('c'), false, 2, 3), EditTask::Update));
    assert!(matches!(w.handle_event(ctrl('d'), true, 2, 3), EditTask::Update));
    assert!(!w.focused);
    assert!(matches!(w.handle_event(ctrl('d'), true, 2, 3), EditTask::ToColumns));
    assert!(matches!(w.handle_event(key(Key::Down), true, 2, 3), EditTask::SaveAndMoveRow(_, true)));
    assert!(matches!(w.handle_event(key(Key::Esc), true, 2, 3), EditTask::ToColumns));
    assert!(matches!(w.handle_event(InputEvent::OtherMouse, true, 2, 3), EditTask::Nothing));
    let mut w = EditWidget { edit: EditState::new("Dune"), focused: true };
    w.handle_event(key(Key::Backspace), true, 0, 1);
    assert_eq!(w.edit.value_to_string(), "");
    match w.handle_event(key(Key::Enter), true, 0, 1) {
        EditTask::SaveAndClose(Some(v)) => assert_eq!(v, ""),
        _ => panic!("expected a save"),
    }
    assert!(!w.focused);
}

#[test]
fn book_list_keys() {
    let mut c = ColumnInput { command: CommandString::new(), command_selected: false };
    assert!(matches!(c.handle_event(key(Key::Down), ctx(true)), ColumnTask::Move(ListMove::Down)));
    assert!(matches!(
        c.handle_event(shift(Key::PageDown), ctx(true)),
        ColumnTask::Move(ListMove::SelectPageDown)
    ));
    assert!(matches!(c.handle_event(key(Key::Enter), ctx(true)), ColumnTask::ToEdit));
    assert!(matches!(c.handle_event(key(Key::Enter), ctx(false)), ColumnTask::Update));
    assert!(c.command_selected);
    assert!(matches!(c.handle_event(key(Key::Delete), ctx(true)), ColumnTask::DeleteSelected));
    for ch in ":d 3".chars() {
        c.handle_event(key(Key::Char(ch)), ctx(false));
    }
    assert!(matches!(c.handle_event(key(Key::Home), ctx(false)), ColumnTask::Update));
    match c.handle_event(key(Key::Enter), ctx(false)) {
        ColumnTask::Run(args) => assert_eq!(args, vec![":d".to_string(), "3".to_string()]),
        _ => panic!("expected the command to run"),
    }
    assert!(c.command.is_empty());
    assert!(matches!(c.handle_event(ctrl('d'), ctx(false)), ColumnTask::DeselectBooks));
    assert!(!c.command_selected);
    assert!(matches!(c.handle_event(key(Key::Esc), ctx(false)), ColumnTask::Escape));
    assert!(matches!(
        c.handle_event(InputEvent::ScrollDown(1, 1), ctx(false)),
        ColumnTask::Move(ListMove::ScrollDown(3))
    ));
    let over = ColumnContext { over_details: true, inverted: true, ..ctx(true) };
    assert!(matches!(c.handle_event(InputEvent::ScrollDown(1, 1), over), ColumnTask::ScrollDetails(true, 3)));
}

#[test]
fn book_list_completion() {
    let mut c = ColumnInput { command: CommandString::new(), command_selected: true };
    for ch in ":a -d bo".chars() {
        c.handle_event(key(Key::Char(ch)), ctx(false));
    }
    match c.handle_event(key(Key::Tab), ctx(false)) {
        ColumnTask::Complete(Some(w)) => assert_eq!(w, "bo"),
        _ => panic!("expected a word to complete"),
    }
    c.command.set_auto_fill(AutoCompleter::new(
        "bo".to_string(),
        vec![("box.epub".to_string(), false), ("books".to_string(), true)],
    ));
    c.complete();
    assert_eq!(c.command.to_string(), ":a -d books");
    assert!(matches!(c.handle_event(key(Key::Tab), ctx(false)), ColumnTask::Complete(None)));
}

#[test]
fn control_q_quits_and_control_s_saves() {
    assert_eq!(global_key(ctrl('q')), GlobalKey::Quit);
    assert_eq!(global_key(ctrl('s')), GlobalKey::Save);
    assert_eq!(global_key(key(Key::Char('q'))), GlobalKey::ToView);
    let both = InputEvent::Key(KeyPress { key: Key::Char('q'), shift: true, control: true, alt: false });
    assert_eq!(global_key(both), GlobalKey::ToView);
    assert_eq!(global_key(InputEvent::Resize), GlobalKey::ToView);
}

#[test]
fn help_text_scrolls() {
    let lines: Vec<String> = (0..20).map(|i| format!("line {}", i)).collect();
    let mut t = ScrollableText::new(&lines.join("\n"));
    t.refresh_window_height(5);
    assert_eq!(help_event(&mut t, key(Key::Down), false, 3), HelpTask::Update);
    assert_eq!(t.offset(), 1);
    assert_eq!(help_event(&mut t, key(Key::End), false, 3), HelpTask::Update);
    assert_eq!(t.offset(), 15);
    assert_eq!(help_event(&mut t, key(Key::PageUp), false, 3), HelpTask::Update);
    assert_eq!(t.offset(), 10);
    assert_eq!(help_event(&mut t, InputEvent::ScrollDown(0, 0), true, 3), HelpTask::Update);
    assert_eq!(t.offset(), 7);
    assert_eq!(help_event(&mut t, InputEvent::ScrollUp(0, 0), true, 30), HelpTask::Update);
    assert_eq!(t.offset(), 15);
    assert_eq!(help_event(&mut t, key(Key::Home), false, 3), HelpTask::Update);
    assert_eq!(t.offset(), 0);
    assert_eq!(help_event(&mut t, key(Key::Esc), false, 3), HelpTask::ToColumns);
    assert_eq!(help_event(&mut t, key(Key::Tab), false, 3), HelpTask::Nothing);
}
