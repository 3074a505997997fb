use bookstore::basic_input::{CommandString, EditState};
use bookstore::user_input::AutoCompleter;

fn line(s: &str) -> CommandString {
    let mut c = CommandString::new();
    for ch in s.chars() {
        c.push(ch);
    }
    c
}

fn words(c: &CommandString) -> Vec<(bool, String)> {
    c.get_values()
}

#[test]
fn field_edit_replaces_on_first_key() {
    let mut e = EditState::new("Dune", 3);
    assert_eq!(e.visible(), "Dune");
    e.push('X');
    assert_eq!(e.visible(), "X");
    e.push('y');
    e.del();
    assert_eq!(e.visible(), "X");
    let mut e = EditState::new("Dune", 0);
    e.del();
    assert_eq!(e.visible(), "");
    let mut e = EditState::new("Dune", 0);
    e.edit_orig();
    e.push('!');
    assert_eq!(e.visible(), "Dune!");
    e.reset_orig("Emma".to_string());
    assert_eq!(e.visible(), "Emma");
    assert_eq!(e.selected, 0);
    let d = EditState::default();
    assert_eq!(d.visible(), "");
}

#[test]
fn line_words_at_spaces_and_quotes() {
    assert_eq!(
        words(&line("!a  books x")),
        vec![
            (false, "!a".to_string()),
            (false, "books".to_string()),
            (false, "x".to_string())
        ]
    );
    assert_eq!(
        words(&line("!e \"a b\"")),
        vec![
            (false, "!e".to_string()),
            (true, "a b".to_string()),
            (false, "\"".to_string())
        ]
    );
    // The closing quote begins the next word.
    assert_eq!(
        words(&line("\"ab\" c")),
        vec![
            (true, "ab".to_string()),
            (false, "\"".to_string()),
            (false, "c".to_string())
        ]
    );
    assert_eq!(words(&line("\"open word")), vec![(true, "open word".to_string())]);
    assert!(words(&line("   ")).is_empty());
    assert!(line("").is_empty());
}

#[test]
fn line_written_back_from_words() {
    let vals = vec![(false, "!a".to_string()), (true, "my books".to_string())];
    assert_eq!(CommandString::vals_to_string(&vals), "!a \"my books\"");
    let c = line("!s title -d");
    assert_eq!(CommandString::vals_to_string(&c.get_values()), "!s title -d");
    assert_eq!(c.to_string(), "!s title -d");
}

#[test]
fn line_completion_offers_paths() {
    let mut c = line("!a bo");
    assert_eq!(c.refresh_autofill(), Some("bo".to_string()));
    c.set_auto_fill(AutoCompleter::new(
        "bo".to_string(),
        vec![("books".to_string(), true), ("bo".to_string(), false)],
    ));
    assert_eq!(c.refresh_autofill(), None);
    c.auto_fill(false);
    assert_eq!(c.to_string(), "!a books");
    c.auto_fill(false);
    assert_eq!(c.to_string(), "!a bo");
    c.auto_fill(true);
    assert_eq!(c.to_string(), "!a books");
    c.push('/');
    assert_eq!(c.to_string(), "!a books/");
    c.pop();
    c.pop();
    assert_eq!(c.to_string(), "!a book");
    c.clear();
    assert!(c.is_empty());
}

#[test]
fn line_completion_keeps_flag() {
    let mut c = line("!a -d ");
    assert_eq!(c.refresh_autofill(), Some(String::new()));
    c.set_auto_fill(AutoCompleter::new(String::new(), vec![("my dir".to_string(), true)]));
    c.auto_fill(true);
    assert_eq!(c.to_string(), "!a -d \"my dir\"");
    c.write_back();
    assert_eq!(c.to_string(), "!a -d \"my dir\"");
    let d = CommandString::default();
    assert!(d.is_empty());
}
