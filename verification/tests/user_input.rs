use bookstore::user_input::{AutoCompleter, CharChunks, CommandString, EditState};

fn typed(s: &str) -> CommandString {
    let mut cs = CommandString::new();
    for c in s.chars() {
        cs.push(c);
    }
    cs
}

#[test]
fn test_command_splits() {
    let samples = vec![
        ("hello there!", vec![(false, "hello"), (false, "there!")]),
        ("\"hello there!", vec![(true, "hello there!")]),
        ("\"hello world\" there!", vec![(true, "hello world"), (false, "there!")]),
        ("!a -d x", vec![(false, "!a"), (false, "-d"), (false, "x")]),
        ("!e title \"hello world\"", vec![(false, "!e"), (false, "title"), (true, "hello world")]),
        (
            "!e title \"hello world\" field 12345",
            vec![
                (false, "!e"),
                (false, "title"),
                (true, "hello world"),
                (false, "field"),
                (false, "12345"),
            ],
        ),
        ("a \"b\" c 12", vec![(false, "a"), (true, "b"), (false, "c"), (false, "12")]),
        ("a \\b", vec![(false, "a"), (true, "b")]),
        ("a \" aaaa \\\" b", vec![(false, "a"), (true, " aaaa \" b")]),
        ("a ' hello ' \" hello \"", vec![(false, "a"), (true, " hello "), (true, " hello ")]),
        ("' \" ' \" ' \"", vec![(true, " \" "), (true, " \' ")]),
        ("a\\ b", vec![(true, "a b")]),
    ];

    for (word, expected) in samples {
        let cs = typed(word);
        let mut it = cs.get_values();
        let mut results = Vec::new();
        while let Some(v) = it.next() {
            results.push(v);
        }
        let expected: Vec<_> = expected.into_iter().map(|(b, s)| (b, s.to_owned())).collect();
        assert_eq!(results, expected);
        assert_eq!(cs.autofilled_values(), expected);
    }
}

#[test]
fn edit_state_first_key_replaces() {
    let mut e = EditState::new("hello");
    e.push('x');
    assert_eq!(e.value_to_string(), "x");
    let mut e = EditState::new("hello");
    e.key_left();
    e.push('x');
    assert_eq!(e.value_to_string(), "hellxo");
    e.backspace();
    assert_eq!(e.value_to_string(), "hello");
    e.extend("ab");
    assert_eq!(e.value_to_string(), "hellabo");
    let mut e = EditState::new("hello");
    e.del();
    assert_eq!(e.value_to_string(), "");
    assert!(e.started_edit);
}

#[test]
fn edit_state_selection() {
    let mut e = EditState::new("hello");
    e.key_shift_left();
    e.key_shift_left();
    assert_eq!(e.selected(), Some(&['l', 'o'][..]));
    match e.char_chunks() {
        CharChunks::Selected(a, b, c, _) => {
            assert_eq!(a, &['h', 'e', 'l'][..]);
            assert_eq!(b, &['l', 'o'][..]);
            assert!(c.is_empty());
        }
        CharChunks::Unselected(_, _) => panic!("expected a selection"),
    }
    e.push('p');
    assert_eq!(e.value_to_string(), "help");
    e.select_all();
    e.del();
    assert_eq!(e.value_to_string(), "");
    let mut e = EditState::new("abc");
    e.key_up();
    e.key_shift_right();
    assert_eq!(e.selected(), Some(&['a'][..]));
    e.key_right();
    assert_eq!(e.selected(), None);
    match e.char_chunks() {
        CharChunks::Unselected(a, b) => {
            assert_eq!(a, "a");
            assert_eq!(b, "bc");
        }
        CharChunks::Selected(..) => panic!("expected no selection"),
    }
    e.key_shift_down();
    assert_eq!(e.selected(), Some(&['b', 'c'][..]));
    e.key_shift_up();
    assert_eq!(e.selected(), Some(&['a'][..]));
    e.deselect();
    assert_eq!(e.selected(), None);
}

#[test]
fn command_string_completion() {
    let mut cs = typed(":a -d bo");
    assert!(!cs.is_empty());
    let word = cs.refresh_autofill();
    assert_eq!(word, Some("bo".to_string()));
    cs.set_auto_fill(AutoCompleter::new(
        "bo".to_string(),
        vec![
            ("b".to_string(), true),
            ("books".to_string(), false),
            ("bo ok".to_string(), true),
        ],
    ));
    assert_eq!(cs.refresh_autofill(), None);
    cs.auto_fill(false);
    assert_eq!(cs.to_string(), ":a -d books");
    cs.auto_fill(true);
    assert_eq!(cs.to_string(), ":a -d \"bo ok\"");
    cs.auto_fill(true);
    assert_eq!(cs.to_string(), ":a -d \"bo ok\"");
    cs.push('/');
    assert_eq!(cs.to_string(), ":a -d \"bo ok\"/");
    cs.clear();
    assert!(cs.is_empty());
}

#[test]
fn command_string_keeps_flag_before_completion() {
    let mut cs = typed(":a -d ");
    assert_eq!(cs.refresh_autofill(), Some(String::new()));
    cs.set_auto_fill(AutoCompleter::new(String::new(), vec![("x".to_string(), true)]));
    cs.auto_fill(true);
    assert_eq!(
        cs.autofilled_values(),
        vec![(false, ":a".to_string()), (false, "-d".to_string()), (false, "x".to_string())]
    );
}

#[test]
fn completer_goes_round() {
    let mut a = AutoCompleter::new(
        "ab".to_string(),
        vec![("a".to_string(), false), ("abc".to_string(), false), ("abd".to_string(), true)],
    );
    assert_eq!(a.next_word(false), Some("abc".to_string()));
    assert_eq!(a.next_word(false), Some("abd".to_string()));
    assert_eq!(a.next_word(false), Some("abc".to_string()));
    assert_eq!(a.next_word(true), Some("abd".to_string()));
    let mut b = AutoCompleter::new("abcd".to_string(), vec![("a".to_string(), false)]);
    assert_eq!(b.next_word(false), None);
}
