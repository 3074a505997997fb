use bookstore::bang_command::{parse_args, read_flags, BookIndex, Command, CommandError, Flag, Matching};

fn words(v: &[&str]) -> Vec<String> {
    v.iter().map(|s| s.to_string()).collect()
}

fn flag_names(flags: &[Flag]) -> Vec<String> {
    flags
        .iter()
        .map(|f| match f {
            Flag::Flag(n) => format!("flag {}", n),
            Flag::FlagWithArgument(n, a) => format!("flag {} {}", n, a.join(",")),
            Flag::PositionalArg(a) => format!("pos {}", a.join(",")),
        })
        .collect()
}

#[test]
fn bang_flags_group_arguments() {
    assert!(read_flags(words(&["!a"])).is_empty());
    assert_eq!(
        flag_names(&read_flags(words(&["!x", "-f1", "a1", "a2", "-f2"]))),
        vec!["flag f1 a1,a2"]
    );
    assert_eq!(
        flag_names(&read_flags(words(&["!x", "a1", "a2", "--f1"]))),
        vec!["pos a1,a2", "flag f1"]
    );
    assert_eq!(
        flag_names(&read_flags(words(&["!x", "-f1", "-f2"]))),
        vec!["flag f1", "flag f2"]
    );
    assert_eq!(
        flag_names(&read_flags(words(&["!x", "-f1", "a", "-f2", "b", "-f3", "-f4"]))),
        vec!["flag f1 a", "flag f2 b", "flag f3", "flag f4"]
    );
}

#[test]
fn bang_simple_commands() {
    assert!(matches!(parse_args(words(&["!q"])), Ok(Command::Quit)));
    assert!(matches!(parse_args(words(&["!w"])), Ok(Command::Write)));
    assert!(matches!(parse_args(words(&["!wq"])), Ok(Command::WriteAndQuit)));
    assert!(matches!(parse_args(words(&["!x"])), Err(CommandError::UnknownCommand)));
    assert!(matches!(parse_args(vec![]), Err(CommandError::InsufficientArguments)));
    assert!(matches!(parse_args(words(&["!m", "-a"])), Ok(Command::TryMergeAllBooks)));
    assert!(matches!(parse_args(words(&["!m"])), Err(CommandError::InvalidCommand)));
}

#[test]
fn bang_add_and_delete() {
    match parse_args(words(&["!a", "books/x.epub"])) {
        Ok(Command::AddBookFromFile(p)) => assert_eq!(p, "books/x.epub"),
        _ => panic!("expected a file"),
    }
    match parse_args(words(&["!a", "books", "-d"])) {
        Ok(Command::AddBooksFromDir(p)) => assert_eq!(p, "books"),
        _ => panic!("expected a directory"),
    }
    match parse_args(words(&["!a", "-d", "books"])) {
        Ok(Command::AddBooksFromDir(p)) => assert_eq!(p, "books"),
        _ => panic!("expected a directory"),
    }
    assert!(matches!(parse_args(words(&["!a"])), Err(CommandError::InsufficientArguments)));
    assert!(matches!(
        parse_args(words(&["!d"])),
        Ok(Command::DeleteBook(BookIndex::Selected))
    ));
    assert!(matches!(
        parse_args(words(&["!d", "12"])),
        Ok(Command::DeleteBook(BookIndex::BookID(12)))
    ));
    assert!(matches!(parse_args(words(&["!d", "-a"])), Ok(Command::DeleteAll)));
    assert!(matches!(parse_args(words(&["!d", "x"])), Err(CommandError::InvalidCommand)));
    assert!(matches!(parse_args(words(&["!d", "-b"])), Err(CommandError::InvalidCommand)));
}

#[test]
fn bang_edit_sort_columns() {
    match parse_args(words(&["!e", "3", "title", "Dune"])) {
        Ok(Command::EditBook(BookIndex::BookID(3), c, v)) => {
            assert_eq!(c, "title");
            assert_eq!(v, "Dune");
        }
        _ => panic!("expected an edit of book 3"),
    }
    match parse_args(words(&["!e", "title", "Dune"])) {
        Ok(Command::EditBook(BookIndex::Selected, c, v)) => {
            assert_eq!(c, "title");
            assert_eq!(v, "Dune");
        }
        _ => panic!("expected an edit of the selection"),
    }
    assert!(matches!(
        parse_args(words(&["!e", "title"])),
        Err(CommandError::InsufficientArguments)
    ));
    match parse_args(words(&["!s", "title", "-d"])) {
        Ok(Command::SortColumn(c, true)) => assert_eq!(c, "title"),
        _ => panic!("expected a descending sort"),
    }
    match parse_args(words(&["!s", "title"])) {
        Ok(Command::SortColumn(c, false)) => assert_eq!(c, "title"),
        _ => panic!("expected an ascending sort"),
    }
    assert!(matches!(parse_args(words(&["!s"])), Err(CommandError::InsufficientArguments)));
    match parse_args(words(&["!c", "series"])) {
        Ok(Command::AddColumn(c)) => assert_eq!(c, "series"),
        _ => panic!("expected a new column"),
    }
    match parse_args(words(&["!c", "-series"])) {
        Ok(Command::RemoveColumn(c)) => assert_eq!(c, "series"),
        _ => panic!("expected a removed column"),
    }
}

#[test]
fn bang_find_and_open() {
    match parse_args(words(&["!f", "-r", "title", "^D"])) {
        Ok(Command::FindMatches(Matching::Regex, c, t)) => {
            assert_eq!(c, "title");
            assert_eq!(t, "^D");
        }
        _ => panic!("expected a regex search"),
    }
    assert!(matches!(
        parse_args(words(&["!f", "title", "x"])),
        Ok(Command::FindMatches(Matching::Default, _, _))
    ));
    assert!(matches!(
        parse_args(words(&["!f", "-c", "title", "x"])),
        Ok(Command::FindMatches(Matching::CaseSensitive, _, _))
    ));
    assert!(matches!(
        parse_args(words(&["!f", "-c", "title"])),
        Err(CommandError::InsufficientArguments)
    ));
    assert!(matches!(
        parse_args(words(&["!o"])),
        Ok(Command::OpenBookInApp(BookIndex::Selected, 0))
    ));
    assert!(matches!(
        parse_args(words(&["!o", "4", "2"])),
        Ok(Command::OpenBookInApp(BookIndex::BookID(4), 2))
    ));
    assert!(matches!(
        parse_args(words(&["!o", "4", "-f"])),
        Ok(Command::OpenBookInExplorer(BookIndex::BookID(4), 0))
    ));
    assert!(matches!(
        parse_args(words(&["!o", "-f", "7", "1"])),
        Ok(Command::OpenBookInExplorer(BookIndex::BookID(7), 1))
    ));
    assert!(matches!(parse_args(words(&["!o", "-x", "7"])), Err(CommandError::InvalidCommand)));
    assert!(matches!(
        parse_args(words(&["!o", "4", "x"])),
        Ok(Command::OpenBookInApp(BookIndex::Selected, 0))
    ));
}

#[test]
fn bang_requires_ui() {
    assert!(parse_args(words(&["!d"])).ok().unwrap().requires_ui());
    assert!(!parse_args(words(&["!d", "3"])).ok().unwrap().requires_ui());
    assert!(parse_args(words(&["!c", "tags"])).ok().unwrap().requires_ui());
    assert!(!parse_args(words(&["!q"])).ok().unwrap().requires_ui());
}
