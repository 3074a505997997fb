use bookstore::parser::{parse_args, remove_string_quotes, BookIndex, Command, CommandError, ModifyColumn, Source};
use bookstore::records::{ColumnIdentifier, ColumnOrder, Edit};
use bookstore::search::{Search, SearchMode};

fn args(v: &[&str]) -> Vec<String> {
    v.iter().map(|s| s.to_string()).collect()
}

#[test]
fn test_add_command() {
    let cases = vec![
        (
            vec![":a", "hello world", "-d"],
            Command::AddBooks(vec![Source::File("hello world".to_string())]),
        ),
        (
            vec![":a", "-d", "hello world"],
            Command::AddBooks(vec![Source::Dir("hello world".to_string(), 1)]),
        ),
        (
            vec![":a", "-d", "hello world", "-r", "1"],
            Command::AddBooks(vec![Source::Dir("hello world".to_string(), 1)]),
        ),
        (
            vec![":a", "-r", "22", "-d", "hello world"],
            Command::AddBooks(vec![Source::Dir("hello world".to_string(), 22)]),
        ),
        (
            vec![":a", "-d", "hello world", "-r"],
            Command::AddBooks(vec![Source::Dir("hello world".to_string(), 255)]),
        ),
        (
            vec![":a", "-r", "-d", "hello world"],
            Command::AddBooks(vec![Source::Dir("hello world".to_string(), 255)]),
        ),
        (
            vec![":a", "hello world"],
            Command::AddBooks(vec![Source::File("hello world".to_string())]),
        ),
    ];
    for (a, command) in cases {
        let a = args(&a);
        let res = parse_args(a.clone()).expect("Parsing provided args should not fail");
        assert_eq!(res, command, "from {:?} expected {:?}", a, command);
    }
}

#[test]
fn parse_add_globs_paths_and_file_flags() {
    let res = parse_args(args(&[":a", "a.epub", "-g", "*.mobi", "-p", "b.pdf", "-d", "x", "y", "-r", "3", "c.epub"]))
        .unwrap();
    assert_eq!(
        res,
        Command::AddBooks(vec![
            Source::File("a.epub".to_string()),
            Source::Glob("*.mobi".to_string()),
            Source::File("b.pdf".to_string()),
            Source::Dir("x".to_string(), 3),
            Source::Dir("y".to_string(), 3),
            Source::File("c.epub".to_string()),
        ])
    );
    let res = parse_args(args(&[":a", "-d", "x", "-r", "7", "c.epub"])).unwrap();
    assert_eq!(
        res,
        Command::AddBooks(vec![Source::Dir("x".to_string(), 7), Source::File("c.epub".to_string())])
    );
    assert_eq!(parse_args(args(&[":a", "-z", "x"])), Err(CommandError::UnknownFlag));
}

#[test]
fn parse_errors() {
    assert_eq!(parse_args(vec![]), Err(CommandError::InsufficientArguments));
    assert_eq!(parse_args(args(&[":x"])), Err(CommandError::UnknownCommand));
    assert_eq!(parse_args(args(&[":e"])), Err(CommandError::InsufficientArguments));
    assert_eq!(parse_args(args(&[":e", "abc"])), Err(CommandError::UnexpectedArguments));
    assert_eq!(parse_args(args(&[":s", "-d", "title"])), Err(CommandError::InsufficientArguments));
    assert_eq!(parse_args(args(&[":s", "title", "-d", "author"])), Ok(Command::SortColumns(vec![
        (ColumnIdentifier::Title, ColumnOrder::Descending),
        (ColumnIdentifier::Author, ColumnOrder::Ascending),
    ])));
    assert_eq!(parse_args(args(&[":s", "title", "-d"])), Ok(Command::SortColumns(vec![
        (ColumnIdentifier::Title, ColumnOrder::Descending),
    ])));
    assert_eq!(parse_args(args(&[":d", "title", "foo"])), Ok(Command::DeleteMatching(vec![
        Search { mode: SearchMode::Default, column: ColumnIdentifier::Title, search: "foo".to_string() },
    ])));
    assert_eq!(parse_args(args(&[":s", "title", "-x"])), Err(CommandError::UnknownFlag));
    assert_eq!(parse_args(args(&[":d", "x"])), Err(CommandError::InsufficientArguments));
    assert_eq!(parse_args(args(&[":s"])), Err(CommandError::InsufficientArguments));
    assert_eq!(parse_args(args(&[":m", "x"])), Err(CommandError::ConflictingArguments));
    assert_eq!(parse_args(args(&[":m", "-a", "x"])), Err(CommandError::UnexpectedArguments));
    assert_eq!(parse_args(args(&[":o", "1", "-f", "2"])), Err(CommandError::ConflictingArguments));
    assert_eq!(parse_args(args(&[":f", "title"])), Err(CommandError::InsufficientArguments));
}

#[test]
fn parse_simple_commands() {
    assert_eq!(parse_args(args(&[":q"])), Ok(Command::Quit));
    assert_eq!(parse_args(args(&[":w"])), Ok(Command::Write));
    assert_eq!(parse_args(args(&[":wq"])), Ok(Command::WriteAndQuit));
    assert_eq!(parse_args(args(&[":m", "-a"])), Ok(Command::TryMergeAllBooks));
    assert_eq!(parse_args(args(&[":h"])), Ok(Command::GeneralHelp));
    assert_eq!(parse_args(args(&[":h", "add"])), Ok(Command::Help("add".to_string())));
    assert_eq!(parse_args(args(&[":d"])), Ok(Command::DeleteSelected));
    assert_eq!(parse_args(args(&[":d", "-a"])), Ok(Command::DeleteAll));
    assert_eq!(parse_args(args(&[":d", "-a", "x"])), Err(CommandError::UnexpectedArguments));
}

#[test]
fn parse_searches() {
    let res = parse_args(args(&[":f", "TITLE", "\"a b\"", "-x", "author", "'c'", "series", "s"])).unwrap();
    assert_eq!(
        res,
        Command::FilterMatches(vec![
            Search { mode: SearchMode::Default, column: ColumnIdentifier::Title, search: "a b".to_string() },
            Search { mode: SearchMode::ExactString, column: ColumnIdentifier::Author, search: "c".to_string() },
            Search { mode: SearchMode::Default, column: ColumnIdentifier::Series, search: "s".to_string() },
        ])
    );
    let res = parse_args(args(&[":j", "-r", "tag", "x.*"])).unwrap();
    assert_eq!(
        res,
        Command::JumpTo(vec![Search {
            mode: SearchMode::Regex,
            column: ColumnIdentifier::ExtendedTag("tag".to_string()),
            search: "x.*".to_string()
        }])
    );
    let res = parse_args(args(&[":d", "-e", "title", "x"])).unwrap();
    assert_eq!(
        res,
        Command::DeleteMatching(vec![Search {
            mode: SearchMode::ExactSubstring,
            column: ColumnIdentifier::Title,
            search: "x".to_string()
        }])
    );
    assert!(res.requires_ui() == false);
}

#[test]
fn parse_edit_sort_columns_open() {
    let res = parse_args(args(&[":e", "12", "title", "x", "-a", "author", "y", "-d", "series"])).unwrap();
    assert_eq!(
        res,
        Command::EditBook(
            BookIndex::ID(12),
            vec![
                (ColumnIdentifier::Title, Edit::Replace("x".to_string())),
                (ColumnIdentifier::Author, Edit::Append("y".to_string())),
                (ColumnIdentifier::Series, Edit::Delete),
            ]
        )
    );
    assert!(!res.requires_ui());
    let res = parse_args(args(&[":e", "-r", "title", "z"])).unwrap();
    assert_eq!(
        res,
        Command::EditBook(BookIndex::Selected, vec![(ColumnIdentifier::Title, Edit::Replace("z".to_string()))])
    );
    assert!(res.requires_ui());
    assert_eq!(parse_args(args(&[":e", "-a", "title"])), Err(CommandError::InsufficientArguments));
    let res = parse_args(args(&[":s", "title", "author"])).unwrap();
    assert_eq!(
        res,
        Command::SortColumns(vec![
            (ColumnIdentifier::Title, ColumnOrder::Ascending),
            (ColumnIdentifier::Author, ColumnOrder::Ascending),
        ])
    );
    let res = parse_args(args(&[":c", "title", "-author", "series"])).unwrap();
    assert_eq!(
        res,
        Command::ModifyColumns(vec![
            ModifyColumn::Add("title".to_string()),
            ModifyColumn::Remove("author".to_string()),
            ModifyColumn::Add("series".to_string()),
        ])
    );
    assert_eq!(parse_args(args(&[":o"])), Ok(Command::OpenBookInApp(BookIndex::Selected, 0)));
    assert_eq!(parse_args(args(&[":o", "3", "2"])), Ok(Command::OpenBookInApp(BookIndex::ID(3), 2)));
    assert_eq!(parse_args(args(&[":o", "-f", "4", "1"])), Ok(Command::OpenBookInExplorer(BookIndex::ID(4), 1)));
    assert_eq!(parse_args(args(&[":o", "x", "-f"])), Ok(Command::OpenBookInExplorer(BookIndex::Selected, 0)));
}

#[test]
fn remove_quotes_pairs_only() {
    assert_eq!(remove_string_quotes("\"ab\"".to_string()), "ab");
    assert_eq!(remove_string_quotes("'ab'".to_string()), "ab");
    assert_eq!(remove_string_quotes("'ab\"".to_string()), "'ab\"");
    assert_eq!(remove_string_quotes("ab".to_string()), "ab");
}
