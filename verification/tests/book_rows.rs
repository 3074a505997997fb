use bookstore::book_rows::{books_from_rows, find_book_index, find_matches, BookRow, VariantRow};
use bookstore::records::{BookError, BookType, ColumnIdentifier};
use bookstore::search::{Search, SearchMode};

fn row(id: i64, title: &str) -> BookRow {
    BookRow { id, title: Some(title.to_string()), series_name: None, series_index: None }
}

fn variant(book_id: i64, book_type: Option<BookType>, hash_len: usize) -> VariantRow {
    VariantRow {
        book_id,
        book_type,
        path: b"/books/a.epub".to_vec(),
        local_title: None,
        language: Some("en".to_string()),
        identifier: None,
        description: None,
        id: Some(7),
        file_size: 1024,
        hash: vec![0u8; hash_len],
    }
}

fn s(x: &str) -> String {
    x.to_string()
}

#[test]
fn books_are_built_from_their_rows() {
    let mut emma = row(2, "Emma");
    emma.series_name = Some(s("Austen"));
    emma.series_index = Some(s("1.5"));
    let books = vec![row(1, "Dune"), emma, row(0, "Nobody"), row(3, "Old"), row(3, "New")];
    let variants = vec![
        variant(1, Some(BookType::EPUB), 32),
        variant(1, None, 32),
        variant(2, Some(BookType::PDF), 31),
        variant(9, Some(BookType::MOBI), 32),
    ];
    let named = vec![(1, s("genre"), s("sf")), (9, s("orphan"), s("x")), (2, s("Genre"), s("drama"))];
    let free = vec![(1, s("fav")), (9, s("lost"))];
    let multimap = vec![(1, s("author"), s("Herbert")), (2, s("translator"), s("T")), (1, s("author"), s("Anderson"))];
    let (out, cols) = books_from_rows(books, variants, named, free, multimap);

    assert_eq!(out.len(), 3);
    assert_eq!(out[0].id, 1);
    assert_eq!(out[0].title.as_deref(), Some("Dune"));
    assert_eq!(out[0].authors, vec![s("Herbert"), s("Anderson")]);
    assert_eq!(out[0].variants.len(), 1);
    assert_eq!(out[0].variants[0].book_type, BookType::EPUB);
    assert_eq!(out[0].variants[0].id, Some(7));
    assert_eq!(out[0].variants[0].file_size, 1024);
    assert_eq!(out[0].named_tags, vec![(s("genre"), s("sf"))]);
    assert_eq!(out[0].free_tags, vec![s("fav")]);
    assert!(out[0].multimap_tags.is_empty());

    assert_eq!(out[1].id, 2);
    assert_eq!(out[1].series, Some((s("Austen"), Some(s("1.5")))));
    assert!(out[1].variants.is_empty());
    assert_eq!(out[1].named_tags, vec![(s("Genre"), s("drama"))]);
    assert_eq!(out[1].multimap_tags, vec![(s("translator"), s("T"))]);

    assert_eq!(out[2].id, 3);
    assert_eq!(out[2].title.as_deref(), Some("New"));

    assert_eq!(
        cols,
        vec![s("title"), s("authors"), s("series"), s("id"), s("description"), s("genre"), s("translator")]
    );
}

#[test]
fn no_rows_give_only_the_prime_columns() {
    let (out, cols) = books_from_rows(vec![], vec![], vec![], vec![], vec![(4, s("x"), s("y"))]);
    assert!(out.is_empty());
    assert_eq!(cols, vec![s("title"), s("authors"), s("series"), s("id"), s("description")]);
}

fn book(id: i64, title: Option<&str>, authors: &[&str]) -> bookstore::book_rows::Book {
    bookstore::book_rows::Book {
        id,
        title: title.map(|t| t.to_string()),
        series: None,
        authors: authors.iter().map(|a| a.to_string()).collect(),
        variants: vec![],
        named_tags: vec![],
        free_tags: vec![],
        multimap_tags: vec![],
        description: None,
    }
}

#[test]
fn merging_takes_missing_metadata_and_adds_tags() {
    let mut a = book(1, None, &[]);
    a.named_tags.push((s("genre"), s("sf")));
    let mut b = book(2, Some("Dune"), &["Herbert"]);
    b.series = Some((s("Dune"), Some(s("1"))));
    b.named_tags.push((s("genre"), s("classic")));
    b.free_tags.push(s("fav"));
    a.merge_mut(&b);
    assert_eq!(a.id, 1);
    assert_eq!(a.title.as_deref(), Some("Dune"));
    assert_eq!(a.authors, vec![s("Herbert")]);
    assert_eq!(a.series, Some((s("Dune"), Some(s("1")))));
    assert_eq!(a.named_tags, vec![(s("genre"), s("sf")), (s("genre"), s("classic"))]);
    assert_eq!(a.free_tags, vec![s("fav")]);
    assert_eq!(a.description, None);
    let mut with_desc = book(4, None, &[]);
    with_desc.description = Some(s("about sand"));
    a.merge_mut(&with_desc);
    assert_eq!(a.description, Some(s("about sand")));
    let mut keep = book(6, None, &[]);
    keep.description = Some(s("mine"));
    keep.merge_mut(&with_desc);
    assert_eq!(keep.description, Some(s("mine")));
    let mut c = book(3, Some("Emma"), &["Austen"]);
    c.merge_mut(&b);
    assert_eq!(c.title.as_deref(), Some("Emma"));
    assert_eq!(c.authors, vec![s("Austen")]);
}

#[test]
fn similar_books_merge_into_the_first() {
    let mut d2 = book(2, Some("DUNE"), &["frank herbert"]);
    d2.free_tags.push(s("second"));
    let books = vec![
        book(1, Some("Dune"), &["Frank Herbert"]),
        book(5, Some("Emma"), &["Austen"]),
        d2,
        book(7, Some("Dune"), &[]),
        book(8, None, &["Frank Herbert"]),
        book(9, Some("dune"), &["Frank Herbert", "X"]),
    ];
    let (left, merges) = bookstore::book_rows::merge_similar(books);
    assert_eq!(merges, vec![(1, 2)]);
    let ids: Vec<i64> = left.iter().map(|b| b.id).collect();
    assert_eq!(ids, vec![1, 5, 7, 8, 9]);
    assert_eq!(left[0].free_tags, vec![s("second")]);
}

#[test]
fn columns_and_finding_books() {

    let mut a = book(1, Some("Dune"), &["Frank Herbert", "Brian Herbert"]);
    a.series = Some((s("Dune"), Some(s("1"))));
    a.named_tags = vec![(s("genre"), s("sf")), (s("genre"), s("classic"))];
    a.free_tags = vec![s("fav")];
    let b = book(2, Some("Emma"), &["Austen"]);
    assert_eq!(a.get_column(&ColumnIdentifier::Title), Some(s("Dune")));
    assert_eq!(a.get_column(&ColumnIdentifier::Author), Some(s("Frank Herbert, Brian Herbert")));
    assert_eq!(a.get_column(&ColumnIdentifier::Series), Some(s("Dune [1]")));
    assert_eq!(a.get_column(&ColumnIdentifier::ExtendedTag(s("genre"))), Some(s("classic")));
    assert_eq!(a.get_column(&ColumnIdentifier::ExtendedTag(s("mood"))), None);
    assert_eq!(b.get_column(&ColumnIdentifier::Series), None);
    assert_eq!(a.get_column(&ColumnIdentifier::ID), Some(s("1")));
    assert_eq!(book(1234567, None, &[]).get_column(&ColumnIdentifier::ID), Some(s("1234567")));
    assert_eq!(a.get_column(&ColumnIdentifier::Description), None);
    let mut d = book(9, None, &[]);
    d.description = Some(s("A desert planet."));
    assert_eq!(d.get_column(&ColumnIdentifier::Description), Some(s("A desert planet.")));
    assert_eq!(a.get_column(&ColumnIdentifier::Variants), None);

    let books = vec![a, b];
    let herbert = Search { mode: SearchMode::Regex, column: ColumnIdentifier::Author, search: s("Herbert$") };
    let m = vec![herbert.into_matcher().ok().unwrap()];
    assert_eq!(find_matches(&books, &m), vec![0]);
    assert_eq!(find_book_index(&books, &m), Some(0));
    let emma = Search { mode: SearchMode::ExactString, column: ColumnIdentifier::Title, search: s("Emma") };
    let m = vec![emma.into_matcher().ok().unwrap()];
    assert_eq!(find_matches(&books, &m), vec![1]);
    let fav = Search { mode: SearchMode::ExactString, column: ColumnIdentifier::Tags, search: s("fav") };
    let both = Search { mode: SearchMode::Regex, column: ColumnIdentifier::Title, search: s("e") };
    let m = vec![fav.into_matcher().ok().unwrap(), both.into_matcher().ok().unwrap()];
    assert_eq!(find_matches(&books, &m), vec![0]);
    let none = Search { mode: SearchMode::ExactString, column: ColumnIdentifier::Title, search: s("Zed") };
    let m = vec![none.into_matcher().ok().unwrap()];
    assert_eq!(find_matches(&books, &m), Vec::<usize>::new());
    assert_eq!(find_book_index(&books, &m), None);
}

#[test]
fn setting_columns() {
    let num = |t: &str| t.parse::<f32>().is_ok();
    let mut b = book(1, None, &["A", "B"]);
    assert!(b.set_column(&ColumnIdentifier::Title, "Dune", num).is_ok());
    assert_eq!(b.title.as_deref(), Some("Dune"));
    assert!(b.set_column(&ColumnIdentifier::Author, "Frank Herbert", num).is_ok());
    assert_eq!(b.authors, vec![s("Frank Herbert")]);
    assert!(b.set_column(&ColumnIdentifier::Description, "Sand.", num).is_ok());
    assert_eq!(b.description, Some(s("Sand.")));
    assert_eq!(b.set_column(&ColumnIdentifier::ID, "5", num), Err(BookError::ImmutableColumnError));
    assert_eq!(b.set_column(&ColumnIdentifier::Variants, "x", num), Err(BookError::ImmutableColumnError));
    assert_eq!(b.id, 1);
    assert!(b.set_column(&ColumnIdentifier::Series, "Dune Saga [1.5]", num).is_ok());
    assert_eq!(b.series, Some((s("Dune Saga"), Some(s("1.5")))));
    assert!(b.set_column(&ColumnIdentifier::Series, "Other [x]", num).is_ok());
    assert_eq!(b.series, Some((s("Dune Saga"), Some(s("1.5")))));
    assert!(b.set_column(&ColumnIdentifier::Series, "[2]", num).is_ok());
    assert_eq!(b.series, Some((s("Dune Saga"), Some(s("1.5")))));
    assert!(b.set_column(&ColumnIdentifier::Series, "Emma", num).is_ok());
    assert_eq!(b.series, Some((s("Emma"), None)));
    assert!(b.set_column(&ColumnIdentifier::ExtendedTag(s("genre")), "sf", num).is_ok());
    assert_eq!(b.get_column(&ColumnIdentifier::ExtendedTag(s("genre"))), Some(s("sf")));
    assert!(b.set_column(&ColumnIdentifier::Tags, "fav", num).is_ok());
    assert_eq!(b.free_tags, vec![s("fav")]);
    assert_eq!(
        bookstore::book_rows::series_index_parts("A B [3]"),
        Some((s("A B"), s("3")))
    );
}
