use bookstore::book_cache::{load_queries, BookCache, BookViewIndex};
use bookstore::book_rows::{cmp_column, series_name_and_index, Book, BookRow, Ord3};
use bookstore::records::{ColumnIdentifier, Edit};

fn s(x: &str) -> String {
    x.to_string()
}

fn book(id: i64, title: &str) -> Book {
    Book {
        id,
        title: Some(title.to_string()),
        series: None,
        authors: vec![],
        variants: vec![],
        named_tags: vec![],
        free_tags: vec![],
        multimap_tags: vec![],
        description: None,
    }
}

fn row(id: i64, title: &str) -> BookRow {
    BookRow { id, title: Some(title.to_string()), series_name: None, series_index: None }
}

#[test]
fn cache_insert_get_remove() {
    let mut c = BookCache::new();
    assert_eq!(c.len(), 0);
    c.insert_book(book(3, "Dune"));
    c.insert_book(book(1, "Emma"));
    c.insert_book(book(3, "Dune II"));
    assert_eq!(c.len(), 2);
    assert_eq!(c.get_book(3).unwrap().title.as_deref(), Some("Dune II"));
    assert_eq!(c.get_book_indexed(0).unwrap().id, 3);
    assert_eq!(c.get(BookViewIndex::Index(1)).unwrap().id, 1);
    assert_eq!(c.get(BookViewIndex::ID(1)).unwrap().title.as_deref(), Some("Emma"));
    assert!(c.get_book(7).is_none());
    c.remove_book(3);
    assert!(c.get_book(3).is_none());
    assert_eq!(c.get_book_indexed(0).unwrap().id, 1);
    assert!(!c.remove_book_indexed(5));
    assert!(c.remove_book_indexed(0));
    assert_eq!(c.len(), 0);
}

#[test]
fn loading_books_on_demand() {
    let mut c = BookCache::new();
    c.insert_book(book(1, "Emma"));
    assert_eq!(c.ids_to_load(&vec![1, 2, 3, 2]), vec![2, 3]);
    let q = load_queries(&vec![2, 3]);
    assert_eq!(
        q,
        vec![
            s("SELECT * FROM books WHERE books.book_id IN (2, 3)"),
            s("SELECT * FROM variants WHERE variants.book_id IN (2, 3)"),
            s("SELECT * FROM named_tags WHERE named_tags.book_id IN (2, 3)"),
            s("SELECT * FROM free_tags WHERE free_tags.book_id IN (2, 3)"),
            s("SELECT * FROM multimap_tags WHERE multimap_tags.book_id IN (2, 3)"),
        ]
    );
    assert_eq!(load_queries(&vec![])[0], s("SELECT * FROM books WHERE books.book_id IN ()"));
    let loaded = c.load_book_ids(
        &vec![1, 2, 3],
        vec![row(2, "Dune")],
        vec![],
        vec![(2, s("genre"), s("sf"))],
        vec![],
        vec![],
    );
    let ids: Vec<i64> = loaded.iter().map(|b| b.id).collect();
    assert_eq!(ids, vec![1, 2]);
    assert_eq!(c.len(), 2);
    assert_eq!(c.get_book(2).unwrap().title.as_deref(), Some("Dune"));
    assert!(c.ids_to_load(&vec![1, 2]).is_empty());
}

#[test]
fn comparing_books_by_column() {
    let by_text = |a: &str, b: &str| {
        let x: f32 = a.parse().unwrap_or(0.0);
        let y: f32 = b.parse().unwrap_or(0.0);
        if x < y { Ord3::Less } else if x > y { Ord3::Greater } else { Ord3::Equal }
    };
    let a = book(2, "Dune");
    let b = book(10, "Emma");
    assert_eq!(cmp_column(&a, &b, &ColumnIdentifier::Title, by_text), Ord3::Less);
    assert_eq!(cmp_column(&b, &a, &ColumnIdentifier::Title, by_text), Ord3::Greater);
    assert_eq!(cmp_column(&a, &a, &ColumnIdentifier::Title, by_text), Ord3::Equal);
    assert_eq!(cmp_column(&a, &b, &ColumnIdentifier::ID, by_text), Ord3::Less);
    let mut x = book(3, "X");
    x.series = Some((s("Saga"), Some(s("10"))));
    let mut y = book(4, "Y");
    y.series = Some((s("Saga"), Some(s("9"))));
    assert_eq!(cmp_column(&x, &y, &ColumnIdentifier::Series, by_text), Ord3::Greater);
    y.series = Some((s("Saga"), None));
    assert_eq!(cmp_column(&x, &y, &ColumnIdentifier::Series, by_text), Ord3::Greater);
    assert_eq!(cmp_column(&a, &x, &ColumnIdentifier::Series, by_text), Ord3::Less);
    y.series = Some((s("Abc"), None));
    assert_eq!(cmp_column(&x, &y, &ColumnIdentifier::Series, by_text), Ord3::Greater);
}

#[test]
fn series_text_split() {
    assert_eq!(series_name_and_index("Dune [1.5]"), Some((s("Dune"), s("1.5"))));
    assert_eq!(series_name_and_index("The Saga [2]"), Some((s("The Saga"), s("2"))));
    assert_eq!(series_name_and_index("Dune"), None);
    assert_eq!(series_name_and_index("Dune 2]"), None);
    assert_eq!(series_name_and_index("[2]"), None);
}

#[test]
fn editing_a_book_held() {
    let num = |t: &str| t.parse::<f32>().is_ok();
    let mut c = BookCache::new();
    let mut b = book(5, "Dune");
    b.free_tags = vec![s("old"), s("keep")];
    c.insert_book(b);
    assert!(!c.edit_book_with_id(9, &vec![(ColumnIdentifier::Title, Edit::Delete)], &num));
    let edits = vec![
        (ColumnIdentifier::Title, Edit::Append(s(" Messiah"))),
        (ColumnIdentifier::Author, Edit::Replace(s("Herbert"))),
        (ColumnIdentifier::Series, Edit::Replace(s("Dune [2]"))),
        (ColumnIdentifier::ExtendedTag(s("genre")), Edit::Replace(s("sf"))),
        (ColumnIdentifier::ExtendedTag(s("genre")), Edit::Append(s("!"))),
        (ColumnIdentifier::ExactTag(s("old")), Edit::Replace(s("new"))),
        (ColumnIdentifier::Description, Edit::Append(s("x"))),
    ];
    assert!(c.edit_book_with_id(5, &edits, &num));
    let e = c.get_book(5).unwrap();
    assert_eq!(e.title.as_deref(), Some("Dune Messiah"));
    assert_eq!(e.authors, vec![s("Herbert")]);
    assert_eq!(e.series, Some((s("Dune"), Some(s("2")))));
    assert_eq!(e.get_column(&ColumnIdentifier::ExtendedTag(s("genre"))), Some(s("sf!")));
    assert_eq!(e.free_tags, vec![s("keep"), s("new")]);
    assert_eq!(e.description, None);
    assert!(c.edit_book_with_id(5, &vec![(ColumnIdentifier::Series, Edit::Replace(s("Saga [x]")))], &num));
    assert_eq!(c.get_book(5).unwrap().series, Some((s("Saga [x]"), None)));
    assert!(c.edit_book_with_id(5, &vec![(ColumnIdentifier::Tags, Edit::Delete)], &num));
    assert!(c.get_book(5).unwrap().free_tags.is_empty());
}

#[test]
fn merging_the_books_held() {
    let mut c = BookCache::new();
    let mut a = book(1, "Dune");
    a.authors = vec![s("Herbert")];
    let mut b = book(2, "DUNE");
    b.authors = vec![s("herbert")];
    c.insert_book(a);
    c.insert_book(book(3, "Emma"));
    c.insert_book(b);
    assert_eq!(c.merge_similar_merge_ids(), vec![(1, 2)]);
    assert_eq!(c.len(), 2);
    assert!(c.get_book(2).is_none());
}
