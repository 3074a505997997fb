use bookstore::isbn::{ISBNError, ISBN};

#[test]
fn isbn_test_isbn13_check() {
    let digits = [9, 7, 8, 0, 3, 0, 6, 4, 0, 6, 1, 5, 7];
    let isbnx = ISBN::isbn13_from_digits(digits).unwrap();
    assert!(isbnx.check());
}

#[test]
fn isbn_compact_roundtrip() {
    let isbn = ISBN::isbn13_from_digits([9, 7, 8, 0, 3, 0, 6, 4, 0, 6, 1, 5, 7]).unwrap();
    let n = isbn.to_compact_u64();
    assert_eq!(ISBN::from_compact_u64(n), Ok(isbn));
    let isbn = ISBN::isbn10_from_digits([0, 3, 0, 6, 4, 0, 6, 1, 5, 2]).unwrap();
    let n = isbn.to_compact_u64();
    assert_eq!(ISBN::from_compact_u64(n), Ok(isbn));
}

#[test]
fn isbn_parse_and_print() {
    let isbn = ISBN::from_str("978-0-306-40615-7").unwrap();
    assert!(isbn.check());
    assert_eq!(isbn.to_string(), "9780306406157");
    assert_eq!(isbn.to_digits(), Ok(vec![9, 7, 8, 0, 3, 0, 6, 4, 0, 6, 1, 5, 7]));
    let isbn10 = ISBN::from_str("0306406152").unwrap();
    assert!(isbn10.check());
    assert!(ISBN::from_str("12").is_err());
}

#[test]
fn isbn_bad_digits() {
    assert!(ISBN::isbn13_from_digits([10, 7, 8, 0, 3, 0, 6, 4, 0, 6, 1, 5, 7]).is_err());
    let _e: Option<ISBNError> = None;
}

#[test]
fn test_isbn13_check() {
    let digits = [9, 7, 8, 0, 3, 0, 6, 4, 0, 6, 1, 5, 7];
    let isbnx = ISBN::isbn13_from_digits(digits).unwrap();
    assert!(isbnx.check());
}
