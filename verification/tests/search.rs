use bookstore::records::ColumnIdentifier;
use bookstore::search::{AnyMatcher, DefaultMatcher, ExactStringMatcher, Search, SearchMode};
use bookstore::paginator::Variable;

#[test]
fn exact_string_matching() {
    let m = ExactStringMatcher::new(ColumnIdentifier::Title, "Dune".to_string()).unwrap();
    assert!(m.is_match(Some("Dune"), &vec![]));
    assert!(!m.is_match(Some("dune"), &vec![]));
    assert!(!m.is_match(None, &vec![]));
    let t = ExactStringMatcher::new(ColumnIdentifier::Tags, "sf".to_string()).unwrap();
    assert!(t.is_match(None, &vec!["a".to_string(), "sf".to_string()]));
    assert!(!t.is_match(None, &vec!["a".to_string()]));
    let e = ExactStringMatcher::new(ColumnIdentifier::Author, String::new()).unwrap();
    assert!(e.is_match(None, &vec![]));
}

#[test]
fn default_matching_is_fuzzy() {
    let m = DefaultMatcher::new(ColumnIdentifier::Title, "dne".to_string()).unwrap();
    assert!(m.is_match(Some("Dune"), &vec![]));
    assert!(!m.is_match(Some("Emma"), &vec![]));
    assert!(!m.is_match(None, &vec![]));
    let t = DefaultMatcher::new(ColumnIdentifier::Tags, "fi".to_string()).unwrap();
    assert!(t.is_match(None, &vec!["x".to_string(), "fiction".to_string()]));
    let (col, sql, var) = m.sql_query();
    assert_eq!(col, &ColumnIdentifier::Title);
    assert_eq!(sql, "LIKE '%' || ? || '%'");
    assert_eq!(var, Some(Variable::Str("dne".to_string())));
}

#[test]
fn regex_matchers() {
    let s = Search { mode: SearchMode::Regex, column: ColumnIdentifier::Title, search: "^D.n".to_string() };
    match s.into_matcher() {
        Ok(AnyMatcher::Regex(m)) => {
            assert!(m.is_match(Some("Dune"), &vec![]));
            assert!(!m.is_match(Some("Emma"), &vec![]));
        }
        _ => panic!("expected a regex matcher"),
    }
    let bad = Search { mode: SearchMode::Regex, column: ColumnIdentifier::Title, search: "(".to_string() };
    assert!(bad.into_matcher().is_err());
    let lit = Search { mode: SearchMode::ExactSubstring, column: ColumnIdentifier::Title, search: "a.b".to_string() };
    match lit.into_matcher() {
        Ok(AnyMatcher::ExactSubstring(m)) => {
            assert!(m.is_match(Some("xa.by"), &vec![]));
            assert!(!m.is_match(Some("axb"), &vec![]));
        }
        _ => panic!("expected a substring matcher"),
    }
}

#[test]
fn regex_matcher_on_tags_and_missing_values() {
    let s = Search { mode: SearchMode::Regex, column: ColumnIdentifier::Tags, search: "^sf$".to_string() };
    match s.into_matcher() {
        Ok(AnyMatcher::Regex(m)) => {
            assert!(m.is_match(None, &vec!["a".to_string(), "sf".to_string()]));
            assert!(!m.is_match(Some("sf"), &vec!["a".to_string()]));
        }
        _ => panic!("expected a regex matcher"),
    }
    let e = Search { mode: SearchMode::Regex, column: ColumnIdentifier::Title, search: "^$".to_string() };
    match e.into_matcher() {
        Ok(AnyMatcher::Regex(m)) => {
            assert!(m.is_match(None, &vec![]));
            assert!(!m.is_match(Some("Dune"), &vec![]));
        }
        _ => panic!("expected a regex matcher"),
    }
}
