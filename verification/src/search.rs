use vstd::prelude::*;

use crate::paginator::{Variable, VariableV};
use crate::records::{ColumnIdentifier, ColumnV};
use crate::regex_text::{compile, is_match, regex_compiles, regex_finds, CompiledRegex};
use crate::text::{chars_of, copy_string, eq_chars, string_from_chars};

verus! {

/// How a search string is compared against a column's value.
#[derive(Copy, Clone, Debug, PartialEq, Eq)]
pub enum SearchMode {
    Regex,
    ExactSubstring,
    Default,
    ExactString,
}

/// A search over one column.
#[derive(Clone, Debug, PartialEq, Eq)]
pub struct Search {
    pub mode: SearchMode,
    pub column: ColumnIdentifier,
    pub search: String,
}

pub ghost struct SearchV {
    pub mode: SearchMode,
    pub column: ColumnV,
    pub search: Seq<char>,
}

impl View for Search {
    type V = SearchV;

    open spec fn view(&self) -> SearchV {
        SearchV { mode: self.mode, column: self.column@, search: self.search@ }
    }
}

} // verus!

verus! {

// ---------------------------------------------------------------------------
// Matching a search against a book's column
// ---------------------------------------------------------------------------

/// Whether `sublime_fuzzy::best_match(query, target)` finds a match.
pub uninterp spec fn fuzzy_matches(query: Seq<char>, target: Seq<char>) -> bool;

/// The characters a regex gives a meaning to (`regex_syntax::is_meta_character`).
pub open spec fn is_meta_character(c: char) -> bool {
    c == '\\' || c == '.' || c == '+' || c == '*' || c == '?' || c == '(' || c == ')' || c == '|'
        || c == '[' || c == ']' || c == '{' || c == '}' || c == '^' || c == '$' || c == '#' || c
        == '&' || c == '-' || c == '~'
}

/// The text `regex::escape(s)` gives: `s` with a backslash before every meta character.
pub open spec fn regex_escaped(s: Seq<char>) -> Seq<char>
    decreases s.len(),
{
    if s.len() == 0 {
        Seq::empty()
    } else {
        let c = s.last();
        regex_escaped(s.drop_last()) + if is_meta_character(c) {
            seq!['\\', c]
        } else {
            seq![c]
        }
    }
}

/// Whether `sublime_fuzzy::best_match` finds the whole query in the target. It finds none
/// for an empty query or an empty target (as its documentation states); otherwise its
/// result is named, not stated.
#[verifier::external_body]
fn fuzzy_match(query: &str, target: &str) -> (r: bool)
    ensures
        r == fuzzy_matches(query@, target@),
        query@.len() == 0 || target@.len() == 0 ==> !r,
{
    sublime_fuzzy::best_match(query, target).is_some()
}

/// `regex::escape`: the pattern that matches `s` literally, made by putting a backslash
/// before each meta character.
#[verifier::external_body]
fn regex_escape(s: &str) -> (r: String)
    ensures
        r@ == regex_escaped(s@),
{
    regex::escape(s)
}

/// Why a search could not be made into a matcher.
#[derive(Debug)]
pub enum MatchError {
    Regex(regex::Error),
}

/// Whether a column is the free tags.
pub open spec fn is_tags(c: ColumnV) -> bool {
    c == ColumnV::Tags
}

fn column_is_tags(c: &ColumnIdentifier) -> (r: bool)
    ensures
        r == is_tags(c@),
{
    match c {
        ColumnIdentifier::Tags => true,
        _ => false,
    }
}

pub open spec fn tags_view(v: Seq<String>) -> Seq<Seq<char>> {
    Seq::new(v.len(), |i: int| v[i]@)
}

/// Matches a column's value exactly.
#[derive(Clone, Debug)]
pub struct ExactStringMatcher {
    pub column: ColumnIdentifier,
    pub string: String,
}

impl ExactStringMatcher {
    pub fn new(column: ColumnIdentifier, search: String) -> (r: Result<ExactStringMatcher, MatchError>)
        ensures
            r matches Ok(m) && m.column@ == column@ && m.string@ == search@,
    {
        Ok(ExactStringMatcher { column, string: search })
    }

    /// Whether a book matches: on the free tags, where one of them is the text (or the text is
    /// empty); on another column, where its value is the text (an empty text where it has
    /// none).
    pub fn is_match(&self, value: Option<&str>, free_tags: &Vec<String>) -> (r: bool)
        ensures
            r == if is_tags(self.column@) {
                tags_view(free_tags@).contains(self.string@) || self.string@.len() == 0
            } else {
                match value {
                    Some(v) => v@ == self.string@,
                    None => self.string@.len() == 0,
                }
            },
    {
        let s = chars_of(self.string.as_str());
        if column_is_tags(&self.column) {
            let mut i: usize = 0;
            while i < free_tags.len()
                invariant
                    i <= free_tags@.len(),
                    is_tags(self.column@),
                    s@ == self.string@,
                    forall|j: int| 0 <= j < i ==> tags_view(free_tags@)[j] != s@,
                decreases free_tags.len() - i,
            {
                let t = chars_of(free_tags[i].as_str());
                if eq_chars(t.as_slice(), s.as_slice()) {
                    assert(tags_view(free_tags@)[i as int] == self.string@);
                    assert(tags_view(free_tags@).contains(self.string@));
                    return true;
                }
                i = i + 1;
            }
            return s.len() == 0;
        }
        match value {
            Some(v) => {
                let t = chars_of(v);
                eq_chars(t.as_slice(), s.as_slice())
            },
            None => s.len() == 0,
        }
    }
}

/// Matches a column's value fuzzily.
#[derive(Clone, Debug)]
pub struct DefaultMatcher {
    pub column: ColumnIdentifier,
    pub string: String,
}

impl DefaultMatcher {
    pub fn new(column: ColumnIdentifier, search: String) -> (r: Result<DefaultMatcher, MatchError>)
        ensures
            r matches Ok(m) && m.column@ == column@ && m.string@ == search@,
    {
        Ok(DefaultMatcher { column, string: search })
    }

    /// Whether a book matches: the text is found fuzzily in one of the free tags (or in the
    /// empty text), or in the column's value (in the empty text where it has none).
    pub fn is_match(&self, value: Option<&str>, free_tags: &Vec<String>) -> (r: bool)
        ensures
            r == if is_tags(self.column@) {
                (exists|i: int|
                    0 <= i < free_tags@.len() && #[trigger] fuzzy_matches(
                        self.string@,
                        free_tags@[i]@,
                    )) || fuzzy_matches(self.string@, Seq::empty())
            } else {
                match value {
                    Some(v) => fuzzy_matches(self.string@, v@),
                    None => fuzzy_matches(self.string@, Seq::empty()),
                }
            },
    {
        let empty = string_from_chars(&[]);
        assert(empty@ =~= Seq::<char>::empty());
        if column_is_tags(&self.column) {
            let mut i: usize = 0;
            while i < free_tags.len()
                invariant
                    i <= free_tags@.len(),
                    is_tags(self.column@),
                    forall|j: int|
                        0 <= j < i ==> !#[trigger] fuzzy_matches(self.string@, free_tags@[j]@),
                decreases free_tags.len() - i,
            {
                if fuzzy_match(self.string.as_str(), free_tags[i].as_str()) {
                    return true;
                }
                i = i + 1;
            }
            return fuzzy_match(self.string.as_str(), empty.as_str());
        }
        match value {
            Some(v) => fuzzy_match(self.string.as_str(), v),
            None => fuzzy_match(self.string.as_str(), empty.as_str()),
        }
    }

    /// The SQL condition and bound value that select the column's rows containing the text.
    pub fn sql_query(&self) -> (r: (&ColumnIdentifier, String, Option<Variable>))
        ensures
            r.0@ == self.column@,
            r.1@ == "LIKE '%' || ? || '%'"@,
            r.2 matches Some(v) && v@ == VariableV::Str(self.string@),
    {
        let q = "LIKE '%' || ? || '%'".to_owned();
        (&self.column, q, Some(Variable::Str(copy_string(&self.string))))
    }
}

/// Matches a column's value against a regex.
#[derive(Debug)]
pub struct RegexMatcher {
    pub column: ColumnIdentifier,
    pub regex: CompiledRegex,
}

/// Matches a column's value containing a text literally.
#[derive(Debug)]
pub struct ExactSubstringMatcher {
    pub column: ColumnIdentifier,
    pub regex: CompiledRegex,
}

/// The text of an optional column value.
pub open spec fn value_text(value: Option<&str>) -> Option<Seq<char>> {
    match value {
        Some(v) => Some(v@),
        None => None,
    }
}

/// Whether the regex compiled from `pattern` matches a book: for the free tags, one of them
/// or the empty text; else the column's value (the empty text where it has none).
pub open spec fn regex_matches_spec(
    pattern: Seq<char>,
    tags: bool,
    value: Option<Seq<char>>,
    free_tags: Seq<String>,
) -> bool {
    if tags {
        (exists|i: int| 0 <= i < free_tags.len() && #[trigger] regex_finds(pattern, free_tags[i]@))
            || regex_finds(pattern, Seq::empty())
    } else {
        match value {
            Some(v) => regex_finds(pattern, v),
            None => regex_finds(pattern, Seq::empty()),
        }
    }
}

/// Whether a regex matches a book: one of its free tags or the empty text for the free tags,
/// else the column's value (the empty text where it has none).
fn regex_matches_book(re: &CompiledRegex, tags: bool, value: Option<&str>, free_tags: &Vec<String>) -> (r: bool)
    ensures
        r == regex_matches_spec(re@, tags, value_text(value), free_tags@),
{
    let empty = string_from_chars(&[]);
    assert(empty@ =~= Seq::<char>::empty());
    if tags {
        let mut i: usize = 0;
        while i < free_tags.len()
            invariant
                i <= free_tags@.len(),
                tags,
                forall|j: int| 0 <= j < i ==> !#[trigger] regex_finds(re@, free_tags@[j]@),
            decreases free_tags.len() - i,
        {
            if is_match(re, free_tags[i].as_str()) {
                return true;
            }
            i = i + 1;
        }
        return is_match(re, empty.as_str());
    }
    match value {
        Some(v) => is_match(re, v),
        None => is_match(re, empty.as_str()),
    }
}

impl RegexMatcher {
    /// A matcher for the regex `search`; fails exactly where the regex does not compile.
    pub fn new(column: ColumnIdentifier, search: String) -> (r: Result<RegexMatcher, MatchError>)
        ensures
            r is Ok <==> regex_compiles(search@),
            r matches Ok(m) ==> m.column@ == column@ && m.regex@ == search@,
    {
        match compile(search.as_str()) {
            Ok(regex) => Ok(RegexMatcher { column, regex }),
            Err(e) => Err(MatchError::Regex(e)),
        }
    }

    /// Whether the regex matches one of the book's free tags (or the empty text), or the
    /// column's value (the empty text where it has none).
    pub fn is_match(&self, value: Option<&str>, free_tags: &Vec<String>) -> (r: bool)
        ensures
            r == regex_matches_spec(self.regex@, is_tags(self.column@), value_text(value), free_tags@),
    {
        regex_matches_book(&self.regex, column_is_tags(&self.column), value, free_tags)
    }
}

impl ExactSubstringMatcher {
    /// A matcher for the text `search` taken literally.
    pub fn new(column: ColumnIdentifier, search: String) -> (r: Result<ExactSubstringMatcher, MatchError>)
        ensures
            r is Ok <==> regex_compiles(regex_escaped(search@)),
            r matches Ok(m) ==> m.column@ == column@ && m.regex@ == regex_escaped(search@),
    {
        let pattern = regex_escape(search.as_str());
        match compile(pattern.as_str()) {
            Ok(regex) => Ok(ExactSubstringMatcher { column, regex }),
            Err(e) => Err(MatchError::Regex(e)),
        }
    }

    /// Whether the text occurs in one of the book's free tags (or the empty text), or in the
    /// column's value (the empty text where it has none).
    pub fn is_match(&self, value: Option<&str>, free_tags: &Vec<String>) -> (r: bool)
        ensures
            r == regex_matches_spec(self.regex@, is_tags(self.column@), value_text(value), free_tags@),
    {
        regex_matches_book(&self.regex, column_is_tags(&self.column), value, free_tags)
    }
}

/// A matcher of any kind.
#[derive(Debug)]
pub enum AnyMatcher {
    Regex(RegexMatcher),
    ExactSubstring(ExactSubstringMatcher),
    ExactString(ExactStringMatcher),
    Default(DefaultMatcher),
}

/// Whether an exact-string matcher for `text` on column `c` matches a book.
pub open spec fn exact_string_matches(c: ColumnV, text: Seq<char>, value: Option<Seq<char>>, free_tags: Seq<String>) -> bool {
    if is_tags(c) {
        tags_view(free_tags).contains(text) || text.len() == 0
    } else {
        match value {
            Some(v) => v == text,
            None => text.len() == 0,
        }
    }
}

/// Whether a fuzzy matcher for `text` on column `c` matches a book.
pub open spec fn default_matches(c: ColumnV, text: Seq<char>, value: Option<Seq<char>>, free_tags: Seq<String>) -> bool {
    if is_tags(c) {
        (exists|i: int| 0 <= i < free_tags.len() && #[trigger] fuzzy_matches(text, free_tags[i]@))
            || fuzzy_matches(text, Seq::empty())
    } else {
        match value {
            Some(v) => fuzzy_matches(text, v),
            None => fuzzy_matches(text, Seq::empty()),
        }
    }
}

/// The column a matcher looks at.
pub open spec fn matcher_column(m: AnyMatcher) -> ColumnV {
    match m {
        AnyMatcher::Regex(r) => r.column@,
        AnyMatcher::ExactSubstring(r) => r.column@,
        AnyMatcher::ExactString(e) => e.column@,
        AnyMatcher::Default(d) => d.column@,
    }
}

/// Whether a matcher matches a book whose column holds `value` and whose free tags are
/// `free_tags`.
pub open spec fn matcher_matches(m: AnyMatcher, value: Option<Seq<char>>, free_tags: Seq<String>) -> bool {
    match m {
        AnyMatcher::Regex(r) => regex_matches_spec(r.regex@, is_tags(r.column@), value, free_tags),
        AnyMatcher::ExactSubstring(r) => regex_matches_spec(
            r.regex@,
            is_tags(r.column@),
            value,
            free_tags,
        ),
        AnyMatcher::ExactString(e) => exact_string_matches(e.column@, e.string@, value, free_tags),
        AnyMatcher::Default(d) => default_matches(d.column@, d.string@, value, free_tags),
    }
}

impl AnyMatcher {
    /// The column this matcher looks at.
    pub fn column(&self) -> (r: &ColumnIdentifier)
        ensures
            r@ == matcher_column(*self),
    {
        match self {
            AnyMatcher::Regex(r) => &r.column,
            AnyMatcher::ExactSubstring(r) => &r.column,
            AnyMatcher::ExactString(e) => &e.column,
            AnyMatcher::Default(d) => &d.column,
        }
    }

    /// Whether this matcher matches a book whose column holds `value` and whose free tags
    /// are `free_tags`.
    pub fn is_match(&self, value: Option<&str>, free_tags: &Vec<String>) -> (r: bool)
        ensures
            r == matcher_matches(*self, value_text(value), free_tags@),
    {
        match self {
            AnyMatcher::Regex(m) => m.is_match(value, free_tags),
            AnyMatcher::ExactSubstring(m) => m.is_match(value, free_tags),
            AnyMatcher::ExactString(m) => m.is_match(value, free_tags),
            AnyMatcher::Default(m) => m.is_match(value, free_tags),
        }
    }
}

impl Search {
    /// The matcher for this search's mode: a regex compiled from the search text, or from the
    /// search text escaped; or the search text itself, matched exactly or fuzzily.
    pub fn into_matcher(self) -> (r: Result<AnyMatcher, MatchError>)
        ensures
            match self.mode {
                SearchMode::Regex => {
                    &&& (r is Ok <==> regex_compiles(self.search@))
                    &&& (r is Ok ==> (r matches Ok(AnyMatcher::Regex(m)) && m.column@ == self.column@
                        && m.regex@ == self.search@))
                },
                SearchMode::ExactSubstring => {
                    &&& (r is Ok <==> regex_compiles(regex_escaped(self.search@)))
                    &&& (r is Ok ==> (r matches Ok(AnyMatcher::ExactSubstring(m)) && m.column@
                        == self.column@ && m.regex@ == regex_escaped(self.search@)))
                },
                SearchMode::ExactString => r matches Ok(AnyMatcher::ExactString(m))
                    && m.column@ == self.column@ && m.string@ == self.search@,
                SearchMode::Default => r matches Ok(AnyMatcher::Default(m)) && m.column@
                    == self.column@ && m.string@ == self.search@,
            },
    {
        match self.mode {
            SearchMode::Regex => match RegexMatcher::new(self.column, self.search) {
                Ok(m) => Ok(AnyMatcher::Regex(m)),
                Err(e) => Err(e),
            },
            SearchMode::ExactSubstring => match ExactSubstringMatcher::new(self.column, self.search) {
                Ok(m) => Ok(AnyMatcher::ExactSubstring(m)),
                Err(e) => Err(e),
            },
            SearchMode::ExactString => match ExactStringMatcher::new(self.column, self.search) {
                Ok(m) => Ok(AnyMatcher::ExactString(m)),
                Err(e) => Err(e),
            },
            SearchMode::Default => match DefaultMatcher::new(self.column, self.search) {
                Ok(m) => Ok(AnyMatcher::Default(m)),
                Err(e) => Err(e),
            },
        }
    }
}

} // verus!
