use vstd::prelude::*;

use crate::text::{ascii_lower_seq, chars_of, copy_string, eq_chars, lower_chars, string_from_chars};

verus! {

/// The identifier a book is stored under.
pub type BookID = u32;

/// Identifies the columns a book provides.
#[derive(Clone, Debug, PartialEq, Eq)]
pub enum ColumnIdentifier {
    Title,
    Author,
    Series,
    ID,
    Variants,
    Description,
    ExtendedTag(String),
    Tags,
    ExactTag(String),
}

/// The mathematical content of a `ColumnIdentifier`.
pub ghost enum ColumnV {
    Title,
    Author,
    Series,
    ID,
    Variants,
    Description,
    ExtendedTag(Seq<char>),
    Tags,
    ExactTag(Seq<char>),
}

impl View for ColumnIdentifier {
    type V = ColumnV;

    open spec fn view(&self) -> ColumnV {
        match self {
            ColumnIdentifier::Title => ColumnV::Title,
            ColumnIdentifier::Author => ColumnV::Author,
            ColumnIdentifier::Series => ColumnV::Series,
            ColumnIdentifier::ID => ColumnV::ID,
            ColumnIdentifier::Variants => ColumnV::Variants,
            ColumnIdentifier::Description => ColumnV::Description,
            ColumnIdentifier::ExtendedTag(s) => ColumnV::ExtendedTag(s@),
            ColumnIdentifier::Tags => ColumnV::Tags,
            ColumnIdentifier::ExactTag(s) => ColumnV::ExactTag(s@),
        }
    }
}

/// The sort direction of a column.
#[derive(Copy, Clone, Debug, PartialEq, Eq)]
pub enum ColumnOrder {
    Ascending,
    Descending,
}

/// The column a name denotes: known names are matched without regard to ASCII case, any
/// other name denotes an extended tag of that exact name; `tags` denotes the free tags.
pub open spec fn column_of(s: Seq<char>) -> ColumnV {
    let l = ascii_lower_seq(s);
    if l == seq!['a', 'u', 't', 'h', 'o', 'r'] || l == seq!['a', 'u', 't', 'h', 'o', 'r', 's'] {
        ColumnV::Author
    } else if l == seq!['t', 'i', 't', 'l', 'e'] {
        ColumnV::Title
    } else if l == seq!['s', 'e', 'r', 'i', 'e', 's'] {
        ColumnV::Series
    } else if l == seq!['i', 'd'] {
        ColumnV::ID
    } else if l == seq!['v', 'a', 'r', 'i', 'a', 'n', 't'] || l == seq![
        'v',
        'a',
        'r',
        'i',
        'a',
        'n',
        't',
        's',
    ] {
        ColumnV::Variants
    } else if l == seq!['d', 'e', 's', 'c', 'r', 'i', 'p', 't', 'i', 'o', 'n'] {
        ColumnV::Description
    } else if l == seq!['t', 'a', 'g', 's'] {
        ColumnV::Tags
    } else {
        ColumnV::ExtendedTag(s)
    }
}

impl ColumnIdentifier {
    /// The column named by `val`.
    pub fn from(val: &str) -> (r: ColumnIdentifier)
        ensures
            r@ == column_of(val@),
    {
        let l = lower_chars(val);
        let ls = l.as_slice();
        if eq_chars(ls, &['a', 'u', 't', 'h', 'o', 'r']) || eq_chars(
            ls,
            &['a', 'u', 't', 'h', 'o', 'r', 's'],
        ) {
            ColumnIdentifier::Author
        } else if eq_chars(ls, &['t', 'i', 't', 'l', 'e']) {
            ColumnIdentifier::Title
        } else if eq_chars(ls, &['s', 'e', 'r', 'i', 'e', 's']) {
            ColumnIdentifier::Series
        } else if eq_chars(ls, &['i', 'd']) {
            ColumnIdentifier::ID
        } else if eq_chars(ls, &['v', 'a', 'r', 'i', 'a', 'n', 't']) || eq_chars(
            ls,
            &['v', 'a', 'r', 'i', 'a', 'n', 't', 's'],
        ) {
            ColumnIdentifier::Variants
        } else if eq_chars(ls, &['d', 'e', 's', 'c', 'r', 'i', 'p', 't', 'i', 'o', 'n']) {
            ColumnIdentifier::Description
        } else if eq_chars(ls, &['t', 'a', 'g', 's']) {
            ColumnIdentifier::Tags
        } else {
            let chars = chars_of(val);
            ColumnIdentifier::ExtendedTag(string_from_chars(chars.as_slice()))
        }
    }

    /// A copy of this identifier.
    pub fn duplicate(&self) -> (r: ColumnIdentifier)
        ensures
            r@ == self@,
    {
        match self {
            ColumnIdentifier::Title => ColumnIdentifier::Title,
            ColumnIdentifier::Author => ColumnIdentifier::Author,
            ColumnIdentifier::Series => ColumnIdentifier::Series,
            ColumnIdentifier::ID => ColumnIdentifier::ID,
            ColumnIdentifier::Variants => ColumnIdentifier::Variants,
            ColumnIdentifier::Description => ColumnIdentifier::Description,
            ColumnIdentifier::ExtendedTag(s) => ColumnIdentifier::ExtendedTag(copy_string(s)),
            ColumnIdentifier::Tags => ColumnIdentifier::Tags,
            ColumnIdentifier::ExactTag(s) => ColumnIdentifier::ExactTag(copy_string(s)),
        }
    }
}

/// An edit to a column's value.
#[derive(Clone, Debug, PartialEq, Eq)]
pub enum Edit {
    Delete,
    Replace(String),
    Append(String),
}

pub ghost enum EditV {
    Delete,
    Replace(Seq<char>),
    Append(Seq<char>),
}

impl View for Edit {
    type V = EditV;

    open spec fn view(&self) -> EditV {
        match self {
            Edit::Delete => EditV::Delete,
            Edit::Replace(s) => EditV::Replace(s@),
            Edit::Append(s) => EditV::Append(s@),
        }
    }
}

/// Enumerates the errors that can occur when using a book.
#[derive(Clone, Debug, PartialEq, Eq)]
pub enum BookError {
    FileError,
    ImmutableColumnError,
    UnsupportedExtension(String),
}

/// Enumerates all supported book types.
#[derive(Copy, Clone, Debug, PartialEq, Eq)]
pub enum BookType {
    EPUB,
    MOBI,
    PDF,
}

/// The book type a file extension denotes, without regard to ASCII case.
pub open spec fn book_type_of(ext: Seq<char>) -> Option<BookType> {
    let l = ascii_lower_seq(ext);
    if l == seq!['e', 'p', 'u', 'b'] {
        Some(BookType::EPUB)
    } else if l == seq!['m', 'o', 'b', 'i'] {
        Some(BookType::MOBI)
    } else if l == seq!['p', 'd', 'f'] {
        Some(BookType::PDF)
    } else {
        None
    }
}

impl BookType {
    /// The book type of a file with extension `ext`.
    pub fn try_from(ext: &str) -> (r: Result<BookType, BookError>)
        ensures
            book_type_of(ext@) matches Some(t) ==> r == Ok::<BookType, BookError>(t),
            book_type_of(ext@) is None ==> (r matches Err(BookError::UnsupportedExtension(e))
                && e@ == ext@),
    {
        let l = lower_chars(ext);
        let ls = l.as_slice();
        if eq_chars(ls, &['e', 'p', 'u', 'b']) {
            Ok(BookType::EPUB)
        } else if eq_chars(ls, &['m', 'o', 'b', 'i']) {
            Ok(BookType::MOBI)
        } else if eq_chars(ls, &['p', 'd', 'f']) {
            Ok(BookType::PDF)
        } else {
            let chars = chars_of(ext);
            Err(BookError::UnsupportedExtension(string_from_chars(chars.as_slice())))
        }
    }
}

// ---------------------------------------------------------------------------
// Author names
// ---------------------------------------------------------------------------

/// The position of the first occurrence of `c` in `s`, if any.
pub open spec fn first_index_of(s: Seq<char>, c: char) -> Option<int>
    decreases s.len(),
{
    if s.len() == 0 {
        None
    } else if s[0] == c {
        Some(0)
    } else {
        match first_index_of(s.drop_first(), c) {
            Some(i) => Some(i + 1),
            None => None,
        }
    }
}

/// `s` without its leading run of `c`.
pub open spec fn trim_start(s: Seq<char>, c: char) -> Seq<char>
    decreases s.len(),
{
    if s.len() > 0 && s[0] == c {
        trim_start(s.drop_first(), c)
    } else {
        s
    }
}

/// "Last, First" becomes "First Last": the part after the first comma, without the commas
/// and then the spaces that begin it, a space, and the part before the comma. A name
/// without a comma is kept as it is.
pub open spec fn unravel_author_spec(s: Seq<char>) -> Seq<char> {
    match first_index_of(s, ',') {
        Some(i) => trim_start(trim_start(s.skip(i), ','), ' ') + seq![' '] + s.take(i),
        None => s,
    }
}

proof fn lemma_first_index_bounds(s: Seq<char>, c: char)
    ensures
        first_index_of(s, c) matches Some(i) ==> 0 <= i < s.len() && s[i] == c && forall|j: int|
            0 <= j < i ==> s[j] != c,
        first_index_of(s, c) is None ==> forall|j: int| 0 <= j < s.len() ==> s[j] != c,
    decreases s.len(),
{
    if s.len() > 0 {
        lemma_first_index_bounds(s.drop_first(), c);
        if s[0] != c {
            if let Some(i) = first_index_of(s.drop_first(), c) {
                assert forall|j: int| 0 <= j < i + 1 implies s[j] != c by {
                    if j > 0 {
                        assert(s[j] == s.drop_first()[j - 1]);
                    }
                }
            } else {
                assert forall|j: int| 0 <= j < s.len() implies s[j] != c by {
                    if j > 0 {
                        assert(s[j] == s.drop_first()[j - 1]);
                    }
                }
            }
        }
    }
}

proof fn lemma_first_index_at(s: Seq<char>, c: char, i: int)
    requires
        0 <= i < s.len(),
        s[i] == c,
        forall|j: int| 0 <= j < i ==> s[j] != c,
    ensures
        first_index_of(s, c) == Some(i),
    decreases s.len(),
{
    if i > 0 {
        assert forall|j: int| 0 <= j < i - 1 implies s.drop_first()[j] != c by {
            assert(s.drop_first()[j] == s[j + 1]);
        }
        lemma_first_index_at(s.drop_first(), c, i - 1);
    }
}

proof fn lemma_first_index_none(s: Seq<char>, c: char)
    requires
        forall|j: int| 0 <= j < s.len() ==> s[j] != c,
    ensures
        first_index_of(s, c) is None,
    decreases s.len(),
{
    if s.len() > 0 {
        assert forall|j: int| 0 <= j < s.len() - 1 implies s.drop_first()[j] != c by {
            assert(s.drop_first()[j] == s[j + 1]);
        }
        lemma_first_index_none(s.drop_first(), c);
    }
}

/// The index at which the leading run of `c` in `s[from..]` ends.
fn skip_run(s: &Vec<char>, from: usize, c: char) -> (r: usize)
    requires
        from <= s@.len(),
    ensures
        from <= r <= s@.len(),
        trim_start(s@.skip(from as int), c) == s@.skip(r as int),
    decreases s@.len() - from,
{
    if from < s.len() && s[from] == c {
        assert(s@.skip(from as int).drop_first() =~= s@.skip(from + 1));
        skip_run(s, from + 1, c)
    } else {
        r_stop(s, from, c)
    }
}

fn r_stop(s: &Vec<char>, from: usize, c: char) -> (r: usize)
    requires
        from <= s@.len(),
        !(from < s@.len() && s@[from as int] == c),
    ensures
        r == from,
        trim_start(s@.skip(from as int), c) == s@.skip(r as int),
{
    from
}

/// Rewrites "Last, First" as "First Last".
pub fn unravel_author(author: &str) -> (r: String)
    ensures
        r@ == unravel_author_spec(author@),
{
    let chars = chars_of(author);
    let mut i: usize = 0;
    while i < chars.len()
        invariant
            i <= chars@.len(),
            chars@ == author@,
            forall|j: int| 0 <= j < i ==> chars@[j] != ',',
        decreases chars.len() - i,
    {
        if chars[i] == ',' {
            proof {
                lemma_first_index_at(author@, ',', i as int);
            }
            let after_commas = skip_run(&chars, i, ',');
            let start = skip_run(&chars, after_commas, ' ');
            let mut out: Vec<char> = Vec::new();
            let mut k: usize = start;
            while k < chars.len()
                invariant
                    start <= k <= chars@.len(),
                    out@ =~= chars@.subrange(start as int, k as int),
                decreases chars.len() - k,
            {
                out.push(chars[k]);
                k = k + 1;
            }
            out.push(' ');
            let mut k: usize = 0;
            let ghost prefix = out@;
            while k < i
                invariant
                    k <= i,
                    i <= chars@.len(),
                    out@ =~= prefix + chars@.take(k as int),
                decreases i - k,
            {
                out.push(chars[k]);
                k = k + 1;
            }
            proof {
                assert(chars@.subrange(start as int, chars@.len() as int) =~= chars@.skip(start as int));
                assert(trim_start(chars@.skip(i as int), ',') == chars@.skip(after_commas as int));
            }
            return string_from_chars(out.as_slice());
        }
        i = i + 1;
    }
    proof {
        lemma_first_index_none(author@, ',');
    }
    string_from_chars(chars.as_slice())
}

} // verus!
