//! Building the library's books from the rows of its SQLite store: each book row with the
//! variants, named tags, free tags and multimap tags (authors among them) that refer to it;
//! rows that refer to no book are dropped; and the names of the columns the books have.
use vstd::prelude::*;

use crate::records::{BookError, BookType, ColumnIdentifier, ColumnV};
use crate::search::{matcher_column, matcher_matches, value_text, AnyMatcher};
use crate::table_view::{caseless_eq, same_name};
use crate::text::{ascii_lower_seq, chars_of, copy_string, eq_chars, lower_chars, string_from_chars};

verus! {

// ---------------------------------------------------------------------------
// Rows and books
// ---------------------------------------------------------------------------

/// A row of the `books` table. The series index is kept as the text the store holds.
#[derive(Clone, Debug)]
pub struct BookRow {
    pub id: i64,
    pub title: Option<String>,
    pub series_name: Option<String>,
    pub series_index: Option<String>,
}

/// A row of the `variants` table. `book_type` is `None` where the stored type could not be
/// read.
#[derive(Clone, Debug)]
pub struct VariantRow {
    pub book_id: i64,
    pub book_type: Option<BookType>,
    pub path: Vec<u8>,
    pub local_title: Option<String>,
    pub language: Option<String>,
    pub identifier: Option<String>,
    pub description: Option<String>,
    pub id: Option<i64>,
    pub file_size: i64,
    pub hash: Vec<u8>,
}

/// One file of a book.
#[derive(Clone, Debug)]
pub struct Variant {
    pub book_type: BookType,
    pub path: Vec<u8>,
    pub local_title: Option<String>,
    pub language: Option<String>,
    pub identifier: Option<String>,
    pub description: Option<String>,
    pub id: Option<u32>,
    pub file_size: u64,
    pub hash: Vec<u8>,
}

/// A book as the store holds it. Named tags and multimap tags are kept in the order of
/// their rows (where a named tag repeats, its last value is the book's).
#[derive(Clone, Debug)]
pub struct Book {
    pub id: i64,
    pub title: Option<String>,
    pub series: Option<(String, Option<String>)>,
    pub authors: Vec<String>,
    pub variants: Vec<Variant>,
    pub named_tags: Vec<(String, String)>,
    pub free_tags: Vec<String>,
    pub multimap_tags: Vec<(String, String)>,
    pub description: Option<String>,
}

pub ghost struct VariantV {
    pub book_type: BookType,
    pub path: Seq<u8>,
    pub local_title: Option<Seq<char>>,
    pub language: Option<Seq<char>>,
    pub identifier: Option<Seq<char>>,
    pub description: Option<Seq<char>>,
    pub id: Option<u32>,
    pub file_size: u64,
    pub hash: Seq<u8>,
}

pub ghost struct BookV {
    pub id: i64,
    pub title: Option<Seq<char>>,
    pub series: Option<(Seq<char>, Option<Seq<char>>)>,
    pub authors: Seq<Seq<char>>,
    pub variants: Seq<VariantV>,
    pub named_tags: Seq<(Seq<char>, Seq<char>)>,
    pub free_tags: Seq<Seq<char>>,
    pub multimap_tags: Seq<(Seq<char>, Seq<char>)>,
    pub description: Option<Seq<char>>,
}

pub open spec fn opt_text(o: Option<String>) -> Option<Seq<char>> {
    match o {
        Some(s) => Some(s@),
        None => None,
    }
}

pub open spec fn texts(v: Seq<String>) -> Seq<Seq<char>> {
    Seq::new(v.len(), |i: int| v[i]@)
}

pub open spec fn pairs_view(v: Seq<(String, String)>) -> Seq<(Seq<char>, Seq<char>)> {
    Seq::new(v.len(), |i: int| (v[i].0@, v[i].1@))
}

impl View for Variant {
    type V = VariantV;

    open spec fn view(&self) -> VariantV {
        VariantV {
            book_type: self.book_type,
            path: self.path@,
            local_title: opt_text(self.local_title),
            language: opt_text(self.language),
            identifier: opt_text(self.identifier),
            description: opt_text(self.description),
            id: self.id,
            file_size: self.file_size,
            hash: self.hash@,
        }
    }
}

pub open spec fn variants_view(v: Seq<Variant>) -> Seq<VariantV> {
    Seq::new(v.len(), |i: int| v[i]@)
}

impl View for Book {
    type V = BookV;

    open spec fn view(&self) -> BookV {
        BookV {
            id: self.id,
            title: opt_text(self.title),
            series: match self.series {
                Some((n, i)) => Some((n@, opt_text(i))),
                None => None,
            },
            authors: texts(self.authors@),
            variants: variants_view(self.variants@),
            named_tags: pairs_view(self.named_tags@),
            free_tags: texts(self.free_tags@),
            multimap_tags: pairs_view(self.multimap_tags@),
            description: opt_text(self.description),
        }
    }
}

pub open spec fn books_view(v: Seq<Book>) -> Seq<BookV> {
    Seq::new(v.len(), |i: int| v[i]@)
}

// ---------------------------------------------------------------------------
// What a book is made of
// ---------------------------------------------------------------------------

/// The multimap tag name that holds a book's authors.
pub open spec fn author_name() -> Seq<char> {
    seq!['a', 'u', 't', 'h', 'o', 'r']
}

/// Whether book row `i` makes a book: its id is not 0, and no later row has its id (a later
/// row with the same id replaces it).
pub open spec fn book_kept(books: Seq<BookRow>, i: int) -> bool {
    books[i].id != 0 && forall|j: int| i < j < books.len() ==> #[trigger] books[j].id != books[i].id
}

/// Whether some book has id `id`.
pub open spec fn has_book(books: Seq<BookRow>, id: i64) -> bool {
    id != 0 && exists|i: int| 0 <= i < books.len() && #[trigger] books[i].id == id
}

/// Whether a variant row can be read: its type was read and its hash has 32 bytes.
pub open spec fn variant_readable(v: VariantRow) -> bool {
    v.book_type is Some && v.hash@.len() == 32
}

pub open spec fn variant_of(v: VariantRow) -> VariantV {
    VariantV {
        book_type: v.book_type->Some_0,
        path: v.path@,
        local_title: opt_text(v.local_title),
        language: opt_text(v.language),
        identifier: opt_text(v.identifier),
        description: opt_text(v.description),
        id: match v.id {
            Some(x) => Some(x as u32),
            None => None,
        },
        file_size: v.file_size as u64,
        hash: v.hash@,
    }
}

/// The readable variants among the first `n` rows that belong to book `id`, in order.
pub open spec fn variants_for(vs: Seq<VariantRow>, id: i64, n: int) -> Seq<VariantV>
    decreases n,
{
    if n <= 0 {
        Seq::empty()
    } else {
        let acc = variants_for(vs, id, n - 1);
        if vs[n - 1].book_id == id && variant_readable(vs[n - 1]) {
            acc.push(variant_of(vs[n - 1]))
        } else {
            acc
        }
    }
}

/// The (name, value) pairs among the first `n` rows that belong to book `id` and whose name
/// is `author` exactly when `authors`.
pub open spec fn tags_for(t: Seq<(i64, String, String)>, id: i64, n: int, authors: Option<bool>) -> Seq<
    (Seq<char>, Seq<char>),
>
    decreases n,
{
    if n <= 0 {
        Seq::empty()
    } else {
        let acc = tags_for(t, id, n - 1, authors);
        let r = t[n - 1];
        let wanted = match authors {
            None => true,
            Some(a) => (r.1@ == author_name()) == a,
        };
        if r.0 == id && wanted {
            acc.push((r.1@, r.2@))
        } else {
            acc
        }
    }
}

/// The free tags among the first `n` rows that belong to book `id`, in order.
pub open spec fn free_for(t: Seq<(i64, String)>, id: i64, n: int) -> Seq<Seq<char>>
    decreases n,
{
    if n <= 0 {
        Seq::empty()
    } else {
        let acc = free_for(t, id, n - 1);
        if t[n - 1].0 == id {
            acc.push(t[n - 1].1@)
        } else {
            acc
        }
    }
}

pub open spec fn values_of(p: Seq<(Seq<char>, Seq<char>)>) -> Seq<Seq<char>> {
    Seq::new(p.len(), |i: int| p[i].1)
}

/// The book row `b` makes, with what the other rows give it.
pub open spec fn book_of(
    b: BookRow,
    variants: Seq<VariantRow>,
    named: Seq<(i64, String, String)>,
    free: Seq<(i64, String)>,
    multimap: Seq<(i64, String, String)>,
) -> BookV {
    BookV {
        id: b.id,
        title: opt_text(b.title),
        series: match b.series_name {
            Some(n) => Some((n@, opt_text(b.series_index))),
            None => None,
        },
        authors: values_of(tags_for(multimap, b.id, multimap.len() as int, Some(true))),
        variants: variants_for(variants, b.id, variants.len() as int),
        named_tags: tags_for(named, b.id, named.len() as int, None),
        free_tags: free_for(free, b.id, free.len() as int),
        multimap_tags: tags_for(multimap, b.id, multimap.len() as int, Some(false)),
        description: None,
    }
}

/// The books the first `n` book rows make, in row order.
pub open spec fn books_upto(
    books: Seq<BookRow>,
    variants: Seq<VariantRow>,
    named: Seq<(i64, String, String)>,
    free: Seq<(i64, String)>,
    multimap: Seq<(i64, String, String)>,
    n: int,
) -> Seq<BookV>
    decreases n,
{
    if n <= 0 {
        Seq::empty()
    } else {
        let acc = books_upto(books, variants, named, free, multimap, n - 1);
        if book_kept(books, n - 1) {
            acc.push(book_of(books[n - 1], variants, named, free, multimap))
        } else {
            acc
        }
    }
}

// ---------------------------------------------------------------------------
// Column names
// ---------------------------------------------------------------------------

/// The columns every book has.
pub open spec fn prime_columns() -> Seq<Seq<char>> {
    seq![
        seq!['t', 'i', 't', 'l', 'e'],
        seq!['a', 'u', 't', 'h', 'o', 'r', 's'],
        seq!['s', 'e', 'r', 'i', 'e', 's'],
        seq!['i', 'd'],
        seq!['d', 'e', 's', 'c', 'r', 'i', 'p', 't', 'i', 'o', 'n'],
    ]
}

/// Whether a name equal to `n` without regard to case is in `names`.
pub open spec fn known_name(names: Seq<Seq<char>>, n: Seq<char>) -> bool {
    exists|k: int| 0 <= k < names.len() && caseless_eq(#[trigger] names[k], n)
}

/// `names` with the names of the first `k` tag rows added, each where it belongs to a book,
/// is not the author name when `skip_author`, and no equal name (without regard to case) is
/// there yet.
pub open spec fn columns_upto(
    names: Seq<Seq<char>>,
    books: Seq<BookRow>,
    t: Seq<(i64, String, String)>,
    skip_author: bool,
    k: int,
) -> Seq<Seq<char>>
    decreases k,
{
    if k <= 0 {
        names
    } else {
        let acc = columns_upto(names, books, t, skip_author, k - 1);
        let r = t[k - 1];
        if has_book(books, r.0) && !(skip_author && r.1@ == author_name()) && !known_name(
            acc,
            r.1@,
        ) {
            acc.push(r.1@)
        } else {
            acc
        }
    }
}

/// The books the rows make, in the order of their book rows, and the names of the columns
/// they have: the prime columns, then the names of the named tags and of the multimap tags
/// other than the authors, each once without regard to case.
pub open spec fn books_from_rows_spec(
    books: Seq<BookRow>,
    variants: Seq<VariantRow>,
    named: Seq<(i64, String, String)>,
    free: Seq<(i64, String)>,
    multimap: Seq<(i64, String, String)>,
) -> (Seq<BookV>, Seq<Seq<char>>) {
    let with_named = columns_upto(prime_columns(), books, named, false, named.len() as int);
    (
        books_upto(books, variants, named, free, multimap, books.len() as int),
        columns_upto(with_named, books, multimap, true, multimap.len() as int),
    )
}

/// The rows refer to books by ids other than 0, and a variant's id fits in 32 bits where its
/// type was read.
pub open spec fn rows_valid(
    variants: Seq<VariantRow>,
    named: Seq<(i64, String, String)>,
    free: Seq<(i64, String)>,
    multimap: Seq<(i64, String, String)>,
) -> bool {
    &&& forall|i: int| 0 <= i < variants.len() ==> #[trigger] variants[i].book_id != 0
    &&& forall|i: int|
        0 <= i < variants.len() && (#[trigger] variants[i]).book_type is Some && variants[i].id is Some
            ==> 0 <= variants[i].id->Some_0 <= u32::MAX
    &&& forall|i: int| 0 <= i < named.len() ==> #[trigger] named[i].0 != 0
    &&& forall|i: int| 0 <= i < free.len() ==> #[trigger] free[i].0 != 0
    &&& forall|i: int| 0 <= i < multimap.len() ==> #[trigger] multimap[i].0 != 0
}

// ---------------------------------------------------------------------------
// Building the books
// ---------------------------------------------------------------------------

pub(crate) fn copy_opt(o: &Option<String>) -> (r: Option<String>)
    ensures
        opt_text(r) == opt_text(*o),
{
    match o {
        Some(s) => Some(copy_string(s)),
        None => None,
    }
}

fn copy_bytes(v: &Vec<u8>) -> (r: Vec<u8>)
    ensures
        r@ == v@,
{
    let mut out: Vec<u8> = Vec::new();
    let mut i: usize = 0;
    while i < v.len()
        invariant
            i <= v@.len(),
            out@ == v@.take(i as int),
        decreases v.len() - i,
    {
        out.push(v[i]);
        assert(v@.take(i + 1) =~= v@.take(i as int).push(v@[i as int]));
        i = i + 1;
    }
    assert(v@.take(v@.len() as int) =~= v@);
    out
}

fn is_author_name(s: &String) -> (r: bool)
    ensures
        r == (s@ == author_name()),
{
    let c = chars_of(s.as_str());
    let a = ['a', 'u', 't', 'h', 'o', 'r'];
    assert(a@ =~= author_name());
    eq_chars(c.as_slice(), &a)
}

/// Whether book row `i` makes a book.
fn row_kept(books: &Vec<BookRow>, i: usize) -> (r: bool)
    requires
        i < books@.len(),
    ensures
        r == book_kept(books@, i as int),
{
    let id = books[i].id;
    if id == 0 {
        return false;
    }
    let n = books.len();
    let mut j: usize = i + 1;
    while j < books.len()
        invariant
            i < j <= books@.len(),
            id == books@[i as int].id,
            forall|k: int| i < k < j ==> #[trigger] books@[k].id != id,
        decreases books.len() - j,
    {
        if books[j].id == id {
            return false;
        }
        j = j + 1;
    }
    true
}

/// Whether some book has id `id`.
fn book_exists(books: &Vec<BookRow>, id: i64) -> (r: bool)
    ensures
        r == has_book(books@, id),
{
    if id == 0 {
        return false;
    }
    let mut j: usize = 0;
    while j < books.len()
        invariant
            j <= books@.len(),
            id != 0,
            forall|k: int| 0 <= k < j ==> #[trigger] books@[k].id != id,
        decreases books.len() - j,
    {
        if books[j].id == id {
            assert(books@[j as int].id == id);
            return true;
        }
        j = j + 1;
    }
    false
}

fn variants_of(vs: &Vec<VariantRow>, id: i64) -> (r: Vec<Variant>)
    requires
        forall|i: int|
            0 <= i < vs@.len() && (#[trigger] vs@[i]).book_type is Some && vs@[i].id is Some
                ==> 0 <= vs@[i].id->Some_0 <= u32::MAX,
    ensures
        variants_view(r@) == variants_for(vs@, id, vs@.len() as int),
{
    let mut out: Vec<Variant> = Vec::new();
    let mut k: usize = 0;
    while k < vs.len()
        invariant
            k <= vs@.len(),
            variants_view(out@) == variants_for(vs@, id, k as int),
            forall|i: int|
                0 <= i < vs@.len() && (#[trigger] vs@[i]).book_type is Some && vs@[i].id is Some
                    ==> 0 <= vs@[i].id->Some_0 <= u32::MAX,
        decreases vs.len() - k,
    {
        let v = &vs[k];
        if v.book_id == id && v.hash.len() == 32 {
            match v.book_type {
                Some(t) => {
                    let vid: Option<u32> = match v.id {
                        Some(x) => {
                            assert(vs@[k as int].book_type is Some);
                            Some(x as u32)
                        },
                        None => None,
                    };
                    let nv = Variant {
                        book_type: t,
                        path: copy_bytes(&v.path),
                        local_title: copy_opt(&v.local_title),
                        language: copy_opt(&v.language),
                        identifier: copy_opt(&v.identifier),
                        description: copy_opt(&v.description),
                        id: vid,
                        file_size: v.file_size as u64,
                        hash: copy_bytes(&v.hash),
                    };
                    let ghost before = out@;
                    out.push(nv);
                    assert(variants_view(out@) =~= variants_view(before).push(variant_of(vs@[k as int])));
                },
                None => {},
            }
        }
        k = k + 1;
    }
    out
}

/// The (name, value) pairs of the tag rows of book `id`: all of them, or those whose name
/// is `author` exactly when `authors` says so.
fn tags_of(t: &Vec<(i64, String, String)>, id: i64, authors: Option<bool>) -> (r: Vec<(String, String)>)
    ensures
        pairs_view(r@) == tags_for(t@, id, t@.len() as int, authors),
{
    let mut out: Vec<(String, String)> = Vec::new();
    let mut k: usize = 0;
    while k < t.len()
        invariant
            k <= t@.len(),
            pairs_view(out@) == tags_for(t@, id, k as int, authors),
        decreases t.len() - k,
    {
        let r = &t[k];
        let wanted = match authors {
            None => true,
            Some(a) => is_author_name(&r.1) == a,
        };
        if r.0 == id && wanted {
            let ghost before = out@;
            out.push((copy_string(&r.1), copy_string(&r.2)));
            assert(pairs_view(out@) =~= pairs_view(before).push((t@[k as int].1@, t@[k as int].2@)));
        }
        k = k + 1;
    }
    out
}

fn free_of(t: &Vec<(i64, String)>, id: i64) -> (r: Vec<String>)
    ensures
        texts(r@) == free_for(t@, id, t@.len() as int),
{
    let mut out: Vec<String> = Vec::new();
    let mut k: usize = 0;
    while k < t.len()
        invariant
            k <= t@.len(),
            texts(out@) == free_for(t@, id, k as int),
        decreases t.len() - k,
    {
        if t[k].0 == id {
            let ghost before = out@;
            out.push(copy_string(&t[k].1));
            assert(texts(out@) =~= texts(before).push(t@[k as int].1@));
        }
        k = k + 1;
    }
    out
}

fn values_only(p: Vec<(String, String)>) -> (r: Vec<String>)
    ensures
        texts(r@) == values_of(pairs_view(p@)),
{
    let mut out: Vec<String> = Vec::new();
    let mut k: usize = 0;
    while k < p.len()
        invariant
            k <= p@.len(),
            texts(out@) =~= values_of(pairs_view(p@)).take(k as int),
        decreases p.len() - k,
    {
        let ghost before = out@;
        out.push(copy_string(&p[k].1));
        assert(texts(out@) =~= texts(before).push(p@[k as int].1@));
        assert(values_of(pairs_view(p@)).take(k + 1) =~= values_of(pairs_view(p@)).take(
            k as int,
        ).push(p@[k as int].1@));
        k = k + 1;
    }
    assert(values_of(pairs_view(p@)).take(p@.len() as int) =~= values_of(pairs_view(p@)));
    out
}

fn make_book(
    b: &BookRow,
    variants: &Vec<VariantRow>,
    named: &Vec<(i64, String, String)>,
    free: &Vec<(i64, String)>,
    multimap: &Vec<(i64, String, String)>,
) -> (r: Book)
    requires
        rows_valid(variants@, named@, free@, multimap@),
    ensures
        r@ == book_of(*b, variants@, named@, free@, multimap@),
{
    let series = match &b.series_name {
        Some(n) => Some((copy_string(n), copy_opt(&b.series_index))),
        None => None,
    };
    let authors = values_only(tags_of(multimap, b.id, Some(true)));
    Book {
        id: b.id,
        title: copy_opt(&b.title),
        series,
        authors,
        variants: variants_of(variants, b.id),
        named_tags: tags_of(named, b.id, None),
        free_tags: free_of(free, b.id),
        multimap_tags: tags_of(multimap, b.id, Some(false)),
        description: None,
    }
}

pub(crate) fn name_known(names: &Vec<String>, n: &String) -> (r: bool)
    ensures
        r == known_name(texts(names@), n@),
{
    let mut k: usize = 0;
    while k < names.len()
        invariant
            k <= names@.len(),
            forall|j: int| 0 <= j < k ==> !caseless_eq(#[trigger] texts(names@)[j], n@),
        decreases names.len() - k,
    {
        if same_name(names[k].as_str(), n.as_str()) {
            assert(caseless_eq(texts(names@)[k as int], n@));
            return true;
        }
        k = k + 1;
    }
    false
}

/// Adds the names of the tag rows that belong to a book (but the author name where
/// `skip_author`), each where no equal name is known yet.
fn add_columns(
    names: &mut Vec<String>,
    books: &Vec<BookRow>,
    t: &Vec<(i64, String, String)>,
    skip_author: bool,
)
    ensures
        texts(final(names)@) == columns_upto(texts(old(names)@), books@, t@, skip_author, t@.len() as int),
{
    let ghost start = texts(names@);
    let mut k: usize = 0;
    while k < t.len()
        invariant
            k <= t@.len(),
            texts(names@) == columns_upto(start, books@, t@, skip_author, k as int),
        decreases t.len() - k,
    {
        let r = &t[k];
        if book_exists(books, r.0) && !(skip_author && is_author_name(&r.1)) && !name_known(
            names,
            &r.1,
        ) {
            let ghost before = names@;
            names.push(copy_string(&r.1));
            assert(texts(names@) =~= texts(before).push(t@[k as int].1@));
        }
        k = k + 1;
    }
}

pub(crate) fn prime_column_names() -> (r: Vec<String>)
    ensures
        texts(r@) == prime_columns(),
{
    let a = ['t', 'i', 't', 'l', 'e'];
    let b = ['a', 'u', 't', 'h', 'o', 'r', 's'];
    let c = ['s', 'e', 'r', 'i', 'e', 's'];
    let d = ['i', 'd'];
    let e = ['d', 'e', 's', 'c', 'r', 'i', 'p', 't', 'i', 'o', 'n'];
    let mut v: Vec<String> = Vec::new();
    v.push(string_from_chars(&a));
    v.push(string_from_chars(&b));
    v.push(string_from_chars(&c));
    v.push(string_from_chars(&d));
    v.push(string_from_chars(&e));
    assert(a@ =~= prime_columns()[0]);
    assert(b@ =~= prime_columns()[1]);
    assert(c@ =~= prime_columns()[2]);
    assert(d@ =~= prime_columns()[3]);
    assert(e@ =~= prime_columns()[4]);
    assert(texts(v@) =~= prime_columns());
    v
}

/// Builds the books from the rows the store holds, and names the columns they have. A book
/// row with id 0 makes no book; where two book rows have one id, the later one makes the
/// book. Variants whose type could not be read or whose hash does not have 32 bytes are
/// left out, and rows that refer to no book are dropped.
pub fn books_from_rows(
    books: Vec<BookRow>,
    variants: Vec<VariantRow>,
    named: Vec<(i64, String, String)>,
    free: Vec<(i64, String)>,
    multimap: Vec<(i64, String, String)>,
) -> (r: (Vec<Book>, Vec<String>))
    requires
        rows_valid(variants@, named@, free@, multimap@),
    ensures
        (books_view(r.0@), texts(r.1@)) == books_from_rows_spec(
            books@,
            variants@,
            named@,
            free@,
            multimap@,
        ),
{
    let mut out: Vec<Book> = Vec::new();
    let mut i: usize = 0;
    while i < books.len()
        invariant
            i <= books@.len(),
            rows_valid(variants@, named@, free@, multimap@),
            books_view(out@) == books_upto(books@, variants@, named@, free@, multimap@, i as int),
        decreases books.len() - i,
    {
        if row_kept(&books, i) {
            let b = make_book(&books[i], &variants, &named, &free, &multimap);
            let ghost before = out@;
            out.push(b);
            assert(books_view(out@) =~= books_view(before).push(
                book_of(books@[i as int], variants@, named@, free@, multimap@),
            ));
        }
        i = i + 1;
    }
    let mut names = prime_column_names();
    add_columns(&mut names, &books, &named, false);
    add_columns(&mut names, &books, &multimap, true);
    (out, names)
}

// ---------------------------------------------------------------------------
// Merging books
// ---------------------------------------------------------------------------

/// `a` merged with `b`, a variant of the same book: what `a` lacks of title, authors,
/// series and description comes from `b`, and `b`'s variants and tags follow `a`'s (so that where a named
/// tag repeats, `b`'s value is the book's).
pub open spec fn merged(a: BookV, b: BookV) -> BookV {
    BookV {
        id: a.id,
        title: if a.title is None {
            b.title
        } else {
            a.title
        },
        series: if a.series is None {
            b.series
        } else {
            a.series
        },
        authors: if a.authors.len() == 0 {
            b.authors
        } else {
            a.authors
        },
        variants: a.variants + b.variants,
        named_tags: a.named_tags + b.named_tags,
        free_tags: a.free_tags + b.free_tags,
        multimap_tags: a.multimap_tags + b.multimap_tags,
        description: if a.description is None {
            b.description
        } else {
            a.description
        },
    }
}

fn copy_variant(v: &Variant) -> (r: Variant)
    ensures
        r@ == v@,
{
    Variant {
        book_type: v.book_type,
        path: copy_bytes(&v.path),
        local_title: copy_opt(&v.local_title),
        language: copy_opt(&v.language),
        identifier: copy_opt(&v.identifier),
        description: copy_opt(&v.description),
        id: v.id,
        file_size: v.file_size,
        hash: copy_bytes(&v.hash),
    }
}

pub(crate) fn copy_texts(v: &Vec<String>) -> (r: Vec<String>)
    ensures
        texts(r@) == texts(v@),
{
    let mut out: Vec<String> = Vec::new();
    append_texts(&mut out, v);
    assert(texts(out@) =~= texts(v@));
    out
}

fn append_texts(out: &mut Vec<String>, v: &Vec<String>)
    ensures
        texts(final(out)@) == texts(old(out)@) + texts(v@),
{
    let ghost start = texts(out@);
    let mut k: usize = 0;
    while k < v.len()
        invariant
            k <= v@.len(),
            texts(out@) =~= start + texts(v@).take(k as int),
        decreases v.len() - k,
    {
        let ghost before = out@;
        out.push(copy_string(&v[k]));
        assert(texts(out@) =~= texts(before).push(v@[k as int]@));
        assert(texts(v@).take(k + 1) =~= texts(v@).take(k as int).push(v@[k as int]@));
        k = k + 1;
    }
    assert(texts(v@).take(v@.len() as int) =~= texts(v@));
}

fn append_pairs(out: &mut Vec<(String, String)>, v: &Vec<(String, String)>)
    ensures
        pairs_view(final(out)@) == pairs_view(old(out)@) + pairs_view(v@),
{
    let ghost start = pairs_view(out@);
    let mut k: usize = 0;
    while k < v.len()
        invariant
            k <= v@.len(),
            pairs_view(out@) =~= start + pairs_view(v@).take(k as int),
        decreases v.len() - k,
    {
        let ghost before = out@;
        out.push((copy_string(&v[k].0), copy_string(&v[k].1)));
        assert(pairs_view(out@) =~= pairs_view(before).push((v@[k as int].0@, v@[k as int].1@)));
        assert(pairs_view(v@).take(k + 1) =~= pairs_view(v@).take(k as int).push(
            (v@[k as int].0@, v@[k as int].1@),
        ));
        k = k + 1;
    }
    assert(pairs_view(v@).take(v@.len() as int) =~= pairs_view(v@));
}

fn append_variants(out: &mut Vec<Variant>, v: &Vec<Variant>)
    ensures
        variants_view(final(out)@) == variants_view(old(out)@) + variants_view(v@),
{
    let ghost start = variants_view(out@);
    let mut k: usize = 0;
    while k < v.len()
        invariant
            k <= v@.len(),
            variants_view(out@) =~= start + variants_view(v@).take(k as int),
        decreases v.len() - k,
    {
        let ghost before = out@;
        out.push(copy_variant(&v[k]));
        assert(variants_view(out@) =~= variants_view(before).push(v@[k as int]@));
        assert(variants_view(v@).take(k + 1) =~= variants_view(v@).take(k as int).push(
            v@[k as int]@,
        ));
        k = k + 1;
    }
    assert(variants_view(v@).take(v@.len() as int) =~= variants_view(v@));
}

impl Book {
    /// Merges `other`, a variant of this book, into it: the title, authors, series and
    /// description this book lacks are taken from `other`, and `other`'s variants and tags are added.
    pub fn merge_mut(&mut self, other: &Book)
        ensures
            final(self)@ == merged(old(self)@, other@),
    {
        if self.title.is_none() {
            self.title = copy_opt(&other.title);
        }
        if self.authors.len() == 0 {
            self.authors = copy_texts(&other.authors);
        }
        if self.series.is_none() {
            self.series = match &other.series {
                Some((n, i)) => Some((copy_string(n), copy_opt(i))),
                None => None,
            };
        }
        append_variants(&mut self.variants, &other.variants);
        append_pairs(&mut self.named_tags, &other.named_tags);
        append_texts(&mut self.free_tags, &other.free_tags);
        append_pairs(&mut self.multimap_tags, &other.multimap_tags);
        if self.description.is_none() {
            self.description = copy_opt(&other.description);
        }
    }
}

/// The authors written as one text, separated by ", ".
pub open spec fn join_authors(a: Seq<Seq<char>>) -> Seq<char>
    decreases a.len(),
{
    if a.len() == 0 {
        Seq::empty()
    } else if a.len() == 1 {
        a[0]
    } else {
        join_authors(a.drop_last()) + seq![',', ' '] + a.last()
    }
}

/// What books are merged by: the title and the authors, without regard to ASCII case; a
/// book without a title or without authors has none.
#[verifier::opaque]
pub open spec fn merge_key(b: BookV) -> Option<(Seq<char>, Seq<char>)> {
    match b.title {
        Some(t) => if b.authors.len() > 0 {
            Some((ascii_lower_seq(t), ascii_lower_seq(join_authors(b.authors))))
        } else {
            None
        },
        None => None,
    }
}

/// The index of the first book from `j` on whose key is `k` (the length where there is none).
pub open spec fn first_from(bs: Seq<BookV>, k: (Seq<char>, Seq<char>), j: int) -> int
    decreases bs.len() - j,
{
    if j >= bs.len() || j < 0 {
        bs.len() as int
    } else if merge_key(bs[j]) == Some(k) {
        j
    } else {
        first_from(bs, k, j + 1)
    }
}

/// Whether book `i` is kept: it has no key, or it is the first book with its key.
pub open spec fn merge_target(bs: Seq<BookV>, i: int) -> bool {
    match merge_key(bs[i]) {
        None => true,
        Some(k) => first_from(bs, k, 0) == i,
    }
}

/// Book `i` with the books after it among the first `n` that have its key merged into it,
/// in order.
pub open spec fn merged_into(bs: Seq<BookV>, i: int, n: int) -> BookV
    decreases n - i,
{
    if n <= i + 1 {
        bs[i]
    } else {
        let acc = merged_into(bs, i, n - 1);
        if merge_key(bs[n - 1]) is Some && merge_key(bs[n - 1]) == merge_key(bs[i]) {
            merged(acc, bs[n - 1])
        } else {
            acc
        }
    }
}

/// The books left after merging, among the first `n`: each target with the books of its key
/// merged into it, in order.
pub open spec fn similar_merged(bs: Seq<BookV>, n: int) -> Seq<BookV>
    decreases n,
{
    if n <= 0 {
        Seq::empty()
    } else {
        let acc = similar_merged(bs, n - 1);
        if merge_target(bs, n - 1) {
            acc.push(merged_into(bs, n - 1, bs.len() as int))
        } else {
            acc
        }
    }
}

/// The merges made among the first `n` books: (id merged into, id merged from), in order.
pub open spec fn similar_merges(bs: Seq<BookV>, n: int) -> Seq<(i64, i64)>
    decreases n,
{
    if n <= 0 {
        Seq::empty()
    } else {
        let acc = similar_merges(bs, n - 1);
        if merge_target(bs, n - 1) {
            acc
        } else {
            let k = merge_key(bs[n - 1])->Some_0;
            acc.push((bs[first_from(bs, k, 0)].id, bs[n - 1].id))
        }
    }
}

proof fn lemma_first_from_bounds(bs: Seq<BookV>, k: (Seq<char>, Seq<char>), j: int, i: int)
    requires
        0 <= j <= i < bs.len(),
        merge_key(bs[i]) == Some(k),
    ensures
        j <= first_from(bs, k, j) <= i,
        merge_key(bs[first_from(bs, k, j)]) == Some(k),
    decreases i - j,
{
    if merge_key(bs[j]) != Some(k) {
        lemma_first_from_bounds(bs, k, j + 1, i);
    }
}

pub(crate) fn copy_book(b: &Book) -> (r: Book)
    ensures
        r@ == b@,
{
    let mut variants: Vec<Variant> = Vec::new();
    append_variants(&mut variants, &b.variants);
    let mut named: Vec<(String, String)> = Vec::new();
    append_pairs(&mut named, &b.named_tags);
    let mut multimap: Vec<(String, String)> = Vec::new();
    append_pairs(&mut multimap, &b.multimap_tags);
    let r = Book {
        id: b.id,
        title: copy_opt(&b.title),
        series: match &b.series {
            Some((n, i)) => Some((copy_string(n), copy_opt(i))),
            None => None,
        },
        authors: copy_texts(&b.authors),
        variants,
        named_tags: named,
        free_tags: copy_texts(&b.free_tags),
        multimap_tags: multimap,
        description: copy_opt(&b.description),
    };
    assert(r@.variants =~= b@.variants);
    assert(r@.named_tags =~= b@.named_tags);
    assert(r@.multimap_tags =~= b@.multimap_tags);
    r
}

/// The key a book is merged by, computed.
fn key_of(b: &Book) -> (r: Option<(Vec<char>, Vec<char>)>)
    ensures
        match r {
            Some((t, a)) => merge_key(b@) == Some((t@, a@)),
            None => merge_key(b@) is None,
        },
{
    reveal(merge_key);
    match &b.title {
        None => None,
        Some(t) => {
            if b.authors.len() == 0 {
                return None;
            }
            let ghost au = texts(b.authors@);
            let mut joined: Vec<char> = Vec::new();
            let mut k: usize = 0;
            while k < b.authors.len()
                invariant
                    k <= b.authors@.len(),
                    au == texts(b.authors@),
                    joined@ == join_authors(au.take(k as int)),
                decreases b.authors.len() - k,
            {
                let c = chars_of(b.authors[k].as_str());
                if k > 0 {
                    joined.push(',');
                    joined.push(' ');
                }
                let mut m: usize = 0;
                let ghost base = joined@;
                while m < c.len()
                    invariant
                        m <= c@.len(),
                        joined@ =~= base + c@.take(m as int),
                    decreases c.len() - m,
                {
                    joined.push(c[m]);
                    m = m + 1;
                }
                assert(c@.take(c@.len() as int) =~= c@);
                proof {
                    let p = au.take(k + 1);
                    assert(p.drop_last() =~= au.take(k as int));
                    assert(p.last() == b.authors@[k as int]@);
                    if k == 0 {
                        assert(p.len() == 1);
                        assert(joined@ =~= p[0]);
                    }
                }
                k = k + 1;
            }
            assert(au.take(b.authors@.len() as int) =~= au);
            let js = crate::text::string_from_chars(joined.as_slice());
            Some((lower_chars(t.as_str()), lower_chars(js.as_str())))
        },
    }
}

fn same_key(a: &Option<(Vec<char>, Vec<char>)>, b: &Option<(Vec<char>, Vec<char>)>) -> (r: bool)
    ensures
        r == (a is Some && b is Some && a->Some_0.0@ == b->Some_0.0@ && a->Some_0.1@ == b->Some_0.1@),
{
    match (a, b) {
        (Some((t1, a1)), Some((t2, a2))) => eq_chars(t1.as_slice(), t2.as_slice()) && eq_chars(
            a1.as_slice(),
            a2.as_slice(),
        ),
        _ => false,
    }
}

pub open spec fn key_view(k: Option<(Vec<char>, Vec<char>)>) -> Option<(Seq<char>, Seq<char>)> {
    match k {
        Some((t, a)) => Some((t@, a@)),
        None => None,
    }
}

/// Merges the books that have the same title and the same authors (without regard to ASCII
/// case) into the first of them, in order; books without a title or without authors are
/// not merged. Returns the books left, in order, and each merge made as (the id merged
/// into, the id merged from).
pub fn merge_similar(books: Vec<Book>) -> (r: (Vec<Book>, Vec<(i64, i64)>))
    ensures
        books_view(r.0@) == similar_merged(books_view(books@), books@.len() as int),
        r.1@ == similar_merges(books_view(books@), books@.len() as int),
{
    let ghost bs = books_view(books@);
    let n = books.len();
    let mut keys: Vec<Option<(Vec<char>, Vec<char>)>> = Vec::new();
    let mut i: usize = 0;
    while i < n
        invariant
            i <= n == books@.len(),
            bs == books_view(books@),
            keys@.len() == i,
            forall|j: int| 0 <= j < i ==> key_view(#[trigger] keys@[j]) == merge_key(bs[j]),
        decreases n - i,
    {
        keys.push(key_of(&books[i]));
        i = i + 1;
    }
    let mut out: Vec<Book> = Vec::new();
    let mut merges: Vec<(i64, i64)> = Vec::new();
    let mut i: usize = 0;
    while i < n
        invariant
            i <= n == books@.len() == keys@.len(),
            bs == books_view(books@),
            forall|j: int| 0 <= j < n ==> key_view(#[trigger] keys@[j]) == merge_key(bs[j]),
            books_view(out@) == similar_merged(bs, i as int),
            merges@ == similar_merges(bs, i as int),
        decreases n - i,
    {
        // The first book with this book's key.
        let mut f: usize = i;
        if keys[i].is_some() {
            let ghost k = merge_key(bs[i as int])->Some_0;
            proof {
                lemma_first_from_bounds(bs, k, 0, i as int);
            }
            let mut j: usize = 0;
            while j < i && !same_key(&keys[j], &keys[i])
                invariant
                    j <= i < n == keys@.len() == bs.len(),
                    forall|m: int| 0 <= m < n ==> key_view(#[trigger] keys@[m]) == merge_key(bs[m]),
                    merge_key(bs[i as int]) == Some(k),
                    first_from(bs, k, j as int) == first_from(bs, k, 0),
                    j <= first_from(bs, k, 0) <= i,
                decreases i - j,
            {
                assert(key_view(keys@[j as int]) == merge_key(bs[j as int]));
                assert(merge_key(bs[j as int]) != Some(k));
                assert(first_from(bs, k, j as int) == first_from(bs, k, j + 1));
                proof {
                    lemma_first_from_bounds(bs, k, j + 1, i as int);
                }
                j = j + 1;
            }
            proof {
                if j < i {
                    assert(key_view(keys@[j as int]) == merge_key(bs[j as int]));
                    assert(merge_key(bs[j as int]) == Some(k));
                }
            }
            f = j;
            assert(f == first_from(bs, k, 0));
        }
        if f == i {
            let mut b = copy_book(&books[i]);
            let mut j: usize = i + 1;
            while j < n
                invariant
                    i < j <= n == books@.len() == keys@.len(),
                    bs == books_view(books@),
                    forall|m: int| 0 <= m < n ==> key_view(#[trigger] keys@[m]) == merge_key(bs[m]),
                    b@ == merged_into(bs, i as int, j as int),
                decreases n - j,
            {
                assert(key_view(keys@[j as int]) == merge_key(bs[j as int]));
                assert(key_view(keys@[i as int]) == merge_key(bs[i as int]));
                if same_key(&keys[j], &keys[i]) {
                    b.merge_mut(&books[j]);
                }
                j = j + 1;
            }
            let ghost before = out@;
            out.push(b);
            assert(books_view(out@) =~= books_view(before).push(merged_into(bs, i as int, n as int)));
        } else {
            merges.push((books[f].id, books[i].id));
        }
        i = i + 1;
    }
    (out, merges)
}

// ---------------------------------------------------------------------------
// Laws of merging
// ---------------------------------------------------------------------------

proof fn lemma_merged_into_key(bs: Seq<BookV>, i: int, n: int)
    requires
        0 <= i < bs.len(),
    ensures
        merge_key(merged_into(bs, i, n)) == merge_key(bs[i]),
    decreases n - i,
{
    reveal(merge_key);
    if n > i + 1 {
        lemma_merged_into_key(bs, i, n - 1);
        let acc = merged_into(bs, i, n - 1);
        if merge_key(bs[n - 1]) is Some && merge_key(bs[n - 1]) == merge_key(bs[i]) {
            let m = merged(acc, bs[n - 1]);
            assert(m.title == acc.title);
            assert(m.authors == acc.authors);
        }
    }
}

proof fn lemma_targets_distinct(bs: Seq<BookV>, n: int)
    requires
        0 <= n <= bs.len(),
    ensures
        forall|a: int|
            #![trigger similar_merged(bs, n)[a]]
            0 <= a < similar_merged(bs, n).len() && merge_key(similar_merged(bs, n)[a]) is Some
                ==> exists|i: int|
                0 <= i < n && merge_target(bs, i) && #[trigger] merge_key(bs[i]) == merge_key(
                    similar_merged(bs, n)[a],
                ),
        forall|a: int, b: int|
            0 <= a < b < similar_merged(bs, n).len() && merge_key(
                #[trigger] similar_merged(bs, n)[a],
            ) is Some ==> merge_key(similar_merged(bs, n)[a]) != merge_key(
                #[trigger] similar_merged(bs, n)[b],
            ),
    decreases n,
{
    if n > 0 {
        lemma_targets_distinct(bs, n - 1);
        let prev = similar_merged(bs, n - 1);
        if merge_target(bs, n - 1) {
            let r = similar_merged(bs, n);
            let last = merged_into(bs, n - 1, bs.len() as int);
            lemma_merged_into_key(bs, n - 1, bs.len() as int);
            assert(r == prev.push(last));
            assert forall|a: int|
                #![trigger r[a]]
                0 <= a < r.len() && merge_key(r[a]) is Some implies exists|i: int|
                0 <= i < n && merge_target(bs, i) && #[trigger] merge_key(bs[i]) == merge_key(r[a]) by {
                if a < prev.len() {
                    assert(r[a] == prev[a]);
                    let i = choose|i: int|
                        0 <= i < n - 1 && merge_target(bs, i) && #[trigger] merge_key(bs[i]) == merge_key(prev[a]);
                    assert(merge_key(bs[i]) == merge_key(r[a]));
                } else {
                    assert(merge_key(bs[n - 1]) == merge_key(r[a]));
                }
            }
            assert forall|a: int, b: int|
                0 <= a < b < r.len() && merge_key(#[trigger] r[a]) is Some implies merge_key(r[a])
                != merge_key(#[trigger] r[b]) by {
                if b < prev.len() {
                    assert(r[a] == prev[a] && r[b] == prev[b]);
                } else {
                    assert(r[a] == prev[a]);
                    let i = choose|i: int|
                        0 <= i < n - 1 && merge_target(bs, i) && #[trigger] merge_key(bs[i]) == merge_key(prev[a]);
                    if merge_key(r[a]) == merge_key(r[b]) {
                        let k = merge_key(bs[i])->Some_0;
                        assert(merge_key(bs[n - 1]) == Some(k));
                        assert(first_from(bs, k, 0) == i);
                        assert(first_from(bs, k, 0) == n - 1);
                    }
                }
            }
        } else {
            assert(similar_merged(bs, n) == prev);
        }
    }
}

/// Whether book `j` was merged into book `i`: `i` is kept and comes first, `j` is dropped,
/// and both have the same title and authors.
pub open spec fn merge_pair(bs: Seq<BookV>, i: int, j: int) -> bool {
    &&& 0 <= i < j < bs.len()
    &&& merge_target(bs, i)
    &&& !merge_target(bs, j)
    &&& merge_key(bs[i]) is Some
    &&& merge_key(bs[i]) == merge_key(bs[j])
}

/// The merges made among the first `n` books, as (index merged into, index merged from).
pub open spec fn similar_merge_indices(bs: Seq<BookV>, n: int) -> Seq<(int, int)>
    decreases n,
{
    if n <= 0 {
        Seq::empty()
    } else {
        let acc = similar_merge_indices(bs, n - 1);
        if merge_target(bs, n - 1) {
            acc
        } else {
            acc.push((first_from(bs, merge_key(bs[n - 1])->Some_0, 0), n - 1))
        }
    }
}

proof fn lemma_dropped_has_target(bs: Seq<BookV>, j: int)
    requires
        0 <= j < bs.len(),
        !merge_target(bs, j),
    ensures
        merge_pair(bs, first_from(bs, merge_key(bs[j])->Some_0, 0), j),
{
    let k = merge_key(bs[j])->Some_0;
    lemma_first_from_bounds(bs, k, 0, j);
    let f = first_from(bs, k, 0);
    assert(merge_key(bs[f]) == Some(k));
    assert(merge_target(bs, f));
}

#[verifier::spinoff_prover]
proof fn lemma_merges_upto(bs: Seq<BookV>, n: int)
    requires
        0 <= n <= bs.len(),
    ensures
        similar_merges(bs, n).len() == similar_merge_indices(bs, n).len(),
        forall|k: int|
            0 <= k < similar_merge_indices(bs, n).len() ==> {
                let p = #[trigger] similar_merge_indices(bs, n)[k];
                &&& p.1 < n
                &&& merge_pair(bs, p.0, p.1)
                &&& similar_merges(bs, n)[k] == (bs[p.0].id, bs[p.1].id)
            },
        forall|j: int|
            0 <= j < n && !merge_target(bs, j) ==> exists|k: int|
                0 <= k < similar_merge_indices(bs, n).len() && (#[trigger] similar_merge_indices(
                    bs,
                    n,
                )[k]).1 == j,
    decreases n,
{
    if n > 0 {
        lemma_merges_upto(bs, n - 1);
        let pm = similar_merges(bs, n - 1);
        let pi = similar_merge_indices(bs, n - 1);
        let m = similar_merges(bs, n);
        let ix = similar_merge_indices(bs, n);
        let last = n - 1;
        if merge_target(bs, last) {
            assert(m == pm);
            assert(ix == pi);
        } else {
            lemma_dropped_has_target(bs, last);
            let f = first_from(bs, merge_key(bs[last])->Some_0, 0);
            assert(ix == pi.push((f, last)));
            assert(m == pm.push((bs[f].id, bs[last].id)));
            assert forall|k: int| 0 <= k < ix.len() implies {
                let p = #[trigger] ix[k];
                &&& p.1 < n
                &&& merge_pair(bs, p.0, p.1)
                &&& m[k] == (bs[p.0].id, bs[p.1].id)
            } by {
                if k < pi.len() {
                    assert(ix[k] == pi[k]);
                    assert(m[k] == pm[k]);
                }
            }
            assert forall|j: int| 0 <= j < n && !merge_target(bs, j) implies exists|k: int|
                0 <= k < ix.len() && (#[trigger] ix[k]).1 == j by {
                if j < last {
                    let k = choose|k: int| 0 <= k < pi.len() && (#[trigger] pi[k]).1 == j;
                    assert(ix[k] == pi[k]);
                } else {
                    assert(ix[pi.len() as int].1 == j);
                }
            }
        }
    }
}

/// The book kept from index `i`, with the later books of its key merged into it.
#[verifier::opaque]
pub open spec fn kept_book(bs: Seq<BookV>, i: int) -> BookV {
    merged_into(bs, i, bs.len() as int)
}

#[verifier::spinoff_prover]
proof fn lemma_merged_upto(bs: Seq<BookV>, n: int)
    requires
        0 <= n <= bs.len(),
    ensures
        forall|i: int|
            0 <= i < n && merge_target(bs, i) ==> exists|a: int|
                0 <= a < similar_merged(bs, n).len() && #[trigger] similar_merged(bs, n)[a]
                    == kept_book(bs, i),
        forall|a: int|
            0 <= a < similar_merged(bs, n).len() ==> exists|i: int|
                0 <= i < n && merge_target(bs, i) && #[trigger] similar_merged(bs, n)[a]
                    == kept_book(bs, i),
    decreases n,
{
    if n > 0 {
        lemma_merged_upto(bs, n - 1);
        let pr = similar_merged(bs, n - 1);
        let r = similar_merged(bs, n);
        let last = n - 1;
        if merge_target(bs, last) {
            assert(r == pr.push(kept_book(bs, last))) by {
                reveal(kept_book);
            }
            assert forall|i: int| 0 <= i < n && merge_target(bs, i) implies exists|a: int|
                0 <= a < r.len() && #[trigger] r[a] == kept_book(bs, i) by {
                if i < last {
                    let a = choose|a: int| 0 <= a < pr.len() && #[trigger] pr[a] == kept_book(bs, i);
                    assert(r[a] == pr[a]);
                } else {
                    assert(r[pr.len() as int] == kept_book(bs, i));
                }
            }
            assert forall|a: int| 0 <= a < r.len() implies exists|i: int|
                0 <= i < n && merge_target(bs, i) && #[trigger] r[a] == kept_book(bs, i) by {
                if a < pr.len() {
                    assert(r[a] == pr[a]);
                    let i = choose|i: int|
                        0 <= i < n - 1 && merge_target(bs, i) && #[trigger] pr[a] == kept_book(bs, i);
                    assert(r[a] == kept_book(bs, i));
                } else {
                    assert(r[a] == kept_book(bs, last));
                }
            }
        } else {
            assert(r == pr);
        }
    }
}

/// Merging books with the same title and authors (`:m -a`): each merge made is
/// (the id of a kept book, the id of a later dropped book with the same title and authors),
/// and every dropped book is merged so; the books left are exactly the kept ones, in order,
/// each keeping its id, with the later books of its title and authors merged into it one
/// after the other.
pub proof fn lemma_merge_similar_law(bs: Seq<BookV>)
    ensures
        similar_merges(bs, bs.len() as int).len() == similar_merge_indices(bs, bs.len() as int).len(),
        forall|k: int|
            0 <= k < similar_merge_indices(bs, bs.len() as int).len() ==> {
                let p = #[trigger] similar_merge_indices(bs, bs.len() as int)[k];
                &&& merge_pair(bs, p.0, p.1)
                &&& similar_merges(bs, bs.len() as int)[k] == (bs[p.0].id, bs[p.1].id)
            },
        forall|j: int|
            0 <= j < bs.len() && !merge_target(bs, j) ==> exists|k: int|
                0 <= k < similar_merge_indices(bs, bs.len() as int).len() && (
                #[trigger] similar_merge_indices(bs, bs.len() as int)[k]).1 == j,
        forall|i: int|
            0 <= i < bs.len() && merge_target(bs, i) ==> exists|a: int|
                0 <= a < similar_merged(bs, bs.len() as int).len() && #[trigger] similar_merged(
                    bs,
                    bs.len() as int,
                )[a] == kept_book(bs, i),
        forall|a: int|
            0 <= a < similar_merged(bs, bs.len() as int).len() ==> exists|i: int|
                0 <= i < bs.len() && merge_target(bs, i) && #[trigger] similar_merged(
                    bs,
                    bs.len() as int,
                )[a] == kept_book(bs, i),
        forall|i: int| 0 <= i < bs.len() ==> #[trigger] kept_book(bs, i) == merged_into(bs, i, bs.len() as int),
        forall|i: int, n: int|
            0 <= i < bs.len() ==> (#[trigger] merged_into(bs, i, n)).id == bs[i].id,
        forall|i: int, j: int|
            0 <= i < j < bs.len() && merge_key(bs[j]) is Some && merge_key(bs[j]) == merge_key(
                bs[i],
            ) ==> #[trigger] merged_into(bs, i, j + 1) == merged(
                merged_into(bs, i, j),
                #[trigger] bs[j],
            ),
{
    reveal(kept_book);
    let n = bs.len() as int;
    lemma_merges_upto(bs, n);
    lemma_merged_upto(bs, n);
    assert forall|i: int, m: int| 0 <= i < bs.len() implies (#[trigger] merged_into(
        bs,
        i,
        m,
    )).id == bs[i].id by {
        lemma_merged_into_id(bs, i, m);
    }
}

pub(crate) proof fn lemma_merged_into_id(bs: Seq<BookV>, i: int, n: int)
    requires
        0 <= i < bs.len(),
    ensures
        merged_into(bs, i, n).id == bs[i].id,
    decreases n - i,
{
    if n > i + 1 {
        lemma_merged_into_id(bs, i, n - 1);
    }
}

/// After merging, no two books left have the same title and authors (without regard to
/// ASCII case): each title and authors pair is held by one book.
pub proof fn lemma_merge_similar_leaves_no_match(bs: Seq<BookV>)
    ensures
        forall|a: int, b: int|
            0 <= a < b < similar_merged(bs, bs.len() as int).len() && merge_key(
                #[trigger] similar_merged(bs, bs.len() as int)[a],
            ) is Some ==> merge_key(similar_merged(bs, bs.len() as int)[a]) != merge_key(
                #[trigger] similar_merged(bs, bs.len() as int)[b],
            ),
{
    lemma_targets_distinct(bs, bs.len() as int);
}

proof fn lemma_books_upto_ids(
    books: Seq<BookRow>,
    variants: Seq<VariantRow>,
    named: Seq<(i64, String, String)>,
    free: Seq<(i64, String)>,
    multimap: Seq<(i64, String, String)>,
    n: int,
)
    requires
        0 <= n <= books.len(),
    ensures
        forall|a: int|
            #![trigger books_upto(books, variants, named, free, multimap, n)[a]]
            0 <= a < books_upto(books, variants, named, free, multimap, n).len() ==> exists|i: int|
                0 <= i < n && book_kept(books, i) && #[trigger] books[i].id == books_upto(
                    books,
                    variants,
                    named,
                    free,
                    multimap,
                    n,
                )[a].id,
        forall|a: int, b: int|
            0 <= a < b < books_upto(books, variants, named, free, multimap, n).len() ==> (
            #[trigger] books_upto(books, variants, named, free, multimap, n)[a]).id != (
            #[trigger] books_upto(books, variants, named, free, multimap, n)[b]).id,
    decreases n,
{
    if n > 0 {
        lemma_books_upto_ids(books, variants, named, free, multimap, n - 1);
        let prev = books_upto(books, variants, named, free, multimap, n - 1);
        let r = books_upto(books, variants, named, free, multimap, n);
        if book_kept(books, n - 1) {
            assert(r == prev.push(book_of(books[n - 1], variants, named, free, multimap)));
            assert forall|a: int|
                #![trigger r[a]]
                0 <= a < r.len() implies exists|i: int|
                0 <= i < n && book_kept(books, i) && #[trigger] books[i].id == r[a].id by {
                if a < prev.len() {
                    assert(r[a] == prev[a]);
                    let i = choose|i: int|
                        0 <= i < n - 1 && book_kept(books, i) && #[trigger] books[i].id == prev[a].id;
                    assert(books[i].id == r[a].id);
                } else {
                    assert(books[n - 1].id == r[a].id);
                }
            }
            assert forall|a: int, b: int|
                0 <= a < b < r.len() implies (#[trigger] r[a]).id != (#[trigger] r[b]).id by {
                if b < prev.len() {
                    assert(r[a] == prev[a] && r[b] == prev[b]);
                } else {
                    assert(r[a] == prev[a]);
                    let i = choose|i: int|
                        0 <= i < n - 1 && book_kept(books, i) && #[trigger] books[i].id == prev[a].id;
                    assert(books[n - 1].id != books[i].id);
                }
            }
        } else {
            assert(r == prev);
        }
    }
}

/// The books built from the rows have ids other than 0, and no two have the same id.
pub proof fn lemma_books_from_rows_ids(
    books: Seq<BookRow>,
    variants: Seq<VariantRow>,
    named: Seq<(i64, String, String)>,
    free: Seq<(i64, String)>,
    multimap: Seq<(i64, String, String)>,
)
    ensures
        forall|a: int|
            0 <= a < books_from_rows_spec(books, variants, named, free, multimap).0.len() ==> (
            #[trigger] books_from_rows_spec(books, variants, named, free, multimap).0[a]).id != 0,
        forall|a: int, b: int|
            0 <= a < b < books_from_rows_spec(books, variants, named, free, multimap).0.len() ==> (
            #[trigger] books_from_rows_spec(books, variants, named, free, multimap).0[a]).id != (
            #[trigger] books_from_rows_spec(books, variants, named, free, multimap).0[b]).id,
{
    let n = books.len() as int;
    lemma_books_upto_ids(books, variants, named, free, multimap, n);
    let r = books_upto(books, variants, named, free, multimap, n);
    assert forall|a: int| 0 <= a < r.len() implies (#[trigger] r[a]).id != 0 by {
        let i = choose|i: int| 0 <= i < n && book_kept(books, i) && #[trigger] books[i].id == r[a].id;
    }
}

// ---------------------------------------------------------------------------
// Reading columns and finding books
// ---------------------------------------------------------------------------

/// The character of a decimal digit.
pub open spec fn digit_char(d: int) -> char {
    ((d + 48) as u8) as char
}

/// `n` written in decimal.
pub open spec fn decimal_text(n: nat) -> Seq<char>
    decreases n,
{
    if n < 10 {
        seq![digit_char(n as int)]
    } else {
        decimal_text(n / 10).push(digit_char((n % 10) as int))
    }
}

pub(crate) fn push_decimal(out: &mut Vec<char>, n: u64)
    ensures
        final(out)@ == old(out)@ + decimal_text(n as nat),
    decreases n,
{
    if n >= 10 {
        push_decimal(out, n / 10);
    }
    let d: u8 = (n % 10) as u8;
    let c = (d + 48) as char;
    out.push(c);
}

/// The value of the last named tag called `name`.
pub open spec fn last_named(tags: Seq<(Seq<char>, Seq<char>)>, name: Seq<char>) -> Option<Seq<char>>
    decreases tags.len(),
{
    if tags.len() == 0 {
        None
    } else if tags.last().0 == name {
        Some(tags.last().1)
    } else {
        last_named(tags.drop_last(), name)
    }
}

/// The text a book shows in a column: its title; its authors joined by ", "; its series,
/// with the index in brackets where it has one; its id in decimal; its description; or the
/// value of a named tag. The variants and the tags (which matchers read as a list) have no
/// single text.
pub open spec fn column_value(b: BookV, c: ColumnV) -> Option<Seq<char>> {
    match c {
        ColumnV::Title => b.title,
        ColumnV::Author => if b.authors.len() > 0 {
            Some(join_authors(b.authors))
        } else {
            None
        },
        ColumnV::Series => match b.series {
            Some((n, Some(i))) => Some(n + seq![' ', '['] + i + seq![']']),
            Some((n, None)) => Some(n),
            None => None,
        },
        ColumnV::ID => Some(decimal_text((b.id as u64) as nat)),
        ColumnV::Description => b.description,
        ColumnV::ExtendedTag(x) => last_named(b.named_tags, x),
        _ => None,
    }
}

pub(crate) fn push_all(out: &mut Vec<char>, s: &str)
    ensures
        final(out)@ == old(out)@ + s@,
{
    let c = chars_of(s);
    let ghost base = out@;
    let mut m: usize = 0;
    while m < c.len()
        invariant
            m <= c@.len(),
            c@ == s@,
            out@ =~= base + c@.take(m as int),
        decreases c.len() - m,
    {
        out.push(c[m]);
        m = m + 1;
    }
    assert(c@.take(c@.len() as int) =~= c@);
}

fn joined_authors(a: &Vec<String>) -> (r: Vec<char>)
    ensures
        r@ == join_authors(texts(a@)),
{
    let ghost au = texts(a@);
    let mut joined: Vec<char> = Vec::new();
    let mut k: usize = 0;
    while k < a.len()
        invariant
            k <= a@.len(),
            au == texts(a@),
            joined@ == join_authors(au.take(k as int)),
        decreases a.len() - k,
    {
        if k > 0 {
            joined.push(',');
            joined.push(' ');
        }
        push_all(&mut joined, a[k].as_str());
        proof {
            let p = au.take(k + 1);
            assert(p.drop_last() =~= au.take(k as int));
            if k == 0 {
                assert(joined@ =~= p[0]);
            } else {
                assert(joined@ =~= join_authors(p.drop_last()) + seq![',', ' '] + p.last());
            }
        }
        k = k + 1;
    }
    assert(au.take(a@.len() as int) =~= au);
    joined
}

impl Book {
    /// The text the book shows in `column` (see `column_value`).
    pub fn get_column(&self, column: &ColumnIdentifier) -> (r: Option<String>)
        ensures
            opt_text(r) == column_value(self@, column@),
    {
        match column {
            ColumnIdentifier::Title => copy_opt(&self.title),
            ColumnIdentifier::Author => if self.authors.len() > 0 {
                let j = joined_authors(&self.authors);
                Some(string_from_chars(j.as_slice()))
            } else {
                None
            },
            ColumnIdentifier::Series => match &self.series {
                Some((n, Some(i))) => {
                    let mut v: Vec<char> = Vec::new();
                    push_all(&mut v, n.as_str());
                    v.push(' ');
                    v.push('[');
                    push_all(&mut v, i.as_str());
                    v.push(']');
                    assert(v@ =~= n@ + seq![' ', '['] + i@ + seq![']']);
                    Some(string_from_chars(v.as_slice()))
                },
                Some((n, None)) => Some(copy_string(n)),
                None => None,
            },
            ColumnIdentifier::ID => {
                let mut v: Vec<char> = Vec::new();
                push_decimal(&mut v, self.id as u64);
                assert(v@ =~= decimal_text((self.id as u64) as nat));
                Some(string_from_chars(v.as_slice()))
            },
            ColumnIdentifier::Description => copy_opt(&self.description),
            ColumnIdentifier::ExtendedTag(x) => {
                let want = chars_of(x.as_str());
                let ghost tags = pairs_view(self.named_tags@);
                let mut k: usize = self.named_tags.len();
                assert(tags.take(k as int) =~= tags);
                while k > 0
                    invariant
                        k <= self.named_tags@.len(),
                        tags == pairs_view(self.named_tags@),
                        want@ == x@,
                        column@ == ColumnV::ExtendedTag(x@),
                        last_named(tags, x@) == last_named(tags.take(k as int), x@),
                    decreases k,
                {
                    let name = chars_of(self.named_tags[k - 1].0.as_str());
                    let ghost p = tags.take(k as int);
                    assert(p.last() == tags[k - 1]);
                    assert(p.drop_last() =~= tags.take(k - 1));
                    if eq_chars(name.as_slice(), want.as_slice()) {
                        assert(tags[k - 1] == (self.named_tags@[k - 1].0@, self.named_tags@[k - 1].1@));
                        assert(p.last().0 == x@);
                        assert(last_named(p, x@) == Some(p.last().1));
                        assert(self@.named_tags == tags);
                        let r = copy_string(&self.named_tags[k - 1].1);
                        assert(r@ == p.last().1);
                        return Some(r);
                    }
                    k = k - 1;
                }
                assert(tags.take(0) =~= Seq::<(Seq<char>, Seq<char>)>::empty());
                assert(tags.take(tags.len() as int) =~= tags);
                None
            },
            _ => None,
        }
    }
}

/// Whether a book matches every matcher, each reading the book's column.
pub open spec fn matches_all(b: Book, ms: Seq<AnyMatcher>) -> bool {
    forall|m: int|
        0 <= m < ms.len() ==> #[trigger] matcher_matches(
            ms[m],
            column_value(b@, matcher_column(ms[m])),
            b.free_tags@,
        )
}

/// The indices of the first `n` books that match every matcher, in order.
pub open spec fn matching_upto(bs: Seq<Book>, ms: Seq<AnyMatcher>, n: int) -> Seq<usize>
    decreases n,
{
    if n <= 0 {
        Seq::empty()
    } else {
        let acc = matching_upto(bs, ms, n - 1);
        if matches_all(bs[n - 1], ms) {
            acc.push((n - 1) as usize)
        } else {
            acc
        }
    }
}

fn book_matches(b: &Book, ms: &Vec<AnyMatcher>) -> (r: bool)
    ensures
        r == matches_all(*b, ms@),
{
    let mut m: usize = 0;
    while m < ms.len()
        invariant
            m <= ms@.len(),
            forall|j: int|
                0 <= j < m ==> #[trigger] matcher_matches(
                    ms@[j],
                    column_value(b@, matcher_column(ms@[j])),
                    b.free_tags@,
                ),
        decreases ms.len() - m,
    {
        let v = b.get_column(ms[m].column());
        let ok = match &v {
            Some(s) => {
                let t = s.as_str();
                assert(value_text(Some(t)) == opt_text(v));
                ms[m].is_match(Some(t), &b.free_tags)
            },
            None => {
                assert(value_text(None) == opt_text(v));
                ms[m].is_match(None, &b.free_tags)
            },
        };
        if !ok {
            return false;
        }
        m = m + 1;
    }
    true
}

/// The indices of the books that match every matcher (each reading the book's column), in
/// order.
pub fn find_matches(books: &Vec<Book>, matchers: &Vec<AnyMatcher>) -> (r: Vec<usize>)
    ensures
        r@ == matching_upto(books@, matchers@, books@.len() as int),
{
    let mut out: Vec<usize> = Vec::new();
    let mut i: usize = 0;
    while i < books.len()
        invariant
            i <= books@.len(),
            out@ == matching_upto(books@, matchers@, i as int),
        decreases books.len() - i,
    {
        if book_matches(&books[i], matchers) {
            out.push(i);
        }
        i = i + 1;
    }
    out
}

/// The index of the first book that matches every matcher, if any.
pub fn find_book_index(books: &Vec<Book>, matchers: &Vec<AnyMatcher>) -> (r: Option<usize>)
    ensures
        match r {
            Some(i) => i < books@.len() && matches_all(books@[i as int], matchers@) && forall|j: int|
                0 <= j < i ==> !matches_all(#[trigger] books@[j], matchers@),
            None => forall|j: int| 0 <= j < books@.len() ==> !matches_all(#[trigger] books@[j], matchers@),
        },
{
    let mut i: usize = 0;
    while i < books.len()
        invariant
            i <= books@.len(),
            forall|j: int| 0 <= j < i ==> !matches_all(#[trigger] books@[j], matchers@),
        decreases books.len() - i,
    {
        if book_matches(&books[i], matchers) {
            return Some(i);
        }
        i = i + 1;
    }
    None
}

// ---------------------------------------------------------------------------
// Setting a column
// ---------------------------------------------------------------------------

/// The characters with the Unicode `White_Space` property (`char::is_whitespace`).
pub open spec fn is_space(c: char) -> bool {
    c == '\t' || c == '\n' || c == '\u{0B}' || c == '\u{0C}' || c == '\r' || c == ' ' || c
        == '\u{85}' || c == '\u{A0}' || c == '\u{1680}' || ('\u{2000}' <= c && c <= '\u{200A}')
        || c == '\u{2028}' || c == '\u{2029}' || c == '\u{202F}' || c == '\u{205F}' || c
        == '\u{3000}'
}

fn char_is_space(c: char) -> (r: bool)
    ensures
        r == is_space(c),
{
    c == '\t' || c == '\n' || c == '\u{0B}' || c == '\u{0C}' || c == '\r' || c == ' ' || c
        == '\u{85}' || c == '\u{A0}' || c == '\u{1680}' || ('\u{2000}' <= c && c <= '\u{200A}')
        || c == '\u{2028}' || c == '\u{2029}' || c == '\u{202F}' || c == '\u{205F}' || c
        == '\u{3000}'
}

/// The position of the last space among the first `n` characters, or -1.
pub open spec fn last_space(v: Seq<char>, n: int) -> int
    decreases n,
{
    if n <= 0 {
        -1
    } else if is_space(v[n - 1]) {
        n - 1
    } else {
        last_space(v, n - 1)
    }
}

/// `s` without its '[' and ']' characters.
pub open spec fn strip_brackets(s: Seq<char>) -> Seq<char>
    decreases s.len(),
{
    if s.len() == 0 {
        Seq::empty()
    } else if s.last() == '[' || s.last() == ']' {
        strip_brackets(s.drop_last())
    } else {
        strip_brackets(s.drop_last()).push(s.last())
    }
}

/// Where a series text ends with ']' and has a space: the series name before the last
/// space, and the index after it without its brackets.
pub open spec fn series_parts(v: Seq<char>) -> Option<(Seq<char>, Seq<char>)> {
    let k = last_space(v, v.len() as int);
    if v.len() > 0 && v.last() == ']' && k >= 0 {
        Some((v.take(k), strip_brackets(v.skip(k + 1))))
    } else {
        None
    }
}

/// Where a series text ends with ']' and its last word (after the last space) starts with
/// '[': the name before that space, and the index inside the brackets.
pub open spec fn bracketed_parts(v: Seq<char>) -> Option<(Seq<char>, Seq<char>)> {
    let k = last_space(v, v.len() as int);
    if v.len() > 0 && v.last() == ']' && k >= 0 && k + 1 < v.len() && v[k + 1] == '[' && k + 2
        <= v.len() - 1 {
        Some((v.take(k), v.subrange(k + 2, v.len() - 1)))
    } else {
        None
    }
}

proof fn lemma_last_space_bounds(v: Seq<char>, n: int)
    requires
        0 <= n <= v.len(),
    ensures
        -1 <= last_space(v, n) < n,
        last_space(v, n) >= 0 ==> is_space(v[last_space(v, n)]),
    decreases n,
{
    if n > 0 && !is_space(v[n - 1]) {
        lemma_last_space_bounds(v, n - 1);
    }
}

/// The name and the bracketed index text of a series text written `name [index]` (see
/// `bracketed_parts`); whether the index is a number is left to the caller.
pub fn series_name_and_index(value: &str) -> (r: Option<(String, String)>)
    ensures
        match r {
            Some((n, i)) => bracketed_parts(value@) == Some((n@, i@)),
            None => bracketed_parts(value@) is None,
        },
{
    let v = chars_of(value);
    let n = v.len();
    if n == 0 || v[n - 1] != ']' {
        return None;
    }
    let mut k: usize = n;
    while k > 0 && !char_is_space(v[k - 1])
        invariant
            k <= n == v@.len(),
            v@ == value@,
            last_space(v@, n as int) == last_space(v@, k as int),
        decreases k,
    {
        k = k - 1;
    }
    proof {
        lemma_last_space_bounds(v@, n as int);
    }
    if k == 0 {
        return None;
    }
    let sp = k - 1;
    assert(last_space(v@, n as int) == sp);
    if sp + 1 >= n || v[sp + 1] != '[' || sp + 2 > n - 1 {
        return None;
    }
    let name = string_from_chars(&v.as_slice()[0..sp]);
    let idx = string_from_chars(&v.as_slice()[sp + 2..n - 1]);
    proof {
        assert(v@.subrange(0, sp as int) =~= v@.take(sp as int));
    }
    Some((name, idx))
}

/// The book with column `c` set to `v`, where the column can be set; `parses` says whether a
/// series index text is a number. A title, description or named tag is stored as given,
/// an author as the only author, and a free tag added. A series text ending with ']' is
/// read as "name [index]" and stored where the index is a number (nothing changes
/// otherwise); any other series text is a series name without index. The id and the
/// variants cannot be set.
pub open spec fn set_column_spec(b: BookV, c: ColumnV, v: Seq<char>, parses: bool) -> Option<BookV> {
    match c {
        ColumnV::Title => Some(BookV { title: Some(v), ..b }),
        ColumnV::Description => Some(BookV { description: Some(v), ..b }),
        ColumnV::Author => Some(BookV { authors: seq![v], ..b }),
        ColumnV::ID => None,
        ColumnV::Variants => None,
        ColumnV::Series => if v.len() > 0 && v.last() == ']' {
            match series_parts(v) {
                Some((n, i)) => if parses {
                    Some(BookV { series: Some((n, Some(i))), ..b })
                } else {
                    Some(b)
                },
                None => Some(b),
            }
        } else {
            Some(BookV { series: Some((v, None)), ..b })
        },
        ColumnV::ExtendedTag(t) => Some(BookV { named_tags: b.named_tags.push((t, v)), ..b }),
        ColumnV::ExactTag(t) => Some(BookV { named_tags: b.named_tags.push((t, v)), ..b }),
        ColumnV::Tags => Some(BookV { free_tags: b.free_tags.push(v), ..b }),
    }
}

/// The series name and index text of a series text ending with ']' (see `series_parts`).
pub fn series_index_parts(value: &str) -> (r: Option<(String, String)>)
    ensures
        match r {
            Some((n, i)) => series_parts(value@) == Some((n@, i@)),
            None => series_parts(value@) is None,
        },
{
    let v = chars_of(value);
    let n = v.len();
    if n == 0 || v[n - 1] != ']' {
        return None;
    }
    let mut k: usize = n;
    while k > 0 && !char_is_space(v[k - 1])
        invariant
            k <= n == v@.len(),
            v@ == value@,
            last_space(v@, n as int) == last_space(v@, k as int),
        decreases k,
    {
        k = k - 1;
    }
    if k == 0 {
        return None;
    }
    let sp = k - 1;
    let mut idx: Vec<char> = Vec::new();
    let mut j: usize = sp + 1;
    let ghost tail = v@.skip(sp + 1);
    while j < n
        invariant
            sp + 1 <= j <= n == v@.len(),
            tail == v@.skip(sp + 1),
            idx@ == strip_brackets(tail.take(j - sp - 1)),
        decreases n - j,
    {
        let c = v[j];
        proof {
            let t = tail.take(j - sp - 1 + 1);
            assert(t.drop_last() =~= tail.take(j - sp - 1));
            assert(t.last() == c);
        }
        if c != '[' && c != ']' {
            idx.push(c);
        }
        j = j + 1;
    }
    assert(tail.take(n - sp - 1) =~= tail);
    let name = string_from_chars(&v.as_slice()[0..sp]);
    proof {
        assert(v@.subrange(0, sp as int) =~= v@.take(sp as int));
    }
    Some((name, string_from_chars(idx.as_slice())))
}

/// Whether setting a column went as `set_column_spec` says, from `before` to `after`.
pub open spec fn set_column_done(
    before: BookV,
    after: BookV,
    r: Result<(), BookError>,
    c: ColumnV,
    v: Seq<char>,
    parses: bool,
) -> bool {
    match set_column_spec(before, c, v, parses) {
        Some(b) => r is Ok && after == b,
        None => r == Err::<(), BookError>(BookError::ImmutableColumnError) && after == before,
    }
}

/// Whether setting column `c` to `v` asks if a series index text is a number.
pub open spec fn asks_index(c: ColumnV, v: Seq<char>) -> bool {
    c == ColumnV::Series && series_parts(v) is Some
}

pub(crate) fn str_to_string(s: &str) -> (r: String)
    ensures
        r@ == s@,
{
    let c = chars_of(s);
    string_from_chars(c.as_slice())
}

impl Book {
    /// Sets `column` to `value` (see `set_column_spec`); `is_number` tells whether a series
    /// index text is a number, and is asked only for a series text that has an index. Fails
    /// for the id and the variants, which cannot be set.
    pub fn set_column<F: Fn(&str) -> bool>(&mut self, column: &ColumnIdentifier, value: &str, is_number: F) -> (r:
        Result<(), BookError>)
        requires
            forall|s: &str| is_number.requires((s,)),
        ensures
            asks_index(column@, value@) ==> exists|s: &str, parses: bool|
                s@ == series_parts(value@)->Some_0.1 && is_number.ensures((s,), parses)
                    && set_column_done(old(self)@, final(self)@, r, column@, value@, parses),
            !asks_index(column@, value@) ==> set_column_done(
                old(self)@,
                final(self)@,
                r,
                column@,
                value@,
                false,
            ),
    {
        let ghost b0 = self@;
        match column {
            ColumnIdentifier::Title => {
                self.title = Some(str_to_string(value));
                Ok(())
            },
            ColumnIdentifier::Description => {
                self.description = Some(str_to_string(value));
                Ok(())
            },
            ColumnIdentifier::Author => {
                let mut a: Vec<String> = Vec::new();
                a.push(str_to_string(value));
                self.authors = a;
                assert(texts(self.authors@) =~= seq![value@]);
                Ok(())
            },
            ColumnIdentifier::ID => Err(BookError::ImmutableColumnError),
            ColumnIdentifier::Variants => Err(BookError::ImmutableColumnError),
            ColumnIdentifier::Series => {
                let v = chars_of(value);
                if v.len() > 0 && v[v.len() - 1] == ']' {
                    match series_index_parts(value) {
                        Some((name, idx)) => {
                            let ok = is_number(idx.as_str());
                            if ok {
                                self.series = Some((name, Some(idx)));
                            }
                            assert(set_column_done(b0, self@, Ok(()), column@, value@, ok));
                            Ok(())
                        },
                        None => Ok(()),
                    }
                } else {
                    self.series = Some((str_to_string(value), None));
                    Ok(())
                }
            },
            ColumnIdentifier::ExtendedTag(t) => {
                let ghost before = self.named_tags@;
                self.named_tags.push((copy_string(t), str_to_string(value)));
                assert(pairs_view(self.named_tags@) =~= pairs_view(before).push((t@, value@)));
                Ok(())
            },
            ColumnIdentifier::ExactTag(t) => {
                let ghost before = self.named_tags@;
                self.named_tags.push((copy_string(t), str_to_string(value)));
                assert(pairs_view(self.named_tags@) =~= pairs_view(before).push((t@, value@)));
                Ok(())
            },
            ColumnIdentifier::Tags => {
                let ghost before = self.free_tags@;
                self.free_tags.push(str_to_string(value));
                assert(texts(self.free_tags@) =~= texts(before).push(value@));
                Ok(())
            },
        }
    }
}

// ---------------------------------------------------------------------------
// Comparing books by a column
// ---------------------------------------------------------------------------

/// A book id as the unsigned number the store uses.
pub open spec fn id_number(id: i64) -> u64 {
    id as u64
}

pub(crate) fn id_value(id: i64) -> (r: u64)
    ensures
        r == id_number(id),
{
    id as u64
}

/// The order of two values.
#[derive(Copy, Clone, Debug, PartialEq, Eq, Structural)]
pub enum Ord3 {
    Less,
    Equal,
    Greater,
}

/// Texts compared character by character, by code point (the order of `str::cmp`); a
/// text before any longer text it starts.
pub open spec fn text_order(a: Seq<char>, b: Seq<char>) -> Ord3
    decreases a.len(),
{
    if a.len() == 0 {
        if b.len() == 0 {
            Ord3::Equal
        } else {
            Ord3::Less
        }
    } else if b.len() == 0 {
        Ord3::Greater
    } else if a[0] < b[0] {
        Ord3::Less
    } else if a[0] > b[0] {
        Ord3::Greater
    } else {
        text_order(a.drop_first(), b.drop_first())
    }
}

/// Whether comparing two books by series needs their index texts compared: the series
/// names are equal and both have an index, with different texts.
pub open spec fn asks_series_index(a: BookV, b: BookV) -> bool {
    match (a.series, b.series) {
        (Some((an, Some(ai))), Some((bn, Some(bi)))) => an == bn && ai != bi,
        _ => false,
    }
}

/// Books compared by a column: by id as unsigned numbers; by series name, then by index
/// (where both have one, `index_order` is the order of the two index texts; a book with an
/// index comes after one without), a book without a series first; by any other column, by
/// the text shown in it (the empty text where it shows none).
pub open spec fn column_order(a: BookV, b: BookV, c: ColumnV, index_order: Ord3) -> Ord3 {
    match c {
        ColumnV::ID => if id_number(a.id) < id_number(b.id) {
            Ord3::Less
        } else if id_number(a.id) > id_number(b.id) {
            Ord3::Greater
        } else {
            Ord3::Equal
        },
        ColumnV::Series => match (a.series, b.series) {
            (None, None) => Ord3::Equal,
            (None, Some(_)) => Ord3::Less,
            (Some(_), None) => Ord3::Greater,
            (Some((an, ai)), Some((bn, bi))) => if an != bn {
                text_order(an, bn)
            } else {
                match (ai, bi) {
                    (None, None) => Ord3::Equal,
                    (None, Some(_)) => Ord3::Less,
                    (Some(_), None) => Ord3::Greater,
                    (Some(x), Some(y)) => if x == y {
                        Ord3::Equal
                    } else {
                        index_order
                    },
                }
            },
        },
        _ => text_order(
            match column_value(a, c) {
                Some(t) => t,
                None => Seq::empty(),
            },
            match column_value(b, c) {
                Some(t) => t,
                None => Seq::empty(),
            },
        ),
    }
}

fn chars_order(a: &Vec<char>, b: &Vec<char>) -> (r: Ord3)
    ensures
        r == text_order(a@, b@),
{
    let mut i: usize = 0;
    assert(a@.skip(0) =~= a@);
    assert(b@.skip(0) =~= b@);
    while i < a.len() && i < b.len() && a[i] == b[i]
        invariant
            i <= a@.len(),
            i <= b@.len(),
            text_order(a@, b@) == text_order(a@.skip(i as int), b@.skip(i as int)),
        decreases a.len() - i,
    {
        assert(a@.skip(i as int).drop_first() =~= a@.skip(i + 1));
        assert(b@.skip(i as int).drop_first() =~= b@.skip(i + 1));
        i = i + 1;
    }
    assert(a@.skip(i as int).len() == a@.len() - i);
    assert(b@.skip(i as int).len() == b@.len() - i);
    if i == a.len() {
        if i == b.len() {
            Ord3::Equal
        } else {
            Ord3::Less
        }
    } else if i == b.len() {
        Ord3::Greater
    } else {
        assert(a@.skip(i as int)[0] == a@[i as int]);
        assert(b@.skip(i as int)[0] == b@[i as int]);
        if a[i] < b[i] {
            Ord3::Less
        } else {
            Ord3::Greater
        }
    }
}

fn text_of_column(b: &Book, c: &ColumnIdentifier) -> (r: Vec<char>)
    ensures
        r@ == (match column_value(b@, c@) {
            Some(t) => t,
            None => Seq::empty(),
        }),
{
    match b.get_column(c) {
        Some(t) => chars_of(t.as_str()),
        None => Vec::new(),
    }
}

pub(crate) fn same_text(a: &String, b: &String) -> (r: bool)
    ensures
        r == (a@ == b@),
{
    let x = chars_of(a.as_str());
    let y = chars_of(b.as_str());
    eq_chars(x.as_slice(), y.as_slice())
}

/// Compares two books by `column` (see `column_order`); `index_order` gives the order
/// of two series index texts, and is asked only where both books have the same series
/// name and different index texts.
pub fn cmp_column<F: Fn(&str, &str) -> Ord3>(a: &Book, b: &Book, column: &ColumnIdentifier, index_order: F) -> (r:
    Ord3)
    requires
        forall|x: &str, y: &str| index_order.requires((x, y)),
    ensures
        asks_series_index(a@, b@) && column@ == ColumnV::Series ==> exists|x: &str, y: &str, o: Ord3|
            x@ == a@.series->Some_0.1->Some_0 && y@ == b@.series->Some_0.1->Some_0
                && index_order.ensures((x, y), o) && r == column_order(a@, b@, column@, o),
        !(asks_series_index(a@, b@) && column@ == ColumnV::Series) ==> r == column_order(
            a@,
            b@,
            column@,
            Ord3::Equal,
        ),
{
    match column {
        ColumnIdentifier::ID => {
            let x = id_value(a.id);
            let y = id_value(b.id);
            if x < y {
                Ord3::Less
            } else if x > y {
                Ord3::Greater
            } else {
                Ord3::Equal
            }
        },
        ColumnIdentifier::Series => match (&a.series, &b.series) {
            (None, None) => Ord3::Equal,
            (None, Some(_)) => Ord3::Less,
            (Some(_), None) => Ord3::Greater,
            (Some((an, ai)), Some((bn, bi))) => if !same_text(an, bn) {
                chars_order(&chars_of(an.as_str()), &chars_of(bn.as_str()))
            } else {
                match (ai, bi) {
                    (None, None) => Ord3::Equal,
                    (None, Some(_)) => Ord3::Less,
                    (Some(_), None) => Ord3::Greater,
                    (Some(x), Some(y)) => if same_text(x, y) {
                        Ord3::Equal
                    } else {
                        index_order(x.as_str(), y.as_str())
                    },
                }
            },
        },
        _ => {
            let x = text_of_column(a, column);
            let y = text_of_column(b, column);
            chars_order(&x, &y)
        },
    }
}

} // verus!

verus! {

// ---------------------------------------------------------------------------
// Laws of comparing books
// ---------------------------------------------------------------------------

/// The text a book shows in a column, the empty text where it shows none.
pub open spec fn shown_text(b: BookV, c: ColumnV) -> Seq<char> {
    match column_value(b, c) {
        Some(t) => t,
        None => Seq::empty(),
    }
}

/// Text order is a total order: a text equals only itself, and swapping two texts swaps
/// before and after.
pub proof fn lemma_text_order(x: Seq<char>, y: Seq<char>)
    ensures
        (text_order(x, y) == Ord3::Equal) <==> (x == y),
        (text_order(x, y) == Ord3::Less) <==> (text_order(y, x) == Ord3::Greater),
    decreases x.len(),
{
    if x.len() > 0 && y.len() > 0 && x[0] == y[0] {
        lemma_text_order(x.drop_first(), y.drop_first());
        if x.drop_first() == y.drop_first() {
            assert(x =~= seq![x[0]] + x.drop_first());
            assert(y =~= seq![y[0]] + y.drop_first());
        }
        if x == y {
            assert(x.drop_first() == y.drop_first());
        }
    } else if x.len() > 0 && y.len() > 0 {
        assert(x != y);
    } else if x.len() == 0 && y.len() == 0 {
        assert(x =~= y);
    } else {
        assert(x.len() != y.len());
    }
}

/// Comparing books by a column other than the id and the series orders them by the text
/// each shows in that column (`get_column`, the empty text where it shows none): by title
/// for the title, by the authors joined with ", " for the authors, by the tag's value for
/// a named tag. The order is total: a book compares equal to itself, and swapping the
/// books swaps before and after.
pub proof fn lemma_column_order_by_text(a: BookV, b: BookV, c: ColumnV, o: Ord3)
    requires
        c != ColumnV::ID,
        c != ColumnV::Series,
    ensures
        column_order(a, b, c, o) == text_order(shown_text(a, c), shown_text(b, c)),
        c == ColumnV::Title ==> column_order(a, b, c, o) == text_order(
            match a.title {
                Some(t) => t,
                None => Seq::empty(),
            },
            match b.title {
                Some(t) => t,
                None => Seq::empty(),
            },
        ),
        c == ColumnV::Author && a.authors.len() > 0 && b.authors.len() > 0 ==> column_order(a, b, c, o)
            == text_order(join_authors(a.authors), join_authors(b.authors)),
        (column_order(a, b, c, o) == Ord3::Less) <==> (column_order(b, a, c, o) == Ord3::Greater),
        column_order(a, a, c, o) == Ord3::Equal,
        (column_order(a, b, c, o) == Ord3::Equal) <==> (shown_text(a, c) == shown_text(b, c)),
{
    lemma_text_order(shown_text(a, c), shown_text(b, c));
    lemma_text_order(shown_text(a, c), shown_text(a, c));
}

/// Comparing books by id orders them by their ids as unsigned numbers; by series, books
/// with different series names are ordered by the names, and a book without a series
/// comes first.
pub proof fn lemma_column_order_id_series(a: BookV, b: BookV, o: Ord3)
    ensures
        (column_order(a, b, ColumnV::ID, o) == Ord3::Less) <==> (id_number(a.id) < id_number(b.id)),
        (column_order(a, b, ColumnV::ID, o) == Ord3::Equal) <==> (id_number(a.id) == id_number(b.id)),
        a.series is None && b.series is Some ==> column_order(a, b, ColumnV::Series, o) == Ord3::Less,
        a.series is Some && b.series is Some && a.series->Some_0.0 != b.series->Some_0.0
            ==> column_order(a, b, ColumnV::Series, o) == text_order(
            a.series->Some_0.0,
            b.series->Some_0.0,
        ),
{
}

} // verus!

verus! {

// ---------------------------------------------------------------------------
// Laws of merging a book
// ---------------------------------------------------------------------------

/// Merging `b` into `a` keeps every file and tag of both books: the merged book's variants
/// (and its named, free and multimap tags) are `a`'s followed by `b`'s, so their counts add
/// up; it keeps `a`'s id; and each of title, authors, series and description is `a`'s where
/// `a` has one, else `b`'s.
pub proof fn lemma_merge_keeps_both(a: BookV, b: BookV)
    ensures
        merged(a, b).id == a.id,
        merged(a, b).variants.len() == a.variants.len() + b.variants.len(),
        forall|i: int| 0 <= i < a.variants.len() ==> #[trigger] merged(a, b).variants[i] == a.variants[i],
        forall|j: int|
            0 <= j < b.variants.len() ==> merged(a, b).variants[a.variants.len() + j] == #[trigger] b.variants[j],
        merged(a, b).named_tags.len() == a.named_tags.len() + b.named_tags.len(),
        forall|j: int|
            0 <= j < b.named_tags.len() ==> merged(a, b).named_tags[a.named_tags.len() + j]
                == #[trigger] b.named_tags[j],
        merged(a, b).free_tags.len() == a.free_tags.len() + b.free_tags.len(),
        forall|j: int|
            0 <= j < b.free_tags.len() ==> merged(a, b).free_tags[a.free_tags.len() + j]
                == #[trigger] b.free_tags[j],
        merged(a, b).multimap_tags.len() == a.multimap_tags.len() + b.multimap_tags.len(),
        a.title is Some ==> merged(a, b).title == a.title,
        a.title is None ==> merged(a, b).title == b.title,
        a.authors.len() > 0 ==> merged(a, b).authors == a.authors,
        a.authors.len() == 0 ==> merged(a, b).authors == b.authors,
        a.series is Some ==> merged(a, b).series == a.series,
        a.series is None ==> merged(a, b).series == b.series,
        a.description is Some ==> merged(a, b).description == a.description,
        a.description is None ==> merged(a, b).description == b.description,
{
}

/// A book left by merging holds every variant of the book it was kept from, followed by the
/// variants of each later book with the same title and authors, so no file is lost.
pub proof fn lemma_merged_into_keeps_variants(bs: Seq<BookV>, i: int, n: int, j: int, k: int)
    requires
        0 <= i < j < n <= bs.len(),
        merge_key(bs[j]) is Some,
        merge_key(bs[j]) == merge_key(bs[i]),
        0 <= k < bs[j].variants.len(),
    ensures
        merged_into(bs, i, n).variants.contains(bs[j].variants[k]),
        merged_into(bs, i, n).variants.len() >= bs[i].variants.len() + bs[j].variants.len(),
    decreases n - i,
{
    lemma_merged_into_grows(bs, i, j + 1, n);
    let m = merged_into(bs, i, j);
    lemma_merged_into_len(bs, i, j);
    assert(merged_into(bs, i, j + 1) == merged(m, bs[j]));
    assert(merged(m, bs[j]).variants[m.variants.len() + k] == bs[j].variants[k]);
    let p = merged_into(bs, i, j + 1).variants;
    let q = merged_into(bs, i, n).variants;
    assert(q[m.variants.len() + k] == p[m.variants.len() + k]);
}

proof fn lemma_merged_into_len(bs: Seq<BookV>, i: int, n: int)
    requires
        0 <= i < bs.len(),
    ensures
        merged_into(bs, i, n).variants.len() >= bs[i].variants.len(),
    decreases n - i,
{
    if n > i + 1 {
        lemma_merged_into_len(bs, i, n - 1);
    }
}

/// Merging more books only appends variants.
proof fn lemma_merged_into_grows(bs: Seq<BookV>, i: int, m: int, n: int)
    requires
        0 <= i < bs.len(),
        i < m <= n,
    ensures
        merged_into(bs, i, m).variants.len() <= merged_into(bs, i, n).variants.len(),
        forall|x: int|
            0 <= x < merged_into(bs, i, m).variants.len() ==> merged_into(bs, i, n).variants[x]
                == #[trigger] merged_into(bs, i, m).variants[x],
    decreases n - m,
{
    if n > m {
        lemma_merged_into_grows(bs, i, m, n - 1);
    }
}

} // verus!
