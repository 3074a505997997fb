//! The books held in memory, keyed by id in the order they were added, with the names of
//! the columns they have; and loading books on demand from the store's rows.
use vstd::prelude::*;

use crate::book_rows::{
    books_from_rows, books_from_rows_spec, books_view, copy_book, decimal_text, id_number,
    known_name, name_known, prime_column_names, prime_columns, push_all, push_decimal,
    rows_valid, texts, Book, BookRow, BookV, VariantRow,
};
use crate::book_rows::{lemma_merged_into_id, merge_similar, merged_into, merge_target, similar_merged, similar_merges, bracketed_parts, copy_opt, last_named, pairs_view, same_text, series_name_and_index, str_to_string};
use crate::records::{ColumnIdentifier, ColumnV, Edit, EditV};
use crate::sql_edit::writable;
use crate::text::{copy_string, string_from_chars};

verus! {

/// Where a book is found: by id, or by its position.
#[derive(Copy, Clone, Debug, PartialEq, Eq, Structural)]
pub enum BookViewIndex {
    ID(i64),
    Index(usize),
}

/// Books keyed by id, in the order they were first added, and the column names known.
pub struct BookCache {
    books: Vec<Book>,
    cols: Vec<String>,
}

pub ghost struct CacheV {
    pub books: Seq<BookV>,
    pub cols: Seq<Seq<char>>,
}

impl View for BookCache {
    type V = CacheV;

    closed spec fn view(&self) -> CacheV {
        CacheV { books: books_view(self.books@), cols: texts(self.cols@) }
    }
}

/// No two books have the same id.
pub open spec fn ids_distinct(bs: Seq<BookV>) -> bool {
    forall|i: int, j: int| 0 <= i < j < bs.len() ==> #[trigger] bs[i].id != #[trigger] bs[j].id
}

/// The position of the first book from `j` on with id `id` (the length where there is none).
pub open spec fn find_id(bs: Seq<BookV>, id: i64, j: int) -> int
    decreases bs.len() - j,
{
    if j >= bs.len() || j < 0 {
        bs.len() as int
    } else if bs[j].id == id {
        j
    } else {
        find_id(bs, id, j + 1)
    }
}

/// The book with id `id`, if any.
pub open spec fn lookup(bs: Seq<BookV>, id: i64) -> Option<BookV> {
    let k = find_id(bs, id, 0);
    if k < bs.len() {
        Some(bs[k])
    } else {
        None
    }
}

/// Adding a book: it replaces the book with its id in place, or goes at the end.
pub open spec fn insert_spec(bs: Seq<BookV>, b: BookV) -> Seq<BookV> {
    let k = find_id(bs, b.id, 0);
    if k < bs.len() {
        bs.update(k, b)
    } else {
        bs.push(b)
    }
}

/// Removing the book with id `id`, keeping the order of the others.
pub open spec fn remove_spec(bs: Seq<BookV>, id: i64) -> Seq<BookV> {
    let k = find_id(bs, id, 0);
    if k < bs.len() {
        bs.remove(k)
    } else {
        bs
    }
}

pub proof fn lemma_find_id(bs: Seq<BookV>, id: i64, j: int)
    requires
        0 <= j <= bs.len(),
    ensures
        j <= find_id(bs, id, j) <= bs.len(),
        find_id(bs, id, j) < bs.len() ==> bs[find_id(bs, id, j)].id == id,
        forall|m: int| j <= m < find_id(bs, id, j) ==> #[trigger] bs[m].id != id,
    decreases bs.len() - j,
{
    if j < bs.len() && bs[j].id != id {
        lemma_find_id(bs, id, j + 1);
    }
}

/// Finding a book by the id of the book at a position gives that position back, where no
/// two books have the same id.
proof fn lemma_find_at(bs: Seq<BookV>, k: int)
    requires
        ids_distinct(bs),
        0 <= k < bs.len(),
    ensures
        find_id(bs, bs[k].id, 0) == k,
{
    lemma_find_id(bs, bs[k].id, 0);
    let f = find_id(bs, bs[k].id, 0);
    if f != k {
        assert(bs[f].id == bs[k].id);
    }
}

impl BookCache {
    /// No two books held have the same id.
    pub open spec fn wf(&self) -> bool {
        ids_distinct(self@.books)
    }

    /// An empty cache that knows the columns every book has.
    pub fn new() -> (r: BookCache)
        ensures
            r@.books.len() == 0,
            r@.cols == prime_columns(),
            r.wf(),
    {
        let c = BookCache { books: Vec::new(), cols: prime_column_names() };
        assert(c@.books =~= Seq::<BookV>::empty());
        c
    }

    /// The number of books held.
    pub fn len(&self) -> (r: usize)
        ensures
            r == self@.books.len(),
    {
        self.books.len()
    }

    fn position(&self, id: i64) -> (r: usize)
        ensures
            r == find_id(self@.books, id, 0),
    {
        let ghost bs = self@.books;
        proof {
            lemma_find_id(bs, id, 0);
        }
        let mut k: usize = 0;
        while k < self.books.len() && self.books[k].id != id
            invariant
                k <= self.books@.len(),
                bs == books_view(self.books@),
                find_id(bs, id, k as int) == find_id(bs, id, 0),
            decreases self.books.len() - k,
        {
            assert(bs[k as int].id != id);
            k = k + 1;
        }
        k
    }

    /// Adds `book`, in place of the book with its id where there is one.
    pub fn insert_book(&mut self, book: Book)
        requires
            old(self).wf(),
        ensures
            final(self).wf(),
            final(self)@.books == insert_spec(old(self)@.books, book@),
            final(self)@.cols == old(self)@.cols,
    {
        let ghost bs = self@.books;
        let ghost b = book@;
        let k = self.position(book.id);
        proof {
            lemma_find_id(bs, b.id, 0);
        }
        if k < self.books.len() {
            self.books.set(k, book);
            assert(self@.books =~= bs.update(k as int, b));
        } else {
            self.books.push(book);
            assert(self@.books =~= bs.push(b));
        }
    }

    /// A copy of the book with id `id`, if one is held.
    pub fn get_book(&self, id: i64) -> (r: Option<Book>)
        ensures
            match r {
                Some(b) => lookup(self@.books, id) == Some(b@),
                None => lookup(self@.books, id) is None,
            },
    {
        let k = self.position(id);
        if k < self.books.len() {
            Some(copy_book(&self.books[k]))
        } else {
            None
        }
    }

    /// A copy of the book at position `index`, if there is one.
    pub fn get_book_indexed(&self, index: usize) -> (r: Option<Book>)
        ensures
            match r {
                Some(b) => index < self@.books.len() && b@ == self@.books[index as int],
                None => index >= self@.books.len(),
            },
    {
        if index < self.books.len() {
            Some(copy_book(&self.books[index]))
        } else {
            None
        }
    }

    /// The book at `index`: by id or by position.
    pub fn get(&self, index: BookViewIndex) -> (r: Option<Book>)
        ensures
            match index {
                BookViewIndex::ID(id) => match r {
                    Some(b) => lookup(self@.books, id) == Some(b@),
                    None => lookup(self@.books, id) is None,
                },
                BookViewIndex::Index(i) => match r {
                    Some(b) => i < self@.books.len() && b@ == self@.books[i as int],
                    None => i >= self@.books.len(),
                },
            },
    {
        match index {
            BookViewIndex::ID(id) => self.get_book(id),
            BookViewIndex::Index(i) => self.get_book_indexed(i),
        }
    }

    /// Removes the book with id `id`, keeping the others in order.
    pub fn remove_book(&mut self, id: i64)
        requires
            old(self).wf(),
        ensures
            final(self).wf(),
            final(self)@.books == remove_spec(old(self)@.books, id),
            final(self)@.cols == old(self)@.cols,
    {
        let ghost bs = self@.books;
        let k = self.position(id);
        if k < self.books.len() {
            let _ = self.books.remove(k);
            assert(self@.books =~= bs.remove(k as int));
            assert forall|i: int, j: int| 0 <= i < j < self@.books.len() implies #[trigger] self@.books[i].id
                != #[trigger] self@.books[j].id by {
                let oi = if i < k { i } else { i + 1 };
                let oj = if j < k { j } else { j + 1 };
                assert(self@.books[i] == bs[oi] && self@.books[j] == bs[oj]);
            }
        }
    }

    /// Removes the book at position `index`; returns whether there was one.
    pub fn remove_book_indexed(&mut self, index: usize) -> (r: bool)
        requires
            old(self).wf(),
        ensures
            final(self).wf(),
            r == (index < old(self)@.books.len()),
            final(self)@.books == (if r {
                old(self)@.books.remove(index as int)
            } else {
                old(self)@.books
            }),
            final(self)@.cols == old(self)@.cols,
    {
        let ghost bs = self@.books;
        if index < self.books.len() {
            let _ = self.books.remove(index);
            assert(self@.books =~= bs.remove(index as int));
            assert forall|i: int, j: int| 0 <= i < j < self@.books.len() implies #[trigger] self@.books[i].id
                != #[trigger] self@.books[j].id by {
                let oi = if i < index { i } else { i + 1 };
                let oj = if j < index { j } else { j + 1 };
                assert(self@.books[i] == bs[oi] && self@.books[j] == bs[oj]);
            }
            true
        } else {
            false
        }
    }

    /// Removes every book.
    pub fn clear(&mut self)
        ensures
            final(self).wf(),
            final(self)@.books.len() == 0,
            final(self)@.cols == old(self)@.cols,
    {
        self.books.clear();
    }
}

/// Reading a book back after adding it gives it, and the books held keep distinct ids.
pub proof fn lemma_get_after_insert(bs: Seq<BookV>, b: BookV)
    requires
        ids_distinct(bs),
    ensures
        ids_distinct(insert_spec(bs, b)),
        lookup(insert_spec(bs, b), b.id) == Some(b),
        forall|id: i64| id != b.id ==> #[trigger] lookup(insert_spec(bs, b), id) == lookup(bs, id),
{
    lemma_find_id(bs, b.id, 0);
    let n = insert_spec(bs, b);
    let k = find_id(bs, b.id, 0);
    assert forall|i: int, j: int| 0 <= i < j < n.len() implies #[trigger] n[i].id != #[trigger] n[j].id by {
        if k < bs.len() {
            if i == k {
                assert(bs[j].id != bs[k].id);
            } else if j == k {
                assert(bs[i].id != bs[k].id);
            }
        } else {
            if j == bs.len() {
                assert(bs[i].id != b.id);
            }
        }
    }
    let p = if k < bs.len() { k } else { bs.len() as int };
    assert(n[p] == b);
    lemma_find_at(n, p);
    assert forall|id: i64| id != b.id implies #[trigger] lookup(n, id) == lookup(bs, id) by {
        lemma_find_id(bs, id, 0);
        lemma_find_id(n, id, 0);
        let f = find_id(bs, id, 0);
        let g = find_id(n, id, 0);
        if f < bs.len() {
            assert(n[f] == bs[f]);
            if g < f {
                assert(n[g] == bs[g]);
            }
        }
        if g < n.len() && g < bs.len() {
            assert(n[g] == bs[g]);
        }
    }
}

/// After removing a book by id, no book with that id is held, and every other is read back
/// as before.
pub proof fn lemma_get_after_remove(bs: Seq<BookV>, id: i64)
    requires
        ids_distinct(bs),
    ensures
        lookup(remove_spec(bs, id), id) is None,
        forall|o: i64| o != id ==> #[trigger] lookup(remove_spec(bs, id), o) == lookup(bs, o),
{
    lemma_find_id(bs, id, 0);
    let n = remove_spec(bs, id);
    let k = find_id(bs, id, 0);
    lemma_find_id(n, id, 0);
    if k < bs.len() {
        let g = find_id(n, id, 0);
        if g < n.len() {
            let og = if g < k { g } else { g + 1 };
            assert(n[g] == bs[og]);
        }
    }
    assert forall|o: i64| o != id implies #[trigger] lookup(n, o) == lookup(bs, o) by {
        lemma_find_id(bs, o, 0);
        lemma_find_id(n, o, 0);
        let f = find_id(bs, o, 0);
        let g = find_id(n, o, 0);
        if k < bs.len() {
            if f < bs.len() {
                assert(f != k);
                let nf = if f < k { f } else { f - 1 };
                assert(n[nf] == bs[f]);
                if g < nf {
                    let og = if g < k { g } else { g + 1 };
                    assert(n[g] == bs[og]);
                }
            }
            if g < n.len() {
                let og = if g < k { g } else { g + 1 };
                assert(n[g] == bs[og]);
            }
        }
    }
}

// ---------------------------------------------------------------------------
// Loading books on demand
// ---------------------------------------------------------------------------

/// The requested ids among the first `n` that no book held has, each once, in order.
pub open spec fn uncached_ids(ids: Seq<i64>, bs: Seq<BookV>, n: int) -> Seq<i64>
    decreases n,
{
    if n <= 0 {
        Seq::empty()
    } else {
        let acc = uncached_ids(ids, bs, n - 1);
        if lookup(bs, ids[n - 1]) is Some || acc.contains(ids[n - 1]) {
            acc
        } else {
            acc.push(ids[n - 1])
        }
    }
}

/// The ids written in decimal and separated by ", ".
pub open spec fn join_ids(ids: Seq<i64>) -> Seq<char>
    decreases ids.len(),
{
    if ids.len() == 0 {
        Seq::empty()
    } else if ids.len() == 1 {
        decimal_text(id_number(ids[0]) as nat)
    } else {
        join_ids(ids.drop_last()) + ", "@ + decimal_text(id_number(ids.last()) as nat)
    }
}

/// The query that reads the rows of `table` that belong to the books listed in `where_`.
pub open spec fn load_query(table: Seq<char>, where_: Seq<char>) -> Seq<char> {
    "SELECT * FROM "@ + table + " WHERE "@ + table + ".book_id "@ + where_
}

/// The five queries that read the books with the ids given, with their variants, named
/// tags, free tags and multimap tags.
pub open spec fn load_query_texts(ids: Seq<i64>) -> Seq<Seq<char>> {
    let w = "IN ("@ + join_ids(ids) + ")"@;
    seq![
        load_query("books"@, w),
        load_query("variants"@, w),
        load_query("named_tags"@, w),
        load_query("free_tags"@, w),
        load_query("multimap_tags"@, w),
    ]
}

/// The books held after adding the first `n` of `fetched`, in turn.
pub open spec fn insert_all(bs: Seq<BookV>, fetched: Seq<BookV>, n: int) -> Seq<BookV>
    decreases n,
{
    if n <= 0 {
        bs
    } else {
        insert_spec(insert_all(bs, fetched, n - 1), fetched[n - 1])
    }
}

/// The column names known after adding the first `n` of `names`, each where no equal name
/// (without regard to case) is known yet.
pub open spec fn add_names(cols: Seq<Seq<char>>, names: Seq<Seq<char>>, n: int) -> Seq<Seq<char>>
    decreases n,
{
    if n <= 0 {
        cols
    } else {
        let acc = add_names(cols, names, n - 1);
        if known_name(acc, names[n - 1]) {
            acc
        } else {
            acc.push(names[n - 1])
        }
    }
}

/// The first `n` ids, each once, in order of first appearance.
pub open spec fn unique_ids(ids: Seq<i64>, n: int) -> Seq<i64>
    decreases n,
{
    if n <= 0 {
        Seq::empty()
    } else {
        let acc = unique_ids(ids, n - 1);
        if acc.contains(ids[n - 1]) {
            acc
        } else {
            acc.push(ids[n - 1])
        }
    }
}

/// The books held for the first `n` ids, in order, skipping ids no book has.
pub open spec fn present_books(bs: Seq<BookV>, ids: Seq<i64>, n: int) -> Seq<BookV>
    decreases n,
{
    if n <= 0 {
        Seq::empty()
    } else {
        let acc = present_books(bs, ids, n - 1);
        match lookup(bs, ids[n - 1]) {
            Some(b) => acc.push(b),
            None => acc,
        }
    }
}

pub open spec fn ids_of(bs: Seq<BookV>) -> Seq<i64> {
    Seq::new(bs.len(), |i: int| bs[i].id)
}

/// What loading gives: each requested id that a book has after the fetched books are added
/// (a fetched book in place of a book held with its id), and each fetched book, once, in the
/// order of the request and then of the fetched books.
pub open spec fn loaded_books(ids: Seq<i64>, after: Seq<BookV>, fetched: Seq<BookV>) -> Seq<BookV> {
    let all = ids + ids_of(fetched);
    let u = unique_ids(all, all.len() as int);
    present_books(after, u, u.len() as int)
}

fn contains_id(v: &Vec<i64>, id: i64) -> (r: bool)
    ensures
        r == v@.contains(id),
{
    let mut k: usize = 0;
    while k < v.len()
        invariant
            k <= v@.len(),
            forall|j: int| 0 <= j < k ==> v@[j] != id,
        decreases v.len() - k,
    {
        if v[k] == id {
            assert(v@[k as int] == id);
            return true;
        }
        k = k + 1;
    }
    false
}

fn unique(ids: &Vec<i64>) -> (r: Vec<i64>)
    ensures
        r@ == unique_ids(ids@, ids@.len() as int),
{
    let mut out: Vec<i64> = Vec::new();
    let mut k: usize = 0;
    while k < ids.len()
        invariant
            k <= ids@.len(),
            out@ == unique_ids(ids@, k as int),
        decreases ids.len() - k,
    {
        if !contains_id(&out, ids[k]) {
            out.push(ids[k]);
        }
        k = k + 1;
    }
    out
}

/// The queries that read the books with the ids given: the rows of the books, variants,
/// named tags, free tags and multimap tags tables whose book id is listed.
pub fn load_queries(ids: &Vec<i64>) -> (r: Vec<String>)
    ensures
        texts(r@) == load_query_texts(ids@),
{
    let mut w: Vec<char> = Vec::new();
    push_all(&mut w, "IN (");
    let ghost base = w@;
    let mut k: usize = 0;
    while k < ids.len()
        invariant
            k <= ids@.len(),
            base == "IN ("@,
            w@ == base + join_ids(ids@.take(k as int)),
        decreases ids.len() - k,
    {
        let ghost before = w@;
        if k > 0 {
            push_all(&mut w, ", ");
        }
        push_decimal(&mut w, crate::book_rows::id_value(ids[k]));
        proof {
            let p = ids@.take(k + 1);
            assert(p.drop_last() =~= ids@.take(k as int));
            assert(p.last() == ids@[k as int]);
            if k == 0 {
                assert(w@ =~= base + decimal_text(id_number(p[0]) as nat));
                assert(join_ids(p) == decimal_text(id_number(p[0]) as nat));
            } else {
                assert(w@ =~= base + (join_ids(p.drop_last()) + ", "@ + decimal_text(
                    id_number(p.last()) as nat,
                )));
            }
        }
        k = k + 1;
    }
    push_all(&mut w, ")");
    assert(ids@.take(ids@.len() as int) =~= ids@);
    let ghost wh = w@;
    assert(wh =~= "IN ("@ + join_ids(ids@) + ")"@);
    let tables = ["books", "variants", "named_tags", "free_tags", "multimap_tags"];
    let mut out: Vec<String> = Vec::new();
    let mut t: usize = 0;
    while t < 5
        invariant
            t <= 5,
            wh == "IN ("@ + join_ids(ids@) + ")"@,
            wh == w@,
            tables@ == seq!["books", "variants", "named_tags", "free_tags", "multimap_tags"],
            texts(out@) =~= load_query_texts(ids@).take(t as int),
        decreases 5 - t,
    {
        let mut q: Vec<char> = Vec::new();
        push_all(&mut q, "SELECT * FROM ");
        push_all(&mut q, tables[t]);
        push_all(&mut q, " WHERE ");
        push_all(&mut q, tables[t]);
        push_all(&mut q, ".book_id ");
        let mut m: usize = 0;
        let ghost qb = q@;
        while m < w.len()
            invariant
                m <= w@.len(),
                q@ =~= qb + w@.take(m as int),
            decreases w.len() - m,
        {
            q.push(w[m]);
            m = m + 1;
        }
        assert(w@.take(w@.len() as int) =~= w@);
        let ghost before = out@;
        out.push(string_from_chars(q.as_slice()));
        assert(q@ == load_query(tables@[t as int]@, wh));
        assert(texts(out@) =~= texts(before).push(load_query_texts(ids@)[t as int]));
        t = t + 1;
    }
    out
}

impl BookCache {
    /// The requested ids that no book held has, each once, in order: the books to read from
    /// the store.
    pub fn ids_to_load(&self, ids: &Vec<i64>) -> (r: Vec<i64>)
        ensures
            r@ == uncached_ids(ids@, self@.books, ids@.len() as int),
    {
        let mut out: Vec<i64> = Vec::new();
        let mut k: usize = 0;
        while k < ids.len()
            invariant
                k <= ids@.len(),
                out@ == uncached_ids(ids@, self@.books, k as int),
            decreases ids.len() - k,
        {
            let held = self.position(ids[k]) < self.books.len();
            if !held && !contains_id(&out, ids[k]) {
                out.push(ids[k]);
            }
            k = k + 1;
        }
        out
    }

    /// Adds column names, each where no equal name (without regard to case) is known.
    pub fn insert_columns(&mut self, names: &Vec<String>)
        ensures
            final(self)@.cols == add_names(old(self)@.cols, texts(names@), names@.len() as int),
            final(self)@.books == old(self)@.books,
    {
        let ghost start = self@.cols;
        let mut k: usize = 0;
        while k < names.len()
            invariant
                k <= names@.len(),
                self@.cols == add_names(start, texts(names@), k as int),
                self@.books == old(self)@.books,
            decreases names.len() - k,
        {
            if !name_known(&self.cols, &names[k]) {
                let ghost before = self.cols@;
                self.cols.push(copy_string(&names[k]));
                assert(texts(self.cols@) =~= texts(before).push(names@[k as int]@));
            }
            k = k + 1;
        }
    }

    /// Adds the books the store's rows make (in place of the books held with their ids) and
    /// their column names, and gives the books loaded: each requested id a book has, and
    /// each book read, once.
    pub fn load_book_ids(
        &mut self,
        ids: &Vec<i64>,
        books: Vec<BookRow>,
        variants: Vec<VariantRow>,
        named: Vec<(i64, String, String)>,
        free: Vec<(i64, String)>,
        multimap: Vec<(i64, String, String)>,
    ) -> (r: Vec<Book>)
        requires
            old(self).wf(),
            rows_valid(variants@, named@, free@, multimap@),
        ensures
            final(self).wf(),
            ({
                let f = books_from_rows_spec(books@, variants@, named@, free@, multimap@);
                &&& final(self)@.books == insert_all(old(self)@.books, f.0, f.0.len() as int)
                &&& final(self)@.cols == add_names(old(self)@.cols, f.1, f.1.len() as int)
                &&& books_view(r@) == loaded_books(ids@, final(self)@.books, f.0)
            }),
    {
        let ghost f = books_from_rows_spec(books@, variants@, named@, free@, multimap@);
        let ghost start = self@.books;
        let (fetched, cols) = books_from_rows(books, variants, named, free, multimap);
        let mut k: usize = 0;
        while k < fetched.len()
            invariant
                k <= fetched@.len(),
                books_view(fetched@) == f.0,
                self.wf(),
                self@.books == insert_all(start, f.0, k as int),
                self@.cols == old(self)@.cols,
            decreases fetched.len() - k,
        {
            let b = copy_book(&fetched[k]);
            proof {
                lemma_get_after_insert(self@.books, b@);
            }
            self.insert_book(b);
            k = k + 1;
        }
        self.insert_columns(&cols);
        let mut all: Vec<i64> = Vec::new();
        let mut k: usize = 0;
        while k < ids.len()
            invariant
                k <= ids@.len(),
                all@ == ids@.take(k as int),
            decreases ids.len() - k,
        {
            all.push(ids[k]);
            assert(ids@.take(k + 1) =~= ids@.take(k as int).push(ids@[k as int]));
            k = k + 1;
        }
        let mut k: usize = 0;
        while k < fetched.len()
            invariant
                k <= fetched@.len(),
                books_view(fetched@) == f.0,
                all@ == ids@ + ids_of(f.0).take(k as int),
            decreases fetched.len() - k,
        {
            all.push(fetched[k].id);
            assert(ids_of(f.0).take(k + 1) =~= ids_of(f.0).take(k as int).push(f.0[k as int].id));
            k = k + 1;
        }
        assert(ids_of(f.0).take(f.0.len() as int) =~= ids_of(f.0));
        let u = unique(&all);
        let mut out: Vec<Book> = Vec::new();
        let mut k: usize = 0;
        while k < u.len()
            invariant
                k <= u@.len(),
                books_view(out@) == present_books(self@.books, u@, k as int),
            decreases u.len() - k,
        {
            match self.get_book(u[k]) {
                Some(b) => {
                    let ghost before = out@;
                    out.push(b);
                    assert(books_view(out@) =~= books_view(before).push(b@));
                },
                None => {},
            }
            k = k + 1;
        }
        out
    }
}

// ---------------------------------------------------------------------------
// Editing a book held
// ---------------------------------------------------------------------------

/// The named tags without those called `n`.
pub open spec fn drop_named(t: Seq<(Seq<char>, Seq<char>)>, n: Seq<char>) -> Seq<(Seq<char>, Seq<char>)>
    decreases t.len(),
{
    if t.len() == 0 {
        t
    } else if t.last().0 == n {
        drop_named(t.drop_last(), n)
    } else {
        drop_named(t.drop_last(), n).push(t.last())
    }
}

/// The texts without those equal to `x`.
pub open spec fn drop_text(v: Seq<Seq<char>>, x: Seq<char>) -> Seq<Seq<char>>
    decreases v.len(),
{
    if v.len() == 0 {
        v
    } else if v.last() == x {
        drop_text(v.drop_last(), x)
    } else {
        drop_text(v.drop_last(), x).push(v.last())
    }
}

/// The series a text names: `name [index]` where the bracketed index is a number
/// (`parses`), else the whole text as a name without index.
pub open spec fn series_of_text(v: Seq<char>, parses: bool) -> (Seq<char>, Option<Seq<char>>) {
    match bracketed_parts(v) {
        Some((n, i)) => if parses {
            (n, Some(i))
        } else {
            (v, None)
        },
        None => (v, None),
    }
}

/// Whether an edit asks whether a series index text is a number.
pub open spec fn edit_asks_index(c: ColumnV, e: EditV) -> bool {
    &&& c == ColumnV::Series
    &&& match e {
        EditV::Replace(v) => bracketed_parts(v) is Some,
        _ => false,
    }
}

/// A book with an edit made, as the store's statement for the edit makes it (see
/// `edit_statement_spec`): deleting clears the column (a named tag or a free tag by name,
/// or all free tags); replacing sets the title, description or series, adds an author, a
/// named tag or a free tag (an exact tag replaced by the new text); appending extends the
/// title or description where there is one, adds an author or free tag, extends a named tag
/// (from the empty text) and extends an exact tag.
pub open spec fn edit_book_spec(b: BookV, c: ColumnV, e: EditV, parses: bool) -> BookV {
    match e {
        EditV::Delete => match c {
            ColumnV::Title => BookV { title: None, ..b },
            ColumnV::Author => BookV { authors: Seq::empty(), ..b },
            ColumnV::Series => BookV { series: None, ..b },
            ColumnV::Description => BookV { description: None, ..b },
            ColumnV::ExtendedTag(n) => BookV { named_tags: drop_named(b.named_tags, n), ..b },
            ColumnV::ExactTag(t) => BookV { free_tags: drop_text(b.free_tags, t), ..b },
            _ => BookV { free_tags: Seq::empty(), ..b },
        },
        EditV::Replace(v) => match c {
            ColumnV::Title => BookV { title: Some(v), ..b },
            ColumnV::Author => BookV { authors: b.authors.push(v), ..b },
            ColumnV::Series => BookV { series: Some(series_of_text(v, parses)), ..b },
            ColumnV::Description => BookV { description: Some(v), ..b },
            ColumnV::ExtendedTag(n) => BookV { named_tags: b.named_tags.push((n, v)), ..b },
            ColumnV::ExactTag(t) => BookV { free_tags: drop_text(b.free_tags, t).push(v), ..b },
            _ => BookV { free_tags: b.free_tags.push(v), ..b },
        },
        EditV::Append(v) => match c {
            ColumnV::Title => BookV {
                title: match b.title {
                    Some(t) => Some(t + v),
                    None => None,
                },
                ..b
            },
            ColumnV::Author => BookV { authors: b.authors.push(v), ..b },
            ColumnV::Description => BookV {
                description: match b.description {
                    Some(t) => Some(t + v),
                    None => None,
                },
                ..b
            },
            ColumnV::ExtendedTag(n) => BookV {
                named_tags: b.named_tags.push(
                    (
                        n,
                        match last_named(b.named_tags, n) {
                            Some(t) => t,
                            None => Seq::empty(),
                        } + v,
                    ),
                ),
                ..b
            },
            ColumnV::ExactTag(t) => BookV { free_tags: drop_text(b.free_tags, t).push(t + v), ..b },
            _ => BookV { free_tags: b.free_tags.push(v), ..b },
        },
    }
}

fn drop_named_of(t: &Vec<(String, String)>, n: &String) -> (r: Vec<(String, String)>)
    ensures
        pairs_view(r@) == drop_named(pairs_view(t@), n@),
{
    let mut out: Vec<(String, String)> = Vec::new();
    let mut k: usize = 0;
    while k < t.len()
        invariant
            k <= t@.len(),
            pairs_view(out@) == drop_named(pairs_view(t@).take(k as int), n@),
        decreases t.len() - k,
    {
        let ghost p = pairs_view(t@).take(k + 1);
        assert(p.drop_last() =~= pairs_view(t@).take(k as int));
        assert(p.last() == (t@[k as int].0@, t@[k as int].1@));
        if !same_text(&t[k].0, n) {
            let ghost before = out@;
            out.push((copy_string(&t[k].0), copy_string(&t[k].1)));
            assert(pairs_view(out@) =~= pairs_view(before).push(p.last()));
        }
        k = k + 1;
    }
    assert(pairs_view(t@).take(t@.len() as int) =~= pairs_view(t@));
    out
}

fn drop_text_of(v: &Vec<String>, x: &String) -> (r: Vec<String>)
    ensures
        texts(r@) == drop_text(texts(v@), x@),
{
    let mut out: Vec<String> = Vec::new();
    let mut k: usize = 0;
    while k < v.len()
        invariant
            k <= v@.len(),
            texts(out@) == drop_text(texts(v@).take(k as int), x@),
        decreases v.len() - k,
    {
        let ghost p = texts(v@).take(k + 1);
        assert(p.drop_last() =~= texts(v@).take(k as int));
        assert(p.last() == v@[k as int]@);
        if !same_text(&v[k], x) {
            let ghost before = out@;
            out.push(copy_string(&v[k]));
            assert(texts(out@) =~= texts(before).push(p.last()));
        }
        k = k + 1;
    }
    assert(texts(v@).take(v@.len() as int) =~= texts(v@));
    out
}

fn concat(a: &String, b: &String) -> (r: String)
    ensures
        r@ == a@ + b@,
{
    let mut v: Vec<char> = Vec::new();
    push_all(&mut v, a.as_str());
    push_all(&mut v, b.as_str());
    string_from_chars(v.as_slice())
}

fn last_named_of(t: &Vec<(String, String)>, n: &String) -> (r: String)
    ensures
        r@ == (match last_named(pairs_view(t@), n@) {
            Some(x) => x,
            None => Seq::empty(),
        }),
{
    let ghost tags = pairs_view(t@);
    let mut k: usize = t.len();
    assert(tags.take(k as int) =~= tags);
    while k > 0
        invariant
            k <= t@.len(),
            tags == pairs_view(t@),
            last_named(tags, n@) == last_named(tags.take(k as int), n@),
        decreases k,
    {
        let ghost p = tags.take(k as int);
        assert(p.last() == tags[k - 1]);
        assert(p.drop_last() =~= tags.take(k - 1));
        if same_text(&t[k - 1].0, n) {
            assert(last_named(p, n@) == Some(p.last().1));
            return copy_string(&t[k - 1].1);
        }
        k = k - 1;
    }
    assert(tags.take(0) =~= Seq::<(Seq<char>, Seq<char>)>::empty());
    string_from_chars(&[])
}

impl Book {
    /// Makes an edit of a column as the store's statement for it does (see
    /// `edit_book_spec`); `is_number` tells whether a series index text is a number, and is
    /// asked only when a series is replaced by a text written `name [index]`.
    pub fn edit_column<F: Fn(&str) -> bool>(&mut self, column: &ColumnIdentifier, edit: &Edit, is_number: &F)
        requires
            writable(column@, edit@),
            forall|x: &str| is_number.requires((x,)),
        ensures
            edit_asks_index(column@, edit@) ==> exists|x: &str, p: bool|
                x@ == bracketed_parts(edit@->Replace_0)->Some_0.1 && is_number.ensures((x,), p)
                    && final(self)@ == edit_book_spec(old(self)@, column@, edit@, p),
            !edit_asks_index(column@, edit@) ==> final(self)@ == edit_book_spec(
                old(self)@,
                column@,
                edit@,
                false,
            ),
    {
        match edit {
            Edit::Delete => match column {
                ColumnIdentifier::Title => {
                    self.title = None;
                },
                ColumnIdentifier::Author => {
                    self.authors = Vec::new();
                    assert(texts(self.authors@) =~= Seq::<Seq<char>>::empty());
                },
                ColumnIdentifier::Series => {
                    self.series = None;
                },
                ColumnIdentifier::Description => {
                    self.description = None;
                },
                ColumnIdentifier::ExtendedTag(n) => {
                    self.named_tags = drop_named_of(&self.named_tags, n);
                },
                ColumnIdentifier::ExactTag(t) => {
                    self.free_tags = drop_text_of(&self.free_tags, t);
                },
                _ => {
                    self.free_tags = Vec::new();
                    assert(texts(self.free_tags@) =~= Seq::<Seq<char>>::empty());
                },
            },
            Edit::Replace(v) => match column {
                ColumnIdentifier::Title => {
                    self.title = Some(copy_string(v));
                },
                ColumnIdentifier::Author => {
                    let ghost before = self.authors@;
                    self.authors.push(copy_string(v));
                    assert(texts(self.authors@) =~= texts(before).push(v@));
                },
                ColumnIdentifier::Series => {
                    match series_name_and_index(v.as_str()) {
                        Some((n, i)) => {
                            let p = is_number(i.as_str());
                            if p {
                                self.series = Some((n, Some(i)));
                            } else {
                                self.series = Some((copy_string(v), None));
                            }
                        },
                        None => {
                            self.series = Some((copy_string(v), None));
                        },
                    }
                },
                ColumnIdentifier::Description => {
                    self.description = Some(copy_string(v));
                },
                ColumnIdentifier::ExtendedTag(n) => {
                    let ghost before = self.named_tags@;
                    self.named_tags.push((copy_string(n), copy_string(v)));
                    assert(pairs_view(self.named_tags@) =~= pairs_view(before).push((n@, v@)));
                },
                ColumnIdentifier::ExactTag(t) => {
                    let mut f = drop_text_of(&self.free_tags, t);
                    let ghost before = f@;
                    f.push(copy_string(v));
                    assert(texts(f@) =~= texts(before).push(v@));
                    self.free_tags = f;
                },
                _ => {
                    let ghost before = self.free_tags@;
                    self.free_tags.push(copy_string(v));
                    assert(texts(self.free_tags@) =~= texts(before).push(v@));
                },
            },
            Edit::Append(v) => match column {
                ColumnIdentifier::Title => {
                    self.title = match &self.title {
                        Some(t) => Some(concat(t, v)),
                        None => None,
                    };
                },
                ColumnIdentifier::Author => {
                    let ghost before = self.authors@;
                    self.authors.push(copy_string(v));
                    assert(texts(self.authors@) =~= texts(before).push(v@));
                },
                ColumnIdentifier::Description => {
                    self.description = match &self.description {
                        Some(t) => Some(concat(t, v)),
                        None => None,
                    };
                },
                ColumnIdentifier::ExtendedTag(n) => {
                    let cur = last_named_of(&self.named_tags, n);
                    let nv = concat(&cur, v);
                    let ghost before = self.named_tags@;
                    self.named_tags.push((copy_string(n), nv));
                    assert(pairs_view(self.named_tags@) =~= pairs_view(before).push((n@, nv@)));
                },
                ColumnIdentifier::ExactTag(t) => {
                    let mut f = drop_text_of(&self.free_tags, t);
                    let ghost before = f@;
                    f.push(concat(t, v));
                    assert(texts(f@) =~= texts(before).push(t@ + v@));
                    self.free_tags = f;
                },
                _ => {
                    let ghost before = self.free_tags@;
                    self.free_tags.push(copy_string(v));
                    assert(texts(self.free_tags@) =~= texts(before).push(v@));
                },
            },
        }
    }
}

/// The edits' columns and edits.
pub open spec fn edits_view(v: Seq<(ColumnIdentifier, Edit)>) -> Seq<(ColumnV, EditV)> {
    Seq::new(v.len(), |i: int| (v[i].0@, v[i].1@))
}

/// A book with the first `n` edits made in turn; `ps` says, for each edit, whether the
/// series index text it names is a number.
pub open spec fn edits_spec(b: BookV, es: Seq<(ColumnV, EditV)>, ps: Seq<bool>, n: int) -> BookV
    decreases n,
{
    if n <= 0 {
        b
    } else {
        edit_book_spec(edits_spec(b, es, ps, n - 1), es[n - 1].0, es[n - 1].1, ps[n - 1])
    }
}

/// The names of the named tags the first `n` edits write.
pub open spec fn edited_names(es: Seq<(ColumnV, EditV)>, n: int) -> Seq<Seq<char>>
    decreases n,
{
    if n <= 0 {
        Seq::empty()
    } else {
        match es[n - 1].0 {
            ColumnV::ExtendedTag(x) => edited_names(es, n - 1).push(x),
            _ => edited_names(es, n - 1),
        }
    }
}

proof fn lemma_edits_keep_id(b: BookV, es: Seq<(ColumnV, EditV)>, ps: Seq<bool>, n: int)
    ensures
        edits_spec(b, es, ps, n).id == b.id,
    decreases n,
{
    if n > 0 {
        lemma_edits_keep_id(b, es, ps, n - 1);
    }
}

impl BookCache {
    /// Makes the edits, in turn, to the book with id `id` (as the store's statements make
    /// them), and notes the names of the named tags written; returns whether a book with
    /// that id is held. `is_number` tells whether a series index text is a number.
    pub fn edit_book_with_id<F: Fn(&str) -> bool>(&mut self, id: i64, edits: &Vec<(ColumnIdentifier, Edit)>, is_number: &F) -> (r: bool)
        requires
            old(self).wf(),
            forall|i: int| 0 <= i < edits@.len() ==> writable(#[trigger] edits@[i].0@, edits@[i].1@),
            forall|x: &str| is_number.requires((x,)),
        ensures
            final(self).wf(),
            r == (lookup(old(self)@.books, id) is Some),
            !r ==> final(self)@ == old(self)@,
            r ==> exists|ps: Seq<bool>|
                #![trigger edits_spec(lookup(old(self)@.books, id)->Some_0, edits_view(edits@), ps, edits@.len() as int)]
                {
                    &&& ps.len() == edits@.len()
                    &&& forall|k: int|
                        0 <= k < edits@.len() && edit_asks_index(edits@[k].0@, edits@[k].1@) ==> exists|x: &str|
                            x@ == bracketed_parts(edits@[k].1@->Replace_0)->Some_0.1
                                && #[trigger] is_number.ensures((x,), ps[k])
                    &&& final(self)@.books == old(self)@.books.update(
                        find_id(old(self)@.books, id, 0),
                        edits_spec(
                            lookup(old(self)@.books, id)->Some_0,
                            edits_view(edits@),
                            ps,
                            edits@.len() as int,
                        ),
                    )
                    &&& final(self)@.cols == add_names(
                        old(self)@.cols,
                        edited_names(edits_view(edits@), edits@.len() as int),
                        edited_names(edits_view(edits@), edits@.len() as int).len() as int,
                    )
                },
    {
        let ghost bs = self@.books;
        let pos = self.position(id);
        proof {
            lemma_find_id(bs, id, 0);
        }
        if pos >= self.books.len() {
            return false;
        }
        let ghost es = edits_view(edits@);
        let ghost b0 = bs[pos as int];
        let mut book = copy_book(&self.books[pos]);
        let mut names: Vec<String> = Vec::new();
        let ghost mut ps: Seq<bool> = Seq::empty();
        let mut k: usize = 0;
        while k < edits.len()
            invariant
                k <= edits@.len(),
                es == edits_view(edits@),
                forall|i: int| 0 <= i < edits@.len() ==> writable(#[trigger] edits@[i].0@, edits@[i].1@),
                forall|x: &str| is_number.requires((x,)),
                ps.len() == k,
                forall|j: int|
                    0 <= j < k && edit_asks_index(edits@[j].0@, edits@[j].1@) ==> exists|x: &str|
                        x@ == bracketed_parts(edits@[j].1@->Replace_0)->Some_0.1
                            && #[trigger] is_number.ensures((x,), ps[j]),
                book@ == edits_spec(b0, es, ps, k as int),
                texts(names@) == edited_names(es, k as int),
            decreases edits.len() - k,
        {
            let ghost prev = book@;
            assert(es[k as int] == (edits@[k as int].0@, edits@[k as int].1@));
            assert(writable(edits@[k as int].0@, edits@[k as int].1@));
            book.edit_column(&edits[k].0, &edits[k].1, is_number);
            let ghost p: bool = if edit_asks_index(edits@[k as int].0@, edits@[k as int].1@) {
                (choose|x: &str, p: bool|
                    x@ == bracketed_parts(edits@[k as int].1@->Replace_0)->Some_0.1
                        && #[trigger] is_number.ensures((x,), p) && book@ == edit_book_spec(
                        prev,
                        edits@[k as int].0@,
                        edits@[k as int].1@,
                        p,
                    )).1
            } else {
                false
            };
            proof {
                let nps = ps.push(p);
                assert forall|j: int| 0 <= j < k + 1 && edit_asks_index(edits@[j].0@, edits@[j].1@) implies exists|x: &str|
                    x@ == bracketed_parts(edits@[j].1@->Replace_0)->Some_0.1
                        && #[trigger] is_number.ensures((x,), nps[j]) by {
                    if j < k {
                        assert(nps[j] == ps[j]);
                    } else {
                        assert(nps[j] == p);
                    }
                }
                assert(edits_spec(b0, es, nps, k as int) == edits_spec(b0, es, ps, k as int)) by {
                    lemma_edits_prefix(b0, es, ps, nps, k as int);
                }
                ps = nps;
            }
            match &edits[k].0 {
                ColumnIdentifier::ExtendedTag(x) => {
                    let ghost before = names@;
                    names.push(copy_string(x));
                    assert(texts(names@) =~= texts(before).push(x@));
                },
                _ => {},
            }
            k = k + 1;
        }
        proof {
            lemma_edits_keep_id(b0, es, ps, edits@.len() as int);
        }
        self.books.set(pos, book);
        assert(self@.books =~= bs.update(pos as int, edits_spec(b0, es, ps, edits@.len() as int)));
        assert forall|i: int, j: int| 0 <= i < j < self@.books.len() implies #[trigger] self@.books[i].id
            != #[trigger] self@.books[j].id by {
            assert(bs[i].id != bs[j].id);
        }
        let ghost cols0 = self@.cols;
        self.insert_columns(&names);
        proof {
            assert(lookup(bs, id) == Some(b0));
            assert(texts(names@).len() == names@.len());
            assert(self@.cols == add_names(cols0, edited_names(es, edits@.len() as int), edited_names(es, edits@.len() as int).len() as int));
            assert(edits_view(edits@) == es);
            assert(ps.len() == edits@.len());
            assert(edits_spec(lookup(bs, id)->Some_0, edits_view(edits@), ps, edits@.len() as int)
                == edits_spec(b0, es, ps, edits@.len() as int));
            assert(self@.books == bs.update(
                find_id(bs, id, 0),
                edits_spec(lookup(bs, id)->Some_0, edits_view(edits@), ps, edits@.len() as int),
            ));
        }
        true
    }
}

proof fn lemma_edits_prefix(b: BookV, es: Seq<(ColumnV, EditV)>, ps: Seq<bool>, qs: Seq<bool>, n: int)
    requires
        0 <= n <= ps.len(),
        n <= qs.len(),
        forall|j: int| 0 <= j < n ==> ps[j] == qs[j],
    ensures
        edits_spec(b, es, ps, n) == edits_spec(b, es, qs, n),
    decreases n,
{
    if n > 0 {
        lemma_edits_prefix(b, es, ps, qs, n - 1);
    }
}

// ---------------------------------------------------------------------------
// Merging the books held
// ---------------------------------------------------------------------------

proof fn lemma_merged_ids(bs: Seq<BookV>, n: int)
    requires
        ids_distinct(bs),
        0 <= n <= bs.len(),
    ensures
        ids_distinct(similar_merged(bs, n)),
        forall|a: int|
            #![trigger similar_merged(bs, n)[a]]
            0 <= a < similar_merged(bs, n).len() ==> exists|i: int|
                0 <= i < n && #[trigger] bs[i].id == similar_merged(bs, n)[a].id,
    decreases n,
{
    if n > 0 {
        lemma_merged_ids(bs, n - 1);
        let pr = similar_merged(bs, n - 1);
        let r = similar_merged(bs, n);
        if merge_target(bs, n - 1) {
            let last = merged_into(bs, n - 1, bs.len() as int);
            lemma_merged_into_id(bs, n - 1, bs.len() as int);
            assert(r == pr.push(last));
            assert forall|a: int|
                #![trigger r[a]]
                0 <= a < r.len() implies exists|i: int| 0 <= i < n && #[trigger] bs[i].id == r[a].id by {
                if a < pr.len() {
                    assert(r[a] == pr[a]);
                    let i = choose|i: int| 0 <= i < n - 1 && #[trigger] bs[i].id == pr[a].id;
                    assert(bs[i].id == r[a].id);
                } else {
                    assert(bs[n - 1].id == r[a].id);
                }
            }
            assert forall|a: int, b: int| 0 <= a < b < r.len() implies #[trigger] r[a].id != #[trigger] r[b].id by {
                if b < pr.len() {
                    assert(r[a] == pr[a] && r[b] == pr[b]);
                } else {
                    assert(r[a] == pr[a]);
                    let i = choose|i: int| 0 <= i < n - 1 && #[trigger] bs[i].id == pr[a].id;
                    assert(bs[i].id != bs[n - 1].id);
                }
            }
        } else {
            assert(r == pr);
        }
    }
}

impl BookCache {
    /// Merges the books held that have the same title and authors (without regard to ASCII
    /// case) into the first of them (see `merge_similar`), and returns the merges made as
    /// (id merged into, id merged from).
    pub fn merge_similar_merge_ids(&mut self) -> (r: Vec<(i64, i64)>)
        requires
            old(self).wf(),
        ensures
            final(self).wf(),
            final(self)@.books == similar_merged(old(self)@.books, old(self)@.books.len() as int),
            r@ == similar_merges(old(self)@.books, old(self)@.books.len() as int),
            final(self)@.cols == old(self)@.cols,
    {
        let ghost bs = self@.books;
        let mut v: Vec<Book> = Vec::new();
        std::mem::swap(&mut v, &mut self.books);
        assert(books_view(v@) == bs);
        let (left, merges) = merge_similar(v);
        self.books = left;
        proof {
            lemma_merged_ids(bs, bs.len() as int);
        }
        merges
    }
}

// ---------------------------------------------------------------------------
// Laws of loading
// ---------------------------------------------------------------------------

proof fn lemma_unique_ids(ids: Seq<i64>, n: int)
    requires
        0 <= n <= ids.len(),
    ensures
        forall|a: int, b: int|
            0 <= a < b < unique_ids(ids, n).len() ==> #[trigger] unique_ids(ids, n)[a] != #[trigger] unique_ids(
                ids,
                n,
            )[b],
        forall|k: int| 0 <= k < n ==> unique_ids(ids, n).contains(#[trigger] ids[k]),
    decreases n,
{
    if n > 0 {
        lemma_unique_ids(ids, n - 1);
        let pu = unique_ids(ids, n - 1);
        let u = unique_ids(ids, n);
        if !pu.contains(ids[n - 1]) {
            assert(u == pu.push(ids[n - 1]));
            assert forall|a: int, b: int| 0 <= a < b < u.len() implies #[trigger] u[a] != #[trigger] u[b] by {
                if b == pu.len() {
                    assert(u[a] == pu[a]);
                    assert(pu.contains(pu[a]));
                } else {
                    assert(u[a] == pu[a] && u[b] == pu[b]);
                }
            }
            assert forall|k: int| 0 <= k < n implies u.contains(#[trigger] ids[k]) by {
                if k < n - 1 {
                    let j = choose|j: int| 0 <= j < pu.len() && pu[j] == ids[k];
                    assert(u[j] == ids[k]);
                } else {
                    assert(u[pu.len() as int] == ids[k]);
                }
            }
        }
    }
}

proof fn lemma_lookup_id(bs: Seq<BookV>, id: i64)
    ensures
        lookup(bs, id) matches Some(b) ==> b.id == id,
{
    lemma_find_id(bs, id, 0);
}

proof fn lemma_present_books(bs: Seq<BookV>, u: Seq<i64>, n: int)
    requires
        0 <= n <= u.len(),
        forall|a: int, b: int| 0 <= a < b < u.len() ==> #[trigger] u[a] != #[trigger] u[b],
    ensures
        forall|a: int|
            #![trigger present_books(bs, u, n)[a]]
            0 <= a < present_books(bs, u, n).len() ==> exists|j: int|
                0 <= j < n && #[trigger] u[j] == present_books(bs, u, n)[a].id,
        forall|a: int, b: int|
            0 <= a < b < present_books(bs, u, n).len() ==> #[trigger] present_books(bs, u, n)[a].id
                != #[trigger] present_books(bs, u, n)[b].id,
        forall|j: int|
            0 <= j < n && #[trigger] lookup(bs, u[j]) is Some ==> present_books(bs, u, n).contains(
                lookup(bs, u[j])->Some_0,
            ),
    decreases n,
{
    if n > 0 {
        lemma_present_books(bs, u, n - 1);
        let pr = present_books(bs, u, n - 1);
        let r = present_books(bs, u, n);
        lemma_lookup_id(bs, u[n - 1]);
        match lookup(bs, u[n - 1]) {
            Some(b) => {
                assert(r == pr.push(b));
                assert forall|a: int|
                    #![trigger r[a]]
                    0 <= a < r.len() implies exists|j: int| 0 <= j < n && #[trigger] u[j] == r[a].id by {
                    if a < pr.len() {
                        assert(r[a] == pr[a]);
                        let j = choose|j: int| 0 <= j < n - 1 && #[trigger] u[j] == pr[a].id;
                        assert(u[j] == r[a].id);
                    } else {
                        assert(u[n - 1] == r[a].id);
                    }
                }
                assert forall|a: int, c: int| 0 <= a < c < r.len() implies #[trigger] r[a].id != #[trigger] r[c].id by {
                    if c < pr.len() {
                        assert(r[a] == pr[a] && r[c] == pr[c]);
                    } else {
                        assert(r[a] == pr[a]);
                        let j = choose|j: int| 0 <= j < n - 1 && #[trigger] u[j] == pr[a].id;
                        assert(u[j] != u[n - 1]);
                    }
                }
                assert forall|j: int| 0 <= j < n && #[trigger] lookup(bs, u[j]) is Some implies r.contains(
                    lookup(bs, u[j])->Some_0,
                ) by {
                    if j < n - 1 {
                        let a = choose|a: int| 0 <= a < pr.len() && pr[a] == lookup(bs, u[j])->Some_0;
                        assert(r[a] == pr[a]);
                    } else {
                        assert(r[pr.len() as int] == b);
                    }
                }
            },
            None => {
                assert(r == pr);
            },
        }
    }
}

/// Loading gives each book once: no two books loaded have the same id, every book
/// loaded has a requested or fetched id, and each requested or fetched id that a book held
/// has gives that book.
pub proof fn lemma_loaded_books(ids: Seq<i64>, after: Seq<BookV>, fetched: Seq<BookV>)
    ensures
        forall|a: int, b: int|
            0 <= a < b < loaded_books(ids, after, fetched).len() ==> #[trigger] loaded_books(
                ids,
                after,
                fetched,
            )[a].id != #[trigger] loaded_books(ids, after, fetched)[b].id,
        forall|a: int|
            0 <= a < loaded_books(ids, after, fetched).len() ==> (ids + ids_of(fetched)).contains(
                #[trigger] loaded_books(ids, after, fetched)[a].id,
            ),
        forall|k: int|
            0 <= k < (ids + ids_of(fetched)).len() && #[trigger] lookup(after, (ids + ids_of(fetched))[k])
                is Some ==> loaded_books(ids, after, fetched).contains(
                lookup(after, (ids + ids_of(fetched))[k])->Some_0,
            ),
{
    let all = ids + ids_of(fetched);
    lemma_unique_ids(all, all.len() as int);
    let u = unique_ids(all, all.len() as int);
    lemma_unique_members(all, all.len() as int);
    lemma_present_books(after, u, u.len() as int);
    let r = present_books(after, u, u.len() as int);
    assert forall|a: int| 0 <= a < r.len() implies all.contains(#[trigger] r[a].id) by {
        let j = choose|j: int| 0 <= j < u.len() && #[trigger] u[j] == r[a].id;
        assert(all.contains(u[j]));
    }
    assert forall|k: int| 0 <= k < all.len() && #[trigger] lookup(after, all[k]) is Some implies r.contains(
        lookup(after, all[k])->Some_0,
    ) by {
        assert(u.contains(all[k]));
        let j = choose|j: int| 0 <= j < u.len() && u[j] == all[k];
        assert(lookup(after, u[j]) is Some);
    }
}

proof fn lemma_unique_members(ids: Seq<i64>, n: int)
    requires
        0 <= n <= ids.len(),
    ensures
        forall|a: int| 0 <= a < unique_ids(ids, n).len() ==> ids.contains(#[trigger] unique_ids(ids, n)[a]),
    decreases n,
{
    if n > 0 {
        lemma_unique_members(ids, n - 1);
        let pu = unique_ids(ids, n - 1);
        let u = unique_ids(ids, n);
        assert forall|a: int| 0 <= a < u.len() implies ids.contains(#[trigger] u[a]) by {
            if a < pu.len() {
                assert(u[a] == pu[a]);
            } else {
                assert(u[a] == ids[n - 1]);
            }
        }
    }
}

} // verus!
