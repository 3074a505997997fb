//! The SQL statements that write an edit of a book's column to the SQLite store: which
//! statement each column and edit takes, and the values bound to its parameters, in order.
use vstd::prelude::*;

use crate::records::{BookID, ColumnIdentifier, ColumnV, Edit, EditV};
use crate::text::copy_string;

verus! {

/// A value bound to a statement parameter.
#[derive(Debug)]
pub enum SqlValue {
    Int(i64),
    Text(String),
    /// The name of the series written in the text (`NULL` where the text is no series).
    SeriesName(String),
    /// The index of the series written in the text (`NULL` where it has none).
    SeriesIndex(String),
}

pub enum SqlValueV {
    Int(i64),
    Text(Seq<char>),
    SeriesName(Seq<char>),
    SeriesIndex(Seq<char>),
}

impl View for SqlValue {
    type V = SqlValueV;

    open spec fn view(&self) -> SqlValueV {
        match self {
            SqlValue::Int(i) => SqlValueV::Int(*i),
            SqlValue::Text(s) => SqlValueV::Text(s@),
            SqlValue::SeriesName(s) => SqlValueV::SeriesName(s@),
            SqlValue::SeriesIndex(s) => SqlValueV::SeriesIndex(s@),
        }
    }
}

/// A statement with the values for its parameters.
#[derive(Debug)]
pub struct EditStatement {
    pub sql: String,
    pub params: Vec<SqlValue>,
}

pub open spec fn params_view(v: Seq<SqlValue>) -> Seq<SqlValueV> {
    Seq::new(v.len(), |i: int| v[i]@)
}

/// Whether the edit can be written: the ID and the variants cannot be edited, and text
/// cannot be appended to a series.
pub open spec fn writable(col: ColumnV, edit: EditV) -> bool {
    match col {
        ColumnV::ID | ColumnV::Variants => false,
        ColumnV::Series => !(edit is Append),
        _ => true,
    }
}

/// The statement for an edit of column `col` of book `id`, and its bound values.
pub open spec fn edit_statement_spec(id: i64, col: ColumnV, edit: EditV) -> (Seq<char>, Seq<SqlValueV>) {
    let b = SqlValueV::Int(id);
    match edit {
        EditV::Delete => match col {
            ColumnV::Title => ("UPDATE books SET title = null WHERE book_id = ?;"@, seq![b]),
            ColumnV::Author => (
                "DELETE FROM multimap_tags where book_id = ? AND name = 'author';"@,
                seq![b],
            ),
            ColumnV::Series => (
                "UPDATE books SET series_name = null, series_id = null WHERE book_id = ?;"@,
                seq![b],
            ),
            ColumnV::Description => (
                "UPDATE variants SET description = null WHERE book_id = ?;"@,
                seq![b],
            ),
            ColumnV::ExtendedTag(name) => (
                "DELETE FROM named_tags where book_id = ? and name = ?;"@,
                seq![b, SqlValueV::Text(name)],
            ),
            ColumnV::ExactTag(tag) => (
                "DELETE FROM free_tags where book_id = ? AND value = ?;"@,
                seq![b, SqlValueV::Text(tag)],
            ),
            _ => ("DELETE FROM free_tags where book_id = ?;"@, seq![b]),
        },
        EditV::Replace(v) => match col {
            ColumnV::Title => (
                "UPDATE books SET title = ? WHERE book_id = ?;"@,
                seq![SqlValueV::Text(v), b],
            ),
            ColumnV::Author => (
                "INSERT INTO multimap_tags (name, value, book_id) VALUES('author', ?, ?);"@,
                seq![SqlValueV::Text(v), b],
            ),
            ColumnV::Series => (
                "UPDATE books SET series_name = ?, series_id = ? WHERE book_id = ?"@,
                seq![SqlValueV::SeriesName(v), SqlValueV::SeriesIndex(v), b],
            ),
            ColumnV::Description => (
                "UPDATE variants SET description = ? WHERE book_id = ?"@,
                seq![SqlValueV::Text(v), b],
            ),
            ColumnV::ExtendedTag(name) => (
                "INSERT into named_tags (name, value, book_id) VALUES(?, ?, ?)"@,
                seq![SqlValueV::Text(name), SqlValueV::Text(v), b],
            ),
            ColumnV::ExactTag(tag) => (
                "DELETE FROM free_tags WHERE value = ? AND book_id = ?; INSERT into free_tags (value, book_id) VALUES(?, ?)"@,
                seq![SqlValueV::Text(tag), b, SqlValueV::Text(v), b],
            ),
            _ => ("INSERT into free_tags (value, book_id) VALUES(?, ?)"@, seq![SqlValueV::Text(v), b]),
        },
        EditV::Append(v) => match col {
            ColumnV::Title => (
                "UPDATE books SET title = title || ? WHERE book_id = ?;"@,
                seq![SqlValueV::Text(v), b],
            ),
            ColumnV::Author => (
                "INSERT INTO multimap_tags (name, value, book_id) VALUES('author', ?, ?);"@,
                seq![SqlValueV::Text(v), b],
            ),
            ColumnV::Description => (
                "UPDATE variants SET description = description || ? WHERE book_id = ?"@,
                seq![SqlValueV::Text(v), b],
            ),
            ColumnV::ExtendedTag(name) => (
                "INSERT OR REPLACE INTO named_tags (name, value, book_id) VALUES(?, COALESCE((SELECT value from named_tags where name = ? AND book_id = ?), '') || ?, ?)"@,
                seq![SqlValueV::Text(name), SqlValueV::Text(name), b, SqlValueV::Text(v), b],
            ),
            ColumnV::ExactTag(tag) => (
                "DELETE FROM free_tags where value = ? AND book_id = ?; INSERT into free_tags (value, book_id) VALUES(?, ?)"@,
                seq![SqlValueV::Text(tag), b, SqlValueV::Text(tag + v), b],
            ),
            _ => ("INSERT into free_tags (value, book_id) VALUES(?, ?)"@, seq![SqlValueV::Text(v), b]),
        },
    }
}

fn text(s: &String) -> (r: SqlValue)
    ensures
        r@ == SqlValueV::Text(s@),
{
    SqlValue::Text(copy_string(s))
}

fn statement(sql: &str, params: Vec<SqlValue>) -> (r: EditStatement)
    ensures
        r.sql@ == sql@,
        params_view(r.params@) == params_view(params@),
{
    EditStatement { sql: sql.to_string(), params }
}

/// The statement that writes `edit` of `column` to book `id`.
pub fn edit_statement(id: BookID, column: &ColumnIdentifier, edit: &Edit) -> (r: EditStatement)
    requires
        writable(column@, edit@),
    ensures
        (r.sql@, params_view(r.params@)) == edit_statement_spec(id as i64, column@, edit@),
{
    let book_id = id as i64;
    let b = SqlValue::Int(book_id);
    let r = match edit {
        Edit::Delete => match column {
            ColumnIdentifier::Title => statement(
                "UPDATE books SET title = null WHERE book_id = ?;",
                vec![b],
            ),
            ColumnIdentifier::Author => statement(
                "DELETE FROM multimap_tags where book_id = ? AND name = 'author';",
                vec![b],
            ),
            ColumnIdentifier::Series => statement(
                "UPDATE books SET series_name = null, series_id = null WHERE book_id = ?;",
                vec![b],
            ),
            ColumnIdentifier::Description => statement(
                "UPDATE variants SET description = null WHERE book_id = ?;",
                vec![b],
            ),
            ColumnIdentifier::ExtendedTag(name) => statement(
                "DELETE FROM named_tags where book_id = ? and name = ?;",
                vec![b, text(name)],
            ),
            ColumnIdentifier::ExactTag(tag) => statement(
                "DELETE FROM free_tags where book_id = ? AND value = ?;",
                vec![b, text(tag)],
            ),
            _ => statement("DELETE FROM free_tags where book_id = ?;", vec![b]),
        },
        Edit::Replace(v) => match column {
            ColumnIdentifier::Title => statement(
                "UPDATE books SET title = ? WHERE book_id = ?;",
                vec![text(v), b],
            ),
            ColumnIdentifier::Author => statement(
                "INSERT INTO multimap_tags (name, value, book_id) VALUES('author', ?, ?);",
                vec![text(v), b],
            ),
            ColumnIdentifier::Series => statement(
                "UPDATE books SET series_name = ?, series_id = ? WHERE book_id = ?",
                vec![SqlValue::SeriesName(copy_string(v)), SqlValue::SeriesIndex(copy_string(v)), b],
            ),
            ColumnIdentifier::Description => statement(
                "UPDATE variants SET description = ? WHERE book_id = ?",
                vec![text(v), b],
            ),
            ColumnIdentifier::ExtendedTag(name) => statement(
                "INSERT into named_tags (name, value, book_id) VALUES(?, ?, ?)",
                vec![text(name), text(v), b],
            ),
            ColumnIdentifier::ExactTag(tag) => statement(
                "DELETE FROM free_tags WHERE value = ? AND book_id = ?; INSERT into free_tags (value, book_id) VALUES(?, ?)",
                vec![text(tag), b, text(v), SqlValue::Int(book_id)],
            ),
            _ => statement(
                "INSERT into free_tags (value, book_id) VALUES(?, ?)",
                vec![text(v), b],
            ),
        },
        Edit::Append(v) => match column {
            ColumnIdentifier::Title => statement(
                "UPDATE books SET title = title || ? WHERE book_id = ?;",
                vec![text(v), b],
            ),
            ColumnIdentifier::Author => statement(
                "INSERT INTO multimap_tags (name, value, book_id) VALUES('author', ?, ?);",
                vec![text(v), b],
            ),
            ColumnIdentifier::Description => statement(
                "UPDATE variants SET description = description || ? WHERE book_id = ?",
                vec![text(v), b],
            ),
            ColumnIdentifier::ExtendedTag(name) => statement(
                "INSERT OR REPLACE INTO named_tags (name, value, book_id) VALUES(?, COALESCE((SELECT value from named_tags where name = ? AND book_id = ?), '') || ?, ?)",
                vec![text(name), text(name), b, text(v), SqlValue::Int(book_id)],
            ),
            ColumnIdentifier::ExactTag(tag) => {
                let mut joined = copy_string(tag);
                joined.append(v.as_str());
                statement(
                    "DELETE FROM free_tags where value = ? AND book_id = ?; INSERT into free_tags (value, book_id) VALUES(?, ?)",
                    vec![text(tag), b, SqlValue::Text(joined), SqlValue::Int(book_id)],
                )
            },
            _ => statement(
                "INSERT into free_tags (value, book_id) VALUES(?, ?)",
                vec![text(v), b],
            ),
        },
    };
    r
}

/// The statements that write each edit in turn to book `id`.
pub fn edit_statements(id: BookID, edits: &Vec<(ColumnIdentifier, Edit)>) -> (r: Vec<EditStatement>)
    requires
        forall|i: int| 0 <= i < edits@.len() ==> writable(#[trigger] edits@[i].0@, edits@[i].1@),
    ensures
        r@.len() == edits@.len(),
        forall|i: int|
            0 <= i < edits@.len() ==> (#[trigger] r@[i].sql@, params_view(r@[i].params@))
                == edit_statement_spec(id as i64, edits@[i].0@, edits@[i].1@),
{
    let mut r: Vec<EditStatement> = Vec::new();
    let mut i: usize = 0;
    while i < edits.len()
        invariant
            i <= edits@.len(),
            r@.len() == i,
            forall|j: int| 0 <= j < edits@.len() ==> writable(#[trigger] edits@[j].0@, edits@[j].1@),
            forall|j: int|
                0 <= j < i ==> (#[trigger] r@[j].sql@, params_view(r@[j].params@))
                    == edit_statement_spec(id as i64, edits@[j].0@, edits@[j].1@),
        decreases edits.len() - i,
    {
        let s = edit_statement(id, &edits[i].0, &edits[i].1);
        r.push(s);
        i = i + 1;
    }
    r
}

} // verus!

verus! {

// ---------------------------------------------------------------------------
// Parameter marks
// ---------------------------------------------------------------------------

/// The number of parameter marks (`?`) in a statement.
pub open spec fn marks(s: Seq<char>) -> nat
    decreases s.len(),
{
    if s.len() == 0 {
        0
    } else {
        marks(s.drop_last()) + if s.last() == '?' {
            1nat
        } else {
            0nat
        }
    }
}

proof fn lemma_marks_concat(a: Seq<char>, b: Seq<char>)
    ensures
        marks(a + b) == marks(a) + marks(b),
    decreases b.len(),
{
    if b.len() > 0 {
        lemma_marks_concat(a, b.drop_last());
        assert((a + b).drop_last() =~= a + b.drop_last());
    } else {
        assert(a + b =~= a);
    }
}

/// A text without a mark has none.
proof fn lemma_no_marks(s: Seq<char>)
    requires
        forall|i: int| 0 <= i < s.len() ==> s[i] != '?',
    ensures
        marks(s) == 0,
    decreases s.len(),
{
    if s.len() > 0 {
        lemma_no_marks(s.drop_last());
    }
}

/// A text followed by a mark and a text without marks has one mark more.
proof fn lemma_mark_then(a: Seq<char>, b: Seq<char>)
    requires
        forall|i: int| 0 <= i < b.len() ==> b[i] != '?',
    ensures
        marks(a + seq!['?'] + b) == marks(a) + 1,
{
    lemma_no_marks(b);
    lemma_marks_concat(a, seq!['?']);
    lemma_marks_concat(a + seq!['?'], b);
    assert(seq!['?'].drop_last() =~= Seq::<char>::empty());
    assert(marks(Seq::<char>::empty()) == 0);
    assert(marks(seq!['?']) == 1);
}

proof fn lemma_marks_clear_title()
    ensures
        marks("UPDATE books SET title = null WHERE book_id = ?;"@) == 1,
{
    reveal_strlit("UPDATE books SET title = null WHERE book_id = ?;");
    reveal_strlit("UPDATE books SET title = null WHERE book_id = ");
    reveal_strlit(";");
    let p0 = "UPDATE books SET title = null WHERE book_id = "@;
    assert forall|i: int| 0 <= i < p0.len() implies p0[i] != '?' by {}
    let p1 = ";"@;
    assert forall|i: int| 0 <= i < p1.len() implies p1[i] != '?' by {}
    lemma_no_marks(p0);
    lemma_mark_then(p0, p1);
    assert("UPDATE books SET title = null WHERE book_id = ?;"@ =~= p0 + seq!['?'] + p1);
}

proof fn lemma_marks_delete_authors()
    ensures
        marks("DELETE FROM multimap_tags where book_id = ? AND name = 'author';"@) == 1,
{
    reveal_strlit("DELETE FROM multimap_tags where book_id = ? AND name = 'author';");
    reveal_strlit("DELETE FROM multimap_tags where book_id = ");
    reveal_strlit(" AND name = 'author';");
    let p0 = "DELETE FROM multimap_tags where book_id = "@;
    assert forall|i: int| 0 <= i < p0.len() implies p0[i] != '?' by {}
    let p1 = " AND name = 'author';"@;
    assert forall|i: int| 0 <= i < p1.len() implies p1[i] != '?' by {}
    lemma_no_marks(p0);
    lemma_mark_then(p0, p1);
    assert("DELETE FROM multimap_tags where book_id = ? AND name = 'author';"@ =~= p0 + seq!['?'] + p1);
}

proof fn lemma_marks_clear_series()
    ensures
        marks("UPDATE books SET series_name = null, series_id = null WHERE book_id = ?;"@) == 1,
{
    reveal_strlit("UPDATE books SET series_name = null, series_id = null WHERE book_id = ?;");
    reveal_strlit("UPDATE books SET series_name = null, series_id = null WHERE book_id = ");
    reveal_strlit(";");
    let p0 = "UPDATE books SET series_name = null, series_id = null WHERE book_id = "@;
    assert forall|i: int| 0 <= i < p0.len() implies p0[i] != '?' by {}
    let p1 = ";"@;
    assert forall|i: int| 0 <= i < p1.len() implies p1[i] != '?' by {}
    lemma_no_marks(p0);
    lemma_mark_then(p0, p1);
    assert("UPDATE books SET series_name = null, series_id = null WHERE book_id = ?;"@ =~= p0 + seq!['?'] + p1);
}

proof fn lemma_marks_clear_description()
    ensures
        marks("UPDATE variants SET description = null WHERE book_id = ?;"@) == 1,
{
    reveal_strlit("UPDATE variants SET description = null WHERE book_id = ?;");
    reveal_strlit("UPDATE variants SET description = null WHERE book_id = ");
    reveal_strlit(";");
    let p0 = "UPDATE variants SET description = null WHERE book_id = "@;
    assert forall|i: int| 0 <= i < p0.len() implies p0[i] != '?' by {}
    let p1 = ";"@;
    assert forall|i: int| 0 <= i < p1.len() implies p1[i] != '?' by {}
    lemma_no_marks(p0);
    lemma_mark_then(p0, p1);
    assert("UPDATE variants SET description = null WHERE book_id = ?;"@ =~= p0 + seq!['?'] + p1);
}

proof fn lemma_marks_delete_named_tag()
    ensures
        marks("DELETE FROM named_tags where book_id = ? and name = ?;"@) == 2,
{
    reveal_strlit("DELETE FROM named_tags where book_id = ? and name = ?;");
    reveal_strlit("DELETE FROM named_tags where book_id = ");
    reveal_strlit(" and name = ");
    reveal_strlit(";");
    let p0 = "DELETE FROM named_tags where book_id = "@;
    assert forall|i: int| 0 <= i < p0.len() implies p0[i] != '?' by {}
    let p1 = " and name = "@;
    assert forall|i: int| 0 <= i < p1.len() implies p1[i] != '?' by {}
    let p2 = ";"@;
    assert forall|i: int| 0 <= i < p2.len() implies p2[i] != '?' by {}
    lemma_no_marks(p0);
    lemma_mark_then(p0, p1);
    lemma_mark_then(p0 + seq!['?'] + p1, p2);
    assert("DELETE FROM named_tags where book_id = ? and name = ?;"@ =~= p0 + seq!['?'] + p1 + seq!['?'] + p2);
}

proof fn lemma_marks_delete_exact_tag()
    ensures
        marks("DELETE FROM free_tags where book_id = ? AND value = ?;"@) == 2,
{
    reveal_strlit("DELETE FROM free_tags where book_id = ? AND value = ?;");
    reveal_strlit("DELETE FROM free_tags where book_id = ");
    reveal_strlit(" AND value = ");
    reveal_strlit(";");
    let p0 = "DELETE FROM free_tags where book_id = "@;
    assert forall|i: int| 0 <= i < p0.len() implies p0[i] != '?' by {}
    let p1 = " AND value = "@;
    assert forall|i: int| 0 <= i < p1.len() implies p1[i] != '?' by {}
    let p2 = ";"@;
    assert forall|i: int| 0 <= i < p2.len() implies p2[i] != '?' by {}
    lemma_no_marks(p0);
    lemma_mark_then(p0, p1);
    lemma_mark_then(p0 + seq!['?'] + p1, p2);
    assert("DELETE FROM free_tags where book_id = ? AND value = ?;"@ =~= p0 + seq!['?'] + p1 + seq!['?'] + p2);
}

proof fn lemma_marks_delete_tags()
    ensures
        marks("DELETE FROM free_tags where book_id = ?;"@) == 1,
{
    reveal_strlit("DELETE FROM free_tags where book_id = ?;");
    reveal_strlit("DELETE FROM free_tags where book_id = ");
    reveal_strlit(";");
    let p0 = "DELETE FROM free_tags where book_id = "@;
    assert forall|i: int| 0 <= i < p0.len() implies p0[i] != '?' by {}
    let p1 = ";"@;
    assert forall|i: int| 0 <= i < p1.len() implies p1[i] != '?' by {}
    lemma_no_marks(p0);
    lemma_mark_then(p0, p1);
    assert("DELETE FROM free_tags where book_id = ?;"@ =~= p0 + seq!['?'] + p1);
}

proof fn lemma_marks_set_title()
    ensures
        marks("UPDATE books SET title = ? WHERE book_id = ?;"@) == 2,
{
    reveal_strlit("UPDATE books SET title = ? WHERE book_id = ?;");
    reveal_strlit("UPDATE books SET title = ");
    reveal_strlit(" WHERE book_id = ");
    reveal_strlit(";");
    let p0 = "UPDATE books SET title = "@;
    assert forall|i: int| 0 <= i < p0.len() implies p0[i] != '?' by {}
    let p1 = " WHERE book_id = "@;
    assert forall|i: int| 0 <= i < p1.len() implies p1[i] != '?' by {}
    let p2 = ";"@;
    assert forall|i: int| 0 <= i < p2.len() implies p2[i] != '?' by {}
    lemma_no_marks(p0);
    lemma_mark_then(p0, p1);
    lemma_mark_then(p0 + seq!['?'] + p1, p2);
    assert("UPDATE books SET title = ? WHERE book_id = ?;"@ =~= p0 + seq!['?'] + p1 + seq!['?'] + p2);
}

proof fn lemma_marks_add_author()
    ensures
        marks("INSERT INTO multimap_tags (name, value, book_id) VALUES('author', ?, ?);"@) == 2,
{
    reveal_strlit("INSERT INTO multimap_tags (name, value, book_id) VALUES('author', ?, ?);");
    reveal_strlit("INSERT INTO multimap_tags (name, value, book_id) VALUES('author', ");
    reveal_strlit(", ");
    reveal_strlit(");");
    let p0 = "INSERT INTO multimap_tags (name, value, book_id) VALUES('author', "@;
    assert forall|i: int| 0 <= i < p0.len() implies p0[i] != '?' by {}
    let p1 = ", "@;
    assert forall|i: int| 0 <= i < p1.len() implies p1[i] != '?' by {}
    let p2 = ");"@;
    assert forall|i: int| 0 <= i < p2.len() implies p2[i] != '?' by {}
    lemma_no_marks(p0);
    lemma_mark_then(p0, p1);
    lemma_mark_then(p0 + seq!['?'] + p1, p2);
    assert("INSERT INTO multimap_tags (name, value, book_id) VALUES('author', ?, ?);"@ =~= p0 + seq!['?'] + p1 + seq!['?'] + p2);
}

proof fn lemma_marks_set_series()
    ensures
        marks("UPDATE books SET series_name = ?, series_id = ? WHERE book_id = ?"@) == 3,
{
    reveal_strlit("UPDATE books SET series_name = ?, series_id = ? WHERE book_id = ?");
    reveal_strlit("UPDATE books SET series_name = ");
    reveal_strlit(", series_id = ");
    reveal_strlit(" WHERE book_id = ");
    let p0 = "UPDATE books SET series_name = "@;
    assert forall|i: int| 0 <= i < p0.len() implies p0[i] != '?' by {}
    let p1 = ", series_id = "@;
    assert forall|i: int| 0 <= i < p1.len() implies p1[i] != '?' by {}
    let p2 = " WHERE book_id = "@;
    assert forall|i: int| 0 <= i < p2.len() implies p2[i] != '?' by {}
    let p3 = Seq::<char>::empty();
    assert forall|i: int| 0 <= i < p3.len() implies p3[i] != '?' by {}
    lemma_no_marks(p0);
    lemma_mark_then(p0, p1);
    lemma_mark_then(p0 + seq!['?'] + p1, p2);
    lemma_mark_then(p0 + seq!['?'] + p1 + seq!['?'] + p2, p3);
    assert("UPDATE books SET series_name = ?, series_id = ? WHERE book_id = ?"@ =~= p0 + seq!['?'] + p1 + seq!['?'] + p2 + seq!['?'] + p3);
}

proof fn lemma_marks_set_description()
    ensures
        marks("UPDATE variants SET description = ? WHERE book_id = ?"@) == 2,
{
    reveal_strlit("UPDATE variants SET description = ? WHERE book_id = ?");
    reveal_strlit("UPDATE variants SET description = ");
    reveal_strlit(" WHERE book_id = ");
    let p0 = "UPDATE variants SET description = "@;
    assert forall|i: int| 0 <= i < p0.len() implies p0[i] != '?' by {}
    let p1 = " WHERE book_id = "@;
    assert forall|i: int| 0 <= i < p1.len() implies p1[i] != '?' by {}
    let p2 = Seq::<char>::empty();
    assert forall|i: int| 0 <= i < p2.len() implies p2[i] != '?' by {}
    lemma_no_marks(p0);
    lemma_mark_then(p0, p1);
    lemma_mark_then(p0 + seq!['?'] + p1, p2);
    assert("UPDATE variants SET description = ? WHERE book_id = ?"@ =~= p0 + seq!['?'] + p1 + seq!['?'] + p2);
}

proof fn lemma_marks_add_named_tag()
    ensures
        marks("INSERT into named_tags (name, value, book_id) VALUES(?, ?, ?)"@) == 3,
{
    reveal_strlit("INSERT into named_tags (name, value, book_id) VALUES(?, ?, ?)");
    reveal_strlit("INSERT into named_tags (name, value, book_id) VALUES(");
    reveal_strlit(", ");
    reveal_strlit(")");
    let p0 = "INSERT into named_tags (name, value, book_id) VALUES("@;
    assert forall|i: int| 0 <= i < p0.len() implies p0[i] != '?' by {}
    let p1 = ", "@;
    assert forall|i: int| 0 <= i < p1.len() implies p1[i] != '?' by {}
    let p2 = ", "@;
    assert forall|i: int| 0 <= i < p2.len() implies p2[i] != '?' by {}
    let p3 = ")"@;
    assert forall|i: int| 0 <= i < p3.len() implies p3[i] != '?' by {}
    lemma_no_marks(p0);
    lemma_mark_then(p0, p1);
    lemma_mark_then(p0 + seq!['?'] + p1, p2);
    lemma_mark_then(p0 + seq!['?'] + p1 + seq!['?'] + p2, p3);
    assert("INSERT into named_tags (name, value, book_id) VALUES(?, ?, ?)"@ =~= p0 + seq!['?'] + p1 + seq!['?'] + p2 + seq!['?'] + p3);
}

proof fn lemma_marks_replace_exact_tag()
    ensures
        marks("DELETE FROM free_tags WHERE value = ? AND book_id = ?; INSERT into free_tags (value, book_id) VALUES(?, ?)"@) == 4,
{
    reveal_strlit("DELETE FROM free_tags WHERE value = ? AND book_id = ?; INSERT into free_tags (value, book_id) VALUES(?, ?)");
    reveal_strlit("DELETE FROM free_tags WHERE value = ");
    reveal_strlit(" AND book_id = ");
    reveal_strlit("; INSERT into free_tags (value, book_id) VALUES(");
    reveal_strlit(", ");
    reveal_strlit(")");
    let p0 = "DELETE FROM free_tags WHERE value = "@;
    assert forall|i: int| 0 <= i < p0.len() implies p0[i] != '?' by {}
    let p1 = " AND book_id = "@;
    assert forall|i: int| 0 <= i < p1.len() implies p1[i] != '?' by {}
    let p2 = "; INSERT into free_tags (value, book_id) VALUES("@;
    assert forall|i: int| 0 <= i < p2.len() implies p2[i] != '?' by {}
    let p3 = ", "@;
    assert forall|i: int| 0 <= i < p3.len() implies p3[i] != '?' by {}
    let p4 = ")"@;
    assert forall|i: int| 0 <= i < p4.len() implies p4[i] != '?' by {}
    lemma_no_marks(p0);
    lemma_mark_then(p0, p1);
    lemma_mark_then(p0 + seq!['?'] + p1, p2);
    lemma_mark_then(p0 + seq!['?'] + p1 + seq!['?'] + p2, p3);
    lemma_mark_then(p0 + seq!['?'] + p1 + seq!['?'] + p2 + seq!['?'] + p3, p4);
    assert("DELETE FROM free_tags WHERE value = ? AND book_id = ?; INSERT into free_tags (value, book_id) VALUES(?, ?)"@ =~= p0 + seq!['?'] + p1 + seq!['?'] + p2 + seq!['?'] + p3 + seq!['?'] + p4);
}

proof fn lemma_marks_add_tag()
    ensures
        marks("INSERT into free_tags (value, book_id) VALUES(?, ?)"@) == 2,
{
    reveal_strlit("INSERT into free_tags (value, book_id) VALUES(?, ?)");
    reveal_strlit("INSERT into free_tags (value, book_id) VALUES(");
    reveal_strlit(", ");
    reveal_strlit(")");
    let p0 = "INSERT into free_tags (value, book_id) VALUES("@;
    assert forall|i: int| 0 <= i < p0.len() implies p0[i] != '?' by {}
    let p1 = ", "@;
    assert forall|i: int| 0 <= i < p1.len() implies p1[i] != '?' by {}
    let p2 = ")"@;
    assert forall|i: int| 0 <= i < p2.len() implies p2[i] != '?' by {}
    lemma_no_marks(p0);
    lemma_mark_then(p0, p1);
    lemma_mark_then(p0 + seq!['?'] + p1, p2);
    assert("INSERT into free_tags (value, book_id) VALUES(?, ?)"@ =~= p0 + seq!['?'] + p1 + seq!['?'] + p2);
}

proof fn lemma_marks_append_title()
    ensures
        marks("UPDATE books SET title = title || ? WHERE book_id = ?;"@) == 2,
{
    reveal_strlit("UPDATE books SET title = title || ? WHERE book_id = ?;");
    reveal_strlit("UPDATE books SET title = title || ");
    reveal_strlit(" WHERE book_id = ");
    reveal_strlit(";");
    let p0 = "UPDATE books SET title = title || "@;
    assert forall|i: int| 0 <= i < p0.len() implies p0[i] != '?' by {}
    let p1 = " WHERE book_id = "@;
    assert forall|i: int| 0 <= i < p1.len() implies p1[i] != '?' by {}
    let p2 = ";"@;
    assert forall|i: int| 0 <= i < p2.len() implies p2[i] != '?' by {}
    lemma_no_marks(p0);
    lemma_mark_then(p0, p1);
    lemma_mark_then(p0 + seq!['?'] + p1, p2);
    assert("UPDATE books SET title = title || ? WHERE book_id = ?;"@ =~= p0 + seq!['?'] + p1 + seq!['?'] + p2);
}

proof fn lemma_marks_append_description()
    ensures
        marks("UPDATE variants SET description = description || ? WHERE book_id = ?"@) == 2,
{
    reveal_strlit("UPDATE variants SET description = description || ? WHERE book_id = ?");
    reveal_strlit("UPDATE variants SET description = description || ");
    reveal_strlit(" WHERE book_id = ");
    let p0 = "UPDATE variants SET description = description || "@;
    assert forall|i: int| 0 <= i < p0.len() implies p0[i] != '?' by {}
    let p1 = " WHERE book_id = "@;
    assert forall|i: int| 0 <= i < p1.len() implies p1[i] != '?' by {}
    let p2 = Seq::<char>::empty();
    assert forall|i: int| 0 <= i < p2.len() implies p2[i] != '?' by {}
    lemma_no_marks(p0);
    lemma_mark_then(p0, p1);
    lemma_mark_then(p0 + seq!['?'] + p1, p2);
    assert("UPDATE variants SET description = description || ? WHERE book_id = ?"@ =~= p0 + seq!['?'] + p1 + seq!['?'] + p2);
}

proof fn lemma_marks_append_named_tag()
    ensures
        marks("INSERT OR REPLACE INTO named_tags (name, value, book_id) VALUES(?, COALESCE((SELECT value from named_tags where name = ? AND book_id = ?), '') || ?, ?)"@) == 5,
{
    reveal_strlit("INSERT OR REPLACE INTO named_tags (name, value, book_id) VALUES(?, COALESCE((SELECT value from named_tags where name = ? AND book_id = ?), '') || ?, ?)");
    reveal_strlit("INSERT OR REPLACE INTO named_tags (name, value, book_id) VALUES(");
    reveal_strlit(", COALESCE((SELECT value from named_tags where name = ");
    reveal_strlit(" AND book_id = ");
    reveal_strlit("), '') || ");
    reveal_strlit(", ");
    reveal_strlit(")");
    let p0 = "INSERT OR REPLACE INTO named_tags (name, value, book_id) VALUES("@;
    assert forall|i: int| 0 <= i < p0.len() implies p0[i] != '?' by {}
    let p1 = ", COALESCE((SELECT value from named_tags where name = "@;
    assert forall|i: int| 0 <= i < p1.len() implies p1[i] != '?' by {}
    let p2 = " AND book_id = "@;
    assert forall|i: int| 0 <= i < p2.len() implies p2[i] != '?' by {}
    let p3 = "), '') || "@;
    assert forall|i: int| 0 <= i < p3.len() implies p3[i] != '?' by {}
    let p4 = ", "@;
    assert forall|i: int| 0 <= i < p4.len() implies p4[i] != '?' by {}
    let p5 = ")"@;
    assert forall|i: int| 0 <= i < p5.len() implies p5[i] != '?' by {}
    lemma_no_marks(p0);
    lemma_mark_then(p0, p1);
    lemma_mark_then(p0 + seq!['?'] + p1, p2);
    lemma_mark_then(p0 + seq!['?'] + p1 + seq!['?'] + p2, p3);
    lemma_mark_then(p0 + seq!['?'] + p1 + seq!['?'] + p2 + seq!['?'] + p3, p4);
    lemma_mark_then(p0 + seq!['?'] + p1 + seq!['?'] + p2 + seq!['?'] + p3 + seq!['?'] + p4, p5);
    assert("INSERT OR REPLACE INTO named_tags (name, value, book_id) VALUES(?, COALESCE((SELECT value from named_tags where name = ? AND book_id = ?), '') || ?, ?)"@ =~= p0 + seq!['?'] + p1 + seq!['?'] + p2 + seq!['?'] + p3 + seq!['?'] + p4 + seq!['?'] + p5);
}

proof fn lemma_marks_append_exact_tag()
    ensures
        marks("DELETE FROM free_tags where value = ? AND book_id = ?; INSERT into free_tags (value, book_id) VALUES(?, ?)"@) == 4,
{
    reveal_strlit("DELETE FROM free_tags where value = ? AND book_id = ?; INSERT into free_tags (value, book_id) VALUES(?, ?)");
    reveal_strlit("DELETE FROM free_tags where value = ");
    reveal_strlit(" AND book_id = ");
    reveal_strlit("; INSERT into free_tags (value, book_id) VALUES(");
    reveal_strlit(", ");
    reveal_strlit(")");
    let p0 = "DELETE FROM free_tags where value = "@;
    assert forall|i: int| 0 <= i < p0.len() implies p0[i] != '?' by {}
    let p1 = " AND book_id = "@;
    assert forall|i: int| 0 <= i < p1.len() implies p1[i] != '?' by {}
    let p2 = "; INSERT into free_tags (value, book_id) VALUES("@;
    assert forall|i: int| 0 <= i < p2.len() implies p2[i] != '?' by {}
    let p3 = ", "@;
    assert forall|i: int| 0 <= i < p3.len() implies p3[i] != '?' by {}
    let p4 = ")"@;
    assert forall|i: int| 0 <= i < p4.len() implies p4[i] != '?' by {}
    lemma_no_marks(p0);
    lemma_mark_then(p0, p1);
    lemma_mark_then(p0 + seq!['?'] + p1, p2);
    lemma_mark_then(p0 + seq!['?'] + p1 + seq!['?'] + p2, p3);
    lemma_mark_then(p0 + seq!['?'] + p1 + seq!['?'] + p2 + seq!['?'] + p3, p4);
    assert("DELETE FROM free_tags where value = ? AND book_id = ?; INSERT into free_tags (value, book_id) VALUES(?, ?)"@ =~= p0 + seq!['?'] + p1 + seq!['?'] + p2 + seq!['?'] + p3 + seq!['?'] + p4);
}

/// Each statement carries one value for each parameter mark (`?`) in it.
pub proof fn lemma_statement_binds_every_mark(id: i64, col: ColumnV, edit: EditV)
    requires
        writable(col, edit),
    ensures
        marks(edit_statement_spec(id, col, edit).0) == edit_statement_spec(id, col, edit).1.len(),
{
    lemma_marks_clear_title();
    lemma_marks_delete_authors();
    lemma_marks_clear_series();
    lemma_marks_clear_description();
    lemma_marks_delete_named_tag();
    lemma_marks_delete_exact_tag();
    lemma_marks_delete_tags();
    lemma_marks_set_title();
    lemma_marks_add_author();
    lemma_marks_set_series();
    lemma_marks_set_description();
    lemma_marks_add_named_tag();
    lemma_marks_replace_exact_tag();
    lemma_marks_add_tag();
    lemma_marks_append_title();
    lemma_marks_append_description();
    lemma_marks_append_named_tag();
    lemma_marks_append_exact_tag();
}

} // verus!
