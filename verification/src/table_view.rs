use vstd::prelude::*;

use crate::records::{column_of, ColumnIdentifier};
use crate::text::copy_string;

verus! {

/// Whether `unicase::eq` finds two names equal without regard to case (by Unicode case
/// folding).
pub uninterp spec fn caseless_eq(a: Seq<char>, b: Seq<char>) -> bool;

/// `unicase::eq`: equality without regard to case. Equal texts are equal without regard to
/// case too (`UniCase` implements `Eq`); otherwise the result is named, not stated.
#[verifier::external_body]
pub(crate) fn same_name(a: &str, b: &str) -> (r: bool)
    ensures
        r == caseless_eq(a@, b@),
        a@ == b@ ==> r,
{
    unicase::eq(a, b)
}

pub open spec fn names_view(v: Seq<String>) -> Seq<Seq<char>> {
    Seq::new(v.len(), |i: int| v[i]@)
}

/// No two names are equal without regard to case.
pub open spec fn distinct_names(v: Seq<Seq<char>>) -> bool {
    forall|i: int, j: int| 0 <= i < j < v.len() ==> !caseless_eq(#[trigger] v[i], #[trigger] v[j])
}

/// `v` without the names equal to `name` without regard to case, in order.
pub open spec fn without_name(v: Seq<Seq<char>>, name: Seq<char>) -> Seq<Seq<char>>
    decreases v.len(),
{
    if v.len() == 0 {
        Seq::empty()
    } else if caseless_eq(v.last(), name) {
        without_name(v.drop_last(), name)
    } else {
        without_name(v.drop_last(), name).push(v.last())
    }
}

/// The columns a table shows, and the text of each column for the books shown.
pub struct TableView {
    selected_cols: Vec<String>,
    column_data: Vec<Vec<String>>,
}

pub open spec fn data_view(v: Seq<Vec<String>>) -> Seq<Seq<Seq<char>>> {
    Seq::new(v.len(), |i: int| names_view(v[i]@))
}

pub ghost struct TableV {
    pub columns: Seq<Seq<char>>,
    pub data: Seq<Seq<Seq<char>>>,
}

impl View for TableView {
    type V = TableV;

    closed spec fn view(&self) -> TableV {
        TableV { columns: names_view(self.selected_cols@), data: data_view(self.column_data@) }
    }
}

impl Default for TableView {
    fn default() -> (r: TableView)
        ensures
            r@.columns.len() == 0,
            r@.data.len() == 0,
    {
        TableView { selected_cols: Vec::new(), column_data: Vec::new() }
    }
}

impl TableView {
    /// A table showing the given columns, with no data yet.
    pub fn from_columns(selected_cols: Vec<String>) -> (r: TableView)
        ensures
            r@.columns == names_view(selected_cols@),
            r@.data.len() == 0,
    {
        TableView { selected_cols, column_data: Vec::new() }
    }

    /// Stops showing every column named `column` (without regard to case).
    pub fn remove_column(&mut self, column: &str)
        ensures
            final(self)@ == (TableV { columns: without_name(old(self)@.columns, column@), ..old(self)@ }),
    {
        let ghost cols = names_view(self.selected_cols@);
        let mut kept: Vec<String> = Vec::new();
        let mut i: usize = 0;
        while i < self.selected_cols.len()
            invariant
                i <= self.selected_cols@.len(),
                cols == names_view(self.selected_cols@),
                names_view(kept@) == without_name(cols.take(i as int), column@),
            decreases self.selected_cols.len() - i,
        {
            let ghost prev = names_view(kept@);
            assert(cols.take(i + 1).drop_last() =~= cols.take(i as int));
            assert(cols.take(i + 1).last() == self.selected_cols@[i as int]@);
            if !same_name(self.selected_cols[i].as_str(), column) {
                kept.push(copy_string(&self.selected_cols[i]));
                assert(names_view(kept@) =~= prev.push(self.selected_cols@[i as int]@));
            }
            i = i + 1;
        }
        assert(cols.take(cols.len() as int) =~= cols);
        self.selected_cols = kept;
    }

    /// Shows the column `column`, unless a column of that name (without regard to case) is
    /// shown already.
    pub fn add_column(&mut self, column: String)
        ensures
            final(self)@ == (TableV {
                columns: if (exists|i: int|
                    0 <= i < old(self)@.columns.len() && caseless_eq(
                        #[trigger] old(self)@.columns[i],
                        column@,
                    )) {
                    old(self)@.columns
                } else {
                    old(self)@.columns.push(column@)
                },
                ..old(self)@
            }),
    {
        let ghost cols = names_view(self.selected_cols@);
        let mut i: usize = 0;
        while i < self.selected_cols.len()
            invariant
                i <= self.selected_cols@.len(),
                cols == names_view(self.selected_cols@),
                forall|j: int| 0 <= j < i ==> !caseless_eq(#[trigger] cols[j], column@),
            decreases self.selected_cols.len() - i,
        {
            if same_name(self.selected_cols[i].as_str(), column.as_str()) {
                assert(caseless_eq(cols[i as int], column@));
                return ;
            }
            i = i + 1;
        }
        let ghost prev = names_view(self.selected_cols@);
        self.selected_cols.push(column);
        assert(names_view(self.selected_cols@) =~= prev.push(column@));
    }

    /// The columns shown.
    pub fn selected_cols(&self) -> (r: &Vec<String>)
        ensures
            names_view(r@) == self@.columns,
    {
        &self.selected_cols
    }

    /// The text of the `index`-th column for the books shown.
    pub fn get_column(&self, index: usize) -> (r: &Vec<String>)
        requires
            index < self@.data.len(),
        ensures
            names_view(r@) == self@.data[index as int],
    {
        &self.column_data[index]
    }

    /// The column each shown name denotes, in order.
    pub fn column_ids(&self) -> (r: Vec<ColumnIdentifier>)
        ensures
            r@.len() == self@.columns.len(),
            forall|i: int| 0 <= i < r@.len() ==> #[trigger] r@[i]@ == column_of(self@.columns[i]),
    {
        let mut out: Vec<ColumnIdentifier> = Vec::new();
        let mut i: usize = 0;
        while i < self.selected_cols.len()
            invariant
                i <= self.selected_cols@.len(),
                out@.len() == i,
                forall|j: int| 0 <= j < i ==> #[trigger] out@[j]@ == column_of(self.selected_cols@[j]@),
            decreases self.selected_cols.len() - i,
        {
            out.push(ColumnIdentifier::from(self.selected_cols[i].as_str()));
            i = i + 1;
        }
        out
    }

    /// Replaces the text of the columns shown.
    pub fn set_column_data(&mut self, data: Vec<Vec<String>>)
        ensures
            final(self)@ == (TableV { data: data_view(data@), ..old(self)@ }),
    {
        self.column_data = data;
    }

    /// Each column shown, with its text, for as many columns as have text.
    pub fn header_cols(&self) -> (r: Vec<(&String, &Vec<String>)>)
        ensures
            r@.len() == if self@.columns.len() <= self@.data.len() {
                self@.columns.len()
            } else {
                self@.data.len()
            },
            forall|i: int|
                0 <= i < r@.len() ==> (#[trigger] r@[i]).0@ == self@.columns[i] && names_view(
                    r@[i].1@,
                ) == self@.data[i],
    {
        let n = if self.selected_cols.len() <= self.column_data.len() {
            self.selected_cols.len()
        } else {
            self.column_data.len()
        };
        let mut out: Vec<(&String, &Vec<String>)> = Vec::new();
        let mut i: usize = 0;
        while i < n
            invariant
                i <= n,
                n <= self.selected_cols@.len(),
                n <= self.column_data@.len(),
                out@.len() == i,
                forall|j: int|
                    0 <= j < i ==> (#[trigger] out@[j]).0@ == self.selected_cols@[j]@ && names_view(
                        out@[j].1@,
                    ) == names_view(self.column_data@[j]@),
            decreases n - i,
        {
            out.push((&self.selected_cols[i], &self.column_data[i]));
            i = i + 1;
        }
        out
    }
}

/// Adding and removing columns keeps the shown columns distinct without regard to case.
pub proof fn lemma_columns_stay_distinct(cols: Seq<Seq<char>>, name: Seq<char>)
    requires
        distinct_names(cols),
    ensures
        distinct_names(
            if (exists|i: int| 0 <= i < cols.len() && caseless_eq(#[trigger] cols[i], name)) {
                cols
            } else {
                cols.push(name)
            },
        ),
        distinct_names(without_name(cols, name)),
    decreases cols.len(),
{
    if !(exists|i: int| 0 <= i < cols.len() && caseless_eq(#[trigger] cols[i], name)) {
        let p = cols.push(name);
        assert forall|i: int, j: int| 0 <= i < j < p.len() implies !caseless_eq(
            #[trigger] p[i],
            #[trigger] p[j],
        ) by {
            if j == cols.len() {
                assert(p[i] == cols[i]);
            } else {
                assert(p[i] == cols[i] && p[j] == cols[j]);
            }
        }
    }
    lemma_without_name_distinct(cols, name);
}

proof fn lemma_without_name_sub(cols: Seq<Seq<char>>, name: Seq<char>)
    ensures
        forall|k: int|
            0 <= k < without_name(cols, name).len() ==> exists|m: int|
                0 <= m < cols.len() && #[trigger] without_name(cols, name)[k] == cols[m],
        without_name(cols, name).len() <= cols.len(),
    decreases cols.len(),
{
    if cols.len() > 0 {
        lemma_without_name_sub(cols.drop_last(), name);
        let w = without_name(cols.drop_last(), name);
        assert forall|k: int| 0 <= k < without_name(cols, name).len() implies exists|m: int|
            0 <= m < cols.len() && #[trigger] without_name(cols, name)[k] == cols[m] by {
            if k < w.len() {
                let m = choose|m: int| 0 <= m < cols.drop_last().len() && w[k] == cols.drop_last()[m];
                assert(without_name(cols, name)[k] == cols[m]);
            } else {
                assert(without_name(cols, name)[k] == cols[cols.len() - 1]);
            }
        }
    }
}

proof fn lemma_without_name_distinct(cols: Seq<Seq<char>>, name: Seq<char>)
    requires
        distinct_names(cols),
    ensures
        distinct_names(without_name(cols, name)),
    decreases cols.len(),
{
    if cols.len() > 0 {
        let d = cols.drop_last();
        assert(distinct_names(d)) by {
            assert forall|i: int, j: int| 0 <= i < j < d.len() implies !caseless_eq(
                #[trigger] d[i],
                #[trigger] d[j],
            ) by {
                assert(d[i] == cols[i] && d[j] == cols[j]);
            }
        }
        lemma_without_name_distinct(d, name);
        lemma_without_name_sub(d, name);
        let w = without_name(d, name);
        if !caseless_eq(cols.last(), name) {
            let p = w.push(cols.last());
            assert forall|i: int, j: int| 0 <= i < j < p.len() implies !caseless_eq(
                #[trigger] p[i],
                #[trigger] p[j],
            ) by {
                if j == w.len() {
                    let m = choose|m: int| 0 <= m < d.len() && w[i] == d[m];
                    assert(p[i] == cols[m]);
                    assert(p[j] == cols[cols.len() - 1]);
                } else {
                    assert(p[i] == w[i] && p[j] == w[j]);
                }
            }
        }
    }
}

} // verus!
