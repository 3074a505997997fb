use vstd::prelude::*;

use crate::records::{BookID, ColumnIdentifier, ColumnOrder, ColumnV};
use crate::text::{chars_of, copy_string, string_from_chars};

verus! {

/// A value bound to a placeholder of a query.
#[derive(Clone, Debug, PartialEq, Eq)]
pub enum Variable {
    Int(i64),
    Str(String),
}

pub ghost enum VariableV {
    Int(i64),
    Str(Seq<char>),
}

impl View for Variable {
    type V = VariableV;

    open spec fn view(&self) -> VariableV {
        match self {
            Variable::Int(i) => VariableV::Int(*i),
            Variable::Str(s) => VariableV::Str(s@),
        }
    }
}

pub open spec fn vars_view(v: Seq<Variable>) -> Seq<VariableV> {
    Seq::new(v.len(), |i: int| v[i]@)
}

/// The query that reads a sortable column as `id`, with the value it binds (the tag's name
/// for a named tag); `None` for a column that cannot be sorted on.
pub open spec fn read_column_spec(col: ColumnV, id: Seq<char>) -> Option<
    (Seq<char>, Option<Seq<char>>),
> {
    match col {
        ColumnV::Title => Some(("(SELECT book_id, title as "@ + id + " from books)"@, None)),
        ColumnV::ID => Some(("(SELECT book_id, book_id as "@ + id + " from books)"@, None)),
        ColumnV::Author => Some(
            (
                "(\n    SELECT book_id, MIN(value) as "@ + id
                    + "\n    FROM multimap_tags\n    WHERE name=\"author\"\n    GROUP BY book_id\n)"@,
                None,
            ),
        ),
        ColumnV::ExtendedTag(name) => Some(
            (
                "(\n    SELECT book_id, value as "@ + id
                    + "\n    FROM named_tags\n    WHERE name=?\n    GROUP BY book_id\n)"@,
                Some(name),
            ),
        ),
        _ => None,
    }
}

fn push_str(v: &mut Vec<char>, s: &str)
    ensures
        final(v)@ == old(v)@ + s@,
{
    let c = chars_of(s);
    let mut i: usize = 0;
    while i < c.len()
        invariant
            i <= c@.len(),
            c@ == s@,
            v@ == old(v)@ + c@.take(i as int),
        decreases c.len() - i,
    {
        v.push(c[i]);
        assert(c@.take(i + 1) =~= c@.take(i as int).push(c@[i as int]));
        i = i + 1;
    }
    assert(c@.take(c@.len() as int) =~= c@);
}

fn push_chars(v: &mut Vec<char>, s: &Vec<char>)
    ensures
        final(v)@ == old(v)@ + s@,
{
    let mut i: usize = 0;
    while i < s.len()
        invariant
            i <= s@.len(),
            v@ == old(v)@ + s@.take(i as int),
        decreases s.len() - i,
    {
        v.push(s[i]);
        assert(s@.take(i + 1) =~= s@.take(i as int).push(s@[i as int]));
        i = i + 1;
    }
    assert(s@.take(s@.len() as int) =~= s@);
}

/// The query that reads a sortable column as `id`, with the value it binds.
fn read_column(column: &ColumnIdentifier, id: &Vec<char>) -> (r: Option<(Vec<char>, Option<String>)>)
    ensures
        match read_column_spec(column@, id@) {
            Some(q) => r matches Some(x) && x.0@ == q.0 && match q.1 {
                Some(n) => x.1 matches Some(s) && s@ == n,
                None => x.1 is None,
            },
            None => r is None,
        },
{
    let mut q: Vec<char> = Vec::new();
    match column {
        ColumnIdentifier::Title => {
            push_str(&mut q, "(SELECT book_id, title as ");
            push_chars(&mut q, id);
            push_str(&mut q, " from books)");
            Some((q, None))
        },
        ColumnIdentifier::ID => {
            push_str(&mut q, "(SELECT book_id, book_id as ");
            push_chars(&mut q, id);
            push_str(&mut q, " from books)");
            Some((q, None))
        },
        ColumnIdentifier::Author => {
            push_str(&mut q, "(\n    SELECT book_id, MIN(value) as ");
            push_chars(&mut q, id);
            push_str(
                &mut q,
                "\n    FROM multimap_tags\n    WHERE name=\"author\"\n    GROUP BY book_id\n)",
            );
            Some((q, None))
        },
        ColumnIdentifier::ExtendedTag(name) => {
            push_str(&mut q, "(\n    SELECT book_id, value as ");
            push_chars(&mut q, id);
            push_str(&mut q, "\n    FROM named_tags\n    WHERE name=?\n    GROUP BY book_id\n)");
            Some((q, Some(copy_string(name))))
        },
        _ => None,
    }
}

/// The comparison that finds the rows after a given row, for a column sorted `primary`
/// scanned in direction `secondary`.
pub open spec fn comparison_spec(primary: ColumnOrder, secondary: ColumnOrder) -> Seq<char> {
    if primary == secondary {
        "<"@
    } else {
        ">"@
    }
}

/// The direction in which a column sorted `primary` is read when scanning `secondary`.
pub open spec fn order_repr_spec(primary: ColumnOrder, secondary: ColumnOrder) -> Seq<char> {
    if primary == secondary {
        "DESC"@
    } else {
        "ASC"@
    }
}

fn order_to_comparison(primary: ColumnOrder, secondary: ColumnOrder) -> (r: &'static str)
    ensures
        r@ == comparison_spec(primary, secondary),
{
    match (primary, secondary) {
        (ColumnOrder::Ascending, ColumnOrder::Ascending) => "<",
        (ColumnOrder::Ascending, ColumnOrder::Descending) => ">",
        (ColumnOrder::Descending, ColumnOrder::Ascending) => ">",
        (ColumnOrder::Descending, ColumnOrder::Descending) => "<",
    }
}

fn order_repr(primary: ColumnOrder, secondary: ColumnOrder) -> (r: &'static str)
    ensures
        r@ == order_repr_spec(primary, secondary),
{
    match (primary, secondary) {
        (ColumnOrder::Ascending, ColumnOrder::Ascending) => "DESC",
        (ColumnOrder::Ascending, ColumnOrder::Descending) => "ASC",
        (ColumnOrder::Descending, ColumnOrder::Ascending) => "ASC",
        (ColumnOrder::Descending, ColumnOrder::Descending) => "DESC",
    }
}

pub open spec fn rules_view(v: Seq<(ColumnIdentifier, ColumnOrder)>) -> Seq<(ColumnV, ColumnOrder)> {
    Seq::new(v.len(), |i: int| (v[i].0@, v[i].1))
}

pub open spec fn has_id(rules: Seq<(ColumnV, ColumnOrder)>) -> bool {
    exists|i: int| 0 <= i < rules.len() && #[trigger] rules[i].0 == ColumnV::ID
}

/// The sort rules, with an ascending sort by ID appended where they do not sort by ID, so
/// that the order is total.
pub open spec fn add_id_spec(rules: Seq<(ColumnV, ColumnOrder)>) -> Seq<(ColumnV, ColumnOrder)> {
    if has_id(rules) {
        rules
    } else {
        rules.push((ColumnV::ID, ColumnOrder::Ascending))
    }
}

fn copy_rules(rules: &Vec<(ColumnIdentifier, ColumnOrder)>) -> (r: (Vec<(ColumnIdentifier, ColumnOrder)>, bool))
    ensures
        rules_view(r.0@) == rules_view(rules@),
        r.1 == has_id(rules_view(rules@)),
{
    let mut out: Vec<(ColumnIdentifier, ColumnOrder)> = Vec::new();
    let mut found = false;
    let mut i: usize = 0;
    while i < rules.len()
        invariant
            i <= rules@.len(),
            rules_view(out@) =~= rules_view(rules@).take(i as int),
            found == exists|j: int| 0 <= j < i && #[trigger] rules_view(rules@)[j].0 == ColumnV::ID,
        decreases rules.len() - i,
    {
        let ghost prev = rules_view(out@);
        let is_id = match &rules[i].0 {
            ColumnIdentifier::ID => true,
            _ => false,
        };
        assert(rules_view(rules@)[i as int].0 == rules@[i as int].0@);
        assert(is_id == (rules_view(rules@)[i as int].0 == ColumnV::ID));
        if is_id {
            found = true;
        }
        out.push((rules[i].0.duplicate(), rules[i].1));
        assert(rules_view(out@) =~= prev.push(rules_view(rules@)[i as int]));
        assert(rules_view(rules@).take(i + 1) =~= rules_view(rules@).take(i as int).push(
            rules_view(rules@)[i as int],
        ));
        i = i + 1;
    }
    assert(rules_view(rules@).take(rules@.len() as int) =~= rules_view(rules@));
    (out, found)
}

/// The sort rules with an ascending sort by ID appended where they do not sort by ID.
pub fn add_id(sorting_rules: Vec<(ColumnIdentifier, ColumnOrder)>) -> (r: Vec<
    (ColumnIdentifier, ColumnOrder),
>)
    ensures
        rules_view(r@) == add_id_spec(rules_view(sorting_rules@)),
{
    let (mut rules, found) = copy_rules(&sorting_rules);
    if !found {
        let ghost prev = rules_view(rules@);
        rules.push((ColumnIdentifier::ID, ColumnOrder::Ascending));
        assert(rules_view(rules@) =~= prev.push((ColumnV::ID, ColumnOrder::Ascending)));
    }
    rules
}

// ---------------------------------------------------------------------------
// Building the query for the next page
// ---------------------------------------------------------------------------

/// The book a page starts from: its ID, and its values for the sort rules' columns, in the
/// rules' order (empty where the book has none).
pub struct BookKey {
    pub id: BookID,
    pub values: Vec<String>,
}

pub ghost struct BookKeyV {
    pub id: BookID,
    pub values: Seq<Seq<char>>,
}

pub open spec fn key_view(k: Option<&BookKey>) -> Option<BookKeyV> {
    match k {
        Some(b) => Some(BookKeyV { id: b.id, values: Seq::new(b.values@.len(), |i: int| b.values@[i]@) }),
        None => None,
    }
}

/// The pieces of a query built so far.
pub ghost struct QueryParts {
    pub from: Seq<char>,
    pub join: Seq<char>,
    pub where_: Seq<char>,
    pub order: Seq<char>,
    pub num_ops: int,
    pub binds: Seq<VariableV>,
}

/// The alias of the `k`-th sorted column: the `k`-th lower-case letter.
pub open spec fn alias_of(k: int) -> char {
    (97 + k) as char
}

/// The alias of the `k`-th column's table: its upper-case letter and `TABLE`.
pub open spec fn table_alias(k: int) -> Seq<char> {
    seq![(65 + k) as char] + "TABLE"@
}

/// The comparison clause for the `k`-th column against the start book.
pub open spec fn where_clause(k: int, op: Seq<char>, inclusive: bool) -> Seq<char> {
    table_alias(k) + "."@ + seq![alias_of(k)] + " "@ + op + if inclusive {
        "= ? AND "@
    } else {
        " ? AND "@
    }
}

/// The query parts after the `k`-th sort rule.
pub open spec fn query_step(
    st: QueryParts,
    k: int,
    rule: (ColumnV, ColumnOrder),
    order: ColumnOrder,
    inclusive: bool,
    book: Option<BookKeyV>,
) -> QueryParts {
    let alias = seq![alias_of(k)];
    match read_column_spec(rule.0, alias) {
        None => st,
        Some(q) => {
            let b1 = st.binds + match q.1 {
                Some(n) => seq![VariableV::Str(n)],
                None => Seq::empty(),
            };
            let op = comparison_spec(rule.1, order);
            let ta = table_alias(k);
            let from = if st.num_ops == 0 {
                st.from + q.0 + " as "@ + ta + " "@
            } else {
                st.from
            };
            let join = if st.num_ops == 0 {
                st.join
            } else {
                st.join + "INNER JOIN "@ + q.0 + " as "@ + ta + " ON "@ + ta
                    + ".book_id = ATABLE.book_id "@
            };
            let w = match book {
                None => (st.where_, b1),
                Some(b) => if rule.0 == ColumnV::ID {
                    (st.where_ + where_clause(k, op, inclusive), b1.push(VariableV::Int(b.id as i64)))
                } else {
                    (st.where_ + where_clause(k, op, true), b1.push(VariableV::Str(b.values[k])))
                },
            };
            QueryParts {
                from,
                join,
                where_: w.0,
                order: st.order + alias + " "@ + order_repr_spec(rule.1, order) + ", "@,
                num_ops: st.num_ops + 1,
                binds: w.1,
            }
        },
    }
}

/// The query parts after the first `n` sort rules.
pub open spec fn query_parts(
    rules: Seq<(ColumnV, ColumnOrder)>,
    n: int,
    order: ColumnOrder,
    inclusive: bool,
    book: Option<BookKeyV>,
) -> QueryParts
    decreases n,
{
    if n <= 0 {
        QueryParts {
            from: Seq::empty(),
            join: Seq::empty(),
            where_: Seq::empty(),
            order: Seq::empty(),
            num_ops: 0,
            binds: Seq::empty(),
        }
    } else {
        query_step(
            query_parts(rules, n - 1, order, inclusive, book),
            n - 1,
            rules[n - 1],
            order,
            inclusive,
            book,
        )
    }
}

/// The number of sort rules the query uses: one per letter at most.
pub open spec fn rules_used(rules: Seq<(ColumnV, ColumnOrder)>) -> int {
    if rules.len() < 26 {
        rules.len() as int
    } else {
        26
    }
}

pub open spec fn drop_n(s: Seq<char>, n: int) -> Seq<char> {
    if s.len() >= n {
        s.take(s.len() - n)
    } else {
        Seq::empty()
    }
}

/// The query selecting the IDs of the books that follow `book` in the sort order (all books
/// from the start where there is none), and the values it binds before the page size.
pub open spec fn join_cols_spec(
    rules: Seq<(ColumnV, ColumnOrder)>,
    order: ColumnOrder,
    inclusive: bool,
    book: Option<BookKeyV>,
) -> (Seq<char>, Seq<VariableV>) {
    let p = query_parts(rules, rules_used(rules), order, inclusive, book);
    let where_ = match book {
        Some(_) => "WHERE ("@ + drop_n(p.where_, 5) + ")"@,
        None => p.where_,
    };
    (
        "SELECT ATABLE.book_id FROM "@ + drop_n(p.from, 1) + " "@ + p.join + " "@ + where_
            + " ORDER BY "@ + drop_n(p.order, 2) + " LIMIT ?;"@,
        p.binds,
    )
}

/// Whether some sort rule the query uses can be sorted on.
pub open spec fn some_sortable(rules: Seq<(ColumnV, ColumnOrder)>) -> bool {
    exists|i: int|
        0 <= i < rules_used(rules) && #[trigger] read_column_spec(rules[i].0, seq![alias_of(i)])
            is Some
}

/// Builds the query that pages through books in sort order.
pub struct QueryBuilder {
    pub order: ColumnOrder,
    pub sort_rules: Vec<(ColumnIdentifier, ColumnOrder)>,
    pub id_inclusive: bool,
}

impl Default for QueryBuilder {
    fn default() -> (r: QueryBuilder)
        ensures
            r.order == ColumnOrder::Descending,
            rules_view(r.sort_rules@) == seq![(ColumnV::ID, ColumnOrder::Ascending)],
            !r.id_inclusive,
    {
        let mut rules: Vec<(ColumnIdentifier, ColumnOrder)> = Vec::new();
        rules.push((ColumnIdentifier::ID, ColumnOrder::Ascending));
        assert(rules_view(rules@) =~= seq![(ColumnV::ID, ColumnOrder::Ascending)]);
        QueryBuilder { order: ColumnOrder::Descending, sort_rules: rules, id_inclusive: false }
    }
}

fn id_variable(id: BookID) -> (r: Variable)
    ensures
        r@ == VariableV::Int(id as i64),
{
    Variable::Int(id as i64)
}

impl QueryBuilder {
    /// Uses the given sort rules, with a sort by ID appended where they have none.
    pub fn sort_rules(self, sort_rules: &Vec<(ColumnIdentifier, ColumnOrder)>) -> (r: QueryBuilder)
        ensures
            r.order == self.order,
            r.id_inclusive == self.id_inclusive,
            rules_view(r.sort_rules@) == add_id_spec(rules_view(sort_rules@)),
    {
        let (rules, _) = copy_rules(sort_rules);
        QueryBuilder { sort_rules: add_id(rules), ..self }
    }

    /// Scans in the direction `order`.
    pub fn order(self, order: ColumnOrder) -> (r: QueryBuilder)
        ensures
            r.order == order,
            r.id_inclusive == self.id_inclusive,
            r.sort_rules == self.sort_rules,
    {
        QueryBuilder { order, ..self }
    }

    /// Whether the start book itself is included.
    pub fn include_id(self, include_id: bool) -> (r: QueryBuilder)
        ensures
            r.order == self.order,
            r.id_inclusive == include_id,
            r.sort_rules == self.sort_rules,
    {
        QueryBuilder { id_inclusive: include_id, ..self }
    }

    /// The query selecting the IDs of the books after `book` in the sort order (from the
    /// start where there is none), and the values it binds before the page size.
    #[verifier::spinoff_prover]
    #[verifier::rlimit(30)]
    pub fn join_cols(&self, book: Option<&BookKey>) -> (r: (String, Vec<Variable>))
        requires
            book matches Some(b) ==> b.values@.len() >= rules_used(rules_view(self.sort_rules@)),
            book is Some ==> some_sortable(rules_view(self.sort_rules@)),
        ensures
            (r.0@, vars_view(r.1@)) == join_cols_spec(
                rules_view(self.sort_rules@),
                self.order,
                self.id_inclusive,
                key_view(book),
            ),
    {
        let ghost rules = rules_view(self.sort_rules@);
        let ghost bk = key_view(book);
        let mut from: Vec<char> = Vec::new();
        let mut join: Vec<char> = Vec::new();
        let mut where_str: Vec<char> = Vec::new();
        let mut order_str: Vec<char> = Vec::new();
        let mut num_ops: usize = 0;
        let mut binds: Vec<Variable> = Vec::new();
        let n: usize = if self.sort_rules.len() < 26 {
            self.sort_rules.len()
        } else {
            26
        };
        let mut k: usize = 0;
        assert(vars_view(binds@) =~= Seq::<VariableV>::empty());
        assert(from@ =~= Seq::<char>::empty());
        assert(join@ =~= Seq::<char>::empty());
        assert(where_str@ =~= Seq::<char>::empty());
        assert(order_str@ =~= Seq::<char>::empty());
        while k < n
            invariant
                k <= n,
                n == rules_used(rules),
                n <= 26,
                rules == rules_view(self.sort_rules@),
                bk == key_view(book),
                book matches Some(b) ==> b.values@.len() >= n,
                num_ops <= k,
                query_parts(rules, k as int, self.order, self.id_inclusive, bk) == (QueryParts {
                    from: from@,
                    join: join@,
                    where_: where_str@,
                    order: order_str@,
                    num_ops: num_ops as int,
                    binds: vars_view(binds@),
                }),
                (num_ops > 0) == (exists|i: int|
                    0 <= i < k && #[trigger] read_column_spec(rules[i].0, seq![alias_of(i)])
                        is Some),
                book is Some && num_ops > 0 ==> where_str@.len() >= 5,
            decreases n - k,
        {
            let ghost st = QueryParts {
                from: from@,
                join: join@,
                where_: where_str@,
                order: order_str@,
                num_ops: num_ops as int,
                binds: vars_view(binds@),
            };
            let col_id = &self.sort_rules[k].0;
            let col_ord = self.sort_rules[k].1;
            assert(rules[k as int] == (col_id@, col_ord));
            let letter = ((97 + k) as u8) as char;
            let upper = ((65 + k) as u8) as char;
            assert(letter == alias_of(k as int));
            let mut alias: Vec<char> = Vec::new();
            alias.push(letter);
            assert(alias@ =~= seq![alias_of(k as int)]);
            let mut table: Vec<char> = Vec::new();
            table.push(upper);
            push_str(&mut table, "TABLE");
            assert(table@ =~= table_alias(k as int));
            match read_column(col_id, &alias) {
                None => {
                    assert(query_parts(rules, k + 1, self.order, self.id_inclusive, bk) == st);
                },
                Some((select, bound)) => {
                    let ghost b0 = vars_view(binds@);
                    match bound {
                        Some(name) => {
                            binds.push(Variable::Str(name));
                        },
                        None => {},
                    }
                    let ghost b1 = vars_view(binds@);
                    let op = order_to_comparison(col_ord, self.order);
                    if num_ops == 0 {
                        push_chars(&mut from, &select);
                        push_str(&mut from, " as ");
                        push_chars(&mut from, &table);
                        push_str(&mut from, " ");
                    } else {
                        push_str(&mut join, "INNER JOIN ");
                        push_chars(&mut join, &select);
                        push_str(&mut join, " as ");
                        push_chars(&mut join, &table);
                        push_str(&mut join, " ON ");
                        push_chars(&mut join, &table);
                        push_str(&mut join, ".book_id = ATABLE.book_id ");
                    }
                    match book {
                        Some(b) => {
                            let is_id = match col_id {
                                ColumnIdentifier::ID => true,
                                _ => false,
                            };
                            let inclusive = !is_id || self.id_inclusive;
                            push_chars(&mut where_str, &table);
                            push_str(&mut where_str, ".");
                            push_chars(&mut where_str, &alias);
                            push_str(&mut where_str, " ");
                            push_str(&mut where_str, op);
                            if inclusive {
                                push_str(&mut where_str, "= ? AND ");
                            } else {
                                push_str(&mut where_str, " ? AND ");
                            }
                            let ghost bb = vars_view(binds@);
                            if is_id {
                                binds.push(id_variable(b.id));
                                assert(vars_view(binds@) =~= bb.push(VariableV::Int(b.id as i64)));
                            } else {
                                let s = copy_string(&b.values[k]);
                                binds.push(Variable::Str(s));
                                assert(vars_view(binds@) =~= bb.push(
                                    VariableV::Str(bk->Some_0.values[k as int]),
                                ));
                            }
                        },
                        None => {},
                    }
                    push_chars(&mut order_str, &alias);
                    push_str(&mut order_str, " ");
                    push_str(&mut order_str, order_repr(col_ord, self.order));
                    push_str(&mut order_str, ", ");
                    num_ops = num_ops + 1;
                    proof {
                        let q = read_column_spec(col_id@, alias@);
                        assert(q == Some((select@, match bound {
                            Some(x) => Some(x@),
                            None => None::<Seq<char>>,
                        })));
                        let nx = query_step(st, k as int, (col_id@, col_ord), self.order, self.id_inclusive, bk);
                        assert(query_parts(rules, k + 1, self.order, self.id_inclusive, bk) == nx);
                        assert(b1 =~= b0 + match q->Some_0.1 {
                            Some(x) => seq![VariableV::Str(x)],
                            None => Seq::<VariableV>::empty(),
                        });
                        assert(nx.from =~= from@);
                        assert(nx.join =~= join@);
                        assert(nx.order =~= order_str@);
                        assert(nx.where_ =~= where_str@);
                        assert(nx.binds =~= vars_view(binds@));
                        reveal_strlit("= ? AND ");
                        reveal_strlit(" ? AND ");
                    }
                },
            }
            k = k + 1;
        }
        if from.len() > 0 {
            from.pop();
        }
        let mut where_final: Vec<char> = Vec::new();
        match book {
            Some(_) => {
                let keep = where_str.len() - 5;
                where_str.truncate(keep);
                push_str(&mut where_final, "WHERE (");
                push_chars(&mut where_final, &where_str);
                push_str(&mut where_final, ")");
            },
            None => {
                where_final = where_str;
            },
        }
        if order_str.len() > 0 {
            order_str.pop();
        }
        if order_str.len() > 0 {
            order_str.pop();
        }
        let mut q: Vec<char> = Vec::new();
        push_str(&mut q, "SELECT ATABLE.book_id FROM ");
        push_chars(&mut q, &from);
        push_str(&mut q, " ");
        push_chars(&mut q, &join);
        push_str(&mut q, " ");
        push_chars(&mut q, &where_final);
        push_str(&mut q, " ORDER BY ");
        push_chars(&mut q, &order_str);
        push_str(&mut q, " LIMIT ?;");
        (string_from_chars(q.as_slice()), binds)
    }
}

} // verus!

