//! Splitting the width of the book list among its columns.
use vstd::prelude::*;

verus! {

/// The width of column `i` when `width` is split among `n` columns: the columns share the
/// width evenly, the first `width % n` of them one wider.
pub open spec fn column_width(width: int, n: int, i: int) -> int {
    width / n + if i < width % n {
        1int
    } else {
        0int
    }
}

/// The widths of all `n` columns.
pub open spec fn column_widths_spec(width: int, n: int) -> Seq<int> {
    Seq::new(n as nat, |i: int| column_width(width, n, i))
}

/// The sum of a sequence of integers.
pub open spec fn sum_of(s: Seq<int>) -> int
    decreases s.len(),
{
    if s.len() == 0 {
        0
    } else {
        sum_of(s.drop_last()) + s.last()
    }
}

/// The widths of `num_cols` columns that together fill `width`, differing by at most one
/// (none where `num_cols` is 0).
pub fn column_widths(width: u16, num_cols: u16) -> (r: Vec<u16>)
    ensures
        r@.len() == num_cols,
        forall|i: int|
            0 <= i < num_cols ==> #[trigger] r@[i] as int == column_width(
                width as int,
                num_cols as int,
                i,
            ),
{
    if num_cols == 0 {
        return Vec::new();
    }
    let col_width = width / num_cols;
    proof {
        vstd::arithmetic::div_mod::lemma_fundamental_div_mod(width as int, num_cols as int);
        vstd::arithmetic::div_mod::lemma_mod_pos_bound(width as int, num_cols as int);
    }
    let mut widths: Vec<u16> = Vec::new();
    let mut total: u16 = 0;
    let mut k: u16 = 0;
    while k < num_cols
        invariant
            k <= num_cols,
            num_cols > 0,
            col_width == width / num_cols,
            width == num_cols * col_width + width % num_cols,
            widths@.len() == k,
            forall|i: int| 0 <= i < k ==> #[trigger] widths@[i] == col_width,
            total == col_width * k,
        decreases num_cols - k,
    {
        assert(col_width * (k + 1) <= width) by (nonlinear_arith)
            requires
                k < num_cols,
                width == num_cols * col_width + width % num_cols,
                0 <= width % num_cols,
                0 <= col_width,
        ;
        assert(col_width * (k + 1) == col_width * k + col_width) by (nonlinear_arith);
        widths.push(col_width);
        total = total + col_width;
        k = k + 1;
    }
    assert(col_width * num_cols == num_cols * col_width) by (nonlinear_arith);
    assert(total == width - width % num_cols);
    if total != width {
        let extra = width - total;
        let mut i: u16 = 0;
        while i < extra
            invariant
                i <= extra,
                extra == width % num_cols,
                extra < num_cols,
                widths@.len() == num_cols,
                forall|j: int|
                    0 <= j < num_cols ==> #[trigger] widths@[j] == col_width + if j < i {
                        1int
                    } else {
                        0int
                    },
                col_width == width / num_cols,
                width == num_cols * col_width + width % num_cols,
            decreases extra - i,
        {
            assert(col_width + 1 <= width) by (nonlinear_arith)
                requires
                    width == num_cols * col_width + width % num_cols,
                    width % num_cols > 0,
                    num_cols > 0,
                    col_width >= 0,
            ;
            let w = widths[i as usize] + 1;
            widths.set(i as usize, w);
            i = i + 1;
        }
    }
    widths
}

proof fn lemma_prefix_sum(width: int, n: int, k: int)
    requires
        0 <= width,
        0 < n,
        0 <= k <= n,
    ensures
        sum_of(column_widths_spec(width, n).take(k)) == (width / n) * k + if k < width % n {
            k
        } else {
            width % n
        },
    decreases k,
{
    let s = column_widths_spec(width, n);
    if k == 0 {
        assert(s.take(0) =~= Seq::<int>::empty());
    } else {
        lemma_prefix_sum(width, n, k - 1);
        assert(s.take(k).drop_last() =~= s.take(k - 1));
        assert(s.take(k).last() == column_width(width, n, k - 1));
        assert((width / n) * k == (width / n) * (k - 1) + width / n) by (nonlinear_arith);
    }
}

/// The columns fill the whole width.
pub proof fn lemma_columns_fill_width(width: int, n: int)
    requires
        0 <= width,
        0 < n,
    ensures
        sum_of(column_widths_spec(width, n)) == width,
{
    lemma_prefix_sum(width, n, n);
    vstd::arithmetic::div_mod::lemma_fundamental_div_mod(width, n);
    vstd::arithmetic::div_mod::lemma_mod_pos_bound(width, n);
    assert(column_widths_spec(width, n).take(n) =~= column_widths_spec(width, n));
    assert((width / n) * n == n * (width / n)) by (nonlinear_arith);
}

/// No two columns differ in width by more than one.
pub proof fn lemma_columns_even(width: int, n: int, i: int, j: int)
    requires
        0 <= width,
        0 < n,
        0 <= i < n,
        0 <= j < n,
    ensures
        column_width(width, n, i) - column_width(width, n, j) <= 1,
{
}

/// Splitting among one column more makes no column wider; among one fewer, none narrower.
pub proof fn lemma_more_columns_not_wider(width: int, n: int, i: int)
    requires
        0 <= width,
        0 < n,
        0 <= i < n,
    ensures
        column_width(width, n + 1, i) <= column_width(width, n, i),
{
    vstd::arithmetic::div_mod::lemma_div_is_ordered_by_denominator(width, n, n + 1);
    vstd::arithmetic::div_mod::lemma_fundamental_div_mod(width, n);
    vstd::arithmetic::div_mod::lemma_fundamental_div_mod(width, n + 1);
    vstd::arithmetic::div_mod::lemma_mod_pos_bound(width, n);
    vstd::arithmetic::div_mod::lemma_mod_pos_bound(width, n + 1);
    let q = width / n;
    let q2 = width / (n + 1);
    if q2 == q {
        assert(width % (n + 1) == width % n - q) by (nonlinear_arith)
            requires
                width == n * q + width % n,
                width == (n + 1) * q2 + width % (n + 1),
                q2 == q,
        ;
        vstd::arithmetic::div_mod::lemma_div_pos_is_pos(width, n);
    }
}

} // verus!
