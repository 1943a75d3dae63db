use vstd::prelude::*;

use crate::grid::{column, diff_fits, diff_grid, has_column, is_rect, sum_fits, sum_grid, transposed};
use crate::matrix::Matrix;
use crate::scalar::Scalar;

verus! {

/// In a well-formed matrix whose entries all equal `v`, as `zeros` and `ones`
/// return, every row is `cols` copies of `v` and every column is `rows` copies of
/// `v`: what `row` and `col` hand back.
pub proof fn lemma_constant_lines<T: Scalar>(m: Matrix<T>, v: T)
    requires
        m.wf(),
        forall|i: int, j: int| 0 <= i < m.rows && 0 <= j < m.cols ==> #[trigger] m.grid()[i][j] == v,
    ensures
        forall|i: int| 0 <= i < m.rows ==> #[trigger] m.grid()[i] == Seq::new(m.cols as nat, |k: int| v),
        forall|j: int|
            0 <= j < m.cols ==> has_column(m.grid(), j) && #[trigger] column(m.grid(), j) == Seq::new(
                m.rows as nat,
                |k: int| v,
            ),
{
    assert forall|i: int| 0 <= i < m.rows implies #[trigger] m.grid()[i] == Seq::new(m.cols as nat, |k: int| v) by {
        assert(m.grid()[i] =~= Seq::new(m.cols as nat, |k: int| v));
    }
    assert forall|j: int| 0 <= j < m.cols implies has_column(m.grid(), j) && #[trigger] column(m.grid(), j) == Seq::new(
        m.rows as nat,
        |k: int| v,
    ) by {
        assert(column(m.grid(), j) =~= Seq::new(m.rows as nat, |k: int| v));
    }
}

/// For two well-formed matrices of one shape whose sum is representable, the sum
/// has that shape, subtracting `b` from it is representable, and gives back `a`:
/// `(a + b) - b == a`.
pub proof fn lemma_add_then_sub<T: Scalar>(a: Matrix<T>, b: Matrix<T>)
    requires
        a.wf(),
        b.wf(),
        a.rows == b.rows,
        a.cols == b.cols,
        sum_fits(a.grid(), b.grid()),
    ensures
        is_rect(sum_grid(a.grid(), b.grid()), a.rows as nat, a.cols as nat),
        diff_fits(sum_grid(a.grid(), b.grid()), b.grid()),
        diff_grid(sum_grid(a.grid(), b.grid()), b.grid()) == a.grid(),
{
    let s = sum_grid(a.grid(), b.grid());
    assert forall|i: int, j: int| 0 <= i < s.len() && 0 <= j < s[i].len() implies T::sub_ok(
        #[trigger] s[i][j],
        #[trigger] b.grid()[i][j],
    ) && T::sub_spec(s[i][j], b.grid()[i][j]) == a.grid()[i][j] by {
        assert(T::add_ok(a.grid()[i][j], b.grid()[i][j]));
        T::lemma_add_sub_cancel(a.grid()[i][j], b.grid()[i][j]);
    }
    let d = diff_grid(s, b.grid());
    assert forall|i: int| 0 <= i < a.rows implies #[trigger] d[i] == a.grid()[i] by {
        assert(d[i] =~= a.grid()[i]);
    }
    assert(d =~= a.grid());
}

/// The transpose of a well-formed `rows` by `cols` matrix is a well-formed `cols`
/// by `rows` matrix, and transposing twice gives back `a`.
pub proof fn lemma_transpose_twice<T: Scalar>(a: Matrix<T>)
    requires
        a.wf(),
    ensures
        is_rect(transposed(a.grid(), a.cols as nat), a.cols as nat, a.rows as nat),
        transposed(transposed(a.grid(), a.cols as nat), a.rows as nat) == a.grid(),
{
    let g = a.grid();
    let t = transposed(g, a.cols as nat);
    let tt = transposed(t, a.rows as nat);
    assert forall|i: int| 0 <= i < a.rows implies #[trigger] tt[i] == g[i] by {
        assert(tt[i] =~= g[i]);
    }
    assert(tt =~= g);
}

} // verus!
