use vstd::prelude::*;

use crate::grid::{
    column, deep, diff_fits, diff_grid, entries_text, has_column, is_rect, line_text, lines_text,
    lemma_products_fit_step, product, product_fits, products_fit, scale_fits, scaled, sum_fits, sum_grid, sum_products,
    transposed, uniform,
};
use crate::scalar::Scalar;
use vstd::string::StringExecFns;

verus! {

/// Why an operation refused its operands.
#[derive(Debug, Clone, Copy, PartialEq, Eq, Structural)]
pub enum MatrixError {
    /// A recorded shape disagrees with the stored rows, or two operands that must
    /// share a shape do not.
    DimensionMismatch,
    /// The inner dimensions of a product disagree.
    IncompatibleDimensions,
    /// A row or column index is at or beyond its bound.
    IndexOutOfRange,
}

/// A dense matrix stored row by row.
///
/// The fields are public; a value is well formed (`wf`) when `data` holds `rows`
/// rows of `cols` entries each. Every matrix this library returns is well formed.
#[derive(Clone, Debug)]
pub struct Matrix<T> {
    pub rows: usize,
    pub cols: usize,
    pub data: Vec<Vec<T>>,
}

/// A copy of `v`, entry by entry.
fn copy_line<T: Scalar>(v: &Vec<T>) -> (r: Vec<T>)
    ensures
        r@ == v@,
{
    let mut r: Vec<T> = Vec::new();
    let mut k: usize = 0;
    while k < v.len()
        invariant
            k <= v.len(),
            r@ == v@.subrange(0, k as int),
        decreases v.len() - k,
    {
        r.push(v[k]);
        k = k + 1;
    }
    assert(r@ =~= v@);
    r
}

/// `n` rows of `p` copies of `v`.
fn filled<T: Scalar>(n: usize, p: usize, v: T) -> (r: Matrix<T>)
    ensures
        r.wf(),
        r.rows == n,
        r.cols == p,
        forall|i: int, j: int| 0 <= i < n && 0 <= j < p ==> #[trigger] r.grid()[i][j] == v,
{
    let mut data: Vec<Vec<T>> = Vec::new();
    let mut i: usize = 0;
    while i < n
        invariant
            i <= n,
            data@.len() == i,
            forall|a: int| 0 <= a < i ==> #[trigger] data@[a]@ == Seq::new(p as nat, |b: int| v),
        decreases n - i,
    {
        let mut line: Vec<T> = Vec::new();
        let mut j: usize = 0;
        while j < p
            invariant
                j <= p,
                line@ == Seq::new(j as nat, |b: int| v),
            decreases p - j,
        {
            line.push(v);
            j = j + 1;
            assert(line@ =~= Seq::new(j as nat, |b: int| v));
        }
        data.push(line);
        i = i + 1;
    }
    Matrix { rows: n, cols: p, data }
}

/// The entries of `v` as a bracketed, comma-separated list.
fn line_string<T: Scalar>(v: &Vec<T>) -> (r: String)
    ensures
        r@ == line_text(v@),
{
    proof {
        reveal_strlit("[");
        reveal_strlit("]");
    }
    let mut out = String::from_str("[");
    let ghost start = out@;
    let mut k: usize = 0;
    while k < v.len()
        invariant
            start == seq!['['],
            k <= v@.len(),
            out@ == start + entries_text(v@, k as nat),
        decreases v@.len() - k,
    {
        let ghost before = out@;
        if k > 0 {
            out.append(", ");
        }
        let t = T::to_text(v[k]);
        out.append(t.as_str());
        proof {
            if k == 0 {
                assert(entries_text(v@, 1) == T::text_spec(v@[0]));
                assert(out@ =~= start + entries_text(v@, 1));
            } else {
                reveal_strlit(", ");
                assert(", "@ =~= seq![',', ' ']);
                assert(entries_text(v@, (k + 1) as nat) == entries_text(v@, k as nat) + seq![',', ' ']
                    + T::text_spec(v@[k as int]));
                assert(out@ =~= start + entries_text(v@, (k + 1) as nat));
            }
        }
        k = k + 1;
    }
    out.append("]");
    assert(out@ =~= line_text(v@));
    out
}

impl<T: Scalar> Matrix<T> {
    /// The entries, row by row.
    pub open spec fn grid(&self) -> Seq<Seq<T>> {
        deep(self.data@)
    }

    /// `data` holds `rows` rows of `cols` entries each.
    pub open spec fn wf(&self) -> bool {
        is_rect(self.grid(), self.rows as nat, self.cols as nat)
    }

    /// Builds a matrix from its rows. The column count is that of the first row, or
    /// zero when there is no row.
    pub fn new(rows: Vec<Vec<T>>) -> (r: Result<Self, MatrixError>)
        ensures
            r is Ok <==> uniform(deep(rows@)),
            r is Err ==> r == Err::<Self, MatrixError>(MatrixError::DimensionMismatch),
            r matches Ok(m) ==> {
                &&& m.wf()
                &&& m.rows == rows@.len()
                &&& m.cols == (if rows@.len() == 0 { 0 } else { rows@[0]@.len() })
                &&& m.grid() == deep(rows@)
            },
    {
        let n = rows.len();
        let c: usize = if n == 0 { 0 } else { rows[0].len() };
        let mut i: usize = 0;
        while i < n
            invariant
                n == rows@.len(),
                c == (if n == 0 { 0 } else { rows@[0]@.len() }),
                i <= n,
                forall|a: int| 0 <= a < i ==> #[trigger] deep(rows@)[a].len() == c,
            decreases n - i,
        {
            if rows[i].len() != c {
                proof {
                    assert(deep(rows@)[i as int].len() != deep(rows@)[0].len());
                }
                return Err(MatrixError::DimensionMismatch);
            }
            i = i + 1;
        }
        Ok(Matrix { rows: n, cols: c, data: rows })
    }

    /// Checks that the stored rows agree with the recorded shape.
    pub fn check_valid_dims(&self) -> (r: Result<(), MatrixError>)
        ensures
            r is Ok <==> self.wf(),
            r is Err ==> r == Err::<(), MatrixError>(MatrixError::DimensionMismatch),
    {
        if self.data.len() != self.rows {
            return Err(MatrixError::DimensionMismatch);
        }
        let mut i: usize = 0;
        while i < self.data.len()
            invariant
                self.data@.len() == self.rows,
                i <= self.rows,
                forall|a: int| 0 <= a < i ==> #[trigger] self.grid()[a].len() == self.cols,
            decreases self.rows - i,
        {
            if self.data[i].len() != self.cols {
                proof {
                    assert(self.grid()[i as int].len() != self.cols);
                }
                return Err(MatrixError::DimensionMismatch);
            }
            i = i + 1;
        }
        Ok(())
    }

    /// Checks that both operands are well formed and share a shape.
    pub fn check_same_dims(&self, rhs: &Self) -> (r: Result<(), MatrixError>)
        ensures
            r is Ok <==> self.wf() && rhs.wf() && self.rows == rhs.rows && self.cols == rhs.cols,
            r is Err ==> r == Err::<(), MatrixError>(MatrixError::DimensionMismatch),
    {
        self.check_valid_dims()?;
        rhs.check_valid_dims()?;
        if self.rows != rhs.rows || self.cols != rhs.cols {
            return Err(MatrixError::DimensionMismatch);
        }
        Ok(())
    }

    /// An `n` by `p` matrix of zeros.
    pub fn zeros(n: usize, p: usize) -> (r: Self)
        ensures
            r.wf(),
            r.rows == n,
            r.cols == p,
            forall|i: int, j: int| 0 <= i < n && 0 <= j < p ==> #[trigger] r.grid()[i][j] == T::zero_spec(),
    {
        filled(n, p, T::zero())
    }

    /// An `n` by `p` matrix of ones.
    pub fn ones(n: usize, p: usize) -> (r: Self)
        ensures
            r.wf(),
            r.rows == n,
            r.cols == p,
            forall|i: int, j: int| 0 <= i < n && 0 <= j < p ==> #[trigger] r.grid()[i][j] == T::one_spec(),
    {
        filled(n, p, T::one())
    }

    /// A copy of row `i`.
    pub fn row(&self, i: usize) -> (r: Result<Vec<T>, MatrixError>)
        ensures
            i >= self.rows ==> r == Err::<Vec<T>, MatrixError>(MatrixError::IndexOutOfRange),
            i < self.rows && i < self.data@.len() ==> (r matches Ok(v) && v@ == self.grid()[i as int]),
            i < self.rows && i >= self.data@.len() ==> r == Err::<Vec<T>, MatrixError>(MatrixError::DimensionMismatch),
    {
        if i >= self.rows {
            return Err(MatrixError::IndexOutOfRange);
        }
        if i >= self.data.len() {
            return Err(MatrixError::DimensionMismatch);
        }
        Ok(copy_line(&self.data[i]))
    }

    /// A copy of column `j`: entry `j` of each row, top to bottom.
    pub fn col(&self, j: usize) -> (r: Result<Vec<T>, MatrixError>)
        ensures
            j >= self.cols ==> r == Err::<Vec<T>, MatrixError>(MatrixError::IndexOutOfRange),
            j < self.cols && has_column(self.grid(), j as int) ==> (r matches Ok(v) && v@ == column(self.grid(), j as int)),
            j < self.cols && !has_column(self.grid(), j as int) ==> r == Err::<Vec<T>, MatrixError>(MatrixError::DimensionMismatch),
    {
        if j >= self.cols {
            return Err(MatrixError::IndexOutOfRange);
        }
        let mut out: Vec<T> = Vec::new();
        let mut i: usize = 0;
        while i < self.data.len()
            invariant
                j < self.cols,
                i <= self.data@.len(),
                has_column(self.grid().subrange(0, i as int), j as int),
                out@ == column(self.grid().subrange(0, i as int), j as int),
            decreases self.data@.len() - i,
        {
            if j >= self.data[i].len() {
                proof {
                    assert(j >= self.grid()[i as int].len());
                }
                return Err(MatrixError::DimensionMismatch);
            }
            out.push(self.data[i][j]);
            i = i + 1;
            assert(out@ =~= column(self.grid().subrange(0, i as int), j as int));
        }
        assert(self.grid().subrange(0, i as int) =~= self.grid());
        Ok(out)
    }

    /// Entry `(n, p)` of the product of `self` and `rhs`.
    fn inner_product(&self, rhs: &Self, n: usize, p: usize) -> (r: T)
        requires
            self.wf(),
            rhs.wf(),
            self.cols == rhs.rows,
            n < self.rows,
            p < rhs.cols,
            products_fit(self.grid()[n as int], column(rhs.grid(), p as int), self.cols as nat),
        ensures
            r == sum_products(self.grid()[n as int], column(rhs.grid(), p as int), self.cols as nat),
    {
        let ghost x = self.grid()[n as int];
        let ghost y = column(rhs.grid(), p as int);
        let mut acc = T::zero();
        let mut k: usize = 0;
        while k < self.cols
            invariant
                self.wf(),
                rhs.wf(),
                self.cols == rhs.rows,
                n < self.rows,
                p < rhs.cols,
                x == self.grid()[n as int],
                y == column(rhs.grid(), p as int),
                products_fit(x, y, self.cols as nat),
                k <= self.cols,
                acc == sum_products(x, y, k as nat),
            decreases self.cols - k,
        {
            proof {
                assert(self.grid()[n as int].len() == self.cols);
                assert(rhs.grid()[k as int].len() == rhs.cols);
                assert(T::mul_ok(x[k as int], y[k as int]));
                assert(T::add_ok(sum_products(x, y, k as nat), T::mul_spec(x[k as int], y[k as int])));
            }
            let term = T::times(self.data[n][k], rhs.data[k][p]);
            acc = T::plus(acc, term);
            k = k + 1;
        }
        acc
    }

    /// The matrix product `self * rhs`: entry `(n, p)` is the sum over `k`, in
    /// increasing order, of `self[n][k] * rhs[k][p]`.
    pub fn dot(&self, rhs: &Self) -> (r: Result<Self, MatrixError>)
        requires
            self.wf() && rhs.wf() && self.cols == rhs.rows ==> product_fits(
                self.grid(),
                rhs.grid(),
                self.cols as nat,
                rhs.cols as nat,
            ),
        ensures
            self.cols != rhs.rows ==> r == Err::<Self, MatrixError>(MatrixError::IncompatibleDimensions),
            self.cols == rhs.rows && !(self.wf() && rhs.wf()) ==> r == Err::<Self, MatrixError>(
                MatrixError::DimensionMismatch,
            ),
            self.cols == rhs.rows && self.wf() && rhs.wf() ==> (r matches Ok(m) && {
                &&& m.wf()
                &&& m.rows == self.rows
                &&& m.cols == rhs.cols
                &&& m.grid() == product(self.grid(), rhs.grid(), self.cols as nat, rhs.cols as nat)
            }),
    {
        if self.cols != rhs.rows {
            return Err(MatrixError::IncompatibleDimensions);
        }
        if self.check_valid_dims().is_err() || rhs.check_valid_dims().is_err() {
            return Err(MatrixError::DimensionMismatch);
        }
        let ghost want = product(self.grid(), rhs.grid(), self.cols as nat, rhs.cols as nat);
        let mut data: Vec<Vec<T>> = Vec::new();
        let mut n: usize = 0;
        while n < self.rows
            invariant
                self.wf(),
                rhs.wf(),
                self.cols == rhs.rows,
                product_fits(self.grid(), rhs.grid(), self.cols as nat, rhs.cols as nat),
                want == product(self.grid(), rhs.grid(), self.cols as nat, rhs.cols as nat),
                n <= self.rows,
                data@.len() == n,
                forall|a: int| 0 <= a < n ==> #[trigger] data@[a]@ == want[a],
            decreases self.rows - n,
        {
            let mut line: Vec<T> = Vec::new();
            let mut p: usize = 0;
            while p < rhs.cols
                invariant
                    self.wf(),
                    rhs.wf(),
                    self.cols == rhs.rows,
                    product_fits(self.grid(), rhs.grid(), self.cols as nat, rhs.cols as nat),
                    want == product(self.grid(), rhs.grid(), self.cols as nat, rhs.cols as nat),
                    n < self.rows,
                    p <= rhs.cols,
                    line@ == want[n as int].subrange(0, p as int),
                decreases rhs.cols - p,
            {
                proof {
                    assert(products_fit(self.grid()[n as int], column(rhs.grid(), p as int), self.cols as nat));
                }
                let v = self.inner_product(rhs, n, p);
                line.push(v);
                p = p + 1;
                assert(line@ =~= want[n as int].subrange(0, p as int));
            }
            assert(line@ =~= want[n as int]);
            data.push(line);
            n = n + 1;
        }
        let m = Matrix { rows: self.rows, cols: rhs.cols, data };
        assert(m.grid() =~= want);
        Ok(m)
    }

    /// Entrywise sum. Both operands must be well formed and share a shape.
    pub fn add(&self, rhs: &Self) -> (r: Result<Self, MatrixError>)
        requires
            self.wf() && rhs.wf() && self.rows == rhs.rows && self.cols == rhs.cols ==> sum_fits(
                self.grid(),
                rhs.grid(),
            ),
        ensures
            r is Ok <==> self.wf() && rhs.wf() && self.rows == rhs.rows && self.cols == rhs.cols,
            r is Err ==> r == Err::<Self, MatrixError>(MatrixError::DimensionMismatch),
            r matches Ok(m) ==> {
                &&& m.wf()
                &&& m.rows == self.rows
                &&& m.cols == self.cols
                &&& m.grid() == sum_grid(self.grid(), rhs.grid())
            },
    {
        self.check_same_dims(rhs)?;
        let ghost want = sum_grid(self.grid(), rhs.grid());
        let mut data: Vec<Vec<T>> = Vec::new();
        let mut i: usize = 0;
        while i < self.rows
            invariant
                self.wf(),
                rhs.wf(),
                self.rows == rhs.rows,
                self.cols == rhs.cols,
                sum_fits(self.grid(), rhs.grid()),
                want == sum_grid(self.grid(), rhs.grid()),
                i <= self.rows,
                data@.len() == i,
                forall|a: int| 0 <= a < i ==> #[trigger] data@[a]@ == want[a],
            decreases self.rows - i,
        {
            let mut line: Vec<T> = Vec::new();
            let mut j: usize = 0;
            while j < self.cols
                invariant
                    self.wf(),
                    rhs.wf(),
                    self.rows == rhs.rows,
                    self.cols == rhs.cols,
                    sum_fits(self.grid(), rhs.grid()),
                    want == sum_grid(self.grid(), rhs.grid()),
                    i < self.rows,
                    j <= self.cols,
                    line@ == want[i as int].subrange(0, j as int),
                decreases self.cols - j,
            {
                proof {
                    assert(self.grid()[i as int].len() == self.cols);
                    assert(rhs.grid()[i as int].len() == self.cols);
                    assert(T::add_ok(self.grid()[i as int][j as int], rhs.grid()[i as int][j as int]));
                }
                line.push(T::plus(self.data[i][j], rhs.data[i][j]));
                j = j + 1;
                assert(line@ =~= want[i as int].subrange(0, j as int));
            }
            assert(line@ =~= want[i as int]);
            data.push(line);
            i = i + 1;
        }
        let m = Matrix { rows: self.rows, cols: self.cols, data };
        assert(m.grid() =~= want);
        Ok(m)
    }

    /// Entrywise difference. Both operands must be well formed and share a shape.
    pub fn sub(&self, rhs: &Self) -> (r: Result<Self, MatrixError>)
        requires
            self.wf() && rhs.wf() && self.rows == rhs.rows && self.cols == rhs.cols ==> diff_fits(
                self.grid(),
                rhs.grid(),
            ),
        ensures
            r is Ok <==> self.wf() && rhs.wf() && self.rows == rhs.rows && self.cols == rhs.cols,
            r is Err ==> r == Err::<Self, MatrixError>(MatrixError::DimensionMismatch),
            r matches Ok(m) ==> {
                &&& m.wf()
                &&& m.rows == self.rows
                &&& m.cols == self.cols
                &&& m.grid() == diff_grid(self.grid(), rhs.grid())
            },
    {
        self.check_same_dims(rhs)?;
        let ghost want = diff_grid(self.grid(), rhs.grid());
        let mut data: Vec<Vec<T>> = Vec::new();
        let mut i: usize = 0;
        while i < self.rows
            invariant
                self.wf(),
                rhs.wf(),
                self.rows == rhs.rows,
                self.cols == rhs.cols,
                diff_fits(self.grid(), rhs.grid()),
                want == diff_grid(self.grid(), rhs.grid()),
                i <= self.rows,
                data@.len() == i,
                forall|a: int| 0 <= a < i ==> #[trigger] data@[a]@ == want[a],
            decreases self.rows - i,
        {
            let mut line: Vec<T> = Vec::new();
            let mut j: usize = 0;
            while j < self.cols
                invariant
                    self.wf(),
                    rhs.wf(),
                    self.rows == rhs.rows,
                    self.cols == rhs.cols,
                    diff_fits(self.grid(), rhs.grid()),
                    want == diff_grid(self.grid(), rhs.grid()),
                    i < self.rows,
                    j <= self.cols,
                    line@ == want[i as int].subrange(0, j as int),
                decreases self.cols - j,
            {
                proof {
                    assert(self.grid()[i as int].len() == self.cols);
                    assert(rhs.grid()[i as int].len() == self.cols);
                    assert(T::sub_ok(self.grid()[i as int][j as int], rhs.grid()[i as int][j as int]));
                }
                line.push(T::minus(self.data[i][j], rhs.data[i][j]));
                j = j + 1;
                assert(line@ =~= want[i as int].subrange(0, j as int));
            }
            assert(line@ =~= want[i as int]);
            data.push(line);
            i = i + 1;
        }
        let m = Matrix { rows: self.rows, cols: self.cols, data };
        assert(m.grid() =~= want);
        Ok(m)
    }

    /// Every entry multiplied on the left by `a`; the shape is kept as recorded.
    pub fn dot_scalar(&self, a: T) -> (r: Self)
        requires
            scale_fits(a, self.grid()),
        ensures
            r.rows == self.rows,
            r.cols == self.cols,
            r.grid() == scaled(a, self.grid()),
            self.wf() ==> r.wf(),
    {
        let ghost want = scaled(a, self.grid());
        let mut data: Vec<Vec<T>> = Vec::new();
        let mut i: usize = 0;
        while i < self.data.len()
            invariant
                scale_fits(a, self.grid()),
                want == scaled(a, self.grid()),
                i <= self.data@.len(),
                data@.len() == i,
                forall|b: int| 0 <= b < i ==> #[trigger] data@[b]@ == want[b],
            decreases self.data@.len() - i,
        {
            let src = &self.data[i];
            let mut line: Vec<T> = Vec::new();
            let mut j: usize = 0;
            while j < src.len()
                invariant
                    scale_fits(a, self.grid()),
                    want == scaled(a, self.grid()),
                    i < self.data@.len(),
                    src@ == self.grid()[i as int],
                    j <= src@.len(),
                    line@ == want[i as int].subrange(0, j as int),
                decreases src@.len() - j,
            {
                proof {
                    assert(T::mul_ok(a, self.grid()[i as int][j as int]));
                }
                line.push(T::times(a, src[j]));
                j = j + 1;
                assert(line@ =~= want[i as int].subrange(0, j as int));
            }
            assert(line@ =~= want[i as int]);
            data.push(line);
            i = i + 1;
        }
        let m = Matrix { rows: self.rows, cols: self.cols, data };
        assert(m.grid() =~= want);
        m
    }

    /// The transpose: a `cols` by `rows` matrix whose row `i` is column `i` of `self`.
    pub fn transpose(&self) -> (r: Result<Self, MatrixError>)
        ensures
            r is Ok <==> self.wf(),
            r is Err ==> r == Err::<Self, MatrixError>(MatrixError::DimensionMismatch),
            r matches Ok(m) ==> {
                &&& m.wf()
                &&& m.rows == self.cols
                &&& m.cols == self.rows
                &&& m.grid() == transposed(self.grid(), self.cols as nat)
            },
    {
        self.check_valid_dims()?;
        let ghost want = transposed(self.grid(), self.cols as nat);
        let mut data: Vec<Vec<T>> = Vec::new();
        let mut i: usize = 0;
        while i < self.cols
            invariant
                self.wf(),
                want == transposed(self.grid(), self.cols as nat),
                i <= self.cols,
                data@.len() == i,
                forall|b: int| 0 <= b < i ==> #[trigger] data@[b]@ == want[b],
            decreases self.cols - i,
        {
            assert(has_column(self.grid(), i as int));
            match self.col(i) {
                Ok(c) => data.push(c),
                Err(e) => return Err(e),
            }
            i = i + 1;
        }
        let m = Matrix { rows: self.cols, cols: self.rows, data };
        assert(m.grid() =~= want);
        Ok(m)
    }

    /// One line per stored row, each a bracketed list such as `[1, 2, 3]`, joined by
    /// newlines with none at the end.
    pub fn render(&self) -> (r: String)
        ensures
            r@ == lines_text(self.grid(), self.data@.len() as nat),
    {
        let mut out = String::new();
        let mut i: usize = 0;
        while i < self.data.len()
            invariant
                i <= self.data@.len(),
                out@ == lines_text(self.grid(), i as nat),
            decreases self.data@.len() - i,
        {
            if i > 0 {
                out.append("\n");
            }
            let line = line_string(&self.data[i]);
            out.append(line.as_str());
            proof {
                assert(self.grid()[i as int] == self.data@[i as int]@);
                if i == 0 {
                    assert(out@ =~= lines_text(self.grid(), 1));
                } else {
                    reveal_strlit("\n");
                    assert("\n"@ =~= seq!['\n']);
                    assert(lines_text(self.grid(), (i + 1) as nat) == lines_text(self.grid(), i as nat)
                        + seq!['\n'] + line_text(self.grid()[i as int]));
                    assert(out@ =~= lines_text(self.grid(), (i + 1) as nat));
                }
            }
            i = i + 1;
        }
        out
    }

    /// Whether every entrywise sum with `rhs` is representable, as `add` requires;
    /// true when `add` would refuse the shapes.
    pub fn add_in_range(&self, rhs: &Self) -> (r: bool)
        ensures
            r == (self.wf() && rhs.wf() && self.rows == rhs.rows && self.cols == rhs.cols ==> sum_fits(
                self.grid(),
                rhs.grid(),
            )),
    {
        if self.check_same_dims(rhs).is_err() {
            return true;
        }
        let mut i: usize = 0;
        while i < self.rows
            invariant
                self.wf(),
                rhs.wf(),
                self.rows == rhs.rows,
                self.cols == rhs.cols,
                i <= self.rows,
                forall|a: int, b: int|
                    0 <= a < i && 0 <= b < self.cols ==> T::add_ok(
                        #[trigger] self.grid()[a][b],
                        #[trigger] rhs.grid()[a][b],
                    ),
            decreases self.rows - i,
        {
            let mut j: usize = 0;
            while j < self.cols
                invariant
                    self.wf(),
                    rhs.wf(),
                    self.rows == rhs.rows,
                    self.cols == rhs.cols,
                    i < self.rows,
                    j <= self.cols,
                    forall|a: int, b: int|
                        0 <= a < i && 0 <= b < self.cols ==> T::add_ok(
                            #[trigger] self.grid()[a][b],
                            #[trigger] rhs.grid()[a][b],
                        ),
                    forall|b: int| 0 <= b < j ==> T::add_ok(
                        #[trigger] self.grid()[i as int][b],
                        rhs.grid()[i as int][b],
                    ),
                decreases self.cols - j,
            {
                proof {
                    assert(self.grid()[i as int].len() == self.cols);
                    assert(rhs.grid()[i as int].len() == self.cols);
                }
                if !T::can_add(self.data[i][j], rhs.data[i][j]) {
                    return false;
                }
                j = j + 1;
            }
            i = i + 1;
        }
        true
    }

    /// Whether every entrywise difference with `rhs` is representable, as `sub`
    /// requires; true when `sub` would refuse the shapes.
    pub fn sub_in_range(&self, rhs: &Self) -> (r: bool)
        ensures
            r == (self.wf() && rhs.wf() && self.rows == rhs.rows && self.cols == rhs.cols ==> diff_fits(
                self.grid(),
                rhs.grid(),
            )),
    {
        if self.check_same_dims(rhs).is_err() {
            return true;
        }
        let mut i: usize = 0;
        while i < self.rows
            invariant
                self.wf(),
                rhs.wf(),
                self.rows == rhs.rows,
                self.cols == rhs.cols,
                i <= self.rows,
                forall|a: int, b: int|
                    0 <= a < i && 0 <= b < self.cols ==> T::sub_ok(
                        #[trigger] self.grid()[a][b],
                        #[trigger] rhs.grid()[a][b],
                    ),
            decreases self.rows - i,
        {
            let mut j: usize = 0;
            while j < self.cols
                invariant
                    self.wf(),
                    rhs.wf(),
                    self.rows == rhs.rows,
                    self.cols == rhs.cols,
                    i < self.rows,
                    j <= self.cols,
                    forall|a: int, b: int|
                        0 <= a < i && 0 <= b < self.cols ==> T::sub_ok(
                            #[trigger] self.grid()[a][b],
                            #[trigger] rhs.grid()[a][b],
                        ),
                    forall|b: int| 0 <= b < j ==> T::sub_ok(
                        #[trigger] self.grid()[i as int][b],
                        rhs.grid()[i as int][b],
                    ),
                decreases self.cols - j,
            {
                proof {
                    assert(self.grid()[i as int].len() == self.cols);
                    assert(rhs.grid()[i as int].len() == self.cols);
                }
                if !T::can_sub(self.data[i][j], rhs.data[i][j]) {
                    return false;
                }
                j = j + 1;
            }
            i = i + 1;
        }
        true
    }

    /// Whether every product `a * self[i][j]` is representable, as `dot_scalar`
    /// requires.
    pub fn scale_in_range(&self, a: T) -> (r: bool)
        ensures
            r == scale_fits(a, self.grid()),
    {
        let mut i: usize = 0;
        while i < self.data.len()
            invariant
                i <= self.data@.len(),
                forall|x: int, y: int|
                    0 <= x < i && 0 <= y < self.grid()[x].len() ==> T::mul_ok(a, #[trigger] self.grid()[x][y]),
            decreases self.data@.len() - i,
        {
            let src = &self.data[i];
            let mut j: usize = 0;
            while j < src.len()
                invariant
                    i < self.data@.len(),
                    src@ == self.grid()[i as int],
                    j <= src@.len(),
                    forall|x: int, y: int|
                        0 <= x < i && 0 <= y < self.grid()[x].len() ==> T::mul_ok(a, #[trigger] self.grid()[x][y]),
                    forall|y: int| 0 <= y < j ==> T::mul_ok(a, #[trigger] self.grid()[i as int][y]),
                decreases src@.len() - j,
            {
                if !T::can_mul(a, src[j]) {
                    return false;
                }
                j = j + 1;
            }
            i = i + 1;
        }
        true
    }

    /// Whether entry `(n, p)` of the product can be computed without leaving the
    /// element type.
    fn products_in_range(&self, rhs: &Self, n: usize, p: usize) -> (r: bool)
        requires
            self.wf(),
            rhs.wf(),
            self.cols == rhs.rows,
            n < self.rows,
            p < rhs.cols,
        ensures
            r == products_fit(self.grid()[n as int], column(rhs.grid(), p as int), self.cols as nat),
    {
        let ghost x = self.grid()[n as int];
        let ghost y = column(rhs.grid(), p as int);
        let mut acc = T::zero();
        let mut k: usize = 0;
        while k < self.cols
            invariant
                self.wf(),
                rhs.wf(),
                self.cols == rhs.rows,
                n < self.rows,
                p < rhs.cols,
                x == self.grid()[n as int],
                y == column(rhs.grid(), p as int),
                k <= self.cols,
                products_fit(x, y, k as nat),
                acc == sum_products(x, y, k as nat),
            decreases self.cols - k,
        {
            proof {
                assert(self.grid()[n as int].len() == self.cols);
                assert(rhs.grid()[k as int].len() == rhs.cols);
            }
            let u = self.data[n][k];
            let v = rhs.data[k][p];
            if !T::can_mul(u, v) {
                proof {
                    assert(!T::mul_ok(x[k as int], y[k as int]));
                    assert(sum_products(x, y, k as nat) == acc);
                }
                return false;
            }
            let term = T::times(u, v);
            if !T::can_add(acc, term) {
                proof {
                    assert(sum_products(x, y, k as nat) == acc);
                }
                return false;
            }
            acc = T::plus(acc, term);
            proof {
                lemma_products_fit_step(x, y, k as nat);
            }
            k = k + 1;
        }
        true
    }

    /// Whether the product with `rhs` can be computed without leaving the element
    /// type, as `dot` requires; true when `dot` would refuse the shapes.
    pub fn dot_in_range(&self, rhs: &Self) -> (r: bool)
        ensures
            r == (self.wf() && rhs.wf() && self.cols == rhs.rows ==> product_fits(
                self.grid(),
                rhs.grid(),
                self.cols as nat,
                rhs.cols as nat,
            )),
    {
        if self.cols != rhs.rows || self.check_valid_dims().is_err() || rhs.check_valid_dims().is_err() {
            return true;
        }
        let mut n: usize = 0;
        while n < self.rows
            invariant
                self.wf(),
                rhs.wf(),
                self.cols == rhs.rows,
                n <= self.rows,
                forall|a: int, b: int|
                    0 <= a < n && 0 <= b < rhs.cols ==> #[trigger] products_fit(
                        self.grid()[a],
                        column(rhs.grid(), b),
                        self.cols as nat,
                    ),
            decreases self.rows - n,
        {
            let mut p: usize = 0;
            while p < rhs.cols
                invariant
                    self.wf(),
                    rhs.wf(),
                    self.cols == rhs.rows,
                    n < self.rows,
                    p <= rhs.cols,
                    forall|a: int, b: int|
                        0 <= a < n && 0 <= b < rhs.cols ==> #[trigger] products_fit(
                            self.grid()[a],
                            column(rhs.grid(), b),
                            self.cols as nat,
                        ),
                    forall|b: int| 0 <= b < p ==> #[trigger] products_fit(
                        self.grid()[n as int],
                        column(rhs.grid(), b),
                        self.cols as nat,
                    ),
                decreases rhs.cols - p,
            {
                if !self.products_in_range(rhs, n, p) {
                    return false;
                }
                p = p + 1;
            }
            n = n + 1;
        }
        true
    }
}

} // verus!
