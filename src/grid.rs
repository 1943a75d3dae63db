use vstd::prelude::*;

use crate::scalar::Scalar;

verus! {

/// The nested contents of a vector of rows.
pub open spec fn deep<T>(v: Seq<Vec<T>>) -> Seq<Seq<T>> {
    v.map_values(|r: Vec<T>| r@)
}

/// Every line of `g` is as long as the first one.
pub open spec fn uniform<T>(g: Seq<Seq<T>>) -> bool {
    forall|i: int| 0 <= i < g.len() ==> #[trigger] g[i].len() == g[0].len()
}

/// `g` has `r` lines of `c` entries each.
pub open spec fn is_rect<T>(g: Seq<Seq<T>>, r: nat, c: nat) -> bool {
    &&& g.len() == r
    &&& forall|i: int| 0 <= i < r ==> #[trigger] g[i].len() == c
}

/// Entry `j` of each line of `g`, top to bottom.
pub open spec fn column<T>(g: Seq<Seq<T>>, j: int) -> Seq<T> {
    Seq::new(g.len(), |i: int| g[i][j])
}

/// Every line of `g` has an entry at position `j`.
pub open spec fn has_column<T>(g: Seq<Seq<T>>, j: int) -> bool {
    forall|i: int| 0 <= i < g.len() ==> j < #[trigger] g[i].len()
}

/// The `c` columns of `g`, each as a line.
pub open spec fn transposed<T>(g: Seq<Seq<T>>, c: nat) -> Seq<Seq<T>> {
    Seq::new(c, |j: int| column(g, j))
}

/// Entrywise sum, shaped like `a`.
pub open spec fn sum_grid<T: Scalar>(a: Seq<Seq<T>>, b: Seq<Seq<T>>) -> Seq<Seq<T>> {
    Seq::new(a.len(), |i: int| Seq::new(a[i].len(), |j: int| T::add_spec(a[i][j], b[i][j])))
}

/// Entrywise difference, shaped like `a`.
pub open spec fn diff_grid<T: Scalar>(a: Seq<Seq<T>>, b: Seq<Seq<T>>) -> Seq<Seq<T>> {
    Seq::new(a.len(), |i: int| Seq::new(a[i].len(), |j: int| T::sub_spec(a[i][j], b[i][j])))
}

/// Every entrywise sum of `a` and `b` is representable.
pub open spec fn sum_fits<T: Scalar>(a: Seq<Seq<T>>, b: Seq<Seq<T>>) -> bool {
    forall|i: int, j: int|
        0 <= i < a.len() && 0 <= j < a[i].len() ==> T::add_ok(#[trigger] a[i][j], #[trigger] b[i][j])
}

/// Every entrywise difference of `a` and `b` is representable.
pub open spec fn diff_fits<T: Scalar>(a: Seq<Seq<T>>, b: Seq<Seq<T>>) -> bool {
    forall|i: int, j: int|
        0 <= i < a.len() && 0 <= j < a[i].len() ==> T::sub_ok(#[trigger] a[i][j], #[trigger] b[i][j])
}

/// Each entry of `g` multiplied on the left by `k`.
pub open spec fn scaled<T: Scalar>(k: T, g: Seq<Seq<T>>) -> Seq<Seq<T>> {
    Seq::new(g.len(), |i: int| Seq::new(g[i].len(), |j: int| T::mul_spec(k, g[i][j])))
}

/// Every product `k * g[i][j]` is representable.
pub open spec fn scale_fits<T: Scalar>(k: T, g: Seq<Seq<T>>) -> bool {
    forall|i: int, j: int| 0 <= i < g.len() && 0 <= j < g[i].len() ==> T::mul_ok(k, #[trigger] g[i][j])
}

/// `x[0] * y[0] + ... + x[n - 1] * y[n - 1]`, summed from zero in increasing order.
pub open spec fn sum_products<T: Scalar>(x: Seq<T>, y: Seq<T>, n: nat) -> T
    decreases n,
{
    if n == 0 {
        T::zero_spec()
    } else {
        T::add_spec(
            sum_products(x, y, (n - 1) as nat),
            T::mul_spec(x[n - 1], y[n - 1]),
        )
    }
}

/// Every product and every partial sum of `sum_products(x, y, n)` is representable.
pub open spec fn products_fit<T: Scalar>(x: Seq<T>, y: Seq<T>, n: nat) -> bool {
    forall|t: nat|
        t < n ==> T::mul_ok(#[trigger] x[t as int], y[t as int]) && T::add_ok(
            sum_products(x, y, t),
            T::mul_spec(x[t as int], y[t as int]),
        )
}

/// One more step of `sum_products` that stays representable keeps the whole sum so.
pub proof fn lemma_products_fit_step<T: Scalar>(x: Seq<T>, y: Seq<T>, k: nat)
    requires
        products_fit(x, y, k),
        T::mul_ok(x[k as int], y[k as int]),
        T::add_ok(sum_products(x, y, k), T::mul_spec(x[k as int], y[k as int])),
    ensures
        products_fit(x, y, (k + 1) as nat),
{
    let n = (k + 1) as nat;
    assert forall|t: nat| t < n implies T::mul_ok(#[trigger] x[t as int], y[t as int]) && T::add_ok(
        sum_products(x, y, t),
        T::mul_spec(x[t as int], y[t as int]),
    ) by {
        if t < k {
            assert(T::add_ok(sum_products(x, y, t), T::mul_spec(x[t as int], y[t as int])));
        }
    }
}

/// The matrix product of `a` (with `n` columns) and `b` (with `p` columns).
pub open spec fn product<T: Scalar>(a: Seq<Seq<T>>, b: Seq<Seq<T>>, n: nat, p: nat) -> Seq<
    Seq<T>,
> {
    Seq::new(a.len(), |i: int| Seq::new(p, |j: int| sum_products(a[i], column(b, j), n)))
}

/// The product of `a` (with `n` columns) and `b` (with `p` columns) can be computed
/// without leaving the element type.
pub open spec fn product_fits<T: Scalar>(a: Seq<Seq<T>>, b: Seq<Seq<T>>, n: nat, p: nat) -> bool {
    forall|i: int, j: int|
        0 <= i < a.len() && 0 <= j < p ==> #[trigger] products_fit(a[i], column(b, j), n)
}

/// The first `n` entries of `r`, separated by a comma and a space.
pub open spec fn entries_text<T: Scalar>(r: Seq<T>, n: nat) -> Seq<char>
    decreases n,
{
    if n == 0 {
        Seq::empty()
    } else if n == 1 {
        T::text_spec(r[0])
    } else {
        entries_text(r, (n - 1) as nat) + seq![',', ' '] + T::text_spec(r[n - 1])
    }
}

/// A line rendered as a bracketed list, as in `[1, 2, 3]`.
pub open spec fn line_text<T: Scalar>(r: Seq<T>) -> Seq<char> {
    seq!['['] + entries_text(r, r.len()) + seq![']']
}

/// The first `n` lines of `g`, rendered and joined by newlines.
pub open spec fn lines_text<T: Scalar>(g: Seq<Seq<T>>, n: nat) -> Seq<char>
    decreases n,
{
    if n == 0 {
        Seq::empty()
    } else if n == 1 {
        line_text(g[0])
    } else {
        lines_text(g, (n - 1) as nat) + seq!['\n'] + line_text(g[n - 1])
    }
}

} // verus!
