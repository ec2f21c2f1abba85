//! Gauss-Seidel relaxation of an implicit linear system over the interior
//! cells of a field.
use vstd::prelude::*;
use crate::scalar::Scalar;
use crate::grid::{Field, Grid, interior, put, rectangular, same_border, same_shape};

verus! {

/// The number of interior positions along a side of the given length.
pub open spec fn interior_span(len: nat) -> nat {
    if len >= 2 {
        (len - 2) as nat
    } else {
        0
    }
}

/// The relaxed value of cell `(x, y)`: the source term plus `a` times the
/// sum of the four neighbours in `f`, divided by `c`.
pub open spec fn relaxed_value<S: Scalar>(
    f: Field<S>,
    source: Field<S>,
    a: S,
    c: S,
    x: int,
    y: int,
) -> S {
    source[x][y].sum(
        a.product(f[x - 1][y].sum(f[x + 1][y]).sum(f[x][y - 1]).sum(f[x][y + 1])),
    ).quotient(c)
}

/// `f` after the cells `(1, y)` to `(n, y)` were relaxed one after another,
/// each reading the values its predecessors left.
pub open spec fn relaxed_row<S: Scalar>(
    f: Field<S>,
    source: Field<S>,
    a: S,
    c: S,
    y: int,
    n: nat,
) -> Field<S>
    decreases n,
{
    if n == 0 {
        f
    } else {
        let before = relaxed_row(f, source, a, c, y, (n - 1) as nat);
        put(before, n as int, y, relaxed_value(before, source, a, c, n as int, y))
    }
}

/// `f` after the interior cells of rows `1` to `m` were relaxed, row after
/// row.
pub open spec fn relaxed_rows<S: Scalar>(
    f: Field<S>,
    source: Field<S>,
    a: S,
    c: S,
    m: nat,
) -> Field<S>
    decreases m,
{
    if m == 0 {
        f
    } else {
        relaxed_row(
            relaxed_rows(f, source, a, c, (m - 1) as nat),
            source,
            a,
            c,
            m as int,
            interior_span(f.len()),
        )
    }
}

/// `f` after the given number of sweeps over all its interior cells.
pub open spec fn relaxed<S: Scalar>(
    f: Field<S>,
    source: Field<S>,
    a: S,
    c: S,
    sweeps: nat,
) -> Field<S>
    decreases sweeps,
{
    if sweeps == 0 {
        f
    } else {
        relaxed_rows(
            relaxed(f, source, a, c, (sweeps - 1) as nat),
            source,
            a,
            c,
            interior_span(f[0].len()),
        )
    }
}

/// Relaxing part of a row changes the cells it visits and nothing else.
pub proof fn lemma_relaxed_row_frame<S: Scalar>(
    f: Field<S>,
    source: Field<S>,
    a: S,
    c: S,
    y: int,
    n: nat,
)
    requires
        rectangular(f),
        0 <= y < f[0].len(),
        n < f.len(),
    ensures
        rectangular(relaxed_row(f, source, a, c, y, n)),
        same_shape(relaxed_row(f, source, a, c, y, n), f),
        forall|i: int, j: int|
            0 <= i < f.len() && 0 <= j < f[0].len() && !(j == y && 1 <= i <= n) ==> (
            #[trigger] relaxed_row(f, source, a, c, y, n)[i][j]) == f[i][j],
    decreases n,
{
    if n > 0 {
        lemma_relaxed_row_frame(f, source, a, c, y, (n - 1) as nat);
    }
}

/// Relaxing the first rows changes their interior cells and nothing else.
pub proof fn lemma_relaxed_rows_frame<S: Scalar>(
    f: Field<S>,
    source: Field<S>,
    a: S,
    c: S,
    m: nat,
)
    requires
        rectangular(f),
        m <= interior_span(f[0].len()),
    ensures
        rectangular(relaxed_rows(f, source, a, c, m)),
        same_shape(relaxed_rows(f, source, a, c, m), f),
        forall|i: int, j: int|
            0 <= i < f.len() && 0 <= j < f[0].len() && !(interior(f, i, j) && j <= m) ==> (
            #[trigger] relaxed_rows(f, source, a, c, m)[i][j]) == f[i][j],
    decreases m,
{
    if m > 0 {
        let before = relaxed_rows(f, source, a, c, (m - 1) as nat);
        lemma_relaxed_rows_frame(f, source, a, c, (m - 1) as nat);
        lemma_relaxed_row_frame(before, source, a, c, m as int, interior_span(f.len()));
    }
}

/// Relaxation keeps the shape of a field and the values on its outermost
/// rows and columns.
pub proof fn lemma_relaxed_frame<S: Scalar>(
    f: Field<S>,
    source: Field<S>,
    a: S,
    c: S,
    sweeps: nat,
)
    requires
        rectangular(f),
    ensures
        rectangular(relaxed(f, source, a, c, sweeps)),
        same_border(f, relaxed(f, source, a, c, sweeps)),
    decreases sweeps,
{
    if sweeps > 0 {
        let before = relaxed(f, source, a, c, (sweeps - 1) as nat);
        lemma_relaxed_frame(f, source, a, c, (sweeps - 1) as nat);
        lemma_relaxed_rows_frame(before, source, a, c, interior_span(f[0].len()));
    }
}

/// Relaxes the interior cells of `b` in place, `sweeps` times over. Each
/// sweep visits the rows in order of `y` and the cells of a row in order of
/// `x`, and sets each cell to its relaxed value, computed from the
/// neighbours as they stand at that moment. The outermost rows and columns
/// are read and never written.
pub fn lin_solve<S: Scalar>(a: S, c: S, b: &mut Grid<S>, source: &Grid<S>, sweeps: usize)
    requires
        old(b).wf(),
        source.wf(),
        same_shape(old(b)@, source@),
    ensures
        final(b).wf(),
        same_border(old(b)@, final(b)@),
        final(b)@ == relaxed(old(b)@, source@, a, c, sweeps as nat),
{
    proof {
        lemma_relaxed_frame(old(b)@, source@, a, c, sweeps as nat);
    }
    let width: usize = b.width();
    let height: usize = b.height();
    let mut k: usize = 0;
    while k < sweeps
        invariant
            k <= sweeps,
            b.wf(),
            source.wf(),
            b@.len() == width == source@.len(),
            b@[0].len() == height == source@[0].len(),
            width == old(b)@.len(),
            height == old(b)@[0].len(),
            b@ == relaxed(old(b)@, source@, a, c, k as nat),
        decreases sweeps - k,
    {
        let ghost sweep_start = b@;
        let mut j: usize = 1;
        while j + 1 < height
            invariant
                1 <= j,
                j == 1 || j + 1 <= height,
                b.wf(),
                source.wf(),
                b@.len() == width == source@.len(),
                b@[0].len() == height == source@[0].len(),
                sweep_start.len() == width,
                b@ == relaxed_rows(sweep_start, source@, a, c, (j - 1) as nat),
            decreases height - j,
        {
            let ghost row_start = b@;
            let mut i: usize = 1;
            while i + 1 < width
                invariant
                    1 <= i,
                    i == 1 || i + 1 <= width,
                    0 < j < height - 1,
                    b.wf(),
                    source.wf(),
                    b@.len() == width == source@.len(),
                    b@[0].len() == height == source@[0].len(),
                    b@ == relaxed_row(row_start, source@, a, c, j as int, (i - 1) as nat),
                decreases width - i,
            {
                let around: S = b.get(i - 1, j).plus(b.get(i + 1, j)).plus(b.get(i, j - 1)).plus(
                    b.get(i, j + 1),
                );
                let value: S = source.get(i, j).plus(a.times(around)).over(c);
                b.set(i, j, value);
                i += 1;
            }
            j += 1;
        }
        k += 1;
    }
}

} // verus!
