//! Removal of divergence from a velocity field.
use vstd::prelude::*;
use crate::scalar::Scalar;
use crate::grid::{Field, Grid, filled, interior, same_shape};
use crate::relaxation::{lin_solve, relaxed};

verus! {

/// One half: one divided by two.
pub open spec fn half<S: Scalar>() -> S {
    S::count_value(1).quotient(S::count_value(2))
}

/// The divergence of the velocity `(u, v)` at the interior cell `(x, y)`:
/// minus one half of the sum of the change of `u` across the cell in `x`,
/// divided by the width, and the change of `v` across it in `y`, divided by
/// the height.
pub open spec fn divergence_value<S: Scalar>(u: Field<S>, v: Field<S>, x: int, y: int) -> S {
    S::zero_value().difference(half::<S>()).product(
        u[x + 1][y].difference(u[x - 1][y]).quotient(S::count_value(u.len() as usize)).sum(
            v[x][y + 1].difference(v[x][y - 1]).quotient(S::count_value(u[0].len() as usize)),
        ),
    )
}

/// The divergence of the velocity `(u, v)`: zero on the outermost rows and
/// columns.
pub open spec fn divergence<S: Scalar>(u: Field<S>, v: Field<S>) -> Field<S> {
    Seq::new(
        u.len(),
        |x: int|
            Seq::new(
                u[0].len(),
                |y: int|
                    if interior(u, x, y) {
                        divergence_value(u, v, x, y)
                    } else {
                        S::zero_value()
                    },
            ),
    )
}

/// `u` with zero in its first and its last column.
pub open spec fn walled_columns<S: Scalar>(u: Field<S>) -> Field<S> {
    Seq::new(
        u.len(),
        |x: int|
            Seq::new(
                u[0].len(),
                |y: int|
                    if x == 0 || x == u.len() - 1 {
                        S::zero_value()
                    } else {
                        u[x][y]
                    },
            ),
    )
}

/// `v` with zero in its first and its last row.
pub open spec fn walled_rows<S: Scalar>(v: Field<S>) -> Field<S> {
    Seq::new(
        v.len(),
        |x: int|
            Seq::new(
                v[0].len(),
                |y: int|
                    if y == 0 || y == v[0].len() - 1 {
                        S::zero_value()
                    } else {
                        v[x][y]
                    },
            ),
    )
}

/// The pressure that the divergence of `(u, v)` gives rise to: the
/// relaxation, from zero, of the system with coefficient one and divisor
/// four whose source term is the divergence.
pub open spec fn pressure<S: Scalar>(u: Field<S>, v: Field<S>, sweeps: nat) -> Field<S> {
    relaxed(
        filled(u.len(), u[0].len(), S::zero_value()),
        divergence(u, v),
        S::count_value(1),
        S::count_value(4),
        sweeps,
    )
}

/// `u` with, at each interior cell, half the width times the change of `p`
/// across the cell in `x` taken off.
pub open spec fn corrected_x<S: Scalar>(u: Field<S>, p: Field<S>) -> Field<S> {
    Seq::new(
        u.len(),
        |x: int|
            Seq::new(
                u[0].len(),
                |y: int|
                    if interior(u, x, y) {
                        u[x][y].difference(
                            half::<S>().product(S::count_value(u.len() as usize)).product(
                                p[x + 1][y].difference(p[x - 1][y]),
                            ),
                        )
                    } else {
                        u[x][y]
                    },
            ),
    )
}

/// `v` with, at each interior cell, half the height times the change of `p`
/// across the cell in `y` taken off.
pub open spec fn corrected_y<S: Scalar>(v: Field<S>, p: Field<S>) -> Field<S> {
    Seq::new(
        v.len(),
        |x: int|
            Seq::new(
                v[0].len(),
                |y: int|
                    if interior(v, x, y) {
                        v[x][y].difference(
                            half::<S>().product(S::count_value(v[0].len() as usize)).product(
                                p[x][y + 1].difference(p[x][y - 1]),
                            ),
                        )
                    } else {
                        v[x][y]
                    },
            ),
    )
}

/// The `x` component of the velocity `(u, v)` after one projection.
pub open spec fn projected_x<S: Scalar>(u: Field<S>, v: Field<S>, sweeps: nat) -> Field<S> {
    corrected_x(walled_columns(u), pressure(u, v, sweeps))
}

/// The `y` component of the velocity `(u, v)` after one projection.
pub open spec fn projected_y<S: Scalar>(u: Field<S>, v: Field<S>, sweeps: nat) -> Field<S> {
    corrected_y(walled_rows(v), pressure(u, v, sweeps))
}

fn measure_divergence<S: Scalar>(u: &Grid<S>, v: &Grid<S>) -> (d: Grid<S>)
    requires
        u.wf(),
        v.wf(),
        same_shape(u@, v@),
    ensures
        d.wf(),
        d@ == divergence(u@, v@),
{
    let width: usize = u.width();
    let height: usize = u.height();
    let minus_half: S = S::zero().minus(S::from_count(1).over(S::from_count(2)));
    let across: S = S::from_count(width);
    let along: S = S::from_count(height);
    let mut d: Grid<S> = u.zeros_like();
    let mut j: usize = 1;
    while j + 1 < height
        invariant
            1 <= j,
            j == 1 || j + 1 <= height,
            u.wf(),
            v.wf(),
            d.wf(),
            u@.len() == width == v@.len() == d@.len(),
            u@[0].len() == height == v@[0].len() == d@[0].len(),
            minus_half == S::zero_value().difference(half::<S>()),
            across == S::count_value(width),
            along == S::count_value(height),
            forall|x: int, y: int|
                0 <= x < width && 0 <= y < height ==> #[trigger] d@[x][y] == if interior(u@, x, y) && y < j {
                    divergence_value(u@, v@, x, y)
                } else {
                    S::zero_value()
                },
        decreases height - j,
    {
        let mut i: usize = 1;
        while i + 1 < width
            invariant
                1 <= i,
                i == 1 || i + 1 <= width,
                0 < j < height - 1,
                u.wf(),
                v.wf(),
                d.wf(),
                u@.len() == width == v@.len() == d@.len(),
                u@[0].len() == height == v@[0].len() == d@[0].len(),
                minus_half == S::zero_value().difference(half::<S>()),
                across == S::count_value(width),
                along == S::count_value(height),
                forall|x: int, y: int|
                    0 <= x < width && 0 <= y < height ==> #[trigger] d@[x][y] == if interior(u@, x, y) && (y
                        < j || (y == j && x < i)) {
                        divergence_value(u@, v@, x, y)
                    } else {
                        S::zero_value()
                    },
            decreases width - i,
        {
            let change_x: S = u.get(i + 1, j).minus(u.get(i - 1, j)).over(across);
            let change_y: S = v.get(i, j + 1).minus(v.get(i, j - 1)).over(along);
            d.set(i, j, minus_half.times(change_x.plus(change_y)));
            i += 1;
        }
        j += 1;
    }
    proof {
        assert forall|x: int| 0 <= x < width implies #[trigger] d@[x] =~= divergence(u@, v@)[x] by {
        }
        assert(d@ =~= divergence(u@, v@));
    }
    d
}

fn wall_columns<S: Scalar>(u: &mut Grid<S>)
    requires
        old(u).wf(),
    ensures
        final(u).wf(),
        final(u)@ == walled_columns(old(u)@),
{
    let width: usize = u.width();
    let height: usize = u.height();
    let mut j: usize = 0;
    while j < height
        invariant
            j <= height,
            u.wf(),
            u@.len() == width == old(u)@.len(),
            u@[0].len() == height == old(u)@[0].len(),
            forall|x: int, y: int|
                0 <= x < width && 0 <= y < height ==> #[trigger] u@[x][y] == if y < j && (x == 0 || x == width
                    - 1) {
                    S::zero_value()
                } else {
                    old(u)@[x][y]
                },
        decreases height - j,
    {
        u.set(0, j, S::zero());
        u.set(width - 1, j, S::zero());
        j += 1;
    }
    proof {
        assert forall|x: int| 0 <= x < width implies #[trigger] u@[x] =~= walled_columns(
            old(u)@,
        )[x] by {
        }
        assert(u@ =~= walled_columns(old(u)@));
    }
}

fn wall_rows<S: Scalar>(v: &mut Grid<S>)
    requires
        old(v).wf(),
    ensures
        final(v).wf(),
        final(v)@ == walled_rows(old(v)@),
{
    let width: usize = v.width();
    let height: usize = v.height();
    let mut i: usize = 0;
    while i < width
        invariant
            i <= width,
            v.wf(),
            v@.len() == width == old(v)@.len(),
            v@[0].len() == height == old(v)@[0].len(),
            forall|x: int, y: int|
                0 <= x < width && 0 <= y < height ==> #[trigger] v@[x][y] == if x < i && (y == 0 || y
                    == height - 1) {
                    S::zero_value()
                } else {
                    old(v)@[x][y]
                },
        decreases width - i,
    {
        v.set(i, 0, S::zero());
        v.set(i, height - 1, S::zero());
        i += 1;
    }
    proof {
        assert forall|x: int| 0 <= x < width implies #[trigger] v@[x] =~= walled_rows(old(v)@)[x] by {
        }
        assert(v@ =~= walled_rows(old(v)@));
    }
}

fn correct<S: Scalar>(u: &mut Grid<S>, v: &mut Grid<S>, p: &Grid<S>)
    requires
        old(u).wf(),
        old(v).wf(),
        p.wf(),
        same_shape(old(u)@, old(v)@),
        same_shape(old(u)@, p@),
    ensures
        final(u).wf(),
        final(v).wf(),
        final(u)@ == corrected_x(old(u)@, p@),
        final(v)@ == corrected_y(old(v)@, p@),
{
    let width: usize = u.width();
    let height: usize = u.height();
    let half_width: S = S::from_count(1).over(S::from_count(2)).times(S::from_count(width));
    let half_height: S = S::from_count(1).over(S::from_count(2)).times(S::from_count(height));
    let mut j: usize = 1;
    while j + 1 < height
        invariant
            1 <= j,
            j == 1 || j + 1 <= height,
            u.wf(),
            v.wf(),
            p.wf(),
            u@.len() == width == v@.len() == p@.len() == old(u)@.len() == old(v)@.len(),
            u@[0].len() == height == v@[0].len() == p@[0].len() == old(u)@[0].len() == old(
                v,
            )@[0].len(),
            half_width == half::<S>().product(S::count_value(width)),
            half_height == half::<S>().product(S::count_value(height)),
            forall|x: int, y: int|
                0 <= x < width && 0 <= y < height ==> #[trigger] u@[x][y] == if y < j {
                    corrected_x(old(u)@, p@)[x][y]
                } else {
                    old(u)@[x][y]
                },
            forall|x: int, y: int|
                0 <= x < width && 0 <= y < height ==> #[trigger] v@[x][y] == if y < j {
                    corrected_y(old(v)@, p@)[x][y]
                } else {
                    old(v)@[x][y]
                },
        decreases height - j,
    {
        let mut i: usize = 1;
        while i + 1 < width
            invariant
                1 <= i,
                i == 1 || i + 1 <= width,
                0 < j < height - 1,
                u.wf(),
                v.wf(),
                p.wf(),
                u@.len() == width == v@.len() == p@.len() == old(u)@.len() == old(v)@.len(),
                u@[0].len() == height == v@[0].len() == p@[0].len() == old(u)@[0].len() == old(
                    v,
                )@[0].len(),
                half_width == half::<S>().product(S::count_value(width)),
                half_height == half::<S>().product(S::count_value(height)),
                forall|x: int, y: int|
                    0 <= x < width && 0 <= y < height ==> #[trigger] u@[x][y] == if y < j || (y == j && 0 < x
                        < i) {
                        corrected_x(old(u)@, p@)[x][y]
                    } else {
                        old(u)@[x][y]
                    },
                forall|x: int, y: int|
                    0 <= x < width && 0 <= y < height ==> #[trigger] v@[x][y] == if y < j || (y == j && 0 < x
                        < i) {
                        corrected_y(old(v)@, p@)[x][y]
                    } else {
                        old(v)@[x][y]
                    },
            decreases width - i,
        {
            let slope_x: S = p.get(i + 1, j).minus(p.get(i - 1, j));
            let slope_y: S = p.get(i, j + 1).minus(p.get(i, j - 1));
            u.set(i, j, u.get(i, j).minus(half_width.times(slope_x)));
            v.set(i, j, v.get(i, j).minus(half_height.times(slope_y)));
            i += 1;
        }
        j += 1;
    }
    proof {
        assert forall|x: int| 0 <= x < width implies #[trigger] u@[x] =~= corrected_x(
            old(u)@,
            p@,
        )[x] by {
        }
        assert forall|x: int| 0 <= x < width implies #[trigger] v@[x] =~= corrected_y(
            old(v)@,
            p@,
        )[x] by {
        }
        assert(u@ =~= corrected_x(old(u)@, p@));
        assert(v@ =~= corrected_y(old(v)@, p@));
    }
}

/// Makes the velocity `(u, v)` nearly free of divergence.
///
/// The divergence is measured on the velocity as it comes in. Then the
/// component normal to each wall is set to zero: `u` on the first and last
/// column, `v` on the first and last row. The pressure is relaxed from zero
/// in `sweeps` sweeps, and its slope is taken off the velocity at every
/// interior cell.
pub fn project<S: Scalar>(u: &mut Grid<S>, v: &mut Grid<S>, sweeps: usize)
    requires
        old(u).wf(),
        old(v).wf(),
        same_shape(old(u)@, old(v)@),
    ensures
        final(u).wf(),
        final(v).wf(),
        same_shape(final(u)@, old(u)@),
        same_shape(final(v)@, old(v)@),
        final(u)@ == projected_x(old(u)@, old(v)@, sweeps as nat),
        final(v)@ == projected_y(old(u)@, old(v)@, sweeps as nat),
{
    let div: Grid<S> = measure_divergence(u, v);
    let mut p: Grid<S> = u.zeros_like();
    wall_columns(u);
    wall_rows(v);
    lin_solve(S::from_count(1), S::from_count(4), &mut p, &div, sweeps);
    correct(u, v, &p);
}

} // verus!
