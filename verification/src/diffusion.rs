//! Implicit diffusion of a field toward the average of its neighbourhood.
use vstd::prelude::*;
use crate::scalar::Scalar;
use crate::grid::{Field, Grid, same_border, same_shape};
use crate::relaxation::{lin_solve, relaxed};

verus! {

/// The strength with which a cell is drawn toward its neighbours: the time
/// times the rate times the interior extent of the grid in each direction.
pub open spec fn diffusion_strength<S: Scalar>(rate: S, dt: S, width: usize, height: usize) -> S {
    dt.product(rate).product(S::count_value(width).difference(S::count_value(2))).product(
        S::count_value(height).difference(S::count_value(2)),
    )
}

/// The divisor that belongs to the strength `a`: one plus four times `a`.
pub open spec fn diffusion_divisor<S: Scalar>(a: S) -> S {
    S::count_value(1).sum(S::count_value(4).product(a))
}

/// `f` after diffusion at the given rate over the time `dt`, with `source`
/// as the state to diffuse from.
pub open spec fn diffused<S: Scalar>(
    f: Field<S>,
    source: Field<S>,
    rate: S,
    dt: S,
    sweeps: nat,
) -> Field<S> {
    let a = diffusion_strength(rate, dt, f.len() as usize, f[0].len() as usize);
    relaxed(f, source, a, diffusion_divisor(a), sweeps)
}

/// Diffuses `b` in place at the given rate over the time `dt`: relaxes the
/// implicit system whose source term is `source`, in `sweeps` sweeps, with
/// `b` as the starting guess.
pub fn diffuse<S: Scalar>(b: &mut Grid<S>, source: &Grid<S>, rate: S, dt: S, sweeps: usize)
    requires
        old(b).wf(),
        source.wf(),
        same_shape(old(b)@, source@),
    ensures
        final(b).wf(),
        same_border(old(b)@, final(b)@),
        final(b)@ == diffused(old(b)@, source@, rate, dt, sweeps as nat),
{
    let across: S = S::from_count(b.width()).minus(S::from_count(2));
    let along: S = S::from_count(b.height()).minus(S::from_count(2));
    let a: S = dt.times(rate).times(across).times(along);
    let c: S = S::from_count(1).plus(S::from_count(4).times(a));
    lin_solve(a, c, b, source, sweeps);
}

} // verus!
