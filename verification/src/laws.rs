//! What holds of the stages and of the step, whatever the fields.
use vstd::prelude::*;
use crate::scalar::{Scalar, ExactScalar};
use crate::grid::{Field, filled, interior, rectangular, same_border, same_shape};
use crate::relaxation::{
    interior_span,
    lemma_relaxed_frame,
    lemma_relaxed_row_frame,
    lemma_relaxed_rows_frame,
    relaxed,
    relaxed_row,
    relaxed_rows,
    relaxed_value,
};
use crate::diffusion::{diffused, diffusion_divisor, diffusion_strength};
use crate::advection::{advected, backtraced, reach};
use crate::projection::{
    corrected_x,
    corrected_y,
    divergence,
    half,
    pressure,
    projected_x,
    projected_y,
    walled_columns,
    walled_rows,
};
use crate::fluid::{
    FluidState,
    coherent,
    initial_state,
    projected_rounds,
    stepped,
    stepped_velocity,
    with_density,
};

verus! {

/// Every cell of `f` holds zero.
pub open spec fn at_rest<S: Scalar>(f: Field<S>) -> bool {
    forall|x: int, y: int| 0 <= x < f.len() && 0 <= y < f[0].len() ==> #[trigger] f[x][y]
        == S::zero_value()
}

proof fn lemma_value_without_strength<S: ExactScalar>(
    f: Field<S>,
    source: Field<S>,
    x: int,
    y: int,
)
    ensures
        relaxed_value(f, source, S::zero_value(), diffusion_divisor(S::zero_value()), x, y)
            == source[x][y],
{
    let around = f[x - 1][y].sum(f[x + 1][y]).sum(f[x][y - 1]).sum(f[x][y + 1]);
    S::product_with_zero(around);
    S::sum_with_zero(source[x][y]);
    S::product_with_zero(S::count_value(4));
    S::sum_with_zero(S::count_value(1));
    S::quotient_by_one(source[x][y]);
}

proof fn lemma_row_without_strength<S: ExactScalar>(
    f: Field<S>,
    source: Field<S>,
    y: int,
    n: nat,
)
    requires
        rectangular(f),
        0 <= y < f[0].len(),
        n < f.len(),
    ensures
        forall|i: int|
            1 <= i <= n ==> (#[trigger] relaxed_row(
                f,
                source,
                S::zero_value(),
                diffusion_divisor(S::zero_value()),
                y,
                n,
            )[i])[y] == source[i][y],
    decreases n,
{
    if n > 0 {
        let a = S::zero_value();
        let c = diffusion_divisor(a);
        let before = relaxed_row(f, source, a, c, y, (n - 1) as nat);
        lemma_row_without_strength(f, source, y, (n - 1) as nat);
        lemma_relaxed_row_frame(f, source, a, c, y, (n - 1) as nat);
        lemma_value_without_strength(before, source, n as int, y);
    }
}

proof fn lemma_rows_without_strength<S: ExactScalar>(f: Field<S>, source: Field<S>, m: nat)
    requires
        rectangular(f),
        m <= interior_span(f[0].len()),
    ensures
        forall|i: int, j: int|
            interior(f, i, j) && j <= m ==> (#[trigger] relaxed_rows(
                f,
                source,
                S::zero_value(),
                diffusion_divisor(S::zero_value()),
                m,
            )[i][j]) == source[i][j],
    decreases m,
{
    if m > 0 {
        let a = S::zero_value();
        let c = diffusion_divisor(a);
        let before = relaxed_rows(f, source, a, c, (m - 1) as nat);
        let span = interior_span(f.len());
        lemma_rows_without_strength(f, source, (m - 1) as nat);
        lemma_relaxed_rows_frame(f, source, a, c, (m - 1) as nat);
        lemma_relaxed_row_frame(before, source, a, c, m as int, span);
        lemma_row_without_strength(before, source, m as int, span);
    }
}

/// Diffusion at the rate zero, or over no time, gives every interior cell
/// the value of the source, whatever the field held, provided that at least
/// one sweep is made.
pub proof fn law_diffusion_without_strength<S: ExactScalar>(
    f: Field<S>,
    source: Field<S>,
    rate: S,
    dt: S,
    sweeps: nat,
)
    requires
        rectangular(f),
        rate == S::zero_value() || dt == S::zero_value(),
        sweeps >= 1,
    ensures
        forall|x: int, y: int|
            interior(f, x, y) ==> (#[trigger] diffused(f, source, rate, dt, sweeps)[x][y])
                == source[x][y],
{
    let z = S::zero_value();
    let across = S::count_value(f.len() as usize).difference(S::count_value(2));
    let along = S::count_value(f[0].len() as usize).difference(S::count_value(2));
    S::product_with_zero(rate);
    S::product_with_zero(dt);
    S::product_with_zero(across);
    S::product_with_zero(along);
    assert(diffusion_strength(rate, dt, f.len() as usize, f[0].len() as usize) == z);
    let c = diffusion_divisor(z);
    let before = relaxed(f, source, z, c, (sweeps - 1) as nat);
    lemma_relaxed_frame(f, source, z, c, (sweeps - 1) as nat);
    lemma_rows_without_strength(before, source, interior_span(f[0].len()));
}

/// Diffusion of a field from itself at the rate zero, or over no time,
/// leaves the field as it is, whatever the number of sweeps.
pub proof fn law_diffusion_without_strength_is_identity<S: ExactScalar>(
    f: Field<S>,
    rate: S,
    dt: S,
    sweeps: nat,
)
    requires
        rectangular(f),
        rate == S::zero_value() || dt == S::zero_value(),
    ensures
        diffused(f, f, rate, dt, sweeps) == f,
{
    let after = diffused(f, f, rate, dt, sweeps);
    lemma_diffused_frame(f, f, rate, dt, sweeps);
    if sweeps >= 1 {
        law_diffusion_without_strength(f, f, rate, dt, sweeps);
    }
    assert forall|x: int| 0 <= x < f.len() implies #[trigger] after[x] =~= f[x] by {
        assert forall|y: int| 0 <= y < f[0].len() implies after[x][y] == f[x][y] by {
            if interior(f, x, y) && sweeps == 0 {
                assert(after == f);
            }
        }
    }
    assert(after =~= f);
}

/// Advection along a velocity that is zero everywhere gives every interior
/// cell the value of the source at the same cell, on a grid whose sides the
/// numbers can count. Where the destination agrees with the source on the
/// outermost rows and columns, the result is the source.
pub proof fn law_advection_at_rest<S: ExactScalar>(
    dest: Field<S>,
    source: Field<S>,
    speed_x: Field<S>,
    speed_y: Field<S>,
    dt: S,
)
    requires
        rectangular(dest),
        rectangular(source),
        same_shape(dest, source),
        same_shape(dest, speed_x),
        same_shape(dest, speed_y),
        at_rest(speed_x),
        at_rest(speed_y),
        dest.len() <= S::count_limit(),
        dest[0].len() <= S::count_limit(),
        dest.len() <= usize::MAX,
        dest[0].len() <= usize::MAX,
    ensures
        forall|x: int, y: int|
            interior(dest, x, y) ==> (#[trigger] advected(dest, source, speed_x, speed_y, dt)[x][y])
                == source[x][y],
        same_border(source, dest) ==> advected(dest, source, speed_x, speed_y, dt) == source,
{
    let after = advected(dest, source, speed_x, speed_y, dt);
    assert forall|x: int, y: int| interior(dest, x, y) implies (#[trigger] after[x][y])
        == source[x][y] by {
        assert(speed_x[x][y] == S::zero_value());
        assert(speed_y[x][y] == S::zero_value());
        lemma_backtraced_at_rest::<S>(x as usize, source.len() as usize, dt);
        lemma_backtraced_at_rest::<S>(y as usize, source[0].len() as usize, dt);
    }
    if same_border(source, dest) {
        assert forall|x: int| 0 <= x < dest.len() implies #[trigger] after[x] =~= source[x] by {
            assert forall|y: int| 0 <= y < dest[0].len() implies after[x][y] == source[x][y] by {
                if !interior(dest, x, y) {
                    assert(dest[x][y] == source[x][y]);
                }
            }
        }
        assert(after =~= source);
    }
}

/// Advection makes no value of its own: every interior cell of the result
/// holds the value of some interior cell of the source.
pub proof fn law_advection_takes_from_the_interior<S: Scalar>(
    dest: Field<S>,
    source: Field<S>,
    speed_x: Field<S>,
    speed_y: Field<S>,
    dt: S,
    x: int,
    y: int,
)
    requires
        rectangular(dest),
        same_shape(dest, source),
        dest.len() <= usize::MAX,
        dest[0].len() <= usize::MAX,
        interior(dest, x, y),
    ensures
        interior(
            source,
            backtraced(x as usize, source.len() as usize, dt, speed_x[x][y]) as int,
            backtraced(y as usize, source[0].len() as usize, dt, speed_y[x][y]) as int,
        ),
        advected(dest, source, speed_x, speed_y, dt)[x][y] == source[backtraced(
            x as usize,
            source.len() as usize,
            dt,
            speed_x[x][y],
        ) as int][backtraced(y as usize, source[0].len() as usize, dt, speed_y[x][y]) as int],
{
}

proof fn lemma_backtraced_at_rest<S: ExactScalar>(at: usize, len: usize, dt: S)
    requires
        1 <= at <= len - 2,
        at <= S::count_limit(),
    ensures
        backtraced(at, len, dt, S::zero_value()) == at,
{
    S::product_with_zero(reach(dt, len));
    S::difference_with_zero(S::count_value(at));
    S::count_round_trip(at);
}

proof fn lemma_row_of_rest<S: ExactScalar>(
    f: Field<S>,
    source: Field<S>,
    a: S,
    c: S,
    y: int,
    n: nat,
)
    requires
        rectangular(f),
        same_shape(f, source),
        at_rest(f),
        at_rest(source),
        0 < y < f[0].len() - 1,
        n <= interior_span(f.len()),
    ensures
        at_rest(relaxed_row(f, source, a, c, y, n)),
    decreases n,
{
    lemma_relaxed_row_frame(f, source, a, c, y, n);
    if n > 0 {
        let z = S::zero_value();
        let before = relaxed_row(f, source, a, c, y, (n - 1) as nat);
        lemma_row_of_rest(f, source, a, c, y, (n - 1) as nat);
        lemma_relaxed_row_frame(f, source, a, c, y, (n - 1) as nat);
        let x = n as int;
        assert(before[x - 1][y] == z && before[x + 1][y] == z && before[x][y - 1] == z
            && before[x][y + 1] == z);
        assert(source[x][y] == z);
        S::sum_with_zero(z);
        S::product_with_zero(a);
        S::quotient_of_zero(c);
        assert(relaxed_value(before, source, a, c, x, y) == z);
    }
}

proof fn lemma_rows_of_rest<S: ExactScalar>(f: Field<S>, source: Field<S>, a: S, c: S, m: nat)
    requires
        rectangular(f),
        same_shape(f, source),
        at_rest(f),
        at_rest(source),
        m <= interior_span(f[0].len()),
    ensures
        at_rest(relaxed_rows(f, source, a, c, m)),
    decreases m,
{
    lemma_relaxed_rows_frame(f, source, a, c, m);
    if m > 0 {
        let before = relaxed_rows(f, source, a, c, (m - 1) as nat);
        lemma_rows_of_rest(f, source, a, c, (m - 1) as nat);
        lemma_relaxed_rows_frame(f, source, a, c, (m - 1) as nat);
        lemma_row_of_rest(before, source, a, c, m as int, interior_span(f.len()));
    }
}

proof fn lemma_relaxed_of_rest<S: ExactScalar>(
    f: Field<S>,
    source: Field<S>,
    a: S,
    c: S,
    sweeps: nat,
)
    requires
        rectangular(f),
        same_shape(f, source),
        at_rest(f),
        at_rest(source),
    ensures
        at_rest(relaxed(f, source, a, c, sweeps)),
        same_shape(relaxed(f, source, a, c, sweeps), f),
    decreases sweeps,
{
    lemma_relaxed_frame(f, source, a, c, sweeps);
    if sweeps > 0 {
        let before = relaxed(f, source, a, c, (sweeps - 1) as nat);
        lemma_relaxed_of_rest(f, source, a, c, (sweeps - 1) as nat);
        lemma_relaxed_frame(f, source, a, c, (sweeps - 1) as nat);
        lemma_rows_of_rest(before, source, a, c, interior_span(f[0].len()));
    }
}

/// Projection leaves a velocity that is zero everywhere as it is.
pub proof fn law_projection_of_rest<S: ExactScalar>(u: Field<S>, v: Field<S>, sweeps: nat)
    requires
        rectangular(u),
        rectangular(v),
        same_shape(u, v),
        at_rest(u),
        at_rest(v),
    ensures
        projected_x(u, v, sweeps) == u,
        projected_y(u, v, sweeps) == v,
{
    let z = S::zero_value();
    let start = filled(u.len(), u[0].len(), z);
    let d = divergence(u, v);
    assert(at_rest(d)) by {
        assert forall|x: int, y: int| 0 <= x < d.len() && 0 <= y < d[0].len() implies #[trigger] d[x][y]
            == z by {
            if interior(u, x, y) {
                assert(u[x + 1][y] == z && u[x - 1][y] == z);
                assert(v[x][y + 1] == z && v[x][y - 1] == z);
                S::difference_with_zero(z);
                S::quotient_of_zero(S::count_value(u.len() as usize));
                S::quotient_of_zero(S::count_value(u[0].len() as usize));
                S::sum_with_zero(z);
                S::product_with_zero(z.difference(half::<S>()));
            }
        }
    }
    assert(at_rest(start));
    lemma_relaxed_of_rest(start, d, S::count_value(1), S::count_value(4), sweeps);
    let p = pressure(u, v, sweeps);
    assert(at_rest(p) && same_shape(p, u));
    let walled_u = walled_columns(u);
    let walled_v = walled_rows(v);
    assert forall|x: int| 0 <= x < u.len() implies #[trigger] walled_u[x] =~= u[x] by {
        assert forall|y: int| 0 <= y < u[0].len() implies walled_u[x][y] == u[x][y] by {
            assert(u[x][y] == z);
        }
    }
    assert(walled_u =~= u);
    assert forall|x: int| 0 <= x < v.len() implies #[trigger] walled_v[x] =~= v[x] by {
        assert forall|y: int| 0 <= y < v[0].len() implies walled_v[x][y] == v[x][y] by {
            assert(v[x][y] == z);
        }
    }
    assert(walled_v =~= v);
    let next_u = corrected_x(u, p);
    let next_v = corrected_y(v, p);
    assert forall|x: int| 0 <= x < u.len() implies #[trigger] next_u[x] =~= u[x] by {
        assert forall|y: int| 0 <= y < u[0].len() implies next_u[x][y] == u[x][y] by {
            if interior(u, x, y) {
                assert(p[x + 1][y] == z && p[x - 1][y] == z);
                assert(u[x][y] == z);
                S::difference_with_zero(z);
                S::product_with_zero(half::<S>().product(S::count_value(u.len() as usize)));
            }
        }
    }
    assert(next_u =~= u);
    assert forall|x: int| 0 <= x < v.len() implies #[trigger] next_v[x] =~= v[x] by {
        assert forall|y: int| 0 <= y < v[0].len() implies next_v[x][y] == v[x][y] by {
            if interior(v, x, y) {
                assert(p[x][y + 1] == z && p[x][y - 1] == z);
                assert(v[x][y] == z);
                S::difference_with_zero(z);
                S::product_with_zero(half::<S>().product(S::count_value(v[0].len() as usize)));
            }
        }
    }
    assert(next_v =~= v);
}

/// After density is added at one cell of a new fluid, that cell holds the
/// amount added and every other cell holds zero.
pub proof fn law_first_density<S: ExactScalar>(
    width: nat,
    height: nat,
    diffusion: S,
    viscosity: S,
    x0: int,
    y0: int,
    amount: S,
)
    requires
        0 <= x0 < width,
        0 <= y0 < height,
    ensures
        with_density(initial_state(width, height, diffusion, viscosity), x0, y0, amount).density[x0][y0]
            == amount,
        forall|x: int, y: int|
            0 <= x < width && 0 <= y < height && !(x == x0 && y == y0) ==> (
            #[trigger] with_density(
                initial_state(width, height, diffusion, viscosity),
                x0,
                y0,
                amount,
            ).density[x][y]) == S::zero_value(),
{
    S::sum_with_zero(amount);
}

/// A step writes no cell on the outermost rows and columns of the density,
/// nor, unless it removes divergence, of the velocity.
pub proof fn law_step_keeps_border<S: Scalar>(s: FluidState<S>, dt: S)
    requires
        coherent(s),
    ensures
        same_border(s.density, stepped(s, dt).density),
        !s.projection ==> same_border(s.velocity_x, stepped(s, dt).velocity_x),
        !s.projection ==> same_border(s.velocity_y, stepped(s, dt).velocity_y),
{
    lemma_diffused_frame(s.density, s.density, s.diffusion, dt, s.sweeps);
    lemma_diffused_frame(s.velocity_x, s.velocity_x, s.viscosity, dt, s.sweeps);
    lemma_diffused_frame(s.velocity_y, s.velocity_y, s.viscosity, dt, s.sweeps);
}

proof fn lemma_diffused_frame<S: Scalar>(
    f: Field<S>,
    source: Field<S>,
    rate: S,
    dt: S,
    sweeps: nat,
)
    requires
        rectangular(f),
    ensures
        rectangular(diffused(f, source, rate, dt, sweeps)),
        same_border(f, diffused(f, source, rate, dt, sweeps)),
{
    let a = diffusion_strength(rate, dt, f.len() as usize, f[0].len() as usize);
    lemma_relaxed_frame(f, source, a, diffusion_divisor(a), sweeps);
}

proof fn lemma_rounds_of_rest<S: ExactScalar>(u: Field<S>, v: Field<S>, sweeps: nat, rounds: nat)
    requires
        rectangular(u),
        rectangular(v),
        same_shape(u, v),
        at_rest(u),
        at_rest(v),
    ensures
        projected_rounds(u, v, sweeps, rounds) == (u, v),
    decreases rounds,
{
    if rounds > 0 {
        lemma_rounds_of_rest(u, v, sweeps, (rounds - 1) as nat);
        law_projection_of_rest(u, v, sweeps);
    }
}

/// A step leaves a fluid at rest as it is, density included, on a grid
/// whose sides the numbers can count.
pub proof fn law_step_at_rest<S: ExactScalar>(s: FluidState<S>, dt: S)
    requires
        coherent(s),
        at_rest(s.velocity_x),
        at_rest(s.velocity_y),
        s.density.len() <= S::count_limit(),
        s.density[0].len() <= S::count_limit(),
        s.density.len() <= usize::MAX,
        s.density[0].len() <= usize::MAX,
    ensures
        stepped(s, dt) == s,
{
    let u = s.velocity_x;
    let v = s.velocity_y;
    let d = s.density;
    let spread_u = diffused(u, u, s.viscosity, dt, s.sweeps);
    let spread_v = diffused(v, v, s.viscosity, dt, s.sweeps);
    let spread_d = diffused(d, d, s.diffusion, dt, s.sweeps);
    lemma_diffused_frame(u, u, s.viscosity, dt, s.sweeps);
    lemma_diffused_frame(v, v, s.viscosity, dt, s.sweeps);
    lemma_diffused_frame(d, d, s.diffusion, dt, s.sweeps);
    law_advection_at_rest(spread_u, u, u, v, dt);
    law_advection_at_rest(spread_v, v, u, v, dt);
    lemma_rounds_of_rest(u, v, s.sweeps, s.rounds);
    assert(stepped_velocity(s, dt) == (u, v));
    law_advection_at_rest(spread_d, d, u, v, dt);
}

/// A step is a function of the state and the length of the step: two fluids
/// in the same state are in the same state after a step of the same length.
pub proof fn law_step_is_a_function<S: Scalar>(
    first: FluidState<S>,
    second: FluidState<S>,
    first_after: FluidState<S>,
    second_after: FluidState<S>,
    dt: S,
)
    requires
        first == second,
        first_after == stepped(first, dt),
        second_after == stepped(second, dt),
    ensures
        first_after == second_after,
{
}

} // verus!
