//! The fluid: a density field, the velocity field that carries it, and the
//! time step that advances both.
use vstd::prelude::*;
use crate::scalar::Scalar;
use crate::grid::{Field, Grid, filled, put, rectangular, same_shape};
use crate::diffusion::{diffuse, diffused};
use crate::advection::{advect, advected};
use crate::projection::{project, projected_x, projected_y};

verus! {

/// The number of relaxation sweeps of a fluid that was not told otherwise.
pub const DEFAULT_SWEEPS: usize = 20;

/// The number of projections in a step of a fluid that was not told
/// otherwise.
pub const DEFAULT_ROUNDS: usize = 20;

/// A fluid on a grid of fixed size.
pub struct Fluid<S> {
    density: Grid<S>,
    velocity_x: Grid<S>,
    velocity_y: Grid<S>,
    diffusion: S,
    viscosity: S,
    projection: bool,
    sweeps: usize,
    rounds: usize,
}

/// What a fluid is at one moment: its three fields and its settings.
pub struct FluidState<S> {
    /// How much of the carried substance each cell holds.
    pub density: Field<S>,
    /// The flow in each cell along `x`.
    pub velocity_x: Field<S>,
    /// The flow in each cell along `y`.
    pub velocity_y: Field<S>,
    /// The rate at which density spreads.
    pub diffusion: S,
    /// The rate at which velocity spreads.
    pub viscosity: S,
    /// Whether a step removes divergence from the velocity.
    pub projection: bool,
    /// The number of sweeps of each relaxation.
    pub sweeps: nat,
    /// The number of projections in a step that removes divergence.
    pub rounds: nat,
}

/// The three fields of `s` are rectangular and of one size.
pub open spec fn coherent<S>(s: FluidState<S>) -> bool {
    &&& rectangular(s.density)
    &&& rectangular(s.velocity_x)
    &&& rectangular(s.velocity_y)
    &&& same_shape(s.density, s.velocity_x)
    &&& same_shape(s.density, s.velocity_y)
}

/// The state of a new fluid: every field zero, divergence removed in each
/// step, and the default counts.
pub open spec fn initial_state<S: Scalar>(
    width: nat,
    height: nat,
    diffusion: S,
    viscosity: S,
) -> FluidState<S> {
    FluidState {
        density: filled(width, height, S::zero_value()),
        velocity_x: filled(width, height, S::zero_value()),
        velocity_y: filled(width, height, S::zero_value()),
        diffusion,
        viscosity,
        projection: true,
        sweeps: DEFAULT_SWEEPS as nat,
        rounds: DEFAULT_ROUNDS as nat,
    }
}

/// `s` with `amount` added to the density at cell `(x, y)`.
pub open spec fn with_density<S: Scalar>(s: FluidState<S>, x: int, y: int, amount: S) -> FluidState<
    S,
> {
    FluidState { density: put(s.density, x, y, s.density[x][y].sum(amount)), ..s }
}

/// `s` with `amount_x` and `amount_y` added to the two components of the
/// velocity at cell `(x, y)`.
pub open spec fn with_velocity<S: Scalar>(
    s: FluidState<S>,
    x: int,
    y: int,
    amount_x: S,
    amount_y: S,
) -> FluidState<S> {
    FluidState {
        velocity_x: put(s.velocity_x, x, y, s.velocity_x[x][y].sum(amount_x)),
        velocity_y: put(s.velocity_y, x, y, s.velocity_y[x][y].sum(amount_y)),
        ..s
    }
}

/// The velocity `(u, v)` after the given number of projections, one after
/// another.
pub open spec fn projected_rounds<S: Scalar>(
    u: Field<S>,
    v: Field<S>,
    sweeps: nat,
    rounds: nat,
) -> (Field<S>, Field<S>)
    decreases rounds,
{
    if rounds == 0 {
        (u, v)
    } else {
        let before = projected_rounds(u, v, sweeps, (rounds - 1) as nat);
        (projected_x(before.0, before.1, sweeps), projected_y(before.0, before.1, sweeps))
    }
}

/// The velocity of `s` after one step of length `dt`.
///
/// Each component is diffused from its value at the start of the step and
/// then receives, at every interior cell, the value that the component had
/// at the start of the step at the cell that the starting velocity leads
/// back to. Where the fluid removes divergence, the projections follow.
pub open spec fn stepped_velocity<S: Scalar>(s: FluidState<S>, dt: S) -> (Field<S>, Field<S>) {
    let u = advected(
        diffused(s.velocity_x, s.velocity_x, s.viscosity, dt, s.sweeps),
        s.velocity_x,
        s.velocity_x,
        s.velocity_y,
        dt,
    );
    let v = advected(
        diffused(s.velocity_y, s.velocity_y, s.viscosity, dt, s.sweeps),
        s.velocity_y,
        s.velocity_x,
        s.velocity_y,
        dt,
    );
    if s.projection {
        projected_rounds(u, v, s.sweeps, s.rounds)
    } else {
        (u, v)
    }
}

/// The state that follows `s` after one step of length `dt`.
///
/// The velocity advances first. The density is then diffused from its value
/// at the start of the step and receives, at every interior cell, the value
/// that it had at the start of the step at the cell that the new velocity
/// leads back to.
pub open spec fn stepped<S: Scalar>(s: FluidState<S>, dt: S) -> FluidState<S> {
    let velocity = stepped_velocity(s, dt);
    FluidState {
        density: advected(
            diffused(s.density, s.density, s.diffusion, dt, s.sweeps),
            s.density,
            velocity.0,
            velocity.1,
            dt,
        ),
        velocity_x: velocity.0,
        velocity_y: velocity.1,
        ..s
    }
}

impl<S: Scalar> View for Fluid<S> {
    type V = FluidState<S>;

    closed spec fn view(&self) -> FluidState<S> {
        FluidState {
            density: self.density@,
            velocity_x: self.velocity_x@,
            velocity_y: self.velocity_y@,
            diffusion: self.diffusion,
            viscosity: self.viscosity,
            projection: self.projection,
            sweeps: self.sweeps as nat,
            rounds: self.rounds as nat,
        }
    }
}

impl<S: Scalar> Fluid<S> {
    /// Each of the three grids is sound.
    pub closed spec fn inv(&self) -> bool {
        &&& self.density.wf()
        &&& self.velocity_x.wf()
        &&& self.velocity_y.wf()
    }

    /// The fluid is sound, and its three fields are of one size.
    pub open spec fn wf(&self) -> bool {
        &&& self.inv()
        &&& coherent(self@)
    }

    /// A fluid at rest on a grid of the given size, with no density
    /// anywhere. It removes divergence in each step, with the default
    /// counts, until told otherwise.
    pub fn new(width: usize, height: usize, diffusion: S, viscosity: S) -> (fluid: Self)
        requires
            width >= 1,
            height >= 1,
            width * height <= usize::MAX,
        ensures
            fluid.wf(),
            fluid@ == initial_state(width as nat, height as nat, diffusion, viscosity),
    {
        Fluid {
            density: Grid::zeros(width, height),
            velocity_x: Grid::zeros(width, height),
            velocity_y: Grid::zeros(width, height),
            diffusion,
            viscosity,
            projection: true,
            sweeps: DEFAULT_SWEEPS,
            rounds: DEFAULT_ROUNDS,
        }
    }

    /// Says whether a step removes divergence from the velocity.
    pub fn set_projection(&mut self, enabled: bool)
        requires
            old(self).wf(),
        ensures
            final(self).wf(),
            final(self)@ == (FluidState { projection: enabled, ..old(self)@ }),
    {
        self.projection = enabled;
    }

    /// Sets the number of sweeps of each relaxation.
    pub fn set_sweeps(&mut self, sweeps: usize)
        requires
            old(self).wf(),
        ensures
            final(self).wf(),
            final(self)@ == (FluidState { sweeps: sweeps as nat, ..old(self)@ }),
    {
        self.sweeps = sweeps;
    }

    /// Sets the number of projections in a step that removes divergence.
    pub fn set_rounds(&mut self, rounds: usize)
        requires
            old(self).wf(),
        ensures
            final(self).wf(),
            final(self)@ == (FluidState { rounds: rounds as nat, ..old(self)@ }),
    {
        self.rounds = rounds;
    }

    /// The number of columns of the grid.
    pub fn width(&self) -> (w: usize)
        requires
            self.wf(),
        ensures
            w == self@.density.len(),
    {
        self.density.width()
    }

    /// The number of cells in a column of the grid.
    pub fn height(&self) -> (h: usize)
        requires
            self.wf(),
        ensures
            h == self@.density[0].len(),
    {
        self.density.height()
    }

    /// The density field, to read.
    pub fn density(&self) -> (g: &Grid<S>)
        requires
            self.wf(),
        ensures
            g.wf(),
            g@ == self@.density,
    {
        &self.density
    }

    /// The `x` component of the velocity field, to read.
    pub fn velocity_x(&self) -> (g: &Grid<S>)
        requires
            self.wf(),
        ensures
            g.wf(),
            g@ == self@.velocity_x,
    {
        &self.velocity_x
    }

    /// The `y` component of the velocity field, to read.
    pub fn velocity_y(&self) -> (g: &Grid<S>)
        requires
            self.wf(),
        ensures
            g.wf(),
            g@ == self@.velocity_y,
    {
        &self.velocity_y
    }

    /// Adds `amount` to the density at cell `(x, y)`.
    pub fn add_density(&mut self, x: usize, y: usize, amount: S)
        requires
            old(self).wf(),
            x < old(self)@.density.len(),
            y < old(self)@.density[0].len(),
        ensures
            final(self).wf(),
            final(self)@ == with_density(old(self)@, x as int, y as int, amount),
    {
        let value: S = self.density.get(x, y).plus(amount);
        self.density.set(x, y, value);
    }

    /// Adds `amount_x` and `amount_y` to the two components of the velocity
    /// at cell `(x, y)`.
    pub fn add_velocity(&mut self, x: usize, y: usize, amount_x: S, amount_y: S)
        requires
            old(self).wf(),
            x < old(self)@.density.len(),
            y < old(self)@.density[0].len(),
        ensures
            final(self).wf(),
            final(self)@ == with_velocity(old(self)@, x as int, y as int, amount_x, amount_y),
    {
        let value_x: S = self.velocity_x.get(x, y).plus(amount_x);
        self.velocity_x.set(x, y, value_x);
        let value_y: S = self.velocity_y.get(x, y).plus(amount_y);
        self.velocity_y.set(x, y, value_y);
    }

    /// Advances the fluid by one step of length `dt`.
    pub fn step(&mut self, dt: S)
        requires
            old(self).wf(),
        ensures
            final(self).wf(),
            final(self)@ == stepped(old(self)@, dt),
    {
        let velocity_x0: Grid<S> = self.velocity_x.snapshot();
        let velocity_y0: Grid<S> = self.velocity_y.snapshot();
        let density0: Grid<S> = self.density.snapshot();

        diffuse(&mut self.velocity_x, &velocity_x0, self.viscosity, dt, self.sweeps);
        diffuse(&mut self.velocity_y, &velocity_y0, self.viscosity, dt, self.sweeps);

        advect(&mut self.velocity_x, &velocity_x0, &velocity_x0, &velocity_y0, dt);
        advect(&mut self.velocity_y, &velocity_y0, &velocity_x0, &velocity_y0, dt);

        if self.projection {
            let ghost u = self.velocity_x@;
            let ghost v = self.velocity_y@;
            let mut n: usize = 0;
            while n < self.rounds
                invariant
                    n <= self.rounds,
                    self.velocity_x.wf(),
                    self.velocity_y.wf(),
                    self.density.wf(),
                    same_shape(self.velocity_x@, u),
                    same_shape(self.velocity_y@, u),
                    self.sweeps == old(self).sweeps,
                    self.rounds == old(self).rounds,
                    self.projection == old(self).projection,
                    self.diffusion == old(self).diffusion,
                    self.viscosity == old(self).viscosity,
                    self.density@ == old(self).density@,
                    (self.velocity_x@, self.velocity_y@) == projected_rounds(
                        u,
                        v,
                        self.sweeps as nat,
                        n as nat,
                    ),
                decreases self.rounds - n,
            {
                project(&mut self.velocity_x, &mut self.velocity_y, self.sweeps);
                n += 1;
            }
        }
        diffuse(&mut self.density, &density0, self.diffusion, dt, self.sweeps);
        advect(&mut self.density, &density0, &self.velocity_x, &self.velocity_y, dt);
    }
}

} // verus!
