use stable_fluids::advection::advect;
use stable_fluids::diffusion::diffuse;
use stable_fluids::fluid::Fluid;
use stable_fluids::grid::Grid;
use stable_fluids::projection::project;
use stable_fluids::relaxation::lin_solve;
use stable_fluids::scalar::Scalar;

/// The machine's double-precision numbers as the numbers of a field.
#[derive(Clone, Copy, Debug, PartialEq)]
struct Real(f64);

impl Scalar for Real {
    fn zero_value() -> Self {
        Real(0.0)
    }

    fn count_value(n: usize) -> Self {
        Real(n as f64)
    }

    fn sum(self, rhs: Self) -> Self {
        Real(self.0 + rhs.0)
    }

    fn difference(self, rhs: Self) -> Self {
        Real(self.0 - rhs.0)
    }

    fn product(self, rhs: Self) -> Self {
        Real(self.0 * rhs.0)
    }

    fn quotient(self, rhs: Self) -> Self {
        Real(self.0 / rhs.0)
    }

    fn truncated(self) -> usize {
        self.0 as usize
    }

    fn zero() -> Self {
        Self::zero_value()
    }

    fn from_count(n: usize) -> Self {
        Self::count_value(n)
    }

    fn plus(self, rhs: Self) -> Self {
        self.sum(rhs)
    }

    fn minus(self, rhs: Self) -> Self {
        self.difference(rhs)
    }

    fn times(self, rhs: Self) -> Self {
        self.product(rhs)
    }

    fn over(self, rhs: Self) -> Self {
        self.quotient(rhs)
    }

    fn truncate(self) -> usize {
        self.truncated()
    }
}

fn real_grid(width: usize, height: usize, value: impl Fn(usize, usize) -> f64) -> Grid<Real> {
    let mut g: Grid<Real> = Grid::zeros(width, height);
    for x in 0..width {
        for y in 0..height {
            g.set(x, y, Real(value(x, y)));
        }
    }
    g
}

fn real_cells(g: &Grid<Real>) -> Vec<Vec<f64>> {
    (0..g.width()).map(|x| (0..g.height()).map(|y| g.get(x, y).0).collect()).collect()
}

fn stirred_reals() -> Fluid<Real> {
    let mut fluid: Fluid<Real> = Fluid::new(6, 6, Real(1.0 / 10.0), Real(1.0 / 1000.0));
    for x in 0..6 {
        for y in 0..6 {
            let (p, q) = (x as f64, y as f64);
            fluid.add_density(x, y, Real((p + 2.0 * q) / 8.0));
            fluid.add_velocity(x, y, Real((2.0 * p - q) / 4.0), Real((q * q - 3.0 * p) / 8.0));
        }
    }
    fluid
}

#[test]
fn one_sweep_in_real_numbers() {
    let mut b = real_grid(3, 3, |x, y| (1 + x + 3 * y) as f64);
    let source = real_grid(3, 3, |_, _| 10.0);
    lin_solve(Real(0.5), Real(4.0), &mut b, &source, 1);
    assert_eq!(b.get(1, 1), Real((10.0 + 0.5 * (4.0 + 6.0 + 2.0 + 8.0)) / 4.0));
    assert_eq!(b.get(1, 1), Real(5.0));
}

#[test]
fn diffusion_spreads_a_peak() {
    let mut source: Grid<Real> = Grid::zeros(16, 16);
    source.set(8, 8, Real(0.2));
    let mut b = source.snapshot();
    diffuse(&mut b, &source, Real(0.1), Real(1.0 / 60.0), 20);
    let peak = b.get(8, 8).0;
    assert!(peak < 0.2);
    for (x, y) in [(7, 8), (9, 8), (8, 7), (8, 9)] {
        assert!(b.get(x, y).0 > 0.0);
        assert!(b.get(x, y).0 < peak);
    }
    assert_eq!(peak, 0.09528957107003111);
    assert_eq!(b.get(7, 8).0, 0.015154038738179354);
    assert_eq!(b.get(9, 8).0, 0.015154038713222344);
    assert_eq!(b.get(8, 7).0, 0.01515403873817935);
    assert_eq!(b.get(8, 9).0, 0.015154038713222346);
    for n in 0..16 {
        for (x, y) in [(0, n), (15, n), (n, 0), (n, 15)] {
            assert_eq!(b.get(x, y).0, 0.0);
        }
    }
}

#[test]
fn diffusion_at_rate_zero_in_real_numbers() {
    let source = real_grid(6, 5, |x, y| 0.3 * x as f64 - 0.7 * y as f64);
    let mut b = real_grid(6, 5, |x, y| (x * y) as f64);
    diffuse(&mut b, &source, Real(0.0), Real(1.0 / 60.0), 20);
    for x in 1..5 {
        for y in 1..4 {
            assert_eq!(b.get(x, y), source.get(x, y));
        }
    }
}

#[test]
fn advection_cuts_real_positions_toward_zero() {
    let source = real_grid(6, 5, |x, y| (10 * x + y) as f64);
    let mut speed_x: Grid<Real> = Grid::zeros(6, 5);
    let mut speed_y: Grid<Real> = Grid::zeros(6, 5);
    speed_x.set(3, 2, Real(1.999));
    speed_x.set(2, 2, Real(1e-9));
    speed_x.set(2, 1, Real(-0.999));
    speed_x.set(4, 1, Real(1e300));
    speed_x.set(1, 3, Real(-1e300));
    speed_y.set(2, 3, Real(2.0));
    speed_y.set(3, 3, Real(f64::NAN));
    speed_y.set(4, 2, Real(f64::INFINITY));
    let mut dest = real_grid(6, 5, |_, _| 99.0);
    advect(&mut dest, &source, &speed_x, &speed_y, Real(0.25));
    let expected: Vec<Vec<f64>> = vec![
        vec![99.0, 99.0, 99.0, 99.0, 99.0],
        vec![99.0, 11.0, 12.0, 43.0, 99.0],
        vec![99.0, 21.0, 12.0, 21.0, 99.0],
        vec![99.0, 31.0, 12.0, 31.0, 99.0],
        vec![99.0, 11.0, 41.0, 43.0, 99.0],
        vec![99.0, 99.0, 99.0, 99.0, 99.0],
    ];
    assert_eq!(real_cells(&dest), expected);
}

#[test]
fn projection_in_real_numbers() {
    let mut u = real_grid(5, 5, |x, y| 0.25 * x as f64 - 0.5 * y as f64);
    let mut v = real_grid(5, 5, |x, y| 0.125 * (x * y) as f64);
    project(&mut u, &mut v, 20);
    let expected_u: Vec<Vec<f64>> = vec![
        vec![0.0, 0.0, 0.0, 0.0, 0.0],
        vec![0.25, -0.03125039115548131, -0.4687503911554813, -1.0312501955777407, -1.75],
        vec![0.5, 0.04464305272059779, -0.4464283758508307, -0.9553570450682726, -1.5],
        vec![0.75, 0.03125039115548131, -0.5312496088445187, -0.9687498044222593, -1.25],
        vec![0.0, 0.0, 0.0, 0.0, 0.0],
    ];
    let expected_v: Vec<Vec<f64>> = vec![
        vec![0.0, 0.0, 0.0, 0.0, 0.0],
        vec![0.0, 0.31696389455880436, 0.25000019557774067, 0.1830361054411956, 0.0],
        vec![0.0, 0.5312496088445187, 0.5000001955777407, 0.4687503911554813, 0.0],
        vec![0.0, 0.6205355187079736, 0.7500000977888703, 0.8794644812920264, 0.0],
        vec![0.0, 0.5, 1.0, 1.5, 0.0],
    ];
    assert_eq!(real_cells(&u), expected_u);
    assert_eq!(real_cells(&v), expected_v);
}

#[test]
fn a_single_impulse_in_real_numbers() {
    let mut fluid: Fluid<Real> = Fluid::new(16, 16, Real(0.1), Real(0.001));
    fluid.set_projection(false);
    fluid.add_density(8, 8, Real(0.2));
    fluid.add_velocity(8, 8, Real(1.0), Real(0.0));
    fluid.step(Real(1.0 / 60.0));
    for x in 0..16 {
        for y in 0..16 {
            let held = if (x, y) == (8, 8) { 0.2 } else { 0.0 };
            assert_eq!(fluid.density().get(x, y).0, held);
            assert_eq!(fluid.velocity_x().get(x, y).0, 0.0);
            assert_eq!(fluid.velocity_y().get(x, y).0, 0.0);
        }
    }
}

#[test]
fn a_step_with_projection_in_real_numbers() {
    let mut fluid = stirred_reals();
    fluid.step(Real(0.25));
    let density: Vec<Vec<f64>> = vec![
        vec![0.0, 0.25, 0.5, 0.75, 1.0, 1.25],
        vec![0.125, 0.375, 0.625, 0.625, 1.125, 1.375],
        vec![0.25, 0.375, 0.5, 0.625, 1.125, 1.5],
        vec![0.375, 0.5, 0.75, 0.75, 1.125, 1.625],
        vec![0.5, 0.625, 0.625, 1.0, 1.125, 1.75],
        vec![0.625, 0.875, 1.125, 1.375, 1.625, 1.875],
    ];
    let velocity_x: Vec<Vec<f64>> = vec![
        vec![0.0, 0.0, 0.0, 0.0, 0.0, 0.0],
        vec![0.5, 0.27454680258287745, 0.4423516262386796, -0.05425117110805159, 0.07084302430055243, -0.75],
        vec![1.0, 0.19895513729894768, -0.09567819485595237, 0.028695898066770444, 0.24035789369835786, -0.25],
        vec![1.5, 0.1496724506898536, 0.3616254571906688, 0.14588975832880177, -0.005666868842402, 0.25],
        vec![2.0, 0.356445799063808, 0.013053832093151072, -0.06099014882916608, 0.6025728960438276, 0.75],
        vec![0.0, 0.0, 0.0, 0.0, 0.0, 0.0],
    ];
    let velocity_y: Vec<Vec<f64>> = vec![
        vec![0.0, 0.125, 0.5, 1.125, 2.0, 0.0],
        vec![0.0, 0.08262436276280129, -0.16230481287484877, 0.1994448474950133, -0.15729425076239564, 0.0],
        vec![0.0, -0.057648373761320475, 0.046202026309070776, 0.0034913980618728737, -0.19574882889194828, 0.0],
        vec![0.0, 0.3619461679068489, -0.08256405210702597, 0.28548093604932345, 0.06400985117083394, 0.0],
        vec![0.0, -0.19602291657065166, 0.04241933394801897, 0.136199072028802, 0.1583614127792498, 0.0],
        vec![0.0, -1.75, -1.375, -0.75, 0.125, 0.0],
    ];
    assert_eq!(real_cells(fluid.density()), density);
    assert_eq!(real_cells(fluid.velocity_x()), velocity_x);
    assert_eq!(real_cells(fluid.velocity_y()), velocity_y);
}

#[test]
fn a_step_without_projection_in_real_numbers() {
    let mut fluid = stirred_reals();
    fluid.set_projection(false);
    fluid.step(Real(0.25));
    let density: Vec<Vec<f64>> = vec![
        vec![0.0, 0.25, 0.5, 0.75, 1.0, 1.25],
        vec![0.125, 0.375, 0.625, 0.625, 0.875, 1.375],
        vec![0.25, 0.375, 0.5, 0.75, 1.125, 1.5],
        vec![0.375, 0.625, 0.75, 0.75, 1.0, 1.625],
        vec![0.5, 0.625, 0.625, 0.875, 1.375, 1.75],
        vec![0.625, 0.875, 1.125, 1.375, 1.625, 1.875],
    ];
    let velocity_x: Vec<Vec<f64>> = vec![
        vec![0.0, -0.25, -0.5, -0.75, -1.0, -1.25],
        vec![0.5, 0.25, 0.25, 0.0, 0.0, -0.75],
        vec![1.0, 0.25, 0.0, 0.0, 0.5, -0.25],
        vec![1.5, 0.0, 0.5, 0.25, 0.25, 0.25],
        vec![2.0, 0.5, 0.25, 0.25, 0.75, 0.75],
        vec![2.5, 2.25, 2.0, 1.75, 1.5, 1.25],
    ];
    assert_eq!(real_cells(fluid.density()), density);
    assert_eq!(real_cells(fluid.velocity_x()), velocity_x);
}

#[test]
fn equal_fluids_of_real_numbers_stay_equal() {
    let mut first = stirred_reals();
    let mut second = stirred_reals();
    for _ in 0..3 {
        first.step(Real(1.0 / 60.0));
        second.step(Real(1.0 / 60.0));
    }
    let bits = |g: &Grid<Real>| -> Vec<Vec<u64>> {
        real_cells(g).iter().map(|column| column.iter().map(|v| v.to_bits()).collect()).collect()
    };
    assert_eq!(bits(first.density()), bits(second.density()));
    assert_eq!(bits(first.velocity_x()), bits(second.velocity_x()));
    assert_eq!(bits(first.velocity_y()), bits(second.velocity_y()));
}

#[test]
fn finite_numbers_stay_finite() {
    let mut fluid = stirred_reals();
    for _ in 0..5 {
        fluid.step(Real(1.0 / 60.0));
        for field in [fluid.density(), fluid.velocity_x(), fluid.velocity_y()] {
            for column in real_cells(field) {
                for value in column {
                    assert!(value.is_finite());
                }
            }
        }
    }
    fluid.step(Real(0.0));
    for column in real_cells(fluid.density()) {
        for value in column {
            assert!(value.is_finite());
        }
    }
}
