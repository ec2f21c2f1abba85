//! Semi-Lagrangian transport of a field along a velocity field.
use vstd::prelude::*;
use crate::scalar::Scalar;
use crate::grid::{Field, Grid, interior, same_border, same_shape};

verus! {

/// `v` brought into the range of the interior positions along a side of
/// length `len`, which is from `1` to `len - 2`.
pub open spec fn clamped(v: usize, len: usize) -> usize {
    if v < 1 {
        1
    } else if v > len - 2 {
        (len - 2) as usize
    } else {
        v
    }
}

/// The distance, in cells along a side of length `len`, that unit speed
/// covers in the time `dt`.
pub open spec fn reach<S: Scalar>(dt: S, len: usize) -> S {
    dt.product(S::count_value(len).difference(S::count_value(2)))
}

/// The position along a side of length `len` from which the flow of the
/// given speed arrives at position `at` after the time `dt`: the integer
/// part of `at - reach * speed`, clamped to the interior.
pub open spec fn backtraced<S: Scalar>(at: usize, len: usize, dt: S, speed: S) -> usize {
    clamped(S::count_value(at).difference(reach(dt, len).product(speed)).truncated(), len)
}

/// The value that advection gives the interior cell `(x, y)`: that of the
/// source at the cell from which the flow arrives.
pub open spec fn advected_value<S: Scalar>(
    source: Field<S>,
    speed_x: Field<S>,
    speed_y: Field<S>,
    dt: S,
    x: int,
    y: int,
) -> S {
    source[backtraced(x as usize, source.len() as usize, dt, speed_x[x][y]) as int][backtraced(
        y as usize,
        source[0].len() as usize,
        dt,
        speed_y[x][y],
    ) as int]
}

/// `dest` after advection: each interior cell holds its advected value, the
/// outermost rows and columns are as they were.
pub open spec fn advected<S: Scalar>(
    dest: Field<S>,
    source: Field<S>,
    speed_x: Field<S>,
    speed_y: Field<S>,
    dt: S,
) -> Field<S> {
    Seq::new(
        dest.len(),
        |x: int|
            Seq::new(
                dest[0].len(),
                |y: int|
                    if interior(dest, x, y) {
                        advected_value(source, speed_x, speed_y, dt, x, y)
                    } else {
                        dest[x][y]
                    },
            ),
    )
}

fn clamp_to_interior(v: usize, len: usize) -> (r: usize)
    requires
        len >= 3,
    ensures
        r == clamped(v, len),
        1 <= r <= len - 2,
{
    if v < 1 {
        1
    } else if v > len - 2 {
        len - 2
    } else {
        v
    }
}

/// Carries `source` along the velocity `(speed_x, speed_y)` for the time
/// `dt`, into the interior cells of `dest`.
///
/// Each interior cell of `dest` receives the value of `source` at the cell
/// that the flow at the destination leads back to; no value is interpolated
/// and none is read from outside the interior. The outermost rows and
/// columns of `dest` are not written.
pub fn advect<S: Scalar>(
    dest: &mut Grid<S>,
    source: &Grid<S>,
    speed_x: &Grid<S>,
    speed_y: &Grid<S>,
    dt: S,
)
    requires
        old(dest).wf(),
        source.wf(),
        speed_x.wf(),
        speed_y.wf(),
        same_shape(old(dest)@, source@),
        same_shape(old(dest)@, speed_x@),
        same_shape(old(dest)@, speed_y@),
    ensures
        final(dest).wf(),
        same_border(old(dest)@, final(dest)@),
        final(dest)@ == advected(old(dest)@, source@, speed_x@, speed_y@, dt),
{
    let width: usize = dest.width();
    let height: usize = dest.height();
    let reach_x: S = dt.times(S::from_count(width).minus(S::from_count(2)));
    let reach_y: S = dt.times(S::from_count(height).minus(S::from_count(2)));
    let mut j: usize = 1;
    while j + 1 < height
        invariant
            1 <= j,
            j == 1 || j + 1 <= height,
            dest.wf(),
            source.wf(),
            speed_x.wf(),
            speed_y.wf(),
            dest@.len() == width == source@.len() == speed_x@.len() == speed_y@.len(),
            dest@[0].len() == height == source@[0].len() == speed_x@[0].len()
                == speed_y@[0].len(),
            width == old(dest)@.len(),
            height == old(dest)@[0].len(),
            reach_x == reach(dt, width),
            reach_y == reach(dt, height),
            forall|x: int, y: int|
                0 <= x < width && 0 <= y < height ==> #[trigger] dest@[x][y] == if interior(
                    old(dest)@,
                    x,
                    y,
                ) && y < j {
                    advected_value(source@, speed_x@, speed_y@, dt, x, y)
                } else {
                    old(dest)@[x][y]
                },
        decreases height - j,
    {
        let mut i: usize = 1;
        while i + 1 < width
            invariant
                1 <= i,
                i == 1 || i + 1 <= width,
                0 < j < height - 1,
                dest.wf(),
                source.wf(),
                speed_x.wf(),
                speed_y.wf(),
                dest@.len() == width == source@.len() == speed_x@.len() == speed_y@.len(),
                dest@[0].len() == height == source@[0].len() == speed_x@[0].len()
                    == speed_y@[0].len(),
                width == old(dest)@.len(),
                height == old(dest)@[0].len(),
                reach_x == reach(dt, width),
                reach_y == reach(dt, height),
                forall|x: int, y: int|
                    0 <= x < width && 0 <= y < height ==> #[trigger] dest@[x][y] == if interior(
                        old(dest)@,
                        x,
                        y,
                    ) && (y < j || (y == j && x < i)) {
                        advected_value(source@, speed_x@, speed_y@, dt, x, y)
                    } else {
                        old(dest)@[x][y]
                    },
            decreases width - i,
        {
            let from_x: usize = clamp_to_interior(
                S::from_count(i).minus(reach_x.times(speed_x.get(i, j))).truncate(),
                width,
            );
            let from_y: usize = clamp_to_interior(
                S::from_count(j).minus(reach_y.times(speed_y.get(i, j))).truncate(),
                height,
            );
            dest.set(i, j, source.get(from_x, from_y));
            i += 1;
        }
        j += 1;
    }
    proof {
        let goal = advected(old(dest)@, source@, speed_x@, speed_y@, dt);
        assert forall|x: int| 0 <= x < width implies #[trigger] dest@[x] =~= goal[x] by {
        }
        assert(dest@ =~= goal);
    }
}

} // verus!
