//! Rectangular fields of numbers: the mathematical model, and the storage
//! that holds one.
use vstd::prelude::*;
use crate::scalar::Scalar;

verus! {

/// A field as a sequence of columns: `f[x][y]` is the value at cell
/// `(x, y)`.
pub type Field<S> = Seq<Seq<S>>;

/// Every column of `f` has the same, positive length, and there is at least
/// one column.
pub open spec fn rectangular<S>(f: Field<S>) -> bool {
    &&& f.len() >= 1
    &&& f[0].len() >= 1
    &&& forall|x: int| 0 <= x < f.len() ==> (#[trigger] f[x]).len() == f[0].len()
}

/// `f` and `g` have the same width and height.
pub open spec fn same_shape<S>(f: Field<S>, g: Field<S>) -> bool {
    &&& f.len() == g.len()
    &&& f[0].len() == g[0].len()
}

/// Cell `(x, y)` lies in `f` and not on its outermost rows or columns.
pub open spec fn interior<S>(f: Field<S>, x: int, y: int) -> bool {
    &&& 0 < x < f.len() - 1
    &&& 0 < y < f[0].len() - 1
}

/// `g` has the shape of `f`, and the same values on the outermost rows and
/// columns.
pub open spec fn same_border<S>(f: Field<S>, g: Field<S>) -> bool {
    &&& same_shape(f, g)
    &&& forall|x: int, y: int|
        0 <= x < f.len() && 0 <= y < f[0].len() && !interior(f, x, y) ==> #[trigger] g[x][y]
            == f[x][y]
}

/// `f` with the value at `(x, y)` replaced by `v`.
pub open spec fn put<S>(f: Field<S>, x: int, y: int, v: S) -> Field<S> {
    f.update(x, f[x].update(y, v))
}

/// The field of the given width and height that holds `v` in every cell.
pub open spec fn filled<S>(width: nat, height: nat, v: S) -> Field<S> {
    Seq::new(width, |x: int| Seq::new(height, |y: int| v))
}

proof fn lemma_cell_index(width: int, height: int, x: int, y: int)
    requires
        0 <= x < width,
        0 <= y < height,
    ensures
        0 <= x * height <= x * height + y < width * height,
{
    assert(x * height + height <= width * height) by (nonlinear_arith)
        requires
            0 <= x < width,
            0 < height,
    ;
    assert(0 <= x * height) by (nonlinear_arith)
        requires
            0 <= x,
            0 < height,
    ;
}

proof fn lemma_cell_index_distinct(height: int, x1: int, y1: int, x2: int, y2: int)
    requires
        0 <= y1 < height,
        0 <= y2 < height,
        x1 * height + y1 == x2 * height + y2,
    ensures
        x1 == x2,
        y1 == y2,
{
    if x1 < x2 {
        assert(x1 * height + height <= x2 * height) by (nonlinear_arith)
            requires
                x1 < x2,
                0 < height,
        ;
    } else if x2 < x1 {
        assert(x2 * height + height <= x1 * height) by (nonlinear_arith)
            requires
                x2 < x1,
                0 < height,
        ;
    }
}

/// A field of fixed width and height, stored column after column.
pub struct Grid<S> {
    width: usize,
    height: usize,
    cells: Vec<S>,
}

impl<S: Scalar> View for Grid<S> {
    type V = Field<S>;

    closed spec fn view(&self) -> Field<S> {
        Seq::new(
            self.width as nat,
            |x: int| Seq::new(self.height as nat, |y: int| self.cells@[x * self.height + y]),
        )
    }
}

impl<S: Scalar> Grid<S> {
    /// The storage holds exactly one value for each cell.
    pub closed spec fn inv(&self) -> bool {
        &&& self.width >= 1
        &&& self.height >= 1
        &&& self.width * self.height <= usize::MAX
        &&& self.cells@.len() == self.width * self.height
    }

    /// The grid is sound, and its view is a rectangular field.
    pub open spec fn wf(&self) -> bool {
        &&& self.inv()
        &&& rectangular(self@)
    }

    /// A grid of the given size with zero in every cell.
    pub fn zeros(width: usize, height: usize) -> (g: Self)
        requires
            width >= 1,
            height >= 1,
            width * height <= usize::MAX,
        ensures
            g.wf(),
            g@ == filled(width as nat, height as nat, S::zero_value()),
    {
        let count: usize = width * height;
        let mut cells: Vec<S> = Vec::new();
        let mut n: usize = 0;
        while n < count
            invariant
                n <= count,
                cells@.len() == n,
                forall|k: int| 0 <= k < n ==> cells@[k] == S::zero_value(),
            decreases count - n,
        {
            cells.push(S::zero());
            n += 1;
        }
        let g = Grid { width, height, cells };
        proof {
            assert forall|x: int| 0 <= x < width implies #[trigger] g@[x] =~= filled(
                width as nat,
                height as nat,
                S::zero_value(),
            )[x] by {
                assert forall|y: int| 0 <= y < height implies g@[x][y] == S::zero_value() by {
                    lemma_cell_index(width as int, height as int, x, y);
                }
            }
            assert(g@ =~= filled(width as nat, height as nat, S::zero_value()));
        }
        g
    }

    /// A grid of the same size as this one with zero in every cell.
    pub fn zeros_like(&self) -> (g: Self)
        requires
            self.wf(),
        ensures
            g.wf(),
            g@ == filled(self@.len(), self@[0].len(), S::zero_value()),
    {
        Self::zeros(self.width, self.height)
    }

    /// The number of columns.
    pub fn width(&self) -> (w: usize)
        requires
            self.wf(),
        ensures
            w == self@.len(),
    {
        self.width
    }

    /// The number of cells in a column.
    pub fn height(&self) -> (h: usize)
        requires
            self.wf(),
        ensures
            h == self@[0].len(),
    {
        self.height
    }

    /// The value at cell `(x, y)`.
    pub fn get(&self, x: usize, y: usize) -> (v: S)
        requires
            self.wf(),
            x < self@.len(),
            y < self@[0].len(),
        ensures
            v == self@[x as int][y as int],
    {
        proof {
            lemma_cell_index(self.width as int, self.height as int, x as int, y as int);
        }
        self.cells[x * self.height + y]
    }

    /// Replaces the value at cell `(x, y)` by `v`; no other cell changes.
    pub fn set(&mut self, x: usize, y: usize, v: S)
        requires
            old(self).wf(),
            x < old(self)@.len(),
            y < old(self)@[0].len(),
        ensures
            final(self).wf(),
            final(self)@ == put(old(self)@, x as int, y as int, v),
    {
        proof {
            lemma_cell_index(self.width as int, self.height as int, x as int, y as int);
        }
        let index: usize = x * self.height + y;
        self.cells.set(index, v);
        proof {
            let before = old(self)@;
            let after = self@;
            let height = self.height as int;
            assert forall|i: int| 0 <= i < self.width implies #[trigger] after[i] =~= put(
                before,
                x as int,
                y as int,
                v,
            )[i] by {
                assert forall|j: int| 0 <= j < height implies after[i][j] == put(
                    before,
                    x as int,
                    y as int,
                    v,
                )[i][j] by {
                    lemma_cell_index(self.width as int, height, i, j);
                    if i * height + j == index {
                        lemma_cell_index_distinct(height, i, j, x as int, y as int);
                    }
                }
            }
            assert(after =~= put(before, x as int, y as int, v));
        }
    }

    /// A copy of the grid in storage of its own.
    pub fn snapshot(&self) -> (g: Self)
        requires
            self.wf(),
        ensures
            g.wf(),
            g@ == self@,
    {
        let count: usize = self.cells.len();
        let mut cells: Vec<S> = Vec::new();
        let mut n: usize = 0;
        while n < count
            invariant
                count == self.cells@.len(),
                n <= count,
                cells@.len() == n,
                forall|k: int| 0 <= k < n ==> cells@[k] == self.cells@[k],
            decreases count - n,
        {
            cells.push(self.cells[n]);
            n += 1;
        }
        let g = Grid { width: self.width, height: self.height, cells };
        proof {
            assert(g.cells@ =~= self.cells@);
            assert(g@ =~= self@);
        }
        g
    }
}

} // verus!
