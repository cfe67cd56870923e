//! Row-major matrices whose storage always matches their shape, as the WORLD
//! analysis and synthesis stages keep their spectra: an owned [`Grid`] and a
//! borrowed [`GridView`]. A shape whose cell count overflows `usize` asks for
//! `usize::MAX` cells.
use vstd::prelude::*;

verus! {

/// `rows * cols`, saturated at `usize::MAX`.
pub open spec fn saturating_cells(rows: usize, cols: usize) -> nat {
    if rows * cols > usize::MAX {
        usize::MAX as nat
    } else {
        (rows * cols) as nat
    }
}

fn saturating_cells_exec(rows: usize, cols: usize) -> (r: usize)
    ensures
        r == saturating_cells(rows, cols),
{
    match rows.checked_mul(cols) {
        Some(n) => n,
        None => usize::MAX,
    }
}

/// `n` copies of `value`.
pub open spec fn repeated<T>(value: T, n: nat) -> Seq<T> {
    Seq::new(n, |_i: int| value)
}

/// Row `row` of a row-major sequence of cells with `cols` columns.
pub open spec fn row_cells<T>(data: Seq<T>, cols: usize, row: usize) -> Seq<T> {
    data.subrange(row * cols, row * cols + cols)
}

/// An owned row-major matrix.
pub struct Grid<T> {
    rows: usize,
    cols: usize,
    data: Vec<T>,
}

impl<T> View for Grid<T> {
    type V = Seq<T>;

    /// The cells in row-major order.
    closed spec fn view(&self) -> Seq<T> {
        self.data@
    }
}

impl<T> Grid<T> {
    /// The storage holds exactly the cells of the shape.
    #[verifier::type_invariant]
    spec fn inv(self) -> bool {
        self.data@.len() == saturating_cells(self.rows, self.cols)
    }

    /// Number of rows.
    pub closed spec fn num_rows(&self) -> usize {
        self.rows
    }

    /// Number of columns.
    pub closed spec fn num_cols(&self) -> usize {
        self.cols
    }
}

impl<T: Copy> Grid<T> {
    fn repeat_vec(value: T, n: usize) -> (r: Vec<T>)
        ensures
            r@ == repeated(value, n as nat),
    {
        let mut v: Vec<T> = Vec::new();
        let mut i: usize = 0;
        while i < n
            invariant
                i <= n,
                v@ == repeated(value, i as nat),
            decreases n - i,
        {
            v.push(value);
            i = i + 1;
            assert(v@ =~= repeated(value, i as nat));
        }
        v
    }

    /// A `rows` by `cols` matrix with every cell `value` (zeros, for the
    /// spectral stages).
    pub fn filled(rows: usize, cols: usize, value: T) -> (r: Self)
        requires
            rows * cols <= usize::MAX,
        ensures
            r.num_rows() == rows,
            r.num_cols() == cols,
            r@ == repeated(value, (rows * cols) as nat),
    {
        let n = saturating_cells_exec(rows, cols);
        Grid { rows, cols, data: Self::repeat_vec(value, n) }
    }

    /// A matrix over `data`, which must hold exactly the cells of the shape.
    pub fn from_vec(rows: usize, cols: usize, data: Vec<T>) -> (r: Self)
        requires
            data@.len() == saturating_cells(rows, cols),
        ensures
            r.num_rows() == rows,
            r.num_cols() == cols,
            r@ == data@,
    {
        Grid { rows, cols, data }
    }

    /// Number of rows.
    pub fn rows(&self) -> (r: usize)
        ensures
            r == self.num_rows(),
    {
        self.rows
    }

    /// Number of columns.
    pub fn cols(&self) -> (r: usize)
        ensures
            r == self.num_cols(),
    {
        self.cols
    }

    /// All cells in row-major order, one per row and column.
    pub fn as_slice(&self) -> (r: &[T])
        ensures
            r@ == self@,
            r@.len() == saturating_cells(self.num_rows(), self.num_cols()),
    {
        proof {
            use_type_invariant(self);
        }
        self.data.as_slice()
    }

    /// The cells, giving up the matrix.
    pub fn into_vec(self) -> (r: Vec<T>)
        ensures
            r@ == self@,
    {
        self.data
    }

    /// Gives the matrix a new shape. Cells that still fit keep their values
    /// in storage order; cells beyond the old storage are `value`.
    pub fn resize(&mut self, rows: usize, cols: usize, value: T)
        requires
            rows * cols <= usize::MAX,
        ensures
            final(self).num_rows() == rows,
            final(self).num_cols() == cols,
            final(self)@ == if rows * cols <= old(self)@.len() {
                old(self)@.take(rows * cols)
            } else {
                old(self)@ + repeated(value, (rows * cols - old(self)@.len()) as nat)
            },
    {
        proof {
            use_type_invariant(&*self);
        }
        let n = rows * cols;
        let mut taken = Grid { rows: 0, cols: 0, data: Vec::new() };
        std::mem::swap(self, &mut taken);
        let mut data = taken.data;
        let ghost before = data@;
        if n <= data.len() {
            data.truncate(n);
        } else {
            let mut k = data.len();
            while k < n
                invariant
                    before.len() <= k <= n,
                    data@ == before + repeated(value, (k - before.len()) as nat),
                decreases n - k,
            {
                data.push(value);
                k = k + 1;
                assert(data@ =~= before + repeated(value, (k - before.len()) as nat));
            }
        }
        *self = Grid { rows, cols, data };
    }

    /// Sets every cell to `value`.
    pub fn fill(&mut self, value: T)
        ensures
            final(self).num_rows() == old(self).num_rows(),
            final(self).num_cols() == old(self).num_cols(),
            final(self)@ == repeated(value, old(self)@.len()),
    {
        proof {
            use_type_invariant(&*self);
        }
        let rows = self.rows;
        let cols = self.cols;
        let n = self.data.len();
        let data = Self::repeat_vec(value, n);
        *self = Grid { rows, cols, data };
    }

    /// Row `row`.
    pub fn row(&self, row: usize) -> (r: &[T])
        requires
            row < self.num_rows(),
            (row + 1) * self.num_cols() <= usize::MAX,
        ensures
            r@ == row_cells(self@, self.num_cols(), row),
    {
        proof {
            use_type_invariant(self);
            lemma_row_in_bounds(self.rows, self.cols, row);
        }
        let start = row * self.cols;
        vstd::slice::slice_subrange(self.data.as_slice(), start, start + self.cols)
    }
}

/// A row that exists ends within the cells of the shape.
proof fn lemma_row_in_bounds(rows: usize, cols: usize, row: usize)
    requires
        row < rows,
        (row + 1) * cols <= usize::MAX,
    ensures
        row * cols + cols <= saturating_cells(rows, cols),
{
    assert(row * cols + cols == (row + 1) * cols) by (nonlinear_arith);
    assert((row + 1) * cols <= rows * cols) by (nonlinear_arith)
        requires
            row + 1 <= rows,
    ;
}

/// A borrowed row-major matrix.
pub struct GridView<'a, T> {
    rows: usize,
    cols: usize,
    data: &'a [T],
}

impl<'a, T> View for GridView<'a, T> {
    type V = Seq<T>;

    /// The cells in row-major order.
    closed spec fn view(&self) -> Seq<T> {
        self.data@
    }
}

impl<'a, T> GridView<'a, T> {
    /// The borrowed cells are exactly the cells of the shape.
    #[verifier::type_invariant]
    spec fn inv(self) -> bool {
        self.data@.len() == saturating_cells(self.rows, self.cols)
    }

    /// Number of rows.
    pub closed spec fn num_rows(&self) -> usize {
        self.rows
    }

    /// Number of columns.
    pub closed spec fn num_cols(&self) -> usize {
        self.cols
    }

    /// A view of `data` as a `rows` by `cols` matrix; `data` must hold
    /// exactly the cells of the shape.
    pub fn new(data: &'a [T], rows: usize, cols: usize) -> (r: Self)
        requires
            data@.len() == saturating_cells(rows, cols),
        ensures
            r.num_rows() == rows,
            r.num_cols() == cols,
            r@ == data@,
    {
        GridView { rows, cols, data }
    }

    /// Number of rows.
    pub fn rows(&self) -> (r: usize)
        ensures
            r == self.num_rows(),
    {
        self.rows
    }

    /// Number of columns.
    pub fn cols(&self) -> (r: usize)
        ensures
            r == self.num_cols(),
    {
        self.cols
    }

    /// All cells in row-major order, one per row and column.
    pub fn as_slice(&self) -> (r: &'a [T])
        ensures
            r@ == self@,
            r@.len() == saturating_cells(self.num_rows(), self.num_cols()),
    {
        proof {
            use_type_invariant(self);
        }
        self.data
    }

    /// Row `row`.
    pub fn row(&self, row: usize) -> (r: &'a [T])
        requires
            row < self.num_rows(),
            (row + 1) * self.num_cols() <= usize::MAX,
        ensures
            r@ == row_cells(self@, self.num_cols(), row),
    {
        proof {
            use_type_invariant(self);
            lemma_row_in_bounds(self.rows, self.cols, row);
        }
        let start = row * self.cols;
        vstd::slice::slice_subrange(self.data, start, start + self.cols)
    }
}

} // verus!
