//! Dense row-major matrices of feature frames.
use vstd::prelude::*;

verus! {

/// A row-major matrix: row `i` is `data[i * cols .. (i + 1) * cols]`.
#[derive(Clone, Debug)]
pub struct Matrix<T> {
    pub data: Vec<T>,
    pub rows: usize,
    pub cols: usize,
}

/// Why a matrix could not be built.
#[derive(Clone, Copy, Debug, PartialEq, Eq, Structural)]
pub enum MatrixError {
    /// The data does not have `rows * cols` elements.
    LengthMismatch { len: usize, rows: usize, cols: usize },
    /// The rows do not all have the length of the first.
    RaggedRows,
}

/// The concatenation of the rows in `rows`.
pub open spec fn flatten<T>(rows: Seq<Seq<T>>) -> Seq<T>
    decreases rows.len(),
{
    if rows.len() == 0 {
        Seq::empty()
    } else {
        flatten(rows.drop_last()) + rows.last()
    }
}

/// All rows in `rows` have length `cols`.
pub open spec fn uniform_rows<T>(rows: Seq<Seq<T>>, cols: int) -> bool {
    forall|i: int| 0 <= i < rows.len() ==> (#[trigger] rows[i]).len() == cols
}

impl<T> Matrix<T> {
    /// The data has exactly `rows * cols` elements.
    pub open spec fn wf(&self) -> bool {
        self.data@.len() == self.rows * self.cols
    }

    /// Row `i` of the matrix.
    pub open spec fn row_view(&self, i: int) -> Seq<T> {
        self.data@.subrange(i * self.cols, i * self.cols + self.cols)
    }

    /// Bytes the cells take in memory.
    pub fn byte_size(&self) -> (r: usize)
        requires
            self.data@.len() * vstd::layout::size_of::<T>() <= usize::MAX,
        ensures
            r == self.data@.len() * vstd::layout::size_of::<T>(),
    {
        self.data.len() * core::mem::size_of::<T>()
    }

    /// A matrix over `data` with the given shape, when the length matches.
    pub fn from_flat(data: Vec<T>, rows: usize, cols: usize) -> (r: Result<Self, MatrixError>)
        ensures
            r is Ok <==> data@.len() == rows * cols,
            r matches Ok(m) ==> m.data@ == data@ && m.rows == rows && m.cols == cols && m.wf(),
            r matches Err(e) ==> e == (MatrixError::LengthMismatch {
                len: data@.len() as usize,
                rows,
                cols,
            }),
    {
        let len = data.len();
        let fits = match rows.checked_mul(cols) {
            Some(p) => p == len,
            None => false,
        };
        if !fits {
            return Err(MatrixError::LengthMismatch { len, rows, cols });
        }
        Ok(Matrix { data, rows, cols })
    }
}

proof fn lemma_flatten_len<T>(rows: Seq<Seq<T>>, cols: int)
    requires
        uniform_rows(rows, cols),
        cols >= 0,
    ensures
        flatten(rows).len() == rows.len() * cols,
    decreases rows.len(),
{
    if rows.len() > 0 {
        assert(uniform_rows(rows.drop_last(), cols)) by {
            assert forall|i: int| 0 <= i < rows.drop_last().len() implies (
            #[trigger] rows.drop_last()[i]).len() == cols by {
                assert(rows.drop_last()[i] == rows[i]);
            }
        }
        lemma_flatten_len(rows.drop_last(), cols);
        assert(rows.last() == rows[rows.len() - 1]);
        vstd::arithmetic::mul::lemma_mul_is_distributive_add_other_way(
            cols,
            rows.len() - 1,
            1,
        );
    }
}

impl<T: Copy> Matrix<T> {
    /// Builds a matrix from its rows. The number of columns is the length of
    /// the first row (0 when there is none); rows of any other length are refused.
    pub fn from_vecs(vecs: &[Vec<T>]) -> (r: Result<Self, MatrixError>)
        ensures
            ({
                let rows = vecs@.map_values(|v: Vec<T>| v@);
                let cols = if rows.len() == 0 {
                    0
                } else {
                    rows[0].len() as int
                };
                match r {
                    Ok(m) => {
                        &&& uniform_rows(rows, cols)
                        &&& m.rows == rows.len()
                        &&& m.cols == cols
                        &&& m.data@ == flatten(rows)
                        &&& m.wf()
                    },
                    Err(e) => !uniform_rows(rows, cols) && e == MatrixError::RaggedRows,
                }
            }),
    {
        let ghost rows = vecs@.map_values(|v: Vec<T>| v@);
        let n = vecs.len();
        let cols = if n == 0 {
            0
        } else {
            vecs[0].len()
        };
        let mut i: usize = 0;
        while i < n
            invariant
                n == vecs@.len(),
                rows == vecs@.map_values(|v: Vec<T>| v@),
                i <= n,
                n > 0 ==> cols == rows[0].len(),
                forall|k: int| 0 <= k < i ==> (#[trigger] rows[k]).len() == cols,
            decreases n - i,
        {
            if vecs[i].len() != cols {
                proof {
                    assert(rows[i as int].len() != cols);
                }
                return Err(MatrixError::RaggedRows);
            }
            i = i + 1;
        }
        let mut data: Vec<T> = Vec::new();
        let mut r: usize = 0;
        while r < n
            invariant
                n == vecs@.len(),
                rows == vecs@.map_values(|v: Vec<T>| v@),
                r <= n,
                uniform_rows(rows, cols as int),
                data@ == flatten(rows.take(r as int)),
            decreases n - r,
        {
            let row = &vecs[r];
            let mut c: usize = 0;
            let ghost base = data@;
            while c < row.len()
                invariant
                    c <= row@.len(),
                    data@ == base + row@.take(c as int),
                decreases row.len() - c,
            {
                data.push(row[c]);
                c = c + 1;
                proof {
                    assert(data@ =~= base + row@.take(c as int));
                }
            }
            proof {
                assert(row@.take(row@.len() as int) =~= row@);
                assert(rows.take(r + 1).drop_last() =~= rows.take(r as int));
                assert(rows.take(r + 1).last() == rows[r as int]);
            }
            r = r + 1;
        }
        proof {
            assert(rows.take(n as int) =~= rows);
            lemma_flatten_len(rows, cols as int);
        }
        Ok(Matrix { data, rows: n, cols })
    }

    /// The rows of the matrix, in order.
    pub fn to_vecs(&self) -> (r: Vec<Vec<T>>)
        requires
            self.wf(),
            self.cols > 0,
        ensures
            r@.len() == self.rows,
            forall|i: int| 0 <= i < self.rows ==> (#[trigger] r@[i])@ == self.row_view(i),
    {
        let dlen = self.data.len();
        let mut out: Vec<Vec<T>> = Vec::new();
        let mut i: usize = 0;
        while i < self.rows
            invariant
                self.wf(),
                dlen == self.data@.len(),
                self.cols > 0,
                i <= self.rows,
                out@.len() == i,
                forall|k: int| 0 <= k < i ==> (#[trigger] out@[k])@ == self.row_view(k),
            decreases self.rows - i,
        {
            proof {
                vstd::arithmetic::mul::lemma_mul_inequality(i as int + 1, self.rows as int, self.cols as int);
                vstd::arithmetic::mul::lemma_mul_is_distributive_add_other_way(self.cols as int, i as int, 1);
            }
            let start = i * self.cols;
            let mut row: Vec<T> = Vec::new();
            let mut c: usize = 0;
            while c < self.cols
                invariant
                    self.wf(),
                    dlen == self.data@.len(),
                    start + self.cols <= self.data@.len(),
                    c <= self.cols,
                    row@ == self.data@.subrange(start as int, start + c),
                decreases self.cols - c,
            {
                row.push(self.data[start + c]);
                c = c + 1;
                proof {
                    assert(row@ =~= self.data@.subrange(start as int, start + c));
                }
            }
            out.push(row);
            i = i + 1;
        }
        out
    }

    /// Row `i` of the matrix, as a copy.
    pub fn row(&self, i: usize) -> (r: Vec<T>)
        requires
            self.wf(),
            i < self.rows,
        ensures
            r@ == self.row_view(i as int),
    {
        let dlen = self.data.len();
        proof {
            vstd::arithmetic::mul::lemma_mul_inequality(i as int + 1, self.rows as int, self.cols as int);
            vstd::arithmetic::mul::lemma_mul_is_distributive_add_other_way(self.cols as int, i as int, 1);
        }
        let start = i * self.cols;
        let mut row: Vec<T> = Vec::new();
        let mut c: usize = 0;
        while c < self.cols
            invariant
                self.wf(),
                dlen == self.data@.len(),
                start + self.cols <= self.data@.len(),
                start == i * self.cols,
                c <= self.cols,
                row@ == self.data@.subrange(start as int, start + c),
            decreases self.cols - c,
        {
            row.push(self.data[start + c]);
            c = c + 1;
            proof {
                assert(row@ =~= self.data@.subrange(start as int, start + c));
            }
        }
        row
    }
}

} // verus!
