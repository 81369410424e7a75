use vstd::prelude::*;

use crate::math::vector::Vector;

verus! {

/// A column-major matrix of 64-bit integer scalars: entry `(row i, column j)`
/// lives at `self@[j][i]`. The view is the sequence of column views.
#[derive(Debug, Clone)]
pub struct Matrix {
    pub data: Vec<Vector>,
}

impl View for Matrix {
    type V = Seq<Seq<i64>>;

    closed spec fn view(&self) -> Seq<Seq<i64>> {
        Seq::new(self.data@.len(), |j: int| self.data@[j]@)
    }
}

impl Matrix {
    /// True when every column has the same length as the first one.
    pub open spec fn is_rect(&self) -> bool {
        forall|j: int| 0 <= j < self@.len() ==> (#[trigger] self@[j]).len() == self@[0].len()
    }

    /// Wraps a vector of columns.
    pub fn new(data: Vec<Vector>) -> (m: Matrix)
        ensures
            m@.len() == data@.len(),
            forall|j: int| 0 <= j < data@.len() ==> m@[j] == (#[trigger] data@[j])@,
    {
        Matrix { data }
    }

    /// The number of columns.
    pub fn col_num(&self) -> (n: usize)
        ensures
            n == self@.len(),
    {
        self.data.len()
    }

    /// The number of rows, taken from the first column.
    pub fn row_num(&self) -> (n: usize)
        requires
            self@.len() > 0,
        ensures
            n == self@[0].len(),
    {
        self.data[0].len()
    }

    /// The `(rows, columns)` pair.
    pub fn shape(&self) -> (s: (usize, usize))
        requires
            self@.len() > 0,
        ensures
            s.0 == self@[0].len(),
            s.1 == self@.len(),
    {
        (self.row_num(), self.col_num())
    }

    /// The entry at row `index.0`, column `index.1`.
    pub fn get(&self, index: (usize, usize)) -> (x: i64)
        requires
            index.1 < self@.len(),
            index.0 < self@[index.1 as int].len(),
        ensures
            x == self@[index.1 as int][index.0 as int],
    {
        self.data[index.1].get(index.0)
    }

    /// Replaces the entry at row `index.0`, column `index.1`.
    pub fn set(&mut self, index: (usize, usize), x: i64)
        requires
            index.1 < old(self)@.len(),
            index.0 < old(self)@[index.1 as int].len(),
        ensures
            final(self)@ == old(self)@.update(
                index.1 as int,
                old(self)@[index.1 as int].update(index.0 as int, x),
            ),
    {
        let ghost pre = self@;
        let mut col = self.data.remove(index.1);
        col.set(index.0, x);
        self.data.insert(index.1, col);
        proof {
            assert(self@ =~= pre.update(
                index.1 as int,
                pre[index.1 as int].update(index.0 as int, x),
            ));
        }
    }

    /// A `row_num` by `col_num` matrix of zeros.
    pub fn zeros(row_num: usize, col_num: usize) -> (m: Matrix)
        ensures
            m@.len() == col_num,
            forall|j: int| 0 <= j < col_num ==> #[trigger] m@[j] == Seq::new(
                row_num as nat,
                |i: int| 0i64,
            ),
    {
        let mut data: Vec<Vector> = Vec::new();
        for j in 0..col_num
            invariant
                data@.len() == j,
                forall|k: int| 0 <= k < j ==> (#[trigger] data@[k])@ == Seq::new(
                    row_num as nat,
                    |i: int| 0i64,
                ),
        {
            data.push(Vector::zeros(row_num));
        }
        Matrix { data }
    }

    /// The `n` by `n` identity matrix.
    pub fn identity(n: usize) -> (m: Matrix)
        ensures
            m@.len() == n,
            forall|j: int| 0 <= j < n ==> (#[trigger] m@[j]).len() == n,
            forall|j: int, i: int|
                0 <= j < n && 0 <= i < n ==> (#[trigger] m@[j][i]) == (if i == j {
                    1i64
                } else {
                    0i64
                }),
    {
        let mut out = Matrix::zeros(n, n);
        for k in 0..n
            invariant
                out@.len() == n,
                forall|j: int| 0 <= j < n ==> (#[trigger] out@[j]).len() == n,
                forall|j: int, i: int|
                    0 <= j < n && 0 <= i < n && j < k ==> (#[trigger] out@[j][i]) == (if i == j {
                        1i64
                    } else {
                        0i64
                    }),
                forall|j: int, i: int|
                    0 <= j < n && 0 <= i < n && j >= k ==> (#[trigger] out@[j][i]) == 0i64,
        {
            out.set((k, k), 1);
        }
        out
    }

    /// Overwrites the entries from a column-major slice of slices:
    /// entry `(i, j)` is taken from `slice[j][i]`.
    pub fn copy_slice(&mut self, slice: &[&[i64]])
        requires
            old(self)@.len() > 0,
            old(self).is_rect(),
            slice@.len() >= old(self)@.len(),
            forall|j: int|
                0 <= j < old(self)@.len() ==> (#[trigger] slice@[j])@.len() >= old(
                    self,
                )@[0].len(),
        ensures
            final(self)@.len() == old(self)@.len(),
            forall|j: int| 0 <= j < old(self)@.len() ==> (#[trigger] final(self)@[j]).len() == old(
                self,
            )@[j].len(),
            forall|j: int, i: int|
                0 <= j < old(self)@.len() && 0 <= i < old(self)@[0].len()
                    ==> (#[trigger] final(self)@[j][i]) == slice@[j]@[i],
    {
        let (row, col) = self.shape();
        for i in 0..row
            invariant
                row == old(self)@[0].len(),
                col == old(self)@.len(),
                self@.len() == col,
                forall|j: int| 0 <= j < col ==> (#[trigger] self@[j]).len() == row,
                slice@.len() >= col,
                forall|j: int| 0 <= j < col ==> (#[trigger] slice@[j])@.len() >= row,
                forall|j: int, i0: int|
                    0 <= j < col && 0 <= i0 < i ==> (#[trigger] self@[j][i0]) == slice@[j]@[i0],
        {
            for j in 0..col
                invariant
                    row == old(self)@[0].len(),
                    col == old(self)@.len(),
                    i < row,
                    self@.len() == col,
                    forall|k: int| 0 <= k < col ==> (#[trigger] self@[k]).len() == row,
                    slice@.len() >= col,
                    forall|k: int| 0 <= k < col ==> (#[trigger] slice@[k])@.len() >= row,
                    forall|k: int, i0: int|
                        0 <= k < col && 0 <= i0 < i ==> (#[trigger] self@[k][i0]) == slice@[k]@[i0],
                    forall|k: int| 0 <= k < j ==> self@[k][i as int] == slice@[k]@[i as int],
            {
                self.set((i, j), slice[j][i]);
            }
        }
    }

    /// The homogeneous translation matrix for the offset `(x, y, z)`.
    pub fn translate(x: i64, y: i64, z: i64) -> (m: Matrix)
        ensures
            m@.len() == 4,
            m@[0] == seq![1i64, 0i64, 0i64, 0i64],
            m@[1] == seq![0i64, 1i64, 0i64, 0i64],
            m@[2] == seq![0i64, 0i64, 1i64, 0i64],
            m@[3] == seq![x, y, z, 1i64],
    {
        let mut data: Vec<Vector> = Vec::new();
        data.push(column4(1, 0, 0, 0));
        data.push(column4(0, 1, 0, 0));
        data.push(column4(0, 0, 1, 0));
        data.push(column4(x, y, z, 1));
        let m = Matrix { data };
        proof {
            assert(m@[0] =~= seq![1i64, 0i64, 0i64, 0i64]);
            assert(m@[1] =~= seq![0i64, 1i64, 0i64, 0i64]);
            assert(m@[2] =~= seq![0i64, 0i64, 1i64, 0i64]);
            assert(m@[3] =~= seq![x, y, z, 1i64]);
        }
        m
    }

    /// Entry-wise sum of two matrices of the same shape.
    pub fn add(&self, rhs: &Matrix) -> (m: Matrix)
        requires
            self@.len() > 0,
            self.is_rect(),
            rhs@.len() == self@.len(),
            forall|j: int| 0 <= j < self@.len() ==> (#[trigger] rhs@[j]).len() == self@[0].len(),
            forall|j: int, i: int|
                0 <= j < self@.len() && 0 <= i < self@[0].len() ==> i64::MIN <= (#[trigger] self@[j][i])
                    + rhs@[j][i] <= i64::MAX,
        ensures
            m@.len() == self@.len(),
            forall|j: int| 0 <= j < self@.len() ==> (#[trigger] m@[j]).len() == self@[0].len(),
            forall|j: int, i: int|
                0 <= j < self@.len() && 0 <= i < self@[0].len() ==> (#[trigger] m@[j][i]) == self@[j][i]
                    + rhs@[j][i],
    {
        let row = self.row_num();
        let col = self.col_num();
        let mut data: Vec<Vector> = Vec::new();
        for j in 0..col
            invariant
                row == self@[0].len(),
                col == self@.len(),
                self.is_rect(),
                rhs@.len() == col,
                forall|k: int| 0 <= k < col ==> (#[trigger] rhs@[k]).len() == row,
                forall|k: int, i: int|
                    0 <= k < col && 0 <= i < row ==> i64::MIN <= (#[trigger] self@[k][i]) + rhs@[k][i]
                        <= i64::MAX,
                data@.len() == j,
                forall|k: int| 0 <= k < j ==> (#[trigger] data@[k])@.len() == row,
                forall|k: int, i: int|
                    0 <= k < j && 0 <= i < row ==> (#[trigger] data@[k]@[i]) == self@[k][i] + rhs@[k][i],
        {
            let mut colv: Vec<i64> = Vec::new();
            for i in 0..row
                invariant
                    row == self@[0].len(),
                    col == self@.len(),
                    j < col,
                    self.is_rect(),
                    rhs@.len() == col,
                    forall|k: int| 0 <= k < col ==> (#[trigger] rhs@[k]).len() == row,
                    forall|k: int, i0: int|
                        0 <= k < col && 0 <= i0 < row ==> i64::MIN <= (#[trigger] self@[k][i0]) + rhs@[k][i0]
                            <= i64::MAX,
                    colv@.len() == i,
                    forall|i0: int|
                        0 <= i0 < i ==> colv@[i0] == self@[j as int][i0] + rhs@[j as int][i0],
            {
                colv.push(self.get((i, j)) + rhs.get((i, j)));
            }
            data.push(Vector::new(colv));
        }
        Matrix { data }
    }

    /// Entry-wise difference of two matrices of the same shape.
    pub fn sub(&self, rhs: &Matrix) -> (m: Matrix)
        requires
            self@.len() > 0,
            self.is_rect(),
            rhs@.len() == self@.len(),
            forall|j: int| 0 <= j < self@.len() ==> (#[trigger] rhs@[j]).len() == self@[0].len(),
            forall|j: int, i: int|
                0 <= j < self@.len() && 0 <= i < self@[0].len() ==> i64::MIN <= (#[trigger] self@[j][i])
                    - rhs@[j][i] <= i64::MAX,
        ensures
            m@.len() == self@.len(),
            forall|j: int| 0 <= j < self@.len() ==> (#[trigger] m@[j]).len() == self@[0].len(),
            forall|j: int, i: int|
                0 <= j < self@.len() && 0 <= i < self@[0].len() ==> (#[trigger] m@[j][i]) == self@[j][i]
                    - rhs@[j][i],
    {
        let row = self.row_num();
        let col = self.col_num();
        let mut data: Vec<Vector> = Vec::new();
        for j in 0..col
            invariant
                row == self@[0].len(),
                col == self@.len(),
                self.is_rect(),
                rhs@.len() == col,
                forall|k: int| 0 <= k < col ==> (#[trigger] rhs@[k]).len() == row,
                forall|k: int, i: int|
                    0 <= k < col && 0 <= i < row ==> i64::MIN <= (#[trigger] self@[k][i]) - rhs@[k][i]
                        <= i64::MAX,
                data@.len() == j,
                forall|k: int| 0 <= k < j ==> (#[trigger] data@[k])@.len() == row,
                forall|k: int, i: int|
                    0 <= k < j && 0 <= i < row ==> (#[trigger] data@[k]@[i]) == self@[k][i] - rhs@[k][i],
        {
            let mut colv: Vec<i64> = Vec::new();
            for i in 0..row
                invariant
                    row == self@[0].len(),
                    col == self@.len(),
                    j < col,
                    self.is_rect(),
                    rhs@.len() == col,
                    forall|k: int| 0 <= k < col ==> (#[trigger] rhs@[k]).len() == row,
                    forall|k: int, i0: int|
                        0 <= k < col && 0 <= i0 < row ==> i64::MIN <= (#[trigger] self@[k][i0]) - rhs@[k][i0]
                            <= i64::MAX,
                    colv@.len() == i,
                    forall|i0: int|
                        0 <= i0 < i ==> colv@[i0] == self@[j as int][i0] - rhs@[j as int][i0],
            {
                colv.push(self.get((i, j)) - rhs.get((i, j)));
            }
            data.push(Vector::new(colv));
        }
        Matrix { data }
    }
}

/// A matrix of fixed shape, `ROW` by `COL`, column major: a snapshot of a
/// [`Matrix`] taken at a statically known size.
#[derive(Debug, Clone)]
pub struct SMatrix<const ROW: usize, const COL: usize> {
    data: Vec<Vec<i64>>,
}

impl<const ROW: usize, const COL: usize> View for SMatrix<ROW, COL> {
    type V = Seq<Seq<i64>>;

    closed spec fn view(&self) -> Seq<Seq<i64>> {
        Seq::new(self.data@.len(), |j: int| self.data@[j]@)
    }
}

impl<const ROW: usize, const COL: usize> SMatrix<ROW, COL> {
    /// The shape always matches the static parameters.
    pub open spec fn wf(&self) -> bool {
        &&& self@.len() == COL
        &&& forall|j: int| 0 <= j < COL ==> (#[trigger] self@[j]).len() == ROW
    }

    /// The zero matrix of this shape.
    pub fn new() -> (m: SMatrix<ROW, COL>)
        ensures
            m.wf(),
            forall|j: int, i: int|
                0 <= j < COL && 0 <= i < ROW ==> (#[trigger] m@[j][i]) == 0i64,
    {
        let mut data: Vec<Vec<i64>> = Vec::new();
        for j in 0..COL
            invariant
                data@.len() == j,
                forall|k: int| 0 <= k < j ==> (#[trigger] data@[k])@ == Seq::new(
                    ROW as nat,
                    |i: int| 0i64,
                ),
        {
            let col: Vec<i64> = vec![0i64; ROW];
            proof {
                assert(col@ =~= Seq::new(ROW as nat, |i: int| 0i64));
            }
            data.push(col);
        }
        SMatrix { data }
    }

    /// The entry at row `i`, column `j`.
    pub fn get(&self, i: usize, j: usize) -> (x: i64)
        requires
            self.wf(),
            i < ROW,
            j < COL,
        ensures
            x == self@[j as int][i as int],
    {
        proof {
            assert(self.data@.len() == COL);
            assert(self@[j as int] == self.data@[j as int]@);
            assert(self.data@[j as int]@.len() == ROW);
        }
        self.data[j][i]
    }
}

impl Matrix {
    /// A fixed-shape snapshot of the top-left `ROW` by `COL` block.
    pub fn as_static<const ROW: usize, const COL: usize>(&self) -> (out: SMatrix<ROW, COL>)
        requires
            self@.len() >= COL,
            forall|j: int| 0 <= j < COL ==> (#[trigger] self@[j]).len() >= ROW,
        ensures
            out.wf(),
            forall|j: int, i: int|
                0 <= j < COL && 0 <= i < ROW ==> (#[trigger] out@[j][i]) == self@[j][i],
    {
        let mut data: Vec<Vec<i64>> = Vec::new();
        for j in 0..COL
            invariant
                self@.len() >= COL,
                forall|k: int| 0 <= k < COL ==> (#[trigger] self@[k]).len() >= ROW,
                data@.len() == j,
                forall|k: int| 0 <= k < j ==> (#[trigger] data@[k])@.len() == ROW,
                forall|k: int, i: int|
                    0 <= k < j && 0 <= i < ROW ==> (#[trigger] data@[k]@[i]) == self@[k][i],
        {
            let mut col: Vec<i64> = Vec::new();
            for i in 0..ROW
                invariant
                    self@.len() >= COL,
                    j < COL,
                    forall|k: int| 0 <= k < COL ==> (#[trigger] self@[k]).len() >= ROW,
                    col@.len() == i,
                    forall|i0: int| 0 <= i0 < i ==> (#[trigger] col@[i0]) == self@[j as int][i0],
            {
                col.push(self.get((i, j)));
            }
            data.push(col);
        }
        SMatrix { data }
    }
}

/// Builds a four-entry column.
fn column4(a: i64, b: i64, c: i64, d: i64) -> (v: Vector)
    ensures
        v@ == seq![a, b, c, d],
{
    let mut data: Vec<i64> = Vec::new();
    data.push(a);
    data.push(b);
    data.push(c);
    data.push(d);
    proof {
        assert(data@ =~= seq![a, b, c, d]);
    }
    Vector::new(data)
}

} // verus!
