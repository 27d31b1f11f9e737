//! Matrices of scalar codes and label arrays, kept in `ndarray` arrays.
//!
//! What an array holds has a name here, and each call into `ndarray` has a
//! wrapper whose contract says over those names what `ndarray` documents of
//! the call. These contracts are believed, not proved; all else in this
//! crate is proved from them.
use vstd::prelude::*;
use ndarray::{Array1, Array2};
use crate::{NetError, Shape};

verus! {

/// The rows that `cells` holds when read row by row, `cols` entries to a row.
pub open spec fn row_major<T>(cells: Seq<T>, rows: nat, cols: nat) -> Seq<Seq<T>> {
    Seq::new(rows, |i: int| Seq::new(cols, |j: int| cells[i * (cols as int) + j]))
}

/// Every row of `grid` has `cols` entries.
pub open spec fn rectangular<T>(grid: Seq<Seq<T>>, cols: nat) -> bool {
    forall|i: int| 0 <= i < grid.len() ==> (#[trigger] grid[i]).len() == cols
}

/// The product of those of the two axis lengths that are not zero.
pub open spec fn extent(rows: nat, cols: nat) -> nat {
    if rows == 0 {
        if cols == 0 { 1 } else { cols }
    } else if cols == 0 {
        rows
    } else {
        rows * cols
    }
}

pub(crate) proof fn lemma_product_over(n: int, c: int, limit: int)
    requires
        n > 0,
        limit >= 0,
        c > limit / n,
    ensures
        n * c > limit,
{
    vstd::arithmetic::div_mod::lemma_fundamental_div_mod(limit, n);
    vstd::arithmetic::div_mod::lemma_mod_bound(limit, n);
    assert(n * c > limit) by (nonlinear_arith)
        requires
            n > 0,
            limit >= 0,
            c >= limit / n + 1,
            limit == n * (limit / n) + limit % n,
            0 <= limit % n < n,
    ;
}

pub(crate) proof fn lemma_product_under(n: int, c: int, limit: int)
    requires
        n > 0,
        limit >= 0,
        0 <= c <= limit / n,
    ensures
        n * c <= limit,
{
    vstd::arithmetic::div_mod::lemma_fundamental_div_mod(limit, n);
    vstd::arithmetic::div_mod::lemma_mod_bound(limit, n);
    assert(n * c <= limit) by (nonlinear_arith)
        requires
            n > 0,
            0 <= c <= limit / n,
            limit == n * (limit / n) + limit % n,
            0 <= limit % n < n,
    ;
}

/// The views of the rows of a vector of vectors.
pub open spec fn grid_view<T>(rows: Seq<Vec<T>>) -> Seq<Seq<T>> {
    Seq::new(rows.len(), |i: int| rows[i]@)
}

proof fn lemma_cell_index(i: int, j: int, rows: int, cols: int)
    requires
        0 <= i < rows,
        0 <= j < cols,
    ensures
        0 <= i * cols + j < rows * cols,
        i * cols + cols <= rows * cols,
{
    assert(i * cols + cols == (i + 1) * cols) by (nonlinear_arith);
    assert((i + 1) * cols <= rows * cols) by (nonlinear_arith)
        requires
            i + 1 <= rows,
            0 <= cols,
    ;
    assert(0 <= i * cols) by (nonlinear_arith)
        requires
            0 <= i,
            0 <= cols,
    ;
}

/// Lays the rows out one after another, where each has `cols` entries.
pub(crate) fn flatten<T: Copy>(rows: &Vec<Vec<T>>, cols: usize) -> (cells: Option<Vec<T>>)
    ensures
        cells.is_some() <==> rectangular(grid_view(rows@), cols as nat),
        cells matches Some(c) ==> {
            &&& c@.len() == rows@.len() * cols
            &&& row_major(c@, rows@.len(), cols as nat) =~~= grid_view(rows@)
        },
{
    let mut cells: Vec<T> = Vec::new();
    let mut i: usize = 0;
    while i < rows.len()
        invariant
            0 <= i <= rows@.len(),
            cells@.len() == i * cols,
            forall|a: int| 0 <= a < i ==> (#[trigger] rows@[a])@.len() == cols,
            forall|a: int, b: int|
                0 <= a < i && 0 <= b < cols ==> cells@[a * (cols as int) + b] == #[trigger] rows@[a]@[b],
        decreases rows@.len() - i,
    {
        let row = &rows[i];
        if row.len() != cols {
            proof {
                assert(grid_view(rows@)[i as int].len() != cols);
            }
            return None;
        }
        let mut j: usize = 0;
        while j < cols
            invariant
                0 <= j <= cols,
                0 <= i < rows@.len(),
                row == rows@[i as int],
                row@.len() == cols,
                cells@.len() == i * cols + j,
                forall|a: int, b: int|
                    0 <= a < i && 0 <= b < cols ==> cells@[a * (cols as int) + b] == #[trigger] rows@[a]@[b],
                forall|b: int| 0 <= b < j ==> cells@[i * (cols as int) + b] == #[trigger] row@[b],
            decreases cols - j,
        {
            let ghost before = cells@;
            cells.push(row[j]);
            proof {
                assert forall|a: int, b: int| 0 <= a < i && 0 <= b < cols implies cells@[a * (
                cols as int) + b] == #[trigger] rows@[a]@[b] by {
                    lemma_cell_index(a, b, i as int, cols as int);
                    assert(cells@[a * (cols as int) + b] == before[a * (cols as int) + b]);
                }
            }
            j = j + 1;
        }
        proof {
            assert(i * cols + cols == (i + 1) * cols) by (nonlinear_arith);
        }
        i = i + 1;
    }
    proof {
        assert forall|a: int| 0 <= a < rows@.len() implies (#[trigger] grid_view(rows@)[a]).len()
            == cols by {
            assert(rows@[a]@.len() == cols);
        }
        assert forall|a: int| 0 <= a < rows@.len() implies #[trigger] row_major(
            cells@,
            rows@.len(),
            cols as nat,
        )[a] =~= grid_view(rows@)[a] by {
            assert forall|b: int| 0 <= b < cols implies row_major(cells@, rows@.len(), cols as nat)[a][b]
                == grid_view(rows@)[a][b] by {
                assert(cells@[a * (cols as int) + b] == rows@[a]@[b]);
            }
        }
    }
    Some(cells)
}

/// A matrix of scalar codes, kept in an `ndarray` array of two axes.
#[verifier::external_body]
pub struct Matrix {
    inner: Array2<i64>,
}

/// The rows of a matrix, each with its codes in column order.
pub uninterp spec fn matrix_rows(m: Matrix) -> Seq<Seq<i64>>;

/// The number of columns of a matrix, which it has even without rows.
pub uninterp spec fn matrix_width(m: Matrix) -> nat;

impl View for Matrix {
    type V = Seq<Seq<i64>>;

    open spec fn view(&self) -> Seq<Seq<i64>> {
        matrix_rows(*self)
    }
}

impl Matrix {
    /// The number of columns.
    pub open spec fn width(&self) -> nat {
        matrix_width(*self)
    }

    /// The number of rows and of columns, as a `Shape` would hold them.
    pub open spec fn has_shape(&self, shape: Shape) -> bool {
        self@.len() == shape.rows && self.width() == shape.cols
    }

    /// The shape.
    pub open spec fn dims(&self) -> Shape {
        Shape { rows: self@.len() as usize, cols: self.width() as usize }
    }

    /// `Array2::from_shape_vec` with the shape `(rows, cols)`: the array whose
    /// rows are read off `cells` one after another. It gives none where
    /// `cells` has another length than the shape asks for, or where the
    /// product of the nonzero axis lengths is over `isize::MAX`.
    #[verifier::external_body]
    pub(crate) fn from_shape_vec(rows: usize, cols: usize, cells: Vec<i64>) -> (made: Option<Matrix>)
        ensures
            made.is_some() <==> (rows * cols == cells@.len() && extent(rows as nat, cols as nat)
                <= isize::MAX),
            made matches Some(m) ==> matrix_rows(m) == row_major(cells@, rows as nat, cols as nat)
                && matrix_width(m) == cols,
    {
        Array2::from_shape_vec((rows, cols), cells).ok().map(|inner| Matrix { inner })
    }

    /// `ArrayBase::nrows`: the length of the first axis.
    #[verifier::external_body]
    pub(crate) fn nrows(&self) -> (n: usize)
        ensures
            n == matrix_rows(*self).len(),
    {
        self.inner.nrows()
    }

    /// `ArrayBase::ncols`: the length of the second axis, which is the length
    /// of every row.
    #[verifier::external_body]
    pub(crate) fn ncols(&self) -> (n: usize)
        ensures
            n == matrix_width(*self),
            rectangular(matrix_rows(*self), n as nat),
    {
        self.inner.ncols()
    }

    /// Indexing by `[[i, j]]`: the code in row `i` and column `j`.
    #[verifier::external_body]
    pub(crate) fn at(&self, i: usize, j: usize) -> (code: i64)
        requires
            i < matrix_rows(*self).len(),
            j < matrix_width(*self),
        ensures
            code == matrix_rows(*self)[i as int][j as int],
    {
        self.inner[[i, j]]
    }

    /// Assigning through `[[i, j]]`: the code in row `i` and column `j`
    /// becomes `code`, and no other changes.
    #[verifier::external_body]
    pub(crate) fn put(&mut self, i: usize, j: usize, code: i64)
        requires
            i < matrix_rows(*old(self)).len(),
            j < matrix_width(*old(self)),
        ensures
            matrix_rows(*final(self)) == matrix_rows(*old(self)).update(
                i as int,
                matrix_rows(*old(self))[i as int].update(j as int, code),
            ),
            matrix_width(*final(self)) == matrix_width(*old(self)),
    {
        self.inner[[i, j]] = code;
    }

    /// `Clone::clone` of the array: an array of the same shape and codes.
    #[verifier::external_body]
    pub(crate) fn duplicate(&self) -> (copy: Matrix)
        ensures
            matrix_rows(copy) == matrix_rows(*self),
            matrix_width(copy) == matrix_width(*self),
    {
        Matrix { inner: self.inner.clone() }
    }

    /// The matrix with the given rows, each of `cols` codes.
    pub fn from_rows(rows: Vec<Vec<i64>>, cols: usize) -> (made: Result<Matrix, NetError>)
        ensures
            made.is_ok() <==> (rectangular(grid_view(rows@), cols as nat) && extent(
                rows@.len(),
                cols as nat,
            ) <= isize::MAX),
            made matches Ok(m) ==> m@ == grid_view(rows@) && m.width() == cols,
            made matches Err(e) ==> e == NetError::DimensionMismatch,
    {
        match flatten(&rows, cols) {
            None => Err(NetError::DimensionMismatch),
            Some(cells) => {
                match Matrix::from_shape_vec(rows.len(), cols, cells) {
                    None => Err(NetError::DimensionMismatch),
                    Some(m) => Ok(m),
                }
            },
        }
    }

    /// The number of rows and of columns.
    pub fn shape(&self) -> (shape: Shape)
        ensures
            shape == self.dims(),
            self.has_shape(shape),
            rectangular(self@, shape.cols as nat),
    {
        Shape { rows: self.nrows(), cols: self.ncols() }
    }

    /// The rows, each as a vector of its codes.
    pub fn to_rows(&self) -> (rows: Vec<Vec<i64>>)
        ensures
            grid_view(rows@) == self@,
    {
        let height = self.nrows();
        let width = self.ncols();
        let mut rows: Vec<Vec<i64>> = Vec::new();
        let mut i: usize = 0;
        while i < height
            invariant
                0 <= i <= height,
                height == self@.len(),
                width == self.width(),
                rectangular(self@, width as nat),
                rows@.len() == i,
                forall|a: int| 0 <= a < i ==> (#[trigger] rows@[a])@ == self@[a],
            decreases height - i,
        {
            let mut row: Vec<i64> = Vec::new();
            let mut j: usize = 0;
            while j < width
                invariant
                    0 <= j <= width,
                    0 <= i < height,
                    height == self@.len(),
                    width == self.width(),
                    rectangular(self@, width as nat),
                    row@.len() == j,
                    forall|b: int| 0 <= b < j ==> row@[b] == self@[i as int][b],
                decreases width - j,
            {
                row.push(self.at(i, j));
                j = j + 1;
            }
            assert(row@ =~= self@[i as int]);
            rows.push(row);
            i = i + 1;
        }
        assert(grid_view(rows@) =~= self@);
        rows
    }
}

impl Clone for Matrix {
    fn clone(&self) -> (copy: Matrix)
        ensures
            copy@ == self@,
            copy.width() == self.width(),
    {
        self.duplicate()
    }
}

/// One class index for each sample of a batch, kept in an `ndarray` array of
/// one axis.
#[verifier::external_body]
pub struct SparseLabels {
    inner: Array1<usize>,
}

/// The class indices that a label vector holds, in sample order.
pub uninterp spec fn sparse_entries(labels: SparseLabels) -> Seq<usize>;

impl View for SparseLabels {
    type V = Seq<usize>;

    open spec fn view(&self) -> Seq<usize> {
        sparse_entries(*self)
    }
}

impl SparseLabels {
    /// `Array1::from_vec`: the array with the vector's entries, in its order.
    #[verifier::external_body]
    pub(crate) fn from_vec(entries: Vec<usize>) -> (labels: SparseLabels)
        ensures
            sparse_entries(labels) == entries@,
    {
        SparseLabels { inner: Array1::from_vec(entries) }
    }

    /// `ArrayBase::len`: the number of entries.
    #[verifier::external_body]
    pub(crate) fn count(&self) -> (n: usize)
        ensures
            n == sparse_entries(*self).len(),
    {
        self.inner.len()
    }

    /// Indexing by `[i]`: the class index of sample `i`.
    #[verifier::external_body]
    pub(crate) fn at(&self, i: usize) -> (class: usize)
        requires
            i < sparse_entries(*self).len(),
        ensures
            class == sparse_entries(*self)[i as int],
    {
        self.inner[i]
    }

    /// The label vector with the given class indices.
    pub fn new(entries: Vec<usize>) -> (labels: SparseLabels)
        ensures
            labels@ == entries@,
    {
        SparseLabels::from_vec(entries)
    }

    /// The number of samples.
    pub fn len(&self) -> (n: usize)
        ensures
            n == self@.len(),
    {
        self.count()
    }

    /// The class indices, in sample order.
    pub fn to_vec(&self) -> (entries: Vec<usize>)
        ensures
            entries@ == self@,
    {
        let n = self.count();
        let mut entries: Vec<usize> = Vec::new();
        let mut i: usize = 0;
        while i < n
            invariant
                0 <= i <= n,
                n == self@.len(),
                entries@.len() == i,
                forall|a: int| 0 <= a < i ==> entries@[a] == self@[a],
            decreases n - i,
        {
            entries.push(self.at(i));
            i = i + 1;
        }
        assert(entries@ =~= self@);
        entries
    }
}

/// One indicator row for each sample of a batch, kept in an `ndarray` array of
/// two axes.
#[verifier::external_body]
pub struct OneHotLabels {
    inner: Array2<usize>,
}

/// The rows of a one-hot label array, each with its entries in class order.
pub uninterp spec fn one_hot_rows(labels: OneHotLabels) -> Seq<Seq<usize>>;

/// The number of classes of a one-hot label array, which it has even without
/// rows.
pub uninterp spec fn one_hot_width(labels: OneHotLabels) -> nat;

impl View for OneHotLabels {
    type V = Seq<Seq<usize>>;

    open spec fn view(&self) -> Seq<Seq<usize>> {
        one_hot_rows(*self)
    }
}

impl OneHotLabels {
    /// The number of classes.
    pub open spec fn width(&self) -> nat {
        one_hot_width(*self)
    }

    /// The number of rows and of columns, as a `Shape` would hold them.
    pub open spec fn has_shape(&self, shape: Shape) -> bool {
        self@.len() == shape.rows && self.width() == shape.cols
    }

    /// The shape.
    pub open spec fn dims(&self) -> Shape {
        Shape { rows: self@.len() as usize, cols: self.width() as usize }
    }

    /// `Array2::from_shape_vec` with the shape `(rows, cols)`: the array whose
    /// rows are read off `cells` one after another. It gives none where
    /// `cells` has another length than the shape asks for, or where the
    /// product of the nonzero axis lengths is over `isize::MAX`.
    #[verifier::external_body]
    pub(crate) fn from_shape_vec(rows: usize, cols: usize, cells: Vec<usize>) -> (made: Option<
        OneHotLabels,
    >)
        ensures
            made.is_some() <==> (rows * cols == cells@.len() && extent(rows as nat, cols as nat)
                <= isize::MAX),
            made matches Some(l) ==> one_hot_rows(l) == row_major(cells@, rows as nat, cols as nat)
                && one_hot_width(l) == cols,
    {
        Array2::from_shape_vec((rows, cols), cells).ok().map(|inner| OneHotLabels { inner })
    }

    /// `ArrayBase::nrows`: the length of the first axis.
    #[verifier::external_body]
    pub(crate) fn nrows(&self) -> (n: usize)
        ensures
            n == one_hot_rows(*self).len(),
    {
        self.inner.nrows()
    }

    /// `ArrayBase::ncols`: the length of the second axis, which is the length
    /// of every row.
    #[verifier::external_body]
    pub(crate) fn ncols(&self) -> (n: usize)
        ensures
            n == one_hot_width(*self),
            rectangular(one_hot_rows(*self), n as nat),
    {
        self.inner.ncols()
    }

    /// Indexing by `[[i, j]]`: the entry in row `i` and column `j`.
    #[verifier::external_body]
    pub(crate) fn at(&self, i: usize, j: usize) -> (entry: usize)
        requires
            i < one_hot_rows(*self).len(),
            j < one_hot_width(*self),
        ensures
            entry == one_hot_rows(*self)[i as int][j as int],
    {
        self.inner[[i, j]]
    }

    /// The label array with the given rows, each of `cols` entries.
    pub fn from_rows(rows: Vec<Vec<usize>>, cols: usize) -> (made: Result<OneHotLabels, NetError>)
        ensures
            made.is_ok() <==> (rectangular(grid_view(rows@), cols as nat) && extent(
                rows@.len(),
                cols as nat,
            ) <= isize::MAX),
            made matches Ok(l) ==> l@ == grid_view(rows@) && l.width() == cols,
            made matches Err(e) ==> e == NetError::DimensionMismatch,
    {
        match flatten(&rows, cols) {
            None => Err(NetError::DimensionMismatch),
            Some(cells) => {
                match OneHotLabels::from_shape_vec(rows.len(), cols, cells) {
                    None => Err(NetError::DimensionMismatch),
                    Some(l) => Ok(l),
                }
            },
        }
    }

    /// The number of rows and of columns.
    pub fn shape(&self) -> (shape: Shape)
        ensures
            shape == self.dims(),
            self.has_shape(shape),
            rectangular(self@, shape.cols as nat),
    {
        Shape { rows: self.nrows(), cols: self.ncols() }
    }

    /// The rows, each as a vector of its entries.
    pub fn to_rows(&self) -> (rows: Vec<Vec<usize>>)
        ensures
            grid_view(rows@) == self@,
    {
        let height = self.nrows();
        let width = self.ncols();
        let mut rows: Vec<Vec<usize>> = Vec::new();
        let mut i: usize = 0;
        while i < height
            invariant
                0 <= i <= height,
                height == self@.len(),
                width == self.width(),
                rectangular(self@, width as nat),
                rows@.len() == i,
                forall|a: int| 0 <= a < i ==> (#[trigger] rows@[a])@ == self@[a],
            decreases height - i,
        {
            let mut row: Vec<usize> = Vec::new();
            let mut j: usize = 0;
            while j < width
                invariant
                    0 <= j <= width,
                    0 <= i < height,
                    height == self@.len(),
                    width == self.width(),
                    rectangular(self@, width as nat),
                    row@.len() == j,
                    forall|b: int| 0 <= b < j ==> row@[b] == self@[i as int][b],
                decreases width - j,
            {
                row.push(self.at(i, j));
                j = j + 1;
            }
            assert(row@ =~= self@[i as int]);
            rows.push(row);
            i = i + 1;
        }
        assert(grid_view(rows@) =~= self@);
        rows
    }
}

} // verus!
