//! Labels in their two forms, clipping, and the accuracy of predictions.
use vstd::prelude::*;
use crate::{stretched, NetError, Shape};
use crate::scalar::{at_most, below, is_number, INFINITY, NEG_INFINITY, NOT_A_NUMBER};
use crate::tensor::{
    extent, grid_view, lemma_product_over, lemma_product_under, rectangular, Matrix, OneHotLabels,
    SparseLabels,
};

verus! {

/// The value `x` brought into the interval from `lo` to `hi`: `lo` where `x`
/// is below it, `hi` where `x` is above it, and `x` itself otherwise, also
/// where `x` is not a number.
pub open spec fn clamped(x: i64, lo: i64, hi: i64) -> i64 {
    if below(x, lo) { lo } else if below(hi, x) { hi } else { x }
}

/// `b` holds the values of `a` brought into the interval from `lo` to `hi`,
/// place by place.
pub open spec fn clips(b: Matrix, a: Matrix, lo: i64, hi: i64) -> bool {
    &&& b@.len() == a@.len()
    &&& b.width() == a.width()
    &&& rectangular(b@, a.width())
    &&& forall|i: int, j: int|
        0 <= i < a@.len() && 0 <= j < a.width() ==> (#[trigger] b@[i][j]) == clamped(
            a@[i][j],
            lo,
            hi,
        )
}

/// The code `x` brought into the interval from `lo` to `hi`.
pub fn clamp(x: i64, lo: i64, hi: i64) -> (y: i64)
    requires
        at_most(lo, hi),
    ensures
        y == clamped(x, lo, hi),
        is_number(x) ==> lo <= y <= hi,
        !is_number(x) ==> y == x,
{
    if x != NOT_A_NUMBER && x < lo {
        lo
    } else if x != NOT_A_NUMBER && hi < x {
        hi
    } else {
        x
    }
}

/// Every value of a matrix brought into the interval from `interval_min` to
/// `interval_max`. No number of the result lies outside the interval; what
/// is not a number stays so.
pub fn clip(a: &Matrix, interval_min: i64, interval_max: i64) -> (clipped: Matrix)
    requires
        at_most(interval_min, interval_max),
    ensures
        clips(clipped, *a, interval_min, interval_max),
        forall|i: int, j: int|
            0 <= i < a@.len() && 0 <= j < a.width() && is_number(a@[i][j]) ==> interval_min <= (
            #[trigger] clipped@[i][j]) <= interval_max,
{
    let height = a.nrows();
    let width = a.ncols();
    let mut clipped = a.clone();
    let mut i: usize = 0;
    while i < height
        invariant
            0 <= i <= height,
            at_most(interval_min, interval_max),
            height == a@.len(),
            width == a.width(),
            rectangular(a@, width as nat),
            clipped@.len() == height,
            clipped.width() == width,
            rectangular(clipped@, width as nat),
            forall|r: int, c: int|
                0 <= r < i && 0 <= c < width ==> (#[trigger] clipped@[r][c]) == clamped(
                    a@[r][c],
                    interval_min,
                    interval_max,
                ),
            forall|r: int, c: int|
                i <= r < height && 0 <= c < width ==> (#[trigger] clipped@[r][c]) == a@[r][c],
        decreases height - i,
    {
        let mut j: usize = 0;
        while j < width
            invariant
                0 <= j <= width,
                0 <= i < height,
                at_most(interval_min, interval_max),
                height == a@.len(),
                width == a.width(),
                rectangular(a@, width as nat),
                clipped@.len() == height,
                clipped.width() == width,
                rectangular(clipped@, width as nat),
                forall|r: int, c: int|
                    0 <= r < i && 0 <= c < width ==> (#[trigger] clipped@[r][c]) == clamped(
                        a@[r][c],
                        interval_min,
                        interval_max,
                    ),
                forall|c: int|
                    0 <= c < j ==> (#[trigger] clipped@[i as int][c]) == clamped(
                        a@[i as int][c],
                        interval_min,
                        interval_max,
                    ),
                forall|c: int| j <= c < width ==> (#[trigger] clipped@[i as int][c]) == a@[i as int][c],
                forall|r: int, c: int|
                    i < r < height && 0 <= c < width ==> (#[trigger] clipped@[r][c]) == a@[r][c],
            decreases width - j,
        {
            clipped.put(i, j, clamp(a.at(i, j), interval_min, interval_max));
            j = j + 1;
        }
        i = i + 1;
    }
    clipped
}

/// Column `j` is the class of a one-hot row: the first that holds a `1`.
pub open spec fn is_class_of(row: Seq<usize>, j: int) -> bool {
    &&& 0 <= j < row.len()
    &&& row[j] == 1
    &&& forall|k: int| 0 <= k < j ==> row[k] != 1
}

/// A row holds a `1` somewhere.
pub open spec fn has_class(row: Seq<usize>) -> bool {
    exists|j: int| 0 <= j < row.len() && row[j] == 1
}

/// Every row holds a `1` somewhere.
pub open spec fn all_have_class(rows: Seq<Seq<usize>>) -> bool {
    forall|i: int| 0 <= i < rows.len() ==> has_class(#[trigger] rows[i])
}

/// The class of a one-hot row, where it has one.
pub open spec fn class_of(row: Seq<usize>) -> usize {
    choose|j: usize| is_class_of(row, j as int)
}

/// The class of each row, where each has one.
pub open spec fn classes_of(rows: Seq<Seq<usize>>) -> Seq<usize> {
    Seq::new(rows.len(), |i: int| class_of(rows[i]))
}

/// The one-hot row of `classes` entries for a class index: a `1` in the
/// column of that index, if there is such a column, and `0` elsewhere.
pub open spec fn one_hot_row(class: usize, classes: nat) -> Seq<usize> {
    Seq::new(classes, |j: int| if class == j { 1usize } else { 0usize })
}

/// The one-hot rows for a vector of class indices.
pub open spec fn one_hot(labels: Seq<usize>, classes: nat) -> Seq<Seq<usize>> {
    Seq::new(labels.len(), |i: int| one_hot_row(labels[i], classes))
}

/// A row has at most one class: two columns that both are the class of a row
/// are the same column.
pub proof fn lemma_class_unique(row: Seq<usize>, a: int, b: int)
    requires
        is_class_of(row, a),
        is_class_of(row, b),
    ensures
        a == b,
{
    if a < b {
        assert(row[a] != 1);
    } else if b < a {
        assert(row[b] != 1);
    }
}

/// The column that is the class of a row is what `class_of` gives.
pub proof fn lemma_class_of(row: Seq<usize>, j: usize)
    requires
        is_class_of(row, j as int),
    ensures
        class_of(row) == j,
{
    lemma_class_unique(row, class_of(row) as int, j as int);
}

/// Turning class indices into one-hot rows and back gives the indices again,
/// where each index names one of the classes.
pub proof fn lemma_one_hot_round_trip(labels: Seq<usize>, classes: nat)
    requires
        forall|i: int| 0 <= i < labels.len() ==> labels[i] < classes,
    ensures
        all_have_class(one_hot(labels, classes)),
        classes_of(one_hot(labels, classes)) == labels,
{
    let rows = one_hot(labels, classes);
    assert forall|i: int| 0 <= i < labels.len() implies is_class_of(
        #[trigger] rows[i],
        labels[i] as int,
    ) by {}
    assert forall|i: int| 0 <= i < rows.len() implies has_class(#[trigger] rows[i]) by {
        assert(is_class_of(rows[i], labels[i] as int));
    }
    assert forall|i: int| 0 <= i < labels.len() implies classes_of(rows)[i] == labels[i] by {
        assert(is_class_of(rows[i], labels[i] as int));
        lemma_class_of(rows[i], labels[i]);
    }
    assert(classes_of(rows) =~= labels);
}

/// The first column of row `i` that holds a `1`, if one does.
pub(crate) fn find_class(one_hot: &OneHotLabels, i: usize, width: usize) -> (found: Option<usize>)
    requires
        i < one_hot@.len(),
        width == one_hot.width(),
        rectangular(one_hot@, width as nat),
    ensures
        found.is_some() <==> has_class(one_hot@[i as int]),
        found matches Some(j) ==> is_class_of(one_hot@[i as int], j as int),
{
    let mut j: usize = 0;
    while j < width
        invariant
            0 <= j <= width,
            i < one_hot@.len(),
            width == one_hot.width(),
            rectangular(one_hot@, width as nat),
            forall|k: int| 0 <= k < j ==> one_hot@[i as int][k] != 1,
        decreases width - j,
    {
        if one_hot.at(i, j) == 1 {
            return Some(j);
        }
        j = j + 1;
    }
    None
}

/// The class index of each one-hot row: the first column that holds a `1`.
/// A row without a `1` has no class, and the conversion fails on it.
pub fn to_sparse(one_hot: &OneHotLabels) -> (result: Result<SparseLabels, NetError>)
    ensures
        result.is_ok() <==> all_have_class(one_hot@),
        result matches Ok(sparse) ==> {
            &&& sparse@ == classes_of(one_hot@)
            &&& forall|i: int|
                0 <= i < one_hot@.len() ==> is_class_of(one_hot@[i], (#[trigger] sparse@[i]) as int)
        },
        result matches Err(e) ==> e == NetError::NoTarget,
{
    let height = one_hot.nrows();
    let width = one_hot.ncols();
    let mut classes: Vec<usize> = Vec::new();
    let mut i: usize = 0;
    while i < height
        invariant
            0 <= i <= height,
            height == one_hot@.len(),
            width == one_hot.width(),
            rectangular(one_hot@, width as nat),
            classes@.len() == i,
            forall|r: int| 0 <= r < i ==> is_class_of(one_hot@[r], (#[trigger] classes@[r]) as int),
        decreases height - i,
    {
        match find_class(one_hot, i, width) {
            None => {
                return Err(NetError::NoTarget);
            },
            Some(j) => {
                classes.push(j);
            },
        }
        i = i + 1;
    }
    proof {
        assert forall|r: int| 0 <= r < one_hot@.len() implies has_class(#[trigger] one_hot@[r]) by {
            assert(is_class_of(one_hot@[r], classes@[r] as int));
        }
        assert forall|r: int| 0 <= r < one_hot@.len() implies classes@[r] == classes_of(
            one_hot@,
        )[r] by {
            lemma_class_of(one_hot@[r], classes@[r]);
        }
        assert(classes@ =~= classes_of(one_hot@));
    }
    Ok(SparseLabels::new(classes))
}

/// The one-hot rows of `n_classes` entries for a vector of class indices.
/// An index that names no class gives a row of zeros. It fails where the
/// array would have more entries than an array can.
pub fn to_one_hot(sparse: SparseLabels, n_classes: usize) -> (result: Result<
    OneHotLabels,
    NetError,
>)
    ensures
        result.is_ok() <==> extent(sparse@.len(), n_classes as nat) <= isize::MAX,
        result matches Ok(labels) ==> labels@ == one_hot(sparse@, n_classes as nat)
            && labels.width() == n_classes,
        result matches Err(e) ==> e == NetError::DimensionMismatch,
{
    let n = sparse.len();
    if n > 0 && n_classes > isize::MAX as usize / n {
        proof {
            lemma_product_over(n as int, n_classes as int, isize::MAX as int);
        }
        return Err(NetError::DimensionMismatch);
    }
    let mut rows: Vec<Vec<usize>> = Vec::new();
    let mut i: usize = 0;
    while i < n
        invariant
            0 <= i <= n,
            n == sparse@.len(),
            rows@.len() == i,
            forall|r: int|
                0 <= r < i ==> (#[trigger] rows@[r])@ == one_hot_row(sparse@[r], n_classes as nat),
        decreases n - i,
    {
        let class = sparse.at(i);
        let mut row: Vec<usize> = Vec::new();
        let mut j: usize = 0;
        while j < n_classes
            invariant
                0 <= j <= n_classes,
                row@.len() == j,
                forall|c: int| 0 <= c < j ==> row@[c] == (if class == c { 1usize } else { 0usize }),
            decreases n_classes - j,
        {
            row.push(if class == j { 1 } else { 0 });
            j = j + 1;
        }
        assert(row@ =~= one_hot_row(class, n_classes as nat));
        rows.push(row);
        i = i + 1;
    }
    proof {
        assert(grid_view(rows@) =~~= one_hot(sparse@, n_classes as nat));
        assert(rectangular(grid_view(rows@), n_classes as nat));
        if n > 0 {
            lemma_product_under(n as int, n_classes as int, isize::MAX as int);
        }
    }
    OneHotLabels::from_rows(rows, n_classes)
}

/// Column `j` leads a row of scores: it holds the greatest number of the
/// row, and no column before it does. Among equal greatest scores the first
/// one leads; a column that holds no number never does.
pub open spec fn leads(row: Seq<i64>, j: int) -> bool {
    &&& 0 <= j < row.len()
    &&& NEG_INFINITY <= row[j]
    &&& forall|k: int| 0 <= k < row.len() ==> row[k] <= row[j]
    &&& forall|k: int| 0 <= k < j ==> row[k] < row[j]
}

/// A row holds a number.
pub open spec fn has_number(row: Seq<i64>) -> bool {
    exists|k: int| 0 <= k < row.len() && NEG_INFINITY <= row[k]
}

/// Every row holds a number, and so has a leading column.
pub open spec fn all_have_number(rows: Seq<Seq<i64>>) -> bool {
    forall|i: int| 0 <= i < rows.len() ==> has_number(#[trigger] rows[i])
}

/// A row has at most one leading column.
pub proof fn lemma_lead_unique(row: Seq<i64>, a: int, b: int)
    requires
        leads(row, a),
        leads(row, b),
    ensures
        a == b,
{
    if a < b {
        assert(row[a] < row[b]);
        assert(row[b] <= row[a]);
    } else if b < a {
        assert(row[b] < row[a]);
        assert(row[a] <= row[b]);
    }
}

/// Among the first `n` samples, the number whose label is the leading column
/// of its row of scores.
pub open spec fn hits(y_pred: Seq<Seq<i64>>, y_true: Seq<usize>, n: nat) -> nat
    decreases n,
{
    if n == 0 {
        0
    } else {
        hits(y_pred, y_true, (n - 1) as nat) + if leads(y_pred[n - 1], y_true[n - 1] as int) {
            1nat
        } else {
            0nat
        }
    }
}

/// How many of a batch's samples were predicted right.
#[derive(Clone, Copy, Debug, PartialEq, Eq, Structural)]
pub struct Accuracy {
    /// The samples whose predicted class is their label.
    pub correct: usize,
    /// The labels given. The accuracy is `correct / samples`.
    pub samples: usize,
}

/// The leading column of row `i`, if the row holds a number.
fn leading_column(y_pred: &Matrix, i: usize, width: usize) -> (found: Option<usize>)
    requires
        i < y_pred@.len(),
        width == y_pred.width(),
        rectangular(y_pred@, width as nat),
    ensures
        found.is_some() <==> has_number(y_pred@[i as int]),
        found matches Some(j) ==> leads(y_pred@[i as int], j as int),
{
    let mut best: Option<usize> = None;
    let mut top = NEG_INFINITY;
    let mut j: usize = 0;
    while j < width
        invariant
            0 <= j <= width,
            i < y_pred@.len(),
            width == y_pred.width(),
            rectangular(y_pred@, width as nat),
            NEG_INFINITY <= top,
            forall|k: int| 0 <= k < j ==> y_pred@[i as int][k] <= top,
            match best {
                None => forall|k: int| 0 <= k < j ==> y_pred@[i as int][k] < NEG_INFINITY,
                Some(b) => {
                    &&& b < j
                    &&& top == y_pred@[i as int][b as int]
                    &&& forall|k: int| 0 <= k < b ==> y_pred@[i as int][k] < top
                },
            },
        decreases width - j,
    {
        let score = y_pred.at(i, j);
        if score >= NEG_INFINITY && (best.is_none() || score > top) {
            best = Some(j);
            top = score;
        }
        j = j + 1;
    }
    proof {
        if let Some(b) = best {
            assert(NEG_INFINITY <= y_pred@[i as int][b as int]);
        }
    }
    best
}

/// The predicted class of each sample: the column of its greatest score, and
/// among equal greatest scores the first. It fails where a row holds no
/// number to be the greatest.
pub fn predicted_classes(y_pred: &Matrix) -> (result: Result<SparseLabels, NetError>)
    ensures
        result.is_ok() <==> all_have_number(y_pred@),
        result matches Ok(classes) ==> {
            &&& classes@.len() == y_pred@.len()
            &&& forall|i: int|
                0 <= i < y_pred@.len() ==> leads(y_pred@[i], (#[trigger] classes@[i]) as int)
        },
        result matches Err(e) ==> e == NetError::NoTarget,
{
    let height = y_pred.nrows();
    let width = y_pred.ncols();
    let mut classes: Vec<usize> = Vec::new();
    let mut i: usize = 0;
    while i < height
        invariant
            0 <= i <= height,
            height == y_pred@.len(),
            width == y_pred.width(),
            rectangular(y_pred@, width as nat),
            classes@.len() == i,
            forall|r: int| 0 <= r < i ==> leads(y_pred@[r], (#[trigger] classes@[r]) as int),
        decreases height - i,
    {
        match leading_column(y_pred, i, width) {
            None => {
                return Err(NetError::NoTarget);
            },
            Some(j) => {
                classes.push(j);
            },
        }
        i = i + 1;
    }
    proof {
        assert forall|r: int| 0 <= r < y_pred@.len() implies has_number(#[trigger] y_pred@[r]) by {
            let j = classes@[r] as int;
            assert(leads(y_pred@[r], j));
            assert(0 <= j < y_pred@[r].len() && NEG_INFINITY <= y_pred@[r][j]);
        }
    }
    Ok(SparseLabels::new(classes))
}

/// Counts the samples whose label is their predicted class. Samples and
/// labels are paired in order, as far as both reach; `samples` is the number
/// of labels. It fails where a row of scores holds no number.
pub fn accuracy(y_pred: &Matrix, y_true: &SparseLabels) -> (result: Result<Accuracy, NetError>)
    ensures
        result.is_ok() <==> all_have_number(y_pred@),
        result matches Ok(found) ==> {
            &&& found.samples == y_true@.len()
            &&& found.correct == hits(
                y_pred@,
                y_true@,
                if y_pred@.len() <= y_true@.len() { y_pred@.len() } else { y_true@.len() },
            )
        },
        result matches Err(e) ==> e == NetError::NoTarget,
{
    let classes = match predicted_classes(y_pred) {
        Ok(classes) => classes,
        Err(e) => {
            return Err(e);
        },
    };
    let samples = y_true.len();
    let rows = classes.len();
    let paired = if rows <= samples { rows } else { samples };
    let mut correct: usize = 0;
    let mut i: usize = 0;
    while i < paired
        invariant
            0 <= i <= paired,
            paired <= y_pred@.len(),
            paired <= y_true@.len(),
            classes@.len() == y_pred@.len(),
            forall|r: int| 0 <= r < y_pred@.len() ==> leads(y_pred@[r], (#[trigger] classes@[r]) as int),
            correct == hits(y_pred@, y_true@, i as nat),
            correct <= i,
        decreases paired - i,
    {
        let label = y_true.at(i);
        proof {
            assert(leads(y_pred@[i as int], classes@[i as int] as int));
            if leads(y_pred@[i as int], label as int) {
                lemma_lead_unique(y_pred@[i as int], label as int, classes@[i as int] as int);
            }
        }
        if classes.at(i) == label {
            correct = correct + 1;
        }
        i = i + 1;
    }
    Ok(Accuracy { correct, samples })
}

/// The product of zero and a value: zero for a finite number, and not a
/// number for an infinity or for what is not a number.
pub open spec fn zero_times(x: i64) -> i64 {
    if NEG_INFINITY < x < INFINITY { 0 } else { NOT_A_NUMBER }
}

/// The entry at row `i` and column `j` of the product, place by place, of
/// the identity matrix with as many rows as `a` and of `a`, each broadcast
/// to their common shape: the entry of `a` on the diagonal, and zero times
/// it elsewhere.
pub open spec fn diagonal_entry(a: Matrix, i: int, j: int) -> i64 {
    let x = a@[i][stretched(a.width(), j)];
    if i == stretched(a@.len(), j) { x } else { zero_times(x) }
}

/// The shape of `diagflat(a)`, where the identity matrix with as many rows
/// as `a` and `a` itself have a common shape.
pub open spec fn diagonal_shape(a: Matrix) -> Option<Shape> {
    (Shape { rows: a.dims().rows, cols: a.dims().rows }).joined_with(a.dims())
}

/// The product, place by place, of the identity matrix with as many rows as
/// `a` and of `a`. For a column this is the matrix with the column along its
/// diagonal and zero elsewhere. It fails where the two have no common shape,
/// or the product would have more entries than an array can.
pub fn diagflat(a: &Matrix) -> (result: Result<Matrix, NetError>)
    ensures
        result.is_ok() <==> (diagonal_shape(*a) matches Some(shape) && extent(
            shape.rows as nat,
            shape.cols as nat,
        ) <= isize::MAX),
        result matches Ok(d) ==> {
            &&& Some(d.dims()) == diagonal_shape(*a)
            &&& rectangular(d@, d.width())
            &&& forall|i: int, j: int|
                0 <= i < d@.len() && 0 <= j < d.width() ==> (#[trigger] d@[i][j]) == diagonal_entry(
                    *a,
                    i,
                    j,
                )
        },
        result matches Err(e) ==> e == NetError::DimensionMismatch,
{
    let given = a.shape();
    let n = given.rows;
    let shape = match (Shape { rows: n, cols: n }).co_broadcast(given) {
        None => {
            return Err(NetError::DimensionMismatch);
        },
        Some(shape) => shape,
    };
    if n > 0 && shape.cols > isize::MAX as usize / n {
        proof {
            lemma_product_over(n as int, shape.cols as int, isize::MAX as int);
        }
        return Err(NetError::DimensionMismatch);
    }
    let mut rows: Vec<Vec<i64>> = Vec::new();
    let mut i: usize = 0;
    while i < n
        invariant
            0 <= i <= n,
            a.has_shape(given),
            given.rows == n,
            shape.rows == n,
            rectangular(a@, given.cols as nat),
            given.stretches_to(shape),
            rows@.len() == i,
            forall|r: int| 0 <= r < i ==> (#[trigger] rows@[r])@.len() == shape.cols,
            forall|r: int, c: int|
                0 <= r < i && 0 <= c < shape.cols ==> (#[trigger] rows@[r]@[c]) == diagonal_entry(
                    *a,
                    r,
                    c,
                ),
        decreases n - i,
    {
        let mut row: Vec<i64> = Vec::new();
        let mut j: usize = 0;
        while j < shape.cols
            invariant
                0 <= j <= shape.cols,
                0 <= i < n,
                a.has_shape(given),
                given.rows == n,
                rectangular(a@, given.cols as nat),
                given.stretches_to(shape),
                row@.len() == j,
                forall|c: int| 0 <= c < j ==> (#[trigger] row@[c]) == diagonal_entry(*a, i as int, c),
            decreases shape.cols - j,
        {
            let x = a.at(i, if given.cols == 1 { 0 } else { j });
            let on_diagonal = if n == 1 { i == 0 } else { i == j };
            row.push(
                if on_diagonal {
                    x
                } else if NEG_INFINITY < x && x < INFINITY {
                    0
                } else {
                    NOT_A_NUMBER
                },
            );
            j = j + 1;
        }
        rows.push(row);
        i = i + 1;
    }
    proof {
        assert(rectangular(grid_view(rows@), shape.cols as nat));
        if n > 0 {
            lemma_product_under(n as int, shape.cols as int, isize::MAX as int);
        }
    }
    let ghost filled = grid_view(rows@);
    proof {
        assert forall|r: int, c: int| 0 <= r < n && 0 <= c < shape.cols implies (
        #[trigger] filled[r][c]) == diagonal_entry(*a, r, c) by {
            assert(filled[r] == rows@[r]@);
        }
    }
    Matrix::from_rows(rows, shape.cols)
}

} // verus!
