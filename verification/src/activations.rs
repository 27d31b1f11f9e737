//! The activations: the rectifier, and the softmax as far as it is exact.
use vstd::prelude::*;
use crate::{set_or_unset, stretched, NetError, Shape};
use crate::scalar::{at_most, NEG_INFINITY, NOT_A_NUMBER};
use crate::tensor::{rectangular, Matrix};

verus! {

/// The rectifier of a value, the greater of it and zero: the value itself
/// above zero, zero otherwise, also for what is not a number.
pub open spec fn rectified(x: i64) -> i64 {
    if x > 0 { x } else { 0 }
}

/// The gradient `d` behind a rectifier whose output was `z`: zero where the
/// output was at most zero, `d` elsewhere. At zero the gradient is zero.
pub open spec fn gated(d: i64, z: i64) -> i64 {
    if at_most(z, 0) { 0 } else { d }
}

/// The output of the rectifier is a number that is never below zero, so that
/// its gradient is zero exactly where the input was not above zero.
pub proof fn lemma_gated_by_input(d: i64, x: i64)
    ensures
        rectified(x) >= 0,
        gated(d, rectified(x)) == (if x > 0 { d } else { 0 }),
{
}

/// `z` is the rectifier of `x`, place by place.
pub open spec fn rectifies(z: Matrix, x: Matrix) -> bool {
    &&& z@.len() == x@.len()
    &&& z.width() == x.width()
    &&& rectangular(z@, x.width())
    &&& forall|i: int, j: int|
        0 <= i < x@.len() && 0 <= j < x.width() ==> (#[trigger] z@[i][j]) == rectified(x@[i][j])
}

/// `g` is the gradient `d` with zero in every place where `z`, broadcast to
/// the shape of `d`, is at most zero.
pub open spec fn gates(g: Matrix, d: Matrix, z: Matrix) -> bool {
    &&& g@.len() == d@.len()
    &&& g.width() == d.width()
    &&& rectangular(g@, d.width())
    &&& forall|i: int, j: int|
        0 <= i < d@.len() && 0 <= j < d.width() ==> (#[trigger] g@[i][j]) == gated(
            d@[i][j],
            z@[stretched(z@.len(), i)][stretched(z.width(), j)],
        )
}

/// The rectified linear unit, with the matrices of its last passes.
pub struct ReLU {
    pub outputs: Option<Matrix>,
    pub inputs: Option<Matrix>,
    pub dinputs: Option<Matrix>,
}

impl ReLU {
    /// How a backward pass ends for a gradient of the shape `dvalues`: it
    /// fails before any forward pass, and where the output of the forward
    /// pass cannot be broadcast to the gradient's shape.
    pub open spec fn backward_outcome(self, dvalues: Shape) -> Result<(), NetError> {
        match self.outputs {
            None => Err(NetError::UnsetState),
            Some(z) => if z.dims().stretches_to(dvalues) {
                Ok(())
            } else {
                Err(NetError::DimensionMismatch)
            },
        }
    }

    /// A unit that has not run.
    pub fn new() -> (unit: ReLU)
        ensures
            unit.outputs.is_none(),
            unit.inputs.is_none(),
            unit.dinputs.is_none(),
    {
        ReLU { outputs: None, inputs: None, dinputs: None }
    }

    /// The forward pass: every code of the output is the rectifier of the
    /// code of the input in its place. Input and output are kept.
    pub fn forward(&mut self, inputs: &Matrix)
        ensures
            final(self).inputs matches Some(x) && x@ == inputs@ && x.width() == inputs.width(),
            final(self).outputs matches Some(z) && rectifies(z, *inputs),
            final(self).dinputs == old(self).dinputs,
    {
        self.inputs = Some(inputs.clone());
        self.outputs = Some(rectify(inputs));
    }

    /// The backward pass: the gradient `dvalues`, with zero in every place
    /// where the output of the forward pass was at most zero. An output
    /// with a single row or column stands for each row or column of the
    /// gradient.
    pub fn backward(&mut self, dvalues: &Matrix) -> (result: Result<(), NetError>)
        ensures
            result == old(self).backward_outcome(dvalues.dims()),
            final(self).outputs == old(self).outputs,
            final(self).inputs == old(self).inputs,
            result.is_err() ==> final(self).dinputs == old(self).dinputs,
            result.is_ok() ==> (match (final(self).dinputs, old(self).outputs) {
                (Some(g), Some(z)) => gates(g, *dvalues, z),
                _ => false,
            }),
    {
        let gradient = match &self.outputs {
            None => {
                return Err(NetError::UnsetState);
            },
            Some(z) => {
                let from = z.shape();
                let to = dvalues.shape();
                if !from.broadcasts_to(to) {
                    return Err(NetError::DimensionMismatch);
                }
                gate(dvalues, z, from, to)
            },
        };
        self.dinputs = Some(gradient);
        Ok(())
    }

    /// The output of the last forward pass.
    pub fn outputs(&self) -> (result: Result<&Matrix, NetError>)
        ensures
            result matches Ok(z) ==> self.outputs == Some(*z),
            result matches Err(e) ==> e == NetError::UnsetState && self.outputs.is_none(),
    {
        match &self.outputs {
            Some(z) => Ok(z),
            None => Err(NetError::UnsetState),
        }
    }

    /// The gradient that the last backward pass left.
    pub fn dinputs(&self) -> (result: Result<&Matrix, NetError>)
        ensures
            result matches Ok(g) ==> self.dinputs == Some(*g),
            result matches Err(e) ==> e == NetError::UnsetState && self.dinputs.is_none(),
    {
        match &self.dinputs {
            Some(g) => Ok(g),
            None => Err(NetError::UnsetState),
        }
    }
}

/// The rectifier of every value of a matrix.
fn rectify(x: &Matrix) -> (z: Matrix)
    ensures
        rectifies(z, *x),
{
    let height = x.nrows();
    let width = x.ncols();
    let mut z = x.clone();
    let mut i: usize = 0;
    while i < height
        invariant
            0 <= i <= height,
            height == x@.len(),
            width == x.width(),
            rectangular(x@, width as nat),
            z@.len() == height,
            z.width() == width,
            rectangular(z@, width as nat),
            forall|r: int, c: int|
                0 <= r < i && 0 <= c < width ==> (#[trigger] z@[r][c]) == rectified(x@[r][c]),
            forall|r: int, c: int|
                i <= r < height && 0 <= c < width ==> (#[trigger] z@[r][c]) == x@[r][c],
        decreases height - i,
    {
        let mut j: usize = 0;
        while j < width
            invariant
                0 <= j <= width,
                0 <= i < height,
                height == x@.len(),
                width == x.width(),
                rectangular(x@, width as nat),
                z@.len() == height,
                z.width() == width,
                rectangular(z@, width as nat),
                forall|r: int, c: int|
                    0 <= r < i && 0 <= c < width ==> (#[trigger] z@[r][c]) == rectified(x@[r][c]),
                forall|c: int|
                    0 <= c < j ==> (#[trigger] z@[i as int][c]) == rectified(x@[i as int][c]),
                forall|c: int| j <= c < width ==> (#[trigger] z@[i as int][c]) == x@[i as int][c],
                forall|r: int, c: int|
                    i < r < height && 0 <= c < width ==> (#[trigger] z@[r][c]) == x@[r][c],
            decreases width - j,
        {
            if x.at(i, j) <= 0 {
                z.put(i, j, 0);
            }
            j = j + 1;
        }
        i = i + 1;
    }
    z
}

/// The gradient `dvalues` with zero wherever `z`, broadcast to its shape, is
/// at most zero.
fn gate(dvalues: &Matrix, z: &Matrix, from: Shape, to: Shape) -> (g: Matrix)
    requires
        z.has_shape(from),
        dvalues.has_shape(to),
        rectangular(z@, from.cols as nat),
        rectangular(dvalues@, to.cols as nat),
        from.stretches_to(to),
    ensures
        gates(g, *dvalues, *z),
{
    let mut g = dvalues.clone();
    let mut i: usize = 0;
    while i < to.rows
        invariant
            0 <= i <= to.rows,
            z.has_shape(from),
            dvalues.has_shape(to),
            rectangular(z@, from.cols as nat),
            rectangular(dvalues@, to.cols as nat),
            from.stretches_to(to),
            g.has_shape(to),
            rectangular(g@, to.cols as nat),
            forall|r: int, c: int|
                0 <= r < i && 0 <= c < to.cols ==> (#[trigger] g@[r][c]) == gated(
                    dvalues@[r][c],
                    z@[stretched(z@.len(), r)][stretched(z.width(), c)],
                ),
            forall|r: int, c: int|
                i <= r < to.rows && 0 <= c < to.cols ==> (#[trigger] g@[r][c]) == dvalues@[r][c],
        decreases to.rows - i,
    {
        let zi = if from.rows == 1 { 0 } else { i };
        let mut j: usize = 0;
        while j < to.cols
            invariant
                0 <= j <= to.cols,
                0 <= i < to.rows,
                zi == stretched(z@.len(), i as int),
                zi < from.rows,
                z.has_shape(from),
                dvalues.has_shape(to),
                rectangular(z@, from.cols as nat),
                rectangular(dvalues@, to.cols as nat),
                from.stretches_to(to),
                g.has_shape(to),
                rectangular(g@, to.cols as nat),
                forall|r: int, c: int|
                    0 <= r < i && 0 <= c < to.cols ==> (#[trigger] g@[r][c]) == gated(
                        dvalues@[r][c],
                        z@[stretched(z@.len(), r)][stretched(z.width(), c)],
                    ),
                forall|c: int|
                    0 <= c < j ==> (#[trigger] g@[i as int][c]) == gated(
                        dvalues@[i as int][c],
                        z@[zi as int][stretched(z.width(), c)],
                    ),
                forall|c: int| j <= c < to.cols ==> (#[trigger] g@[i as int][c]) == dvalues@[i as int][c],
                forall|r: int, c: int|
                    i < r < to.rows && 0 <= c < to.cols ==> (#[trigger] g@[r][c]) == dvalues@[r][c],
            decreases to.cols - j,
        {
            let zj = if from.cols == 1 { 0 } else { j };
            let output = z.at(zi, zj);
            if output != NOT_A_NUMBER && output <= 0 {
                g.put(i, j, 0);
            }
            j = j + 1;
        }
        i = i + 1;
    }
    g
}

/// `p` is the pivot of a row: the greatest of its numbers, or negative
/// infinity for a row that holds no number.
pub open spec fn is_pivot(row: Seq<i64>, p: i64) -> bool {
    &&& NEG_INFINITY <= p
    &&& forall|k: int| 0 <= k < row.len() ==> row[k] <= p
    &&& (p == NEG_INFINITY || exists|k: int| 0 <= k < row.len() && row[k] == p)
}

/// A row has one pivot.
pub proof fn lemma_pivot_unique(row: Seq<i64>, p: i64, q: i64)
    requires
        is_pivot(row, p),
        is_pivot(row, q),
    ensures
        p == q,
{
    if p != NEG_INFINITY {
        let a = choose|k: int| 0 <= k < row.len() && row[k] == p;
        assert(row[a] <= q);
    }
    if q != NEG_INFINITY {
        let b = choose|k: int| 0 <= k < row.len() && row[k] == q;
        assert(row[b] <= p);
    }
}

/// The softmax, `exp(x − pivot)` over its row sum, with the shapes of the
/// matrices of its last passes.
#[derive(Clone, Copy, Debug, PartialEq, Eq, Structural)]
pub struct Softmax {
    pub inputs: Option<Shape>,
    pub outputs: Option<Shape>,
    pub dinputs: Option<Shape>,
}

impl Softmax {
    /// How a backward pass ends for a gradient of the shape `dvalues`: it
    /// fails before any forward pass, and where a row of the gradient meets
    /// a row of the output that has another number of columns.
    pub open spec fn backward_outcome(self, dvalues: Shape) -> Result<(), NetError> {
        match self.outputs {
            None => Err(NetError::UnsetState),
            Some(s) => if s.rows > 0 && dvalues.rows > 0 && s.cols != dvalues.cols {
                Err(NetError::DimensionMismatch)
            } else {
                Ok(())
            },
        }
    }

    /// A unit that has not run.
    pub fn new() -> (unit: Softmax)
        ensures
            unit == (Softmax { inputs: None, outputs: None, dinputs: None }),
    {
        Softmax { inputs: None, outputs: None, dinputs: None }
    }

    /// The forward pass, as far as it is exact: it gives the pivot of each
    /// row, which is subtracted from the row before the exponential is
    /// taken, and records that input and output now have the input's shape.
    pub fn forward(&mut self, inputs: &Matrix) -> (pivots: Vec<i64>)
        ensures
            final(self).inputs == Some(inputs.dims()),
            final(self).outputs == Some(inputs.dims()),
            final(self).dinputs == old(self).dinputs,
            pivots@.len() == inputs@.len(),
            forall|i: int| 0 <= i < inputs@.len() ==> is_pivot(inputs@[i], #[trigger] pivots@[i]),
    {
        let shape = inputs.shape();
        let mut pivots: Vec<i64> = Vec::new();
        let mut i: usize = 0;
        while i < shape.rows
            invariant
                0 <= i <= shape.rows,
                inputs.has_shape(shape),
                rectangular(inputs@, shape.cols as nat),
                pivots@.len() == i,
                forall|r: int| 0 <= r < i ==> is_pivot(inputs@[r], #[trigger] pivots@[r]),
            decreases shape.rows - i,
        {
            let mut pivot = NEG_INFINITY;
            let mut j: usize = 0;
            while j < shape.cols
                invariant
                    0 <= j <= shape.cols,
                    0 <= i < shape.rows,
                    inputs.has_shape(shape),
                    rectangular(inputs@, shape.cols as nat),
                    NEG_INFINITY <= pivot,
                    forall|k: int| 0 <= k < j ==> inputs@[i as int][k] <= pivot,
                    pivot == NEG_INFINITY || exists|k: int|
                        0 <= k < j && inputs@[i as int][k] == pivot,
                decreases shape.cols - j,
            {
                let x = inputs.at(i, j);
                if x > pivot {
                    pivot = x;
                    assert(inputs@[i as int][j as int] == pivot);
                } else if pivot != NEG_INFINITY {
                    let ghost k = choose|k: int| 0 <= k < j && inputs@[i as int][k] == pivot;
                    assert(0 <= k < j + 1 && inputs@[i as int][k] == pivot);
                }
                j = j + 1;
            }
            pivots.push(pivot);
            i = i + 1;
        }
        self.inputs = Some(shape);
        self.outputs = Some(shape);
        pivots
    }

    /// The backward pass, as far as it is exact: for each sample the product
    /// of the row's Jacobian `diag(s) − s·sᵗ` with the row of the gradient,
    /// which needs rows of equal length. The result has the gradient's shape.
    pub fn backward(&mut self, dvalues: Shape) -> (result: Result<(), NetError>)
        ensures
            result == old(self).backward_outcome(dvalues),
            result.is_ok() ==> *final(self) == (Softmax { dinputs: Some(dvalues), ..*old(self) }),
            result.is_err() ==> *final(self) == *old(self),
    {
        match self.outputs {
            None => Err(NetError::UnsetState),
            Some(s) => {
                if s.rows > 0 && dvalues.rows > 0 && s.cols != dvalues.cols {
                    Err(NetError::DimensionMismatch)
                } else {
                    self.dinputs = Some(dvalues);
                    Ok(())
                }
            },
        }
    }

    /// The shape of the output of the last forward pass.
    pub fn outputs(&self) -> (result: Result<Shape, NetError>)
        ensures
            result == set_or_unset(self.outputs),
    {
        match self.outputs {
            Some(shape) => Ok(shape),
            None => Err(NetError::UnsetState),
        }
    }
}

} // verus!
