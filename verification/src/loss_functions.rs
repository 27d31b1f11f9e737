//! The categorical cross-entropy loss, alone and fused with the softmax.
//!
//! The loss of a batch is the mean of `−ln(p)` over the samples, `p` being
//! the clipped probability that a sample's row gives to its true class. This
//! module picks and clips those probabilities and keeps the shapes of the
//! gradients; logarithm and mean are the caller's.
use vstd::prelude::*;
use crate::{set_or_unset, NetError, Shape};
use crate::activations::Softmax;
use crate::scalar::{is_number, ONE};
use crate::tensor::{extent, rectangular, Matrix, OneHotLabels, SparseLabels};
use crate::utils::{
    all_have_class, clamp, clamped, classes_of, find_class, has_class, is_class_of, lemma_class_of,
    one_hot, to_one_hot, to_sparse,
};

verus! {

/// The number of samples that have both a row of predictions and a label.
pub open spec fn paired(rows: nat, labels: nat) -> nat {
    if rows <= labels { rows } else { labels }
}

/// Each of the first `n` class indices names one of `classes` columns.
pub open spec fn labels_fit(y_true: Seq<usize>, n: nat, classes: nat) -> bool {
    forall|i: int| 0 <= i < n ==> (#[trigger] y_true[i]) < classes
}

/// For each of the first `n` samples, the probability that its row gives to
/// its true class, brought into the interval from `floor` to `ceiling`.
pub open spec fn confidences(
    y_pred: Seq<Seq<i64>>,
    y_true: Seq<usize>,
    n: nat,
    floor: i64,
    ceiling: i64,
) -> Seq<i64> {
    Seq::new(n, |i: int| clamped(y_pred[i][y_true[i] as int], floor, ceiling))
}

/// A result with the view of the vector that it may hold.
pub open spec fn viewed(result: Result<Vec<i64>, NetError>) -> Result<Seq<i64>, NetError> {
    match result {
        Ok(p) => Ok(p@),
        Err(e) => Err(e),
    }
}

/// Each of the first `n` one-hot rows holds a `1`.
pub open spec fn rows_have_class(y_true: Seq<Seq<usize>>, n: nat) -> bool {
    forall|i: int| 0 <= i < n ==> has_class(#[trigger] y_true[i])
}

/// The code of the clip bound `ε`, one part in ten million.
pub const EPSILON: i64 = 0x3e7a_d7f2_9abc_af48;

/// The code of `1 − ε`.
pub const ONE_MINUS_EPSILON: i64 = 0x3fef_ffff_ca50_1acb;

/// The codes of some `ε` and `1 − ε`: an interval of numbers above zero and
/// not above one, so that the logarithm of a number in it is finite and not
/// above zero.
pub open spec fn is_clip_interval(floor: i64, ceiling: i64) -> bool {
    0 < floor <= ceiling <= ONE
}

/// What a loss unit holds.
pub struct LossView {
    /// The least probability that the logarithm is taken of: `ε`.
    pub floor: i64,
    /// The greatest probability that the logarithm is taken of: `1 − ε`.
    pub ceiling: i64,
    /// The shape of the gradient that the last backward pass left.
    pub dinputs: Option<Shape>,
}

/// The categorical cross-entropy loss.
pub struct CategoricalCrossEntropy {
    floor: i64,
    ceiling: i64,
    dinputs: Option<Shape>,
}

impl View for CategoricalCrossEntropy {
    type V = LossView;

    closed spec fn view(&self) -> LossView {
        LossView { floor: self.floor, ceiling: self.ceiling, dinputs: self.dinputs }
    }
}

impl CategoricalCrossEntropy {
    #[verifier::type_invariant]
    spec fn interval_holds(self) -> bool {
        is_clip_interval(self.floor, self.ceiling)
    }

    /// What the forward pass gives for predictions of `classes` columns and
    /// sparse labels: the clipped probabilities of the true classes. It
    /// fails where no sample is paired with a label, so that there is no
    /// mean to take, and where a label of a paired sample names no column.
    pub open spec fn forward_outcome(
        self,
        y_pred: Seq<Seq<i64>>,
        classes: nat,
        y_true: Seq<usize>,
    ) -> Result<Seq<i64>, NetError> {
        let n = paired(y_pred.len(), y_true.len());
        if n == 0 {
            Err(NetError::DimensionMismatch)
        } else if labels_fit(y_true, n, classes) {
            Ok(confidences(y_pred, y_true, n, self@.floor, self@.ceiling))
        } else {
            Err(NetError::NoTarget)
        }
    }

    /// A loss that clips probabilities into the interval from `ε` to
    /// `1 − ε`, the same in every run.
    pub fn new() -> (loss: CategoricalCrossEntropy)
        ensures
            loss@ == (LossView { floor: EPSILON, ceiling: ONE_MINUS_EPSILON, dinputs: None }),
    {
        CategoricalCrossEntropy { floor: EPSILON, ceiling: ONE_MINUS_EPSILON, dinputs: None }
    }

    /// A loss that clips probabilities into the interval from `floor`, the
    /// code of some `ε`, to `ceiling`, the code of `1 − ε`.
    pub fn with_interval(floor: i64, ceiling: i64) -> (loss: CategoricalCrossEntropy)
        requires
            is_clip_interval(floor, ceiling),
        ensures
            loss@ == (LossView { floor, ceiling, dinputs: None }),
    {
        CategoricalCrossEntropy { floor, ceiling, dinputs: None }
    }

    /// The clip interval: the codes of `ε` and of `1 − ε`, in this order.
    pub fn interval(&self) -> (bounds: (i64, i64))
        ensures
            bounds == (self@.floor, self@.ceiling),
            is_clip_interval(bounds.0, bounds.1),
    {
        proof {
            use_type_invariant(self);
        }
        (self.floor, self.ceiling)
    }

    /// The forward pass for sparse labels, up to the logarithm: for each
    /// sample the clipped probability of its true class. Samples and labels
    /// are paired in order, as far as both reach. No number that is given
    /// lies outside the clip interval, so that each is above zero and not
    /// above one.
    pub fn forward_sparse(&self, y_pred: &Matrix, y_true: &SparseLabels) -> (result: Result<
        Vec<i64>,
        NetError,
    >)
        ensures
            viewed(result) == self.forward_outcome(y_pred@, y_pred.width(), y_true@),
            result matches Ok(p) ==> forall|i: int|
                0 <= i < p@.len() && is_number(#[trigger] p@[i]) ==> 0 < self@.floor <= p@[i]
                    <= self@.ceiling <= ONE,
    {
        proof {
            use_type_invariant(self);
        }
        let shape = y_pred.shape();
        let labels = y_true.len();
        let n = if shape.rows <= labels { shape.rows } else { labels };
        if n == 0 {
            return Err(NetError::DimensionMismatch);
        }
        let mut picked: Vec<i64> = Vec::new();
        let mut i: usize = 0;
        while i < n
            invariant
                0 <= i <= n,
                0 < n == paired(y_pred@.len(), y_true@.len()),
                y_pred.has_shape(shape),
                rectangular(y_pred@, shape.cols as nat),
                is_clip_interval(self.floor, self.ceiling),
                labels_fit(y_true@, i as nat, shape.cols as nat),
                picked@.len() == i,
                forall|r: int|
                    0 <= r < i ==> (#[trigger] picked@[r]) == clamped(
                        y_pred@[r][y_true@[r] as int],
                        self.floor,
                        self.ceiling,
                    ),
            decreases n - i,
        {
            let class = y_true.at(i);
            if class >= shape.cols {
                return Err(NetError::NoTarget);
            }
            picked.push(clamp(y_pred.at(i, class), self.floor, self.ceiling));
            i = i + 1;
        }
        assert(picked@ =~= confidences(y_pred@, y_true@, n as nat, self.floor, self.ceiling));
        Ok(picked)
    }
}

impl CategoricalCrossEntropy {
    /// The forward pass for one-hot labels, up to the logarithm. The class of
    /// a sample is the first column of its label row that holds a `1`; with
    /// these classes the pass gives what the pass for sparse labels gives.
    /// It fails where the label row of a paired sample holds no `1`.
    pub fn forward_one_hot(&self, y_pred: &Matrix, y_true: &OneHotLabels) -> (result: Result<
        Vec<i64>,
        NetError,
    >)
        ensures
            viewed(result) == (if rows_have_class(
                y_true@,
                paired(y_pred@.len(), y_true@.len()),
            ) {
                self.forward_outcome(y_pred@, y_pred.width(), classes_of(y_true@))
            } else {
                Err(NetError::NoTarget)
            }),
            result matches Ok(p) ==> forall|i: int|
                0 <= i < p@.len() && is_number(#[trigger] p@[i]) ==> 0 < self@.floor <= p@[i]
                    <= self@.ceiling <= ONE,
    {
        let rows = y_pred.nrows();
        let label_shape = y_true.shape();
        let n = if rows <= label_shape.rows { rows } else { label_shape.rows };
        let mut classes: Vec<usize> = Vec::new();
        let mut i: usize = 0;
        while i < n
            invariant
                0 <= i <= n,
                n == paired(y_pred@.len(), y_true@.len()),
                y_true.has_shape(label_shape),
                rectangular(y_true@, label_shape.cols as nat),
                classes@.len() == i,
                forall|r: int| 0 <= r < i ==> is_class_of(y_true@[r], (#[trigger] classes@[r]) as int),
            decreases n - i,
        {
            match find_class(y_true, i, label_shape.cols) {
                None => {
                    return Err(NetError::NoTarget);
                },
                Some(j) => {
                    classes.push(j);
                },
            }
            i = i + 1;
        }
        let sparse = SparseLabels::new(classes);
        let result = self.forward_sparse(y_pred, &sparse);
        proof {
            assert forall|r: int| 0 <= r < n implies has_class(#[trigger] y_true@[r]) by {
                assert(is_class_of(y_true@[r], sparse@[r] as int));
            }
            assert forall|r: int| 0 <= r < n implies sparse@[r] == classes_of(y_true@)[r] by {
                lemma_class_of(y_true@[r], sparse@[r]);
            }
            lemma_outcome_of_prefix(*self, y_pred@, y_pred.width(), sparse@, classes_of(y_true@));
        }
        result
    }

    /// What the backward pass for labels of the shape `y_true` leaves as the
    /// shape of the gradient. The two shapes must be equal, or have a common
    /// shape that an array can have, to which both are then broadcast.
    pub open spec fn gradient_shape(y_true: Shape, dvalues: Shape) -> Option<Shape> {
        match y_true.joined_with(dvalues) {
            Some(shape) => if y_true == dvalues || shape.holdable() {
                Some(shape)
            } else {
                None
            },
            None => None,
        }
    }

    /// The backward pass for one-hot labels, as far as it is exact:
    /// `(−y_true / dvalues) / N`, place by place, over the common shape of
    /// the two, which the gradient then has.
    pub fn backward_one_hot(&mut self, dvalues: Shape, y_true: &OneHotLabels) -> (result: Result<
        (),
        NetError,
    >)
        ensures
            result.is_ok() <==> Self::gradient_shape(y_true.dims(), dvalues).is_some(),
            result.is_ok() ==> final(self)@ == (LossView {
                dinputs: Self::gradient_shape(y_true.dims(), dvalues),
                ..old(self)@
            }),
            result matches Err(e) ==> e == NetError::DimensionMismatch && final(self)@ == old(
                self,
            )@,
    {
        proof {
            use_type_invariant(&*self);
        }
        let given = y_true.shape();
        match given.co_broadcast(dvalues) {
            None => Err(NetError::DimensionMismatch),
            Some(shape) => {
                let equal = given.rows == dvalues.rows && given.cols == dvalues.cols;
                if equal || shape.can_be_held() {
                    *self = CategoricalCrossEntropy {
                        floor: self.floor,
                        ceiling: self.ceiling,
                        dinputs: Some(shape),
                    };
                    Ok(())
                } else {
                    Err(NetError::DimensionMismatch)
                }
            },
        }
    }

    /// The backward pass for sparse labels: the labels are turned into
    /// one-hot rows with a column for each column of `dvalues`, which are
    /// handed back, and the pass for one-hot labels is run on them.
    pub fn backward_sparse(&mut self, dvalues: Shape, y_true: SparseLabels) -> (result: Result<
        OneHotLabels,
        NetError,
    >)
        ensures
            result.is_ok() <==> (extent(y_true@.len(), dvalues.cols as nat) <= isize::MAX
                && Self::gradient_shape(
                Shape { rows: y_true@.len() as usize, cols: dvalues.cols },
                dvalues,
            ).is_some()),
            result matches Ok(labels) ==> {
                &&& labels@ == one_hot(y_true@, dvalues.cols as nat)
                &&& labels.width() == dvalues.cols
                &&& final(self)@ == (LossView {
                    dinputs: Self::gradient_shape(
                        Shape { rows: y_true@.len() as usize, cols: dvalues.cols },
                        dvalues,
                    ),
                    ..old(self)@
                })
            },
            result matches Err(e) ==> e == NetError::DimensionMismatch && final(self)@ == old(
                self,
            )@,
    {
        let labels = match to_one_hot(y_true, dvalues.cols) {
            Ok(labels) => labels,
            Err(e) => {
                return Err(e);
            },
        };
        match self.backward_one_hot(dvalues, &labels) {
            Ok(()) => Ok(labels),
            Err(e) => Err(e),
        }
    }

    /// The shape of the gradient that the last backward pass left.
    pub fn dinputs(&self) -> (result: Result<Shape, NetError>)
        ensures
            result == set_or_unset(self@.dinputs),
    {
        match self.dinputs {
            Some(shape) => Ok(shape),
            None => Err(NetError::UnsetState),
        }
    }
}

/// The forward pass reads only the labels of paired samples: two label
/// vectors that agree on those give the same outcome.
pub proof fn lemma_outcome_of_prefix(
    loss: CategoricalCrossEntropy,
    y_pred: Seq<Seq<i64>>,
    classes: nat,
    a: Seq<usize>,
    b: Seq<usize>,
)
    requires
        paired(y_pred.len(), a.len()) == paired(y_pred.len(), b.len()),
        forall|i: int| 0 <= i < paired(y_pred.len(), a.len()) ==> a[i] == b[i],
    ensures
        loss.forward_outcome(y_pred, classes, a) == loss.forward_outcome(y_pred, classes, b),
{
    let n = paired(y_pred.len(), a.len());
    if labels_fit(a, n, classes) {
        assert forall|i: int| 0 <= i < n implies (#[trigger] b[i]) < classes by {
            assert(a[i] < classes);
        }
        assert(confidences(y_pred, a, n, loss@.floor, loss@.ceiling) =~= confidences(
            y_pred,
            b,
            n,
            loss@.floor,
            loss@.ceiling,
        ));
    } else {
        let i = choose|i: int| 0 <= i < n && !((#[trigger] a[i]) < classes);
        assert(!(b[i] < classes));
    }
}

/// The softmax and the cross-entropy loss as one unit. The gradient of the
/// mean loss with respect to the values before the softmax is
/// `(softmax output − one-hot labels) / N`, which holds for this pairing of
/// activation and loss and for no other.
pub struct SoftmaxCategoricalCrossEntropy {
    pub fn_activation: Softmax,
    pub fn_loss: CategoricalCrossEntropy,
    pub output: Option<Shape>,
    pub dinputs: Option<Shape>,
}

impl SoftmaxCategoricalCrossEntropy {
    /// Whether the activation has run and `output` has the shape of what it
    /// gave: what a forward pass of the unit needs.
    pub open spec fn accepts(self, output: Matrix) -> Result<(), NetError> {
        match self.fn_activation.outputs {
            None => Err(NetError::UnsetState),
            Some(shape) => if output.dims() == shape {
                Ok(())
            } else {
                Err(NetError::DimensionMismatch)
            },
        }
    }

    /// How a backward pass ends for a softmax output of the shape `dvalues`
    /// and sparse labels: it needs one label for each row, each of which
    /// names a column.
    pub open spec fn backward_outcome(dvalues: Shape, y_true: Seq<usize>) -> Result<(), NetError> {
        if y_true.len() != dvalues.rows {
            Err(NetError::DimensionMismatch)
        } else if !labels_fit(y_true, y_true.len(), dvalues.cols as nat) {
            Err(NetError::NoTarget)
        } else {
            Ok(())
        }
    }

    /// A unit that has not run, whose loss clips probabilities into the
    /// interval from `ε` to `1 − ε`.
    pub fn new() -> (unit: SoftmaxCategoricalCrossEntropy)
        ensures
            unit.fn_activation == (Softmax { inputs: None, outputs: None, dinputs: None }),
            unit.fn_loss@ == (LossView {
                floor: EPSILON,
                ceiling: ONE_MINUS_EPSILON,
                dinputs: None,
            }),
            unit.output.is_none(),
            unit.dinputs.is_none(),
    {
        SoftmaxCategoricalCrossEntropy {
            fn_activation: Softmax::new(),
            fn_loss: CategoricalCrossEntropy::new(),
            output: None,
            dinputs: None,
        }
    }

    /// The output of the activation, whose forward pass has run.
    fn accept(&self, output: &Matrix) -> (result: Result<Shape, NetError>)
        ensures
            result matches Ok(shape) ==> self.accepts(*output).is_ok() && output.dims() == shape,
            result matches Err(e) ==> self.accepts(*output) == Err::<(), NetError>(e),
    {
        match self.fn_activation.outputs {
            None => Err(NetError::UnsetState),
            Some(shape) => {
                let given = output.shape();
                if given.rows == shape.rows && given.cols == shape.cols {
                    Ok(shape)
                } else {
                    Err(NetError::DimensionMismatch)
                }
            },
        }
    }

    /// The forward pass for one-hot labels, after the activation has run on
    /// the inputs: `output` is the softmax output, which is fed to the loss
    /// and whose shape is retained.
    pub fn forward_one_hot(&mut self, output: &Matrix, y_true: &OneHotLabels) -> (result: Result<
        Vec<i64>,
        NetError,
    >)
        ensures
            final(self).fn_activation == old(self).fn_activation,
            final(self).fn_loss@ == old(self).fn_loss@,
            final(self).dinputs == old(self).dinputs,
            viewed(result) == (match old(self).accepts(*output) {
                Err(e) => Err(e),
                Ok(()) => if rows_have_class(y_true@, paired(output@.len(), y_true@.len())) {
                    old(self).fn_loss.forward_outcome(
                        output@,
                        output.width(),
                        classes_of(y_true@),
                    )
                } else {
                    Err(NetError::NoTarget)
                },
            }),
            result.is_ok() ==> final(self).output == Some(output.dims()),
            result.is_err() ==> final(self).output == old(self).output,
    {
        let shape = match self.accept(output) {
            Ok(shape) => shape,
            Err(e) => {
                return Err(e);
            },
        };
        let result = self.fn_loss.forward_one_hot(output, y_true);
        if result.is_ok() {
            self.output = Some(shape);
        }
        result
    }

    /// The forward pass for sparse labels, after the activation has run on
    /// the inputs: `output` is the softmax output, which is fed to the loss
    /// and whose shape is retained.
    pub fn forward_sparse(&mut self, output: &Matrix, y_true: &SparseLabels) -> (result: Result<
        Vec<i64>,
        NetError,
    >)
        ensures
            final(self).fn_activation == old(self).fn_activation,
            final(self).fn_loss@ == old(self).fn_loss@,
            final(self).dinputs == old(self).dinputs,
            viewed(result) == (match old(self).accepts(*output) {
                Err(e) => Err(e),
                Ok(()) => old(self).fn_loss.forward_outcome(output@, output.width(), y_true@),
            }),
            result.is_ok() ==> final(self).output == Some(output.dims()),
            result.is_err() ==> final(self).output == old(self).output,
    {
        let shape = match self.accept(output) {
            Ok(shape) => shape,
            Err(e) => {
                return Err(e);
            },
        };
        let result = self.fn_loss.forward_sparse(output, y_true);
        if result.is_ok() {
            self.output = Some(shape);
        }
        result
    }

    /// The backward pass for sparse labels. `dvalues` is the shape of the
    /// softmax output, of which a copy is taken; 1 is subtracted in each row
    /// at the column of its label, and every entry is divided by the number
    /// of rows. This needs a label for each row that names one of its
    /// columns. The gradient has the shape of `dvalues`.
    pub fn backward_sparse(&mut self, dvalues: Shape, y_true: &SparseLabels) -> (result: Result<
        (),
        NetError,
    >)
        ensures
            result == Self::backward_outcome(dvalues, y_true@),
            final(self).fn_activation == old(self).fn_activation,
            final(self).fn_loss@ == old(self).fn_loss@,
            final(self).output == old(self).output,
            final(self).dinputs == (if result.is_ok() {
                Some(dvalues)
            } else {
                old(self).dinputs
            }),
    {
        let n = y_true.len();
        if n != dvalues.rows {
            return Err(NetError::DimensionMismatch);
        }
        let mut i: usize = 0;
        while i < n
            invariant
                0 <= i <= n,
                n == y_true@.len(),
                n == dvalues.rows,
                labels_fit(y_true@, i as nat, dvalues.cols as nat),
            decreases n - i,
        {
            if y_true.at(i) >= dvalues.cols {
                assert(!(y_true@[i as int] < dvalues.cols));
                return Err(NetError::NoTarget);
            }
            i = i + 1;
        }
        self.dinputs = Some(dvalues);
        Ok(())
    }

    /// The backward pass for one-hot labels: the labels are turned into
    /// class indices, which are handed back, and the pass for sparse labels
    /// is run on them.
    pub fn backward_one_hot(&mut self, dvalues: Shape, y_true: &OneHotLabels) -> (result: Result<
        SparseLabels,
        NetError,
    >)
        ensures
            result.is_ok() <==> (all_have_class(y_true@) && Self::backward_outcome(
                dvalues,
                classes_of(y_true@),
            ).is_ok()),
            result matches Ok(sparse) ==> sparse@ == classes_of(y_true@),
            result matches Err(e) ==> e == (if all_have_class(y_true@) {
                Self::backward_outcome(dvalues, classes_of(y_true@)).unwrap_err()
            } else {
                NetError::NoTarget
            }),
            final(self).fn_activation == old(self).fn_activation,
            final(self).fn_loss@ == old(self).fn_loss@,
            final(self).output == old(self).output,
            final(self).dinputs == (if result.is_ok() {
                Some(dvalues)
            } else {
                old(self).dinputs
            }),
    {
        let sparse = match to_sparse(y_true) {
            Ok(sparse) => sparse,
            Err(e) => {
                return Err(e);
            },
        };
        match self.backward_sparse(dvalues, &sparse) {
            Ok(()) => Ok(sparse),
            Err(e) => Err(e),
        }
    }

    /// The shape of the softmax output that the last forward pass retained.
    pub fn outputs(&self) -> (result: Result<Shape, NetError>)
        ensures
            result == set_or_unset(self.output),
    {
        match self.output {
            Some(shape) => Ok(shape),
            None => Err(NetError::UnsetState),
        }
    }

    /// The shape of the gradient that the last backward pass left.
    pub fn dinputs(&self) -> (result: Result<Shape, NetError>)
        ensures
            result == set_or_unset(self.dinputs),
    {
        match self.dinputs {
            Some(shape) => Ok(shape),
            None => Err(NetError::UnsetState),
        }
    }
}

} // verus!
