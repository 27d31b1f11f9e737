//! The exact core of a feed-forward training engine.
//!
//! Real arithmetic stays with the caller. This crate holds what can be decided
//! exactly: the shapes and lifecycles of a network's buffers, class labels,
//! selection by order over scalar codes, and the optimizers' schedules.
//!
//! A real value enters as its scalar code, an `i64` made from the bit pattern
//! of a binary64 value: codes compare as the values do, and the code `0`
//! stands for zero.
use vstd::prelude::*;

pub mod activations;
pub mod layer;
pub mod loss_functions;
pub mod optimizers;
pub mod scalar;
pub mod tensor;
pub mod utils;

verus! {

/// The ways in which a call into the engine can fail.
#[derive(Clone, Copy, Debug, PartialEq, Eq, Structural)]
pub enum NetError {
    /// A buffer was read, or a backward pass or an update asked for, before
    /// the call that fills what it needs; or an update was asked of a layer
    /// that holds the accumulators of another optimizer.
    UnsetState,
    /// Two shapes do not fit the operation that was asked for.
    DimensionMismatch,
    /// A hyperparameter was named that the optimizer does not have.
    UnknownHyperparameter,
    /// A row has no target class: a one-hot row holds no `1`, a row of scores
    /// holds no number, or a class index names no column.
    NoTarget,
}

/// What reading a buffer gives: its value once it is set, a failure before.
pub open spec fn set_or_unset<T>(slot: Option<T>) -> Result<T, NetError> {
    match slot {
        Some(value) => Ok(value),
        None => Err(NetError::UnsetState),
    }
}

/// The number of rows and of columns of a matrix.
#[derive(Clone, Copy, Debug, PartialEq, Eq, Structural)]
pub struct Shape {
    pub rows: usize,
    pub cols: usize,
}

/// An axis of length `from` can be repeated to the length `to`: the lengths
/// are equal, or `from` is 1.
pub open spec fn axis_stretches(from: usize, to: usize) -> bool {
    from == to || from == 1
}

/// The place in an axis of length `len` that stands at `i` once the axis is
/// repeated: `i` itself, or the one place of an axis of length 1.
pub open spec fn stretched(len: nat, i: int) -> int {
    if len == 1 { 0 } else { i }
}

impl Shape {
    /// A matrix of this shape can be broadcast to the shape `to`.
    pub open spec fn stretches_to(self, to: Shape) -> bool {
        axis_stretches(self.rows, to.rows) && axis_stretches(self.cols, to.cols)
    }

    /// The common shape to which two shapes can both be broadcast, if there
    /// is one: on each axis the two lengths are equal, or one of them is 1.
    pub open spec fn joined_with(self, other: Shape) -> Option<Shape> {
        if (axis_stretches(self.rows, other.rows) || axis_stretches(other.rows, self.rows)) && (
        axis_stretches(self.cols, other.cols) || axis_stretches(other.cols, self.cols)) {
            Some(
                Shape {
                    rows: if self.rows == 1 { other.rows } else { self.rows },
                    cols: if self.cols == 1 { other.cols } else { self.cols },
                },
            )
        } else {
            None
        }
    }

    /// Two shapes have the same common shape in either order, and a shape
    /// that can be broadcast to another has that other as their common shape.
    pub proof fn lemma_joined(self, other: Shape)
        ensures
            self.joined_with(other) == other.joined_with(self),
            self.stretches_to(other) ==> self.joined_with(other) == Some(other),
            self.joined_with(self) == Some(self),
    {
    }

    /// An array can have this shape: the product of its nonzero axis lengths
    /// is not over `isize::MAX`.
    pub open spec fn holdable(self) -> bool {
        crate::tensor::extent(self.rows as nat, self.cols as nat) <= isize::MAX
    }

    /// Whether an array can have this shape.
    pub fn can_be_held(self) -> (fits: bool)
        ensures
            fits == self.holdable(),
    {
        let limit = isize::MAX as usize;
        if self.rows == 0 {
            self.cols <= limit
        } else if self.cols == 0 {
            self.rows <= limit
        } else {
            proof {
                if self.cols <= limit / self.rows {
                    crate::tensor::lemma_product_under(
                        self.rows as int,
                        self.cols as int,
                        limit as int,
                    );
                } else {
                    crate::tensor::lemma_product_over(
                        self.rows as int,
                        self.cols as int,
                        limit as int,
                    );
                }
            }
            self.cols <= limit / self.rows
        }
    }

    /// Whether a matrix of this shape can be broadcast to the shape `to`.
    pub fn broadcasts_to(self, to: Shape) -> (fits: bool)
        ensures
            fits == self.stretches_to(to),
    {
        (self.rows == to.rows || self.rows == 1) && (self.cols == to.cols || self.cols == 1)
    }

    /// The common shape to which two shapes can both be broadcast.
    pub fn co_broadcast(self, other: Shape) -> (joined: Option<Shape>)
        ensures
            joined == self.joined_with(other),
            joined matches Some(shape) ==> self.stretches_to(shape) && other.stretches_to(shape),
    {
        let rows_fit = self.rows == other.rows || self.rows == 1 || other.rows == 1;
        let cols_fit = self.cols == other.cols || self.cols == 1 || other.cols == 1;
        if rows_fit && cols_fit {
            Some(
                Shape {
                    rows: if self.rows == 1 { other.rows } else { self.rows },
                    cols: if self.cols == 1 { other.cols } else { self.cols },
                },
            )
        } else {
            None
        }
    }
}

} // verus!
