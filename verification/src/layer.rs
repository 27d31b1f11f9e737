//! The dense layer: the shapes of its parameters and the lifecycle of its buffers.
use vstd::prelude::*;
use crate::{set_or_unset, NetError, Shape};

verus! {

/// The optimizers that keep accumulators in the layers they update.
#[derive(Clone, Copy, Debug, PartialEq, Eq, Structural)]
pub enum Variant {
    /// Gradient descent with a momentum, which keeps a velocity.
    Sgd,
    /// AdaGrad, which keeps a cache of summed squares.
    AdaGrad,
    /// RMSProp, which keeps a cache of averaged squares.
    RmsProp,
    /// Adam, which keeps momentums and a cache.
    Adam,
}

impl Variant {
    /// The variant keeps momentum buffers.
    pub open spec fn keeps_momentums(self) -> bool {
        self == Variant::Sgd || self == Variant::Adam
    }

    /// The variant keeps caches.
    pub open spec fn keeps_cache(self) -> bool {
        self != Variant::Sgd
    }
}

/// What an update finds of the accumulators that its rule keeps.
#[derive(Clone, Copy, Debug, PartialEq, Eq, Structural)]
pub enum Buffer {
    /// The rule keeps no accumulator.
    Unused,
    /// The layer got them by this call, shaped as its parameters and all
    /// zero.
    Zeroed,
    /// The layer had them from an earlier update by the same variant.
    Kept,
}

/// What a layer holds: the shape of each buffer that has been computed.
pub struct LayerView {
    /// The weight matrix has one row for each input and one column for each neuron.
    pub weights: Shape,
    /// The output of the last forward pass.
    pub outputs: Option<Shape>,
    /// The input of the last forward pass.
    pub inputs: Option<Shape>,
    /// The gradient with respect to the input, as the last backward pass left it.
    /// The gradients of weights and biases are set when it is.
    pub dinputs: Option<Shape>,
    /// The one optimizer variant whose accumulators the layer holds, once an
    /// update has made them.
    pub accumulators: Option<Variant>,
}

impl LayerView {
    /// The shape of the weight gradient, where a backward pass has run.
    pub open spec fn dweights(self) -> Option<Shape> {
        if self.dinputs.is_some() { Some(self.weights) } else { None }
    }

    /// The length of the bias gradient, where a backward pass has run.
    pub open spec fn dbiases(self) -> Option<usize> {
        if self.dinputs.is_some() { Some(self.weights.cols) } else { None }
    }

    /// The layer holds momentum buffers.
    pub open spec fn has_momentums(self) -> bool {
        self.accumulators matches Some(variant) && variant.keeps_momentums()
    }

    /// The layer holds caches.
    pub open spec fn has_cache(self) -> bool {
        self.accumulators matches Some(variant) && variant.keeps_cache()
    }

    /// The shape of the weight momentums, where the layer has them.
    pub open spec fn weight_momentums(self) -> Option<Shape> {
        if self.has_momentums() { Some(self.weights) } else { None }
    }

    /// The length of the bias momentums, where the layer has them.
    pub open spec fn bias_momentums(self) -> Option<usize> {
        if self.has_momentums() { Some(self.weights.cols) } else { None }
    }

    /// The shape of the weight cache, where the layer has one.
    pub open spec fn weight_cache(self) -> Option<Shape> {
        if self.has_cache() { Some(self.weights) } else { None }
    }

    /// The length of the bias cache, where the layer has one.
    pub open spec fn bias_cache(self) -> Option<usize> {
        if self.has_cache() { Some(self.weights.cols) } else { None }
    }

    /// How an update by a variant that keeps accumulators ends. It needs the
    /// gradients of a backward pass, and a layer that holds no accumulators
    /// of another variant: a layer belongs to the one variant that first
    /// updated it.
    pub open spec fn update_outcome(self, variant: Variant) -> Result<Buffer, NetError> {
        if self.dinputs.is_none() {
            Err(NetError::UnsetState)
        } else {
            match self.accumulators {
                None => Ok(Buffer::Zeroed),
                Some(owner) => if owner == variant {
                    Ok(Buffer::Kept)
                } else {
                    Err(NetError::UnsetState)
                },
            }
        }
    }

    /// How a backward pass from a gradient of the given shape ends: it fails
    /// before any forward pass, and on a gradient that has not a row for each
    /// remembered sample and a column for each neuron.
    pub open spec fn backward_outcome(self, dvalues: Shape) -> Result<(), NetError> {
        match self.inputs {
            None => Err(NetError::UnsetState),
            Some(x) => if dvalues.rows == x.rows && dvalues.cols == self.weights.cols {
                Ok(())
            } else {
                Err(NetError::DimensionMismatch)
            },
        }
    }

    /// A layer belongs to one variant: where an update by one variant has
    /// gone through, a later update goes through for that variant alone.
    pub proof fn lemma_one_variant(self, first: Variant, second: Variant)
        requires
            self.update_outcome(first).is_ok(),
            (LayerView { accumulators: Some(first), ..self }).update_outcome(second).is_ok(),
        ensures
            first == second,
            (LayerView { accumulators: Some(first), ..self }).update_outcome(second) == Ok::<
                Buffer,
                NetError,
            >(Buffer::Kept),
    {
    }

    /// The shapes fit one another: input and output are set together, the
    /// input with a column for each weight row and the output with a row for
    /// each sample and a column for each neuron; and the input gradient has
    /// a column for each weight row.
    pub open spec fn consistent(self) -> bool {
        &&& match (self.inputs, self.outputs) {
            (Some(x), Some(y)) => x.cols == self.weights.rows && y == (Shape {
                rows: x.rows,
                cols: self.weights.cols,
            }),
            (None, None) => true,
            _ => false,
        }
        &&& (self.dinputs matches Some(d) ==> d.cols == self.weights.rows)
    }
}

/// A dense layer, `Y = X·W + b`, as far as its shapes and buffers go.
pub struct Layer {
    weights: Shape,
    outputs: Option<Shape>,
    inputs: Option<Shape>,
    dinputs: Option<Shape>,
    accumulators: Option<Variant>,
}

impl View for Layer {
    type V = LayerView;

    closed spec fn view(&self) -> LayerView {
        LayerView {
            weights: self.weights,
            outputs: self.outputs,
            inputs: self.inputs,
            dinputs: self.dinputs,
            accumulators: self.accumulators,
        }
    }
}

impl Layer {
    #[verifier::type_invariant]
    spec fn shapes_fit(self) -> bool {
        self@.consistent()
    }

    /// A layer of `n_neurons` neurons over `n_inputs` inputs, with nothing
    /// computed yet: every buffer but weights and biases is unset, also the
    /// output, whatever batch the layer is made for.
    pub fn new(n_inputs: usize, n_neurons: usize, _batch_size: usize) -> (layer: Layer)
        ensures
            layer@ == (LayerView {
                weights: Shape { rows: n_inputs, cols: n_neurons },
                outputs: None,
                inputs: None,
                dinputs: None,
                accumulators: None,
            }),
    {
        Layer {
            weights: Shape { rows: n_inputs, cols: n_neurons },
            outputs: None,
            inputs: None,
            dinputs: None,
            accumulators: None,
        }
    }

    /// The forward pass over a batch of the given shape. The batch must have
    /// a column for each input; the output then has a row for each sample and
    /// a column for each neuron, and the batch is remembered.
    pub fn forward(&mut self, inputs: Shape) -> (result: Result<Shape, NetError>)
        ensures
            result.is_ok() <==> inputs.cols == old(self)@.weights.rows,
            result matches Ok(outputs) ==> {
                &&& outputs == (Shape { rows: inputs.rows, cols: old(self)@.weights.cols })
                &&& final(self)@ == (LayerView {
                    inputs: Some(inputs),
                    outputs: Some(outputs),
                    ..old(self)@
                })
            },
            result matches Err(e) ==> e == NetError::DimensionMismatch && final(self)@ == old(
                self,
            )@,
    {
        proof {
            use_type_invariant(&*self);
        }
        if inputs.cols != self.weights.rows {
            return Err(NetError::DimensionMismatch);
        }
        let outputs = Shape { rows: inputs.rows, cols: self.weights.cols };
        *self = Layer {
            weights: self.weights,
            outputs: Some(outputs),
            inputs: Some(inputs),
            dinputs: self.dinputs,
            accumulators: self.accumulators,
        };
        Ok(outputs)
    }

    /// The backward pass from the gradient of the output, of the given shape.
    /// It needs the input of a forward pass, and a gradient with a row for
    /// each sample of that input and a column for each neuron. It sets the
    /// three gradients: of the weights `Xᵗ·dY`, of the biases the column sums
    /// of `dY`, and of the input `dY·Wᵗ`, and leaves the parameters alone.
    pub fn backward(&mut self, dvalues: Shape) -> (result: Result<(), NetError>)
        ensures
            result == old(self)@.backward_outcome(dvalues),
            result.is_ok() ==> final(self)@ == (LayerView {
                dinputs: Some(Shape { rows: dvalues.rows, cols: old(self)@.weights.rows }),
                ..old(self)@
            }),
            result.is_err() ==> final(self)@ == old(self)@,
    {
        proof {
            use_type_invariant(&*self);
        }
        match self.inputs {
            None => Err(NetError::UnsetState),
            Some(x) => {
                if dvalues.rows != x.rows || dvalues.cols != self.weights.cols {
                    Err(NetError::DimensionMismatch)
                } else {
                    *self = Layer {
                        weights: self.weights,
                        outputs: self.outputs,
                        inputs: self.inputs,
                        dinputs: Some(Shape { rows: dvalues.rows, cols: self.weights.rows }),
                        accumulators: self.accumulators,
                    };
                    Ok(())
                }
            },
        }
    }

    /// The shape of the weight matrix. The shapes of a layer's buffers always
    /// fit one another.
    pub fn weights(&self) -> (shape: Shape)
        ensures
            shape == self@.weights,
            self@.consistent(),
    {
        proof {
            use_type_invariant(self);
        }
        self.weights
    }

    /// The length of the bias vector: one entry for each neuron.
    pub fn biases(&self) -> (len: usize)
        ensures
            len == self@.weights.cols,
    {
        self.weights.cols
    }

    /// The shape of the output, once a forward pass has run.
    pub fn outputs(&self) -> (result: Result<Shape, NetError>)
        ensures
            result == set_or_unset(self@.outputs),
    {
        match self.outputs {
            Some(shape) => Ok(shape),
            None => Err(NetError::UnsetState),
        }
    }

    /// The shape of the remembered input, once a forward pass has run.
    pub fn inputs(&self) -> (result: Result<Shape, NetError>)
        ensures
            result == set_or_unset(self@.inputs),
    {
        match self.inputs {
            Some(shape) => Ok(shape),
            None => Err(NetError::UnsetState),
        }
    }

    /// The shape of the weight gradient, once a backward pass has run: that of
    /// the weights.
    pub fn dweights(&self) -> (result: Result<Shape, NetError>)
        ensures
            result == set_or_unset(self@.dweights()),
    {
        match self.dinputs {
            Some(_) => Ok(self.weights),
            None => Err(NetError::UnsetState),
        }
    }

    /// The length of the bias gradient, once a backward pass has run: that of
    /// the biases.
    pub fn dbiases(&self) -> (result: Result<usize, NetError>)
        ensures
            result == set_or_unset(self@.dbiases()),
    {
        match self.dinputs {
            Some(_) => Ok(self.weights.cols),
            None => Err(NetError::UnsetState),
        }
    }

    /// The shape of the input gradient, once a backward pass has run.
    pub fn dinputs(&self) -> (result: Result<Shape, NetError>)
        ensures
            result == set_or_unset(self@.dinputs),
    {
        match self.dinputs {
            Some(shape) => Ok(shape),
            None => Err(NetError::UnsetState),
        }
    }

    /// The shape of the weight momentums, once an optimizer has made them:
    /// that of the weights.
    pub fn weight_momentums(&self) -> (result: Result<Shape, NetError>)
        ensures
            result == set_or_unset(self@.weight_momentums()),
    {
        if self.holds_momentums() {
            Ok(self.weights)
        } else {
            Err(NetError::UnsetState)
        }
    }

    /// The length of the bias momentums, once an optimizer has made them:
    /// that of the biases.
    pub fn bias_momentums(&self) -> (result: Result<usize, NetError>)
        ensures
            result == set_or_unset(self@.bias_momentums()),
    {
        if self.holds_momentums() {
            Ok(self.weights.cols)
        } else {
            Err(NetError::UnsetState)
        }
    }

    /// The shape of the weight cache, once an optimizer has made it: that of
    /// the weights.
    pub fn weight_cache(&self) -> (result: Result<Shape, NetError>)
        ensures
            result == set_or_unset(self@.weight_cache()),
    {
        if self.holds_cache() {
            Ok(self.weights)
        } else {
            Err(NetError::UnsetState)
        }
    }

    /// The length of the bias cache, once an optimizer has made it: that of
    /// the biases.
    pub fn bias_cache(&self) -> (result: Result<usize, NetError>)
        ensures
            result == set_or_unset(self@.bias_cache()),
    {
        if self.holds_cache() {
            Ok(self.weights.cols)
        } else {
            Err(NetError::UnsetState)
        }
    }

    fn holds_momentums(&self) -> (held: bool)
        ensures
            held == self@.has_momentums(),
    {
        match self.accumulators {
            Some(Variant::Sgd) => true,
            Some(Variant::Adam) => true,
            _ => false,
        }
    }

    fn holds_cache(&self) -> (held: bool)
        ensures
            held == self@.has_cache(),
    {
        match self.accumulators {
            Some(Variant::AdaGrad) => true,
            Some(Variant::RmsProp) => true,
            Some(Variant::Adam) => true,
            _ => false,
        }
    }

    /// The variant whose accumulators the layer holds, if it holds any.
    pub fn accumulators(&self) -> (owner: Option<Variant>)
        ensures
            owner == self@.accumulators,
    {
        self.accumulators
    }

    /// Readies the layer for an update by a variant that keeps accumulators:
    /// a layer without accumulators gets those of the variant, zeroed and
    /// shaped as weights and biases.
    pub(crate) fn provide(&mut self, variant: Variant) -> (result: Result<Buffer, NetError>)
        ensures
            result == old(self)@.update_outcome(variant),
            result.is_ok() ==> final(self)@ == (LayerView {
                accumulators: Some(variant),
                ..old(self)@
            }),
            result.is_err() ==> final(self)@ == old(self)@,
    {
        proof {
            use_type_invariant(&*self);
        }
        if self.dinputs.is_none() {
            return Err(NetError::UnsetState);
        }
        match self.accumulators {
            None => {
                *self = Layer {
                    weights: self.weights,
                    outputs: self.outputs,
                    inputs: self.inputs,
                    dinputs: self.dinputs,
                    accumulators: Some(variant),
                };
                Ok(Buffer::Zeroed)
            },
            Some(owner) => {
                if owner == variant {
                    Ok(Buffer::Kept)
                } else {
                    Err(NetError::UnsetState)
                }
            },
        }
    }
}

} // verus!
