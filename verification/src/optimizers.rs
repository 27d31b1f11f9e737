//! The optimizers: their schedules, and what each update asks of a layer.
//!
//! One training step calls `pre_update_params`, then `update_params` for each
//! layer, then `post_update_params`. A hyperparameter is held as the scalar
//! code of its value; the caller applies the update rule to its own buffers.
use vstd::prelude::*;
use crate::NetError;
use crate::layer::{Buffer, Layer, LayerView, Variant};

verus! {

/// The learning rate of a step: the decayed rate where the rate decays, the
/// base rate where `decay` is zero.
pub open spec fn scheduled_rate(learning_rate: i64, decay: i64, decayed: i64) -> i64 {
    if decay != 0 { decayed } else { learning_rate }
}

/// Stochastic gradient descent: `θ += −lr·g`, or with a momentum
/// `v = momentum·v − lr·g; θ += v`.
#[derive(Clone, Copy, Debug, PartialEq, Eq, Structural)]
pub struct SGD {
    pub learning_rate: i64,
    pub decay: i64,
    pub current_learning_rate: i64,
    pub iterations: i64,
    pub momentum: i64,
}

impl SGD {
    /// An optimizer at its first step, whose current rate is the base rate.
    pub fn new(learning_rate: i64, decay: i64, momentum: i64) -> (optimizer: SGD)
        ensures
            optimizer == (SGD {
                learning_rate,
                decay,
                current_learning_rate: learning_rate,
                iterations: 0,
                momentum,
            }),
    {
        SGD { learning_rate, decay, current_learning_rate: learning_rate, iterations: 0, momentum }
    }

    /// Sets the current rate for the step. `decayed` is the code of
    /// `learning_rate / (1 + decay · iterations)`, which the caller computes;
    /// it is taken where the rate decays, the base rate where it does not.
    pub fn pre_update_params(&mut self, decayed: i64)
        ensures
            *final(self) == (SGD {
                current_learning_rate: scheduled_rate(
                    old(self).learning_rate,
                    old(self).decay,
                    decayed,
                ),
                ..*old(self)
            }),
    {
        if self.decay != 0 {
            self.current_learning_rate = decayed;
        } else {
            self.current_learning_rate = self.learning_rate;
        }
    }

    /// Readies a layer for this optimizer's rule. The layer must hold the
    /// gradients of a backward pass. With a momentum the layer must be
    /// without accumulators, which it then gets, or hold those of this
    /// variant; without one it is left as it is.
    pub fn update_params(&self, layer: &mut Layer) -> (result: Result<Buffer, NetError>)
        ensures
            result == (if self.momentum != 0 {
                old(layer)@.update_outcome(Variant::Sgd)
            } else if old(layer)@.dinputs.is_some() {
                Ok(Buffer::Unused)
            } else {
                Err(NetError::UnsetState)
            }),
            final(layer)@ == (if self.momentum != 0 && result.is_ok() {
                LayerView { accumulators: Some(Variant::Sgd), ..old(layer)@ }
            } else {
                old(layer)@
            }),
    {
        if self.momentum != 0 {
            layer.provide(Variant::Sgd)
        } else {
            match layer.dweights() {
                Ok(_) => Ok(Buffer::Unused),
                Err(e) => Err(e),
            }
        }
    }

    /// Ends the step: one more iteration is counted.
    pub fn post_update_params(&mut self)
        requires
            old(self).iterations < i64::MAX,
        ensures
            *final(self) == (SGD { iterations: (old(self).iterations + 1) as i64, ..*old(self) }),
    {
        self.iterations = self.iterations + 1;
    }
}

/// AdaGrad: `c += g²; θ += −lr·g / (sqrt(c) + ε)`.
#[derive(Clone, Copy, Debug, PartialEq, Eq, Structural)]
pub struct AdaGrad {
    pub learning_rate: i64,
    pub decay: i64,
    pub current_learning_rate: i64,
    pub iterations: i64,
    pub epsilon: i64,
}

impl AdaGrad {
    /// An optimizer at its first step, whose current rate is the base rate.
    pub fn new(learning_rate: i64, decay: i64, epsilon: i64) -> (optimizer: AdaGrad)
        ensures
            optimizer == (AdaGrad {
                learning_rate,
                decay,
                current_learning_rate: learning_rate,
                iterations: 0,
                epsilon,
            }),
    {
        AdaGrad { learning_rate, decay, current_learning_rate: learning_rate, iterations: 0, epsilon }
    }

    /// Sets the current rate for the step. `decayed` is the code of
    /// `learning_rate / (1 + decay · iterations)`, which the caller computes;
    /// it is taken where the rate decays, the base rate where it does not.
    pub fn pre_update_params(&mut self, decayed: i64)
        ensures
            *final(self) == (AdaGrad {
                current_learning_rate: scheduled_rate(
                    old(self).learning_rate,
                    old(self).decay,
                    decayed,
                ),
                ..*old(self)
            }),
    {
        if self.decay != 0 {
            self.current_learning_rate = decayed;
        } else {
            self.current_learning_rate = self.learning_rate;
        }
    }

    /// Readies a layer for this optimizer's rule. The layer must hold the
    /// gradients of a backward pass, and be without accumulators, which it
    /// then gets, or hold those of this variant.
    pub fn update_params(&self, layer: &mut Layer) -> (result: Result<Buffer, NetError>)
        ensures
            result == old(layer)@.update_outcome(Variant::AdaGrad),
            final(layer)@ == (if result.is_ok() {
                LayerView { accumulators: Some(Variant::AdaGrad), ..old(layer)@ }
            } else {
                old(layer)@
            }),
    {
        layer.provide(Variant::AdaGrad)
    }

    /// Ends the step: one more iteration is counted.
    pub fn post_update_params(&mut self)
        requires
            old(self).iterations < i64::MAX,
        ensures
            *final(self) == (AdaGrad {
                iterations: (old(self).iterations + 1) as i64,
                ..*old(self)
            }),
    {
        self.iterations = self.iterations + 1;
    }
}

/// RMSProp: `c = ρ·c + (1−ρ)·g²; θ += −lr·g / (sqrt(c) + ε)`.
#[derive(Clone, Copy, Debug, PartialEq, Eq, Structural)]
pub struct RMSProp {
    pub learning_rate: i64,
    pub decay: i64,
    pub current_learning_rate: i64,
    pub iterations: i64,
    pub epsilon: i64,
    pub rho: i64,
}

impl RMSProp {
    /// An optimizer at its first step, whose current rate is the base rate.
    pub fn new(learning_rate: i64, decay: i64, epsilon: i64, rho: i64) -> (optimizer: RMSProp)
        ensures
            optimizer == (RMSProp {
                learning_rate,
                decay,
                current_learning_rate: learning_rate,
                iterations: 0,
                epsilon,
                rho,
            }),
    {
        RMSProp {
            learning_rate,
            decay,
            current_learning_rate: learning_rate,
            iterations: 0,
            epsilon,
            rho,
        }
    }

    /// Sets the current rate for the step. `decayed` is the code of
    /// `learning_rate / (1 + decay · iterations)`, which the caller computes;
    /// it is taken where the rate decays, the base rate where it does not.
    pub fn pre_update_params(&mut self, decayed: i64)
        ensures
            *final(self) == (RMSProp {
                current_learning_rate: scheduled_rate(
                    old(self).learning_rate,
                    old(self).decay,
                    decayed,
                ),
                ..*old(self)
            }),
    {
        if self.decay != 0 {
            self.current_learning_rate = decayed;
        } else {
            self.current_learning_rate = self.learning_rate;
        }
    }

    /// Readies a layer for this optimizer's rule. The layer must hold the
    /// gradients of a backward pass, and be without accumulators, which it
    /// then gets, or hold those of this variant.
    pub fn update_params(&mut self, layer: &mut Layer) -> (result: Result<Buffer, NetError>)
        ensures
            *final(self) == *old(self),
            result == old(layer)@.update_outcome(Variant::RmsProp),
            final(layer)@ == (if result.is_ok() {
                LayerView { accumulators: Some(Variant::RmsProp), ..old(layer)@ }
            } else {
                old(layer)@
            }),
    {
        layer.provide(Variant::RmsProp)
    }

    /// Ends the step: one more iteration is counted.
    pub fn post_update_params(&mut self)
        requires
            old(self).iterations < i64::MAX,
        ensures
            *final(self) == (RMSProp {
                iterations: (old(self).iterations + 1) as i64,
                ..*old(self)
            }),
    {
        self.iterations = self.iterations + 1;
    }
}

/// The hyperparameters of Adam that can be set by name.
#[derive(Clone, Copy, Debug, PartialEq, Eq, Structural)]
pub enum Hyperparameter {
    LearningRate,
    Decay,
    Epsilon,
    Beta1,
    Beta2,
}

/// The hyperparameter that a name stands for, if it stands for one.
pub open spec fn hyperparameter_named(name: Seq<char>) -> Option<Hyperparameter> {
    if name == "learning_rate"@ {
        Some(Hyperparameter::LearningRate)
    } else if name == "decay"@ {
        Some(Hyperparameter::Decay)
    } else if name == "epsilon"@ {
        Some(Hyperparameter::Epsilon)
    } else if name == "beta_1"@ {
        Some(Hyperparameter::Beta1)
    } else if name == "beta_2"@ {
        Some(Hyperparameter::Beta2)
    } else {
        None
    }
}

/// Every one of the first `n` names stands for a hyperparameter.
pub open spec fn all_named(pairs: Seq<(String, i64)>, n: int) -> bool {
    forall|k: int| 0 <= k < n ==> hyperparameter_named((#[trigger] pairs[k]).0@).is_some()
}

/// The code of the learning rate that Adam starts from, one thousandth.
pub const ADAM_LEARNING_RATE: i64 = 0x3f50_624d_d2f1_a9fc;

/// The code of the decay that Adam starts from, zero: the rate does not
/// decay.
pub const ADAM_DECAY: i64 = 0;

/// The code of the `ε` that Adam starts from, one part in ten million.
pub const ADAM_EPSILON: i64 = 0x3e7a_d7f2_9abc_af48;

/// The code of the `β1` that Adam starts from, nine tenths.
pub const ADAM_BETA_1: i64 = 0x3fec_cccc_cccc_cccd;

/// The code of the `β2` that Adam starts from, 999 thousandths.
pub const ADAM_BETA_2: i64 = 0x3fef_f7ce_d916_872b;

/// What an Adam update hands to its caller.
#[derive(Clone, Copy, Debug, PartialEq, Eq, Structural)]
pub struct AdamStep {
    /// What the update found of the layer's momentums and caches.
    pub found: Buffer,
    /// The power `t + 1` to which the bias corrections raise `β1` and `β2`,
    /// `t` being the iterations counted before this step.
    pub exponent: i64,
}

/// Adam: `m = β1·m + (1−β1)·g; c = β2·c + (1−β2)·g²`, corrected to
/// `m̂ = m / (1−β1^(t+1))` and `ĉ = c / (1−β2^(t+1))`, and
/// `θ += −lr·m̂ / (sqrt(ĉ) + ε)`.
#[derive(Clone, Copy, Debug, PartialEq, Eq, Structural)]
pub struct Adam {
    pub learning_rate: i64,
    pub current_learning_rate: i64,
    pub decay: i64,
    pub iterations: i64,
    pub epsilon: i64,
    pub beta_1: i64,
    pub beta_2: i64,
}

impl Adam {
    /// The optimizer with one hyperparameter set to a value.
    pub open spec fn with(self, which: Hyperparameter, value: i64) -> Adam {
        match which {
            Hyperparameter::LearningRate => Adam { learning_rate: value, ..self },
            Hyperparameter::Decay => Adam { decay: value, ..self },
            Hyperparameter::Epsilon => Adam { epsilon: value, ..self },
            Hyperparameter::Beta1 => Adam { beta_1: value, ..self },
            Hyperparameter::Beta2 => Adam { beta_2: value, ..self },
        }
    }

    /// The optimizer after the first `n` pairs have been applied in order,
    /// each to the hyperparameter that it names.
    pub open spec fn with_all(self, pairs: Seq<(String, i64)>, n: int) -> Adam
        decreases n,
    {
        if n <= 0 {
            self
        } else {
            match hyperparameter_named(pairs[n - 1].0@) {
                Some(which) => self.with_all(pairs, n - 1).with(which, pairs[n - 1].1),
                None => self.with_all(pairs, n - 1),
            }
        }
    }

    /// An optimizer at its first step, with the hyperparameters that Adam
    /// starts from. Its current rate is the base rate.
    pub fn new() -> (optimizer: Adam)
        ensures
            optimizer == (Adam {
                learning_rate: ADAM_LEARNING_RATE,
                current_learning_rate: ADAM_LEARNING_RATE,
                decay: ADAM_DECAY,
                iterations: 0,
                epsilon: ADAM_EPSILON,
                beta_1: ADAM_BETA_1,
                beta_2: ADAM_BETA_2,
            }),
    {
        Adam {
            learning_rate: ADAM_LEARNING_RATE,
            current_learning_rate: ADAM_LEARNING_RATE,
            decay: ADAM_DECAY,
            iterations: 0,
            epsilon: ADAM_EPSILON,
            beta_1: ADAM_BETA_1,
            beta_2: ADAM_BETA_2,
        }
    }

    /// Sets the current rate for the step. `decayed` is the code of
    /// `learning_rate / (1 + decay · iterations)`, which the caller computes;
    /// it is taken where the rate decays, the base rate where it does not.
    pub fn pre_update_params(&mut self, decayed: i64)
        ensures
            *final(self) == (Adam {
                current_learning_rate: scheduled_rate(
                    old(self).learning_rate,
                    old(self).decay,
                    decayed,
                ),
                ..*old(self)
            }),
    {
        if self.decay != 0 {
            self.current_learning_rate = decayed;
        } else {
            self.current_learning_rate = self.learning_rate;
        }
    }

    /// Readies a layer for this optimizer's rule and gives the power of the
    /// bias corrections. The layer must hold the gradients of a backward
    /// pass, and be without accumulators, which it then gets, or hold those
    /// of this variant.
    pub fn update_params(&mut self, layer: &mut Layer) -> (result: Result<AdamStep, NetError>)
        requires
            old(self).iterations < i64::MAX,
        ensures
            *final(self) == *old(self),
            result.is_ok() <==> old(layer)@.update_outcome(Variant::Adam).is_ok(),
            result matches Ok(step) ==> {
                &&& step.exponent == old(self).iterations + 1
                &&& Ok::<Buffer, NetError>(step.found) == old(layer)@.update_outcome(Variant::Adam)
            },
            result matches Err(e) ==> e == NetError::UnsetState,
            final(layer)@ == (if result.is_ok() {
                LayerView { accumulators: Some(Variant::Adam), ..old(layer)@ }
            } else {
                old(layer)@
            }),
    {
        match layer.provide(Variant::Adam) {
            Ok(found) => Ok(AdamStep { found, exponent: self.iterations + 1 }),
            Err(e) => Err(e),
        }
    }

    /// Ends the step: one more iteration is counted.
    pub fn post_update_params(&mut self)
        requires
            old(self).iterations < i64::MAX,
        ensures
            *final(self) == (Adam { iterations: (old(self).iterations + 1) as i64, ..*old(self) }),
    {
        self.iterations = self.iterations + 1;
    }

    /// Sets hyperparameters by name, in the order given. Where a name stands
    /// for no hyperparameter, the call fails and sets nothing.
    pub fn set_hyperparams(&mut self, hyperparams: Vec<(String, i64)>) -> (result: Result<
        (),
        NetError,
    >)
        ensures
            result.is_ok() <==> all_named(hyperparams@, hyperparams@.len() as int),
            result.is_ok() ==> *final(self) == old(self).with_all(
                hyperparams@,
                hyperparams@.len() as int,
            ),
            result matches Err(e) ==> e == NetError::UnknownHyperparameter && *final(self) == *old(
                self,
            ),
    {
        let mut k: usize = 0;
        while k < hyperparams.len()
            invariant
                0 <= k <= hyperparams@.len(),
                all_named(hyperparams@, k as int),
            decreases hyperparams@.len() - k,
        {
            if hyperparameter(&hyperparams[k].0).is_none() {
                return Err(NetError::UnknownHyperparameter);
            }
            k = k + 1;
        }
        let mut k: usize = 0;
        while k < hyperparams.len()
            invariant
                0 <= k <= hyperparams@.len(),
                *self == old(self).with_all(hyperparams@, k as int),
            decreases hyperparams@.len() - k,
        {
            let value = hyperparams[k].1;
            match hyperparameter(&hyperparams[k].0) {
                Some(Hyperparameter::LearningRate) => {
                    self.learning_rate = value;
                },
                Some(Hyperparameter::Decay) => {
                    self.decay = value;
                },
                Some(Hyperparameter::Epsilon) => {
                    self.epsilon = value;
                },
                Some(Hyperparameter::Beta1) => {
                    self.beta_1 = value;
                },
                Some(Hyperparameter::Beta2) => {
                    self.beta_2 = value;
                },
                None => {},
            }
            k = k + 1;
        }
        Ok(())
    }
}

/// The hyperparameter that a name stands for, if it stands for one.
pub fn hyperparameter(name: &String) -> (which: Option<Hyperparameter>)
    ensures
        which == hyperparameter_named(name@),
{
    if *name == "learning_rate".to_owned() {
        Some(Hyperparameter::LearningRate)
    } else if *name == "decay".to_owned() {
        Some(Hyperparameter::Decay)
    } else if *name == "epsilon".to_owned() {
        Some(Hyperparameter::Epsilon)
    } else if *name == "beta_1".to_owned() {
        Some(Hyperparameter::Beta1)
    } else if *name == "beta_2".to_owned() {
        Some(Hyperparameter::Beta2)
    } else {
        None
    }
}

} // verus!
