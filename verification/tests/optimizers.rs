use nnet::layer::{Buffer, Layer, Variant};
use nnet::optimizers::{
    hyperparameter, AdaGrad, Adam, AdamStep, Hyperparameter, RMSProp, ADAM_BETA_1, ADAM_BETA_2,
    ADAM_DECAY, ADAM_EPSILON, ADAM_LEARNING_RATE, SGD,
};
use nnet::scalar::{bits_of_code, code_of_bits};
use nnet::{NetError, Shape};

fn code(x: f64) -> i64 {
    code_of_bits(x.to_bits())
}

fn value(c: i64) -> f64 {
    f64::from_bits(bits_of_code(c))
}

fn trained_layer(n_inputs: usize, n_neurons: usize, batch: usize) -> Layer {
    let mut layer = Layer::new(n_inputs, n_neurons, batch);
    layer.forward(Shape { rows: batch, cols: n_inputs }).unwrap();
    layer.backward(Shape { rows: batch, cols: n_neurons }).unwrap();
    layer
}

fn default_adam() -> Adam {
    Adam::new()
}

#[test]
fn sgd_starts_at_the_base_rate() {
    let sgd = SGD::new(code(1.0), code(1e-3), code(0.9));
    assert_eq!(sgd.learning_rate, code(1.0));
    assert_eq!(sgd.current_learning_rate, code(1.0));
    assert_eq!(sgd.decay, code(1e-3));
    assert_eq!(sgd.momentum, code(0.9));
    assert_eq!(sgd.iterations, 0);
}

#[test]
fn sgd_full_step_without_momentum_or_decay() {
    let mut sgd = SGD::new(code(1.0), code(0.0), code(0.0));
    let mut layer = trained_layer(1, 1, 1);
    sgd.pre_update_params(code(0.125));
    assert_eq!(value(sgd.current_learning_rate), 1.0);
    assert_eq!(sgd.update_params(&mut layer), Ok(Buffer::Unused));
    assert_eq!(layer.accumulators(), None);
    sgd.post_update_params();
    assert_eq!(sgd.iterations, 1);
    assert_eq!(sgd, SGD { iterations: 1, ..SGD::new(code(1.0), code(0.0), code(0.0)) });
    assert_eq!(layer.weight_momentums(), Err(NetError::UnsetState));
    assert_eq!(layer.weight_cache(), Err(NetError::UnsetState));
}

#[test]
fn pre_update_takes_the_decayed_rate_only_where_the_rate_decays() {
    let mut steady = SGD::new(code(1.0), code(0.0), code(0.0));
    steady.pre_update_params(code(0.25));
    assert_eq!(steady.current_learning_rate, code(1.0));
    let mut decaying = SGD::new(code(1.0), code(0.1), code(0.0));
    decaying.iterations = 10;
    decaying.pre_update_params(code(0.5));
    assert_eq!(value(decaying.current_learning_rate), 0.5);
    assert_eq!(decaying.learning_rate, code(1.0));
    assert_eq!(decaying.iterations, 10);
    let mut negative_zero = AdaGrad::new(code(1.0), code(-0.0), code(1e-7));
    negative_zero.pre_update_params(code(0.5));
    assert_eq!(negative_zero.current_learning_rate, code(1.0));
}

#[test]
fn pre_update_goes_back_to_a_changed_base_rate() {
    let mut adam = default_adam();
    adam.set_hyperparams(vec![("learning_rate".to_string(), code(0.05))]).unwrap();
    assert_eq!(adam.current_learning_rate, code(0.001));
    adam.pre_update_params(code(123.0));
    assert_eq!(adam.current_learning_rate, code(0.05));
}

#[test]
fn sgd_update_needs_gradients() {
    let sgd = SGD::new(code(1.0), code(0.0), code(0.9));
    let mut layer = Layer::new(2, 3, 1);
    assert_eq!(sgd.update_params(&mut layer), Err(NetError::UnsetState));
    layer.forward(Shape { rows: 1, cols: 2 }).unwrap();
    assert_eq!(sgd.update_params(&mut layer), Err(NetError::UnsetState));
    assert_eq!(layer.weight_momentums(), Err(NetError::UnsetState));
}

#[test]
fn sgd_with_momentum_makes_the_velocity_once() {
    let sgd = SGD::new(code(1.0), code(0.0), code(0.9));
    let mut layer = trained_layer(2, 3, 4);
    assert_eq!(sgd.update_params(&mut layer), Ok(Buffer::Zeroed));
    assert_eq!(layer.accumulators(), Some(Variant::Sgd));
    assert_eq!(layer.weight_momentums(), Ok(Shape { rows: 2, cols: 3 }));
    assert_eq!(layer.bias_momentums(), Ok(3));
    assert_eq!(layer.weight_cache(), Err(NetError::UnsetState));
    assert_eq!(layer.bias_cache(), Err(NetError::UnsetState));
    assert_eq!(sgd.update_params(&mut layer), Ok(Buffer::Kept));
}

#[test]
fn sgd_momentum_keeps_its_velocity_over_steps() {
    let mut sgd = SGD::new(code(0.5), code(0.0), code(0.5));
    let mut layer = trained_layer(1, 1, 1);
    let mut found = Vec::new();
    for _ in 0..3 {
        sgd.pre_update_params(code(0.5));
        found.push(sgd.update_params(&mut layer).unwrap());
        sgd.post_update_params();
    }
    assert_eq!(found, vec![Buffer::Zeroed, Buffer::Kept, Buffer::Kept]);
    assert_eq!(sgd.iterations, 3);
    assert_eq!(sgd.current_learning_rate, code(0.5));
}

#[test]
fn adagrad_makes_the_cache_once() {
    let adagrad = AdaGrad::new(code(1.0), code(0.0), code(1e-7));
    assert_eq!(adagrad.current_learning_rate, code(1.0));
    assert_eq!(adagrad.epsilon, code(1e-7));
    let mut layer = trained_layer(2, 3, 4);
    assert_eq!(adagrad.update_params(&mut layer), Ok(Buffer::Zeroed));
    assert_eq!(layer.accumulators(), Some(Variant::AdaGrad));
    assert_eq!(layer.weight_cache(), Ok(Shape { rows: 2, cols: 3 }));
    assert_eq!(layer.bias_cache(), Ok(3));
    assert_eq!(layer.weight_momentums(), Err(NetError::UnsetState));
    assert_eq!(layer.bias_momentums(), Err(NetError::UnsetState));
    assert_eq!(adagrad.update_params(&mut layer), Ok(Buffer::Kept));
    let mut untrained = Layer::new(2, 3, 1);
    assert_eq!(adagrad.update_params(&mut untrained), Err(NetError::UnsetState));
    assert_eq!(untrained.weight_cache(), Err(NetError::UnsetState));
}

#[test]
fn adagrad_keeps_its_cache_over_steps() {
    let mut adagrad = AdaGrad::new(code(1.0), code(0.0), code(1e-7));
    let mut layer = trained_layer(1, 1, 1);
    let mut found = Vec::new();
    for _ in 0..4 {
        adagrad.pre_update_params(code(1.0));
        found.push(adagrad.update_params(&mut layer).unwrap());
        adagrad.post_update_params();
    }
    assert_eq!(found, vec![Buffer::Zeroed, Buffer::Kept, Buffer::Kept, Buffer::Kept]);
    assert_eq!(adagrad.iterations, 4);
}

#[test]
fn rmsprop_makes_the_cache_once() {
    let mut rmsprop = RMSProp::new(code(0.02), code(1e-5), code(1e-7), code(0.999));
    assert_eq!(rmsprop.rho, code(0.999));
    let mut layer = trained_layer(2, 3, 4);
    assert_eq!(rmsprop.update_params(&mut layer), Ok(Buffer::Zeroed));
    assert_eq!(layer.accumulators(), Some(Variant::RmsProp));
    assert_eq!(layer.weight_cache(), Ok(Shape { rows: 2, cols: 3 }));
    assert_eq!(layer.weight_momentums(), Err(NetError::UnsetState));
    assert_eq!(rmsprop.update_params(&mut layer), Ok(Buffer::Kept));
    rmsprop.pre_update_params(code(0.02));
    assert_eq!(rmsprop.current_learning_rate, code(0.02));
    rmsprop.pre_update_params(code(0.01));
    assert_eq!(rmsprop.current_learning_rate, code(0.01));
    rmsprop.post_update_params();
    assert_eq!(rmsprop.iterations, 1);
    let mut untrained = Layer::new(2, 3, 1);
    assert_eq!(rmsprop.update_params(&mut untrained), Err(NetError::UnsetState));
}

#[test]
fn adam_makes_both_accumulators_and_counts_the_power() {
    let mut adam = default_adam();
    let mut layer = trained_layer(2, 3, 4);
    let first = adam.update_params(&mut layer).unwrap();
    assert_eq!(first, AdamStep { found: Buffer::Zeroed, exponent: 1 });
    assert_eq!(layer.accumulators(), Some(Variant::Adam));
    assert_eq!(layer.weight_momentums(), Ok(Shape { rows: 2, cols: 3 }));
    assert_eq!(layer.bias_momentums(), Ok(3));
    assert_eq!(layer.weight_cache(), Ok(Shape { rows: 2, cols: 3 }));
    assert_eq!(layer.bias_cache(), Ok(3));
    let again = adam.update_params(&mut layer).unwrap();
    assert_eq!(again, AdamStep { found: Buffer::Kept, exponent: 1 });
    adam.post_update_params();
    let second = adam.update_params(&mut layer).unwrap();
    assert_eq!(second, AdamStep { found: Buffer::Kept, exponent: 2 });
    assert_eq!(adam.iterations, 1);
}

#[test]
fn a_layer_belongs_to_the_variant_that_first_updated_it() {
    let sgd = SGD::new(code(1.0), code(0.0), code(0.9));
    let adagrad = AdaGrad::new(code(1.0), code(0.0), code(1e-7));
    let mut rmsprop = RMSProp::new(code(0.02), code(0.0), code(1e-7), code(0.999));
    let mut adam = default_adam();

    let mut layer = trained_layer(2, 3, 4);
    sgd.update_params(&mut layer).unwrap();
    assert_eq!(adagrad.update_params(&mut layer), Err(NetError::UnsetState));
    assert_eq!(rmsprop.update_params(&mut layer), Err(NetError::UnsetState));
    assert_eq!(adam.update_params(&mut layer), Err(NetError::UnsetState));
    assert_eq!(layer.accumulators(), Some(Variant::Sgd));
    assert_eq!(sgd.update_params(&mut layer), Ok(Buffer::Kept));

    let mut layer = trained_layer(2, 3, 4);
    adagrad.update_params(&mut layer).unwrap();
    assert_eq!(sgd.update_params(&mut layer), Err(NetError::UnsetState));
    assert_eq!(rmsprop.update_params(&mut layer), Err(NetError::UnsetState));
    assert_eq!(adam.update_params(&mut layer), Err(NetError::UnsetState));
    assert_eq!(layer.weight_momentums(), Err(NetError::UnsetState));
    assert_eq!(adagrad.update_params(&mut layer), Ok(Buffer::Kept));

    let mut layer = trained_layer(2, 3, 4);
    adam.update_params(&mut layer).unwrap();
    assert_eq!(sgd.update_params(&mut layer), Err(NetError::UnsetState));
    assert_eq!(adagrad.update_params(&mut layer), Err(NetError::UnsetState));
    assert_eq!(rmsprop.update_params(&mut layer), Err(NetError::UnsetState));
    assert_eq!(layer.accumulators(), Some(Variant::Adam));
}

#[test]
fn plain_descent_leaves_the_accumulators_of_any_variant() {
    let plain = SGD::new(code(1.0), code(0.0), code(0.0));
    let mut adam = default_adam();
    let mut layer = trained_layer(2, 3, 4);
    assert_eq!(plain.update_params(&mut layer), Ok(Buffer::Unused));
    adam.update_params(&mut layer).unwrap();
    assert_eq!(plain.update_params(&mut layer), Ok(Buffer::Unused));
    assert_eq!(layer.accumulators(), Some(Variant::Adam));
    let step = adam.update_params(&mut layer).unwrap();
    assert_eq!(step.found, Buffer::Kept);
}

#[test]
fn adam_update_needs_gradients() {
    let mut adam = default_adam();
    let mut untrained = Layer::new(2, 3, 1);
    assert_eq!(adam.update_params(&mut untrained), Err(NetError::UnsetState));
    assert_eq!(untrained.weight_cache(), Err(NetError::UnsetState));
    assert_eq!(untrained.accumulators(), None);
}

#[test]
fn adam_two_steps_from_zero_moments() {
    let mut adam = default_adam();
    let mut layer = trained_layer(1, 1, 1);
    let mut steps = Vec::new();
    for _ in 0..2 {
        adam.pre_update_params(code(123.0));
        steps.push(adam.update_params(&mut layer).unwrap());
        adam.post_update_params();
    }
    assert_eq!(steps[0], AdamStep { found: Buffer::Zeroed, exponent: 1 });
    assert_eq!(steps[1], AdamStep { found: Buffer::Kept, exponent: 2 });
    assert_eq!(adam.current_learning_rate, ADAM_LEARNING_RATE);
    assert_eq!(adam.iterations, 2);
}

#[test]
fn adam_exponent_is_one_more_than_the_iterations() {
    let mut adam = default_adam();
    let mut layer = trained_layer(1, 1, 1);
    for iterations in [0, 1, 9, 99, 1_000_000, i64::MAX - 1] {
        adam.iterations = iterations;
        let step = adam.update_params(&mut layer).unwrap();
        assert_eq!(step.exponent, iterations + 1);
        assert_eq!(adam.iterations, iterations);
    }
}

#[test]
fn adam_starts_from_its_named_hyperparameters() {
    let adam = Adam::new();
    assert_eq!(adam.learning_rate, ADAM_LEARNING_RATE);
    assert_eq!(adam.current_learning_rate, ADAM_LEARNING_RATE);
    assert_eq!(adam.decay, ADAM_DECAY);
    assert_eq!(adam.epsilon, ADAM_EPSILON);
    assert_eq!(adam.beta_1, ADAM_BETA_1);
    assert_eq!(adam.beta_2, ADAM_BETA_2);
    assert_eq!(adam.iterations, 0);
    assert_eq!(value(ADAM_LEARNING_RATE), 0.001);
    assert_eq!(value(ADAM_DECAY), 0.0);
    assert_eq!(value(ADAM_EPSILON), 1e-7);
    assert_eq!(value(ADAM_BETA_1), 0.9);
    assert_eq!(value(ADAM_BETA_2), 0.999);
}

#[test]
fn hyperparameters_are_found_by_name() {
    assert_eq!(hyperparameter(&"learning_rate".to_string()), Some(Hyperparameter::LearningRate));
    assert_eq!(hyperparameter(&"decay".to_string()), Some(Hyperparameter::Decay));
    assert_eq!(hyperparameter(&"epsilon".to_string()), Some(Hyperparameter::Epsilon));
    assert_eq!(hyperparameter(&"beta_1".to_string()), Some(Hyperparameter::Beta1));
    assert_eq!(hyperparameter(&"beta_2".to_string()), Some(Hyperparameter::Beta2));
    assert_eq!(hyperparameter(&"beta_3".to_string()), None);
    assert_eq!(hyperparameter(&"Decay".to_string()), None);
    assert_eq!(hyperparameter(&String::new()), None);
}

#[test]
fn set_hyperparams_sets_each_named_value() {
    let mut adam = default_adam();
    let result = adam.set_hyperparams(vec![
        ("learning_rate".to_string(), code(0.02)),
        ("decay".to_string(), code(1e-5)),
        ("epsilon".to_string(), code(1e-8)),
        ("beta_1".to_string(), code(0.8)),
        ("beta_2".to_string(), code(0.99)),
    ]);
    assert_eq!(result, Ok(()));
    let expected = Adam {
        learning_rate: code(0.02),
        current_learning_rate: ADAM_LEARNING_RATE,
        decay: code(1e-5),
        iterations: 0,
        epsilon: code(1e-8),
        beta_1: code(0.8),
        beta_2: code(0.99),
    };
    assert_eq!(adam, expected);
}

#[test]
fn set_hyperparams_takes_the_later_of_two_values() {
    let mut adam = default_adam();
    let result = adam.set_hyperparams(vec![
        ("decay".to_string(), code(0.5)),
        ("decay".to_string(), code(0.25)),
    ]);
    assert_eq!(result, Ok(()));
    assert_eq!(adam.decay, code(0.25));
    assert_eq!(adam.set_hyperparams(Vec::new()), Ok(()));
    assert_eq!(adam.decay, code(0.25));
}

#[test]
fn set_hyperparams_with_an_unknown_name_sets_nothing() {
    let mut adam = default_adam();
    let result = adam.set_hyperparams(vec![
        ("beta_1".to_string(), code(0.5)),
        ("momentum".to_string(), code(0.9)),
        ("decay".to_string(), code(0.1)),
    ]);
    assert_eq!(result, Err(NetError::UnknownHyperparameter));
    assert_eq!(adam, default_adam());
}
