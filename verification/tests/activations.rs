use nnet::activations::{ReLU, Softmax};
use nnet::tensor::Matrix;
use nnet::scalar::{bits_of_code, code_of_bits, NEG_INFINITY};
use nnet::{NetError, Shape};

fn code(x: f64) -> i64 {
    code_of_bits(x.to_bits())
}

fn value(c: i64) -> f64 {
    f64::from_bits(bits_of_code(c))
}

fn coded(rows: &[Vec<f64>], cols: usize) -> Matrix {
    let rows = rows.iter().map(|r| r.iter().map(|x| code(*x)).collect()).collect();
    Matrix::from_rows(rows, cols).unwrap()
}

fn values(m: &Matrix) -> Vec<Vec<f64>> {
    m.to_rows().iter().map(|r| r.iter().map(|c| value(*c)).collect()).collect()
}

#[test]
fn relu_before_any_pass_is_unset() {
    let mut relu = ReLU::new();
    assert!(matches!(relu.outputs(), Err(NetError::UnsetState)));
    assert!(matches!(relu.dinputs(), Err(NetError::UnsetState)));
    let d = coded(&[vec![1.0]], 1);
    assert_eq!(relu.backward(&d), Err(NetError::UnsetState));
    assert!(matches!(relu.dinputs(), Err(NetError::UnsetState)));
}

#[test]
fn relu_forward_is_the_greater_of_zero_and_input() {
    let mut relu = ReLU::new();
    let x = coded(&[vec![-1.5, 0.0, 2.0], vec![3.25, -0.0, -1e-12]], 3);
    relu.forward(&x);
    assert_eq!(
        values(relu.outputs().unwrap()),
        vec![vec![0.0, 0.0, 2.0], vec![3.25, 0.0, 0.0]]
    );
    assert_eq!(relu.inputs.as_ref().unwrap().to_rows(), x.to_rows());
    assert!(matches!(relu.dinputs(), Err(NetError::UnsetState)));
}

#[test]
fn relu_backward_zeroes_where_the_output_is_not_positive() {
    let mut relu = ReLU::new();
    relu.forward(&coded(&[vec![-1.5, 0.0, 2.0], vec![3.25, -0.0, 1e-12]], 3));
    let d = coded(&[vec![10.0, 20.0, 30.0], vec![-4.0, -5.0, -6.0]], 3);
    assert_eq!(relu.backward(&d), Ok(()));
    assert_eq!(
        values(relu.dinputs().unwrap()),
        vec![vec![0.0, 0.0, 30.0], vec![-4.0, 0.0, -6.0]]
    );
    assert_eq!(values(&d), vec![vec![10.0, 20.0, 30.0], vec![-4.0, -5.0, -6.0]]);
}

#[test]
fn relu_gradient_at_zero_is_zero() {
    let mut relu = ReLU::new();
    relu.forward(&coded(&[vec![0.0]], 1));
    relu.backward(&coded(&[vec![7.0]], 1)).unwrap();
    assert_eq!(values(relu.dinputs().unwrap()), vec![vec![0.0]]);
}

#[test]
fn relu_backward_broadcasts_a_single_row_or_column() {
    let mut relu = ReLU::new();
    relu.forward(&coded(&[vec![1.0, -1.0]], 2));
    let d = coded(&[vec![1.0, 2.0], vec![3.0, 4.0], vec![5.0, 6.0]], 2);
    assert_eq!(relu.backward(&d), Ok(()));
    assert_eq!(
        values(relu.dinputs().unwrap()),
        vec![vec![1.0, 0.0], vec![3.0, 0.0], vec![5.0, 0.0]]
    );
    relu.forward(&coded(&[vec![-1.0], vec![1.0], vec![0.0]], 1));
    assert_eq!(relu.backward(&d), Ok(()));
    assert_eq!(
        values(relu.dinputs().unwrap()),
        vec![vec![0.0, 0.0], vec![3.0, 4.0], vec![0.0, 0.0]]
    );
}

#[test]
fn relu_backward_refuses_shapes_that_do_not_broadcast() {
    let mut relu = ReLU::new();
    relu.forward(&coded(&[vec![1.0, 2.0], vec![3.0, 4.0]], 2));
    let d = coded(&[vec![1.0, 2.0, 3.0], vec![4.0, 5.0, 6.0]], 3);
    assert_eq!(relu.backward(&d), Err(NetError::DimensionMismatch));
    let d = coded(&[vec![1.0, 2.0]], 2);
    assert_eq!(relu.backward(&d), Err(NetError::DimensionMismatch));
    assert!(matches!(relu.dinputs(), Err(NetError::UnsetState)));
}

#[test]
fn softmax_pivot_is_the_row_maximum() {
    let mut unit = Softmax::new();
    let x = coded(&[vec![1.0, 3.0, 2.0], vec![-5.0, -7.0, -6.0], vec![0.0, 0.0, 0.0]], 3);
    let pivots = unit.forward(&x);
    let pivots: Vec<f64> = pivots.iter().map(|p| value(*p)).collect();
    assert_eq!(pivots, vec![3.0, -5.0, 0.0]);
    assert_eq!(unit.inputs, Some(Shape { rows: 3, cols: 3 }));
    assert_eq!(unit.outputs(), Ok(Shape { rows: 3, cols: 3 }));
    assert_eq!(unit.dinputs, None);
}

#[test]
fn softmax_pivot_of_equal_inputs() {
    let mut unit = Softmax::new();
    let pivots = unit.forward(&coded(&[vec![1.0, 1.0, 1.0]], 3));
    assert_eq!(pivots, vec![code(1.0)]);
    assert_eq!(unit.outputs(), Ok(Shape { rows: 1, cols: 3 }));
}

#[test]
fn softmax_pivot_is_reached_and_not_passed() {
    let mut unit = Softmax::new();
    let inputs = vec![vec![1000.0, 1001.0, 999.0], vec![-1e6, 0.0, 1e6], vec![0.5, -0.5, 0.25]];
    let pivots = unit.forward(&coded(&inputs, 3));
    assert_eq!(pivots, vec![code(1001.0), code(1e6), code(0.5)]);
    for (row, pivot) in inputs.iter().zip(&pivots) {
        assert!(row.iter().all(|x| code(*x) <= *pivot));
        assert!(row.iter().any(|x| code(*x) == *pivot));
    }
}

#[test]
fn softmax_pivot_of_a_row_without_entries() {
    let mut unit = Softmax::new();
    let pivots = unit.forward(&Matrix::from_rows(vec![vec![], vec![]], 0).unwrap());
    assert_eq!(pivots, vec![NEG_INFINITY, NEG_INFINITY]);
    assert_eq!(value(pivots[0]), f64::NEG_INFINITY);
    assert_eq!(unit.outputs(), Ok(Shape { rows: 2, cols: 0 }));
}

#[test]
fn softmax_pivot_passes_over_what_is_not_a_number() {
    let mut unit = Softmax::new();
    let x = coded(&[vec![f64::NAN, -2.0, -3.0], vec![f64::NAN, f64::NAN, f64::NAN]], 3);
    let pivots: Vec<f64> = unit.forward(&x).iter().map(|p| value(*p)).collect();
    assert_eq!(pivots, vec![-2.0, f64::NEG_INFINITY]);
}

#[test]
fn relu_of_what_is_not_a_number_is_zero() {
    let mut relu = ReLU::new();
    relu.forward(&coded(&[vec![f64::NAN, f64::INFINITY, f64::NEG_INFINITY]], 3));
    assert_eq!(values(relu.outputs().unwrap()), vec![vec![0.0, f64::INFINITY, 0.0]]);
}

#[test]
fn relu_backward_keeps_a_gradient_that_is_not_a_number() {
    let mut relu = ReLU::new();
    relu.forward(&coded(&[vec![1.0, -1.0]], 2));
    relu.backward(&coded(&[vec![f64::NAN, f64::NAN]], 2)).unwrap();
    let gradient = values(relu.dinputs().unwrap());
    assert!(gradient[0][0].is_nan());
    assert_eq!(gradient[0][1], 0.0);
}

#[test]
fn softmax_outputs_before_forward_is_unset() {
    let mut unit = Softmax::new();
    assert_eq!(unit.outputs(), Err(NetError::UnsetState));
    assert_eq!(unit.backward(Shape { rows: 1, cols: 3 }), Err(NetError::UnsetState));
    assert_eq!(unit.dinputs, None);
}

#[test]
fn softmax_backward_takes_the_shape_of_the_gradient() {
    let mut unit = Softmax::new();
    unit.forward(&coded(&[vec![1.0, 2.0, 3.0], vec![4.0, 5.0, 6.0]], 3));
    assert_eq!(unit.backward(Shape { rows: 2, cols: 3 }), Ok(()));
    assert_eq!(unit.dinputs, Some(Shape { rows: 2, cols: 3 }));
    assert_eq!(unit.backward(Shape { rows: 5, cols: 3 }), Ok(()));
    assert_eq!(unit.dinputs, Some(Shape { rows: 5, cols: 3 }));
    assert_eq!(unit.backward(Shape { rows: 0, cols: 7 }), Ok(()));
    assert_eq!(unit.dinputs, Some(Shape { rows: 0, cols: 7 }));
}

#[test]
fn softmax_backward_refuses_rows_of_another_length() {
    let mut unit = Softmax::new();
    unit.forward(&coded(&[vec![1.0, 2.0, 3.0], vec![4.0, 5.0, 6.0]], 3));
    assert_eq!(unit.backward(Shape { rows: 2, cols: 4 }), Err(NetError::DimensionMismatch));
    assert_eq!(unit.dinputs, None);
}
