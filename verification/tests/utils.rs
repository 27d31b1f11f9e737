use nnet::tensor::{Matrix, OneHotLabels, SparseLabels};
use nnet::utils::{
    accuracy, clip, diagflat, predicted_classes, to_one_hot, to_sparse, Accuracy,
};
use nnet::scalar::{bits_of_code, code_of_bits};
use nnet::NetError;

fn code(x: f64) -> i64 {
    code_of_bits(x.to_bits())
}

fn value(c: i64) -> f64 {
    f64::from_bits(bits_of_code(c))
}

fn coded(rows: &[Vec<f64>], cols: usize) -> Matrix {
    let rows = rows.iter().map(|r| r.iter().map(|x| code(*x)).collect()).collect();
    Matrix::from_rows(rows, cols).unwrap()
}

fn values(m: &Matrix) -> Vec<Vec<f64>> {
    m.to_rows().iter().map(|r| r.iter().map(|c| value(*c)).collect()).collect()
}

#[test]
fn clip_brings_codes_into_the_interval() {
    let a = coded(&[vec![0.0, 0.5, 1.0], vec![-3.0, 1e-9, 2.0]], 3);
    let eps = 1e-7;
    let clipped = clip(&a, code(eps), code(1.0 - eps));
    assert_eq!(
        values(&clipped),
        vec![vec![eps, 0.5, 1.0 - eps], vec![eps, eps, 1.0 - eps]]
    );
    for row in clipped.to_rows() {
        for c in row {
            assert!(code(eps) <= c && c <= code(1.0 - eps));
        }
    }
}

#[test]
fn clip_leaves_the_argument_alone() {
    let a = coded(&[vec![-1.0, 4.0]], 2);
    let clipped = clip(&a, code(0.0), code(1.0));
    assert_eq!(values(&a), vec![vec![-1.0, 4.0]]);
    assert_eq!(values(&clipped), vec![vec![0.0, 1.0]]);
}

#[test]
fn clip_keeps_what_is_not_a_number() {
    let a = coded(&[vec![f64::NAN, f64::INFINITY, f64::NEG_INFINITY]], 3);
    let clipped = values(&clip(&a, code(0.25), code(0.75)));
    assert!(clipped[0][0].is_nan());
    assert_eq!(clipped[0][1..], [0.75, 0.25]);
    assert_eq!(f64::NAN.clamp(0.25, 0.75).is_nan(), clipped[0][0].is_nan());
}

#[test]
fn clip_to_a_single_code() {
    let a = Matrix::from_rows(vec![vec![-5, 0, 9]], 3).unwrap();
    assert_eq!(clip(&a, 3, 3).to_rows(), vec![vec![3, 3, 3]]);
}

#[test]
fn to_sparse_takes_the_first_one_of_each_row() {
    let one_hot =
        OneHotLabels::from_rows(vec![vec![0, 0, 1], vec![1, 0, 0], vec![0, 1, 1]], 3).unwrap();
    assert_eq!(to_sparse(&one_hot).unwrap().to_vec(), vec![2, 0, 1]);
}

#[test]
fn to_sparse_counts_only_ones() {
    let one_hot = OneHotLabels::from_rows(vec![vec![2, 1, 0], vec![7, 0, 1]], 3).unwrap();
    assert_eq!(to_sparse(&one_hot).unwrap().to_vec(), vec![1, 2]);
}

#[test]
fn to_sparse_refuses_a_row_without_a_one() {
    let one_hot = OneHotLabels::from_rows(vec![vec![0, 1], vec![0, 0]], 2).unwrap();
    assert!(matches!(to_sparse(&one_hot), Err(NetError::NoTarget)));
    let no_columns = OneHotLabels::from_rows(vec![vec![]], 0).unwrap();
    assert!(matches!(to_sparse(&no_columns), Err(NetError::NoTarget)));
}

#[test]
fn to_sparse_of_no_rows_is_empty() {
    let one_hot = OneHotLabels::from_rows(Vec::new(), 3).unwrap();
    assert_eq!(to_sparse(&one_hot).unwrap().to_vec(), Vec::<usize>::new());
}

#[test]
fn to_one_hot_sets_the_column_of_each_label() {
    let one_hot = to_one_hot(SparseLabels::new(vec![1, 0, 2]), 3).unwrap();
    assert_eq!(one_hot.to_rows(), vec![vec![0, 1, 0], vec![1, 0, 0], vec![0, 0, 1]]);
}

#[test]
fn to_one_hot_gives_zeros_for_a_label_without_a_column() {
    let one_hot = to_one_hot(SparseLabels::new(vec![5, 1]), 2).unwrap();
    assert_eq!(one_hot.to_rows(), vec![vec![0, 0], vec![0, 1]]);
}

#[test]
fn to_one_hot_keeps_the_width_without_labels() {
    let one_hot = to_one_hot(SparseLabels::new(Vec::new()), 4).unwrap();
    assert_eq!(one_hot.shape().rows, 0);
    assert_eq!(one_hot.shape().cols, 4);
}

#[test]
fn to_one_hot_refuses_more_entries_than_an_array_holds() {
    let made = to_one_hot(SparseLabels::new(vec![0, 1]), usize::MAX / 2);
    assert!(matches!(made, Err(NetError::DimensionMismatch)));
    let made = to_one_hot(SparseLabels::new(Vec::new()), usize::MAX);
    assert!(matches!(made, Err(NetError::DimensionMismatch)));
}

#[test]
fn one_hot_and_back_gives_the_labels() {
    let labels = vec![3, 0, 0, 2, 1, 3];
    let one_hot = to_one_hot(SparseLabels::new(labels.clone()), 4).unwrap();
    assert_eq!(to_sparse(&one_hot).unwrap().to_vec(), labels);
}

#[test]
fn predicted_class_is_the_first_of_equal_maxima() {
    let y_pred = coded(
        &[
            vec![0.5, 0.5, 0.0],
            vec![0.1, 0.45, 0.45],
            vec![1.0 / 3.0, 1.0 / 3.0, 1.0 / 3.0],
            vec![0.2, 0.3, 0.5],
        ],
        3,
    );
    assert_eq!(predicted_classes(&y_pred).unwrap().to_vec(), vec![0, 1, 0, 2]);
}

#[test]
fn predicted_class_of_negative_scores() {
    let y_pred = coded(&[vec![-3.0, -1.0, -2.0], vec![-0.0, 0.0, -1.0]], 3);
    assert_eq!(predicted_classes(&y_pred).unwrap().to_vec(), vec![1, 0]);
}

#[test]
fn accuracy_tie_break_takes_the_lowest_column() {
    let y_pred = coded(&[vec![0.4, 0.4, 0.2], vec![0.4, 0.4, 0.2]], 3);
    let first = accuracy(&y_pred, &SparseLabels::new(vec![0, 0])).unwrap();
    assert_eq!(first, Accuracy { correct: 2, samples: 2 });
    let second = accuracy(&y_pred, &SparseLabels::new(vec![1, 1])).unwrap();
    assert_eq!(second, Accuracy { correct: 0, samples: 2 });
}

#[test]
fn accuracy_counts_the_matching_samples() {
    let y_pred = coded(
        &[vec![0.7, 0.2, 0.1], vec![0.1, 0.8, 0.1], vec![0.3, 0.3, 0.4], vec![0.9, 0.05, 0.05]],
        3,
    );
    let found = accuracy(&y_pred, &SparseLabels::new(vec![0, 1, 1, 0])).unwrap();
    assert_eq!(found, Accuracy { correct: 3, samples: 4 });
}

#[test]
fn accuracy_pairs_as_far_as_both_reach() {
    let y_pred = coded(&[vec![0.9, 0.1], vec![0.2, 0.8], vec![0.6, 0.4]], 2);
    let fewer_labels = accuracy(&y_pred, &SparseLabels::new(vec![0, 1])).unwrap();
    assert_eq!(fewer_labels, Accuracy { correct: 2, samples: 2 });
    let more_labels = accuracy(&y_pred, &SparseLabels::new(vec![0, 1, 0, 1, 1])).unwrap();
    assert_eq!(more_labels, Accuracy { correct: 3, samples: 5 });
}

#[test]
fn accuracy_needs_a_column_to_predict() {
    let y_pred = Matrix::from_rows(vec![vec![], vec![]], 0).unwrap();
    let found = accuracy(&y_pred, &SparseLabels::new(vec![0, 0]));
    assert!(matches!(found, Err(NetError::NoTarget)));
    assert!(matches!(predicted_classes(&y_pred), Err(NetError::NoTarget)));
}

#[test]
fn predicted_class_passes_over_what_is_not_a_number() {
    let y_pred = coded(
        &[
            vec![f64::NAN, 0.3, f64::NAN],
            vec![f64::NAN, f64::NEG_INFINITY, f64::NEG_INFINITY],
            vec![0.1, f64::NAN, f64::INFINITY],
        ],
        3,
    );
    assert_eq!(predicted_classes(&y_pred).unwrap().to_vec(), vec![1, 1, 2]);
}

#[test]
fn a_row_without_a_number_has_no_predicted_class() {
    let y_pred = coded(&[vec![0.5, 0.5], vec![f64::NAN, f64::NAN]], 2);
    assert!(matches!(predicted_classes(&y_pred), Err(NetError::NoTarget)));
    let found = accuracy(&y_pred, &SparseLabels::new(vec![0]));
    assert!(matches!(found, Err(NetError::NoTarget)));
}

#[test]
fn accuracy_of_nothing() {
    let y_pred = Matrix::from_rows(Vec::new(), 3).unwrap();
    let found = accuracy(&y_pred, &SparseLabels::new(Vec::new())).unwrap();
    assert_eq!(found, Accuracy { correct: 0, samples: 0 });
}

fn identity_times(a: &[Vec<f64>], rows: usize, cols: usize) -> Vec<Vec<i64>> {
    let n = a.len();
    let mut product = vec![vec![0; cols]; rows];
    for i in 0..rows {
        for j in 0..cols {
            let unit = if (if n == 1 { 0 } else { j }) == i { 1.0 } else { 0.0 };
            let x = a[i][if a[i].len() == 1 { 0 } else { j }];
            product[i][j] = code(unit * x);
        }
    }
    product
}

#[test]
fn diagflat_lays_a_column_along_the_diagonal() {
    let column = vec![vec![0.2], vec![0.3], vec![0.5]];
    let d = diagflat(&coded(&column, 1)).unwrap();
    assert_eq!(values(&d), vec![vec![0.2, 0.0, 0.0], vec![0.0, 0.3, 0.0], vec![0.0, 0.0, 0.5]]);
    assert_eq!(d.to_rows(), identity_times(&column, 3, 3));
}

#[test]
fn diagflat_is_the_product_with_the_identity() {
    let column = vec![vec![-2.5], vec![0.0], vec![f64::INFINITY], vec![f64::NAN], vec![5e-324]];
    let d = diagflat(&coded(&column, 1)).unwrap();
    assert_eq!(d.to_rows(), identity_times(&column, 5, 5));
    let off_diagonal = values(&d);
    assert!(off_diagonal[2][0].is_nan() && off_diagonal[3][1].is_nan());
    assert_eq!(off_diagonal[2][2], f64::INFINITY);
    assert_eq!(off_diagonal[0][1], 0.0);

    let square = vec![vec![1.0, 2.0], vec![3.0, f64::NEG_INFINITY]];
    let d = diagflat(&coded(&square, 2)).unwrap();
    assert_eq!(d.to_rows(), identity_times(&square, 2, 2));

    let single = vec![vec![7.0, -8.0, 9.0]];
    let d = diagflat(&coded(&single, 3)).unwrap();
    assert_eq!(values(&d), single);
    assert_eq!(d.to_rows(), identity_times(&single, 1, 3));
}

#[test]
fn diagflat_refuses_a_shape_that_the_identity_does_not_meet() {
    let wide = coded(&[vec![1.0, 2.0, 3.0], vec![4.0, 5.0, 6.0]], 3);
    assert!(matches!(diagflat(&wide), Err(NetError::DimensionMismatch)));
}

#[test]
fn diagflat_of_no_rows_is_empty() {
    let empty = Matrix::from_rows(Vec::new(), 1).unwrap();
    let d = diagflat(&empty).unwrap();
    assert_eq!((d.shape().rows, d.shape().cols), (0, 0));
    let refused = Matrix::from_rows(Vec::new(), 2).unwrap();
    assert!(matches!(diagflat(&refused), Err(NetError::DimensionMismatch)));
}
