use concurrency::dot_product;
use concurrency::dot_product_vec;
use concurrency::matrix::assign_worker;
use concurrency::matrix::build_tasks;
use concurrency::matrix::validate_shapes;
use concurrency::multiply;
use concurrency::DotProductError;
use concurrency::Matrix;
use concurrency::MultiplyError;
use concurrency::Operand;
use concurrency::Vector;

#[test]
fn test_matrix_display() {
    let m = Matrix::new(2, 3, vec![1, 2, 3, 4, 5, 6]);
    assert_eq!(m.display(), "{1 2 3, 4 5 6}");
}

#[test]
fn test_matrix_debug() {
    let m = Matrix::new(2, 3, vec![1, 2, 3, 4, 5, 6]);
    assert_eq!(m.debug(), "Matrix(row=2,col=3,data={1 2 3, 4 5 6})");
}

#[test]
fn test_a_multiply_b() {
    let a = Matrix::new(2, 3, vec![1, 2, 3, 4, 5, 6]);
    let b = Matrix::new(3, 2, vec![1, 2, 3, 4, 5, 6]);
    let c = multiply(&a, &b).unwrap();
    assert_eq!(c.data, vec![22, 28, 49, 64]);
}

#[test]
fn test_a_can_not_multiply_b() {
    let a = Matrix::new(2, 3, vec![1, 2, 3, 4, 5, 6]);
    let b = Matrix::new(2, 2, vec![1, 2, 3, 4]);
    let result = multiply(&a, &b);
    assert!(result.is_err());
    let err = result.unwrap_err();
    assert_eq!(err.message(), "Matrix multiply error: a.col != b.row");
}

#[test]
fn multiply_result_shape_and_values() {
    let a = Matrix::new(2, 2, vec![1, 2, 3, 4]);
    let b = Matrix::new(2, 2, vec![5, 6, 7, 8]);
    let c = multiply(&a, &b).unwrap();
    assert_eq!(c.row, 2);
    assert_eq!(c.col, 2);
    assert_eq!(c.data, vec![19, 22, 43, 50]);
}

#[test]
fn multiply_single_cell() {
    let a = Matrix::new(1, 3, vec![2, 3, 4]);
    let b = Matrix::new(3, 1, vec![5, 6, 7]);
    let c = multiply(&a, &b).unwrap();
    assert_eq!(c.row, 1);
    assert_eq!(c.col, 1);
    assert_eq!(c.data, vec![2 * 5 + 3 * 6 + 4 * 7]);
}

#[test]
fn multiply_rejects_empty_a_whatever_b_is() {
    let a = Matrix::new(0, 3, vec![]);
    let b = Matrix::new(3, 2, vec![1, 2, 3, 4, 5, 6]);
    let err = multiply(&a, &b).unwrap_err();
    assert_eq!(
        err,
        MultiplyError::InvalidShape {
            which: Operand::A,
            row: 0,
            col: 3
        }
    );
    assert_eq!(err.message(), "Matrix multiply error: a.col=3, a.row=0");

    let a = Matrix::new(2, 0, vec![]);
    let b = Matrix::new(0, 0, vec![]);
    let err = multiply(&a, &b).unwrap_err();
    assert_eq!(err.message(), "Matrix multiply error: a.col=0, a.row=2");
}

#[test]
fn multiply_rejects_empty_b() {
    let a = Matrix::new(2, 3, vec![1, 2, 3, 4, 5, 6]);
    let b = Matrix::new(3, 0, vec![]);
    let err = multiply(&a, &b).unwrap_err();
    assert_eq!(
        err,
        MultiplyError::InvalidShape {
            which: Operand::B,
            row: 3,
            col: 0
        }
    );
    assert_eq!(err.message(), "Matrix multiply error: b.col=0, b.row=3");
}

#[test]
fn multiply_incompatible_exactly_when_inner_dimensions_differ() {
    for (n, m) in [(1usize, 2usize), (2, 3), (3, 3), (4, 2)] {
        let a = Matrix::new(2, n, vec![1; 2 * n]);
        let b = Matrix::new(m, 2, vec![1; m * 2]);
        let result = multiply(&a, &b);
        if n == m {
            assert!(result.is_ok());
        } else {
            assert_eq!(result.unwrap_err(), MultiplyError::IncompatibleShapes);
        }
    }
}

#[test]
fn multiply_is_deterministic() {
    let a = Matrix::new(3, 3, vec![1, -2, 3, 4, -5, 6, 7, 8, -9]);
    let b = Matrix::new(3, 3, vec![9, 8, 7, 6, 5, 4, 3, 2, 1]);
    let c1 = multiply(&a, &b).unwrap();
    let c2 = multiply(&a, &b).unwrap();
    assert_eq!(c1.data, c2.data);
    assert_eq!(c1.row, c2.row);
    assert_eq!(c1.col, c2.col);
}

fn reference_multiply(a: &Matrix<i64>, b: &Matrix<i64>) -> Vec<i64> {
    let mut data = vec![0i64; a.row * b.col];
    for i in 0..a.row {
        for j in 0..b.col {
            for k in 0..a.col {
                data[i * b.col + j] += a.data[i * a.col + k] * b.data[k * b.col + j];
            }
        }
    }
    data
}

#[test]
fn multiply_matches_sequential_reference_on_random_inputs() {
    for (m, n, p) in [
        (1usize, 1usize, 1usize),
        (2, 3, 2),
        (5, 4, 7),
        (10, 10, 10),
        (33, 17, 9),
        (100, 100, 100),
    ] {
        let a_data: Vec<i64> = (0..m * n).map(|_| rand::random_range(-50..50)).collect();
        let b_data: Vec<i64> = (0..n * p).map(|_| rand::random_range(-50..50)).collect();
        let a = Matrix::new(m, n, a_data);
        let b = Matrix::new(n, p, b_data);
        let c = multiply(&a, &b).unwrap();
        assert_eq!(c.row, m);
        assert_eq!(c.col, p);
        assert_eq!(c.data, reference_multiply(&a, &b));
    }
}

#[test]
fn display_of_single_cell_and_negative_values() {
    let m = Matrix::new(1, 1, vec![5]);
    assert_eq!(m.display(), "{5}");
    let m = Matrix::new(2, 2, vec![-1, 0, 10, -23]);
    assert_eq!(m.display(), "{-1 0, 10 -23}");
}

#[test]
fn validate_shapes_order_of_failures() {
    let empty = Matrix::new(0, 0, vec![]);
    let ok = Matrix::new(2, 2, vec![1, 2, 3, 4]);
    assert!(validate_shapes(&ok, &ok).is_ok());
    let err = validate_shapes(&empty, &empty).unwrap_err();
    assert_eq!(err.message(), "Matrix multiply error: a.col=0, a.row=0");
}

#[test]
fn assign_worker_is_modulo() {
    assert_eq!(assign_worker(0, 4), 0);
    assert_eq!(assign_worker(7, 4), 3);
    assert_eq!(assign_worker(8, 4), 0);
}

#[test]
fn build_tasks_one_per_cell() {
    let a = Matrix::new(2, 3, vec![1, 2, 3, 4, 5, 6]);
    let b = Matrix::new(3, 2, vec![1, 2, 3, 4, 5, 6]);
    let tasks = build_tasks(&a, &b);
    assert_eq!(tasks.len(), 4);
    assert_eq!(tasks[3].idx, 3);
    assert_eq!(tasks[3].row, vec![4, 5, 6]);
    assert_eq!(tasks[3].col, vec![2, 4, 6]);
}

#[test]
fn compute_failed_and_worker_failure_messages() {
    let err = MultiplyError::ComputeFailed {
        cause: DotProductError::LengthMismatch,
    };
    assert_eq!(
        err.message(),
        "Matrix multiply error: compute failed: Dot product error: a.len != b.len"
    );
    assert_eq!(
        MultiplyError::WorkerFailure.message(),
        "Matrix multiply error: worker failure"
    );
}

#[test]
fn dot_product_exact_value() {
    let a = Vector::new(vec![1, 2, 3]);
    let b = Vector::new(vec![4, 5, 6]);
    assert_eq!(dot_product(a, b).unwrap(), 32);
}

#[test]
fn dot_product_length_mismatch() {
    let a = Vector::new(vec![1, 2, 3]);
    let b = Vector::new(vec![4, 5]);
    let err = dot_product(a, b).unwrap_err();
    assert_eq!(err, DotProductError::LengthMismatch);
    assert_eq!(err.message(), "Dot product error: a.len != b.len");
}

#[test]
fn dot_product_vec_matches_dot_product() {
    assert_eq!(dot_product_vec(vec![2, -3], vec![10, 1]).unwrap(), 17);
    assert_eq!(
        dot_product_vec(vec![1], vec![]).unwrap_err(),
        DotProductError::LengthMismatch
    );
}
