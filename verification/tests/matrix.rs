use concurrency::{multiply, multiply_with, render_cells, Error, Matrix, NUM_THREADS};
use std::fmt;

/// A matrix for the formatting macros.
struct Shown<'a>(&'a Matrix<i32>);

impl fmt::Display for Shown<'_> {
    fn fmt(&self, f: &mut fmt::Formatter<'_>) -> fmt::Result {
        f.write_str(&self.0.to_string())
    }
}

impl fmt::Debug for Shown<'_> {
    fn fmt(&self, f: &mut fmt::Formatter<'_>) -> fmt::Result {
        f.write_str(&self.0.to_debug_string())
    }
}

#[test]
fn test_matrix_multiply() {
    let a = Matrix::new(vec![1, 2, 3, 4, 5, 6], 2, 3).unwrap();
    let b = Matrix::new(vec![1, 2, 3, 4, 5, 6], 3, 2).unwrap();
    let c = a * b;
    assert_eq!(c.col(), 2);
    assert_eq!(c.row(), 2);
    assert_eq!(*c.data(), vec![22, 28, 49, 64]);
    assert_eq!(c.to_debug_string(), "Matrix(row=2, col=2, {22 28, 49 64})");
    assert_eq!(format!("{:?}", Shown(&c)), "Matrix(row=2, col=2, {22 28, 49 64})");
}

#[test]
fn test_matrix_display() {
    let a = Matrix::new(vec![1, 2, 3, 4], 2, 2).unwrap();
    let b = Matrix::new(vec![1, 2, 3, 4], 2, 2).unwrap();
    let c = a * b;
    assert_eq!(*c.data(), vec![7, 10, 15, 22]);
    assert_eq!(c.to_string(), "{7 10, 15 22}");
    assert_eq!(format!("{}", Shown(&c)), "{7 10, 15 22}");
}

#[test]
fn test_a_can_not_multiply_b() {
    let a = Matrix::new(vec![1, 2, 3, 4, 5, 6], 2, 3).unwrap();
    let b = Matrix::new(vec![1, 2, 3, 4], 2, 2).unwrap();
    let c = multiply(&a, &b);
    assert!(c.is_err());
}

#[test]
#[should_panic]
fn test_a_can_not_multiply_b_panic() {
    let a = Matrix::new(vec![1, 2, 3, 4, 5, 6], 2, 3).unwrap();
    let b = Matrix::new(vec![1, 2, 3, 4], 2, 2).unwrap();
    let _c = a * b;
}

#[test]
fn multiply_reports_shape_mismatch() {
    let a = Matrix::new(vec![1, 2, 3, 4, 5, 6], 2, 3).unwrap();
    let b = Matrix::new(vec![1, 2, 3, 4], 2, 2).unwrap();
    assert_eq!(multiply(&a, &b).err(), Some(Error::ShapeMismatch));
    assert_eq!(multiply(&b, &a).map(|m| m.data().clone()), Ok(vec![9, 12, 15, 19, 26, 33]));
    let tall = Matrix::new(vec![0i64; 0], 5, 0).unwrap();
    let wide = Matrix::new(vec![0i64; 0], 0, 5).unwrap();
    assert_eq!(multiply(&wide, &wide).err(), Some(Error::ShapeMismatch));
    assert_eq!(multiply(&tall, &tall).err(), Some(Error::ShapeMismatch));
}

#[test]
fn multiply_two_by_three_with_three_by_two() {
    let a = Matrix::new(vec![1i64, 2, 3, 4, 5, 6], 2, 3).unwrap();
    let b = Matrix::new(vec![1i64, 2, 3, 4, 5, 6], 3, 2).unwrap();
    let c = multiply(&a, &b).unwrap();
    assert_eq!((c.row(), c.col()), (2, 2));
    assert_eq!(*c.data(), vec![22, 28, 49, 64]);
}

#[test]
fn multiply_square() {
    let a = Matrix::new(vec![1i64, 2, 3, 4], 2, 2).unwrap();
    let c = multiply(&a, &a).unwrap();
    assert_eq!(*c.data(), vec![7, 10, 15, 22]);
}

fn schoolbook(a: &[i64], b: &[i64], r: usize, k: usize, c: usize) -> Vec<i64> {
    let mut out = vec![0i64; r * c];
    for i in 0..r {
        for j in 0..c {
            for t in 0..k {
                out[i * c + j] += a[i * k + t] * b[t * c + j];
            }
        }
    }
    out
}

#[test]
fn multiply_matches_the_schoolbook_rule() {
    for (r, k, c) in [(1, 1, 1), (3, 4, 5), (5, 1, 7), (7, 3, 1), (4, 4, 4), (1, 6, 1)] {
        let a: Vec<i64> = (0..r * k).map(|x| (x as i64 * 7 + 3) % 11 - 5).collect();
        let b: Vec<i64> = (0..k * c).map(|x| (x as i64 * 5 + 1) % 13 - 6).collect();
        let expected = schoolbook(&a, &b, r, k, c);
        let ma = Matrix::new(a, r, k).unwrap();
        let mb = Matrix::new(b, k, c).unwrap();
        let product = multiply(&ma, &mb).unwrap();
        assert_eq!(product.row(), r);
        assert_eq!(product.col(), c);
        assert_eq!(*product.data(), expected);
    }
}

#[test]
fn multiply_twice_gives_the_same_matrix() {
    let a = Matrix::new(vec![2i32, -1, 0, 3, 5, 7, -4, 6, 1], 3, 3).unwrap();
    let b = Matrix::new(vec![1i32, 0, 2, -3, 4, 1], 3, 2).unwrap();
    let first = multiply(&a, &b).unwrap();
    let second = multiply(&a, &b).unwrap();
    assert_eq!(first.data(), second.data());
    assert_eq!(*first.data(), vec![0, 3, 41, -8, 12, -17]);
    assert_eq!((first.row(), first.col()), (second.row(), second.col()));
}

#[test]
fn multiply_does_not_depend_on_the_pool_size() {
    let a = Matrix::new((1..=12).collect::<Vec<i64>>(), 3, 4).unwrap();
    let b = Matrix::new((1..=20).collect::<Vec<i64>>(), 4, 5).unwrap();
    let expected = schoolbook(a.data(), b.data(), 3, 4, 5);
    assert_eq!(NUM_THREADS, 4);
    for workers in [1usize, 2, 3, 4, 5, 15, 16, 100] {
        let c = multiply_with(&a, &b, workers).unwrap();
        assert_eq!(*c.data(), expected);
        assert_eq!((c.row(), c.col()), (3, 5));
    }
}

#[test]
fn multiply_with_empty_operands() {
    let a = Matrix::new(Vec::<i32>::new(), 0, 3).unwrap();
    let b = Matrix::new(vec![1, 2, 3, 4, 5, 6], 3, 2).unwrap();
    let c = multiply(&a, &b).unwrap();
    assert_eq!((c.row(), c.col()), (0, 2));
    assert!(c.data().is_empty());
    let tall = Matrix::new(Vec::<i32>::new(), 2, 0).unwrap();
    let wide = Matrix::new(Vec::<i32>::new(), 0, 3).unwrap();
    let zeros = multiply(&tall, &wide).unwrap();
    assert_eq!((zeros.row(), zeros.col()), (2, 3));
    assert_eq!(*zeros.data(), vec![0; 6]);
}

#[test]
fn new_checks_the_buffer_length() {
    assert_eq!(Matrix::new(vec![1, 2, 3, 4, 5], 2, 3).err(), Some(Error::ShapeMismatch));
    assert_eq!(Matrix::new(vec![1, 2, 3, 4, 5, 6, 7], 2, 3).err(), Some(Error::ShapeMismatch));
    assert_eq!(Matrix::new(Vec::<u8>::new(), usize::MAX, 2).err(), Some(Error::ShapeMismatch));
    assert_eq!(Matrix::new(vec![1u8], 0, 0).err(), Some(Error::ShapeMismatch));
    let m = Matrix::new(vec![1, 2, 3, 4, 5, 6], 2, 3).unwrap();
    assert_eq!((m.row(), m.col()), (2, 3));
    assert_eq!(*m.data(), vec![1, 2, 3, 4, 5, 6]);
    assert!(Matrix::new(Vec::<u8>::new(), 0, 9).is_ok());
}

#[test]
fn rows_and_columns() {
    let m = Matrix::new(vec![1, 2, 3, 4, 5, 6], 2, 3).unwrap();
    assert_eq!(m.row_view(0), &[1, 2, 3]);
    assert_eq!(m.row_view(1), &[4, 5, 6]);
    assert_eq!(m.col_view(0), vec![1, 4]);
    assert_eq!(m.col_view(1), vec![2, 5]);
    assert_eq!(m.col_view(2), vec![3, 6]);
}

#[test]
fn text_of_a_matrix() {
    let m = Matrix::new(vec![1, 2, 3, 4, 5, 6], 2, 3).unwrap();
    assert_eq!(m.to_string(), "{1 2 3, 4 5 6}");
    assert_eq!(m.to_debug_string(), "Matrix(row=2, col=3, {1 2 3, 4 5 6})");
    let m = Matrix::new(vec![1, 2, 3, 4, 5, 6], 3, 2).unwrap();
    assert_eq!(m.to_string(), "{1 2, 3 4, 5 6}");
    let one = Matrix::new(vec![-7], 1, 1).unwrap();
    assert_eq!(one.to_string(), "{-7}");
    let none = Matrix::new(Vec::<i32>::new(), 0, 0).unwrap();
    assert_eq!(none.to_string(), "{}");
    assert_eq!(none.to_debug_string(), "Matrix(row=0, col=0, {})");
    let hollow = Matrix::new(Vec::<i32>::new(), 3, 0).unwrap();
    assert_eq!(hollow.to_string(), "{, , }");
}

#[test]
fn layout_of_cell_texts() {
    let cells: Vec<String> = ["a", "bc", "", "d", "e", "f"].iter().map(|s| s.to_string()).collect();
    assert_eq!(render_cells(&cells, 2, 3), "{a bc , d e f}");
    assert_eq!(render_cells(&cells, 3, 2), "{a bc,  d, e f}");
    assert_eq!(render_cells(&cells, 1, 6), "{a bc  d e f}");
    assert_eq!(render_cells(&cells, 6, 1), "{a, bc, , d, e, f}");
    assert_eq!(render_cells(&Vec::new(), 0, 4), "{}");
}
