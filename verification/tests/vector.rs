use concurrency::{dot_product, Error, Vector};

#[test]
fn dot_product_of_equal_lengths() {
    let a = Vector::new(vec![1, 2, 3]);
    let b = Vector::new(vec![4, 5, 6]);
    assert_eq!(dot_product(a, b), Ok(32));
}

#[test]
fn dot_product_of_empty_vectors_is_the_default() {
    let a: Vector<i64> = Vector::new(vec![]);
    let b: Vector<i64> = Vector::new(vec![]);
    assert_eq!(dot_product(a, b), Ok(0));
}

#[test]
fn dot_product_with_negative_entries() {
    let a = Vector::new(vec![-1i64, 2, -3, 4]);
    let b = Vector::new(vec![5i64, -6, 7, 8]);
    assert_eq!(dot_product(a, b), Ok(-5 - 12 - 21 + 32));
}

#[test]
fn dot_product_refuses_different_lengths() {
    let a = Vector::new(vec![1, 2, 3]);
    let b = Vector::new(vec![4, 5]);
    assert_eq!(dot_product(a, b), Err(Error::LengthMismatch));
    let a = Vector::new(vec![1]);
    let b: Vector<i32> = Vector::new(vec![]);
    assert_eq!(dot_product(a, b), Err(Error::LengthMismatch));
}

#[test]
fn dot_product_commutes_for_integers() {
    let x = vec![3u64, 1, 4, 1, 5, 9, 2, 6];
    let y = vec![2u64, 7, 1, 8, 2, 8, 1, 8];
    let forth = dot_product(Vector::new(x.clone()), Vector::new(y.clone()));
    let back = dot_product(Vector::new(y), Vector::new(x));
    assert_eq!(forth, Ok(6 + 7 + 4 + 8 + 10 + 72 + 2 + 48));
    assert_eq!(forth, back);
}

#[test]
fn dot_product_takes_floats() {
    let a = Vector::new(vec![0.5f64, 2.0]);
    let b = Vector::new(vec![4.0f64, 0.25]);
    assert_eq!(dot_product(a, b), Ok(2.5));
}

#[test]
fn vector_reads_as_the_vec_it_wraps() {
    let v = Vector::new(vec![7u8, 8, 9]);
    assert_eq!(v.len(), 3);
    assert_eq!(v[0], 7);
    assert_eq!(v[2], 9);
    assert_eq!(*v, vec![7u8, 8, 9]);
}

#[test]
fn error_messages() {
    assert_eq!(Error::LengthMismatch.message(), "Dot product error: a.len != b.len");
    assert_eq!(Error::ShapeMismatch.message(), "Matrix multiply error: a.col != b.row");
    assert_eq!(Error::ChannelClosed.message(), "Send error: channel closed");
}

/// A two by two matrix of integers: an element type whose product depends
/// on the order of its factors.
#[derive(Clone, Copy, Debug, Default, PartialEq)]
struct Square([i64; 4]);

impl std::ops::Add for Square {
    type Output = Square;

    fn add(self, other: Square) -> Square {
        let (x, y) = (self.0, other.0);
        Square([x[0] + y[0], x[1] + y[1], x[2] + y[2], x[3] + y[3]])
    }
}

impl std::ops::Mul for Square {
    type Output = Square;

    fn mul(self, other: Square) -> Square {
        let (x, y) = (self.0, other.0);
        Square([
            x[0] * y[0] + x[1] * y[2],
            x[0] * y[1] + x[1] * y[3],
            x[2] * y[0] + x[3] * y[2],
            x[2] * y[1] + x[3] * y[3],
        ])
    }
}

#[test]
fn dot_product_follows_the_order_of_the_factors() {
    let p = Square([1, 1, 0, 1]);
    let q = Square([1, 0, 1, 1]);
    let forth = dot_product(Vector::new(vec![p]), Vector::new(vec![q]));
    let back = dot_product(Vector::new(vec![q]), Vector::new(vec![p]));
    assert_eq!(forth, Ok(Square([2, 1, 1, 1])));
    assert_eq!(back, Ok(Square([1, 1, 1, 2])));
    assert_ne!(forth, back);
}
