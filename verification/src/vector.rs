use crate::error::Error;
use std::ops::{Add, Deref, Mul};
use vstd::prelude::*;
use vstd::std_specs::ops::{AddSpec, MulSpec};

verus! {

/// An owned sequence of elements, the operand of a reduction.
pub struct Vector<T> {
    data: Vec<T>,
}

impl<T> View for Vector<T> {
    type V = Seq<T>;

    closed spec fn view(&self) -> Seq<T> {
        self.data@
    }
}

impl<T> Vector<T> {
    /// Wraps `data` without copying it.
    pub fn new(data: Vec<T>) -> (v: Self)
        ensures
            v@ == data@,
    {
        Self { data }
    }
}

impl<T> Deref for Vector<T> {
    type Target = Vec<T>;

    fn deref(&self) -> (inner: &Vec<T>)
        ensures
            inner@ == self@,
    {
        &self.data
    }
}

/// `zero` is a value that `T::default()` can return.
pub open spec fn is_default<T: Default>(zero: T) -> bool {
    call_ensures(T::default, (), zero)
}

/// The accumulator after the first `n` products `a[i] * b[i]` have been added
/// to `zero`, lowest index first, with the element type's own operators.
pub open spec fn reduce_prefix<T: Add<Output = T> + Mul<Output = T>>(
    zero: T,
    a: Seq<T>,
    b: Seq<T>,
    n: nat,
) -> T
    decreases n,
{
    if n == 0 {
        zero
    } else {
        reduce_prefix(zero, a, b, (n - 1) as nat).add_spec(a[n - 1].mul_spec(b[n - 1]))
    }
}

/// The inner product of `a` and `b` accumulated from `zero`.
pub open spec fn reduce<T: Add<Output = T> + Mul<Output = T>>(zero: T, a: Seq<T>, b: Seq<T>) -> T {
    reduce_prefix(zero, a, b, a.len())
}

/// The element type admits every multiplication and every addition that the
/// reduction of `a` and `b` from `zero` performs: for the integer types, none
/// of them overflows.
pub open spec fn reducible<T: Add<Output = T> + Mul<Output = T>>(
    zero: T,
    a: Seq<T>,
    b: Seq<T>,
) -> bool {
    forall|k: int|
        0 <= k < a.len() ==> {
            &&& (#[trigger] a[k]).mul_req(b[k])
            &&& reduce_prefix(zero, a, b, k as nat).add_req(a[k].mul_spec(b[k]))
        }
}

/// `v` is an inner product of `a` and `b`: their reduction from a default
/// value of the element type.
pub open spec fn is_dot_product<T: Default + Add<Output = T> + Mul<Output = T>>(
    v: T,
    a: Seq<T>,
    b: Seq<T>,
) -> bool {
    exists|zero: T| #[trigger] is_default(zero) && v == reduce(zero, a, b)
}

/// The inner product of two sequences of equal length.
///
/// The sum starts from `T::default()` and adds the products in index order
/// with plain `+` and `*`; the caller keeps the operands within what those
/// operators admit. Sequences of different lengths are refused.
pub fn dot_product<T>(a: Vector<T>, b: Vector<T>) -> (r: Result<T, Error>) where
    T: Copy + Default + Add<Output = T> + Mul<Output = T>,

    requires
        T::obeys_add_spec(),
        T::obeys_mul_spec(),
        a@.len() == b@.len() ==> forall|zero: T| is_default(zero) ==> reducible(zero, a@, b@),
    ensures
        a@.len() != b@.len() ==> r == Err::<T, Error>(Error::LengthMismatch),
        a@.len() == b@.len() ==> r is Ok && is_dot_product(r->Ok_0, a@, b@),
{
    if a.data.len() != b.data.len() {
        return Err(Error::LengthMismatch);
    }
    let n: usize = a.data.len();
    let mut sum = T::default();
    let ghost zero = sum;
    let mut i: usize = 0;
    while i < n
        invariant
            T::obeys_add_spec(),
            T::obeys_mul_spec(),
            n == a@.len(),
            n == b@.len(),
            i <= n,
            is_default(zero),
            reducible(zero, a@, b@),
            sum == reduce_prefix(zero, a@, b@, i as nat),
        decreases n - i,
    {
        sum = sum + a.data[i] * b.data[i];
        i += 1;
    }
    Ok(sum)
}

/// A reduction does not depend on the order of its two operands where the
/// element type's multiplication does not.
pub proof fn law_reduce_commutes<T: Add<Output = T> + Mul<Output = T>>(
    zero: T,
    a: Seq<T>,
    b: Seq<T>,
)
    requires
        a.len() == b.len(),
        forall|x: T, y: T| #[trigger] x.mul_spec(y) == y.mul_spec(x),
    ensures
        reduce(zero, a, b) == reduce(zero, b, a),
{
    lemma_prefix_commutes(zero, a, b, a.len());
}

proof fn lemma_prefix_commutes<T: Add<Output = T> + Mul<Output = T>>(
    zero: T,
    a: Seq<T>,
    b: Seq<T>,
    n: nat,
)
    requires
        forall|x: T, y: T| #[trigger] x.mul_spec(y) == y.mul_spec(x),
    ensures
        reduce_prefix(zero, a, b, n) == reduce_prefix(zero, b, a, n),
    decreases n,
{
    if n > 0 {
        lemma_prefix_commutes(zero, a, b, (n - 1) as nat);
    }
}

/// Only then: where two elements multiply to different values in the two
/// orders, the reductions of the two one-element sequences differ too,
/// provided that adding to `zero` keeps different values apart, as it does
/// where `zero` is neutral for the addition.
pub proof fn law_reduce_commutes_only_then<T: Add<Output = T> + Mul<Output = T>>(
    zero: T,
    x: T,
    y: T,
)
    requires
        x.mul_spec(y) != y.mul_spec(x),
        forall|p: T, q: T| #[trigger] zero.add_spec(p) == #[trigger] zero.add_spec(q) ==> p == q,
    ensures
        reduce(zero, seq![x], seq![y]) != reduce(zero, seq![y], seq![x]),
{
    reveal_with_fuel(reduce_prefix, 2);
}

/// The exact sum of the first `n` products `a[i] * b[i]`, over the integers.
pub open spec fn exact_prefix(a: Seq<int>, b: Seq<int>, n: nat) -> int
    decreases n,
{
    if n == 0 {
        0
    } else {
        exact_prefix(a, b, (n - 1) as nat) + a[n - 1] * b[n - 1]
    }
}

/// The exact inner product of two sequences of integers.
pub open spec fn exact_dot(a: Seq<int>, b: Seq<int>) -> int {
    exact_prefix(a, b, a.len())
}

/// `val` reads the elements as integers: wherever the element type admits a
/// product or a sum, the result reads as the product or the sum of what the
/// operands read as. Every integer type is read so by its own value.
pub open spec fn reads_as_integers<T: Add<Output = T> + Mul<Output = T>>(
    val: spec_fn(T) -> int,
) -> bool {
    &&& forall|x: T, y: T| #[trigger] x.mul_req(y) ==> val(x.mul_spec(y)) == val(x) * val(y)
    &&& forall|x: T, y: T| #[trigger] x.add_req(y) ==> val(x.add_spec(y)) == val(x) + val(y)
}

/// Where the elements read as integers and the reduction stays within what
/// the element type admits, it reads as the exact inner product.
pub proof fn law_reduce_is_exact<T: Add<Output = T> + Mul<Output = T>>(
    val: spec_fn(T) -> int,
    zero: T,
    a: Seq<T>,
    b: Seq<T>,
)
    requires
        reads_as_integers(val),
        val(zero) == 0,
        a.len() == b.len(),
        reducible(zero, a, b),
    ensures
        val(reduce(zero, a, b)) == exact_dot(a.map_values(val), b.map_values(val)),
{
    lemma_prefix_is_exact(val, zero, a, b, a.len());
}

proof fn lemma_prefix_is_exact<T: Add<Output = T> + Mul<Output = T>>(
    val: spec_fn(T) -> int,
    zero: T,
    a: Seq<T>,
    b: Seq<T>,
    n: nat,
)
    requires
        reads_as_integers(val),
        val(zero) == 0,
        n <= a.len(),
        a.len() == b.len(),
        reducible(zero, a, b),
    ensures
        val(reduce_prefix(zero, a, b, n)) == exact_prefix(a.map_values(val), b.map_values(val), n),
    decreases n,
{
    if n > 0 {
        lemma_prefix_is_exact(val, zero, a, b, (n - 1) as nat);
        let k = n - 1;
        assert(a[k].mul_req(b[k]));
        assert(reduce_prefix(zero, a, b, k as nat).add_req(a[k].mul_spec(b[k])));
    }
}

/// The machine integers read as integers by their own value.
pub proof fn law_integers_read_as_integers()
    ensures
        reads_as_integers(|x: u8| x as int),
        reads_as_integers(|x: u16| x as int),
        reads_as_integers(|x: u32| x as int),
        reads_as_integers(|x: u64| x as int),
        reads_as_integers(|x: u128| x as int),
        reads_as_integers(|x: usize| x as int),
        reads_as_integers(|x: i8| x as int),
        reads_as_integers(|x: i16| x as int),
        reads_as_integers(|x: i32| x as int),
        reads_as_integers(|x: i64| x as int),
        reads_as_integers(|x: i128| x as int),
        reads_as_integers(|x: isize| x as int),
{
}

/// The element type admits every product and every sum that reads within
/// `lo ..= hi`: for a machine integer, the range of its type.
pub open spec fn admits_within<T: Add<Output = T> + Mul<Output = T>>(
    val: spec_fn(T) -> int,
    lo: int,
    hi: int,
) -> bool {
    &&& forall|x: T, y: T| lo <= val(x) * val(y) <= hi ==> #[trigger] x.mul_req(y)
    &&& forall|x: T, y: T| lo <= val(x) + val(y) <= hi ==> #[trigger] x.add_req(y)
}

/// A machine integer type admits every product and every sum within its range.
pub proof fn law_integers_admit_their_range()
    ensures
        admits_within(|x: u8| x as int, u8::MIN as int, u8::MAX as int),
        admits_within(|x: u16| x as int, u16::MIN as int, u16::MAX as int),
        admits_within(|x: u32| x as int, u32::MIN as int, u32::MAX as int),
        admits_within(|x: u64| x as int, u64::MIN as int, u64::MAX as int),
        admits_within(|x: u128| x as int, u128::MIN as int, u128::MAX as int),
        admits_within(|x: usize| x as int, usize::MIN as int, usize::MAX as int),
        admits_within(|x: i8| x as int, i8::MIN as int, i8::MAX as int),
        admits_within(|x: i16| x as int, i16::MIN as int, i16::MAX as int),
        admits_within(|x: i32| x as int, i32::MIN as int, i32::MAX as int),
        admits_within(|x: i64| x as int, i64::MIN as int, i64::MAX as int),
        admits_within(|x: i128| x as int, i128::MIN as int, i128::MAX as int),
        admits_within(|x: isize| x as int, isize::MIN as int, isize::MAX as int),
{
}

/// Every element of `s` reads within `-bound ..= bound`.
pub open spec fn reads_within<T>(val: spec_fn(T) -> int, s: Seq<T>, bound: int) -> bool {
    forall|k: int| 0 <= k < s.len() ==> -bound <= val(#[trigger] s[k]) <= bound
}

/// Small operands can be reduced: where every element of `a` and of `b` reads
/// within `-bound ..= bound` and `a.len() * bound * bound` is within what the
/// element type admits, no step of the reduction leaves that range.
pub proof fn law_small_operands_are_reducible<T: Add<Output = T> + Mul<Output = T>>(
    val: spec_fn(T) -> int,
    lo: int,
    hi: int,
    zero: T,
    a: Seq<T>,
    b: Seq<T>,
    bound: int,
)
    requires
        reads_as_integers(val),
        admits_within(val, lo, hi),
        val(zero) == 0,
        a.len() == b.len(),
        reads_within(val, a, bound),
        reads_within(val, b, bound),
        lo <= -(a.len() * bound * bound),
        a.len() * bound * bound <= hi,
    ensures
        reducible(zero, a, b),
{
    assert forall|k: int| 0 <= k < a.len() implies (#[trigger] a[k]).mul_req(b[k]) && reduce_prefix(
        zero,
        a,
        b,
        k as nat,
    ).add_req(a[k].mul_spec(b[k])) by {
        lemma_bounded_prefix(val, lo, hi, zero, a, b, bound, (k + 1) as nat);
    }
}

/// The first `n` steps of a reduction of small operands are admitted, and
/// the accumulator after them reads within `n * bound * bound` of zero.
proof fn lemma_bounded_prefix<T: Add<Output = T> + Mul<Output = T>>(
    val: spec_fn(T) -> int,
    lo: int,
    hi: int,
    zero: T,
    a: Seq<T>,
    b: Seq<T>,
    bound: int,
    n: nat,
)
    requires
        reads_as_integers(val),
        admits_within(val, lo, hi),
        val(zero) == 0,
        a.len() == b.len(),
        n <= a.len(),
        reads_within(val, a, bound),
        reads_within(val, b, bound),
        lo <= -(a.len() * bound * bound),
        a.len() * bound * bound <= hi,
    ensures
        n > 0 ==> a[n - 1].mul_req(b[n - 1]) && reduce_prefix(zero, a, b, (n - 1) as nat).add_req(
            a[n - 1].mul_spec(b[n - 1]),
        ),
        -(n * bound * bound) <= val(reduce_prefix(zero, a, b, n)) <= n * bound * bound,
    decreases n,
{
    if n > 0 {
        let k = n - 1;
        lemma_bounded_prefix(val, lo, hi, zero, a, b, bound, k as nat);
        let x = val(a[k]);
        let y = val(b[k]);
        let sum = val(reduce_prefix(zero, a, b, k as nat));
        let square = bound * bound;
        let len = a.len() as int;
        assert(-bound <= x <= bound);
        assert(-bound <= y <= bound);
        assert(-square <= x * y <= square) by (nonlinear_arith)
            requires
                -bound <= x <= bound,
                -bound <= y <= bound,
                square == bound * bound,
        ;
        assert(k * bound * bound == k * square && n * bound * bound == n * square && len * bound
            * bound == len * square) by (nonlinear_arith)
            requires
                square == bound * bound,
        ;
        assert(n * square == k * square + square && n * square <= len * square) by (nonlinear_arith)
            requires
                n == k + 1,
                n <= len,
                0 <= square,
        ;
        assert(0 <= k * square) by (nonlinear_arith)
            requires
                0 <= k,
                0 <= square,
        ;
        assert(a[k].mul_req(b[k]));
        assert(val(a[k].mul_spec(b[k])) == x * y);
        assert(reduce_prefix(zero, a, b, k as nat).add_req(a[k].mul_spec(b[k])));
    } else {
        assert(0 * bound * bound == 0) by (nonlinear_arith);
    }
}

} // verus!
