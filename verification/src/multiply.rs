use crate::error::Error;
use crate::matrix::{
    lemma_cell_in_buffer, lemma_cell_of_index, lemma_index_of_cell, lemma_row_in_buffer, Matrix,
    MatrixView,
};
use crate::pool::{worker_of, Pool, NUM_THREADS};
use crate::task::{MsgInput, MsgOutput};
use crate::vector::{
    admits_within, exact_dot, is_default, is_dot_product, law_reduce_is_exact,
    law_small_operands_are_reducible, reads_as_integers, reads_within, reduce, reducible, Vector,
};
use std::ops::{Add, Mul};
use vstd::prelude::*;
use vstd::slice::slice_to_vec;
use vstd::std_specs::ops::{AddSpec, MulSpec};

verus! {

/// `m` is a product of `a` and `b`: it has the rows of `a` and the columns of
/// `b`, and its cell `(i, j)` is an inner product of row `i` of `a` and column
/// `j` of `b`.
pub open spec fn is_product<T: Default + Add<Output = T> + Mul<Output = T>>(
    m: MatrixView<T>,
    a: MatrixView<T>,
    b: MatrixView<T>,
) -> bool {
    &&& m.row == a.row
    &&& m.col == b.col
    &&& m.wf()
    &&& forall|i: int, j: int|
        0 <= i < a.row && 0 <= j < b.col ==> is_dot_product(
            #[trigger] m.at(i, j),
            a.row_view(i),
            b.col_view(j),
        )
}

/// Where the shapes of `a` and `b` fit, their product can be computed: its
/// cells can be counted in a `usize`, and the element type admits the
/// arithmetic of every cell's reduction, whatever default value it starts from.
pub open spec fn multipliable<T: Default + Add<Output = T> + Mul<Output = T>>(
    a: MatrixView<T>,
    b: MatrixView<T>,
) -> bool {
    a.col == b.row ==> {
        &&& a.row * b.col <= usize::MAX
        &&& forall|zero: T, i: int, j: int|
            is_default(zero) && 0 <= i < a.row && 0 <= j < b.col ==> #[trigger] reducible(
                zero,
                a.row_view(i),
                b.col_view(j),
            )
    }
}

/// `task` is the task for buffer index `idx` of the product of `a` and `b`: it
/// carries that index, the row of `a` and the column of `b` that meet in the
/// cell.
pub open spec fn is_task<T>(task: MsgInput<T>, a: MatrixView<T>, b: MatrixView<T>, idx: int) -> bool {
    &&& task.idx == idx
    &&& task.row@ == a.row_view(idx / (b.col as int))
    &&& task.col@ == b.col_view(idx % (b.col as int))
}

/// `reply` answers the task for buffer index `idx` of the product of `a` and `b`.
pub open spec fn is_reply<T: Default + Add<Output = T> + Mul<Output = T>>(
    reply: MsgOutput<T>,
    a: MatrixView<T>,
    b: MatrixView<T>,
    idx: int,
) -> bool {
    &&& reply.idx == idx
    &&& is_dot_product(
        reply.value,
        a.row_view(idx / (b.col as int)),
        b.col_view(idx % (b.col as int)),
    )
}

/// The task for cell `(i, j)` of the product of `a` and `b`, with copies of
/// row `i` of `a` and of column `j` of `b`.
pub fn envelope<T: Copy>(a: &Matrix<T>, b: &Matrix<T>, i: usize, j: usize) -> (task: MsgInput<T>)
    requires
        i < a@.row,
        j < b@.col,
        a@.row * b@.col <= usize::MAX,
    ensures
        is_task(task, a@, b@, i * b@.col + j),
        task.row@ == a@.row_view(i as int),
        task.col@ == b@.col_view(j as int),
{
    let cols: usize = b.col();
    proof {
        lemma_index_of_cell(a@.row as int, cols as int, i as int, j as int);
    }
    let row = Vector::new(slice_to_vec(a.row_view(i)));
    let col = Vector::new(b.col_view(j));
    MsgInput::new(i * cols + j, row, col)
}

/// Writes the value of `reply` into the cell of `data` that it names. A reply
/// that names no cell of `data` is refused and leaves `data` as it was.
pub fn place<T>(data: &mut Vec<T>, reply: MsgOutput<T>) -> (r: Result<(), Error>)
    ensures
        reply.idx < old(data)@.len() ==> r is Ok && final(data)@ == old(data)@.update(
            reply.idx as int,
            reply.value,
        ),
        reply.idx >= old(data)@.len() ==> r == Err::<(), Error>(Error::ShapeMismatch)
            && final(data)@ == old(data)@,
{
    if reply.idx < data.len() {
        data.set(reply.idx, reply.value);
        Ok(())
    } else {
        Err(Error::ShapeMismatch)
    }
}

/// Every task that waits in `queues` is the task for its own index, and that
/// index is below `n`.
spec fn queued<T>(queues: Seq<Seq<MsgInput<T>>>, a: MatrixView<T>, b: MatrixView<T>, n: int) -> bool {
    forall|w: int, p: int|
        0 <= w < queues.len() && 0 <= p < queues[w].len() ==> {
            &&& 0 <= (#[trigger] queues[w][p]).idx < n
            &&& is_task(queues[w][p], a, b, queues[w][p].idx as int)
        }
}

/// Every index below `n` has its task in the queue of the worker that it is
/// routed to, at position `pos[idx]`.
spec fn placed<T>(queues: Seq<Seq<MsgInput<T>>>, pos: Seq<int>, n: int) -> bool {
    &&& pos.len() == n
    &&& forall|idx: int|
        0 <= idx < n ==> {
            &&& 0 <= #[trigger] pos[idx] < queues[worker_of(idx, queues.len() as int)].len()
            &&& queues[worker_of(idx, queues.len() as int)][pos[idx]].idx == idx
        }
}

/// Every reply that has arrived sits in the slot of its own index and answers
/// the task for it.
spec fn answered<T: Default + Add<Output = T> + Mul<Output = T>>(
    replies: Seq<Option<MsgOutput<T>>>,
    a: MatrixView<T>,
    b: MatrixView<T>,
) -> bool {
    forall|idx: int|
        0 <= idx < replies.len() && (#[trigger] replies[idx]) is Some ==> is_reply(
            replies[idx]->Some_0,
            a,
            b,
            idx,
        )
}

/// The fire phase: one task per cell of the product, in row-major order, each
/// sent to the worker that its index routes it to.
fn fire<T: Copy>(a: &Matrix<T>, b: &Matrix<T>, pool: &mut Pool<T>) -> (pos: Ghost<Seq<int>>)
    requires
        old(pool)@.len() >= 1,
        forall|w: int| 0 <= w < old(pool)@.len() ==> (#[trigger] old(pool)@[w]).len() == 0,
        a@.row * b@.col <= usize::MAX,
    ensures
        final(pool)@.len() == old(pool)@.len(),
        queued(final(pool)@, a@, b@, (a@.row * b@.col) as int),
        placed(final(pool)@, pos@, (a@.row * b@.col) as int),
{
    let rows: usize = a.row();
    let cols: usize = b.col();
    let ghost workers = pool@.len() as int;
    let ghost mut pos: Seq<int> = Seq::empty();
    let mut i: usize = 0;
    while i < rows
        invariant
            i <= rows,
            rows == a@.row,
            cols == b@.col,
            rows * cols <= usize::MAX,
            workers >= 1,
            pool@.len() == workers,
            queued(pool@, a@, b@, i * cols),
            placed(pool@, pos, i * cols),
        decreases rows - i,
    {
        let mut j: usize = 0;
        while j < cols
            invariant
                i < rows,
                j <= cols,
                rows == a@.row,
                cols == b@.col,
                rows * cols <= usize::MAX,
                workers >= 1,
                pool@.len() == workers,
                queued(pool@, a@, b@, i * cols + j),
                placed(pool@, pos, i * cols + j),
            decreases cols - j,
        {
            let task = envelope(a, b, i, j);
            let ghost before = pool@;
            let ghost idx = i * cols + j;
            let ghost w = worker_of(idx, workers);
            proof {
                vstd::arithmetic::div_mod::lemma_mod_pos_bound(idx, workers);
            }
            pool.send(task);
            proof {
                pos = pos.push(before[w].len() as int);
                assert forall|v: int, p: int| 0 <= v < pool@.len() && 0 <= p < pool@[v].len() implies 0
                    <= (#[trigger] pool@[v][p]).idx < idx + 1 && is_task(
                    pool@[v][p],
                    a@,
                    b@,
                    pool@[v][p].idx as int,
                ) by {
                    if v == w && p == before[w].len() {
                        assert(pool@[v][p] == task);
                    } else {
                        assert(pool@[v][p] == before[v][p]);
                    }
                }
                assert forall|k: int| 0 <= k < idx + 1 implies 0 <= #[trigger] pos[k]
                    < pool@[worker_of(k, workers)].len() && pool@[worker_of(
                    k,
                    workers,
                )][pos[k]].idx == k by {
                    if k < idx {
                        let v = worker_of(k, workers);
                        vstd::arithmetic::div_mod::lemma_mod_pos_bound(k, workers);
                        assert(pool@[v][pos[k]] == before[v][pos[k]]);
                    }
                }
            }
            j += 1;
        }
        proof {
            assert((i + 1) * cols == i * cols + cols) by (nonlinear_arith);
        }
        i += 1;
    }
    Ghost(pos)
}

/// The workers, one after the other: each serves the tasks of its queue from
/// the oldest to the newest and puts every result into the reply slot of the
/// task's index. A task that cannot be computed gets no reply.
fn work<T>(
    pool: &mut Pool<T>,
    n: usize,
    Ghost(a): Ghost<MatrixView<T>>,
    Ghost(b): Ghost<MatrixView<T>>,
    Ghost(pos): Ghost<Seq<int>>,
) -> (replies: Vec<Option<MsgOutput<T>>>) where
    T: Copy + Default + Add<Output = T> + Mul<Output = T>,

    requires
        T::obeys_add_spec(),
        T::obeys_mul_spec(),
        old(pool)@.len() >= 1,
        a.wf(),
        b.wf(),
        a.col == b.row,
        multipliable(a, b),
        n == a.row * b.col,
        queued(old(pool)@, a, b, n as int),
        placed(old(pool)@, pos, n as int),
    ensures
        replies@.len() == n,
        answered(replies@, a, b),
        forall|idx: int| 0 <= idx < n ==> (#[trigger] replies@[idx]) is Some,
{
    let workers: usize = pool.workers();
    let mut replies: Vec<Option<MsgOutput<T>>> = Vec::new();
    let mut slot: usize = 0;
    while slot < n
        invariant
            slot <= n,
            replies@.len() == slot,
            forall|idx: int| 0 <= idx < slot ==> (#[trigger] replies@[idx]) is None,
        decreases n - slot,
    {
        replies.push(None);
        slot += 1;
    }
    let ghost start = pool@;
    let mut w: usize = 0;
    while w < workers
        invariant
            T::obeys_add_spec(),
            T::obeys_mul_spec(),
            w <= workers,
            workers >= 1,
            workers == start.len(),
            pool@.len() == workers,
            a.wf(),
            b.wf(),
            a.col == b.row,
            multipliable(a, b),
            n == a.row * b.col,
            queued(start, a, b, n as int),
            placed(start, pos, n as int),
            forall|v: int| w <= v < workers ==> #[trigger] pool@[v] == start[v],
            replies@.len() == n,
            answered(replies@, a, b),
            forall|idx: int|
                0 <= idx < n && worker_of(idx, workers as int) < w ==> (
                #[trigger] replies@[idx]) is Some,
        decreases workers - w,
    {
        let ghost queue = start[w as int];
        let ghost mut served: int = 0;
        let mut next = pool.receive(w);
        while next.is_some()
            invariant
                T::obeys_add_spec(),
                T::obeys_mul_spec(),
                w < workers,
                workers == start.len(),
                pool@.len() == workers,
                a.wf(),
                b.wf(),
                a.col == b.row,
                multipliable(a, b),
                n == a.row * b.col,
                queue == start[w as int],
                queued(start, a, b, n as int),
                placed(start, pos, n as int),
                0 <= served <= queue.len(),
                next is Some ==> served < queue.len() && next->Some_0 == queue[served]
                    && pool@[w as int] == queue.subrange(served + 1, queue.len() as int),
                next is None ==> served == queue.len(),
                forall|v: int| w < v < workers ==> #[trigger] pool@[v] == start[v],
                replies@.len() == n,
                answered(replies@, a, b),
                forall|idx: int|
                    0 <= idx < n && worker_of(idx, workers as int) < w ==> (
                    #[trigger] replies@[idx]) is Some,
                forall|idx: int|
                    0 <= idx < n && worker_of(idx, workers as int) == w && pos[idx] < served ==> (
                    #[trigger] replies@[idx]) is Some,
            decreases queue.len() - served,
        {
            let task = next.unwrap();
            let ghost idx = task.idx as int;
            proof {
                assert(task == start[w as int][served]);
                lemma_cell_of_index(a.row as int, b.col as int, idx);
                let i = idx / (b.col as int);
                let j = idx % (b.col as int);
                lemma_row_in_buffer(a.row as int, a.col as int, i);
                assert(task.row@.len() == a.col);
                assert(task.col@.len() == b.row);
                assert forall|zero: T| is_default(zero) implies reducible(
                    zero,
                    task.row@,
                    task.col@,
                ) by {
                    assert(reducible(zero, a.row_view(i), b.col_view(j)));
                }
            }
            match task.run() {
                Ok(reply) => {
                    replies.set(reply.idx, Some(reply));
                },
                Err(_) => {},
            }
            proof {
                assert forall|k: int|
                    0 <= k < n && worker_of(k, workers as int) == w && pos[k] < served
                        + 1 implies (#[trigger] replies@[k]) is Some by {
                    if pos[k] == served {
                        assert(start[w as int][pos[k]].idx == k);
                    }
                }
                served = served + 1;
            }
            next = pool.receive(w);
            proof {
                if next is Some {
                    assert(pool@[w as int] =~= queue.subrange(served + 1, queue.len() as int));
                }
            }
        }
        proof {
            assert forall|idx: int|
                0 <= idx < n && worker_of(idx, workers as int) < w + 1 implies (
            #[trigger] replies@[idx]) is Some by {
                if worker_of(idx, workers as int) == w {
                    assert(pos[idx] < queue.len());
                }
            }
        }
        w += 1;
    }
    proof {
        assert forall|idx: int| 0 <= idx < n implies (#[trigger] replies@[idx]) is Some by {
            vstd::arithmetic::div_mod::lemma_mod_pos_bound(idx, workers as int);
        }
    }
    replies
}

/// The gather phase: takes the reply out of every slot in index order and
/// writes its value into the cell that it names. A slot without a reply ends
/// the gathering with `ChannelClosed`.
fn gather<T>(
    replies: &mut Vec<Option<MsgOutput<T>>>,
    Ghost(a): Ghost<MatrixView<T>>,
    Ghost(b): Ghost<MatrixView<T>>,
) -> (r: Result<Vec<T>, Error>) where T: Copy + Default + Add<Output = T> + Mul<Output = T>
    requires
        answered(old(replies)@, a, b),
        forall|idx: int| 0 <= idx < old(replies)@.len() ==> (#[trigger] old(replies)@[idx]) is Some,
    ensures
        r is Ok,
        r->Ok_0@.len() == old(replies)@.len(),
        forall|idx: int|
            0 <= idx < old(replies)@.len() ==> is_dot_product(
                #[trigger] r->Ok_0@[idx],
                a.row_view(idx / (b.col as int)),
                b.col_view(idx % (b.col as int)),
            ),
{
    let n: usize = replies.len();
    let mut data: Vec<T> = vec![T::default(); n];
    let mut idx: usize = 0;
    while idx < n
        invariant
            idx <= n,
            n == old(replies)@.len(),
            replies@.len() == n,
            data@.len() == n,
            forall|k: int| idx <= k < n ==> #[trigger] replies@[k] == old(replies)@[k],
            answered(old(replies)@, a, b),
            forall|k: int| 0 <= k < n ==> (#[trigger] old(replies)@[k]) is Some,
            forall|k: int|
                0 <= k < idx ==> is_dot_product(
                    #[trigger] data@[k],
                    a.row_view(k / (b.col as int)),
                    b.col_view(k % (b.col as int)),
                ),
        decreases n - idx,
    {
        assert(old(replies)@[idx as int] is Some);
        match replies[idx].take() {
            Some(reply) => {
                match place(&mut data, reply) {
                    Ok(()) => {},
                    Err(e) => {
                        return Err(e);
                    },
                }
            },
            None => {
                return Err(Error::ChannelClosed);
            },
        }
        idx += 1;
    }
    Ok(data)
}

/// The product of `a` and `b`, computed by a pool of `workers` workers.
///
/// A left operand whose width differs from the height of the right one is
/// refused before any task is made. Otherwise every cell of the product
/// becomes one task; the tasks are sent in row-major order, each to the
/// worker that its index routes it to; every worker serves its queue in
/// order; and the replies are gathered by index. The result does not depend
/// on the number of workers.
pub fn multiply_with<T>(a: &Matrix<T>, b: &Matrix<T>, workers: usize) -> (r: Result<
    Matrix<T>,
    Error,
>) where T: Copy + Default + Add<Output = T> + Mul<Output = T>
    requires
        workers >= 1,
        T::obeys_add_spec(),
        T::obeys_mul_spec(),
        multipliable(a@, b@),
    ensures
        a@.col != b@.row ==> r is Err && r->Err_0 == Error::ShapeMismatch,
        a@.col == b@.row ==> r is Ok && is_product(r->Ok_0@, a@, b@),
{
    if a.col() != b.row() {
        return Err(Error::ShapeMismatch);
    }
    let rows: usize = a.row();
    let cols: usize = b.col();
    let cells: usize = rows * cols;
    let mut pool: Pool<T> = Pool::spawn(workers);
    let pos = fire(a, b, &mut pool);
    let mut replies = work(&mut pool, cells, Ghost(a@), Ghost(b@), pos);
    match gather(&mut replies, Ghost(a@), Ghost(b@)) {
        Ok(data) => {
            let product = Matrix::new(data, rows, cols);
            proof {
                let m = product->Ok_0@;
                assert forall|i: int, j: int| 0 <= i < a@.row && 0 <= j < b@.col implies is_dot_product(
                    #[trigger] m.at(i, j),
                    a@.row_view(i),
                    b@.col_view(j),
                ) by {
                    lemma_index_of_cell(rows as int, cols as int, i, j);
                }
            }
            product
        },
        Err(e) => Err(e),
    }
}

/// The product of `a` and `b`, computed by a pool of `NUM_THREADS` workers.
///
/// Fails with `ShapeMismatch` exactly where the width of `a` differs from the
/// height of `b`. Otherwise the result has the rows of `a` and the columns of
/// `b`, and each of its cells is the inner product of the row of `a` and the
/// column of `b` that meet in it.
pub fn multiply<T>(a: &Matrix<T>, b: &Matrix<T>) -> (r: Result<Matrix<T>, Error>) where
    T: Copy + Default + Add<Output = T> + Mul<Output = T>,

    requires
        T::obeys_add_spec(),
        T::obeys_mul_spec(),
        multipliable(a@, b@),
    ensures
        a@.col != b@.row ==> r is Err && r->Err_0 == Error::ShapeMismatch,
        a@.col == b@.row ==> r is Ok && is_product(r->Ok_0@, a@, b@),
{
    multiply_with(a, b, NUM_THREADS)
}

impl<T> vstd::std_specs::ops::MulSpecImpl for Matrix<T> where
    T: Copy + Default + Add<Output = T> + Mul<Output = T>,
{
    /// The product is stated by `is_product`, not as one value of `mul_spec`.
    open spec fn obeys_mul_spec() -> bool {
        false
    }

    /// `*` takes operands whose shapes fit and whose product can be computed.
    open spec fn mul_req(self, rhs: Matrix<T>) -> bool {
        &&& self@.col == rhs@.row
        &&& T::obeys_add_spec()
        &&& T::obeys_mul_spec()
        &&& multipliable(self@, rhs@)
    }

    open spec fn mul_spec(self, rhs: Matrix<T>) -> Matrix<T> {
        arbitrary()
    }
}

impl<T> Mul for Matrix<T> where
    T: Copy + Default + Add<Output = T> + Mul<Output = T>,
{
    type Output = Matrix<T>;

    /// The product of two matrices whose shapes fit. Operands whose shapes do
    /// not fit are outside what `*` takes: use `multiply` to have them refused.
    fn mul(self, rhs: Matrix<T>) -> (product: Matrix<T>)
        ensures
            is_product(product@, self@, rhs@),
    {
        multiply(&self, &rhs).expect("Matrix multiply error")
    }
}

/// `T::default()` returns one value only.
pub open spec fn default_is_single<T: Default>() -> bool {
    forall|y: T, z: T| #[trigger] is_default(y) && #[trigger] is_default(z) ==> y == z
}

/// Every machine integer type has a single default value.
pub proof fn law_integers_have_a_single_default()
    ensures
        default_is_single::<u8>(),
        default_is_single::<u16>(),
        default_is_single::<u32>(),
        default_is_single::<u64>(),
        default_is_single::<u128>(),
        default_is_single::<usize>(),
        default_is_single::<i8>(),
        default_is_single::<i16>(),
        default_is_single::<i32>(),
        default_is_single::<i64>(),
        default_is_single::<i128>(),
        default_is_single::<isize>(),
{
}

/// Two products of the same operands are the same matrix, cell for cell,
/// where the element type has a single default value: multiplying twice, or
/// with pools of different sizes, gives one result.
pub proof fn law_product_is_unique<T: Default + Add<Output = T> + Mul<Output = T>>(
    a: MatrixView<T>,
    b: MatrixView<T>,
    m1: MatrixView<T>,
    m2: MatrixView<T>,
)
    requires
        default_is_single::<T>(),
        is_product(m1, a, b),
        is_product(m2, a, b),
    ensures
        m1 == m2,
{
    assert forall|idx: int| 0 <= idx < m1.data.len() implies m1.data[idx] == m2.data[idx] by {
        lemma_cell_of_index(a.row as int, b.col as int, idx);
        let i = idx / (b.col as int);
        let j = idx % (b.col as int);
        assert(m1.at(i, j) == m1.data[idx]);
        assert(m2.at(i, j) == m2.data[idx]);
        let z1 = choose|zero: T| #[trigger]
            is_default(zero) && m1.at(i, j) == reduce(zero, a.row_view(i), b.col_view(j));
        let z2 = choose|zero: T| #[trigger]
            is_default(zero) && m2.at(i, j) == reduce(zero, a.row_view(i), b.col_view(j));
        assert(z1 == z2);
    }
    assert(m1.data =~= m2.data);
    assert(m1 =~= m2);
}

/// Cell `(i, j)` of a product is what `dot_product` returns for row `i` of the
/// left operand and column `j` of the right one, where the element type has
/// a single default value.
pub proof fn law_cell_is_the_dot_product<T: Default + Add<Output = T> + Mul<Output = T>>(
    a: MatrixView<T>,
    b: MatrixView<T>,
    m: MatrixView<T>,
    i: int,
    j: int,
    v: T,
)
    requires
        default_is_single::<T>(),
        is_product(m, a, b),
        0 <= i < a.row,
        0 <= j < b.col,
        is_dot_product(v, a.row_view(i), b.col_view(j)),
    ensures
        m.at(i, j) == v,
{
    let row = a.row_view(i);
    let col = b.col_view(j);
    let z1 = choose|zero: T| #[trigger] is_default(zero) && m.at(i, j) == reduce(zero, row, col);
    let z2 = choose|zero: T| #[trigger] is_default(zero) && v == reduce(zero, row, col);
    assert(z1 == z2);
}

/// Where the elements read as integers, every cell of a product reads as the
/// exact sum of products that the schoolbook rule gives for it.
pub proof fn law_product_is_exact<T: Default + Add<Output = T> + Mul<Output = T>>(
    val: spec_fn(T) -> int,
    a: MatrixView<T>,
    b: MatrixView<T>,
    m: MatrixView<T>,
    i: int,
    j: int,
)
    requires
        reads_as_integers(val),
        forall|zero: T| #[trigger] is_default(zero) ==> val(zero) == 0,
        a.wf(),
        b.wf(),
        a.col == b.row,
        multipliable(a, b),
        is_product(m, a, b),
        0 <= i < a.row,
        0 <= j < b.col,
    ensures
        val(m.at(i, j)) == exact_dot(a.row_view(i).map_values(val), b.col_view(j).map_values(val)),
{
    let row = a.row_view(i);
    let col = b.col_view(j);
    lemma_row_in_buffer(a.row as int, a.col as int, i);
    let zero = choose|zero: T| #[trigger] is_default(zero) && m.at(i, j) == reduce(zero, row, col);
    assert(reducible(zero, row, col));
    law_reduce_is_exact(val, zero, row, col);
}

/// Matrices of small cells can be multiplied: where every cell of `a` and of
/// `b` reads within `-bound ..= bound`, `a.col * bound * bound` is within what
/// the element type admits and the cells of the product can be counted, the
/// product can be computed.
pub proof fn law_small_matrices_are_multipliable<T: Default + Add<Output = T> + Mul<Output = T>>(
    val: spec_fn(T) -> int,
    lo: int,
    hi: int,
    a: MatrixView<T>,
    b: MatrixView<T>,
    bound: int,
)
    requires
        reads_as_integers(val),
        admits_within(val, lo, hi),
        forall|zero: T| #[trigger] is_default(zero) ==> val(zero) == 0,
        a.wf(),
        b.wf(),
        a.row * b.col <= usize::MAX,
        reads_within(val, a.data, bound),
        reads_within(val, b.data, bound),
        lo <= -(a.col * bound * bound),
        a.col * bound * bound <= hi,
    ensures
        multipliable(a, b),
{
    if a.col == b.row {
        assert forall|zero: T, i: int, j: int|
            is_default(zero) && 0 <= i < a.row && 0 <= j < b.col implies #[trigger] reducible(
            zero,
            a.row_view(i),
            b.col_view(j),
        ) by {
            let row = a.row_view(i);
            let col = b.col_view(j);
            lemma_row_in_buffer(a.row as int, a.col as int, i);
            assert forall|k: int| 0 <= k < row.len() implies -bound <= val(#[trigger] row[k])
                <= bound by {
                assert(row[k] == a.data[i * a.col + k]);
            }
            assert forall|k: int| 0 <= k < col.len() implies -bound <= val(#[trigger] col[k])
                <= bound by {
                lemma_cell_in_buffer(b.row as int, b.col as int, k, j);
                assert(col[k] == b.data[k * b.col + j]);
            }
            law_small_operands_are_reducible(val, lo, hi, zero, row, col, bound);
        }
    }
}

} // verus!
