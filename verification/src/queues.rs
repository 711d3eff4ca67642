use crate::error::Error;
use crate::matrix::{lemma_index_of_cell, Matrix, MatrixView};
use crate::multiply::{envelope, is_product, is_reply, place};
use crate::pool::route;
use crate::task::{await_reply, Msg, MsgOutput};
use crate::vector::{is_default, is_dot_product};
use std::ops::{Add, Mul};
use std::sync::mpsc;
use vstd::prelude::*;

verus! {

/// The sending end of a queue of `std::sync::mpsc`. Verus sees nothing inside
/// it.
#[verifier::external_type_specification]
#[verifier::external_body]
#[verifier::reject_recursive_types(T)]
pub struct ExQueue<T>(mpsc::Sender<T>);

/// What `std::sync::mpsc::Sender::send` returns when the receiving end of the
/// queue is gone. Verus sees nothing inside it.
#[verifier::external_type_specification]
#[verifier::external_body]
#[verifier::reject_recursive_types(T)]
pub struct ExQueueClosed<T>(mpsc::SendError<T>);

/// `std::sync::mpsc::Sender::send` puts `t` into the queue and fails where the
/// receiving end has been dropped. Which of the two happens is not claimed.
pub assume_specification<T>[ mpsc::Sender::<T>::send ](queue: &mpsc::Sender<T>, t: T) -> (sent:
    Result<(), mpsc::SendError<T>>);

/// The fire phase over the queues of running workers: one envelope per cell
/// of the product of `a` and `b`, in row-major order, each with a fresh reply
/// channel and sent to the queue that its index routes it to.
///
/// Returns the receiving ends of the reply channels in index order, and the
/// indices of the envelopes whose queue was closed. Such an envelope is
/// dropped, and so is the sending end of its reply channel.
pub fn dispatch<T: Copy>(a: &Matrix<T>, b: &Matrix<T>, queues: &Vec<mpsc::Sender<Msg<T>>>) -> (out: (
    Vec<oneshot::Receiver<MsgOutput<T>>>,
    Vec<usize>,
))
    requires
        queues@.len() >= 1,
        a@.row * b@.col <= usize::MAX,
    ensures
        out.0@.len() == a@.row * b@.col,
        forall|k: int| 0 <= k < out.1@.len() ==> (#[trigger] out.1@[k]) < a@.row * b@.col,
        forall|k: int, l: int| 0 <= k < l < out.1@.len() ==> out.1@[k] < out.1@[l],
{
    let rows: usize = a.row();
    let cols: usize = b.col();
    let workers: usize = queues.len();
    let mut receivers: Vec<oneshot::Receiver<MsgOutput<T>>> = Vec::new();
    let mut unsent: Vec<usize> = Vec::new();
    let mut i: usize = 0;
    while i < rows
        invariant
            i <= rows,
            rows == a@.row,
            cols == b@.col,
            rows * cols <= usize::MAX,
            workers == queues@.len(),
            workers >= 1,
            receivers@.len() == i * cols,
            forall|k: int| 0 <= k < unsent@.len() ==> (#[trigger] unsent@[k]) < i * cols,
            forall|k: int, l: int| 0 <= k < l < unsent@.len() ==> unsent@[k] < unsent@[l],
        decreases rows - i,
    {
        let mut j: usize = 0;
        while j < cols
            invariant
                i < rows,
                j <= cols,
                rows == a@.row,
                cols == b@.col,
                rows * cols <= usize::MAX,
                workers == queues@.len(),
                workers >= 1,
                receivers@.len() == i * cols + j,
                forall|k: int| 0 <= k < unsent@.len() ==> (#[trigger] unsent@[k]) < i * cols + j,
                forall|k: int, l: int| 0 <= k < l < unsent@.len() ==> unsent@[k] < unsent@[l],
            decreases cols - j,
        {
            let input = envelope(a, b, i, j);
            let idx: usize = input.idx;
            let (msg, receiver) = Msg::open(input);
            match queues[route(idx, workers)].send(msg) {
                Ok(()) => {},
                Err(_) => {
                    unsent.push(idx);
                },
            }
            receivers.push(receiver);
            j += 1;
        }
        proof {
            assert((i + 1) * cols == i * cols + cols) by (nonlinear_arith);
        }
        i += 1;
    }
    (receivers, unsent)
}

/// What is in a buffer that started as `init` after the first `n` of
/// `replies` have been written into it, each into the cell that it names.
pub open spec fn assembled<T>(init: Seq<T>, replies: Seq<MsgOutput<T>>, n: nat) -> Seq<T>
    decreases n,
{
    if n == 0 {
        init
    } else {
        assembled(init, replies, (n - 1) as nat).update(
            replies[n - 1].idx as int,
            replies[n - 1].value,
        )
    }
}

/// `data` is what gathering `replies` leaves behind: a buffer of default
/// values into which every reply, in order, has been written at the cell
/// that it names.
pub open spec fn is_gathered<T: Default>(data: Seq<T>, replies: Seq<MsgOutput<T>>) -> bool {
    exists|init: Seq<T>|
        {
            &&& init.len() == data.len()
            &&& forall|k: int| 0 <= k < init.len() ==> is_default(#[trigger] init[k])
            &&& forall|k: int| 0 <= k < replies.len() ==> (#[trigger] replies[k]).idx < data.len()
            &&& data == #[trigger] assembled(init, replies, replies.len())
        }
}

/// The gather phase over reply channels: waits for the reply on each of
/// `receivers` in their order and writes its value into the cell that the
/// reply names, in a buffer of `row * col` default values; the buffer becomes
/// a `row` by `col` matrix.
///
/// Fails with `ShapeMismatch` where `receivers` are not `row * col` many or a
/// reply names no cell, and with `ChannelClosed` where a reply cannot arrive
/// any more. What the replies hold is up to those who send them.
pub fn collect<T: Copy + Default>(
    receivers: Vec<oneshot::Receiver<MsgOutput<T>>>,
    row: usize,
    col: usize,
) -> (r: Result<Matrix<T>, Error>)
    ensures
        receivers@.len() != row * col ==> r is Err && r->Err_0 == Error::ShapeMismatch,
        receivers@.len() == 0 && row * col == 0 ==> r is Ok,
        r is Ok ==> r->Ok_0@.row == row && r->Ok_0@.col == col && r->Ok_0@.wf(),
        r is Ok ==> exists|replies: Seq<MsgOutput<T>>|
            replies.len() == receivers@.len() && #[trigger] is_gathered(r->Ok_0@.data, replies),
        r is Err ==> r->Err_0 == Error::ShapeMismatch || r->Err_0 == Error::ChannelClosed,
{
    let cells: usize = receivers.len();
    match row.checked_mul(col) {
        Some(n) => {
            if n != cells {
                return Err(Error::ShapeMismatch);
            }
        },
        None => {
            return Err(Error::ShapeMismatch);
        },
    }
    let mut data: Vec<T> = Vec::new();
    let mut k: usize = 0;
    while k < cells
        invariant
            k <= cells,
            data@.len() == k,
            forall|p: int| 0 <= p < k ==> is_default(#[trigger] data@[p]),
        decreases cells - k,
    {
        data.push(T::default());
        k += 1;
    }
    let ghost init = data@;
    let ghost mut replies: Seq<MsgOutput<T>> = Seq::empty();
    for receiver in it: receivers
        invariant
            cells == row * col,
            cells == receivers@.len(),
            init.len() == cells,
            forall|p: int| 0 <= p < cells ==> is_default(#[trigger] init[p]),
            replies.len() == it.index(),
            forall|p: int| 0 <= p < replies.len() ==> (#[trigger] replies[p]).idx < cells,
            data@ == assembled(init, replies, replies.len()),
            data@.len() == cells,
    {
        match await_reply(receiver) {
            Ok(reply) => {
                let ghost before = replies;
                proof {
                    replies = replies.push(reply);
                }
                match place(&mut data, reply) {
                    Ok(()) => {
                        proof {
                            lemma_assembled_ignores_later(init, before, replies, before.len());
                        }
                    },
                    Err(e) => {
                        return Err(e);
                    },
                }
            },
            Err(e) => {
                return Err(e);
            },
        }
    }
    let product = Matrix::new(data, row, col);
    proof {
        assert(is_gathered(product->Ok_0@.data, replies));
    }
    product
}

/// The first `n` steps of an assembly do not look at later replies.
proof fn lemma_assembled_ignores_later<T>(
    init: Seq<T>,
    short: Seq<MsgOutput<T>>,
    long: Seq<MsgOutput<T>>,
    n: nat,
)
    requires
        n <= short.len() <= long.len(),
        forall|k: int| 0 <= k < short.len() ==> short[k] == long[k],
    ensures
        assembled(init, short, n) == assembled(init, long, n),
    decreases n,
{
    if n > 0 {
        lemma_assembled_ignores_later(init, short, long, (n - 1) as nat);
    }
}

/// Replies that answer the tasks assemble to the product: where the `k`-th
/// reply is an answer to the task for buffer index `k` of the product of `a`
/// and `b`, for every index, what gathering them leaves behind is a product
/// of `a` and `b`.
pub proof fn law_answers_assemble_to_the_product<T: Default + Add<Output = T> + Mul<Output = T>>(
    a: MatrixView<T>,
    b: MatrixView<T>,
    replies: Seq<MsgOutput<T>>,
    data: Seq<T>,
)
    requires
        replies.len() == a.row * b.col,
        forall|k: int| 0 <= k < replies.len() ==> is_reply(#[trigger] replies[k], a, b, k),
        data.len() == a.row * b.col,
        is_gathered(data, replies),
    ensures
        is_product(MatrixView { row: a.row, col: b.col, data }, a, b),
{
    let init = choose|init: Seq<T>|
        {
            &&& init.len() == data.len()
            &&& forall|k: int| 0 <= k < init.len() ==> is_default(#[trigger] init[k])
            &&& forall|k: int| 0 <= k < replies.len() ==> (#[trigger] replies[k]).idx < data.len()
            &&& data == #[trigger] assembled(init, replies, replies.len())
        };
    lemma_assembled_in_order(init, replies, replies.len());
    let m = MatrixView { row: a.row, col: b.col, data };
    assert forall|i: int, j: int| 0 <= i < a.row && 0 <= j < b.col implies is_dot_product(
        #[trigger] m.at(i, j),
        a.row_view(i),
        b.col_view(j),
    ) by {
        lemma_index_of_cell(a.row as int, b.col as int, i, j);
        let k = i * b.col + j;
        assert(is_reply(replies[k], a, b, k));
        assert(data[k] == replies[k].value);
    }
}

/// Where every reply names the cell of its own position, the first `n`
/// cells of the assembly of the first `n` replies hold their values.
proof fn lemma_assembled_in_order<T>(init: Seq<T>, replies: Seq<MsgOutput<T>>, n: nat)
    requires
        n <= replies.len() <= init.len(),
        forall|k: int| 0 <= k < replies.len() ==> (#[trigger] replies[k]).idx == k,
    ensures
        assembled(init, replies, n).len() == init.len(),
        forall|k: int| 0 <= k < n ==> #[trigger] assembled(init, replies, n)[k] == replies[k].value,
    decreases n,
{
    if n > 0 {
        lemma_assembled_in_order(init, replies, (n - 1) as nat);
    }
}

} // verus!
