use crate::error::Error;
use crate::vector::{dot_product, is_default, is_dot_product, reducible, Vector};
use std::ops::{Add, Mul};
use vstd::prelude::*;
use vstd::std_specs::ops::{AddSpec, MulSpec};

verus! {

/// The sending end of a single-use channel of the `oneshot` crate. Verus sees
/// nothing inside it.
#[verifier::external_type_specification]
#[verifier::external_body]
#[verifier::reject_recursive_types(T)]
pub struct ExSender<T>(oneshot::Sender<T>);

/// The receiving end of a single-use channel of the `oneshot` crate. Verus
/// sees nothing inside it.
#[verifier::external_type_specification]
#[verifier::external_body]
#[verifier::reject_recursive_types(T)]
pub struct ExReceiver<T>(oneshot::Receiver<T>);

/// What `oneshot::Sender::send` returns when the receiver is gone. Verus sees
/// nothing inside it.
#[verifier::external_type_specification]
#[verifier::external_body]
#[verifier::reject_recursive_types(T)]
pub struct ExSendError<T>(oneshot::SendError<T>);

/// What `oneshot::Receiver::recv` returns when no message can arrive any more.
#[verifier::external_type_specification]
#[verifier::external_body]
pub struct ExRecvError(oneshot::RecvError);

/// `oneshot::channel` makes a fresh channel and returns its two ends. Nothing
/// is claimed of them.
pub assume_specification<T>[ oneshot::channel::<T> ]() -> (ends: (
    oneshot::Sender<T>,
    oneshot::Receiver<T>,
));

/// `oneshot::Sender::send` hands `message` to the channel and fails where the
/// receiver has been dropped. Which of the two happens is not claimed.
pub assume_specification<T>[ oneshot::Sender::<T>::send ](
    sender: oneshot::Sender<T>,
    message: T,
) -> (sent: Result<(), oneshot::SendError<T>>);

/// `oneshot::Receiver::recv` waits for the message and fails where the sender
/// was dropped without sending. Nothing is claimed of what arrives.
pub assume_specification<T>[ oneshot::Receiver::<T>::recv ](receiver: oneshot::Receiver<T>) -> (got:
    Result<T, oneshot::RecvError>);

/// The work of one task: which cell it is for, and the row and the column to
/// reduce.
pub struct MsgInput<T> {
    pub idx: usize,
    pub row: Vector<T>,
    pub col: Vector<T>,
}

/// The result of one task: the cell it is for, and that cell's value.
pub struct MsgOutput<T> {
    pub idx: usize,
    pub value: T,
}

/// A task envelope: the work, and the sending end of the channel on which the
/// one reply to it is expected.
#[verifier::reject_recursive_types(T)]
pub struct Msg<T> {
    pub input: MsgInput<T>,
    pub sender: oneshot::Sender<MsgOutput<T>>,
}

impl<T> MsgInput<T> {
    /// The task for index `idx` with the given row and column.
    pub fn new(idx: usize, row: Vector<T>, col: Vector<T>) -> (input: Self)
        ensures
            input.idx == idx,
            input.row == row,
            input.col == col,
    {
        Self { idx, row, col }
    }

    /// The arithmetic that serving the task performs is admitted by the
    /// element type, whatever default value the reduction starts from.
    pub open spec fn computable(self) -> bool where T: Default + Add<Output = T> + Mul<Output = T> {
        self.row@.len() == self.col@.len() ==> forall|zero: T|
            is_default(zero) ==> reducible(zero, self.row@, self.col@)
    }

    /// What a worker computes for the task: the inner product of its row and
    /// its column, under the task's own index. A row and a column of different
    /// lengths are refused.
    pub fn run(self) -> (r: Result<MsgOutput<T>, Error>) where
        T: Copy + Default + Add<Output = T> + Mul<Output = T>,

        requires
            T::obeys_add_spec(),
            T::obeys_mul_spec(),
            self.computable(),
        ensures
            self.row@.len() != self.col@.len() ==> r is Err && r->Err_0 == Error::LengthMismatch,
            self.row@.len() == self.col@.len() ==> r is Ok && r->Ok_0.idx == self.idx
                && is_dot_product(r->Ok_0.value, self.row@, self.col@),
    {
        let idx = self.idx;
        match dot_product(self.row, self.col) {
            Ok(value) => Ok(MsgOutput { idx, value }),
            Err(e) => Err(e),
        }
    }
}

impl<T> Msg<T> {
    /// The envelope of `input` whose reply is expected from `sender`.
    pub fn new(input: MsgInput<T>, sender: oneshot::Sender<MsgOutput<T>>) -> (msg: Self)
        ensures
            msg.input == input,
            msg.sender == sender,
    {
        Self { input, sender }
    }

    /// The envelope for `input` with a fresh reply channel, and the end of
    /// that channel on which the reply is awaited.
    pub fn open(input: MsgInput<T>) -> (ends: (Self, oneshot::Receiver<MsgOutput<T>>))
        ensures
            ends.0.input == input,
    {
        let (sender, receiver) = oneshot::channel();
        (Self { input, sender }, receiver)
    }

    /// One step of a worker: computes the task and sends the result on the
    /// task's reply channel.
    ///
    /// A task that cannot be computed is reported as `LengthMismatch` and gets
    /// no reply. A reply that cannot be delivered, because nobody waits for it
    /// any more, is reported as `ChannelClosed`.
    pub fn serve(self) -> (r: Result<(), Error>) where
        T: Copy + Default + Add<Output = T> + Mul<Output = T>,

        requires
            T::obeys_add_spec(),
            T::obeys_mul_spec(),
            self.input.computable(),
        ensures
            self.input.row@.len() != self.input.col@.len() ==> r == Err::<(), Error>(
                Error::LengthMismatch,
            ),
            self.input.row@.len() == self.input.col@.len() ==> r is Ok || r == Err::<(), Error>(
                Error::ChannelClosed,
            ),
    {
        match self.input.run() {
            Ok(output) => deliver(self.sender, output),
            Err(e) => Err(e),
        }
    }
}

/// Sends `output` on `sender`; `ChannelClosed` where the receiving end is gone.
fn deliver<T>(sender: oneshot::Sender<MsgOutput<T>>, output: MsgOutput<T>) -> (r: Result<
    (),
    Error,
>)
    ensures
        r is Ok || r == Err::<(), Error>(Error::ChannelClosed),
{
    let sent = sender.send(output);
    delivered(sent)
}

/// Waits for the one reply on `receiver`; `ChannelClosed` where the sending
/// end was dropped without a reply. Whether a reply arrives, and what it
/// holds, is up to whoever has the sending end; `received` says what becomes
/// of either outcome.
pub fn await_reply<T>(receiver: oneshot::Receiver<MsgOutput<T>>) -> (r: Result<
    MsgOutput<T>,
    Error,
>)
    ensures
        r is Ok || r == Err::<MsgOutput<T>, Error>(Error::ChannelClosed),
{
    let got = receiver.recv();
    received(got)
}

/// What a worker reports of a reply that it handed to the channel: success
/// where the channel took it, `ChannelClosed` where the channel gave it back
/// because nobody waits for it any more.
pub fn delivered<T>(sent: Result<(), oneshot::SendError<MsgOutput<T>>>) -> (r: Result<(), Error>)
    ensures
        sent is Ok ==> r == Ok::<(), Error>(()),
        sent is Err ==> r == Err::<(), Error>(Error::ChannelClosed),
{
    match sent {
        Ok(()) => Ok(()),
        Err(_) => Err(Error::ChannelClosed),
    }
}

/// What the gatherer makes of the outcome of waiting on a reply channel: the
/// reply itself where one arrived, `ChannelClosed` where none can arrive
/// any more.
pub fn received<T>(got: Result<MsgOutput<T>, oneshot::RecvError>) -> (r: Result<
    MsgOutput<T>,
    Error,
>)
    ensures
        got is Ok ==> r == Ok::<MsgOutput<T>, Error>(got->Ok_0),
        got is Err ==> r == Err::<MsgOutput<T>, Error>(Error::ChannelClosed),
{
    match got {
        Ok(reply) => Ok(reply),
        Err(_) => Err(Error::ChannelClosed),
    }
}

} // verus!
