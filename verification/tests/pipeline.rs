use concurrency::{
    await_reply, collect, delivered, dispatch, envelope, place, received, route, Error, Matrix,
    Msg, MsgInput, MsgOutput, Pool, Vector,
};

#[test]
fn envelope_carries_the_row_and_the_column_of_its_cell() {
    let a = Matrix::new(vec![1, 2, 3, 4, 5, 6], 2, 3).unwrap();
    let b = Matrix::new(vec![7, 8, 9, 10, 11, 12], 3, 2).unwrap();
    let task = envelope(&a, &b, 1, 0);
    assert_eq!(task.idx, 2);
    assert_eq!(*task.row, vec![4, 5, 6]);
    assert_eq!(*task.col, vec![7, 9, 11]);
    let task = envelope(&a, &b, 0, 1);
    assert_eq!(task.idx, 1);
    assert_eq!(*task.row, vec![1, 2, 3]);
    assert_eq!(*task.col, vec![8, 10, 12]);
}

#[test]
fn tasks_go_round_the_workers() {
    assert_eq!(route(0, 4), 0);
    assert_eq!(route(5, 4), 1);
    assert_eq!(route(7, 4), 3);
    assert_eq!(route(8, 4), 0);
    assert_eq!(route(9, 1), 0);
    assert_eq!(route(usize::MAX, 2), 1);
}

fn task(idx: usize) -> MsgInput<i32> {
    MsgInput::new(idx, Vector::new(vec![idx as i32, 1]), Vector::new(vec![2, 3]))
}

#[test]
fn pool_queues_are_first_in_first_out() {
    let mut pool: Pool<i32> = Pool::spawn(3);
    assert_eq!(pool.workers(), 3);
    assert!(pool.receive(0).is_none());
    for idx in 0..7 {
        pool.send(task(idx));
    }
    let served: Vec<usize> = std::iter::from_fn(|| pool.receive(0)).map(|t| t.idx).collect();
    assert_eq!(served, vec![0, 3, 6]);
    let served: Vec<usize> = std::iter::from_fn(|| pool.receive(1)).map(|t| t.idx).collect();
    assert_eq!(served, vec![1, 4]);
    let served: Vec<usize> = std::iter::from_fn(|| pool.receive(2)).map(|t| t.idx).collect();
    assert_eq!(served, vec![2, 5]);
    assert!(pool.receive(1).is_none());
}

#[test]
fn run_keeps_the_index_and_reduces() {
    let out = task(5).run().unwrap();
    assert_eq!(out.idx, 5);
    assert_eq!(out.value, 13);
    let odd = MsgInput::new(1, Vector::new(vec![1, 2]), Vector::new(vec![1]));
    assert_eq!(odd.run().err(), Some(Error::LengthMismatch));
}

#[test]
fn served_task_is_answered_on_its_channel() {
    let (msg, receiver) = Msg::open(task(4));
    assert_eq!(msg.input.idx, 4);
    assert_eq!(msg.serve(), Ok(()));
    let reply = await_reply(receiver).unwrap();
    assert_eq!(reply.idx, 4);
    assert_eq!(reply.value, 11);
}

#[test]
fn envelope_built_by_hand_is_answered_too() {
    let (sender, receiver) = oneshot::channel();
    let msg = Msg::new(task(9), sender);
    assert_eq!(msg.serve(), Ok(()));
    let reply = await_reply(receiver).unwrap();
    assert_eq!((reply.idx, reply.value), (9, 21));
}

#[test]
fn task_that_cannot_be_computed_gets_no_reply() {
    let odd = MsgInput::new(0, Vector::new(vec![1, 2, 3]), Vector::new(vec![1]));
    let (msg, receiver) = Msg::open(odd);
    assert_eq!(msg.serve(), Err(Error::LengthMismatch));
    assert_eq!(await_reply(receiver).err(), Some(Error::ChannelClosed));
}

#[test]
fn reply_to_nobody_is_reported() {
    let (msg, receiver) = Msg::open(task(1));
    drop(receiver);
    assert_eq!(msg.serve(), Err(Error::ChannelClosed));
}

#[test]
fn dropped_envelope_closes_the_channel() {
    let (msg, receiver) = Msg::open(task(1));
    drop(msg);
    assert_eq!(await_reply(receiver).err(), Some(Error::ChannelClosed));
}

#[test]
fn place_writes_the_named_cell_only() {
    let mut data = vec![0, 0, 0];
    assert_eq!(place(&mut data, MsgOutput { idx: 1, value: 8 }), Ok(()));
    assert_eq!(data, vec![0, 8, 0]);
    assert_eq!(place(&mut data, MsgOutput { idx: 1, value: 9 }), Ok(()));
    assert_eq!(place(&mut data, MsgOutput { idx: 2, value: -1 }), Ok(()));
    assert_eq!(data, vec![0, 9, -1]);
    assert_eq!(place(&mut data, MsgOutput { idx: 3, value: 5 }), Err(Error::ShapeMismatch));
    assert_eq!(data, vec![0, 9, -1]);
}

#[test]
fn pipeline_by_hand_gives_the_product() {
    let a = Matrix::new(vec![1, 2, 3, 4, 5, 6], 2, 3).unwrap();
    let b = Matrix::new(vec![1, 2, 3, 4, 5, 6], 3, 2).unwrap();
    let mut pool = Pool::spawn(3);
    let mut receivers = Vec::new();
    let mut envelopes: Vec<Vec<Msg<i32>>> = (0..3).map(|_| Vec::new()).collect();
    for i in 0..2 {
        for j in 0..2 {
            pool.send(envelope(&a, &b, i, j));
        }
    }
    for worker in (0..3).rev() {
        while let Some(input) = pool.receive(worker) {
            let (msg, receiver) = Msg::open(input);
            receivers.push(receiver);
            envelopes[worker].push(msg);
        }
    }
    for queue in envelopes {
        for msg in queue {
            assert_eq!(msg.serve(), Ok(()));
        }
    }
    let mut data = vec![0; 4];
    for receiver in receivers {
        let reply = await_reply(receiver).unwrap();
        assert_eq!(place(&mut data, reply), Ok(()));
    }
    assert_eq!(data, vec![22, 28, 49, 64]);
}

fn serve_all(inbound: &std::sync::mpsc::Receiver<Msg<i32>>) -> usize {
    let mut served = 0;
    for msg in inbound.try_iter() {
        assert_eq!(msg.serve(), Ok(()));
        served += 1;
    }
    served
}

#[test]
fn dispatch_and_collect_over_real_queues() {
    let a = Matrix::new(vec![1, 2, 3, 4, 5, 6], 2, 3).unwrap();
    let b = Matrix::new(vec![1, 2, 3, 4, 5, 6], 3, 2).unwrap();
    let (first, first_inbound) = std::sync::mpsc::channel();
    let (second, second_inbound) = std::sync::mpsc::channel();
    let (third, third_inbound) = std::sync::mpsc::channel();
    let (receivers, unsent) = dispatch(&a, &b, &vec![first, second, third]);
    assert_eq!(receivers.len(), 4);
    assert!(unsent.is_empty());
    assert_eq!(serve_all(&third_inbound), 1);
    assert_eq!(serve_all(&second_inbound), 1);
    assert_eq!(serve_all(&first_inbound), 2);
    let product = collect(receivers, 2, 2).unwrap();
    assert_eq!((product.row(), product.col()), (2, 2));
    assert_eq!(*product.data(), vec![22, 28, 49, 64]);
}

#[test]
fn dispatch_keeps_the_order_within_a_queue() {
    let a = Matrix::new(vec![1, 0, 0, 1, 2, 2], 3, 2).unwrap();
    let b = Matrix::new(vec![1, 2, 3, 4, 5, 6], 2, 3).unwrap();
    let (even, even_inbound) = std::sync::mpsc::channel();
    let (odd, odd_inbound) = std::sync::mpsc::channel();
    let (receivers, unsent) = dispatch(&a, &b, &vec![even, odd]);
    assert_eq!(receivers.len(), 9);
    assert!(unsent.is_empty());
    let evens: Vec<usize> = even_inbound.try_iter().map(|msg: Msg<i32>| msg.input.idx).collect();
    let odds: Vec<usize> = odd_inbound.try_iter().map(|msg: Msg<i32>| msg.input.idx).collect();
    assert_eq!(evens, vec![0, 2, 4, 6, 8]);
    assert_eq!(odds, vec![1, 3, 5, 7]);
}

#[test]
fn dispatch_reports_a_closed_queue() {
    let a = Matrix::new(vec![1, 2, 3, 4], 2, 2).unwrap();
    let (open, open_inbound) = std::sync::mpsc::channel();
    let (closed, closed_inbound) = std::sync::mpsc::channel();
    drop(closed_inbound);
    let (receivers, unsent) = dispatch(&a, &a, &vec![open, closed]);
    assert_eq!(receivers.len(), 4);
    assert_eq!(unsent, vec![1, 3]);
    assert_eq!(serve_all(&open_inbound), 2);
    assert_eq!(collect(receivers, 2, 2).err(), Some(Error::ChannelClosed));
}

#[test]
fn collect_checks_the_count_and_the_cells() {
    let none: Vec<oneshot::Receiver<MsgOutput<i32>>> = Vec::new();
    assert_eq!(collect(none, 1, 1).err(), Some(Error::ShapeMismatch));
    let none: Vec<oneshot::Receiver<MsgOutput<i32>>> = Vec::new();
    let empty = collect(none, 0, 7).unwrap();
    assert_eq!((empty.row(), empty.col()), (0, 7));

    let (sender, receiver) = oneshot::channel();
    sender.send(MsgOutput { idx: 1, value: 5 }).unwrap();
    assert_eq!(collect(vec![receiver], 1, 1).err(), Some(Error::ShapeMismatch));

    let (sender, receiver) = oneshot::channel::<MsgOutput<i32>>();
    drop(sender);
    assert_eq!(collect(vec![receiver], 1, 1).err(), Some(Error::ChannelClosed));

    let (first, first_receiver) = oneshot::channel();
    let (second, second_receiver) = oneshot::channel();
    first.send(MsgOutput { idx: 1, value: 5 }).unwrap();
    second.send(MsgOutput { idx: 0, value: 6 }).unwrap();
    let swapped = collect(vec![first_receiver, second_receiver], 1, 2).unwrap();
    assert_eq!(*swapped.data(), vec![6, 5]);
}

#[test]
fn received_keeps_the_reply_that_arrived() {
    let reply = received(Ok(MsgOutput { idx: 3, value: -7 })).unwrap();
    assert_eq!((reply.idx, reply.value), (3, -7));
    let reply = received(Ok(MsgOutput { idx: 0, value: 12u8 })).unwrap();
    assert_eq!((reply.idx, reply.value), (0, 12));
    assert_eq!(received::<i32>(Err(oneshot::RecvError)).err(), Some(Error::ChannelClosed));
}

#[test]
fn delivered_reports_a_reply_that_came_back() {
    assert_eq!(delivered::<i32>(Ok(())), Ok(()));
    let (sender, receiver) = oneshot::channel();
    drop(receiver);
    let back = sender.send(MsgOutput { idx: 1, value: 2 });
    assert!(back.is_err());
    assert_eq!(delivered(back), Err(Error::ChannelClosed));
    let (sender, receiver) = oneshot::channel();
    let taken = sender.send(MsgOutput { idx: 1, value: 2 });
    assert_eq!(delivered(taken), Ok(()));
    drop(receiver);
}
