use crate::task::MsgInput;
use std::collections::VecDeque;
use vstd::prelude::*;

verus! {

/// The number of workers that `multiply` uses.
pub const NUM_THREADS: usize = 4;

/// The worker that serves task `idx` in a pool of `workers`: tasks go round
/// the workers in index order.
pub open spec fn worker_of(idx: int, workers: int) -> int {
    idx % workers
}

/// The worker that serves task `idx` in a pool of `workers`.
pub fn route(idx: usize, workers: usize) -> (worker: usize)
    requires
        workers >= 1,
    ensures
        worker == worker_of(idx as int, workers as int),
        worker < workers,
{
    idx % workers
}

/// A fixed set of workers, each with an inbound queue of tasks that it serves
/// first in, first out.
pub struct Pool<T> {
    queues: Vec<VecDeque<MsgInput<T>>>,
}

impl<T> View for Pool<T> {
    type V = Seq<Seq<MsgInput<T>>>;

    /// The queues by worker, each from its oldest task to its newest.
    closed spec fn view(&self) -> Seq<Seq<MsgInput<T>>> {
        Seq::new(self.queues@.len(), |w: int| self.queues@[w]@)
    }
}

impl<T> Pool<T> {
    /// A pool of `n` workers with empty queues.
    pub fn spawn(n: usize) -> (pool: Self)
        ensures
            pool@.len() == n,
            forall|w: int| 0 <= w < n ==> (#[trigger] pool@[w]).len() == 0,
    {
        let mut queues: Vec<VecDeque<MsgInput<T>>> = Vec::new();
        let mut w: usize = 0;
        while w < n
            invariant
                w <= n,
                queues@.len() == w,
                forall|k: int| 0 <= k < w ==> (#[trigger] queues@[k])@.len() == 0,
            decreases n - w,
        {
            queues.push(VecDeque::new());
            w += 1;
        }
        Pool { queues }
    }

    /// The number of workers.
    pub fn workers(&self) -> (n: usize)
        ensures
            n == self@.len(),
    {
        self.queues.len()
    }

    /// Puts `task` at the end of the queue of the worker that its index
    /// routes it to.
    pub fn send(&mut self, task: MsgInput<T>)
        requires
            old(self)@.len() >= 1,
        ensures
            final(self)@ == old(self)@.update(
                worker_of(task.idx as int, old(self)@.len() as int),
                old(self)@[worker_of(task.idx as int, old(self)@.len() as int)].push(task),
            ),
    {
        let worker = route(task.idx, self.queues.len());
        self.queues[worker].push_back(task);
        assert(self@ =~= old(self)@.update(worker as int, old(self)@[worker as int].push(task)));
    }

    /// Takes the oldest task out of the queue of `worker`; `None` where that
    /// queue is empty.
    pub fn receive(&mut self, worker: usize) -> (task: Option<MsgInput<T>>)
        requires
            worker < old(self)@.len(),
        ensures
            old(self)@[worker as int].len() == 0 ==> task is None && final(self)@ == old(self)@,
            old(self)@[worker as int].len() > 0 ==> task == Some(old(self)@[worker as int][0])
                && final(self)@ == old(self)@.update(
                worker as int,
                old(self)@[worker as int].subrange(1, old(self)@[worker as int].len() as int),
            ),
    {
        let task = self.queues[worker].pop_front();
        assert(task is None ==> self@ =~= old(self)@);
        assert(task is Some ==> self@ =~= old(self)@.update(
            worker as int,
            old(self)@[worker as int].subrange(1, old(self)@[worker as int].len() as int),
        ));
        task
    }
}

} // verus!
