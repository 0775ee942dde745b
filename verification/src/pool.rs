//! A fixed set of workers that drain one shared dispatch channel.
//!
//! The pool is the state that its workers share under one lock: the channel
//! of pending tasks and, for each worker, where it stands in its loop. A
//! worker thread runs that loop around the pool: it claims a task, runs it
//! outside the lock, reports that it has finished, and claims again; it parks
//! when told to wait and ends when told that the channel is shut down.
//!
//! Besides what the threads need, the pool keeps a ghost record of every
//! task that was submitted and of every run of a task by a worker, so that
//! its invariant can say that tasks and runs correspond one to one.

use vstd::prelude::*;
use crate::queue::{Dequeue, QueueModel, SharedQueue, Wake};

verus! {

/// Where a worker stands in its loop.
#[derive(Clone, Copy, Debug, PartialEq, Eq, Structural)]
pub enum WorkerState {
    /// Polling the channel for a task.
    Running,
    /// Running a task that it claimed.
    Executing,
    /// Saw the channel shut down and empty, and left its loop for good.
    Terminated,
}

/// A worker as a mathematical value.
#[verifier::ext_equal]
pub ghost struct WorkerModel {
    /// Where the worker stands.
    pub state: WorkerState,
    /// While the worker is executing: which run, by its position in the
    /// pool's record of runs.
    pub current: int,
}

/// One run of a task by a worker.
#[verifier::ext_equal]
pub ghost struct Run<T> {
    /// The index of the worker that claimed the task.
    pub worker: int,
    /// The task.
    pub task: T,
    /// Whether the worker has reported the end of the run.
    pub finished: bool,
}

/// The pool as a mathematical value.
#[verifier::ext_equal]
pub ghost struct PoolModel<T> {
    /// The dispatch channel.
    pub channel: QueueModel<T>,
    /// The workers, by index.
    pub workers: Seq<WorkerModel>,
    /// Every task that was ever submitted, in the order of submission.
    pub submitted: Seq<T>,
    /// Every run that was ever started, in the order of the claims.
    pub runs: Seq<Run<T>>,
}

impl<T> PoolModel<T> {
    /// The tasks of the runs, in the order of the claims.
    pub open spec fn claimed(self) -> Seq<T> {
        self.runs.map_values(|run: Run<T>| run.task)
    }

    /// The pool's invariant.
    pub open spec fn wf(self) -> bool {
        // There is at least one worker.
        &&& self.workers.len() >= 1
        // Each submitted task is either pending or the task of exactly one run.
        &&& self.submitted == self.claimed() + self.channel.items
        // Each run belongs to a worker, and an unfinished run is the current
        // run of its worker.
        &&& forall|k: int|
            0 <= k < self.runs.len() ==> {
                let run = #[trigger] self.runs[k];
                &&& 0 <= run.worker < self.workers.len()
                &&& !run.finished ==> {
                    &&& self.workers[run.worker].state == WorkerState::Executing
                    &&& self.workers[run.worker].current == k
                }
            }
        // A worker that is executing has an unfinished run of its own.
        &&& forall|i: int|
            0 <= i < self.workers.len() && (#[trigger] self.workers[i]).state
                == WorkerState::Executing ==> {
                let k = self.workers[i].current;
                &&& 0 <= k < self.runs.len()
                &&& self.runs[k].worker == i
                &&& !self.runs[k].finished
            }
        // A worker terminates only on a channel that is shut down and empty.
        &&& forall|i: int|
            0 <= i < self.workers.len() && (#[trigger] self.workers[i]).state
                == WorkerState::Terminated ==> self.channel.shutdown && self.channel.items.len()
                == 0
    }

    /// A new pool of `size` workers: all polling, nothing submitted.
    pub open spec fn new(size: nat) -> PoolModel<T> {
        PoolModel {
            channel: QueueModel::empty(),
            workers: Seq::new(
                size,
                |i: int| WorkerModel { state: WorkerState::Running, current: 0 },
            ),
            submitted: Seq::empty(),
            runs: Seq::empty(),
        }
    }

    /// The pool after `task` was submitted.
    pub open spec fn execute(self, task: T) -> PoolModel<T> {
        PoolModel {
            channel: self.channel.enqueue(task),
            submitted: self.submitted.push(task),
            ..self
        }
    }

    /// The pool after `worker` polled the channel: with a new run if a task
    /// was pending, with the worker terminated if the channel is shut down
    /// and empty, and unchanged if the worker has to wait.
    pub open spec fn claim(self, worker: int) -> PoolModel<T> {
        match self.channel.front() {
            Dequeue::Item(task) => PoolModel {
                channel: self.channel.dequeue(),
                workers: self.workers.update(
                    worker,
                    WorkerModel { state: WorkerState::Executing, current: self.runs.len() as int },
                ),
                runs: self.runs.push(Run { worker, task, finished: false }),
                ..self
            },
            Dequeue::Wait => self,
            Dequeue::Shutdown => PoolModel {
                workers: self.workers.update(
                    worker,
                    WorkerModel { state: WorkerState::Terminated, ..self.workers[worker] },
                ),
                ..self
            },
        }
    }

    /// The pool after `worker` reported the end of its current run.
    pub open spec fn finish(self, worker: int) -> PoolModel<T> {
        let k = self.workers[worker].current;
        PoolModel {
            workers: self.workers.update(
                worker,
                WorkerModel { state: WorkerState::Running, ..self.workers[worker] },
            ),
            runs: self.runs.update(k, Run { finished: true, ..self.runs[k] }),
            ..self
        }
    }

    /// The pool after teardown began: the channel is shut down.
    pub open spec fn shutdown(self) -> PoolModel<T> {
        PoolModel { channel: self.channel.send_shutdown(), ..self }
    }

    /// Every worker has left its loop.
    pub open spec fn all_terminated(self) -> bool {
        forall|i: int|
            0 <= i < self.workers.len() ==> (#[trigger] self.workers[i]).state
                == WorkerState::Terminated
    }

    /// Every run has ended.
    pub open spec fn all_finished(self) -> bool {
        forall|k: int| 0 <= k < self.runs.len() ==> (#[trigger] self.runs[k]).finished
    }
}

/// A worker's record in the pool.
pub struct Worker {
    state: WorkerState,
    current: Ghost<int>,
}

impl View for Worker {
    type V = WorkerModel;

    closed spec fn view(&self) -> WorkerModel {
        WorkerModel { state: self.state, current: self.current@ }
    }
}

/// The state that a pool's workers share: the dispatch channel and the
/// workers' records.
pub struct ThreadPool<T> {
    workers: Vec<Worker>,
    channel: SharedQueue<T>,
    submitted: Ghost<Seq<T>>,
    runs: Ghost<Seq<Run<T>>>,
}

impl<T> View for ThreadPool<T> {
    type V = PoolModel<T>;

    closed spec fn view(&self) -> PoolModel<T> {
        PoolModel {
            channel: self.channel@,
            workers: Seq::new(self.workers@.len(), |i: int| self.workers@[i]@),
            submitted: self.submitted@,
            runs: self.runs@,
        }
    }
}

impl<T> ThreadPool<T> {
    /// The pool's invariant.
    pub open spec fn wf(&self) -> bool {
        self@.wf()
    }

    /// A pool of `size` workers, numbered from 0, all polling an empty, open
    /// channel.
    ///
    /// A pool without workers would accept tasks that nobody runs, so there
    /// is none.
    pub fn new(size: usize) -> (pool: Self)
        requires
            size >= 1,
        ensures
            pool.wf(),
            pool@ == PoolModel::<T>::new(size as nat),
    {
        let mut workers: Vec<Worker> = Vec::with_capacity(size);
        let mut id: usize = 0;
        while id < size
            invariant
                id <= size,
                workers@.len() == id,
                forall|i: int|
                    0 <= i < id ==> (#[trigger] workers@[i])@ == (WorkerModel {
                        state: WorkerState::Running,
                        current: 0,
                    }),
            decreases size - id,
        {
            workers.push(Worker { state: WorkerState::Running, current: Ghost(0) });
            id += 1;
        }
        let pool = ThreadPool {
            workers,
            channel: SharedQueue::new(),
            submitted: Ghost(Seq::empty()),
            runs: Ghost(Seq::empty()),
        };
        proof {
            assert(pool@.workers =~= PoolModel::<T>::new(size as nat).workers);
            lemma_new_wf::<T>(size as nat);
        }
        pool
    }

    /// Submits `task`: it joins the dispatch channel behind the tasks that
    /// are pending, and one parked worker is to be woken.
    ///
    /// Once teardown has begun the pool takes no further task, so the caller
    /// has to know that it has not.
    pub fn execute(&mut self, task: T) -> (wake: Wake)
        requires
            old(self).wf(),
            !old(self)@.channel.shutdown,
        ensures
            final(self).wf(),
            final(self)@ == old(self)@.execute(task),
            wake == Wake::One,
    {
        proof {
            lemma_execute_wf(self@, task);
            self.submitted@ = self.submitted@.push(task);
        }
        self.channel.enqueue(task)
    }

    /// One poll of the channel by the worker `id`, which is not executing.
    ///
    /// With [`Dequeue::Item`] the worker has claimed the oldest pending task
    /// and is executing it; with [`Dequeue::Wait`] nothing has changed and
    /// the worker parks until it is woken; with [`Dequeue::Shutdown`] the
    /// worker has terminated.
    pub fn claim(&mut self, id: usize) -> (polled: Dequeue<T>)
        requires
            old(self).wf(),
            id < old(self)@.workers.len(),
            old(self)@.workers[id as int].state == WorkerState::Running,
        ensures
            final(self).wf(),
            polled == old(self)@.channel.front(),
            final(self)@ == old(self)@.claim(id as int),
    {
        proof {
            lemma_claim_wf(self@, id as int);
        }
        let polled = self.channel.dequeue();
        match &polled {
            Dequeue::Item(task) => {
                let ghost run = Run { worker: id as int, task: *task, finished: false };
                let run_index = Ghost(self.runs@.len() as int);
                proof {
                    self.runs@ = self.runs@.push(run);
                }
                self.workers[id] = Worker { state: WorkerState::Executing, current: run_index };
            },
            Dequeue::Wait => {},
            Dequeue::Shutdown => {
                let current = Ghost(self.workers@[id as int].current@);
                self.workers[id] = Worker { state: WorkerState::Terminated, current };
            },
        }
        proof {
            assert(self@.workers =~= old(self)@.claim(id as int).workers);
        }
        polled
    }

    /// The worker `id` reports that the task it was executing has ended,
    /// well or badly, and goes back to polling.
    pub fn finish(&mut self, id: usize)
        requires
            old(self).wf(),
            id < old(self)@.workers.len(),
            old(self)@.workers[id as int].state == WorkerState::Executing,
        ensures
            final(self).wf(),
            final(self)@ == old(self)@.finish(id as int),
    {
        proof {
            lemma_finish_wf(self@, id as int);
        }
        let current = Ghost(self.workers@[id as int].current@);
        proof {
            let run = self.runs@[current@];
            self.runs@ = self.runs@.update(current@, Run { finished: true, ..run });
        }
        self.workers[id] = Worker { state: WorkerState::Running, current };
        proof {
            assert(self@.workers =~= old(self)@.finish(id as int).workers);
        }
    }

    /// Begins teardown: shuts the dispatch channel down, and every parked
    /// worker is to be woken. The pending tasks stay and are still handed
    /// out; a second call changes nothing.
    pub fn shutdown(&mut self) -> (wake: Wake)
        requires
            old(self).wf(),
        ensures
            final(self).wf(),
            final(self)@ == old(self)@.shutdown(),
            wake == Wake::All,
    {
        self.channel.send_shutdown()
    }

    /// The number of workers, fixed when the pool was made.
    pub fn size(&self) -> (n: usize)
        requires
            self.wf(),
        ensures
            n == self@.workers.len(),
            n >= 1,
    {
        self.workers.len()
    }

    /// The number of tasks that are pending.
    pub fn pending(&self) -> (n: usize)
        ensures
            n == self@.channel.items.len(),
    {
        self.channel.size()
    }

    /// Whether teardown has begun.
    pub fn is_shutdown(&self) -> (closed: bool)
        ensures
            closed == self@.channel.shutdown,
    {
        self.channel.is_shutdown()
    }

    /// Where the worker `id` stands.
    pub fn worker_state(&self, id: usize) -> (state: WorkerState)
        requires
            id < self@.workers.len(),
        ensures
            state == self@.workers[id as int].state,
    {
        self.workers[id].state
    }

    /// Whether every worker has terminated. Then nothing is pending, and
    /// every task that was submitted has had its one run, which has ended.
    pub fn all_terminated(&self) -> (done: bool)
        requires
            self.wf(),
        ensures
            done == self@.all_terminated(),
            done ==> self@.claimed() == self@.submitted && self@.all_finished()
                && self@.channel.items.len() == 0,
    {
        let mut i: usize = 0;
        while i < self.workers.len()
            invariant
                i <= self.workers@.len(),
                forall|j: int|
                    0 <= j < i ==> (#[trigger] self@.workers[j]).state == WorkerState::Terminated,
            decreases self.workers@.len() - i,
        {
            if self.workers[i].state != WorkerState::Terminated {
                assert(self@.workers[i as int].state != WorkerState::Terminated);
                return false;
            }
            i += 1;
        }
        proof {
            lemma_teardown_complete(self@);
        }
        true
    }
}

/// A new pool with at least one worker meets the invariant.
pub proof fn lemma_new_wf<T>(size: nat)
    requires
        size >= 1,
    ensures
        PoolModel::<T>::new(size).wf(),
{
    let pool = PoolModel::<T>::new(size);
    assert(pool.submitted =~= pool.claimed() + pool.channel.items);
}

/// Submitting a task to an open pool keeps the invariant.
pub proof fn lemma_execute_wf<T>(pool: PoolModel<T>, task: T)
    requires
        pool.wf(),
        !pool.channel.shutdown,
    ensures
        pool.execute(task).wf(),
{
    let next = pool.execute(task);
    assert(next.submitted =~= next.claimed() + next.channel.items);
}

/// A poll by a worker that is not executing keeps the invariant.
pub proof fn lemma_claim_wf<T>(pool: PoolModel<T>, worker: int)
    requires
        pool.wf(),
        0 <= worker < pool.workers.len(),
        pool.workers[worker].state == WorkerState::Running,
    ensures
        pool.claim(worker).wf(),
{
    let next = pool.claim(worker);
    match pool.channel.front() {
        Dequeue::Item(task) => {
            assert(next.claimed() =~= pool.claimed().push(task));
            assert(next.submitted =~= next.claimed() + next.channel.items);
            assert forall|k: int| 0 <= k < next.runs.len() implies {
                let run = #[trigger] next.runs[k];
                &&& 0 <= run.worker < next.workers.len()
                &&& !run.finished ==> {
                    &&& next.workers[run.worker].state == WorkerState::Executing
                    &&& next.workers[run.worker].current == k
                }
            } by {
                if k < pool.runs.len() {
                    assert(next.runs[k] == pool.runs[k]);
                }
            }
            assert forall|i: int|
                0 <= i < next.workers.len() && (#[trigger] next.workers[i]).state
                    == WorkerState::Executing implies {
                let k = next.workers[i].current;
                &&& 0 <= k < next.runs.len()
                &&& next.runs[k].worker == i
                &&& !next.runs[k].finished
            } by {
                if i != worker {
                    assert(next.workers[i] == pool.workers[i]);
                }
            }
            assert forall|i: int|
                0 <= i < next.workers.len() && (#[trigger] next.workers[i]).state
                    == WorkerState::Terminated implies next.channel.shutdown
                && next.channel.items.len() == 0 by {
                assert(next.workers[i] == pool.workers[i]);
            }
        },
        Dequeue::Wait => {},
        Dequeue::Shutdown => {
            assert forall|k: int| 0 <= k < next.runs.len() implies {
                let run = #[trigger] next.runs[k];
                &&& 0 <= run.worker < next.workers.len()
                &&& !run.finished ==> {
                    &&& next.workers[run.worker].state == WorkerState::Executing
                    &&& next.workers[run.worker].current == k
                }
            } by {
                assert(next.runs[k] == pool.runs[k]);
            }
            assert forall|i: int|
                0 <= i < next.workers.len() && (#[trigger] next.workers[i]).state
                    == WorkerState::Executing implies {
                let k = next.workers[i].current;
                &&& 0 <= k < next.runs.len()
                &&& next.runs[k].worker == i
                &&& !next.runs[k].finished
            } by {
                assert(next.workers[i] == pool.workers[i]);
            }
            assert forall|i: int|
                0 <= i < next.workers.len() && (#[trigger] next.workers[i]).state
                    == WorkerState::Terminated implies next.channel.shutdown
                && next.channel.items.len() == 0 by {
                if i != worker {
                    assert(next.workers[i] == pool.workers[i]);
                }
            }
        },
    }
}

/// The end of a run, reported by the worker that is executing it, keeps the
/// invariant.
pub proof fn lemma_finish_wf<T>(pool: PoolModel<T>, worker: int)
    requires
        pool.wf(),
        0 <= worker < pool.workers.len(),
        pool.workers[worker].state == WorkerState::Executing,
    ensures
        pool.finish(worker).wf(),
{
    let next = pool.finish(worker);
    let current = pool.workers[worker].current;
    assert(pool.workers[worker].state == WorkerState::Executing);
    assert(next.claimed() =~= pool.claimed());
    assert forall|k: int| 0 <= k < next.runs.len() implies {
        let run = #[trigger] next.runs[k];
        &&& 0 <= run.worker < next.workers.len()
        &&& !run.finished ==> {
            &&& next.workers[run.worker].state == WorkerState::Executing
            &&& next.workers[run.worker].current == k
        }
    } by {
        if k != current {
            assert(next.runs[k] == pool.runs[k]);
        }
    }
    assert forall|i: int|
        0 <= i < next.workers.len() && (#[trigger] next.workers[i]).state
            == WorkerState::Executing implies {
        let k = next.workers[i].current;
        &&& 0 <= k < next.runs.len()
        &&& next.runs[k].worker == i
        &&& !next.runs[k].finished
    } by {
        assert(next.workers[i] == pool.workers[i]);
    }
    assert forall|i: int|
        0 <= i < next.workers.len() && (#[trigger] next.workers[i]).state
            == WorkerState::Terminated implies next.channel.shutdown && next.channel.items.len()
        == 0 by {
        assert(next.workers[i] == pool.workers[i]);
    }
}

/// The start of teardown keeps the invariant.
pub proof fn lemma_shutdown_wf<T>(pool: PoolModel<T>)
    requires
        pool.wf(),
    ensures
        pool.shutdown().wf(),
{
}

/// Exactly once: in every state of the pool, the tasks submitted so far are
/// the tasks of the runs, one run for each and in the order of submission,
/// followed by the tasks still pending; and each run belongs to one worker.
pub proof fn lemma_exactly_once<T>(pool: PoolModel<T>)
    requires
        pool.wf(),
    ensures
        pool.submitted == pool.claimed() + pool.channel.items,
        pool.runs.len() + pool.channel.items.len() == pool.submitted.len(),
        forall|k: int|
            0 <= k < pool.runs.len() ==> {
                &&& (#[trigger] pool.runs[k]).task == pool.submitted[k]
                &&& 0 <= pool.runs[k].worker < pool.workers.len()
            },
{
    assert forall|k: int| 0 <= k < pool.runs.len() implies {
        &&& (#[trigger] pool.runs[k]).task == pool.submitted[k]
        &&& 0 <= pool.runs[k].worker < pool.workers.len()
    } by {
        assert(pool.claimed()[k] == pool.runs[k].task);
    }
}

/// Teardown is complete: once every worker has terminated, nothing is
/// pending, every submitted task has had its one run, and every run has
/// ended.
pub proof fn lemma_teardown_complete<T>(pool: PoolModel<T>)
    requires
        pool.wf(),
        pool.all_terminated(),
    ensures
        pool.channel.shutdown,
        pool.channel.items.len() == 0,
        pool.claimed() == pool.submitted,
        pool.all_finished(),
{
    assert(pool.workers[0].state == WorkerState::Terminated);
    assert(pool.claimed() + pool.channel.items =~= pool.claimed());
    assert forall|k: int| 0 <= k < pool.runs.len() implies (#[trigger] pool.runs[k]).finished by {
        let run = pool.runs[k];
        assert(pool.workers[run.worker].state == WorkerState::Terminated);
    }
}

/// One call on the pool.
pub ghost enum PoolCall<T> {
    /// The task was submitted.
    Execute(T),
    /// The worker with this index polled the channel.
    Claim(int),
    /// The worker with this index reported the end of its run.
    Finish(int),
    /// Teardown began.
    Shutdown,
}

/// The pool admits `call`: no task is submitted after teardown began, only a
/// polling worker polls, and only an executing worker reports an end.
pub open spec fn permitted<T>(pool: PoolModel<T>, call: PoolCall<T>) -> bool {
    match call {
        PoolCall::Execute(_) => !pool.channel.shutdown,
        PoolCall::Claim(worker) => 0 <= worker < pool.workers.len()
            && pool.workers[worker].state == WorkerState::Running,
        PoolCall::Finish(worker) => 0 <= worker < pool.workers.len()
            && pool.workers[worker].state == WorkerState::Executing,
        PoolCall::Shutdown => true,
    }
}

/// The pool after `call`.
pub open spec fn step<T>(pool: PoolModel<T>, call: PoolCall<T>) -> PoolModel<T> {
    match call {
        PoolCall::Execute(task) => pool.execute(task),
        PoolCall::Claim(worker) => pool.claim(worker),
        PoolCall::Finish(worker) => pool.finish(worker),
        PoolCall::Shutdown => pool.shutdown(),
    }
}

/// A pool of `size` workers after all of `calls`, in the order in which they
/// held the lock.
pub open spec fn pool_after<T>(size: nat, calls: Seq<PoolCall<T>>) -> PoolModel<T>
    decreases calls.len(),
{
    if calls.len() == 0 {
        PoolModel::new(size)
    } else {
        step(pool_after(size, calls.drop_last()), calls.last())
    }
}

/// Each of `calls` was admitted by the pool as it then was.
pub open spec fn orderly<T>(size: nat, calls: Seq<PoolCall<T>>) -> bool
    decreases calls.len(),
{
    calls.len() > 0 ==> orderly(size, calls.drop_last()) && permitted(
        pool_after(size, calls.drop_last()),
        calls.last(),
    )
}

/// The tasks submitted during `calls`, in that order.
pub open spec fn submissions<T>(calls: Seq<PoolCall<T>>) -> Seq<T>
    decreases calls.len(),
{
    if calls.len() == 0 {
        Seq::empty()
    } else {
        match calls.last() {
            PoolCall::Execute(task) => submissions(calls.drop_last()).push(task),
            _ => submissions(calls.drop_last()),
        }
    }
}

/// Whatever the workers and the submitters do, and in whatever order, the
/// pool meets its invariant, has as many workers as it was made with, and
/// has on record exactly the tasks that were submitted.
pub proof fn lemma_reachable<T>(size: nat, calls: Seq<PoolCall<T>>)
    requires
        size >= 1,
        orderly(size, calls),
    ensures
        pool_after(size, calls).wf(),
        pool_after(size, calls).workers.len() == size,
        pool_after(size, calls).submitted == submissions(calls),
    decreases calls.len(),
{
    if calls.len() == 0 {
        lemma_new_wf::<T>(size);
    } else {
        let earlier = calls.drop_last();
        lemma_reachable(size, earlier);
        let before = pool_after(size, earlier);
        match calls.last() {
            PoolCall::Execute(task) => lemma_execute_wf(before, task),
            PoolCall::Claim(worker) => lemma_claim_wf(before, worker),
            PoolCall::Finish(worker) => lemma_finish_wf(before, worker),
            PoolCall::Shutdown => lemma_shutdown_wf(before),
        }
    }
}

/// Every task runs exactly once, whatever the number of workers: when all
/// workers of a pool have terminated, the runs on record are, one for one and
/// in order, the tasks that were submitted; each run was made by one worker
/// of the pool and has ended; and nothing is pending.
pub proof fn lemma_every_task_runs_once<T>(size: nat, calls: Seq<PoolCall<T>>)
    requires
        size >= 1,
        orderly(size, calls),
        pool_after(size, calls).all_terminated(),
    ensures
        pool_after(size, calls).claimed() == submissions(calls),
        pool_after(size, calls).runs.len() == submissions(calls).len(),
        pool_after(size, calls).all_finished(),
        pool_after(size, calls).channel.items.len() == 0,
        forall|k: int|
            0 <= k < submissions(calls).len() ==> {
                let run = #[trigger] pool_after(size, calls).runs[k];
                &&& run.task == submissions(calls)[k]
                &&& 0 <= run.worker < size
                &&& run.finished
            },
{
    let pool = pool_after(size, calls);
    lemma_reachable(size, calls);
    lemma_teardown_complete(pool);
    lemma_exactly_once(pool);
}

/// Terminated is absorbing: the invariant leaves a terminated worker no
/// move, since it is neither polling nor executing, and no submission or
/// signal changes a worker.
pub proof fn lemma_terminated_stays<T>(pool: PoolModel<T>, worker: int, other: int, task: T)
    requires
        pool.wf(),
        0 <= worker < pool.workers.len(),
        0 <= other < pool.workers.len(),
        other != worker,
        pool.workers[worker].state == WorkerState::Terminated,
    ensures
        pool.execute(task).workers[worker].state == WorkerState::Terminated,
        pool.shutdown().workers[worker].state == WorkerState::Terminated,
        pool.claim(other).workers[worker].state == WorkerState::Terminated,
        pool.finish(other).workers[worker].state == WorkerState::Terminated,
{
}

} // verus!
