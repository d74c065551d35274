use crate::queue::{
    execution_units, guard_queue, open_queue, send_signal, share_queue, PendingTasks,
};
use crate::model::Pool;
use crate::signal::Signal;
use crate::worker::{Worker, WorkerState};
use std::sync::mpsc::Sender;
use std::sync::Arc;
use vstd::prelude::*;

verus! {

/// Why the pool refused to do what it was asked.
#[derive(Clone, Copy, Debug, PartialEq, Eq, Structural)]
pub enum PoolError {
    /// The machine reports fewer than one execution unit.
    NoExecutionUnits,
    /// The receiving side of the queue is gone: no worker is left to claim.
    QueueClosed,
    /// Teardown has begun.
    ShutDown,
}

/// A freshly built pool's workers: as many as the pool's size, numbered from
/// zero in order, all running, all on one queue. Their states are those of
/// `Pool::fresh`, from which the laws of `crate::model` start.
pub open spec fn fresh_workers<T>(workers: Seq<Worker<T>>, size: int) -> bool {
    &&& workers.len() == size
    &&& forall|i: int|
        0 <= i < workers.len() ==> {
            &&& (#[trigger] workers[i]).number() == i
            &&& workers[i].state() == WorkerState::Running
            &&& workers[i].queue() == workers[0].queue()
        }
}

/// The states of `workers`, in their order.
pub open spec fn states<T>(workers: Seq<Worker<T>>) -> Seq<WorkerState> {
    Seq::new(workers.len(), |i: int| workers[i].state())
}

/// The pool's submitting side: the sending end of the shared queue, the
/// number of workers it was built with, and whether teardown has begun.
#[verifier::reject_recursive_types(T)]
pub struct Scheduler<T> {
    size: usize,
    shut_down: bool,
    tx: Sender<Signal<T>>,
}

impl<T> Scheduler<T> {
    /// The number of workers that the pool was built with.
    pub closed spec fn spec_size(self) -> int {
        self.size as int
    }

    /// Whether teardown has begun.
    pub closed spec fn is_shut_down(self) -> bool {
        self.shut_down
    }

    /// A pool has at least one worker.
    pub closed spec fn wf(self) -> bool {
        self.size >= 1
    }

    /// A pool with one worker for each execution unit of the machine, and
    /// its workers, each to be driven on a thread of its own. Fails where
    /// the machine reports no unit.
    pub fn new() -> (res: Result<(Self, Vec<Worker<T>>), PoolError>)
        ensures
            match res {
                Ok((pool, workers)) => {
                    &&& pool.wf()
                    &&& !pool.is_shut_down()
                    &&& fresh_workers(workers@, pool.spec_size())
                    &&& states(workers@) == Pool::<T>::fresh(pool.spec_size() as nat).workers
                },
                Err(e) => e == PoolError::NoExecutionUnits,
            },
    {
        Self::with_units(execution_units())
    }

    /// A pool with `units` workers, and its workers. Fails exactly where
    /// `units` is less than one: a pool is never built without a worker.
    pub fn with_units(units: usize) -> (res: Result<(Self, Vec<Worker<T>>), PoolError>)
        ensures
            units < 1 <==> res is Err,
            match res {
                Ok((pool, workers)) => {
                    &&& pool.wf()
                    &&& !pool.is_shut_down()
                    &&& pool.spec_size() == units
                    &&& fresh_workers(workers@, units as int)
                    &&& states(workers@) == Pool::<T>::fresh(units as nat).workers
                },
                Err(e) => e == PoolError::NoExecutionUnits,
            },
    {
        if units < 1 {
            return Err(PoolError::NoExecutionUnits);
        }
        let (tx, rx) = open_queue();
        let rx: PendingTasks<T> = Arc::new(guard_queue(rx));
        let mut workers: Vec<Worker<T>> = Vec::with_capacity(units);
        let mut id: usize = 0;
        while id < units
            invariant
                id <= units,
                workers@.len() == id,
                forall|i: int|
                    0 <= i < workers@.len() ==> {
                        &&& (#[trigger] workers@[i]).number() == i
                        &&& workers@[i].state() == WorkerState::Running
                        &&& workers@[i].queue() == rx
                    },
            decreases units - id,
        {
            workers.push(Worker::new(id, share_queue(&rx)));
            id += 1;
        }
        assert(states(workers@) =~= Pool::<T>::fresh(units as nat).workers);
        Ok((Scheduler { size: units, shut_down: false, tx }, workers))
    }

    /// The number of workers that the pool was built with.
    pub fn size(&self) -> (n: usize)
        ensures
            n == self.spec_size(),
    {
        self.size
    }

    /// Puts `task` on the queue as a `CreateTask` signal and returns at
    /// once. Once teardown has begun nothing is sent, and the task comes
    /// back with `ShutDown`; a task that the queue refuses comes back with
    /// `QueueClosed`. A task is never dropped in silence.
    pub fn create(&self, task: T) -> (res: Result<(), (PoolError, T)>)
        ensures
            self.is_shut_down() ==> res == Err::<(), (PoolError, T)>((PoolError::ShutDown, task)),
            !self.is_shut_down() ==> res is Ok || res == Err::<(), (PoolError, T)>(
                (PoolError::QueueClosed, task),
            ),
    {
        if self.shut_down {
            return Err((PoolError::ShutDown, task));
        }
        Self::answer(send_signal(&self.tx, Signal::CreateTask(task)))
    }

    /// Turns what the queue said of a `CreateTask` signal into the answer of
    /// `create`: a refused signal gives its task back with `QueueClosed`.
    pub fn answer(sent: Result<(), Signal<T>>) -> (res: Result<(), (PoolError, T)>)
        requires
            sent matches Err(back) ==> back is CreateTask,
        ensures
            res == match sent {
                Ok(()) => Ok::<(), (PoolError, T)>(()),
                Err(back) => Err((PoolError::QueueClosed, back->CreateTask_0)),
            },
    {
        match sent {
            Ok(()) => Ok(()),
            Err(Signal::CreateTask(task)) => Err((PoolError::QueueClosed, task)),
            Err(Signal::TerminateTask) => unreached(),
        }
    }

    /// Teardown's count after one more stopping signal: one more where the
    /// queue took it, and `QueueClosed` where the queue refused it.
    pub fn tally(sent: usize, outcome: Result<(), Signal<T>>) -> (res: Result<usize, PoolError>)
        requires
            sent < usize::MAX,
        ensures
            res == match outcome {
                Ok(()) => Ok::<usize, PoolError>((sent + 1) as usize),
                Err(_) => Err(PoolError::QueueClosed),
            },
    {
        match outcome {
            Ok(()) => Ok(sent + 1),
            Err(_) => Err(PoolError::QueueClosed),
        }
    }

    /// Begins teardown: puts one `TerminateTask` on the queue for each
    /// worker, so that each live worker claims exactly one, and from then on
    /// refuses every task. The answer is the number of workers to wait for,
    /// in the order of their numbers. A second pass sends nothing and
    /// answers `ShutDown`; a queue that refuses a signal ends the pass with
    /// `QueueClosed`, since no worker is left to claim the rest.
    pub fn shutdown(&mut self) -> (res: Result<usize, PoolError>)
        ensures
            final(self).is_shut_down(),
            final(self).spec_size() == old(self).spec_size(),
            final(self).wf() == old(self).wf(),
            old(self).is_shut_down() ==> res == Err::<usize, PoolError>(PoolError::ShutDown),
            !old(self).is_shut_down() ==> (res matches Ok(n) && n == old(self).spec_size()) || res
                == Err::<usize, PoolError>(PoolError::QueueClosed),
    {
        if self.shut_down {
            return Err(PoolError::ShutDown);
        }
        self.shut_down = true;
        let mut sent: usize = 0;
        while sent < self.size
            invariant
                sent <= self.size,
                self.shut_down,
                !old(self).shut_down,
                self.size == old(self).size,
            decreases self.size - sent,
        {
            match Self::tally(sent, send_signal(&self.tx, Signal::TerminateTask)) {
                Ok(n) => {
                    sent = n;
                },
                Err(e) => {
                    return Err(e);
                },
            }
        }
        Ok(sent)
    }
}

} // verus!
