use crate::queue::{claim, PendingTasks};
use crate::signal::Signal;
use vstd::prelude::*;

verus! {

/// Where a worker stands: `Stopped` is final.
#[derive(Clone, Copy, Debug, PartialEq, Eq, Structural)]
pub enum WorkerState {
    Running,
    Stopped,
}

/// What a running worker does with the outcome of one claim: the state it
/// moves to, and the task it has to run, if any. A failed claim (`None`)
/// stops it, as the instruction to stop does.
pub open spec fn step<T>(event: Option<Signal<T>>) -> (WorkerState, Option<T>) {
    match event {
        Some(Signal::CreateTask(t)) => (WorkerState::Running, Some(t)),
        Some(Signal::TerminateTask) => (WorkerState::Stopped, None),
        None => (WorkerState::Stopped, None),
    }
}

/// One of the pool's workers: its number, its state, and its handle on the
/// shared queue.
#[verifier::reject_recursive_types(T)]
pub struct Worker<T> {
    pub id: usize,
    state: WorkerState,
    rx: PendingTasks<T>,
}

impl<T> Worker<T> {
    /// The shared queue that this worker claims from.
    pub closed spec fn queue(self) -> PendingTasks<T> {
        self.rx
    }

    /// The worker's number within its pool.
    pub closed spec fn number(self) -> int {
        self.id as int
    }

    /// The worker's state.
    pub closed spec fn state(self) -> WorkerState {
        self.state
    }

    /// Whether the worker still claims signals.
    pub open spec fn is_running(self) -> bool {
        self.state() == WorkerState::Running
    }

    /// A running worker with the number `id`, which claims from `rx`.
    pub fn new(id: usize, rx: PendingTasks<T>) -> (worker: Self)
        ensures
            worker.number() == id,
            worker.state() == WorkerState::Running,
            worker.queue() == rx,
    {
        Worker { id, state: WorkerState::Running, rx }
    }

    /// The worker's number within its pool.
    pub fn id(&self) -> (id: usize)
        ensures
            id == self.number(),
    {
        self.id
    }

    /// Whether this worker still claims signals.
    pub fn running(&self) -> (live: bool)
        ensures
            live == self.is_running(),
    {
        match self.state {
            WorkerState::Running => true,
            WorkerState::Stopped => false,
        }
    }

    /// Acts on the outcome of one claim: hands out the task of a
    /// `CreateTask` and stays running, or stops on `TerminateTask` and on a
    /// failed claim.
    pub fn dispatch(&mut self, event: Option<Signal<T>>) -> (task: Option<T>)
        requires
            old(self).is_running(),
        ensures
            final(self).state() == step(event).0,
            task == step(event).1,
            final(self).number() == old(self).number(),
            final(self).queue() == old(self).queue(),
    {
        match event {
            Some(Signal::CreateTask(t)) => Some(t),
            _ => {
                self.state = WorkerState::Stopped;
                None
            },
        }
    }

    /// One turn of the worker's loop. A running worker claims the next
    /// signal and dispatches on it; the task that comes back is the caller's
    /// to run, once, before the next turn, and by then the queue's lock has
    /// been given up. A stopped worker claims nothing, so a signal never
    /// reaches a worker that cannot act on it.
    ///
    /// A task that fails is neither caught nor reported here: it takes the
    /// thread that runs it down, and the pool goes on with one worker fewer.
    pub fn next(&mut self) -> (task: Option<T>)
        ensures
            !old(self).is_running() ==> task is None && *final(self) == *old(self),
            task is Some <==> final(self).is_running(),
            final(self).number() == old(self).number(),
            final(self).queue() == old(self).queue(),
    {
        if !self.running() {
            return None;
        }
        let event = claim(&self.rx);
        self.dispatch(event)
    }
}

} // verus!
