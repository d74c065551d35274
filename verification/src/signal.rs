use vstd::prelude::*;

verus! {

/// What travels through the shared queue: a task to run, or the instruction
/// to stop.
pub enum Signal<T> {
    CreateTask(T),
    TerminateTask,
}

impl<T> Signal<T> {
    /// The task that this signal carries, if it carries one.
    pub open spec fn task(self) -> Option<T> {
        match self {
            Signal::CreateTask(t) => Some(t),
            Signal::TerminateTask => None,
        }
    }

    /// Whether a worker that claims this signal stops.
    pub open spec fn stops(self) -> bool {
        self is TerminateTask
    }
}

} // verus!
