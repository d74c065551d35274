//! The pool as a whole, as a transition system over plain values, and what
//! holds of every run of it. A worker moves by `crate::worker::step`, the
//! function that `Worker::dispatch` is held to.
use crate::signal::Signal;
use crate::worker::{step, WorkerState};
use vstd::prelude::*;

verus! {

/// How many items of `s` satisfy `p`.
pub open spec fn count<A>(s: Seq<A>, p: spec_fn(A) -> bool) -> nat
    decreases s.len(),
{
    if s.len() == 0 {
        0
    } else {
        count(s.drop_last(), p) + if p(s.last()) {
            1nat
        } else {
            0nat
        }
    }
}

/// One where `b` holds, zero where it does not.
pub open spec fn unit(b: bool) -> nat {
    if b {
        1
    } else {
        0
    }
}

/// Counting over a sequence with one more item at its end.
pub proof fn lemma_count_push<A>(s: Seq<A>, a: A, p: spec_fn(A) -> bool)
    ensures
        count(s.push(a), p) == count(s, p) + unit(p(a)),
{
    assert(s.push(a).drop_last() =~= s);
}

/// Counting over a sequence from its first item on.
pub proof fn lemma_count_skip<A>(s: Seq<A>, p: spec_fn(A) -> bool)
    requires
        s.len() > 0,
    ensures
        count(s, p) == unit(p(s[0])) + count(s.skip(1), p),
    decreases s.len(),
{
    if s.len() == 1 {
        assert(s.drop_last() =~= Seq::<A>::empty());
        assert(s.skip(1) =~= Seq::<A>::empty());
    } else {
        lemma_count_skip(s.drop_last(), p);
        assert(s.skip(1).drop_last() =~= s.drop_last().skip(1));
    }
}

/// Counting over a sequence in which one item was replaced.
pub proof fn lemma_count_update<A>(s: Seq<A>, i: int, a: A, p: spec_fn(A) -> bool)
    requires
        0 <= i < s.len(),
    ensures
        count(s.update(i, a), p) + unit(p(s[i])) == count(s, p) + unit(p(a)),
    decreases s.len(),
{
    if i == s.len() - 1 {
        assert(s.update(i, a).drop_last() =~= s.drop_last());
    } else {
        lemma_count_update(s.drop_last(), i, a, p);
        assert(s.update(i, a).drop_last() =~= s.drop_last().update(i, a));
    }
}

/// A count is at most the length, and zero only where no item satisfies
/// the predicate.
pub proof fn lemma_count_bounds<A>(s: Seq<A>, p: spec_fn(A) -> bool)
    ensures
        count(s, p) <= s.len(),
        count(s, p) == 0 ==> forall|i: int| 0 <= i < s.len() ==> !p(#[trigger] s[i]),
    decreases s.len(),
{
    if s.len() > 0 {
        lemma_count_bounds(s.drop_last(), p);
        assert forall|i: int| count(s, p) == 0 && 0 <= i < s.len() implies !p(#[trigger] s[i]) by {
            if i < s.len() - 1 {
                assert(s.drop_last()[i] == s[i]);
            }
        }
    }
}

/// The signals that carry the task `t`.
pub open spec fn carries<T>(t: T) -> spec_fn(Signal<T>) -> bool {
    |s: Signal<T>| s.task() == Some(t)
}

/// The signals that stop the worker that claims them.
pub open spec fn stopping<T>() -> spec_fn(Signal<T>) -> bool {
    |s: Signal<T>| s.stops()
}

/// The workers' hands that hold the task `t`.
pub open spec fn holds<T>(t: T) -> spec_fn(Option<T>) -> bool {
    |h: Option<T>| h == Some(t)
}

/// The workers' hands that hold a task.
pub open spec fn busy<T>() -> spec_fn(Option<T>) -> bool {
    |h: Option<T>| h is Some
}

/// The finished tasks that are `t`.
pub open spec fn same<T>(t: T) -> spec_fn(T) -> bool {
    |d: T| d == t
}

/// The workers that still claim signals.
pub open spec fn running() -> spec_fn(WorkerState) -> bool {
    |w: WorkerState| w == WorkerState::Running
}

/// What happens to the pool, one thing at a time: a producer submits a
/// task, teardown begins, a worker claims the signal at the head of the
/// queue, or a worker finishes the task that it holds.
pub enum Event<T> {
    Create(T),
    Teardown,
    Claim(int),
    Finish(int),
}

/// The pool between two events: the signals not yet claimed, oldest first;
/// each worker's state; the task that each worker is running, if any; the
/// tasks that have run to their end; and whether teardown has begun.
pub struct Pool<T> {
    pub queue: Seq<Signal<T>>,
    pub workers: Seq<WorkerState>,
    pub holding: Seq<Option<T>>,
    pub done: Seq<T>,
    pub closed: bool,
}

impl<T> Pool<T> {
    /// Each worker has one hand, and once teardown has begun a stopping
    /// signal waits for each worker that is still live.
    pub open spec fn wf(self) -> bool {
        &&& self.holding.len() == self.workers.len()
        &&& self.closed ==> self.pending_stops() >= self.live()
    }

    /// A pool of `n` running workers, with nothing queued, held or done.
    pub open spec fn fresh(n: nat) -> Self {
        Pool {
            queue: Seq::empty(),
            workers: Seq::new(n, |i: int| WorkerState::Running),
            holding: Seq::new(n, |i: int| None::<T>),
            done: Seq::empty(),
            closed: false,
        }
    }

    /// One more signal at the end of the queue.
    pub open spec fn enqueue(self, signal: Signal<T>) -> Self {
        Pool {
            queue: self.queue.push(signal),
            workers: self.workers,
            holding: self.holding,
            done: self.done,
            closed: self.closed,
        }
    }

    /// Once teardown has begun a task is refused; before, it is queued.
    pub open spec fn create(self, t: T) -> Self {
        if self.closed {
            self
        } else {
            self.enqueue(Signal::CreateTask(t))
        }
    }

    /// `n` stopping signals at the end of the queue.
    pub open spec fn terminate(self, n: nat) -> Self
        decreases n,
    {
        if n == 0 {
            self
        } else {
            self.terminate((n - 1) as nat).enqueue(Signal::TerminateTask)
        }
    }

    /// Teardown queues one stopping signal for each worker and closes the
    /// pool to producers. A second pass does nothing.
    pub open spec fn teardown(self) -> Self {
        if self.closed {
            self
        } else {
            Pool {
                queue: self.terminate(self.workers.len()).queue,
                workers: self.workers,
                holding: self.holding,
                done: self.done,
                closed: true,
            }
        }
    }

    /// A worker claims only while it runs, holds no task, and a signal
    /// waits.
    pub open spec fn can_claim(self, w: int) -> bool {
        &&& 0 <= w < self.workers.len()
        &&& self.workers[w] == WorkerState::Running
        &&& self.holding[w] is None
        &&& self.queue.len() > 0
    }

    /// The worker `w` takes the oldest signal and acts on it as
    /// `crate::worker::step` says.
    pub open spec fn claim(self, w: int) -> Self {
        if self.can_claim(w) {
            Pool {
                queue: self.queue.skip(1),
                workers: self.workers.update(w, step(Some(self.queue[0])).0),
                holding: self.holding.update(w, step(Some(self.queue[0])).1),
                done: self.done,
                closed: self.closed,
            }
        } else {
            self
        }
    }

    /// A worker finishes only a task that it holds.
    pub open spec fn can_finish(self, w: int) -> bool {
        0 <= w < self.holding.len() && self.holding[w] is Some
    }

    /// The worker `w` ends the task that it holds.
    pub open spec fn finish(self, w: int) -> Self {
        if self.can_finish(w) {
            Pool {
                queue: self.queue,
                workers: self.workers,
                holding: self.holding.update(w, None),
                done: self.done.push(self.holding[w]->Some_0),
                closed: self.closed,
            }
        } else {
            self
        }
    }

    /// The pool after one event. An event that cannot happen changes
    /// nothing.
    pub open spec fn after(self, event: Event<T>) -> Self {
        match event {
            Event::Create(t) => self.create(t),
            Event::Teardown => self.teardown(),
            Event::Claim(w) => self.claim(w),
            Event::Finish(w) => self.finish(w),
        }
    }

    /// The pool after `events`, in their order.
    pub open spec fn run(self, events: Seq<Event<T>>) -> Self
        decreases events.len(),
    {
        if events.len() == 0 {
            self
        } else {
            self.run(events.drop_last()).after(events.last())
        }
    }

    /// How often `events` submit the task `t` before teardown has begun.
    pub open spec fn accepted(self, events: Seq<Event<T>>, t: T) -> nat
        decreases events.len(),
    {
        if events.len() == 0 {
            0
        } else {
            self.accepted(events.drop_last(), t) + unit(
                events.last() == Event::Create(t) && !self.run(events.drop_last()).closed,
            )
        }
    }

    /// How often the task `t` is in the pool: queued, held or done.
    pub open spec fn occurrences(self, t: T) -> nat {
        count(self.queue, carries(t)) + count(self.holding, holds(t)) + count(self.done, same(t))
    }

    /// How often the task `t` has run to its end.
    pub open spec fn completions(self, t: T) -> nat {
        count(self.done, same(t))
    }

    /// How many tasks are running.
    pub open spec fn in_flight(self) -> nat {
        count(self.holding, busy())
    }

    /// How many workers still claim signals.
    pub open spec fn live(self) -> nat {
        count(self.workers, running())
    }

    /// How many queued signals will stop a worker.
    pub open spec fn pending_stops(self) -> nat {
        count(self.queue, stopping())
    }

    /// Whether every worker has stopped.
    pub open spec fn all_stopped(self) -> bool {
        forall|w: int| 0 <= w < self.workers.len() ==> self.workers[w] == WorkerState::Stopped
    }

    /// Nothing is queued and no task is running.
    pub open spec fn at_rest(self) -> bool {
        self.queue.len() == 0 && self.in_flight() == 0
    }

    proof fn lemma_terminate(self, n: nat, t: T)
        ensures
            count(self.terminate(n).queue, stopping()) == count(self.queue, stopping()) + n,
            count(self.terminate(n).queue, carries(t)) == count(self.queue, carries(t)),
        decreases n,
    {
        if n > 0 {
            let before = self.terminate((n - 1) as nat);
            self.lemma_terminate((n - 1) as nat, t);
            lemma_count_push(before.queue, Signal::<T>::TerminateTask, stopping());
            lemma_count_push(before.queue, Signal::<T>::TerminateTask, carries(t));
        }
    }

    proof fn lemma_after(self, event: Event<T>, t: T)
        requires
            self.wf(),
        ensures
            self.after(event).wf(),
            self.after(event).workers.len() == self.workers.len(),
            self.closed ==> self.after(event).closed,
            self.after(event).occurrences(t) == self.occurrences(t) + unit(
                event == Event::Create(t) && !self.closed,
            ),
    {
        match event {
            Event::Create(u) => {
                lemma_count_push(self.queue, Signal::CreateTask(u), carries(t));
                lemma_count_push(self.queue, Signal::CreateTask(u), stopping());
            },
            Event::Teardown => {
                self.lemma_terminate(self.workers.len(), t);
                lemma_count_bounds(self.workers, running());
            },
            Event::Claim(w) => {
                if self.can_claim(w) {
                    lemma_count_skip(self.queue, carries(t));
                    lemma_count_skip(self.queue, stopping());
                    lemma_count_update(self.workers, w, step(Some(self.queue[0])).0, running());
                    lemma_count_update(self.holding, w, step(Some(self.queue[0])).1, holds(t));
                }
            },
            Event::Finish(w) => {
                if self.can_finish(w) {
                    lemma_count_update(self.holding, w, None, holds(t));
                    lemma_count_push(self.done, self.holding[w]->Some_0, same(t));
                }
            },
        }
    }

    proof fn lemma_run(self, events: Seq<Event<T>>, t: T)
        requires
            self.wf(),
        ensures
            self.run(events).wf(),
            self.run(events).workers.len() == self.workers.len(),
            self.closed ==> self.run(events).closed,
            self.run(events).occurrences(t) == self.occurrences(t) + self.accepted(events, t),
        decreases events.len(),
    {
        if events.len() > 0 {
            self.lemma_run(events.drop_last(), t);
            self.run(events.drop_last()).lemma_after(events.last(), t);
        }
    }

    /// A fresh pool is well formed and orderly, and it holds no task yet.
    pub proof fn law_fresh(n: nat, t: T)
        ensures
            Self::fresh(n).wf(),
            Self::fresh(n).orderly(),
            Self::fresh(n).workers.len() == n,
            Self::fresh(n).in_flight() == 0,
            Self::fresh(n).occurrences(t) == 0,
    {
        let p = Self::fresh(n);
        lemma_count_all_idle(p.holding, t);
    }

    /// No event breaks the pool's shape: it keeps its workers, and stays
    /// well formed.
    pub proof fn law_well_formed(self, events: Seq<Event<T>>)
        requires
            self.wf(),
        ensures
            self.run(events).wf(),
            self.run(events).workers.len() == self.workers.len(),
            forall|e: Event<T>| (#[trigger] self.after(e)).wf(),
    {
        self.lemma_run(events, arbitrary::<T>());
        assert forall|e: Event<T>| (#[trigger] self.after(e)).wf() by {
            self.lemma_after(e, arbitrary::<T>());
        }
    }

    /// No task is lost and none is run twice. Whatever the producers and the
    /// workers do, and in whatever order, a task is in the pool (queued,
    /// held or done) once for each time it was accepted; and when the pool
    /// is at rest, it has run to its end exactly that often.
    pub proof fn law_delivered_once(self, events: Seq<Event<T>>, t: T)
        requires
            self.wf(),
        ensures
            self.run(events).occurrences(t) == self.occurrences(t) + self.accepted(events, t),
            self.run(events).at_rest() ==> self.run(events).completions(t) == self.occurrences(t)
                + self.accepted(events, t),
    {
        self.lemma_run(events, t);
        let end = self.run(events);
        if end.at_rest() {
            lemma_count_bounds(end.queue, carries(t));
            lemma_count_none_held(end.holding, t);
        }
    }

    /// Never do more tasks run at once than the pool has workers.
    pub proof fn law_bounded_concurrency(self, events: Seq<Event<T>>)
        requires
            self.wf(),
        ensures
            self.run(events).in_flight() <= self.workers.len(),
    {
        self.lemma_run(events, arbitrary::<T>());
        lemma_count_bounds(self.run(events).holding, busy());
    }

    /// Once teardown has begun, no task is accepted any more, and the pool
    /// stays closed whatever follows.
    pub proof fn law_closed_for_good(self, events: Seq<Event<T>>, t: T)
        requires
            self.wf(),
            self.closed,
        ensures
            self.create(t) == self,
            self.run(events).closed,
            self.accepted(events, t) == 0,
        decreases events.len(),
    {
        self.lemma_run(events, t);
        if events.len() > 0 {
            self.law_closed_for_good(events.drop_last(), t);
            self.lemma_run(events.drop_last(), t);
        }
    }

    /// Whether a task waits in the queue.
    pub open spec fn task_waits(self) -> bool {
        exists|i: int| 0 <= i < self.queue.len() && #[trigger] self.queue[i] is CreateTask
    }

    /// Whether the worker `w` can move: claim a signal, or finish its task.
    pub open spec fn can_act(self, w: int) -> bool {
        self.can_claim(w) || self.can_finish(w)
    }

    /// Whether some worker can move.
    pub open spec fn can_move(self) -> bool {
        exists|w: int| #[trigger] self.can_act(w)
    }

    /// The queue of a pool that was built fresh: stopping signals come after
    /// every task, and only once teardown has begun; and no worker has
    /// stopped while the pool is open or a task is at the head of the queue.
    pub open spec fn orderly(self) -> bool {
        &&& forall|i: int, j: int|
            0 <= i < j < self.queue.len() && (#[trigger] self.queue[i]).stops() ==> (
            #[trigger] self.queue[j]).stops()
        &&& !self.closed ==> forall|i: int|
            0 <= i < self.queue.len() ==> !(#[trigger] self.queue[i]).stops()
        &&& !self.closed || (self.queue.len() > 0 && !self.queue[0].stops()) ==> forall|w: int|
            0 <= w < self.workers.len() ==> #[trigger] self.workers[w] == WorkerState::Running
    }

    proof fn lemma_terminate_queue(self, n: nat)
        ensures
            self.terminate(n).queue.len() == self.queue.len() + n,
            forall|i: int|
                0 <= i < self.queue.len() ==> (#[trigger] self.terminate(n).queue[i])
                    == self.queue[i],
            forall|i: int|
                self.queue.len() <= i < self.queue.len() + n ==> (#[trigger] self.terminate(
                    n,
                ).queue[i]).stops(),
        decreases n,
    {
        if n > 0 {
            self.lemma_terminate_queue((n - 1) as nat);
        }
    }

    proof fn lemma_orderly_after(self, event: Event<T>)
        requires
            self.wf(),
            self.orderly(),
        ensures
            self.after(event).orderly(),
    {
        let next = self.after(event);
        match event {
            Event::Create(u) => {},
            Event::Teardown => {
                self.lemma_terminate_queue(self.workers.len());
            },
            Event::Claim(w) => {
                if self.can_claim(w) {
                    assert forall|i: int, j: int|
                        0 <= i < j < next.queue.len() && (#[trigger] next.queue[i]).stops() implies (
                    #[trigger] next.queue[j]).stops() by {
                        assert(next.queue[i] == self.queue[i + 1]);
                        assert(next.queue[j] == self.queue[j + 1]);
                    }
                    assert forall|i: int| !next.closed && 0 <= i < next.queue.len() implies !(
                    #[trigger] next.queue[i]).stops() by {
                        assert(next.queue[i] == self.queue[i + 1]);
                    }
                    if next.queue.len() > 0 && !next.queue[0].stops() {
                        assert(next.queue[0] == self.queue[1]);
                        assert(!self.queue[0].stops());
                    }
                }
            },
            Event::Finish(w) => {},
        }
    }

    /// No task is left unclaimed. In a pool that was built fresh with at
    /// least one worker, whatever has happened since: while a task waits in
    /// the queue no worker has stopped, and some worker can move, either to
    /// claim the oldest signal or to finish the task it holds.
    pub proof fn law_no_starvation(self, events: Seq<Event<T>>)
        requires
            self.wf(),
            self.orderly(),
            self.workers.len() >= 1,
        ensures
            self.run(events).orderly(),
            self.run(events).task_waits() ==> self.run(events).live() == self.workers.len()
                && self.run(events).can_move(),
        decreases events.len(),
    {
        self.lemma_run(events, arbitrary::<T>());
        if events.len() > 0 {
            self.law_no_starvation(events.drop_last());
            self.lemma_run(events.drop_last(), arbitrary::<T>());
            self.run(events.drop_last()).lemma_orderly_after(events.last());
        }
        let end = self.run(events);
        if end.task_waits() {
            let i = choose|i: int| 0 <= i < end.queue.len() && #[trigger] end.queue[i] is CreateTask;
            assert(!end.queue[i].stops());
            assert(!end.queue[0].stops());
            lemma_count_all(end.workers, running());
            assert(end.can_act(0));
        }
    }

    /// Teardown reaches every worker: from the event that begins it, the
    /// live workers never outnumber the stopping signals that wait, so when
    /// the queue has been emptied every worker has stopped.
    pub proof fn law_teardown_stops_every_worker(self, events: Seq<Event<T>>)
        requires
            self.wf(),
        ensures
            self.teardown().run(events).closed,
            self.teardown().run(events).pending_stops() >= self.teardown().run(events).live(),
            self.teardown().run(events).queue.len() == 0 ==> self.teardown().run(
                events,
            ).all_stopped(),
    {
        let t = arbitrary::<T>();
        self.lemma_after(Event::Teardown, t);
        self.teardown().lemma_run(events, t);
        let end = self.teardown().run(events);
        if end.queue.len() == 0 {
            lemma_count_bounds(end.workers, running());
            assert forall|w: int| 0 <= w < end.workers.len() implies end.workers[w]
                == WorkerState::Stopped by {
                assert(!running()(end.workers[w]));
            }
        }
    }
}

proof fn lemma_count_all<A>(s: Seq<A>, p: spec_fn(A) -> bool)
    requires
        forall|i: int| 0 <= i < s.len() ==> p(#[trigger] s[i]),
    ensures
        count(s, p) == s.len(),
    decreases s.len(),
{
    if s.len() > 0 {
        lemma_count_all(s.drop_last(), p);
    }
}

proof fn lemma_count_none_held<T>(holding: Seq<Option<T>>, t: T)
    requires
        count(holding, busy()) == 0,
    ensures
        count(holding, holds(t)) == 0,
    decreases holding.len(),
{
    if holding.len() > 0 {
        lemma_count_bounds(holding.drop_last(), busy());
        lemma_count_none_held(holding.drop_last(), t);
    }
}

proof fn lemma_count_all_idle<T>(holding: Seq<Option<T>>, t: T)
    requires
        forall|i: int| 0 <= i < holding.len() ==> holding[i] is None,
    ensures
        count(holding, busy()) == 0,
        count(holding, holds(t)) == 0,
    decreases holding.len(),
{
    if holding.len() > 0 {
        lemma_count_all_idle(holding.drop_last(), t);
    }
}

} // verus!
