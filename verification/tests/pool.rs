use std::cell::Cell;
use std::rc::Rc;
use std::sync::mpsc::channel;
use std::sync::{Arc, Mutex};
use worker_pool::queue::PendingTasks;
use worker_pool::scheduler::{PoolError, Scheduler};
use worker_pool::signal::Signal;
use worker_pool::worker::Worker;

type Job = Box<dyn FnOnce()>;

fn pool_of(units: usize) -> (Scheduler<u32>, Vec<Worker<u32>>) {
    match Scheduler::with_units(units) {
        Ok(parts) => parts,
        Err(e) => panic!("no pool: {:?}", e),
    }
}

/// Lets the live workers take turns until every one has stopped, and gives
/// back the tasks in the order in which they were claimed, each with the
/// number of the worker that claimed it.
fn drain(workers: &mut Vec<Worker<u32>>) -> Vec<(usize, u32)> {
    let mut claimed = Vec::new();
    let mut live = true;
    while live {
        live = false;
        for w in workers.iter_mut() {
            if w.running() {
                if let Some(t) = w.next() {
                    claimed.push((w.id(), t));
                }
                live = live || w.running();
            }
        }
    }
    claimed
}

#[test]
fn zero_units_build_no_pool() {
    let res: Result<(Scheduler<u32>, Vec<Worker<u32>>), PoolError> = Scheduler::with_units(0);
    assert!(matches!(res, Err(PoolError::NoExecutionUnits)));
}

#[test]
fn one_unit_builds_one_worker() {
    let (pool, workers) = pool_of(1);
    assert_eq!(pool.size(), 1);
    assert_eq!(workers.len(), 1);
    assert_eq!(workers[0].id(), 0);
    assert!(workers[0].running());
}

#[test]
fn workers_are_numbered_from_zero() {
    let (pool, workers) = pool_of(4);
    assert_eq!(pool.size(), 4);
    assert_eq!(workers.len(), 4);
    for (i, w) in workers.iter().enumerate() {
        assert_eq!(w.id, i);
        assert_eq!(w.id(), i);
        assert!(w.running());
    }
}

#[test]
fn new_sizes_the_pool_by_the_machine() {
    let res: Result<(Scheduler<u32>, Vec<Worker<u32>>), PoolError> = Scheduler::new();
    match res {
        Ok((pool, workers)) => {
            assert!(pool.size() >= 1);
            assert_eq!(workers.len(), pool.size());
            assert_eq!(workers[pool.size() - 1].id(), pool.size() - 1);
        }
        Err(e) => assert_eq!(e, PoolError::NoExecutionUnits),
    }
}

#[test]
fn shutdown_without_tasks_stops_all_four_workers() {
    let (mut pool, mut workers) = pool_of(4);
    assert_eq!(pool.shutdown(), Ok(4));
    for w in workers.iter_mut() {
        assert_eq!(w.next(), None);
        assert!(!w.running());
    }
}

#[test]
fn create_after_shutdown_is_refused_with_the_task() {
    let (mut pool, mut workers) = pool_of(2);
    assert_eq!(pool.shutdown(), Ok(2));
    assert_eq!(pool.create(9), Err((PoolError::ShutDown, 9)));
    assert_eq!(drain(&mut workers), Vec::<(usize, u32)>::new());
}

#[test]
fn second_shutdown_sends_nothing() {
    let (mut pool, mut workers) = pool_of(2);
    assert_eq!(pool.create(1), Ok(()));
    assert_eq!(pool.shutdown(), Ok(2));
    assert_eq!(pool.shutdown(), Err(PoolError::ShutDown));
    assert_eq!(drain(&mut workers), vec![(0, 1)]);
    assert!(workers.iter().all(|w| !w.running()));
}

#[test]
fn tasks_are_claimed_once_each_in_queue_order() {
    let (mut pool, mut workers) = pool_of(3);
    for t in 0..7u32 {
        assert_eq!(pool.create(t), Ok(()));
    }
    assert_eq!(pool.shutdown(), Ok(3));
    let claimed = drain(&mut workers);
    assert_eq!(
        claimed,
        vec![(0, 0), (1, 1), (2, 2), (0, 3), (1, 4), (2, 5), (0, 6)]
    );
}

#[test]
fn more_tasks_than_workers_all_complete() {
    let (mut pool, mut workers) = pool_of(2);
    for t in 0..50u32 {
        assert_eq!(pool.create(t), Ok(()));
    }
    assert_eq!(pool.shutdown(), Ok(2));
    let mut tasks: Vec<u32> = drain(&mut workers).into_iter().map(|c| c.1).collect();
    tasks.sort();
    assert_eq!(tasks, (0..50u32).collect::<Vec<u32>>());
}

#[test]
fn a_thousand_increments_count_to_a_thousand() {
    let (mut pool, mut workers): (Scheduler<Job>, Vec<Worker<Job>>) =
        match Scheduler::with_units(4) {
            Ok(parts) => parts,
            Err(e) => panic!("no pool: {:?}", e),
        };
    let counter = Rc::new(Cell::new(0u32));
    for _ in 0..1000 {
        let c = Rc::clone(&counter);
        let job: Job = Box::new(move || c.set(c.get() + 1));
        assert!(pool.create(job).is_ok());
    }
    assert_eq!(pool.shutdown(), Ok(4));
    let mut live = true;
    while live {
        live = false;
        for w in workers.iter_mut() {
            if let Some(job) = w.next() {
                job();
            }
            live = live || w.running();
        }
    }
    assert_eq!(counter.get(), 1000);
}

#[test]
fn each_worker_holds_one_task_at_a_time() {
    let (pool, mut workers) = pool_of(3);
    for t in 0..5u32 {
        assert_eq!(pool.create(t), Ok(()));
    }
    let held: Vec<Option<u32>> = workers.iter_mut().map(|w| w.next()).collect();
    assert_eq!(held, vec![Some(0), Some(1), Some(2)]);
    assert!(workers.iter().all(|w| w.running()));
}

#[test]
fn a_stopped_worker_claims_nothing() {
    let (mut pool, mut workers) = pool_of(2);
    assert_eq!(pool.shutdown(), Ok(2));
    assert_eq!(workers[0].next(), None);
    assert!(!workers[0].running());
    // One stopping signal still waits, for the other worker.
    assert_eq!(workers[0].next(), None);
    assert!(workers[1].running());
    assert_eq!(workers[1].next(), None);
    assert!(!workers[1].running());
}

#[test]
fn a_worker_stops_when_the_sending_side_is_gone() {
    let (pool, mut workers) = pool_of(2);
    assert_eq!(pool.create(5), Ok(()));
    drop(pool);
    assert_eq!(workers[1].next(), Some(5));
    assert!(workers[1].running());
    assert_eq!(workers[1].next(), None);
    assert!(!workers[1].running());
    assert_eq!(workers[0].next(), None);
    assert!(!workers[0].running());
}

#[test]
fn a_closed_queue_hands_the_task_back() {
    let (mut pool, workers) = pool_of(2);
    drop(workers);
    assert_eq!(pool.create(11), Err((PoolError::QueueClosed, 11)));
    assert_eq!(pool.shutdown(), Err(PoolError::QueueClosed));
    assert_eq!(pool.create(12), Err((PoolError::ShutDown, 12)));
}

#[test]
fn dispatch_follows_the_signal() {
    let (_tx, rx) = channel::<Signal<u32>>();
    let rx: PendingTasks<u32> = Arc::new(Mutex::new(rx));
    let mut w = Worker::new(7, Arc::clone(&rx));
    assert_eq!(w.id(), 7);
    assert_eq!(w.dispatch(Some(Signal::CreateTask(3))), Some(3));
    assert!(w.running());
    assert_eq!(w.dispatch(Some(Signal::TerminateTask)), None);
    assert!(!w.running());

    let mut v = Worker::new(8, rx);
    assert_eq!(v.dispatch(None), None);
    assert!(!v.running());
}

#[test]
fn answer_names_the_refused_task() {
    assert_eq!(Scheduler::<u32>::answer(Ok(())), Ok(()));
    assert_eq!(
        Scheduler::<u32>::answer(Err(Signal::CreateTask(4))),
        Err((PoolError::QueueClosed, 4))
    );
}

#[test]
fn tally_counts_what_the_queue_took() {
    assert_eq!(Scheduler::<u32>::tally(3, Ok(())), Ok(4));
    assert_eq!(Scheduler::<u32>::tally(0, Ok(())), Ok(1));
    assert_eq!(
        Scheduler::<u32>::tally(3, Err(Signal::TerminateTask)),
        Err(PoolError::QueueClosed)
    );
}

#[test]
fn tasks_submitted_while_workers_claim_are_all_delivered() {
    let (mut pool, mut workers) = pool_of(2);
    assert_eq!(pool.create(1), Ok(()));
    assert_eq!(workers[1].next(), Some(1));
    assert_eq!(pool.create(2), Ok(()));
    assert_eq!(pool.create(3), Ok(()));
    assert_eq!(workers[1].next(), Some(2));
    assert_eq!(pool.shutdown(), Ok(2));
    assert_eq!(drain(&mut workers), vec![(0, 3)]);
    assert!(workers.iter().all(|w| !w.running()));
}
