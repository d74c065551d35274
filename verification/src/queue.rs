//! The shared queue: the channel and lock of the standard library, and the
//! machine's count of execution units, each behind a contract that is taken
//! on trust.
use crate::signal::Signal;
use std::sync::mpsc::{Receiver, Sender};
use std::sync::{Arc, Mutex, MutexGuard};
use vstd::prelude::*;

verus! {

/// `std::sync::mpsc::Sender`, carried through as it is.
#[verifier::external_type_specification]
#[verifier::external_body]
#[verifier::reject_recursive_types(T)]
pub struct ExSender<T>(Sender<T>);

/// `std::sync::mpsc::Receiver`, carried through as it is.
#[verifier::external_type_specification]
#[verifier::external_body]
#[verifier::reject_recursive_types(T)]
pub struct ExReceiver<T>(Receiver<T>);

/// `std::sync::Mutex`, carried through as it is.
#[verifier::external_type_specification]
#[verifier::external_body]
#[verifier::reject_recursive_types(T)]
pub struct ExMutex<T: ?Sized>(Mutex<T>);

/// `std::sync::MutexGuard`, carried through as it is.
#[verifier::external_type_specification]
#[verifier::external_body]
#[verifier::reject_recursive_types(T)]
pub struct ExMutexGuard<'a, T: ?Sized + 'a>(MutexGuard<'a, T>);

/// The receiving end of the queue, shared by every worker of one pool.
pub type PendingTasks<T> = Arc<Mutex<Receiver<Signal<T>>>>;

/// `std::sync::mpsc::channel`: a fresh queue, as its sending and its
/// receiving end. Nothing is claimed of either.
#[verifier::external_body]
pub(crate) fn open_queue<T>() -> (ends: (Sender<Signal<T>>, Receiver<Signal<T>>)) {
    std::sync::mpsc::channel()
}

/// `Mutex::new`: the receiving end behind a lock. Nothing is claimed of the
/// lock.
#[verifier::external_body]
pub(crate) fn guard_queue<T>(rx: Receiver<Signal<T>>) -> (guarded: Mutex<Receiver<Signal<T>>>) {
    Mutex::new(rx)
}

/// `Arc::clone`: one more handle on the same shared receiving end. The
/// handle that comes back stands for the value that `rx` stands for.
#[verifier::external_body]
pub(crate) fn share_queue<T>(rx: &PendingTasks<T>) -> (shared: PendingTasks<T>)
    ensures
        shared == *rx,
{
    Arc::clone(rx)
}

/// `Mutex::lock`: waits for exclusive access to the receiving end. `None`
/// stands for a poisoned lock; nothing is claimed of when that happens. The
/// guard never leaves `claim`, so no thread asks for a lock that it holds.
#[verifier::external_body]
pub(crate) fn lock_queue<'a, T>(rx: &'a PendingTasks<T>) -> (guard: Option<
    MutexGuard<'a, Receiver<Signal<T>>>,
>) {
    rx.lock().ok()
}

/// `Receiver::recv`: waits for the next signal. `None` stands for a queue
/// whose sending side is gone; which signal comes depends on the other
/// threads, so nothing is claimed of it.
#[verifier::external_body]
pub(crate) fn recv_signal<'a, T>(guard: &MutexGuard<'a, Receiver<Signal<T>>>) -> (signal: Option<
    Signal<T>,
>) {
    guard.recv().ok()
}

/// `Sender::send`: puts `signal` on the queue. The call fails only when the
/// receiving side is gone, and then hands the unsent signal back.
#[verifier::external_body]
pub(crate) fn send_signal<T>(tx: &Sender<Signal<T>>, signal: Signal<T>) -> (sent: Result<
    (),
    Signal<T>,
>)
    ensures
        sent matches Err(back) ==> back == signal,
{
    match tx.send(signal) {
        Ok(()) => Ok(()),
        Err(e) => Err(e.0),
    }
}

/// `num_cpus::get`: the number of logical cores open to this process. It
/// depends on the machine, so nothing is claimed of the number.
#[verifier::external_body]
pub(crate) fn execution_units() -> (units: usize) {
    num_cpus::get()
}

/// Claims the next signal of the shared queue: takes the lock, waits for one
/// signal, and gives the lock up before it returns, so that the caller never
/// holds it while a task runs.
pub(crate) fn claim<T>(rx: &PendingTasks<T>) -> (signal: Option<Signal<T>>) {
    match lock_queue(rx) {
        Some(guard) => recv_signal(&guard),
        None => None,
    }
}

} // verus!
