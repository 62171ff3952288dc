//! The work queue of one scheduler: any thread pushes, the scheduler alone
//! pops, and a single registered waiter is woken when work arrives.
use crossbeam_queue::SegQueue;
use parking_lot::Mutex;
use parking_lot::RawMutex;
use std::task::Waker;
use vstd::prelude::*;

verus! {

#[verifier::external_type_specification]
#[verifier::external_body]
#[verifier::reject_recursive_types(T)]
pub struct ExSegQueue<T>(SegQueue<T>);

#[verifier::external_type_specification]
#[verifier::external_body]
#[verifier::reject_recursive_types(R)]
#[verifier::reject_recursive_types(T)]
pub struct ExLockMutex<R, T: ?Sized>(parking_lot::lock_api::Mutex<R, T>);

#[verifier::external_type_specification]
#[verifier::external_body]
pub struct ExRawMutex(RawMutex);

#[verifier::external_type_specification]
#[verifier::external_body]
pub struct ExWaker(Waker);

/// Relies on `SegQueue::new`, which builds an empty queue.
pub assume_specification<T>[ SegQueue::<T>::new ]() -> SegQueue<T>;

/// Relies on `SegQueue::push`, which appends without blocking from any thread.
pub assume_specification<T>[ SegQueue::<T>::push ](q: &SegQueue<T>, value: T);

/// Relies on `SegQueue::pop`. Other threads push concurrently, so nothing is
/// stated of what comes out.
pub assume_specification<T>[ SegQueue::<T>::pop ](q: &SegQueue<T>) -> Option<T>;

/// Relies on `Waker::wake`, which schedules the task the waker belongs to.
pub assume_specification[ Waker::wake ](w: Waker);

/// Relies on parking_lot's `Mutex::new`: a lock holding no waiter.
#[verifier::external_body]
fn empty_waiter_slot() -> Mutex<Option<Waker>> {
    Mutex::new(None)
}

/// Relies on parking_lot's `Mutex::lock`, which blocks until the lock is
/// held, to store `waker` in place of the registered waiter.
#[verifier::external_body]
fn register_waiter(slot: &Mutex<Option<Waker>>, waker: Waker) {
    *slot.lock() = Some(waker);
}

/// Relies on parking_lot's `Mutex::lock` to take the registered waiter out.
/// Other threads register concurrently, so nothing is stated of the result.
#[verifier::external_body]
fn take_waiter(slot: &Mutex<Option<Waker>>) -> Option<Waker> {
    slot.lock().take()
}

/// Relies on parking_lot's `Mutex::try_lock`, which never blocks, to take the
/// registered waiter out when the lock is free at once.
#[verifier::external_body]
fn try_take_waiter(slot: &Mutex<Option<Waker>>) -> Option<Waker> {
    slot.try_lock().and_then(|mut w| w.take())
}

/// A multi-producer, single-consumer queue of work items, items leaving in
/// the order they were pushed.
#[verifier::reject_recursive_types(T)]
pub struct Queue<T> {
    inner: SegQueue<T>,
    waker: Mutex<Option<Waker>>,
}

impl<T> Queue<T> {
    /// An empty queue with no waiter.
    pub fn new() -> Queue<T> {
        Queue { inner: SegQueue::new(), waker: empty_waiter_slot() }
    }

    /// Appends `value` from any thread, then wakes the registered waiter if
    /// the lock on it is free; never blocks.
    pub fn push(&self, value: T) {
        self.inner.push(value);
        match try_take_waiter(&self.waker) {
            Some(waker) => waker.wake(),
            None => {},
        }
    }

    /// Called by the consumer alone. Registers `new_waker` before looking at
    /// the queue, so that a push that comes after finds it and wakes it; when
    /// an item comes out, the registration is cleared and woken.
    pub fn pop(&self, new_waker: Waker) -> Option<T> {
        register_waiter(&self.waker, new_waker);
        match self.inner.pop() {
            Some(value) => {
                match take_waiter(&self.waker) {
                    Some(waker) => waker.wake(),
                    None => {},
                }
                Some(value)
            },
            None => None,
        }
    }
}

} // verus!
