//! The response slot: a one-shot cell that carries the answer of a message
//! from the actor's thread to whoever awaits it.
use vstd::prelude::*;

verus! {

/// What the scheduler's driver of a slot should do next.
pub enum Drive {
    /// The answer is in: the driver is done.
    Done,
    /// A suspended continuation is stored: poll it.
    Run,
    /// The handler has neither answered nor suspended yet: wait to be woken.
    Wait,
}

/// Shared state of one response slot.
///
/// `T` is the answer, `W` a waiter to wake, and `C` the continuation of a
/// handler that suspended. Two waiters may be registered: the external one
/// awaits the answer, the driver one belongs to the scheduler, which must be
/// woken when a continuation is stored.
pub struct State<T, W, C> {
    result: Option<T>,
    waker: Option<W>,
    local_waker: Option<W>,
    local_future: Option<C>,
}

impl<T, W, C> State<T, W, C> {
    /// The answer, once it is in.
    pub closed spec fn value(&self) -> Option<T> {
        self.result
    }

    /// The waiter of whoever awaits the answer.
    pub closed spec fn waiter(&self) -> Option<W> {
        self.waker
    }

    /// The waiter of the scheduler's driver.
    pub closed spec fn driver_waiter(&self) -> Option<W> {
        self.local_waker
    }

    /// The continuation of a handler that suspended, until it completes.
    pub closed spec fn continuation(&self) -> Option<C> {
        self.local_future
    }

    /// A slot with no answer, no waiter and no continuation.
    pub fn new() -> (r: Self)
        ensures
            r.value() is None,
            r.waiter() is None,
            r.driver_waiter() is None,
            r.continuation() is None,
    {
        State { result: None, waker: None, local_waker: None, local_future: None }
    }

    /// Whether the answer is in.
    pub fn is_resolved(&self) -> (r: bool)
        ensures
            r == (self.value() is Some),
    {
        self.result.is_some()
    }

    /// The answer, once it is in.
    pub fn result(&self) -> (r: Option<&T>)
        ensures
            match self.value() {
                Some(v) => r == Some(&v),
                None => r is None,
            },
    {
        match &self.result {
            Some(v) => Some(v),
            None => None,
        }
    }

    /// Stores the answer of a handler that answered at once, and hands out
    /// both waiters, which the caller wakes.
    pub fn set(&mut self, value: T) -> (r: (Option<W>, Option<W>))
        requires
            old(self).value() is None,
        ensures
            final(self).value() == Some(value),
            r == (old(self).waiter(), old(self).driver_waiter()),
            final(self).waiter() is None,
            final(self).driver_waiter() is None,
            final(self).continuation() == old(self).continuation(),
    {
        self.result = Some(value);
        let waker = self.waker.take();
        let local_waker = self.local_waker.take();
        (waker, local_waker)
    }

    /// Stores the continuation of a handler that suspended, and hands out the
    /// driver's waiter, which the caller wakes.
    pub fn pending(&mut self, future: C) -> (r: Option<W>)
        requires
            old(self).value() is None,
            old(self).continuation() is None,
        ensures
            final(self).continuation() == Some(future),
            r == old(self).driver_waiter(),
            final(self).driver_waiter() is None,
            final(self).value() is None,
            final(self).waiter() == old(self).waiter(),
    {
        self.local_future = Some(future);
        self.local_waker.take()
    }

    /// Polled by whoever awaits the answer: reports whether it is in, and
    /// otherwise registers `waker` to be woken when it comes.
    pub fn poll(&mut self, waker: W) -> (r: bool)
        ensures
            r == (old(self).value() is Some),
            final(self).waiter() == (if r {
                None
            } else {
                Some(waker)
            }),
            final(self).value() == old(self).value(),
            final(self).driver_waiter() == old(self).driver_waiter(),
            final(self).continuation() == old(self).continuation(),
    {
        if self.result.is_some() {
            self.waker = None;
            true
        } else {
            self.waker = Some(waker);
            false
        }
    }

    /// Polled by the scheduler's driver: says whether the slot is answered,
    /// holds a continuation to poll, or must wait (then `waker` is registered).
    pub fn drive(&mut self, waker: W) -> (r: Drive)
        ensures
            r == (if old(self).value() is Some {
                Drive::Done
            } else if old(self).continuation() is Some {
                Drive::Run
            } else {
                Drive::Wait
            }),
            final(self).driver_waiter() == (if r == Drive::Wait {
                Some(waker)
            } else {
                None
            }),
            final(self).value() == old(self).value(),
            final(self).waiter() == old(self).waiter(),
            final(self).continuation() == old(self).continuation(),
    {
        if self.result.is_some() {
            self.local_waker = None;
            Drive::Done
        } else if self.local_future.is_some() {
            self.local_waker = None;
            Drive::Run
        } else {
            self.local_waker = Some(waker);
            Drive::Wait
        }
    }

    /// The stored continuation, to be polled in place.
    pub fn continuation_mut(&mut self) -> (r: &mut C)
        requires
            old(self).continuation() is Some,
        ensures
            *r == old(self).continuation()->0,
            final(self).continuation() == Some(*final(r)),
            final(self).value() == old(self).value(),
            final(self).waiter() == old(self).waiter(),
            final(self).driver_waiter() == old(self).driver_waiter(),
    {
        match &mut self.local_future {
            Some(f) => f,
            None => unreached(),
        }
    }

    /// Stores the answer of a continuation that completed, drops the
    /// continuation, and hands out the external waiter, which the caller wakes.
    pub fn complete(&mut self, value: T) -> (r: Option<W>)
        requires
            old(self).value() is None,
        ensures
            final(self).value() == Some(value),
            final(self).continuation() is None,
            r == old(self).waiter(),
            final(self).waiter() is None,
            final(self).driver_waiter() == old(self).driver_waiter(),
    {
        self.result = Some(value);
        self.local_future = None;
        self.waker.take()
    }
}

/// One operation on a slot, as its contracts allow it.
pub enum SlotOp<T> {
    /// `set` or `complete` with this answer; only a slot without one admits it.
    Resolve(T),
    /// `poll` by the awaiting side, which reads what the slot holds.
    Read,
    /// Any operation that neither answers nor reads (`pending`, `drive`).
    Other,
}

/// The answer held after `ops`, what each read saw, and how many answers were stored.
pub open spec fn slot_replay<T>(ops: Seq<SlotOp<T>>) -> (Option<T>, Seq<Option<T>>, nat)
    decreases ops.len(),
{
    if ops.len() == 0 {
        (None, Seq::empty(), 0)
    } else {
        let (value, reads, resolutions) = slot_replay(ops.drop_last());
        match ops.last() {
            SlotOp::Resolve(v) => if value is None {
                (Some(v), reads, resolutions + 1)
            } else {
                (value, reads, resolutions)
            },
            SlotOp::Read => (value, reads.push(value), resolutions),
            SlotOp::Other => (value, reads, resolutions),
        }
    }
}

/// A slot is answered at most once, and once answered every later read sees
/// that same answer: a read that found an answer is followed only by reads
/// that find the same one, which is the answer the slot ends with.
pub proof fn lemma_answered_once<T>(ops: Seq<SlotOp<T>>)
    ensures
        slot_replay(ops).2 <= 1,
        (slot_replay(ops).2 == 1) == (slot_replay(ops).0 is Some),
        forall|i: int|
            0 <= i < slot_replay(ops).1.len() && (#[trigger] slot_replay(ops).1[i]) is Some
                ==> slot_replay(ops).1[i] == slot_replay(ops).0,
    decreases ops.len(),
{
    if ops.len() > 0 {
        lemma_answered_once(ops.drop_last());
        let (value, reads, resolutions) = slot_replay(ops.drop_last());
        let (value2, reads2, resolutions2) = slot_replay(ops);
        assert forall|i: int| 0 <= i < reads2.len() && (#[trigger] reads2[i]) is Some
            implies reads2[i] == value2 by {
            if i < reads.len() {
                assert(reads2[i] == reads[i]);
            }
        }
    }
}

} // verus!
