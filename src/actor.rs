//! The actor record: busy flag, inbox of deferred work, and payload.
use std::collections::VecDeque;
use vstd::prelude::*;

verus! {

/// The payload slot of an actor, which is empty until its constructor ran.
pub enum Payload<T> {
    Uninitialized,
    Ready(T),
}

/// New state `(busy, queued)` after admitting `item`, and the item to run now, if any.
///
/// An idle actor with an empty inbox runs the item at once and becomes busy;
/// otherwise the item waits at the tail of the inbox.
pub open spec fn admit_spec<W>(busy: bool, queued: Seq<W>, item: W) -> (bool, Seq<W>, Option<W>) {
    if !busy && queued.len() == 0 {
        (true, queued, Some(item))
    } else {
        (busy, queued.push(item), None)
    }
}

/// New state `(busy, queued)` once the running handler finished, and the item
/// to run next, if any: the oldest one in the inbox.
pub open spec fn resume_spec<W>(busy: bool, queued: Seq<W>) -> (bool, Seq<W>, Option<W>) {
    if queued.len() == 0 {
        (false, queued, None)
    } else {
        (true, queued.drop_first(), Some(queued[0]))
    }
}

/// The record of one actor.
///
/// `W` is the type of a deferred work item, `T` the actor's own data.
pub struct Actor<W, T> {
    inbox: VecDeque<W>,
    is_busy: bool,
    data: Payload<T>,
}

impl<W, T> Actor<W, T> {
    /// Whether a handler of this actor is running or suspended.
    pub closed spec fn busy(&self) -> bool {
        self.is_busy
    }

    /// The work items waiting for the actor, oldest first.
    pub closed spec fn queued(&self) -> Seq<W> {
        self.inbox@
    }

    /// The actor's payload slot.
    pub closed spec fn payload(&self) -> Payload<T> {
        self.data
    }

    /// An idle actor has nothing waiting: work waits only behind a running handler.
    pub open spec fn wf(&self) -> bool {
        !self.busy() ==> self.queued().len() == 0
    }

    /// An idle actor whose payload is already built.
    pub fn new(value: T) -> (r: Self)
        ensures
            r.wf(),
            !r.busy(),
            r.queued() == Seq::<W>::empty(),
            r.payload() == Payload::Ready(value),
    {
        Actor { inbox: VecDeque::new(), is_busy: false, data: Payload::Ready(value) }
    }

    /// An idle actor whose payload waits for its constructor.
    pub fn uninit() -> (r: Self)
        ensures
            r.wf(),
            !r.busy(),
            r.queued() == Seq::<W>::empty(),
            r.payload() == Payload::<T>::Uninitialized,
    {
        Actor { inbox: VecDeque::new(), is_busy: false, data: Payload::Uninitialized }
    }

    /// Stores the value built by the actor's constructor.
    pub fn init(&mut self, value: T)
        ensures
            final(self).payload() == Payload::Ready(value),
            final(self).busy() == old(self).busy(),
            final(self).queued() == old(self).queued(),
    {
        self.data = Payload::Ready(value);
    }

    /// Whether a handler of this actor is running or suspended.
    pub fn is_busy(&self) -> (r: bool)
        ensures
            r == self.busy(),
    {
        self.is_busy
    }

    /// How many work items wait for the actor.
    pub fn queued_len(&self) -> (r: usize)
        ensures
            r == self.queued().len(),
    {
        self.inbox.len()
    }

    /// Whether the payload has been built.
    pub fn is_ready(&self) -> (r: bool)
        ensures
            r == (self.payload() is Ready),
    {
        match &self.data {
            Payload::Ready(_) => true,
            Payload::Uninitialized => false,
        }
    }

    /// The payload, when it has been built.
    pub fn data(&self) -> (r: Option<&T>)
        ensures
            match self.payload() {
                Payload::Ready(v) => r == Some(&v),
                Payload::Uninitialized => r is None,
            },
    {
        match &self.data {
            Payload::Ready(v) => Some(v),
            Payload::Uninitialized => None,
        }
    }

    /// The built payload, for a handler to read and change in place.
    pub fn data_mut(&mut self) -> (r: &mut T)
        requires
            old(self).payload() is Ready,
        ensures
            *r == old(self).payload()->0,
            final(self).payload() == Payload::Ready(*final(r)),
            final(self).busy() == old(self).busy(),
            final(self).queued() == old(self).queued(),
    {
        match &mut self.data {
            Payload::Ready(v) => v,
            Payload::Uninitialized => unreached(),
        }
    }

    /// Admits a work item: returns it back when it must run now (the actor is
    /// then busy), or queues it behind the work already waiting.
    pub fn post_any(&mut self, item: W) -> (r: Option<W>)
        requires
            old(self).wf(),
        ensures
            final(self).wf(),
            (final(self).busy(), final(self).queued(), r) == admit_spec(
                old(self).busy(),
                old(self).queued(),
                item,
            ),
            final(self).payload() == old(self).payload(),
    {
        if self.is_busy || self.inbox.len() != 0 {
            self.inbox.push_back(item);
            None
        } else {
            self.is_busy = true;
            Some(item)
        }
    }

    /// Marks the running handler as finished and hands out the oldest waiting
    /// item, which must run now (the actor stays busy for it).
    pub fn restart(&mut self) -> (r: Option<W>)
        requires
            old(self).wf(),
        ensures
            final(self).wf(),
            (final(self).busy(), final(self).queued(), r) == resume_spec(
                old(self).busy(),
                old(self).queued(),
            ),
            final(self).payload() == old(self).payload(),
    {
        self.is_busy = false;
        match self.inbox.pop_front() {
            Some(item) => {
                self.is_busy = true;
                Some(item)
            },
            None => None,
        }
    }
}

/// One event in the life of an actor: a work item is admitted, or the running
/// handler finishes.
pub enum Step<W> {
    Admit(W),
    Finish,
}

/// The state reached by replaying `steps` on a fresh, idle actor, with what was
/// observed on the way.
pub struct Replay<W> {
    /// Whether a handler is in flight at the end.
    pub busy: bool,
    /// The items still waiting in the inbox.
    pub queued: Seq<W>,
    /// Every admitted item, in admission order.
    pub admitted: Seq<W>,
    /// Every item whose handler began, in the order they began.
    pub started: Seq<W>,
    /// How many handlers finished.
    pub finished: nat,
}

/// Replays `steps` on an idle actor through `admit_spec` and `resume_spec`;
/// a `Finish` counts only while a handler is in flight.
pub open spec fn replay<W>(steps: Seq<Step<W>>) -> Replay<W>
    decreases steps.len(),
{
    if steps.len() == 0 {
        Replay {
            busy: false,
            queued: Seq::empty(),
            admitted: Seq::empty(),
            started: Seq::empty(),
            finished: 0,
        }
    } else {
        let prev = replay(steps.drop_last());
        match steps.last() {
            Step::Admit(item) => {
                let (busy, queued, run) = admit_spec(prev.busy, prev.queued, item);
                Replay {
                    busy,
                    queued,
                    admitted: prev.admitted.push(item),
                    started: match run {
                        Some(w) => prev.started.push(w),
                        None => prev.started,
                    },
                    finished: prev.finished,
                }
            },
            Step::Finish => {
                let (busy, queued, run) = resume_spec(prev.busy, prev.queued);
                Replay {
                    busy,
                    queued,
                    admitted: prev.admitted,
                    started: match run {
                        Some(w) => prev.started.push(w),
                        None => prev.started,
                    },
                    finished: if prev.busy {
                        prev.finished + 1
                    } else {
                        prev.finished
                    },
                }
            },
        }
    }
}

/// Handlers of one actor begin in exactly the order their items were
/// admitted, and never overlap: what began, followed by what still waits, is
/// what was admitted; every handler but at most one has finished; and an idle
/// actor has nothing waiting.
pub proof fn lemma_admission_order<W>(steps: Seq<Step<W>>)
    ensures
        replay(steps).started + replay(steps).queued == replay(steps).admitted,
        replay(steps).started.len() == replay(steps).finished + (if replay(steps).busy {
            1nat
        } else {
            0nat
        }),
        !replay(steps).busy ==> replay(steps).queued.len() == 0,
    decreases steps.len(),
{
    if steps.len() > 0 {
        let prev = replay(steps.drop_last());
        lemma_admission_order(steps.drop_last());
        match steps.last() {
            Step::Admit(item) => {
                if prev.busy || prev.queued.len() != 0 {
                    assert(prev.started + prev.queued.push(item) =~= (prev.started
                        + prev.queued).push(item));
                } else {
                    assert(prev.started.push(item) + prev.queued =~= prev.admitted.push(item));
                }
            },
            Step::Finish => {
                if prev.queued.len() != 0 {
                    assert(prev.started.push(prev.queued[0]) + prev.queued.drop_first()
                        =~= prev.started + prev.queued);
                }
            },
        }
    }
}

/// A work item admitted before anything else is the first to run, and every
/// later handler begins only after it has finished: this is what lets a
/// constructor queued first build the payload before any message is handled.
pub proof fn lemma_first_admitted_runs_first<W>(steps: Seq<Step<W>>, first: W)
    requires
        steps.len() > 0,
        steps[0] == Step::Admit(first),
    ensures
        replay(steps).started.len() > 0,
        replay(steps).started[0] == first,
        replay(steps).started.len() > 1 ==> replay(steps).finished >= 1,
    decreases steps.len(),
{
    lemma_admission_order(steps);
    if steps.len() == 1 {
        assert(steps.drop_last().len() == 0);
        assert(steps.last() == Step::Admit(first));
        let prev = replay(steps.drop_last());
        assert(prev.started.len() == 0 && !prev.busy && prev.queued.len() == 0);
        assert(admit_spec(prev.busy, prev.queued, first).2 == Some(first));
        assert(replay(steps).started =~= seq![first]);
    } else {
        lemma_first_admitted_runs_first(steps.drop_last(), first);
        assert(steps.drop_last()[0] == steps[0]);
        let prev = replay(steps.drop_last());
        let cur = replay(steps);
        lemma_admission_order(steps.drop_last());
        assert((prev.started + prev.queued)[0] == first);
        assert(cur.admitted[0] == first);
        assert(cur.started.len() >= prev.started.len());
        assert((cur.started + cur.queued)[0] == cur.started[0]);
    }
}

} // verus!
