//! What follows a handler's run: the answer goes to the response slot and the
//! actor moves on to its next waiting item, or the continuation is parked
//! until the scheduler drives it to completion.
use crate::actor::{resume_spec, Actor};
use crate::future::State;
use crate::Output;
use vstd::prelude::*;

verus! {

/// The actions that settling a handler's output asks of the caller.
pub struct Settled<I, W> {
    /// Waiter of whoever awaits the answer, to wake.
    pub wake: Option<W>,
    /// Waiter of the scheduler's driver, to wake.
    pub wake_driver: Option<W>,
    /// The actor's next work item, which must run now.
    pub next: Option<I>,
}

/// Settles the output of a handler that has just run for a message of a busy
/// actor. An answer given at once resolves the slot and the actor moves on to
/// its oldest waiting item; a continuation is parked in the slot, and the
/// actor stays busy until it completes.
pub fn settle<I, P, T, W, C>(
    actor: &mut Actor<I, P>,
    slot: &mut State<T, W, C>,
    output: Output<T, C>,
) -> (r: Settled<I, W>)
    requires
        old(actor).wf(),
        old(actor).busy(),
        old(slot).value() is None,
        old(slot).continuation() is None,
    ensures
        final(actor).wf(),
        final(actor).payload() == old(actor).payload(),
        match output {
            Output::Now(v) => {
                &&& final(slot).value() == Some(v)
                &&& r.wake == old(slot).waiter()
                &&& r.wake_driver == old(slot).driver_waiter()
                &&& (final(actor).busy(), final(actor).queued(), r.next) == resume_spec(
                    old(actor).busy(),
                    old(actor).queued(),
                )
            },
            Output::Later(c) => {
                &&& final(slot).value() is None
                &&& final(slot).continuation() == Some(c)
                &&& final(slot).waiter() == old(slot).waiter()
                &&& r.wake is None
                &&& r.wake_driver == old(slot).driver_waiter()
                &&& r.next is None
                &&& final(actor).busy()
                &&& final(actor).queued() == old(actor).queued()
            },
        },
{
    match output {
        Output::Now(v) => {
            let (wake, wake_driver) = slot.set(v);
            let next = actor.restart();
            Settled { wake, wake_driver, next }
        },
        Output::Later(c) => {
            let wake_driver = slot.pending(c);
            Settled { wake: None, wake_driver, next: None }
        },
    }
}

/// Records the answer of a parked continuation that completed: the slot is
/// resolved and drops the continuation, and the actor moves on to its oldest
/// waiting item.
pub fn complete<I, P, T, W, C>(actor: &mut Actor<I, P>, slot: &mut State<T, W, C>, value: T) -> (r:
    Settled<I, W>)
    requires
        old(actor).wf(),
        old(actor).busy(),
        old(slot).value() is None,
    ensures
        final(actor).wf(),
        final(actor).payload() == old(actor).payload(),
        final(slot).value() == Some(value),
        final(slot).continuation() is None,
        r.wake == old(slot).waiter(),
        r.wake_driver is None,
        (final(actor).busy(), final(actor).queued(), r.next) == resume_spec(
            old(actor).busy(),
            old(actor).queued(),
        ),
{
    let wake = slot.complete(value);
    let next = actor.restart();
    Settled { wake, wake_driver: None, next }
}

} // verus!
