//! Core of an in-process actor runtime: the per-actor admission state
//! machine, the one-shot response slot, the work queue shared by producers
//! and the single scheduler of a thread, and the broadcast subscriber set.
//!
//! Every decision the runtime takes is made here, by verified code; the
//! reference counting, trait objects and futures that carry those decisions
//! out live around this crate.
use vstd::prelude::*;

pub mod actor;
pub mod future;
pub mod queue;
pub mod scheduler;
pub mod demux;
pub mod dispatch;
pub mod layout;

verus! {

/// A message type that an actor can receive.
///
/// `Response` is the type of the value that answers the message.
pub trait Event: Send {
    type Response: Send;
}

/// What a handler hands back for a message: the answer itself, or a
/// continuation `C` that produces it later.
pub enum Output<T, C> {
    Now(T),
    Later(C),
}

} // verus!
