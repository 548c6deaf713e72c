//! A minimal, scheduler-agnostic core for cooperative task execution: a
//! contract that concrete schedulers implement, an ambient slot through which
//! running tasks reach the active scheduler, and a small set of combinators
//! (join, yield, blocking bridge, stop sentinel) built only against that
//! contract. Futures here are explicit state machines advanced by `poll`,
//! so every component carries a proved contract.

mod defer;
mod future;
mod joiner;
mod queue;
mod runtime;
mod yielding;

pub use defer::{DeferFuture, defer};
pub use future::{Future, Poll, lemma_countdown_resolution, poll_step};
pub use joiner::{
    JoinSlot, JoinedFuture, join, lemma_join_resolution, seq_max, slot_countdown, slot_matches,
    lemma_join_schedule, slot_step, slots_countdown, slots_value, opt_max,
};
pub use queue::{QueueRuntime, TickTimer};
pub use runtime::{Duration, InternalRuntime, Never, Runtime, SpawnedFuture, Stop};
pub use yielding::{YieldFuture, yield_now};

use vstd::prelude::*;

verus! {

/// Boxes a future so that a scheduler can take ownership of it as a task.
pub fn prep<F: Future>(future: F) -> (b: Box<F>)
    ensures
        *b == future,
{
    Box::new(future)
}

/// A plain wrapper that hands out shared access to its contents through a
/// closure, so that callers never hold a direct reference to the inside.
pub struct ForceShare<T>(pub T);

impl<T> ForceShare<T> {
    /// Applies `fun` to a borrow of the contents and returns its result.
    pub fn with<R, F: FnOnce(&T) -> R>(&self, fun: F) -> (r: R)
        requires
            call_requires(fun, (&self.0,)),
        ensures
            call_ensures(fun, (&self.0,), r),
    {
        fun(&self.0)
    }
}

/// The ambient context slot: holds the scheduler that is currently executing
/// a burst of tasks, or nothing outside such a burst. The slot owns the
/// scheduler for exactly the installed interval, so the scheduler can neither
/// move nor be dropped while tasks may still reach it.
pub struct RuntimeSlot<R> {
    current: Option<R>,
}

impl<R> RuntimeSlot<R> {
    /// The slot's model: the installed scheduler, if any.
    pub closed spec fn view(&self) -> Option<R> {
        self.current
    }

    /// An empty slot, belonging to one execution context.
    pub fn new() -> (s: RuntimeSlot<R>)
        ensures
            s@ is None,
    {
        RuntimeSlot { current: None }
    }

    /// True exactly when a scheduler is installed.
    pub fn is_installed(&self) -> (r: bool)
        ensures
            r == (self@ is Some),
    {
        match &self.current {
            Some(_) => true,
            None => false,
        }
    }
}

/// Installs `runtime` as the currently executing scheduler. A scheduler calls
/// this immediately before executing a burst of tasks. Installing over an
/// occupied slot would break the strict install/clear pairing, so it is ruled
/// out by contract.
pub fn set_current_runtime<R>(slot: &mut RuntimeSlot<R>, runtime: R)
    requires
        old(slot)@ is None,
    ensures
        final(slot)@ == Some(runtime),
{
    slot.current = Some(runtime);
}

/// Hands out the currently executing scheduler. A task may use the borrow
/// only for the duration of one poll step; the borrow rules enforce that it
/// cannot outlive the slot's contents. Calling this with an empty slot is a
/// broken integration, never a normal runtime condition, so it is ruled out
/// by contract; an unverified caller that does it anyway stops at a
/// deterministic abort rather than receiving a stale scheduler.
pub fn get_current_runtime<R>(slot: &mut RuntimeSlot<R>) -> (runtime: &mut R)
    requires
        old(slot)@ is Some,
    ensures
        old(slot)@ == Some(*runtime),
        final(slot)@ == Some(*final(runtime)),
{
    match &mut slot.current {
        Some(r) => r,
        None => unreached(),
    }
}

/// Empties the slot and gives the scheduler back to its owner. A scheduler
/// calls this immediately after a burst of tasks, matching an earlier
/// install; clearing an empty slot would break the pairing, so it is ruled
/// out by contract.
pub fn clear_current_runtime<R>(slot: &mut RuntimeSlot<R>) -> (runtime: R)
    requires
        old(slot)@ is Some,
    ensures
        final(slot)@ is None,
        old(slot)@ == Some(runtime),
{
    let taken = slot.current.take();
    match taken {
        Some(r) => r,
        None => unreached(),
    }
}

/// Law: an empty slot holds no residual state. After any install/clear
/// cycle the slot is indistinguishable from the slot as it was created, so
/// repeated cycles behave identically.
pub proof fn lemma_empty_slot_unique<R>(a: RuntimeSlot<R>, b: RuntimeSlot<R>)
    requires
        a@ is None,
        b@ is None,
    ensures
        a == b,
{
}

} // verus!
