use vstd::prelude::*;

use crate::future::{Future, Poll};

verus! {

/// The return marker of computations that never produce a value. Nothing in
/// this crate constructs it, and its private field keeps anything outside
/// the crate from constructing it, so no call ever returns one.
pub struct Never {
    no_value: bool,
}

impl Never {
    /// Passes the marker along; no value exists to call it on.
    pub fn into(self) -> (r: Never) {
        self
    }
}

/// The stop sentinel: a future that reports pending on every poll. Awaiting
/// it parks the awaiting task for good, so it stands, at places that expect
/// a future, for a task that gives control back and never wants it again. A
/// scheduler that should actually stop is told so through
/// `InternalRuntime::stop`, not by this future, which on its own never
/// resolves.
pub struct Stop;

impl Future for Stop {
    type Output = Never;

    open spec fn countdown(&self) -> Option<nat> {
        None
    }

    open spec fn is_value(&self, v: Never) -> bool {
        false
    }

    fn poll(&mut self) -> (r: Poll<Never>)
        ensures
            r is Pending,
    {
        Poll::Pending
    }
}

/// A span of time handed to a scheduler's timer, measured in milliseconds.
#[derive(Clone, Copy, PartialEq, Eq, Structural)]
pub struct Duration {
    pub millis: u64,
}

impl Duration {
    /// The span of `millis` milliseconds.
    pub fn from_millis(millis: u64) -> (d: Duration)
        ensures
            d.millis == millis,
    {
        Duration { millis }
    }
}

/// A future tracking the liveness of one previously enqueued task: the
/// identifier the scheduler assigned on enqueue. Polling it only observes the
/// scheduler; it never advances the task itself.
pub struct SpawnedFuture {
    /// The identifier the owning scheduler assigned to the task.
    pub id: u64,
}

impl SpawnedFuture {
    /// Reports ready exactly when the owning scheduler no longer lists the
    /// task as outstanding, pending while it still does. Polls after the
    /// task left the outstanding set keep reporting ready, as long as the
    /// scheduler does not reuse the identifier.
    pub fn poll<R: InternalRuntime>(&self, runtime: &R) -> (r: Poll<()>)
        ensures
            r is Ready <==> !runtime.outstanding().contains(self.id),
            r is Pending <==> runtime.outstanding().contains(self.id),
    {
        if runtime.contains(self.id) {
            Poll::Pending
        } else {
            Poll::Ready(())
        }
    }
}

/// The minimal contract a concrete scheduler implements: enqueue a
/// unit-returning task under a fresh identifier, report whether an
/// identifier is still outstanding, produce a timer future, and accept the
/// order to stop. Everything else callers use is derived in `Runtime`.
pub trait InternalRuntime: Sized {
    /// The scheduler's representation of an enqueued task.
    type Task: Future<Output = ()>;

    /// The scheduler's timer future.
    type Timer: Future<Output = ()>;

    /// Model: the identifiers of tasks that are enqueued and not yet
    /// completed or discarded.
    spec fn outstanding(&self) -> Set<u64>;

    /// Model: whether the scheduler still has room and identifiers for one
    /// more task. Enqueueing is only specified from such states.
    spec fn can_push(&self) -> bool;

    /// Model: whether the scheduler has been told to return control
    /// permanently.
    spec fn stop_requested(&self) -> bool;

    /// Model: how many polls a timer for `duration` reports pending before
    /// it is ready, or `None` for a timer that never fires. How a duration
    /// translates into polls is the scheduler's own timing model; `sleep`
    /// promises to follow it.
    spec fn timer_countdown(&self, duration: Duration) -> Option<nat>;

    /// Takes ownership of a boxed task and enqueues it under a fresh
    /// identifier: one not outstanding before the call.
    fn push_boxed(&mut self, task: Box<Self::Task>) -> (id: u64)
        requires
            old(self).can_push(),
        ensures
            !old(self).outstanding().contains(id),
            final(self).outstanding() == old(self).outstanding().insert(id),
    ;

    /// Reports whether the task with identifier `id` is still outstanding.
    fn contains(&self, id: u64) -> (r: bool)
        ensures
            r == self.outstanding().contains(id),
    ;

    /// Produces a timer future that becomes ready after `duration`, as the
    /// scheduler's own timing model counts it.
    fn sleep(&self, duration: Duration) -> (t: Self::Timer)
        ensures
            t.countdown() == self.timer_countdown(duration),
    ;

    /// Tells the scheduler to return control permanently and hands back the
    /// stop sentinel for the calling task to await.
    fn stop(&mut self) -> (s: Stop)
        ensures
            final(self).stop_requested(),
            final(self).outstanding() == old(self).outstanding(),
            final(self).can_push() == old(self).can_push(),
    ;
}

/// The richer surface every caller gets, derived generically from the four
/// `InternalRuntime` primitives; a scheduler author implements only those.
pub trait Runtime: InternalRuntime {
    /// Enqueues a task and discards its identifier.
    fn push(&mut self, task: Self::Task)
        requires
            old(self).can_push(),
        ensures
            exists|id: u64|
                !old(self).outstanding().contains(id) && final(self).outstanding() == old(
                    self,
                ).outstanding().insert(id),
    {
        InternalRuntime::push_boxed(self, Box::new(task));
    }

    /// Enqueues an already boxed task and discards its identifier.
    fn push_boxed(&mut self, task: Box<Self::Task>)
        requires
            old(self).can_push(),
        ensures
            exists|id: u64|
                !old(self).outstanding().contains(id) && final(self).outstanding() == old(
                    self,
                ).outstanding().insert(id),
    {
        InternalRuntime::push_boxed(self, task);
    }

    /// Enqueues a task and returns a handle future that resolves once the
    /// task is no longer outstanding.
    fn spawn(&mut self, task: Self::Task) -> (handle: SpawnedFuture)
        requires
            old(self).can_push(),
        ensures
            !old(self).outstanding().contains(handle.id),
            final(self).outstanding() == old(self).outstanding().insert(handle.id),
    {
        self.spawn_boxed(Box::new(task))
    }

    /// Enqueues an already boxed task and returns a handle future that
    /// resolves once the task is no longer outstanding.
    fn spawn_boxed(&mut self, task: Box<Self::Task>) -> (handle: SpawnedFuture)
        requires
            old(self).can_push(),
        ensures
            !old(self).outstanding().contains(handle.id),
            final(self).outstanding() == old(self).outstanding().insert(handle.id),
    {
        let id = InternalRuntime::push_boxed(self, task);
        SpawnedFuture { id }
    }

    /// Produces a timer future for the given number of milliseconds.
    fn sleep_ms(&self, amount: u64) -> (t: Self::Timer)
        ensures
            t.countdown() == self.timer_countdown(Duration { millis: amount }),
    {
        self.sleep(Duration::from_millis(amount))
    }
}

/// Every scheduler that supplies the primitives gets the derived surface.
impl<T: InternalRuntime> Runtime for T {}

} // verus!
