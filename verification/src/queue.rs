use vstd::prelude::*;

use crate::future::{Future, Poll};
use crate::runtime::{Duration, InternalRuntime, Stop};

verus! {

/// The tick-based timer of `QueueRuntime`: it interprets a duration of `n`
/// milliseconds as `n` pending polls followed by a ready one.
pub struct TickTimer {
    /// How many further polls report pending.
    pub remaining: u64,
}

impl Future for TickTimer {
    type Output = ();

    open spec fn countdown(&self) -> Option<nat> {
        Some(self.remaining as nat)
    }

    open spec fn is_value(&self, v: ()) -> bool {
        true
    }

    fn poll(&mut self) -> (r: Poll<()>)
        ensures
            r is Ready <==> old(self).remaining == 0,
            old(self).remaining > 0 ==> final(self).remaining == old(self).remaining - 1,
    {
        if self.remaining == 0 {
            Poll::Ready(())
        } else {
            self.remaining = self.remaining - 1;
            Poll::Pending
        }
    }
}

/// The smallest scheduler that meets the contract: a first-in-first-out
/// queue of tasks under increasing identifiers. It exists so that the
/// contract has a checked implementation; anything beyond storing tasks and
/// polling them round-robin is left to real schedulers.
pub struct QueueRuntime<F: Future<Output = ()>> {
    /// The outstanding tasks, front first, each under its identifier.
    pub tasks: Vec<(u64, F)>,
    /// The identifier the next enqueued task will receive.
    pub next_id: u64,
    /// Whether `stop` has been called.
    pub stopped: bool,
}

impl<F: Future<Output = ()>> QueueRuntime<F> {
    /// An empty scheduler: nothing outstanding, no stop requested.
    pub fn new() -> (rt: QueueRuntime<F>)
        ensures
            rt.outstanding() == Set::<u64>::empty(),
            rt.can_push(),
            !rt.stop_requested(),
            rt.tasks@.len() == 0,
    {
        let rt = QueueRuntime { tasks: Vec::new(), next_id: 0, stopped: false };
        proof {
            assert(rt.outstanding() =~= Set::<u64>::empty());
        }
        rt
    }

    /// Polls the front task once. A task that reports ready has completed
    /// and leaves the scheduler; one that reports pending goes to the back
    /// of the queue. Reports whether there was a task to poll.
    pub fn run_once(&mut self) -> (progressed: bool)
        ensures
            progressed == (old(self).tasks@.len() > 0),
            final(self).next_id == old(self).next_id,
            final(self).stopped == old(self).stopped,
            old(self).tasks@.len() == 0 ==> final(self).tasks@ == old(self).tasks@,
            old(self).tasks@.len() > 0 ==> match old(self).tasks@[0].1.countdown() {
                Some(k) => if k == 0 {
                    final(self).tasks@ == old(self).tasks@.drop_first()
                } else {
                    exists|g: F|
                        final(self).tasks@ == old(self).tasks@.drop_first().push(
                            (old(self).tasks@[0].0, g),
                        ) && g.countdown() == Some((k - 1) as nat)
                },
                None => exists|g: F|
                    final(self).tasks@ == old(self).tasks@.drop_first().push(
                        (old(self).tasks@[0].0, g),
                    ) && g.countdown() is None,
            },
    {
        if self.tasks.len() == 0 {
            return false;
        }
        let (id, mut task) = self.tasks.remove(0);
        proof {
            assert(self.tasks@ =~= old(self).tasks@.drop_first());
        }
        match task.poll() {
            Poll::Ready(_) => {},
            Poll::Pending => {
                self.tasks.push((id, task));
            },
        }
        true
    }
}

impl<F: Future<Output = ()>> InternalRuntime for QueueRuntime<F> {
    type Task = F;

    type Timer = TickTimer;

    open spec fn outstanding(&self) -> Set<u64> {
        Set::new(
            |id: u64| exists|i: int| 0 <= i < self.tasks@.len() && self.tasks@[i].0 == id,
        )
    }

    open spec fn can_push(&self) -> bool {
        &&& self.next_id < u64::MAX
        &&& forall|i: int| 0 <= i < self.tasks@.len() ==> self.tasks@[i].0 < self.next_id
    }

    open spec fn stop_requested(&self) -> bool {
        self.stopped
    }

    open spec fn timer_countdown(&self, duration: Duration) -> Option<nat> {
        Some(duration.millis as nat)
    }

    fn push_boxed(&mut self, task: Box<F>) -> (id: u64)
        ensures
            final(self).tasks@ == old(self).tasks@.push((id, *task)),
            final(self).next_id == old(self).next_id + 1,
            final(self).stopped == old(self).stopped,
    {
        let id = self.next_id;
        self.next_id = self.next_id + 1;
        let t: F = *task;
        self.tasks.push((id, t));
        proof {
            assert(!old(self).outstanding().contains(id));
            assert forall|x: u64| #[trigger]
                self.outstanding().contains(x) implies old(self).outstanding().insert(
                id,
            ).contains(x) by {
                let i = choose|i: int| 0 <= i < self.tasks@.len() && self.tasks@[i].0 == x;
                if i < old(self).tasks@.len() {
                    assert(old(self).tasks@[i].0 == x);
                }
            }
            assert forall|x: u64| old(self).outstanding().insert(id).contains(
                x,
            ) implies #[trigger] self.outstanding().contains(x) by {
                if x == id {
                    assert(self.tasks@[old(self).tasks@.len() as int].0 == x);
                } else {
                    let i = choose|i: int|
                        0 <= i < old(self).tasks@.len() && old(self).tasks@[i].0 == x;
                    assert(self.tasks@[i].0 == x);
                }
            }
            assert(self.outstanding() =~= old(self).outstanding().insert(id));
        }
        id
    }

    fn contains(&self, id: u64) -> (r: bool) {
        let mut i: usize = 0;
        while i < self.tasks.len()
            invariant
                0 <= i <= self.tasks@.len(),
                forall|j: int| 0 <= j < i ==> self.tasks@[j].0 != id,
            decreases self.tasks@.len() - i,
        {
            if self.tasks[i].0 == id {
                proof {
                    assert(self.outstanding().contains(id));
                }
                return true;
            }
            i = i + 1;
        }
        proof {
            if self.outstanding().contains(id) {
                let j = choose|j: int| 0 <= j < self.tasks@.len() && self.tasks@[j].0 == id;
                assert(self.tasks@[j].0 != id);
            }
        }
        false
    }

    fn sleep(&self, duration: Duration) -> (t: TickTimer)
        ensures
            t.remaining == duration.millis,
    {
        TickTimer { remaining: duration.millis }
    }

    fn stop(&mut self) -> (s: Stop)
        ensures
            final(self).stopped,
            final(self).tasks@ == old(self).tasks@,
            final(self).next_id == old(self).next_id,
    {
        self.stopped = true;
        Stop
    }
}

} // verus!
