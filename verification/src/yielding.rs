use vstd::prelude::*;

use crate::future::{Future, Poll};

verus! {

/// A single-use suspension point: the first poll reports pending and flips
/// the internal flag, every later poll reports ready. Awaiting it forces
/// exactly one round trip through the driving scheduler.
pub struct YieldFuture {
    /// Whether the one pending poll has already happened.
    pub polled: bool,
}

impl Future for YieldFuture {
    type Output = ();

    open spec fn countdown(&self) -> Option<nat> {
        if self.polled {
            Some(0nat)
        } else {
            Some(1nat)
        }
    }

    open spec fn is_value(&self, v: ()) -> bool {
        true
    }

    fn poll(&mut self) -> (r: Poll<()>)
        ensures
            r is Ready <==> old(self).polled,
            final(self).polled,
    {
        if self.polled {
            Poll::Ready(())
        } else {
            self.polled = true;
            Poll::Pending
        }
    }
}

/// Interrupts the current task once, making room for other tasks to run.
pub fn yield_now() -> (r: YieldFuture)
    ensures
        !r.polled,
        r.countdown() == Some(1nat),
{
    YieldFuture { polled: false }
}

} // verus!
