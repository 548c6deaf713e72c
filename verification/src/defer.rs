use vstd::prelude::*;

use crate::future::{Future, Poll};

verus! {

/// The blocking bridge: a known-blocking synchronous call, wrapped as a
/// future for uniformity with cooperative code. Its first poll runs the call
/// to completion on the calling context — which therefore blocks for the
/// whole call — and reports ready with the result at once. No concurrency is
/// manufactured here; "defer" means deferring to a blocking implementation,
/// not delaying in time.
#[verifier::reject_recursive_types(T)]
pub struct DeferFuture<A, T, F: FnOnce(A) -> T> {
    call: Option<(F, A)>,
}

impl<A, T, F: FnOnce(A) -> T> DeferFuture<A, T, F> {
    /// The stored call is always one that may actually be made.
    #[verifier::type_invariant]
    closed spec fn wf(&self) -> bool {
        self.call matches Some((f, a)) ==> call_requires(f, (a,))
    }
}

impl<A, T, F: FnOnce(A) -> T> Future for DeferFuture<A, T, F> {
    type Output = T;

    closed spec fn countdown(&self) -> Option<nat> {
        if self.call is Some {
            Some(0nat)
        } else {
            None
        }
    }

    closed spec fn is_value(&self, v: T) -> bool {
        self.call matches Some((f, a)) && call_ensures(f, (a,), v)
    }

    fn poll(&mut self) -> (r: Poll<T>)
        ensures
            old(self).countdown() == Some(0nat) ==> r is Ready && old(self).is_value(
                r->Ready_0,
            ),
            old(self).countdown() is None ==> r is Pending && final(self).countdown() is None,
    {
        proof {
            use_type_invariant(&*self);
        }
        let mut c: Option<(F, A)> = None;
        core::mem::swap(&mut self.call, &mut c);
        match c {
            Some((f, a)) => Poll::Ready(f(a)),
            None => Poll::Pending,
        }
    }
}

/// Wraps the blocking call `fun(args)` as a future that executes the call
/// synchronously on its first poll and is immediately ready with the result:
/// it is never pending before its result. The calling execution context is
/// blocked for the duration of the call.
pub fn defer<A, T, F: FnOnce(A) -> T>(fun: F, args: A) -> (r: DeferFuture<A, T, F>)
    requires
        call_requires(fun, (args,)),
    ensures
        r.countdown() == Some(0nat),
        forall|v: T| #[trigger] r.is_value(v) <==> call_ensures(fun, (args,), v),
{
    DeferFuture { call: Some((fun, args)) }
}

} // verus!
