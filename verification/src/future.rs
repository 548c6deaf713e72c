use vstd::prelude::*;

verus! {

/// The result of advancing a future by one step: either the computation still
/// needs more polls, or it has finished with a value.
pub enum Poll<T> {
    Pending,
    Ready(T),
}

impl<T> Poll<T> {
    /// True exactly when this poll result carries a finished value.
    pub fn is_ready(&self) -> (r: bool)
        ensures
            r == (self is Ready),
    {
        match self {
            Poll::Ready(_) => true,
            Poll::Pending => false,
        }
    }

    /// True exactly when this poll result reports an unfinished computation.
    pub fn is_pending(&self) -> (r: bool)
        ensures
            r == (self is Pending),
    {
        match self {
            Poll::Ready(_) => false,
            Poll::Pending => true,
        }
    }
}

/// A cooperatively scheduled computation, advanced one step at a time by
/// `poll`. Every implementor describes its observable behaviour through two
/// model functions: `countdown` says how many further polls report pending
/// before the future reports ready (`None` for a future that never finishes),
/// and `is_value` says which values may be produced at that point.
pub trait Future: Sized {
    type Output;

    /// `Some(k)`: the next `k` polls report pending and the poll after them
    /// reports ready. `None`: every poll reports pending, forever.
    spec fn countdown(&self) -> Option<nat>;

    /// The set of values this future may produce when it reports ready.
    spec fn is_value(&self, v: Self::Output) -> bool;

    /// Advance the computation by one step. The ensures clause spells out the
    /// same relation as `poll_step` between the state before the call, the
    /// state after it, and the reported result.
    fn poll(&mut self) -> (r: Poll<Self::Output>)
        ensures
            match old(self).countdown() {
                Some(k) => if k == 0 {
                    r matches Poll::Ready(v) && old(self).is_value(v)
                } else {
                    r is Pending && final(self).countdown() == Some((k - 1) as nat) && (forall|
                        v: Self::Output,
                    |
                        final(self).is_value(v) ==> old(self).is_value(v))
                },
                None => r is Pending && final(self).countdown() is None,
            },
    ;
}

/// The behaviour every `poll` call must exhibit, as a relation between the
/// state before the call, the state after it, and the reported result.
pub open spec fn poll_step<F: Future>(pre: F, post: F, r: Poll<F::Output>) -> bool {
    match pre.countdown() {
        Some(k) => if k == 0 {
            r matches Poll::Ready(v) && pre.is_value(v)
        } else {
            &&& r is Pending
            &&& post.countdown() == Some((k - 1) as nat)
            &&& forall|v: F::Output| post.is_value(v) ==> pre.is_value(v)
        },
        None => r is Pending && post.countdown() is None,
    }
}

/// Law: a future whose countdown is `k` reports pending on each of its next
/// `k` polls and ready on the poll after them, with a value the starting
/// state allows. `states` records the future before and after each poll of
/// an arbitrary run, `results` what each poll reported.
pub proof fn lemma_countdown_resolution<F: Future>(
    states: Seq<F>,
    results: Seq<Poll<F::Output>>,
    k: nat,
)
    requires
        states.len() == results.len() + 1,
        results.len() == k + 1,
        states[0].countdown() == Some(k),
        forall|i: int|
            0 <= i < results.len() ==> poll_step(#[trigger] states[i], states[i + 1], results[i]),
    ensures
        forall|i: int| 0 <= i < k ==> (#[trigger] results[i]) is Pending,
        results[k as int] matches Poll::Ready(v) && states[0].is_value(v),
    decreases k,
{
    assert(poll_step(states[0], states[1], results[0]));
    if k > 0 {
        let states2 = states.drop_first();
        let results2 = results.drop_first();
        assert forall|i: int| 0 <= i < results2.len() implies poll_step(
            #[trigger] states2[i],
            states2[i + 1],
            results2[i],
        ) by {
            assert(poll_step(states[i + 1], states[i + 2], results[i + 1]));
        }
        lemma_countdown_resolution(states2, results2, (k - 1) as nat);
        assert forall|i: int| 0 <= i < k implies (#[trigger] results[i]) is Pending by {
            if i > 0 {
                assert(results2[i - 1] is Pending);
            }
        }
        assert(results2[k - 1] matches Poll::Ready(v) && states2[0].is_value(v));
        assert(results[k as int] == results2[k - 1]);
    }
}

} // verus!
