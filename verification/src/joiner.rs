use vstd::prelude::*;

use crate::future::{Future, Poll, lemma_countdown_resolution, poll_step};

verus! {

/// One member of a join: either still running, or completed with its value.
/// A slot moves from active to done exactly once and never back.
pub enum JoinSlot<F: Future> {
    Active(F),
    Done(F::Output),
}

/// How many pending polls one slot still needs: a completed slot needs none.
pub open spec fn slot_countdown<F: Future>(s: JoinSlot<F>) -> Option<nat> {
    match s {
        JoinSlot::Active(f) => f.countdown(),
        JoinSlot::Done(_) => Some(0nat),
    }
}

/// Whether `x` is a value slot `s` accounts for: the recorded value of a
/// completed slot, or a value its future may still produce.
pub open spec fn slot_matches<F: Future>(s: JoinSlot<F>, x: F::Output) -> bool {
    match s {
        JoinSlot::Active(f) => f.is_value(x),
        JoinSlot::Done(y) => x == y,
    }
}

/// The larger of two countdowns, where "never" swallows everything.
pub open spec fn opt_max(a: Option<nat>, b: Option<nat>) -> Option<nat> {
    match (a, b) {
        (Some(x), Some(y)) => Some(if x >= y { x } else { y }),
        _ => None,
    }
}

/// The countdown of a whole slot sequence: the slowest member decides, and
/// an empty sequence is ready at once.
pub open spec fn slots_countdown<F: Future>(s: Seq<JoinSlot<F>>) -> Option<nat>
    decreases s.len(),
{
    if s.len() == 0 {
        Some(0nat)
    } else {
        opt_max(slot_countdown(s[0]), slots_countdown(s.drop_first()))
    }
}

/// Whether `v` lists, in slot order, one value for every slot.
pub open spec fn slots_value<F: Future>(s: Seq<JoinSlot<F>>, v: Seq<F::Output>) -> bool {
    &&& v.len() == s.len()
    &&& forall|i: int| 0 <= i < s.len() ==> slot_matches(s[i], v[i])
}

/// What one combinator poll step does to one slot: a completed slot is left
/// untouched, an active one is polled exactly once and either completes in
/// place or keeps running with its countdown decreased.
pub open spec fn slot_step<F: Future>(a: JoinSlot<F>, b: JoinSlot<F>) -> bool {
    match a {
        JoinSlot::Done(x) => b == JoinSlot::<F>::Done(x),
        JoinSlot::Active(f) => match f.countdown() {
            Some(k) => if k == 0 {
                b matches JoinSlot::Done(v) && f.is_value(v)
            } else {
                b matches JoinSlot::Active(g) && g.countdown() == Some((k - 1) as nat) && (forall|
                    v: F::Output,
                |
                    g.is_value(v) ==> f.is_value(v))
            },
            None => b matches JoinSlot::Active(g) && g.countdown() is None,
        },
    }
}

/// How one combinator poll step changes the aggregate model: as long as the
/// members all finish, values are only narrowed, and the slowest member's
/// countdown decides whether everything is done or counts down by one; a
/// member that never finishes keeps the whole join from finishing.
proof fn lemma_slots_step<F: Future>(a: Seq<JoinSlot<F>>, b: Seq<JoinSlot<F>>)
    requires
        a.len() == b.len(),
        forall|i: int| 0 <= i < a.len() ==> slot_step(#[trigger] a[i], b[i]),
    ensures
        match slots_countdown(a) {
            Some(k) => (forall|v: Seq<F::Output>| slots_value(b, v) ==> slots_value(a, v)) && if k
                == 0 {
                (forall|i: int| 0 <= i < b.len() ==> (#[trigger] b[i]) is Done)
                    && slots_countdown(b) == Some(0nat)
            } else {
                slots_countdown(b) == Some((k - 1) as nat) && (exists|i: int|
                    0 <= i < b.len() && (#[trigger] b[i]) is Active)
            },
            None => slots_countdown(b) is None && (exists|i: int|
                0 <= i < b.len() && (#[trigger] b[i]) is Active),
        },
    decreases a.len(),
{
    if a.len() > 0 {
        let at = a.drop_first();
        let bt = b.drop_first();
        assert forall|i: int| 0 <= i < at.len() implies slot_step(#[trigger] at[i], bt[i]) by {
            assert(slot_step(a[i + 1], b[i + 1]));
        }
        lemma_slots_step(at, bt);
        assert(slot_step(a[0], b[0]));
        match slots_countdown(a) {
            Some(k) => {
                // The aggregate is `Some`, so the head and the tail both are.
                assert(slot_countdown(a[0]) is Some && slots_countdown(at) is Some);
                let h = choose|h: nat| slot_countdown(a[0]) == Some(h);
                assert(slot_countdown(a[0]) == Some(h));
                assert(slots_countdown(at) matches Some(t) && (if h >= t {
                    k == h
                } else {
                    k == t
                }));
                assert forall|v: Seq<F::Output>| slots_value(b, v) implies slots_value(a, v) by {
                    let vt = v.drop_first();
                    assert forall|i: int| 0 <= i < bt.len() implies slot_matches(
                        #[trigger] bt[i],
                        vt[i],
                    ) by {
                        assert(slot_matches(b[i + 1], v[i + 1]));
                    }
                    assert(slots_value(bt, vt));
                    assert(slots_value(at, vt));
                    assert forall|i: int| 0 <= i < a.len() implies slot_matches(a[i], v[i]) by {
                        if i == 0 {
                            assert(slot_matches(b[0], v[0]));
                        } else {
                            assert(slot_matches(at[i - 1], vt[i - 1]));
                        }
                    }
                }
                if k == 0 {
                    assert forall|i: int| 0 <= i < b.len() implies (#[trigger] b[i]) is Done by {
                        if i > 0 {
                            assert(bt[i - 1] is Done);
                        } else {
                            assert(slot_step(a[0], b[0]));
                        }
                    }
                    assert(slots_countdown(bt) == Some(0nat));
                } else {
                    if h > 0 {
                        assert(b[0] is Active);
                    } else {
                        let j = choose|j: int| 0 <= j < bt.len() && (#[trigger] bt[j]) is Active;
                        assert(b[j + 1] is Active);
                    }
                }
            },
            None => {
                if slot_countdown(a[0]) is None {
                    assert(b[0] is Active);
                } else {
                    let j = choose|j: int| 0 <= j < bt.len() && (#[trigger] bt[j]) is Active;
                    assert(b[j + 1] is Active);
                }
            },
        }
    }
}

/// A fan-in over a fixed, ordered set of member futures. Each poll advances
/// every not-yet-completed member exactly once, in registration order;
/// completed members are skipped. It reports ready exactly when every member
/// has completed, with the values in the original order, regardless of the
/// order in which members completed. It owns its members, touches no ambient
/// scheduler state and enqueues nothing.
pub struct JoinedFuture<F: Future> {
    /// The members, each either still running or completed with its value.
    pub slots: Vec<JoinSlot<F>>,
}

impl<F: Future> JoinedFuture<F> {
    /// Builds the join over `futures`, every member still to run, in the
    /// given order.
    pub fn new(mut futures: Vec<F>) -> (j: JoinedFuture<F>)
        ensures
            j.slots@.len() == futures@.len(),
            forall|i: int|
                0 <= i < futures@.len() ==> j.slots@[i] == JoinSlot::Active(futures@[i]),
    {
        let ghost orig = futures@;
        let mut slots: Vec<JoinSlot<F>> = Vec::new();
        while futures.len() > 0
            invariant
                slots@.len() + futures@.len() == orig.len(),
                forall|i: int| 0 <= i < slots@.len() ==> slots@[i] == JoinSlot::Active(orig[i]),
                forall|i: int|
                    0 <= i < futures@.len() ==> futures@[i] == orig[slots@.len() + i],
            decreases futures@.len(),
        {
            let f = futures.remove(0);
            slots.push(JoinSlot::Active(f));
        }
        JoinedFuture { slots }
    }
}

impl<F: Future> Future for JoinedFuture<F> {
    type Output = Vec<F::Output>;

    open spec fn countdown(&self) -> Option<nat> {
        slots_countdown(self.slots@)
    }

    open spec fn is_value(&self, v: Vec<F::Output>) -> bool {
        slots_value(self.slots@, v@)
    }

    fn poll(&mut self) -> (r: Poll<Vec<F::Output>>)
        ensures
            r is Ready <==> old(self).countdown() == Some(0nat),
    {
        let ghost pre = self.slots@;
        let mut polled: Vec<JoinSlot<F>> = Vec::new();
        let mut all_done = true;
        while self.slots.len() > 0
            invariant
                pre.len() == polled@.len() + self.slots@.len(),
                forall|i: int| 0 <= i < polled@.len() ==> slot_step(pre[i], #[trigger] polled@[i]),
                forall|i: int|
                    0 <= i < self.slots@.len() ==> self.slots@[i] == pre[polled@.len() + i],
                all_done ==> (forall|i: int|
                    0 <= i < polled@.len() ==> (#[trigger] polled@[i]) is Done),
                !all_done ==> (exists|i: int|
                    0 <= i < polled@.len() && (#[trigger] polled@[i]) is Active),
            decreases self.slots@.len(),
        {
            let s = self.slots.remove(0);
            let ghost polled_before = polled@;
            let ghost was_done = all_done;
            match s {
                JoinSlot::Done(x) => {
                    polled.push(JoinSlot::Done(x));
                },
                JoinSlot::Active(mut f) => {
                    match f.poll() {
                        Poll::Ready(v) => {
                            polled.push(JoinSlot::Done(v));
                        },
                        Poll::Pending => {
                            all_done = false;
                            polled.push(JoinSlot::Active(f));
                        },
                    }
                },
            }
            proof {
                if !was_done {
                    let j = choose|j: int|
                        0 <= j < polled_before.len() && (#[trigger] polled_before[j]) is Active;
                    assert(polled@[j] is Active);
                } else if !all_done {
                    assert(polled@[polled@.len() - 1] is Active);
                }
            }
        }
        self.slots = polled;
        proof {
            lemma_slots_step(pre, self.slots@);
        }
        if all_done {
            let ghost mid = self.slots@;
            let mut out: Vec<F::Output> = Vec::new();
            while self.slots.len() > 0
                invariant
                    mid.len() == out@.len() + self.slots@.len(),
                    forall|i: int| 0 <= i < out@.len() ==> slot_matches(mid[i], #[trigger] out@[i]),
                    forall|i: int|
                        0 <= i < self.slots@.len() ==> self.slots@[i] == mid[out@.len() + i],
                    forall|i: int| 0 <= i < mid.len() ==> (#[trigger] mid[i]) is Done,
                decreases self.slots@.len(),
            {
                match self.slots.remove(0) {
                    JoinSlot::Done(x) => {
                        out.push(x);
                    },
                    JoinSlot::Active(_) => {
                        unreached()
                    },
                }
            }
            proof {
                assert(slots_value(mid, out@));
            }
            Poll::Ready(out)
        } else {
            Poll::Pending
        }
    }
}

/// Joins multiple futures into one that is ready once all of them are: in
/// effect a small one-time scheduler without the ability to take on tasks.
/// An empty collection gives a join that is ready, with an empty result, on
/// its very first poll.
pub fn join<F: Future>(futures: Vec<F>) -> (j: JoinedFuture<F>)
    ensures
        j.slots@.len() == futures@.len(),
        forall|i: int| 0 <= i < futures@.len() ==> j.slots@[i] == JoinSlot::Active(futures@[i]),
        futures@.len() == 0 ==> j.countdown() == Some(0nat),
        futures@.len() == 0 ==> (forall|v: Vec<F::Output>| j.is_value(v) <==> v@.len() == 0),
{
    JoinedFuture::new(futures)
}

/// The largest of a sequence of counts; zero for the empty sequence.
pub open spec fn seq_max(s: Seq<nat>) -> nat
    decreases s.len(),
{
    if s.len() == 0 {
        0nat
    } else {
        let m = seq_max(s.drop_first());
        if s[0] >= m {
            s[0]
        } else {
            m
        }
    }
}

/// Law (join resolution): a freshly created join over members whose
/// countdowns are `ks` has countdown `max(ks)`, and allows exactly the value
/// sequences that list, in the original input order, one value each member
/// allows. Together with `lemma_countdown_resolution` this says the join
/// reports pending until every member has resolved and then reports the
/// members' values in input order, after as many polls as the slowest
/// member needs.
pub proof fn lemma_join_resolution<F: Future>(members: Seq<F>, ks: Seq<nat>, joined: JoinedFuture<F>)
    requires
        joined.slots@.len() == members.len(),
        forall|i: int| 0 <= i < members.len() ==> joined.slots@[i] == JoinSlot::Active(members[i]),
        ks.len() == members.len(),
        forall|i: int| 0 <= i < members.len() ==> (#[trigger] members[i]).countdown() == Some(ks[i]),
    ensures
        joined.countdown() == Some(seq_max(ks)),
        forall|v: Vec<F::Output>|
            #[trigger] joined.is_value(v) <==> (v@.len() == members.len() && (forall|i: int|
                0 <= i < members.len() ==> (#[trigger] members[i]).is_value(v@[i]))),
{
    lemma_active_slots_countdown(members, ks, joined.slots@);
    assert forall|v: Vec<F::Output>| #[trigger] joined.is_value(v) <==> (v@.len() == members.len()
        && (forall|i: int|
        0 <= i < members.len() ==> (#[trigger] members[i]).is_value(v@[i]))) by {
        if joined.is_value(v) {
            assert forall|i: int| 0 <= i < members.len() implies (#[trigger] members[i]).is_value(
                v@[i],
            ) by {
                assert(slot_matches(joined.slots@[i], v@[i]));
            }
        }
        if v@.len() == members.len() && (forall|i: int|
            0 <= i < members.len() ==> (#[trigger] members[i]).is_value(v@[i])) {
            assert forall|i: int| 0 <= i < joined.slots@.len() implies slot_matches(
                joined.slots@[i],
                v@[i],
            ) by {
                assert(members[i].is_value(v@[i]));
            }
        }
    }
}

/// Law (join schedule): members that each resolve after `ks[i] + 1` polls,
/// joined and then polled repeatedly, give a join that reports pending on
/// each of its first `max(ks)` polls and ready on the poll after them, with
/// one value per member, in the original input order, each a value its
/// member allowed. `states` records the join before and after each poll,
/// `results` what each poll reported.
pub proof fn lemma_join_schedule<F: Future>(
    members: Seq<F>,
    ks: Seq<nat>,
    states: Seq<JoinedFuture<F>>,
    results: Seq<Poll<Vec<F::Output>>>,
)
    requires
        states.len() == results.len() + 1,
        results.len() == seq_max(ks) + 1,
        states[0].slots@.len() == members.len(),
        forall|i: int|
            0 <= i < members.len() ==> states[0].slots@[i] == JoinSlot::Active(members[i]),
        ks.len() == members.len(),
        forall|i: int| 0 <= i < members.len() ==> (#[trigger] members[i]).countdown() == Some(ks[i]),
        forall|i: int|
            0 <= i < results.len() ==> poll_step(#[trigger] states[i], states[i + 1], results[i]),
    ensures
        forall|i: int| 0 <= i < seq_max(ks) ==> (#[trigger] results[i]) is Pending,
        results[seq_max(ks) as int] matches Poll::Ready(v) && v@.len() == members.len() && (forall|
            j: int,
        |
            0 <= j < members.len() ==> (#[trigger] members[j]).is_value(v@[j])),
{
    lemma_join_resolution(members, ks, states[0]);
    lemma_countdown_resolution(states, results, seq_max(ks));
    assert(results[seq_max(ks) as int] matches Poll::Ready(v) && states[0].is_value(v));
}

/// The countdown of a sequence of active slots is the largest member
/// countdown.
proof fn lemma_active_slots_countdown<F: Future>(members: Seq<F>, ks: Seq<nat>, slots: Seq<JoinSlot<F>>)
    requires
        slots.len() == members.len(),
        forall|i: int| 0 <= i < members.len() ==> slots[i] == JoinSlot::Active(members[i]),
        ks.len() == members.len(),
        forall|i: int| 0 <= i < members.len() ==> (#[trigger] members[i]).countdown() == Some(ks[i]),
    ensures
        slots_countdown(slots) == Some(seq_max(ks)),
    decreases members.len(),
{
    if members.len() > 0 {
        let mt = members.drop_first();
        let kt = ks.drop_first();
        let st = slots.drop_first();
        assert forall|i: int| 0 <= i < mt.len() implies st[i] == JoinSlot::Active(
            #[trigger] mt[i],
        ) by {
            assert(slots[i + 1] == JoinSlot::Active(members[i + 1]));
        }
        assert forall|i: int| 0 <= i < mt.len() implies (#[trigger] mt[i]).countdown() == Some(
            kt[i],
        ) by {
            assert(members[i + 1].countdown() == Some(ks[i + 1]));
        }
        lemma_active_slots_countdown(mt, kt, st);
        assert(slots[0] == JoinSlot::Active(members[0]));
        assert(members[0].countdown() == Some(ks[0]));
    }
}

} // verus!
