use async_core::{JoinedFuture, Poll, Stop, TickTimer, defer, join, yield_now};
use async_core::Future;

#[test]
fn join_of_timers_resolves_after_slowest() {
    // Members become ready on their 2nd and 4th polls; the join is pending
    // for three polls and ready on its 4th, like its slowest member.
    let mut j = join(vec![TickTimer { remaining: 1 }, TickTimer { remaining: 3 }]);
    for _ in 0..3 {
        assert!(matches!(j.poll(), Poll::Pending));
    }
    match j.poll() {
        Poll::Ready(v) => assert_eq!(v.len(), 2),
        Poll::Pending => panic!("join must be ready once every member is"),
    }
}

#[test]
fn join_yields_values_in_input_order() {
    let f = |x: u64| x * 10;
    let mut j = join(vec![defer(f, 3), defer(f, 1), defer(f, 2)]);
    match j.poll() {
        Poll::Ready(v) => assert_eq!(v, vec![30, 10, 20]),
        Poll::Pending => panic!("all members were ready on the first poll"),
    }
}

#[test]
fn join_empty_is_ready_on_first_poll() {
    let mut j: JoinedFuture<TickTimer> = join(Vec::new());
    match j.poll() {
        Poll::Ready(v) => assert_eq!(v.len(), 0),
        Poll::Pending => panic!("an empty join must be ready at once"),
    }
}

#[test]
fn nested_joins_resolve_with_distinct_values() {
    let inner_a = join(vec![TickTimer { remaining: 2 }]);
    let inner_b = join(vec![TickTimer { remaining: 0 }, TickTimer { remaining: 1 }]);
    let mut outer = join(vec![inner_a, inner_b]);
    assert!(matches!(outer.poll(), Poll::Pending));
    assert!(matches!(outer.poll(), Poll::Pending));
    match outer.poll() {
        Poll::Ready(v) => {
            assert_eq!(v.len(), 2);
            assert_eq!(v[0].len(), 1);
            assert_eq!(v[1].len(), 2);
        },
        Poll::Pending => panic!("the slowest member needed three polls"),
    }
}

#[test]
fn yield_pending_then_ready() {
    let mut y = yield_now();
    assert!(matches!(y.poll(), Poll::Pending));
    assert!(matches!(y.poll(), Poll::Ready(())));
    assert!(matches!(y.poll(), Poll::Ready(())));
}

#[test]
fn stop_never_resolves() {
    let mut s = Stop;
    for _ in 0..5 {
        assert!(matches!(s.poll(), Poll::Pending));
    }
}

#[test]
fn defer_is_ready_with_the_result_on_first_poll() {
    let mut d = defer(|x: i64| x + 41, 1);
    match d.poll() {
        Poll::Ready(v) => assert_eq!(v, 42),
        Poll::Pending => panic!("the blocking bridge is never pending before its result"),
    }
}

#[test]
fn defer_runs_the_call_on_its_argument() {
    let mut d = defer(|s: String| s.len(), String::from("abcd"));
    match d.poll() {
        Poll::Ready(v) => assert_eq!(v, 4),
        Poll::Pending => panic!("the blocking bridge is never pending before its result"),
    }
}

#[test]
fn poll_reports_its_own_state() {
    let ready: Poll<u8> = Poll::Ready(3);
    let pending: Poll<u8> = Poll::Pending;
    assert!(ready.is_ready());
    assert!(!ready.is_pending());
    assert!(pending.is_pending());
    assert!(!pending.is_ready());
}
