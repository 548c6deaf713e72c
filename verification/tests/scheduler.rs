use async_core::{Duration, InternalRuntime, Poll, QueueRuntime, Runtime, YieldFuture, prep, yield_now};
use async_core::{Future, TickTimer};

#[test]
fn spawn_handle_tracks_outstanding() {
    let mut rt: QueueRuntime<YieldFuture> = QueueRuntime::new();
    let handle = rt.spawn(yield_now());
    assert!(rt.contains(handle.id));
    assert!(matches!(handle.poll(&rt), Poll::Pending));
    assert!(rt.run_once());  // the task yields once and goes to the back
    assert!(matches!(handle.poll(&rt), Poll::Pending));
    assert!(rt.run_once());  // the task completes and leaves the scheduler
    assert!(!rt.contains(handle.id));
    assert!(matches!(handle.poll(&rt), Poll::Ready(())));
    assert!(matches!(handle.poll(&rt), Poll::Ready(())));
}

#[test]
fn push_boxed_gives_a_fresh_outstanding_id() {
    let mut rt: QueueRuntime<YieldFuture> = QueueRuntime::new();
    let id = InternalRuntime::push_boxed(&mut rt, prep(yield_now()));
    assert!(rt.contains(id));
    let other = InternalRuntime::push_boxed(&mut rt, prep(yield_now()));
    assert_ne!(id, other);
    assert!(rt.contains(id));
    assert!(rt.contains(other));
}

#[test]
fn push_enqueues_a_task() {
    let mut rt: QueueRuntime<YieldFuture> = QueueRuntime::new();
    assert!(!rt.run_once());
    rt.push(yield_now());
    assert!(rt.run_once());
}

#[test]
fn spawn_boxed_and_push_boxed_enqueue_like_their_plain_forms() {
    let mut rt: QueueRuntime<YieldFuture> = QueueRuntime::new();
    let handle = rt.spawn_boxed(prep(yield_now()));
    assert!(rt.contains(handle.id));
    Runtime::push_boxed(&mut rt, prep(yield_now()));
    assert!(rt.run_once());
    assert!(rt.run_once());
}

#[test]
fn task_done_before_first_handle_poll_reports_ready() {
    // A task may complete between enqueue and the first poll of its handle;
    // the handle is then ready at once.
    let mut rt: QueueRuntime<TickTimer> = QueueRuntime::new();
    let handle = rt.spawn(TickTimer { remaining: 0 });
    assert!(rt.run_once());
    assert!(!rt.contains(handle.id));
    assert!(matches!(handle.poll(&rt), Poll::Ready(())));
}

#[test]
fn sleep_ms_counts_down_in_ticks() {
    let rt: QueueRuntime<YieldFuture> = QueueRuntime::new();
    let mut timer = rt.sleep_ms(2);
    assert!(matches!(timer.poll(), Poll::Pending));
    assert!(matches!(timer.poll(), Poll::Pending));
    assert!(matches!(timer.poll(), Poll::Ready(())));
}

#[test]
fn sleep_uses_the_whole_duration() {
    let rt: QueueRuntime<YieldFuture> = QueueRuntime::new();
    let d = Duration::from_millis(1);
    assert_eq!(d.millis, 1);
    let mut timer = rt.sleep(d);
    assert!(matches!(timer.poll(), Poll::Pending));
    assert!(matches!(timer.poll(), Poll::Ready(())));
}

#[test]
fn stop_marks_the_scheduler_and_parks_the_caller() {
    let mut rt: QueueRuntime<YieldFuture> = QueueRuntime::new();
    assert!(!rt.stopped);
    let mut sentinel = InternalRuntime::stop(&mut rt);
    assert!(rt.stopped);
    assert!(matches!(sentinel.poll(), Poll::Pending));
    assert!(matches!(sentinel.poll(), Poll::Pending));
}
