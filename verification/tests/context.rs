use async_core::{
    ForceShare, InternalRuntime, Poll, QueueRuntime, Runtime, RuntimeSlot, YieldFuture,
    clear_current_runtime, get_current_runtime, set_current_runtime, yield_now,
};

#[test]
fn install_clear_cycles_leave_slot_empty() {
    let mut slot: RuntimeSlot<QueueRuntime<YieldFuture>> = RuntimeSlot::new();
    assert!(!slot.is_installed());
    for _ in 0..3 {
        set_current_runtime(&mut slot, QueueRuntime::new());
        assert!(slot.is_installed());
        let _rt = clear_current_runtime(&mut slot);
        assert!(!slot.is_installed());
    }
}

#[test]
fn empty_slot_reports_empty_on_every_call() {
    let slot: RuntimeSlot<QueueRuntime<YieldFuture>> = RuntimeSlot::new();
    for _ in 0..3 {
        assert!(!slot.is_installed());
    }
}

#[test]
fn installed_scheduler_is_reachable_and_comes_back() {
    let mut slot: RuntimeSlot<QueueRuntime<YieldFuture>> = RuntimeSlot::new();
    set_current_runtime(&mut slot, QueueRuntime::new());
    let handle = {
        let rt = get_current_runtime(&mut slot);
        rt.spawn(yield_now())
    };
    let rt = clear_current_runtime(&mut slot);
    assert!(rt.contains(handle.id));
    assert!(matches!(handle.poll(&rt), Poll::Pending));
}

#[test]
fn force_share_applies_the_closure_to_its_contents() {
    let shared = ForceShare(7u64);
    assert_eq!(shared.with(|x| *x + 1), 8);
}
