use guillotine::context::ContextSlot;
use guillotine::context::RuntimeContext;
use guillotine::future_id::FutureId;
use guillotine::runtime::Runtime;
use std::task::Waker;

#[test]
fn slot_holds_at_most_the_current_poll() {
    let mut slot = ContextSlot::new();
    assert!(RuntimeContext::try_current(&slot).is_none());

    let ctx = RuntimeContext::new(FutureId::from_u64(3), Waker::noop().clone());
    RuntimeContext::set(&mut slot, ctx);
    assert_eq!(RuntimeContext::current(&slot).current_id().to_u64(), 3);
    assert_eq!(
        RuntimeContext::try_current(&slot).unwrap().current_id().to_u64(),
        3
    );

    // Setting the context of the next poll displaces the previous one:
    // only one poll's context is ever visible.
    let next = RuntimeContext::new(FutureId::from_u64(4), Waker::noop().clone());
    RuntimeContext::set(&mut slot, next);
    assert_eq!(RuntimeContext::current(&slot).current_id().to_u64(), 4);

    RuntimeContext::clear(&mut slot);
    assert!(RuntimeContext::try_current(&slot).is_none());
}

#[test]
fn context_spawn_feeds_the_admission_fifo() {
    let mut rt = Runtime::new();
    let ctx = RuntimeContext::new(FutureId::from_u64(77), Waker::noop().clone());

    let a = ctx.spawn(&mut rt);
    let b = ctx.spawn(&mut rt);
    assert_eq!(a.to_u64(), 0);
    assert_eq!(b.to_u64(), 1);
    assert_eq!(rt.admit_next(), Some(a));
    assert_eq!(rt.admit_next(), Some(b));
}

#[test]
fn context_registration_is_idempotent_across_polls() {
    let mut rt = Runtime::new();
    let id = rt.spawn();
    assert_eq!(rt.admit_next(), Some(id));

    let ctx = RuntimeContext::new(id, Waker::noop().clone());
    // The first pending poll registers the descriptor; every later
    // pending poll re-registers and is told nothing new happened.
    assert!(ctx.register_file_descriptor(&mut rt, 8));
    assert!(!ctx.register_file_descriptor(&mut rt, 8));
    assert!(!ctx.register_file_descriptor(&mut rt, 8));
}

#[test]
fn context_carries_its_waker() {
    let waker = Waker::noop().clone();
    let ctx = RuntimeContext::new(FutureId::from_u64(1), waker.clone());
    // The handle handed back is the one the context was built around.
    assert!(ctx.waker().will_wake(&waker));
}
