use guillotine::leaf::IoAttempt;
use guillotine::leaf::LeafPoll;
use guillotine::leaf::RegisteredState;
use guillotine::leaf::leaf_poll_step;

#[test]
fn ready_attempt_completes_with_its_value() {
    let d = leaf_poll_step::<u64, i32>(IoAttempt::Ready(1), RegisteredState::Unregistered);
    assert!(matches!(d.poll, LeafPoll::Ready(Ok(1))));
    assert_eq!(d.state, RegisteredState::Unregistered);
    assert!(!d.must_register);
}

#[test]
fn would_block_registers_exactly_once() {
    let d = leaf_poll_step::<u64, i32>(IoAttempt::WouldBlock, RegisteredState::Unregistered);
    assert!(matches!(d.poll, LeafPoll::Pending));
    assert_eq!(d.state, RegisteredState::Registered);
    assert!(d.must_register);

    // Later pending polls carry the registered state and ask for no
    // further registration.
    let d2 = leaf_poll_step::<u64, i32>(IoAttempt::WouldBlock, d.state);
    assert!(matches!(d2.poll, LeafPoll::Pending));
    assert_eq!(d2.state, RegisteredState::Registered);
    assert!(!d2.must_register);
}

#[test]
fn ready_after_would_block_still_passes_the_value() {
    let d = leaf_poll_step::<u64, i32>(IoAttempt::Ready(5), RegisteredState::Registered);
    assert!(matches!(d.poll, LeafPoll::Ready(Ok(5))));
    assert_eq!(d.state, RegisteredState::Registered);
    assert!(!d.must_register);
}

#[test]
fn real_errors_complete_with_the_error() {
    let d = leaf_poll_step::<u64, i32>(IoAttempt::Failed(-7), RegisteredState::Unregistered);
    assert!(matches!(d.poll, LeafPoll::Ready(Err(-7))));
    assert_eq!(d.state, RegisteredState::Unregistered);
    assert!(!d.must_register);
}
