//! The decision every leaf future makes when it is polled.
//!
//! Each leaf operation — accept a connection, read or write a stream,
//! receive or send a datagram, read a timer — follows one pattern. Its
//! descriptor is non-blocking, so a poll first attempts the actual kernel
//! operation; because the readiness registry is edge-triggered, the
//! attempt must come first, draining readiness before the task may park.
//! The attempt's outcome then decides everything:
//!
//! - success completes the poll with the operation's value, untouched;
//! - would-block parks the task: the descriptor must end up registered
//!   under the current task, so registration is requested exactly when it
//!   has not happened yet (the registry being idempotent, re-requesting on
//!   a later pending poll would also be harmless);
//! - any other error completes the poll with that error, untouched.
//!
//! The unverified shell performs the syscall and obeys the returned
//! decision; the choice itself is made — and verified — here.

use vstd::prelude::*;

verus! {

/// Whether a leaf future has already registered its file descriptor with
/// the runtime during this wait.
#[derive(Copy, Clone, Debug, PartialEq, Eq, Structural)]
pub enum RegisteredState {
    Unregistered,
    Registered,
}

/// The outcome of attempting a non-blocking kernel operation.
pub enum IoAttempt<T, E> {
    /// The operation succeeded with this value.
    Ready(T),
    /// The operation would block: the descriptor is not ready yet.
    WouldBlock,
    /// The operation failed with a real error.
    Failed(E),
}

/// What a leaf future's poll returns: completion with the operation's
/// result, or a pending wait for readiness.
pub enum LeafPoll<T, E> {
    Ready(Result<T, E>),
    Pending,
}

/// Everything a leaf future does with one poll: what to return, the new
/// registration state, and whether the descriptor must be registered with
/// the runtime right now.
pub struct LeafDecision<T, E> {
    /// What the poll returns.
    pub poll: LeafPoll<T, E>,
    /// The registration state to carry to the next poll.
    pub state: RegisteredState,
    /// Whether to register the descriptor under the current task before
    /// returning pending.
    pub must_register: bool,
}

/// Decide a leaf future's poll from its syscall attempt and registration
/// state.
///
/// Success and real errors complete the poll with the attempt's value or
/// error passed through unchanged, leaving the registration state alone.
/// Would-block returns pending, with registration requested exactly on
/// the first such poll.
pub fn leaf_poll_step<T, E>(attempt: IoAttempt<T, E>, state: RegisteredState) -> (d: LeafDecision<
    T,
    E,
>)
    ensures
        attempt matches IoAttempt::Ready(v) ==> d.poll == LeafPoll::<T, E>::Ready(Ok(v))
            && d.state == state && !d.must_register,
        attempt matches IoAttempt::Failed(e) ==> d.poll == LeafPoll::<T, E>::Ready(Err(e))
            && d.state == state && !d.must_register,
        attempt is WouldBlock ==> d.poll == LeafPoll::<T, E>::Pending
            && d.state == RegisteredState::Registered
            && (d.must_register <==> state == RegisteredState::Unregistered),
{
    match attempt {
        IoAttempt::Ready(v) => LeafDecision {
            poll: LeafPoll::Ready(Ok(v)),
            state,
            must_register: false,
        },
        IoAttempt::WouldBlock => LeafDecision {
            poll: LeafPoll::Pending,
            state: RegisteredState::Registered,
            must_register: state == RegisteredState::Unregistered,
        },
        IoAttempt::Failed(e) => LeafDecision {
            poll: LeafPoll::Ready(Err(e)),
            state,
            must_register: false,
        },
    }
}

} // verus!
