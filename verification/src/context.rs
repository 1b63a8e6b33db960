//! The ambient task context.
//!
//! The polling interface gives a task no way to reach the runtime that is
//! driving it, so the executor keeps a per-thread slot that is filled
//! immediately before each poll and cleared immediately after. Through the
//! context a leaf future reaches exactly four things: the current task's
//! wakeup handle, the current task's id, the ability to register a file
//! descriptor under that id, and the ability to spawn further tasks.
//!
//! The slot is modelled here as an explicit [`ContextSlot`] value; the
//! unverified shell owns one per thread (in thread-local storage, which is
//! outside what can be verified) and passes it to these functions. Since a
//! slot holds at most one context and is cleared when its poll returns, at
//! most one task's context is ever visible on the executor thread.

use vstd::prelude::*;
use std::task::Waker;
use crate::future_id::FutureId;
use crate::registry::{spec_add, spec_contains_fd};
use crate::runtime::Runtime;
use crate::runtime::contains_id;

verus! {

/// Declares `std::task::Waker` to the verifier as an opaque type.
///
/// Relies on `std::task::Waker` only as a value: the context stores the
/// handle the executor minted for the current task and hands it back out;
/// nothing here invokes it, so nothing about waking is assumed.
#[verifier::external_type_specification]
#[verifier::external_body]
pub struct ExWaker(Waker);

/// The context of the task currently being polled: its wakeup handle and
/// its id. The executor builds one of these around every poll.
pub struct RuntimeContext {
    /// The wakeup handle minted for the current task. Invoking it (from
    /// any thread) makes the kernel event queue report the owning task's
    /// id.
    waker: Waker,
    /// The id of the task currently being polled.
    future_id: FutureId,
}

impl RuntimeContext {
    /// The id of the task this context belongs to.
    pub closed spec fn spec_future_id(&self) -> FutureId {
        self.future_id
    }

    /// The wakeup handle this context carries.
    pub closed spec fn spec_waker(&self) -> Waker {
        self.waker
    }

    /// Create a new context for one poll of the task `future_id`, carrying
    /// the wakeup handle the executor minted for that task.
    pub fn new(future_id: FutureId, waker: Waker) -> (r: Self)
        ensures
            r.spec_future_id() == future_id,
            r.spec_waker() == waker,
    {
        RuntimeContext { waker, future_id }
    }

    /// The currently polling task's wakeup handle. A leaf future clones
    /// this and hands it to whoever will know when the task can proceed.
    pub fn waker(&self) -> (r: &Waker)
        ensures
            *r == self.spec_waker(),
    {
        &self.waker
    }

    /// The currently polling task's id.
    pub fn current_id(&self) -> (r: FutureId)
        ensures
            r == self.spec_future_id(),
    {
        self.future_id
    }

    /// Spawn a new task onto the runtime this poll belongs to: it joins
    /// the admission FIFO and will be polled after everything already
    /// queued, before the executor next blocks.
    pub fn spawn(&self, rt: &mut Runtime) -> (id: FutureId)
        requires
            old(rt).wf(),
            old(rt).spec_next_id() < u64::MAX,
        ensures
            final(rt).wf(),
            id.spec_value() == old(rt).spec_next_id(),
            final(rt).spec_next_id() == old(rt).spec_next_id() + 1,
            final(rt).queued() =~= old(rt).queued().push(id),
            final(rt).parked() == old(rt).parked(),
            final(rt).registered() == old(rt).registered(),
            !contains_id(old(rt).queued(), id.spec_value()),
            !contains_id(old(rt).parked(), id.spec_value()),
    {
        rt.spawn()
    }

    /// Register a file descriptor with the runtime's readiness registry
    /// under the currently polling task's id: whenever the descriptor
    /// becomes ready, the registering task is the one woken.
    ///
    /// Registration is idempotent — calling this again for the same
    /// descriptor, from the same task or another, changes nothing, so the
    /// descriptor can never end up subscribed under a different id.
    /// Returns whether the subscription is new, which is exactly when the
    /// shell must issue the kernel registration call.
    pub fn register_file_descriptor(&self, rt: &mut Runtime, fd: i32) -> (newly_added: bool)
        requires
            old(rt).wf(),
        ensures
            final(rt).wf(),
            final(rt).registered() =~= spec_add(old(rt).registered(), fd, self.spec_future_id()),
            newly_added == !spec_contains_fd(old(rt).registered(), fd),
            final(rt).queued() == old(rt).queued(),
            final(rt).parked() == old(rt).parked(),
            final(rt).spec_next_id() == old(rt).spec_next_id(),
    {
        rt.register(fd, self.current_id())
    }

    /// Fill the slot with the context of the poll that is about to start,
    /// displacing whatever was there: the slot never holds more than this
    /// one context.
    pub fn set(slot: &mut ContextSlot, context: RuntimeContext)
        ensures
            final(slot).spec_current() == Some(context),
    {
        slot.current = Some(context);
    }

    /// Empty the slot: done immediately after each poll returns, so no
    /// context outlives its poll.
    pub fn clear(slot: &mut ContextSlot)
        ensures
            final(slot).spec_current() is None,
    {
        slot.current = None;
    }

    /// The context of the currently executing poll.
    ///
    /// Outside a poll the slot is empty and there is no current context;
    /// the shell treats calling this then as a programming error and
    /// fails loudly before reaching here.
    pub fn current(slot: &ContextSlot) -> (r: &RuntimeContext)
        requires
            slot.is_set(),
        ensures
            *r == slot.spec_current().unwrap(),
    {
        match &slot.current {
            Some(c) => c,
            None => vstd::pervasive::unreached(),
        }
    }

    /// The context of the currently executing poll, or `None` when no poll
    /// is executing.
    pub fn try_current(slot: &ContextSlot) -> (r: Option<&RuntimeContext>)
        ensures
            r is Some <==> slot.is_set(),
            r matches Some(c) ==> *c == slot.spec_current().unwrap(),
    {
        match &slot.current {
            Some(c) => Some(c),
            None => None,
        }
    }
}

/// The per-thread slot for the ambient context. It holds the context of
/// the poll currently executing on this thread, or nothing between polls —
/// never more than one, which is the single-task discipline of the
/// executor made structural.
pub struct ContextSlot {
    current: Option<RuntimeContext>,
}

impl ContextSlot {
    /// What the slot holds.
    pub closed spec fn spec_current(&self) -> Option<RuntimeContext> {
        self.current
    }

    /// Whether a poll is currently executing.
    pub open spec fn is_set(&self) -> bool {
        self.spec_current() is Some
    }

    /// An empty slot: no poll is executing.
    pub fn new() -> (r: Self)
        ensures
            !r.is_set(),
    {
        ContextSlot { current: None }
    }
}

} // verus!
