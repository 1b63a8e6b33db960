//! A single-threaded cooperative task executor core, built for Linux's
//! readiness-notification facilities (`epoll`, `eventfd`, `timerfd`).
//!
//! This crate holds the verified heart of the executor: the task-id
//! allocator, the FIFO admission queue and parked-task bookkeeping, the
//! readiness-registry model with its idempotent registration rule, the
//! ambient task context, the decision logic shared by every leaf future,
//! and the single-slot rendezvous cell that carries a completed task's
//! value back to the caller.
//!
//! The kernel-facing shell (file descriptors, the waker vtable, the
//! thread-local context slot, the actual `epoll_wait` loop) is ordinary
//! unverified Rust that drives these verified functions and obeys their
//! contracts.

pub mod context;
pub mod future_id;
pub mod leaf;
pub mod registry;
pub mod rendezvous;
pub mod runtime;

pub use context::ContextSlot;
pub use context::RuntimeContext;
pub use future_id::FutureId;
pub use future_id::FutureIdGenerator;
pub use leaf::IoAttempt;
pub use leaf::LeafDecision;
pub use leaf::LeafPoll;
pub use leaf::RegisteredState;
pub use registry::Registry;
pub use rendezvous::RendezvousCell;
pub use runtime::Runtime;
pub use runtime::RuntimeInner;
