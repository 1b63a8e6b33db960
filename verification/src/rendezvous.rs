//! The single-slot rendezvous cell.
//!
//! A task's output type is erased at admission: the executor only ever
//! polls unit-output tasks. The real output travels through a single-slot
//! rendezvous instead — the wrapping task stores its result in the slot
//! on completion, and whoever is waiting takes it out. The entry point
//! uses one of these to return the driven computation's value, and a join
//! handle is the same idea plus a wakeup.
//!
//! The contract is bit-for-bit preservation: what is taken out is exactly
//! what was put in.

use vstd::prelude::*;

verus! {

/// A one-value slot: empty until a completing task stores its output,
/// holding that output until it is taken.
pub struct RendezvousCell<T> {
    value: Option<T>,
}

impl<T> RendezvousCell<T> {
    /// The stored output, if any.
    pub closed spec fn view(&self) -> Option<T> {
        self.value
    }

    /// An empty cell.
    pub fn new() -> (r: Self)
        ensures
            r@ is None,
    {
        RendezvousCell { value: None }
    }

    /// Whether the slot is still waiting for its value.
    pub fn is_empty(&self) -> (r: bool)
        ensures
            r == (self@ is None),
    {
        self.value.is_none()
    }

    /// Store a completed task's output. The slot holds one value: a
    /// second store before the first take would lose nothing here only
    /// by overwriting, so it is ruled out — each cell sees one completion.
    pub fn send(&mut self, value: T)
        requires
            old(self)@ is None,
        ensures
            final(self)@ == Some(value),
    {
        self.value = Some(value);
    }

    /// Take the stored output out, exactly as it was stored.
    pub fn recv(&mut self) -> (r: T)
        requires
            old(self)@ is Some,
        ensures
            r == old(self)@.unwrap(),
            final(self)@ is None,
    {
        let mut taken: Option<T> = None;
        std::mem::swap(&mut self.value, &mut taken);
        match taken {
            Some(v) => v,
            None => vstd::pervasive::unreached(),
        }
    }

    /// Take the stored output if it has arrived: `None` means the task
    /// has not completed yet. This is the polling form a join handle
    /// uses; a present value comes out exactly as it was stored.
    pub fn try_recv(&mut self) -> (r: Option<T>)
        ensures
            r == old(self)@,
            final(self)@ is None,
    {
        let mut taken: Option<T> = None;
        std::mem::swap(&mut self.value, &mut taken);
        taken
    }
}

} // verus!
