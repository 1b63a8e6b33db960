//! Task identifiers and their allocator.
//!
//! Every task admitted to the runtime receives a 64-bit identifier from a
//! monotonically increasing counter. Identifiers are dense, start at zero,
//! and are never recycled within one runtime instance. An identifier
//! round-trips losslessly through a plain `u64`, which is how it travels
//! through the kernel's per-event user data.

use vstd::prelude::*;

verus! {

/// Allocator for fresh task identifiers: a single post-incremented counter.
#[derive(Debug)]
pub struct FutureIdGenerator {
    current: u64,
}

impl FutureIdGenerator {
    /// The value the next call to `fresh` will hand out.
    pub closed spec fn spec_next(&self) -> u64 {
        self.current
    }

    /// The value the next call to `fresh` will hand out, without
    /// advancing the counter.
    pub fn peek(&self) -> (r: u64)
        ensures
            r == self.spec_next(),
    {
        self.current
    }

    /// Generate a fresh, unique future ID.
    ///
    /// Returns the current counter value and advances the counter, so ids
    /// come out as 0, 1, 2, ... in allocation order.
    pub fn fresh(&mut self) -> (id: FutureId)
        requires
            old(self).spec_next() < u64::MAX,
        ensures
            id.spec_value() == old(self).spec_next(),
            final(self).spec_next() == old(self).spec_next() + 1,
    {
        let id = self.current;
        self.current = self.current + 1;
        FutureId::from_u64(id)
    }
}

impl Default for FutureIdGenerator {
    /// A generator whose first id is zero.
    fn default() -> (r: Self)
        ensures
            r.spec_next() == 0,
    {
        FutureIdGenerator { current: 0 }
    }
}

/// A unique ID for a task being driven by the runtime.
#[derive(Copy, Clone, Debug, PartialEq, Eq, PartialOrd, Ord, Hash, Structural)]
pub struct FutureId(u64);

impl FutureId {
    /// The 64-bit value this id wraps.
    pub closed spec fn spec_value(&self) -> u64 {
        self.0
    }

    /// Convert this ID into its internal u64 value, as the kernel event
    /// queue stores per-event user data as a u64.
    pub fn to_u64(&self) -> (r: u64)
        ensures
            r == self.spec_value(),
    {
        self.0
    }

    /// Convert a u64 value back to a FutureId, as received back from the
    /// kernel event queue.
    pub fn from_u64(input: u64) -> (r: Self)
        ensures
            r.spec_value() == input,
    {
        FutureId(input)
    }
}

/// An identifier survives the trip through the kernel's 64-bit event user
/// data unchanged: the wrapped value determines the identifier, so encoding
/// with `to_u64` and decoding with `from_u64` loses nothing.
pub proof fn lemma_id_u64_round_trip(a: FutureId, b: FutureId)
    ensures
        a.spec_value() == b.spec_value() ==> a == b,
{
}

} // verus!
