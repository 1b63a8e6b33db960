//! The readiness-registry model.
//!
//! The runtime multiplexes every file descriptor it cares about through one
//! kernel event queue. Conceptually the queue's interest list is a mapping
//! from file-descriptor number to the task id that registered it, every
//! subscription edge-triggered and listening for both readable and
//! writable. This module holds that mapping as verified state: the
//! unverified shell issues the matching `epoll_ctl` call and keeps this
//! model in step with it.
//!
//! Registration is idempotent by design: leaf futures re-register their
//! descriptor on every pending poll without tracking prior state, and a
//! descriptor that is already present keeps its original owning task —
//! re-registration under a different id is silently ignored.

use vstd::prelude::*;
use crate::future_id::FutureId;

verus! {

/// What a finished registration looks like: the mapping with `(fd, id)`
/// added if `fd` was absent, and untouched if `fd` was already present.
pub open spec fn spec_add(
    entries: Seq<(i32, FutureId)>,
    fd: i32,
    id: FutureId,
) -> Seq<(i32, FutureId)> {
    if spec_contains_fd(entries, fd) {
        entries
    } else {
        entries.push((fd, id))
    }
}

/// Whether some entry subscribes the descriptor `fd`.
pub open spec fn spec_contains_fd(entries: Seq<(i32, FutureId)>, fd: i32) -> bool {
    exists|i: int| 0 <= i < entries.len() && entries[i].0 == fd
}

/// The task id under which `fd` is subscribed, if it is.
pub open spec fn spec_owner_of(entries: Seq<(i32, FutureId)>, fd: i32) -> Option<FutureId> {
    if spec_contains_fd(entries, fd) {
        Some(entries[choose|i: int| 0 <= i < entries.len() && entries[i].0 == fd].1)
    } else {
        None
    }
}

/// No descriptor is subscribed twice.
pub open spec fn spec_fds_unique(entries: Seq<(i32, FutureId)>) -> bool {
    forall|i: int, j: int|
        0 <= i < j < entries.len() ==> (#[trigger] entries[i]).0 != (#[trigger] entries[j]).0
}

/// The interest list of the kernel event queue, as the runtime sees it:
/// which task id owns each subscribed file descriptor.
pub struct Registry {
    entries: Vec<(i32, FutureId)>,
}

impl Registry {
    /// The subscriptions, in the order they were made.
    pub closed spec fn view(&self) -> Seq<(i32, FutureId)> {
        self.entries@
    }

    /// Each descriptor appears at most once.
    pub open spec fn wf(&self) -> bool {
        spec_fds_unique(self@)
    }

    /// An empty interest list.
    pub fn new() -> (r: Self)
        ensures
            r@ =~= Seq::<(i32, FutureId)>::empty(),
            r.wf(),
    {
        Registry { entries: Vec::new() }
    }

    /// Whether `fd` is currently subscribed.
    pub fn contains_fd(&self, fd: i32) -> (r: bool)
        ensures
            r == spec_contains_fd(self@, fd),
    {
        let n = self.entries.len();
        let mut i: usize = 0;
        while i < n
            invariant
                0 <= i <= n,
                n == self.entries.len(),
                forall|k: int| 0 <= k < i ==> (#[trigger] self.entries@[k]).0 != fd,
            decreases n - i,
        {
            if self.entries[i].0 == fd {
                return true;
            }
            i = i + 1;
        }
        false
    }

    /// The task id that owns `fd`'s subscription, if any.
    pub fn owner_of(&self, fd: i32) -> (r: Option<FutureId>)
        requires
            self.wf(),
        ensures
            r == spec_owner_of(self@, fd),
    {
        let n = self.entries.len();
        let mut i: usize = 0;
        while i < n
            invariant
                0 <= i <= n,
                n == self.entries.len(),
                self.wf(),
                forall|k: int| 0 <= k < i ==> (#[trigger] self.entries@[k]).0 != fd,
            decreases n - i,
        {
            if self.entries[i].0 == fd {
                proof {
                    lemma_owner_is_any_match(self@, fd, i as int);
                }
                return Some(self.entries[i].1);
            }
            i = i + 1;
        }
        None
    }

    /// Subscribe `fd` under task `id`.
    ///
    /// Returns `true` when the descriptor is newly subscribed and `false`
    /// when it was already present, in which case the mapping — including
    /// the owning task — is left exactly as it was. The unverified shell
    /// treats the kernel's "already present" answer the same way.
    pub fn add(&mut self, fd: i32, id: FutureId) -> (newly_added: bool)
        requires
            old(self).wf(),
        ensures
            final(self)@ =~= spec_add(old(self)@, fd, id),
            newly_added == !spec_contains_fd(old(self)@, fd),
            final(self).wf(),
            spec_contains_fd(final(self)@, fd),
            spec_owner_of(final(self)@, fd) == if spec_contains_fd(old(self)@, fd) {
                spec_owner_of(old(self)@, fd)
            } else {
                Some(id)
            },
    {
        if self.contains_fd(fd) {
            false
        } else {
            self.entries.push((fd, id));
            proof {
                assert(self@[self@.len() - 1].0 == fd);
                lemma_owner_is_any_match(self@, fd, self@.len() - 1);
            }
            true
        }
    }
}

impl Registry {
    /// Drop the subscription of `fd`, if there is one.
    ///
    /// The kernel removes a descriptor from the event queue's interest
    /// list when the descriptor is closed — as happens to a task's wakeup
    /// descriptor when the task is reaped. The shell mirrors that
    /// teardown here, so the model does not accumulate subscriptions for
    /// descriptors that no longer exist. Every other descriptor keeps its
    /// subscription and its owner.
    pub fn remove_fd(&mut self, fd: i32) -> (was_present: bool)
        requires
            old(self).wf(),
        ensures
            final(self).wf(),
            was_present == spec_contains_fd(old(self)@, fd),
            !spec_contains_fd(final(self)@, fd),
            !was_present ==> final(self)@ == old(self)@,
            forall|f: i32|
                f != fd ==> #[trigger] spec_contains_fd(final(self)@, f) == spec_contains_fd(
                    old(self)@,
                    f,
                ) && spec_owner_of(final(self)@, f) == spec_owner_of(old(self)@, f),
    {
        let n = self.entries.len();
        let mut i: usize = 0;
        while i < n
            invariant
                0 <= i <= n,
                n == self.entries.len(),
                self.wf(),
                self@ == old(self)@,
                forall|k: int| 0 <= k < i ==> (#[trigger] self.entries@[k]).0 != fd,
            decreases n - i,
        {
            if self.entries[i].0 == fd {
                proof {
                    lemma_fd_remove_keeps_others(self@, i as int);
                }
                self.entries.remove(i);
                return true;
            }
            i = i + 1;
        }
        false
    }
}

/// Removing the entry at `i` drops exactly that descriptor: every other
/// descriptor stays subscribed under the same owner.
proof fn lemma_fd_remove_keeps_others(s: Seq<(i32, FutureId)>, i: int)
    requires
        spec_fds_unique(s),
        0 <= i < s.len(),
    ensures
        spec_fds_unique(s.remove(i)),
        !spec_contains_fd(s.remove(i), s[i].0),
        forall|f: i32|
            f != s[i].0 ==> #[trigger] spec_contains_fd(s.remove(i), f) == spec_contains_fd(s, f)
                && spec_owner_of(s.remove(i), f) == spec_owner_of(s, f),
{
    let t = s.remove(i);
    assert forall|j: int, k: int| 0 <= j < k < t.len() implies (#[trigger] t[j]).0
        != (#[trigger] t[k]).0 by {
        let j0 = if j < i { j } else { j + 1 };
        let k0 = if k < i { k } else { k + 1 };
        assert(t[j] == s[j0]);
        assert(t[k] == s[k0]);
    }
    assert forall|j: int| 0 <= j < t.len() implies (#[trigger] t[j]).0 != s[i].0 by {
        let j0 = if j < i { j } else { j + 1 };
        assert(t[j] == s[j0]);
    }
    assert forall|f: i32| f != s[i].0 implies #[trigger] spec_contains_fd(t, f)
        == spec_contains_fd(s, f) && spec_owner_of(t, f) == spec_owner_of(s, f) by {
        if spec_contains_fd(s, f) {
            let j = choose|j: int| 0 <= j < s.len() && (#[trigger] s[j]).0 == f;
            let j1 = if j < i { j } else { j - 1 };
            assert(t[j1] == s[j]);
            lemma_owner_is_any_match(s, f, j);
            lemma_owner_is_any_match(t, f, j1);
        } else {
            if spec_contains_fd(t, f) {
                let j = choose|j: int| 0 <= j < t.len() && (#[trigger] t[j]).0 == f;
                let j0 = if j < i { j } else { j + 1 };
                assert(t[j] == s[j0]);
            }
        }
    }
}

/// When descriptors are unique, any entry that matches `fd` is the one
/// `spec_owner_of` speaks of.
proof fn lemma_owner_is_any_match(entries: Seq<(i32, FutureId)>, fd: i32, i: int)
    requires
        spec_fds_unique(entries),
        0 <= i < entries.len(),
        entries[i].0 == fd,
    ensures
        spec_owner_of(entries, fd) == Some(entries[i].1),
{
    assert(spec_contains_fd(entries, fd));
    let j = choose|j: int| 0 <= j < entries.len() && entries[j].0 == fd;
    if i != j {
        if i < j {
            assert(entries[i].0 != entries[j].0);
        } else {
            assert(entries[j].0 != entries[i].0);
        }
    }
}

/// Idempotent registration: once a descriptor is subscribed, registering it
/// again — even under a different task id — changes nothing; in particular
/// the descriptor is never re-subscribed under a different id.
pub proof fn lemma_add_idempotent(
    entries: Seq<(i32, FutureId)>,
    fd: i32,
    id: FutureId,
    id2: FutureId,
)
    ensures
        spec_add(spec_add(entries, fd, id), fd, id2) =~= spec_add(entries, fd, id),
{
    if !spec_contains_fd(entries, fd) {
        let pushed = entries.push((fd, id));
        assert(pushed[entries.len() as int].0 == fd);
        assert(spec_contains_fd(pushed, fd));
    }
}

} // verus!
