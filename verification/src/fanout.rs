//! Event fan-out bookkeeping.
//!
//! Channels publish decoded events to every registered listener.  The
//! delivery itself is the hosting layer's job (a slow listener must not
//! block a channel, so writes are best-effort); what the library keeps
//! is the listener roster: registration hands out fresh handles, and
//! the delivery order of the roster is the registration order.

use vstd::prelude::*;

verus! {

/// The listener roster of the broadcast point.
pub struct EventFanout {
    listeners: Vec<u64>,
    next_handle: u64,
}

impl EventFanout {
    /// The registered listener handles, in registration order.
    pub closed spec fn handles(&self) -> Seq<u64> {
        self.listeners@
    }

    pub closed spec fn next(&self) -> u64 {
        self.next_handle
    }

    /// Handles are pairwise distinct and below the next free handle.
    pub open spec fn wf(&self) -> bool {
        &&& forall|i: int, j: int|
            0 <= i < j < self.handles().len() ==> (#[trigger] self.handles()[i]) != (
            #[trigger] self.handles()[j])
        &&& forall|i: int| 0 <= i < self.handles().len() ==> #[trigger] self.handles()[i] < self.next()
    }

    pub fn new() -> (r: EventFanout)
        ensures
            r.wf(),
            r.handles() == Seq::<u64>::empty(),
    {
        EventFanout { listeners: Vec::new(), next_handle: 0 }
    }

    /// Registers one listener and returns its fresh handle; existing
    /// listeners keep their place in the delivery order.
    pub fn add_event_handler(&mut self) -> (r: u64)
        requires
            old(self).wf(),
            old(self).next() < 0xFFFF_FFFF_FFFF_FFFF,
        ensures
            final(self).wf(),
            final(self).handles() == old(self).handles().push(r),
            forall|i: int| 0 <= i < old(self).handles().len() ==> #[trigger] old(self).handles()[i] != r,
    {
        let h = self.next_handle;
        self.listeners.push(h);
        self.next_handle = self.next_handle + 1;
        h
    }

    /// Removes one listener; everyone else keeps their order.  Reports
    /// whether the handle was registered.
    pub fn remove_listener(&mut self, handle: u64) -> (r: bool)
        requires
            old(self).wf(),
        ensures
            final(self).wf(),
            final(self).next() == old(self).next(),
            !r ==> final(self).handles() == old(self).handles(),
            r ==> exists|k: int|
                0 <= k < old(self).handles().len() && old(self).handles()[k] == handle && final(
                self).handles() == #[trigger] old(self).handles().remove(k),
            forall|i: int| 0 <= i < final(self).handles().len() ==> #[trigger] final(self).handles()[i] != handle,
    {
        let n = self.listeners.len();
        let mut i: usize = 0;
        while i < n
            invariant
                n == old(self).handles().len(),
                self.listeners@ == old(self).handles(),
                self.next_handle == old(self).next(),
                old(self).wf(),
                0 <= i <= n,
                forall|j: int| 0 <= j < i ==> #[trigger] self.listeners@[j] != handle,
            decreases n - i,
        {
            if self.listeners[i] == handle {
                self.listeners.remove(i);
                proof {
                    assert forall|j: int|
                        0 <= j < self.listeners@.len() implies #[trigger] self.listeners@[j]
                        != handle by {
                        if j < i {
                            assert(self.listeners@[j] == old(self).handles()[j]);
                        } else {
                            assert(self.listeners@[j] == old(self).handles()[j + 1]);
                            assert(old(self).handles()[i as int] != old(self).handles()[j + 1]);
                        }
                    }
                }
                return true;
            }
            i = i + 1;
        }
        false
    }

    /// The handles to deliver one event to, in registration order; the
    /// hosting layer writes to each and may drop events for listeners
    /// that cannot keep up.
    pub fn recipients(&self) -> (r: Vec<u64>)
        ensures
            r@ == self.handles(),
    {
        let n = self.listeners.len();
        let mut out: Vec<u64> = Vec::new();
        let mut i: usize = 0;
        while i < n
            invariant
                n == self.listeners@.len(),
                0 <= i <= n,
                out@ == self.listeners@.take(i as int),
            decreases n - i,
        {
            out.push(self.listeners[i]);
            proof {
                assert(out@ =~= self.listeners@.take(i + 1));
            }
            i = i + 1;
        }
        proof {
            assert(self.listeners@.take(n as int) =~= self.listeners@);
        }
        out
    }

    pub fn listener_count(&self) -> (r: usize)
        ensures
            r == self.handles().len(),
    {
        self.listeners.len()
    }
}

} // verus!
