//! Deferred reclamation of shared allocations.
//!
//! Buffers and graph objects are shared by reference count, but the audio
//! context never frees memory: when the last reference to an allocation is
//! dropped, the allocation only moves to a pending list, and the control
//! context reclaims the pending allocations in a later collection pass. This
//! module keeps the books of that protocol: how many allocations still exist,
//! and how many of them are waiting to be reclaimed.

use vstd::prelude::*;

verus! {

/// The control-side collector's view of the shared allocation graph.
pub struct DeferredCollector {
    live: usize,
    pending: usize,
}

impl DeferredCollector {
    /// Allocations whose memory still exists.
    pub closed spec fn live_allocs(&self) -> int {
        self.live as int
    }

    /// Allocations whose last reference is gone and that the next collection
    /// pass will reclaim; always among the live ones.
    pub closed spec fn pending_drop(&self) -> int {
        self.pending as int
    }

    pub open spec fn wf(&self) -> bool {
        0 <= self.pending_drop() <= self.live_allocs() <= usize::MAX
    }

    pub fn new() -> (r: Self)
        ensures
            r.wf(),
            r.live_allocs() == 0,
            r.pending_drop() == 0,
    {
        DeferredCollector { live: 0, pending: 0 }
    }

    /// Records `n` newly created shared allocations.
    pub fn allocate(&mut self, n: usize)
        requires
            old(self).wf(),
            old(self).live_allocs() + n <= usize::MAX,
        ensures
            final(self).wf(),
            final(self).live_allocs() == old(self).live_allocs() + n,
            final(self).pending_drop() == old(self).pending_drop(),
    {
        self.live = self.live + n;
    }

    /// Records that the last reference to `n` allocations was dropped: they
    /// stay allocated until the next collection pass.
    pub fn release(&mut self, n: usize)
        requires
            old(self).wf(),
            old(self).pending_drop() + n <= old(self).live_allocs(),
        ensures
            final(self).wf(),
            final(self).live_allocs() == old(self).live_allocs(),
            final(self).pending_drop() == old(self).pending_drop() + n,
    {
        self.pending = self.pending + n;
    }

    /// One collection pass: reclaims every pending allocation. Runs only on
    /// the control side, never on the audio path.
    pub fn collect(&mut self)
        requires
            old(self).wf(),
        ensures
            final(self).wf(),
            final(self).live_allocs() == old(self).live_allocs() - old(self).pending_drop(),
            final(self).pending_drop() == 0,
    {
        self.live = self.live - self.pending;
        self.pending = 0;
    }

    /// How many allocations still exist.
    pub fn alloc_count(&self) -> (r: usize)
        ensures
            r == self.live_allocs(),
    {
        self.live
    }
}

} // verus!
