use vstd::prelude::*;

verus! {

/// Counts bytes in use and the highest count seen since the last reset.
pub struct MemoryTracker {
    total_allocated: usize,
    peak_allocated: usize,
}

/// A snapshot of a tracker's counters.
#[derive(Debug, Clone, Copy)]
pub struct MemoryStats {
    pub current_bytes: usize,
    pub peak_bytes: usize,
}

impl MemoryTracker {
    /// Bytes currently counted as in use.
    pub closed spec fn current(&self) -> nat {
        self.total_allocated as nat
    }

    /// Highest number of bytes in use since creation or the last reset.
    pub closed spec fn peak(&self) -> nat {
        self.peak_allocated as nat
    }

    /// The peak never lags behind the current count.
    pub open spec fn wf(&self) -> bool {
        self.current() <= self.peak()
    }

    pub fn new() -> (t: Self)
        ensures
            t.wf(),
            t.current() == 0,
            t.peak() == 0,
    {
        MemoryTracker { total_allocated: 0, peak_allocated: 0 }
    }

    /// Records an allocation of `size` bytes; the count saturates at `usize::MAX`.
    pub fn allocated(&mut self, size: usize)
        requires
            old(self).wf(),
        ensures
            final(self).wf(),
            final(self).current() == if old(self).current() + size <= usize::MAX {
                old(self).current() + size
            } else {
                usize::MAX as int
            },
            final(self).peak() == if final(self).current() > old(self).peak() {
                final(self).current()
            } else {
                old(self).peak()
            },
    {
        let current = self.total_allocated.saturating_add(size);
        self.total_allocated = current;
        if current > self.peak_allocated {
            self.peak_allocated = current;
        }
    }

    /// Records that `size` bytes were released; the count stops at zero.
    pub fn deallocated(&mut self, size: usize)
        requires
            old(self).wf(),
        ensures
            final(self).wf(),
            final(self).current() == if old(self).current() >= size {
                old(self).current() - size
            } else {
                0
            },
            final(self).peak() == old(self).peak(),
    {
        self.total_allocated = self.total_allocated.saturating_sub(size);
    }

    pub fn current_usage(&self) -> (r: usize)
        ensures
            r == self.current(),
    {
        self.total_allocated
    }

    pub fn peak_usage(&self) -> (r: usize)
        ensures
            r == self.peak(),
    {
        self.peak_allocated
    }

    /// Starts a new peak measurement from the current count.
    pub fn reset_peak(&mut self)
        requires
            old(self).wf(),
        ensures
            final(self).wf(),
            final(self).current() == old(self).current(),
            final(self).peak() == old(self).current(),
    {
        self.peak_allocated = self.total_allocated;
    }
}

impl Default for MemoryTracker {
    fn default() -> (t: Self)
        ensures
            t.wf(),
            t.current() == 0,
            t.peak() == 0,
    {
        MemoryTracker::new()
    }
}

/// Reads both counters of `tracker` at once.
pub fn get_memory_stats(tracker: &MemoryTracker) -> (s: MemoryStats)
    ensures
        s.current_bytes == tracker.current(),
        s.peak_bytes == tracker.peak(),
{
    MemoryStats { current_bytes: tracker.current_usage(), peak_bytes: tracker.peak_usage() }
}

} // verus!
