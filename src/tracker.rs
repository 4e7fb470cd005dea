//! Allocation events, as handed to an instrumentation sink.
use vstd::prelude::*;

verus! {

/// Where a request was served: from the thread's free list, or by the
/// page-level backend.
#[derive(Clone, Copy, Debug, PartialEq, Eq, Structural)]
pub enum Action {
    Cache,
    System,
}

/// One thing that happened to a region.
#[derive(Clone, Copy, Debug, PartialEq, Eq, Structural)]
pub enum Event {
    Alloc { addr: usize, size: usize, source: Action },
    Free { addr: usize, size: usize, action: Action },
    Resize { addr: usize, new_size: usize },
}

/// Running totals kept beside the event stream.
pub struct Tracker {
    allocations: u64,
    allocated_size: u64,
}

impl Tracker {
    /// The number of allocations counted.
    pub closed spec fn spec_allocations(&self) -> u64 {
        self.allocations
    }

    /// The number of bytes counted.
    pub closed spec fn spec_allocated_size(&self) -> u64 {
        self.allocated_size
    }

    /// A tracker that has counted nothing yet.
    pub fn new() -> (r: Tracker)
        ensures
            r.spec_allocations() == 0,
            r.spec_allocated_size() == 0,
    {
        Tracker { allocations: 0, allocated_size: 0 }
    }

    pub fn allocations(&self) -> (r: u64)
        ensures
            r == self.spec_allocations(),
    {
        self.allocations
    }

    pub fn allocated_size(&self) -> (r: u64)
        ensures
            r == self.spec_allocated_size(),
    {
        self.allocated_size
    }
}

} // verus!
