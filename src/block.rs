//! A free memory region, described by its start address and its length.
use vstd::prelude::*;

verus! {

/// One contiguous region `[address, address + size)` of free memory.
#[derive(Clone, Copy, Debug, PartialEq, Eq, Structural)]
pub struct Block {
    pub address: usize,
    pub size: usize,
}

impl Block {
    /// The first address past the region.
    pub open spec fn end(self) -> int {
        self.address + self.size
    }

    /// A region that can stand in a free list: it is not empty and lies
    /// inside the address space.
    pub open spec fn valid(self) -> bool {
        &&& self.size > 0
        &&& self.end() <= usize::MAX
    }

    /// The region can serve a request of `size` bytes aligned to `align`.
    pub open spec fn fits(self, size: int, align: int) -> bool {
        &&& self.size >= size
        &&& (self.address as int) % align == 0
    }

    pub fn new(address: usize, size: usize) -> (r: Block)
        ensures
            r.address == address,
            r.size == size,
    {
        Block { address, size }
    }

    /// Whether this region can serve `size` bytes aligned to `align`.
    pub fn can_serve(&self, size: usize, align: usize) -> (r: bool)
        requires
            align > 0,
        ensures
            r == self.fits(size as int, align as int),
    {
        self.size >= size && self.address % align == 0
    }
}

} // verus!
