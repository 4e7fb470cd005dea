//! The per-thread table of free regions.
//!
//! A `FreeList` holds at most `CAPACITY` regions in a fixed array of slots,
//! so that it never allocates. The occupied slots are always exactly the
//! first `len` ones: removal moves the last occupied slot into the hole.
use vstd::prelude::*;

use crate::block::Block;

verus! {

broadcast use vstd::array::group_array_axioms;

/// How many free regions a thread keeps by default.
pub const DEFAULT_CAPACITY: usize = 512;

/// The position of the first region of `blocks` that can serve `size` bytes
/// aligned to `align`, scanning from the front.
pub open spec fn first_fit(blocks: Seq<Block>, size: int, align: int) -> Option<int>
    decreases blocks.len(),
{
    if blocks.len() == 0 {
        None
    } else {
        match first_fit(blocks.drop_last(), size, align) {
            Some(i) => Some(i),
            None => if blocks.last().fits(size, align) {
                Some(blocks.len() - 1)
            } else {
                None
            },
        }
    }
}

/// The regions after the first `size` bytes of the region at `index` were
/// handed out: a larger region keeps its remainder in place, a region used
/// up whole is replaced by the last one.
pub open spec fn taken(blocks: Seq<Block>, index: int, size: int) -> Seq<Block> {
    let b = blocks[index];
    if b.size > size {
        blocks.update(index, Block { address: (b.address + size) as usize, size: (b.size - size) as usize })
    } else {
        blocks.update(index, blocks.last()).drop_last()
    }
}

/// The regions after `block` was offered to a table of `capacity` slots:
/// it is appended where a slot is free, and turned away otherwise.
pub open spec fn inserted(blocks: Seq<Block>, block: Block, capacity: int) -> Seq<Block> {
    if blocks.len() < capacity {
        blocks.push(block)
    } else {
        blocks
    }
}

/// What `first_fit` finds: a fitting region with none before it, or, where
/// it finds nothing, no fitting region at all.
pub proof fn lemma_first_fit(blocks: Seq<Block>, size: int, align: int)
    ensures
        match first_fit(blocks, size, align) {
            Some(i) => {
                &&& 0 <= i < blocks.len()
                &&& blocks[i].fits(size, align)
                &&& forall|j: int| 0 <= j < i ==> !(#[trigger] blocks[j]).fits(size, align)
            },
            None => forall|j: int| 0 <= j < blocks.len() ==> !(#[trigger] blocks[j]).fits(size, align),
        },
    decreases blocks.len(),
{
    if blocks.len() > 0 {
        let front = blocks.drop_last();
        lemma_first_fit(front, size, align);
        assert forall|j: int| 0 <= j < front.len() implies front[j] == blocks[j] by {}
    }
}

/// `first_fit` picks the fitting region that has no fitting region before it.
pub proof fn lemma_first_fit_at(blocks: Seq<Block>, size: int, align: int, i: int)
    requires
        0 <= i < blocks.len(),
        blocks[i].fits(size, align),
        forall|j: int| 0 <= j < i ==> !(#[trigger] blocks[j]).fits(size, align),
    ensures
        first_fit(blocks, size, align) == Some(i),
{
    lemma_first_fit(blocks, size, align);
}

/// A bounded, unordered table of free regions, owned by one thread.
pub struct FreeList<const CAPACITY: usize> {
    len: usize,
    slots: [Option<Block>; CAPACITY],
}

impl<const CAPACITY: usize> View for FreeList<CAPACITY> {
    type V = Seq<Block>;

    /// The occupied slots, in slot order.
    closed spec fn view(&self) -> Seq<Block> {
        Seq::new(self.len as nat, |i: int| self.slots@[i].unwrap())
    }
}

impl<const CAPACITY: usize> FreeList<CAPACITY> {
    /// The first `len` slots are occupied by valid regions, the rest are empty.
    pub closed spec fn wf(&self) -> bool {
        &&& self.len <= CAPACITY
        &&& forall|i: int| 0 <= i < self.len ==> (#[trigger] self.slots@[i]) is Some
        &&& forall|i: int| 0 <= i < self.len ==> (#[trigger] self.slots@[i]).unwrap().valid()
        &&& forall|i: int| self.len <= i < CAPACITY ==> (#[trigger] self.slots@[i]) is None
    }

    /// A well-formed table holds at most `CAPACITY` regions, each of them valid.
    pub proof fn lemma_wf(&self)
        requires
            self.wf(),
        ensures
            self@.len() <= CAPACITY,
            forall|i: int| 0 <= i < self@.len() ==> (#[trigger] self@[i]).valid(),
    {
    }

    /// An empty table.
    pub fn new() -> (r: Self)
        ensures
            r.wf(),
            r@ == Seq::<Block>::empty(),
    {
        let r = FreeList { len: 0, slots: [None; CAPACITY] };
        assert(r@ =~= Seq::<Block>::empty());
        r
    }

    /// How many regions the table holds.
    pub fn len(&self) -> (r: usize)
        requires
            self.wf(),
        ensures
            r == self@.len(),
    {
        self.len
    }

    /// How many regions the table can hold.
    pub fn capacity(&self) -> (r: usize)
        ensures
            r == CAPACITY,
    {
        CAPACITY
    }

    /// The region in slot `index`, if that slot is occupied.
    pub fn get(&self, index: usize) -> (r: Option<Block>)
        requires
            self.wf(),
        ensures
            r == (if index < self@.len() { Some(self@[index as int]) } else { None::<Block> }),
    {
        if index < self.len {
            self.slots[index]
        } else {
            None
        }
    }

    /// The slot of the first region that can serve `size` bytes aligned to
    /// `align`, or `None` when no region can.
    pub fn find_fit(&self, size: usize, align: usize) -> (r: Option<usize>)
        requires
            self.wf(),
            align > 0,
        ensures
            r matches Some(i) ==> first_fit(self@, size as int, align as int) == Some(i as int),
            r is None ==> first_fit(self@, size as int, align as int) is None,
    {
        let mut i: usize = 0;
        while i < self.len
            invariant
                self.wf(),
                align > 0,
                i <= self.len,
                forall|j: int| 0 <= j < i ==> !(#[trigger] self@[j]).fits(size as int, align as int),
            decreases self.len - i,
        {
            if let Some(block) = self.slots[i] {
                if block.can_serve(size, align) {
                    proof {
                        lemma_first_fit_at(self@, size as int, align as int, i as int);
                    }
                    return Some(i);
                }
            }
            i += 1;
        }
        proof {
            lemma_first_fit(self@, size as int, align as int);
            if first_fit(self@, size as int, align as int) is Some {
                let k = first_fit(self@, size as int, align as int).unwrap();
                assert(self@[k].fits(size as int, align as int));
            }
        }
        None
    }

    /// Hands out the first `size` bytes of the region in slot `index` and
    /// returns their address. What is left of a larger region stays in the
    /// slot; a region used up whole leaves the table, its slot taken by the
    /// last occupied one.
    pub fn take(&mut self, index: usize, size: usize) -> (r: usize)
        requires
            old(self).wf(),
            index < old(self)@.len(),
            0 < size <= old(self)@[index as int].size,
        ensures
            final(self).wf(),
            r == old(self)@[index as int].address,
            final(self)@ == taken(old(self)@, index as int, size as int),
    {
        let ghost before = self@;
        let block = self.slots[index].unwrap();
        if block.size > size {
            self.slots[index] = Some(Block { address: block.address + size, size: block.size - size });
            assert(self@ =~= taken(before, index as int, size as int));
        } else {
            let last = self.len - 1;
            self.slots[index] = self.slots[last];
            self.slots[last] = None;
            self.len = last;
            assert(self@ =~= taken(before, index as int, size as int));
        }
        block.address
    }

    /// Offers `block` to the table: it is kept and `true` returned where a
    /// slot is free; the table is left as it was and `false` returned when
    /// it is full.
    pub fn insert(&mut self, block: Block) -> (r: bool)
        requires
            old(self).wf(),
            block.valid(),
        ensures
            final(self).wf(),
            r == (old(self)@.len() < CAPACITY),
            final(self)@ == inserted(old(self)@, block, CAPACITY as int),
    {
        if self.len < CAPACITY {
            let ghost before = self@;
            self.slots[self.len] = Some(block);
            self.len = self.len + 1;
            assert(self@ =~= before.push(block));
            true
        } else {
            false
        }
    }
}

} // verus!
