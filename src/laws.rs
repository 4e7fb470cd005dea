//! Properties of sequences of requests on one thread's free list.
//!
//! Each lemma is stated over the same spec functions that the contracts of
//! `alloc_from` and `dealloc_into` use, so it applies to any run of those
//! functions on a list.
use vstd::prelude::*;

use crate::block::Block;
use crate::facade::{after_alloc, served};
use crate::free_list::{first_fit, inserted, lemma_first_fit, lemma_first_fit_at, taken};

verus! {

/// The list after `incoming` was returned to it region by region, with no
/// request in between.
pub open spec fn insert_each(blocks: Seq<Block>, incoming: Seq<Block>, capacity: int) -> Seq<Block>
    decreases incoming.len(),
{
    if incoming.len() == 0 {
        blocks
    } else {
        inserted(insert_each(blocks, incoming.drop_last(), capacity), incoming.last(), capacity)
    }
}

/// A region returned to a list that had room serves any later request on
/// the same list for at most as many bytes, at an alignment that the
/// region's address meets: that request is answered from the list.
pub proof fn lemma_reuse(
    blocks: Seq<Block>,
    capacity: int,
    address: usize,
    size: usize,
    later_size: int,
    align: int,
)
    requires
        blocks.len() < capacity,
        later_size <= size,
        align > 0,
        (address as int) % align == 0,
    ensures
        served(inserted(blocks, Block { address, size }, capacity), later_size, align) is Some,
{
    let cached = inserted(blocks, Block { address, size }, capacity);
    lemma_first_fit(cached, later_size, align);
    assert(cached[blocks.len() as int].fits(later_size, align));
}

/// A region of `size` bytes returned to a list that had room, and then
/// asked for a smaller `small` bytes that no older region could serve, is
/// handed out from its start; its remaining `size - small` bytes stay in
/// the list as a region of their own at `address + small`, which a later
/// request for them can have.
pub proof fn lemma_split(
    blocks: Seq<Block>,
    capacity: int,
    address: usize,
    size: usize,
    small: usize,
    align: int,
    rest_align: int,
)
    requires
        blocks.len() < capacity,
        0 < small < size,
        address + size <= usize::MAX,
        align > 0,
        rest_align > 0,
        (address as int) % align == 0,
        (address + small) % rest_align == 0,
        first_fit(blocks, small as int, align) is None,
    ensures
        served(inserted(blocks, Block { address, size }, capacity), small as int, align) == Some(address),
        after_alloc(inserted(blocks, Block { address, size }, capacity), small as int, align)
            == blocks.push(Block { address: (address + small) as usize, size: (size - small) as usize }),
        served(
            blocks.push(Block { address: (address + small) as usize, size: (size - small) as usize }),
            size - small,
            rest_align,
        ) is Some,
        first_fit(blocks, size - small, rest_align) is None ==> served(
            blocks.push(Block { address: (address + small) as usize, size: (size - small) as usize }),
            size - small,
            rest_align,
        ) == Some((address + small) as usize),
{
    let n = blocks.len() as int;
    let cached = inserted(blocks, Block { address, size }, capacity);
    let rest = Block { address: (address + small) as usize, size: (size - small) as usize };
    let after = blocks.push(rest);
    lemma_first_fit(blocks, small as int, align);
    assert forall|j: int| 0 <= j < n implies !(#[trigger] cached[j]).fits(small as int, align) by {
        assert(cached[j] == blocks[j]);
    }
    lemma_first_fit_at(cached, small as int, align, n);
    assert(taken(cached, n, small as int) =~= after);
    lemma_first_fit(after, size - small, rest_align);
    assert(after[n].fits(size - small, rest_align));
    if first_fit(blocks, size - small, rest_align) is None {
        lemma_first_fit(blocks, size - small, rest_align);
        assert forall|j: int| 0 <= j < n implies !(#[trigger] after[j]).fits(size - small, rest_align) by {
            assert(after[j] == blocks[j]);
        }
        lemma_first_fit_at(after, size - small, rest_align, n);
    }
}

/// Regions returned one after another, with no request in between, fill
/// the list up to its capacity and no further: the first ones are kept in
/// order, the `i`-th is kept exactly when the list then still had room,
/// every later one goes to the backend, and the list never holds more than
/// `capacity` regions.
pub proof fn lemma_capacity_overflow(blocks: Seq<Block>, incoming: Seq<Block>, capacity: int)
    requires
        blocks.len() <= capacity,
    ensures
        insert_each(blocks, incoming, capacity) == blocks + incoming.take(
            vstd::math::min(incoming.len() as int, capacity - blocks.len()),
        ),
        insert_each(blocks, incoming, capacity).len() <= capacity,
        forall|i: int|
            0 <= i < incoming.len() ==> ((#[trigger] insert_each(blocks, incoming.take(i), capacity)).len()
                < capacity <==> blocks.len() + i < capacity),
    decreases incoming.len(),
{
    let room = capacity - blocks.len();
    if incoming.len() == 0 {
        assert(blocks + incoming.take(0) =~= blocks);
    } else {
        let front = incoming.drop_last();
        lemma_capacity_overflow(blocks, front, capacity);
        let kept = vstd::math::min(front.len() as int, room);
        if front.len() < room {
            assert(blocks + front.take(kept) + seq![incoming.last()] =~= blocks + incoming.take(
                incoming.len() as int,
            ));
            assert(insert_each(blocks, front, capacity).push(incoming.last()) =~= blocks
                + front.take(kept) + seq![incoming.last()]);
        } else {
            assert(front.take(kept) =~= incoming.take(room));
        }
        assert forall|i: int| 0 <= i < incoming.len() implies ((#[trigger] insert_each(
            blocks,
            incoming.take(i),
            capacity,
        )).len() < capacity <==> blocks.len() + i < capacity) by {
            lemma_capacity_overflow(blocks, incoming.take(i), capacity);
        }
    }
}

/// A list only hands out what it holds: an address served from it is the
/// start of one of its own regions. Regions released on another thread sit
/// in that thread's list and are never served from this one.
pub proof fn lemma_served_from_own_list(blocks: Seq<Block>, size: int, align: int)
    ensures
        served(blocks, size, align) matches Some(a) ==> exists|i: int|
            0 <= i < blocks.len() && (#[trigger] blocks[i]).address == a,
{
    lemma_first_fit(blocks, size, align);
}

} // verus!
