//! The decisions of the allocator's entry points.
//!
//! The embedding program owns the per-thread `FreeList`, the process-wide
//! cache-enabled flag and the page-level backend. For each request it asks
//! `route` whether the free list may be used, lets `alloc_from` or `dealloc_into`
//! work on the list, and goes to the backend where they could not serve.
use vstd::prelude::*;

use crate::block::Block;
use crate::free_list::{first_fit, inserted, taken, FreeList, lemma_first_fit};
use crate::tracker::Action;

verus! {

/// The address that the free list `blocks` hands out for `size` bytes
/// aligned to `align`, if any region can serve them.
pub open spec fn served(blocks: Seq<Block>, size: int, align: int) -> Option<usize> {
    match first_fit(blocks, size, align) {
        Some(i) => Some(blocks[i].address),
        None => None,
    }
}

/// The free list `blocks` after a request for `size` bytes aligned to
/// `align`: unchanged where nothing could serve it.
pub open spec fn after_alloc(blocks: Seq<Block>, size: int, align: int) -> Seq<Block> {
    match first_fit(blocks, size, align) {
        Some(i) => taken(blocks, i, size),
        None => blocks,
    }
}

/// Where a request goes before any thread-local state is touched: to the
/// free list only when the thread is not unwinding a panic and the cache is
/// still enabled, to the backend otherwise.
pub fn route(panicking: bool, cache_enabled: bool) -> (r: Action)
    ensures
        r == (if !panicking && cache_enabled { Action::Cache } else { Action::System }),
{
    if panicking || !cache_enabled {
        Action::System
    } else {
        Action::Cache
    }
}

/// The cache-enabled flag after a request that found its thread-local
/// state reachable or not. Once cleared, the flag is never set again.
pub fn cache_enabled_after(cache_enabled: bool, local_reachable: bool) -> (r: bool)
    ensures
        r == (cache_enabled && local_reachable),
        r ==> cache_enabled,
{
    cache_enabled && local_reachable
}

/// Serves `size` bytes aligned to `align` from the thread's free list.
/// Returns the address of the first region that fits, after splitting off
/// or removing what was handed out, or `None`, with the list unchanged,
/// when the request has to go to the backend.
pub fn alloc_from<const CAPACITY: usize>(list: &mut FreeList<CAPACITY>, size: usize, align: usize) -> (r: Option<usize>)
    requires
        old(list).wf(),
        size > 0,
        align > 0,
    ensures
        final(list).wf(),
        r == served(old(list)@, size as int, align as int),
        final(list)@ == after_alloc(old(list)@, size as int, align as int),
        r matches Some(a) ==> a % align == 0,
{
    proof {
        lemma_first_fit(list@, size as int, align as int);
    }
    match list.find_fit(size, align) {
        Some(i) => Some(list.take(i, size)),
        None => None,
    }
}

/// Returns the region `[address, address + size)` to the thread's free
/// list. `Action::Cache` says the list kept it; `Action::System` says the
/// list was full and left unchanged, and the region is to be released to
/// the backend.
pub fn dealloc_into<const CAPACITY: usize>(list: &mut FreeList<CAPACITY>, address: usize, size: usize) -> (r: Action)
    requires
        old(list).wf(),
        size > 0,
        address + size <= usize::MAX,
    ensures
        final(list).wf(),
        r == (if old(list)@.len() < CAPACITY { Action::Cache } else { Action::System }),
        final(list)@ == inserted(old(list)@, Block { address, size }, CAPACITY as int),
{
    if list.insert(Block::new(address, size)) {
        Action::Cache
    } else {
        Action::System
    }
}

} // verus!
