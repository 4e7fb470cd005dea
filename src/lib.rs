//! A thread-local caching allocator engine.
//!
//! The engine keeps, per thread, a bounded table of free memory regions and
//! serves allocation requests from it by first fit, splitting a larger region
//! and keeping the unused remainder. What the table cannot serve, and what it
//! cannot hold, goes to a page-level backend that the embedding program
//! supplies.
use vstd::prelude::*;

pub mod block;
pub mod facade;
pub mod free_list;
pub mod laws;
pub mod tracker;

pub use block::Block;
pub use facade::{alloc_from, cache_enabled_after, dealloc_into, route};
pub use free_list::{FreeList, DEFAULT_CAPACITY};
pub use tracker::{Action, Event, Tracker};

verus! {

} // verus!
