//! What a process does with its allocator as a whole: it binds it to a
//! memory space, once, and asks how much memory is in use.

use vstd::prelude::*;
use crate::AlreadyInitialized;
use crate::CamelAllocator;
use crate::MAX_SIZE;
use crate::arena::CHUNK_SIZE;

verus! {

/// Binds `allocator` to a memory space, which can be done once.
pub fn init(allocator: &CamelAllocator) -> (bound: Result<(), AlreadyInitialized>) {
    allocator.init()
}

/// How much memory an allocator uses, holds, can hold and has lost.
#[derive(Clone, Copy, Debug, PartialEq, Eq, Structural)]
pub struct MemoryPressure {
    /// The sum of the heads of the arenas.
    pub used: usize,
    /// The number of bytes that the chunks of the arenas cover.
    pub size: usize,
    /// The most bytes that the chunks of the arenas can cover.
    pub available: usize,
    /// The number of bytes that were given back and are lost.
    pub leaked: usize,
}

/// The state of `allocator` at this moment, arena by arena.
pub fn memory_pressure(allocator: &CamelAllocator) -> (pressure: MemoryPressure)
    ensures
        pressure.available == MAX_SIZE,
        pressure.size <= pressure.available,
        pressure.size % CHUNK_SIZE == 0,
{
    let used: usize = allocator.memory_used();
    let size: usize = allocator.memory_allocated();
    let available: usize = allocator.max_size();
    let leaked: usize = allocator.leaked();
    MemoryPressure { used, size, available, leaked }
}

} // verus!
