//! One fixed-size region of mapped memory, and the regions carved from it.

use vstd::prelude::*;

verus! {

/// A run of bytes handed to a caller, who has it for itself.
#[derive(Clone, Copy, Debug, PartialEq, Eq, Structural)]
pub enum Region {
    /// `len` bytes of mapped memory at the virtual address `addr`. They stand
    /// at `offset` in the arena that the chunk belongs to.
    Mapped { addr: usize, offset: usize, len: usize },
    /// `len` bytes of an arena's scratch buffer, from `offset` on.
    Scratch { offset: usize, len: usize },
}

impl Region {
    /// The number of bytes in the region.
    pub open spec fn spec_len(self) -> usize {
        match self {
            Region::Mapped { len, .. } => len,
            Region::Scratch { len, .. } => len,
        }
    }

    /// The number of bytes in the region.
    pub fn len(&self) -> (len: usize)
        ensures
            len == self.spec_len(),
    {
        match self {
            Region::Mapped { len, .. } => *len,
            Region::Scratch { len, .. } => *len,
        }
    }
}

/// What a mapper has to offer before it can back a chunk of `size` bytes: it
/// can be asked for that many bytes, and whatever address it answers with has
/// `size` bytes below the end of the address space.
pub open spec fn maps<F: Fn(usize) -> usize>(space: &F, size: usize) -> bool {
    &&& space.requires((size,))
    &&& forall|start: usize| #[trigger] space.ensures((size,), start) ==> start + size <= usize::MAX
}

/// A mapped region of memory that covers the offsets from `base` up to
/// `base + size` of an arena.
#[derive(Debug)]
pub struct Chunk {
    base: usize,
    start: usize,
    size: usize,
}

impl Chunk {
    #[verifier::type_invariant]
    spec fn inv(self) -> bool {
        self.wf()
    }

    /// The mapped bytes end within the address space.
    pub open spec fn wf(self) -> bool {
        self.spec_start() + self.spec_size() <= usize::MAX
    }

    /// The arena offset at which the chunk begins.
    pub closed spec fn spec_base(self) -> usize {
        self.base
    }

    /// The virtual address at which the chunk is mapped.
    pub closed spec fn spec_start(self) -> usize {
        self.start
    }

    /// The number of bytes in the chunk.
    pub closed spec fn spec_size(self) -> usize {
        self.size
    }

    /// The arena offset `addr` lies in the chunk.
    pub open spec fn spec_contains(self, addr: usize) -> bool {
        self.spec_base() <= addr < self.spec_base() + self.spec_size()
    }

    /// The region of `size` bytes at the arena offset `addr`, where the chunk
    /// has room for it. The last byte of a chunk is never handed out.
    pub open spec fn spec_slice(self, addr: usize, size: usize) -> Option<Region> {
        if addr < self.spec_base() || (addr - self.spec_base()) + size >= self.spec_size() {
            None
        } else {
            Some(
                Region::Mapped {
                    addr: (self.spec_start() + (addr - self.spec_base())) as usize,
                    offset: addr,
                    len: size,
                },
            )
        }
    }

    /// Maps `size` fresh bytes through `space` and makes them the chunk that
    /// begins at the arena offset `base`.
    pub fn new<F: Fn(usize) -> usize>(base: usize, size: usize, space: &F) -> (chunk: Chunk)
        requires
            maps(space, size),
        ensures
            chunk.wf(),
            chunk.spec_base() == base,
            chunk.spec_size() == size,
            space.ensures((size,), chunk.spec_start()),
    {
        let start: usize = space(size);
        Chunk { base, start, size }
    }

    /// The region of `size` bytes at the arena offset `addr`, or `None` where
    /// `addr` lies below the chunk or the region would reach the chunk's last
    /// byte.
    pub fn try_get_slice(&self, addr: usize, size: usize) -> (slice: Option<Region>)
        ensures
            slice == self.spec_slice(addr, size),
            addr >= self.spec_base() && (addr - self.spec_base()) + size == self.spec_size()
                ==> slice is None,
    {
        proof {
            use_type_invariant(self);
        }
        if addr < self.base {
            return None;
        }
        let offset: usize = addr - self.base;
        if offset >= self.size {
            return None;
        }
        if size >= self.size - offset {
            return None;
        }
        Some(Region::Mapped { addr: self.start + offset, offset: addr, len: size })
    }

    /// Whether the arena offset `addr` lies in the chunk.
    pub fn contains(&self, addr: usize) -> (inside: bool)
        ensures
            inside == self.spec_contains(addr),
    {
        if addr < self.base {
            return false;
        }
        let offset: usize = addr - self.base;
        if offset >= self.size {
            return false;
        }
        return true;
    }
}

} // verus!
