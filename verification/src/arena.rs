//! A bump allocator over chunks that are mapped one at a time, with a small
//! scratch buffer for the requests that no chunk can serve.

use vstd::prelude::*;
use arrayvec::ArrayVec;
use crate::chunk::{Chunk, Region, maps};
use crate::layout::{Layout, is_power_of_two};

verus! {

/// The number of bytes in every chunk.
pub const CHUNK_SIZE: usize = 2097152;

/// The most chunks that an arena can hold.
pub const CHUNK_CAPACITY: usize = 16;

/// The number of bytes in an arena's scratch buffer.
pub const SCRATCH_SIZE: usize = 4096;

/// The most bytes that an arena's chunks can cover.
pub const ARENA_CAPACITY: usize = 33554432;

/// `arrayvec::ArrayVec`, a vector with room for `CAP` items that lie in the
/// vector itself. What one holds is told by `chunk_seq`.
#[verifier::external_type_specification]
#[verifier::external_body]
#[verifier::reject_recursive_types(T)]
pub struct ExArrayVec<T, const CAP: usize>(ArrayVec<T, CAP>);

/// The chunks that an `ArrayVec` holds, in the order in which they were
/// pushed.
pub uninterp spec fn chunk_seq(chunks: ArrayVec<Chunk, 16>) -> Seq<Chunk>;

/// `ArrayVec::new_const`: a vector that holds nothing.
#[verifier::external_body]
fn chunks_new() -> (chunks: ArrayVec<Chunk, 16>)
    ensures
        chunk_seq(chunks) == Seq::<Chunk>::empty(),
{
    ArrayVec::new_const()
}

/// `ArrayVec::is_full`: whether the vector holds as many items as it has
/// room for, here 16.
#[verifier::external_body]
fn chunks_is_full(chunks: &ArrayVec<Chunk, 16>) -> (full: bool)
    ensures
        full == (chunk_seq(*chunks).len() == 16),
{
    chunks.is_full()
}

/// `ArrayVec::push`: appends one item. It panics on a full vector, which
/// the precondition leaves out.
#[verifier::external_body]
fn chunks_push(chunks: &mut ArrayVec<Chunk, 16>, chunk: Chunk)
    requires
        chunk_seq(*old(chunks)).len() < 16,
    ensures
        chunk_seq(*final(chunks)) == chunk_seq(*old(chunks)).push(chunk),
    no_unwind
{
    chunks.push(chunk)
}

/// `ArrayVec::as_slice`: the items of the vector, in order.
#[verifier::external_body]
fn chunks_as_slice(chunks: &ArrayVec<Chunk, 16>) -> (slice: &[Chunk])
    ensures
        slice@ == chunk_seq(*chunks),
{
    chunks.as_slice()
}

/// What an arena is, as far as its decisions go. Its chunks cover the
/// offsets below `chunks * CHUNK_SIZE`.
pub struct ArenaModel {
    /// The number of chunks mapped so far.
    pub chunks: nat,
    /// The offset at which the next request is placed, before it is aligned.
    pub head: usize,
    /// Whether a memory space is bound, so that chunks can be mapped.
    pub bound: bool,
    /// The number of bytes of the scratch buffer that are handed out.
    pub scratch: nat,
}

/// Where a request was placed.
pub enum Placement {
    /// In a chunk, at this offset of the arena.
    Chunk(usize),
    /// In the scratch buffer, at this offset of it.
    Scratch(usize),
    /// Nowhere: the request failed.
    Nowhere,
}

/// `head` moved to the next multiple of `align` above it. A head that is a
/// multiple already moves on by `align`.
pub open spec fn align_up(head: usize, align: usize) -> int {
    (head & !((align - 1) as usize)) + align
}

impl ArenaModel {
    /// The number of bytes that the chunks cover.
    pub open spec fn size(self) -> nat {
        (self.chunks * CHUNK_SIZE) as nat
    }

    /// The arena has a chunk that holds `size` bytes at `offset` and at
    /// least one more byte after them.
    pub open spec fn fits(self, offset: int, size: usize) -> bool {
        offset < self.size() && offset % (CHUNK_SIZE as int) + size < CHUNK_SIZE
    }

    /// The arena can map one more chunk.
    pub open spec fn can_grow(self) -> bool {
        self.bound && self.chunks < CHUNK_CAPACITY
    }

    /// The arena after one more chunk is mapped: its head stands at the
    /// start of the new chunk.
    pub open spec fn grown(self) -> ArenaModel {
        ArenaModel { chunks: self.chunks + 1, head: self.size() as usize, ..self }
    }

    /// The arena after a request of `size` bytes aligned to `align`, and
    /// where the request was placed.
    ///
    /// The head is aligned first. Where a chunk holds the request there, it
    /// is placed there. Else the arena grows by a chunk, if it can, and the
    /// request is made again. Else the scratch buffer takes it, if it has
    /// room. A head that cannot be aligned within `usize` fails the request
    /// at once.
    pub open spec fn serve(self, size: usize, align: usize) -> (ArenaModel, Placement)
        decreases CHUNK_CAPACITY - self.chunks,
    {
        let head = align_up(self.head, align);
        if head > usize::MAX {
            (self, Placement::Nowhere)
        } else if self.fits(head, size) {
            (ArenaModel { head: (head + size) as usize, ..self }, Placement::Chunk(head as usize))
        } else if self.can_grow() {
            self.grown().serve(size, align)
        } else if SCRATCH_SIZE - self.scratch >= size {
            (
                ArenaModel { head: head as usize, scratch: (self.scratch + size) as nat, ..self },
                Placement::Scratch(self.scratch as usize),
            )
        } else {
            (ArenaModel { head: head as usize, ..self }, Placement::Nowhere)
        }
    }
}

/// The placement that a region shows.
pub open spec fn placement_of(region: Option<Region>) -> Placement {
    match region {
        Some(Region::Mapped { offset, .. }) => Placement::Chunk(offset),
        Some(Region::Scratch { offset, .. }) => Placement::Scratch(offset),
        None => Placement::Nowhere,
    }
}

/// `region` is one that an arena may give to a request of `size` bytes
/// aligned to `align`: it has that many bytes, and they lie either in the
/// scratch buffer or in one chunk, short of its last byte, at a multiple of
/// `align` that is not 0, and within the address space.
pub open spec fn region_for(region: Region, size: usize, align: usize) -> bool {
    match region {
        Region::Mapped { addr, offset, len } => {
            &&& len == size
            &&& offset & ((align - 1) as usize) == 0
            &&& offset >= align
            &&& offset % CHUNK_SIZE + len < CHUNK_SIZE
            &&& offset + len < ARENA_CAPACITY
            &&& addr >= offset % CHUNK_SIZE
            &&& addr + len < usize::MAX
        },
        Region::Scratch { offset, len } => len == size && offset + len <= SCRATCH_SIZE,
    }
}

/// `chunk` is what an arena holds as its chunk number `index`.
pub open spec fn chunk_at_index(chunk: Chunk, index: int) -> bool {
    &&& chunk.wf()
    &&& chunk.spec_base() == index * CHUNK_SIZE
    &&& chunk.spec_size() == CHUNK_SIZE
}

/// A bump allocator over at most 16 chunks of 2 MiB each.
pub struct Arena {
    chunks: ArrayVec<Chunk, 16>,
    size: usize,
    head: usize,
    space: bool,
    temporary_ptr: usize,
}

impl View for Arena {
    type V = ArenaModel;

    closed spec fn view(&self) -> ArenaModel {
        ArenaModel {
            chunks: chunk_seq(self.chunks).len(),
            head: self.head,
            bound: self.space,
            scratch: self.temporary_ptr as nat,
        }
    }
}

/// Appends `chunk` and counts its bytes.
fn push_chunk(chunks: &mut ArrayVec<Chunk, 16>, size: &mut usize, chunk: Chunk)
    requires
        chunk_seq(*old(chunks)).len() < 16,
        *old(size) == chunk_seq(*old(chunks)).len() * CHUNK_SIZE,
    ensures
        chunk_seq(*final(chunks)) == chunk_seq(*old(chunks)).push(chunk),
        *final(size) == *old(size) + CHUNK_SIZE,
    no_unwind
{
    chunks_push(chunks, chunk);
    *size = *size + CHUNK_SIZE;
}

impl Arena {
    #[verifier::type_invariant]
    spec fn inv(self) -> bool {
        &&& chunk_seq(self.chunks).len() <= CHUNK_CAPACITY
        &&& self.size == chunk_seq(self.chunks).len() * CHUNK_SIZE
        &&& self.temporary_ptr <= SCRATCH_SIZE
        &&& forall|i: int|
            0 <= i < chunk_seq(self.chunks).len() ==> chunk_at_index(
                #[trigger] chunk_seq(self.chunks)[i],
                i,
            )
    }

    /// The chunks of the arena, oldest first.
    pub closed spec fn spec_chunks(self) -> Seq<Chunk> {
        chunk_seq(self.chunks)
    }

    /// What holds of every arena: it has the chunks that its model counts,
    /// 16 at most, each in its place, and its scratch cursor lies within the
    /// scratch buffer.
    pub open spec fn wf(self) -> bool {
        &&& self.spec_chunks().len() == self@.chunks
        &&& self@.chunks <= CHUNK_CAPACITY
        &&& self@.scratch <= SCRATCH_SIZE
        &&& forall|i: int|
            0 <= i < self.spec_chunks().len() ==> chunk_at_index(#[trigger] self.spec_chunks()[i], i)
    }

    /// An arena without chunks and without a memory space.
    pub fn new() -> (arena: Arena)
        ensures
            arena@ == (ArenaModel { chunks: 0, head: 0, bound: false, scratch: 0 }),
            arena.spec_chunks() == Seq::<Chunk>::empty(),
            arena.wf(),
    {
        Arena { chunks: chunks_new(), size: 0, head: 0, space: false, temporary_ptr: 0 }
    }

    /// Binds a memory space: from now on the arena can map chunks.
    pub fn use_space(&mut self)
        ensures
            final(self)@ == (ArenaModel { bound: true, ..old(self)@ }),
            final(self).spec_chunks() == old(self).spec_chunks(),
            final(self).wf(),
    {
        proof {
            use_type_invariant(&*self);
        }
        self.space = true;
    }

    /// The offset up to which the arena is used.
    pub fn used_size(&self) -> (used: usize)
        ensures
            used == self@.head,
    {
        self.head
    }

    /// The number of bytes between the head and the most that the arena can
    /// cover.
    pub fn free_size(&self) -> (free: usize)
        requires
            self@.head <= ARENA_CAPACITY,
        ensures
            free == ARENA_CAPACITY - self@.head,
    {
        self.max_size() - self.head
    }

    /// The number of bytes that the chunks cover.
    pub fn size(&self) -> (size: usize)
        ensures
            size == self@.size(),
            size <= ARENA_CAPACITY,
            self.wf(),
    {
        proof {
            use_type_invariant(self);
        }
        self.size
    }

    /// The most bytes that the chunks of an arena can cover.
    pub fn max_size(&self) -> (max: usize)
        ensures
            max == ARENA_CAPACITY,
    {
        CHUNK_CAPACITY * CHUNK_SIZE
    }

    /// Serves a request: from the chunk under the aligned head, from a chunk
    /// mapped for it through `space`, or from the scratch buffer.
    #[verifier::loop_isolation(false)]
    pub fn allocate<F: Fn(usize) -> usize>(&mut self, layout: Layout, space: &F) -> (region: Option<
        Region,
    >)
        requires
            maps(space, CHUNK_SIZE),
        ensures
            final(self)@ == old(self)@.serve(layout.spec_size(), layout.spec_align()).0,
            placement_of(region) == old(self)@.serve(layout.spec_size(), layout.spec_align()).1,
            final(self).wf(),
            region matches Some(r) ==> region_for(r, layout.spec_size(), layout.spec_align()),
            region matches Some(Region::Mapped { addr, offset, .. }) ==> {
                let index = offset as int / CHUNK_SIZE as int;
                &&& index < final(self).spec_chunks().len()
                &&& addr == final(self).spec_chunks()[index].spec_start() + offset as int
                    % CHUNK_SIZE as int
            },
            old(self).spec_chunks().is_prefix_of(final(self).spec_chunks()),
            forall|i: int|
                old(self).spec_chunks().len() <= i < final(self).spec_chunks().len()
                    ==> space.ensures(
                    (CHUNK_SIZE,),
                    #[trigger] final(self).spec_chunks()[i].spec_start(),
                ),
    {
        let size: usize = layout.size();
        let align: usize = layout.align();
        let ghost before = self@;
        let ghost chunks_before = self.spec_chunks();
        proof {
            use_type_invariant(&*self);
            lemma_serve_above(before, size, align, 0);
            lemma_serve_aligned(before, size, align);
        }
        loop
            invariant
                maps(space, CHUNK_SIZE),
                size == layout.spec_size(),
                align == layout.spec_align(),
                is_power_of_two(align),
                before == old(self)@,
                chunks_before == old(self).spec_chunks(),
                before.serve(size, align) == self@.serve(size, align),
                chunks_before.is_prefix_of(self.spec_chunks()),
                forall|i: int|
                    chunks_before.len() <= i < self.spec_chunks().len() ==> space.ensures(
                        (CHUNK_SIZE,),
                        #[trigger] self.spec_chunks()[i].spec_start(),
                    ),
            decreases CHUNK_CAPACITY - self@.chunks,
        {
            proof {
                use_type_invariant(&*self);
            }
            if !self.align_to(align) {
                return None;
            }
            let allocation: Option<Region> = self.carve(size);
            if allocation.is_some() {
                proof {
                    use_type_invariant(&*self);
                }
                return allocation;
            }
            if self.extend(space).is_none() {
                proof {
                    use_type_invariant(&*self);
                }
                if SCRATCH_SIZE - self.temporary_ptr < size {
                    return None;
                }
                let region = Region::Scratch { offset: self.temporary_ptr, len: size };
                self.temporary_ptr = self.temporary_ptr + size;
                return Some(region);
            }
        }
    }

    /// Moves the head to the next multiple of `align` above it, unless that
    /// lies beyond `usize`.
    fn align_to(&mut self, align: usize) -> (moved: bool)
        requires
            align > 0,
        ensures
            moved == (align_up(old(self).head, align) <= usize::MAX),
            moved ==> final(self).head == align_up(old(self).head, align),
            !moved ==> final(self).head == old(self).head,
            final(self).chunks == old(self).chunks,
            final(self).size == old(self).size,
            final(self).space == old(self).space,
            final(self).temporary_ptr == old(self).temporary_ptr,
    {
        proof {
            use_type_invariant(&*self);
        }
        match (self.head & !(align - 1)).checked_add(align) {
            Some(head) => {
                self.head = head;
                true
            },
            None => false,
        }
    }

    /// Places `size` bytes at the head, where a chunk holds them there.
    fn carve(&mut self, size: usize) -> (allocation: Option<Region>)
        ensures
            final(self).chunks == old(self).chunks,
            final(self).size == old(self).size,
            final(self).space == old(self).space,
            final(self).temporary_ptr == old(self).temporary_ptr,
            allocation is Some <==> old(self)@.fits(old(self).head as int, size),
            allocation is None ==> final(self).head == old(self).head,
            allocation matches Some(region) ==> {
                let index = old(self).head as int / CHUNK_SIZE as int;
                &&& final(self).head == old(self).head + size
                &&& index < chunk_seq(old(self).chunks).len()
                &&& region matches Region::Mapped { addr, offset, len }
                &&& addr == chunk_seq(old(self).chunks)[index].spec_start() + old(self).head as int
                    % CHUNK_SIZE as int
                &&& offset == old(self).head
                &&& len == size
            },
    {
        proof {
            use_type_invariant(&*self);
        }
        let head: usize = self.head;
        let chunks: &[Chunk] = chunks_as_slice(&self.chunks);
        let mut i: usize = 0;
        while i < chunks.len()
            invariant
                i <= chunks.len(),
                chunks@ == chunk_seq(self.chunks),
                chunks@.len() <= CHUNK_CAPACITY,
                forall|j: int| 0 <= j < chunks@.len() ==> chunk_at_index(#[trigger] chunks@[j], j),
                self.inv(),
                head >= i * CHUNK_SIZE,
                head == self.head,
                self.chunks == old(self).chunks,
                self.size == old(self).size,
                self.space == old(self).space,
                self.temporary_ptr == old(self).temporary_ptr,
                head == old(self).head,
            decreases chunks.len() - i,
        {
            let chunk: &Chunk = &chunks[i];
            assert(chunk_at_index(chunks@[i as int], i as int));
            if chunk.contains(head) {
                proof {
                    lemma_offset_in_chunk(head as int, i as int);
                }
                match chunk.try_get_slice(head, size) {
                    Some(region) => {
                        self.head = head + size;
                        return Some(region);
                    },
                    None => {
                        return None;
                    },
                }
            }
            i = i + 1;
        }
        None
    }

    /// Maps one more chunk, where a memory space is bound and the arena has
    /// room for the chunk, and moves the head to its start.
    fn extend<F: Fn(usize) -> usize>(&mut self, space: &F) -> (grown: Option<()>)
        requires
            maps(space, CHUNK_SIZE),
        ensures
            grown is Some <==> old(self)@.can_grow(),
            grown is None ==> final(self).head == old(self).head && final(self).chunks == old(
                self,
            ).chunks,
            grown is Some ==> final(self).head == old(self).size && exists|chunk: Chunk|
                {
                    &&& space.ensures((CHUNK_SIZE,), chunk.spec_start())
                    &&& #[trigger] chunk_seq(old(self).chunks).push(chunk) == chunk_seq(
                        final(self).chunks,
                    )
                },
            final(self).space == old(self).space,
            final(self).temporary_ptr == old(self).temporary_ptr,
    {
        proof {
            use_type_invariant(&*self);
        }
        if !self.space {
            return None;
        }
        if chunks_is_full(&self.chunks) {
            return None;
        }
        let new_chunk = Chunk::new(self.size, CHUNK_SIZE, space);
        self.head = self.size;
        push_chunk(&mut self.chunks, &mut self.size, new_chunk);
        Some(())
    }
}

/// An aligned head lies above the head, by `align` at most.
pub proof fn lemma_align_up_bounds(head: usize, align: usize)
    requires
        align > 0,
    ensures
        head < align_up(head, align) <= head + align,
{
    assert(align > 0 ==> (head & !((align - 1) as usize)) <= head && head - (head & !((align
        - 1) as usize)) < align) by (bit_vector);
}

/// An aligned head has none of the bits below an alignment that is a power
/// of two: it is a multiple of the alignment.
pub proof fn lemma_align_up_is_aligned(head: usize, align: usize)
    requires
        is_power_of_two(align),
        align_up(head, align) <= usize::MAX,
    ensures
        (align_up(head, align) as usize) & ((align - 1) as usize) == 0,
{
    assert(align > 0 && align & ((align - 1) as usize) == 0 ==> (((head & !((align - 1) as usize))
        + align) as usize) & ((align - 1) as usize) == 0) by (bit_vector);
}

/// What a request does to an arena whose chunks cover the offsets below
/// `floor` and whose head stands at `floor` or above: head and chunks stay
/// at `floor` or above, and a placement in a chunk begins there too, ends at
/// the new head and lies within the chunks. The scratch cursor moves by
/// the size of what the scratch buffer serves, and not otherwise.
pub proof fn lemma_serve_above(m: ArenaModel, size: usize, align: usize, floor: int)
    requires
        m.chunks <= CHUNK_CAPACITY,
        align > 0,
        floor <= m.head,
        floor <= m.size(),
    ensures
        ({
            let (after, placement) = m.serve(size, align);
            &&& after.chunks <= CHUNK_CAPACITY
            &&& m.chunks <= after.chunks
            &&& after.bound == m.bound
            &&& floor <= after.head
            &&& floor <= after.size()
            &&& placement matches Placement::Chunk(offset) ==> {
                &&& floor <= offset
                &&& align <= offset
                &&& offset % CHUNK_SIZE + size < CHUNK_SIZE
                &&& offset + size == after.head
                &&& after.head < after.size()
                &&& after.scratch == m.scratch
            }
            &&& placement matches Placement::Scratch(offset) ==> {
                &&& offset == m.scratch
                &&& after.scratch == m.scratch + size
                &&& after.scratch <= SCRATCH_SIZE
            }
            &&& placement is Nowhere ==> after.scratch == m.scratch
        }),
    decreases CHUNK_CAPACITY - m.chunks,
{
    lemma_align_up_bounds(m.head, align);
    let head = align_up(m.head, align);
    if head > usize::MAX {
    } else if m.fits(head, size) {
        lemma_chunk_end(head, size, m.chunks as int);
    } else if m.can_grow() {
        lemma_serve_above(m.grown(), size, align, floor);
    } else {
    }
}

/// A request with an alignment that is a power of two is placed in the
/// chunks at a multiple of that alignment only.
pub proof fn lemma_serve_aligned(m: ArenaModel, size: usize, align: usize)
    requires
        is_power_of_two(align),
    ensures
        m.serve(size, align).1 matches Placement::Chunk(offset) ==> offset & ((align - 1) as usize)
            == 0,
    decreases CHUNK_CAPACITY - m.chunks,
{
    let head = align_up(m.head, align);
    if head > usize::MAX {
    } else if m.fits(head, size) {
        lemma_align_up_is_aligned(m.head, align);
    } else if m.can_grow() {
        lemma_serve_aligned(m.grown(), size, align);
    }
}

/// A request never lowers a head that stands within the chunks, and a
/// request that is placed in a chunk leaves the head within them.
pub proof fn lemma_serve_keeps_head(m: ArenaModel, size: usize, align: usize)
    requires
        m.chunks <= CHUNK_CAPACITY,
        align > 0,
    ensures
        m.head <= m.size() ==> m.head <= m.serve(size, align).0.head,
        m.serve(size, align).1 is Chunk ==> m.serve(size, align).0.head <= m.serve(
            size,
            align,
        ).0.size(),
        m.size() <= m.serve(size, align).0.size(),
{
    if m.head <= m.size() {
        lemma_serve_above(m, size, align, m.head as int);
    } else {
        lemma_serve_above(m, size, align, 0);
    }
}

/// The arena after the first `count` of `requests`, each a size and an
/// alignment, were made in turn.
pub open spec fn arena_after(m: ArenaModel, requests: Seq<(usize, usize)>, count: nat) -> ArenaModel
    decreases count,
{
    if count == 0 {
        m
    } else {
        let request = requests[count - 1];
        arena_after(m, requests, (count - 1) as nat).serve(request.0, request.1).0
    }
}

/// Where request number `index` of `requests` was placed.
pub open spec fn placement_at(m: ArenaModel, requests: Seq<(usize, usize)>, index: nat) -> Placement {
    arena_after(m, requests, index).serve(requests[index as int].0, requests[index as int].1).1
}

/// Every alignment among `requests` is positive.
pub open spec fn alignments_positive(requests: Seq<(usize, usize)>) -> bool {
    forall|i: int| 0 <= i < requests.len() ==> (#[trigger] requests[i]).1 > 0
}

/// However many requests are made, an arena holds at most its 16 chunks and
/// never loses one.
pub proof fn lemma_arena_after_chunks(m: ArenaModel, requests: Seq<(usize, usize)>, count: nat)
    requires
        m.chunks <= CHUNK_CAPACITY,
        alignments_positive(requests),
        count <= requests.len(),
    ensures
        m.chunks <= arena_after(m, requests, count).chunks <= CHUNK_CAPACITY,
    decreases count,
{
    if count > 0 {
        let before = arena_after(m, requests, (count - 1) as nat);
        lemma_arena_after_chunks(m, requests, (count - 1) as nat);
        lemma_serve_above(before, requests[count - 1].0, requests[count - 1].1, 0);
    }
}

/// Once a request was placed in a chunk, head and chunks stay at or above
/// the end of what it was given, whatever is asked afterwards.
proof fn lemma_chunk_placement_stays_below(
    m: ArenaModel,
    requests: Seq<(usize, usize)>,
    first: nat,
    count: nat,
)
    requires
        m.chunks <= CHUNK_CAPACITY,
        alignments_positive(requests),
        first < count <= requests.len(),
        placement_at(m, requests, first) is Chunk,
    ensures
        placement_at(m, requests, first)->Chunk_0 + requests[first as int].0 <= arena_after(
            m,
            requests,
            count,
        ).head,
        placement_at(m, requests, first)->Chunk_0 + requests[first as int].0 <= arena_after(
            m,
            requests,
            count,
        ).size(),
    decreases count,
{
    let before = arena_after(m, requests, (count - 1) as nat);
    let request = requests[count - 1];
    lemma_arena_after_chunks(m, requests, (count - 1) as nat);
    if count == first + 1 {
        lemma_serve_above(before, request.0, request.1, 0);
    } else {
        lemma_chunk_placement_stays_below(m, requests, first, (count - 1) as nat);
        let end = placement_at(m, requests, first)->Chunk_0 + requests[first as int].0;
        lemma_serve_above(before, request.0, request.1, end);
    }
}

/// Once the scratch buffer served a request, its cursor stays at or above
/// the end of what it gave, whatever is asked afterwards.
proof fn lemma_scratch_placement_stays_below(
    m: ArenaModel,
    requests: Seq<(usize, usize)>,
    first: nat,
    count: nat,
)
    requires
        m.chunks <= CHUNK_CAPACITY,
        alignments_positive(requests),
        first < count <= requests.len(),
        placement_at(m, requests, first) is Scratch,
    ensures
        placement_at(m, requests, first)->Scratch_0 + requests[first as int].0 <= arena_after(
            m,
            requests,
            count,
        ).scratch,
    decreases count,
{
    let before = arena_after(m, requests, (count - 1) as nat);
    let request = requests[count - 1];
    lemma_arena_after_chunks(m, requests, (count - 1) as nat);
    lemma_serve_above(before, request.0, request.1, 0);
    if count > first + 1 {
        lemma_scratch_placement_stays_below(m, requests, first, (count - 1) as nat);
    }
}

/// No two requests made of one arena are given bytes in common: of two
/// placements in the chunks the earlier ends where the later begins or
/// below, and so it is with two placements in the scratch buffer.
pub proof fn lemma_placements_disjoint(
    m: ArenaModel,
    requests: Seq<(usize, usize)>,
    earlier: nat,
    later: nat,
)
    requires
        m.chunks <= CHUNK_CAPACITY,
        alignments_positive(requests),
        earlier < later < requests.len(),
    ensures
        placement_at(m, requests, earlier) matches Placement::Chunk(first) ==> (placement_at(
            m,
            requests,
            later,
        ) matches Placement::Chunk(second) ==> first + requests[earlier as int].0 <= second),
        placement_at(m, requests, earlier) matches Placement::Scratch(first) ==> (placement_at(
            m,
            requests,
            later,
        ) matches Placement::Scratch(second) ==> first + requests[earlier as int].0 <= second),
{
    let before = arena_after(m, requests, later);
    let request = requests[later as int];
    lemma_arena_after_chunks(m, requests, later);
    if placement_at(m, requests, earlier) is Chunk {
        lemma_chunk_placement_stays_below(m, requests, earlier, later);
        let end = placement_at(m, requests, earlier)->Chunk_0 + requests[earlier as int].0;
        lemma_serve_above(before, request.0, request.1, end);
    } else if placement_at(m, requests, earlier) is Scratch {
        lemma_scratch_placement_stays_below(m, requests, earlier, later);
        lemma_serve_above(before, request.0, request.1, 0);
    }
}

/// While every request is placed in a chunk, the head of an arena that
/// began with its head within its chunks never moves down and never
/// leaves the chunks.
pub proof fn lemma_head_monotone(
    m: ArenaModel,
    requests: Seq<(usize, usize)>,
    earlier: nat,
    later: nat,
)
    requires
        m.chunks <= CHUNK_CAPACITY,
        m.head <= m.size(),
        alignments_positive(requests),
        earlier <= later <= requests.len(),
        forall|i: nat| i < later ==> placement_at(m, requests, i) is Chunk,
    ensures
        arena_after(m, requests, earlier).head <= arena_after(m, requests, later).head,
        arena_after(m, requests, later).head <= arena_after(m, requests, later).size(),
    decreases later,
{
    if later > 0 {
        let before = arena_after(m, requests, (later - 1) as nat);
        let request = requests[later - 1];
        lemma_arena_after_chunks(m, requests, (later - 1) as nat);
        assert(placement_at(m, requests, (later - 1) as nat) is Chunk);
        if earlier < later {
            lemma_head_monotone(m, requests, earlier, (later - 1) as nat);
        } else {
            lemma_head_monotone(m, requests, (later - 1) as nat, (later - 1) as nat);
        }
        lemma_serve_keeps_head(before, request.0, request.1);
    }
}

/// A run of bytes that stops short of the end of its chunk stops short of
/// the end of all chunks.
proof fn lemma_chunk_end(offset: int, size: usize, chunks: int)
    requires
        0 <= offset < chunks * CHUNK_SIZE,
        offset % (CHUNK_SIZE as int) + size < CHUNK_SIZE,
    ensures
        offset + size < chunks * CHUNK_SIZE,
{
    let index = offset / (CHUNK_SIZE as int);
    vstd::arithmetic::div_mod::lemma_fundamental_div_mod(offset, CHUNK_SIZE as int);
    assert(index < chunks) by (nonlinear_arith)
        requires
            index * CHUNK_SIZE <= offset,
            offset < chunks * CHUNK_SIZE,
    ;
    assert((index + 1) * CHUNK_SIZE <= chunks * CHUNK_SIZE) by (nonlinear_arith)
        requires
            index < chunks,
    ;
}

/// An offset within chunk number `index` stands at `offset % CHUNK_SIZE` in
/// that chunk.
proof fn lemma_offset_in_chunk(offset: int, index: int)
    requires
        0 <= index,
        index * CHUNK_SIZE <= offset < index * CHUNK_SIZE + CHUNK_SIZE,
    ensures
        offset / (CHUNK_SIZE as int) == index,
        offset % (CHUNK_SIZE as int) == offset - index * CHUNK_SIZE,
{
    vstd::arithmetic::div_mod::lemma_fundamental_div_mod_converse(
        offset,
        CHUNK_SIZE as int,
        index,
        offset - index * CHUNK_SIZE,
    );
}

} // verus!
