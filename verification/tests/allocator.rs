use camel::chunk::Region;
use camel::global::{memory_pressure, MemoryPressure};
use camel::layout::Layout;
use camel::{
    claim, next_step, plan, total, AllocError, Allocation, AlreadyInitialized, Attempt,
    CamelAllocator, Step,
};
use std::cell::Cell;
use std::sync::atomic::{AtomicUsize, Ordering};

const BASE: usize = 0x4000_0000;
const STRIDE: usize = 0x0040_0000;

fn layout(size: usize, align: usize) -> Layout {
    Layout::from_size_align(size, align).unwrap()
}

#[test]
fn empty_allocator_serves_from_scratch() {
    let space = |_size: usize| BASE;
    let allocator = CamelAllocator::empty();
    let result = allocator.allocate(layout(100, 8), &space);
    assert_eq!(
        result,
        Ok(Allocation { arena: 0, region: Region::Scratch { offset: 0, len: 100 } })
    );
    assert_eq!(allocator.memory_allocated(), 0);
    assert_eq!(allocator.memory_used(), 8);
    assert_eq!(allocator.max_size(), 67108864);
    assert_eq!(allocator.leaked(), 0);
}

#[test]
fn empty_allocator_fails_when_both_scratch_buffers_are_full() {
    let space = |_size: usize| BASE;
    let allocator = CamelAllocator::empty();
    for i in 0..40usize {
        assert_eq!(
            allocator.allocate(layout(100, 1), &space),
            Ok(Allocation { arena: 0, region: Region::Scratch { offset: 100 * i, len: 100 } })
        );
    }
    // the first arena has 96 bytes left: the second takes over
    for i in 0..40usize {
        assert_eq!(
            allocator.allocate(layout(100, 1), &space),
            Ok(Allocation { arena: 1, region: Region::Scratch { offset: 100 * i, len: 100 } })
        );
    }
    assert_eq!(allocator.allocate(layout(100, 1), &space), Err(AllocError));
    assert_eq!(
        allocator.allocate(layout(96, 1), &space),
        Ok(Allocation { arena: 0, region: Region::Scratch { offset: 4000, len: 96 } })
    );
    assert_eq!(
        allocator.allocate(layout(96, 1), &space),
        Ok(Allocation { arena: 1, region: Region::Scratch { offset: 4000, len: 96 } })
    );
    assert_eq!(allocator.allocate(layout(1, 1), &space), Err(AllocError));
}

#[test]
fn byte_4097_of_scratch_fails() {
    let space = |_size: usize| BASE;
    let allocator = CamelAllocator::empty();
    assert_eq!(
        allocator.allocate(layout(4096, 1), &space),
        Ok(Allocation { arena: 0, region: Region::Scratch { offset: 0, len: 4096 } })
    );
    assert_eq!(
        allocator.allocate(layout(4096, 1), &space),
        Ok(Allocation { arena: 1, region: Region::Scratch { offset: 0, len: 4096 } })
    );
    assert_eq!(allocator.allocate(layout(1, 1), &space), Err(AllocError));
}

#[test]
fn init_succeeds_once() {
    let allocator = CamelAllocator::empty();
    assert_eq!(allocator.init(), Ok(()));
    assert_eq!(allocator.init(), Err(AlreadyInitialized));
    assert_eq!(allocator.init(), Err(AlreadyInitialized));
}

#[test]
fn init_through_the_module_succeeds_once() {
    let allocator = CamelAllocator::empty();
    assert_eq!(camel::init(&allocator), Ok(()));
    assert_eq!(camel::global::init(&allocator), Err(AlreadyInitialized));
    assert_eq!(allocator.init(), Err(AlreadyInitialized));
    assert_eq!(camel::memory_pressure(&allocator).available, 67108864);
}

#[test]
fn claim_marks_and_refuses_the_second_time() {
    let mut flag = false;
    assert_eq!(claim(&mut flag), Ok(()));
    assert!(flag);
    assert_eq!(claim(&mut flag), Err(AlreadyInitialized));
    assert!(flag);
}

#[test]
fn initialized_allocator_maps_chunks() {
    let mapped = Cell::new(0usize);
    let space = |_size: usize| {
        let n = mapped.get();
        mapped.set(n + 1);
        BASE + n * STRIDE
    };
    let allocator = CamelAllocator::empty();
    assert_eq!(allocator.init(), Ok(()));
    assert_eq!(mapped.get(), 0);
    assert_eq!(
        allocator.allocate(layout(100, 8), &space),
        Ok(Allocation { arena: 0, region: Region::Mapped { addr: BASE + 8, offset: 8, len: 100 } })
    );
    assert_eq!(mapped.get(), 1);
    assert_eq!(allocator.memory_allocated(), 2097152);
    assert_eq!(allocator.memory_used(), 108);
    assert_eq!(
        allocator.allocate(layout(2097152 - 9, 8), &space),
        Ok(Allocation {
            arena: 0,
            region: Region::Mapped { addr: BASE + STRIDE + 8, offset: 2097152 + 8, len: 2097152 - 9 }
        })
    );
    assert_eq!(mapped.get(), 2);
    assert_eq!(allocator.memory_allocated(), 2 * 2097152);
}

#[test]
fn request_of_two_mebibytes_is_more_than_a_chunk_gives() {
    let mapped = Cell::new(0usize);
    let space = |_size: usize| {
        let n = mapped.get();
        mapped.set(n + 1);
        BASE + n * STRIDE
    };
    let allocator = CamelAllocator::empty();
    assert_eq!(allocator.init(), Ok(()));
    assert_eq!(allocator.allocate(layout(2097152, 8), &space), Err(AllocError));
    // both arenas mapped all their chunks for it
    assert_eq!(mapped.get(), 32);
    assert_eq!(allocator.memory_allocated(), 67108864);
    assert_eq!(allocator.memory_allocated(), allocator.max_size());
}

#[test]
fn second_arena_serves_when_the_first_is_exhausted() {
    let mapped = Cell::new(0usize);
    let space = |_size: usize| {
        let n = mapped.get();
        mapped.set(n + 1);
        BASE + n * STRIDE
    };
    let allocator = CamelAllocator::empty();
    assert_eq!(allocator.init(), Ok(()));
    let big = 1500000;
    for i in 0..32usize {
        let result = allocator.allocate(layout(big, 1), &space).unwrap();
        assert_eq!(result.arena, i / 16);
        assert_eq!(
            result.region,
            Region::Mapped { addr: BASE + i * STRIDE + 1, offset: (i % 16) * 2097152 + 1, len: big }
        );
    }
    assert_eq!(allocator.allocate(layout(big, 1), &space), Err(AllocError));
    assert_eq!(mapped.get(), 32);
    // every request that the first arena turned down moved its head by one byte
    assert_eq!(
        allocator.allocate(layout(10, 1), &space),
        Ok(Allocation {
            arena: 0,
            region: Region::Mapped { addr: BASE + 15 * STRIDE + 1500020, offset: 32957300, len: 10 }
        })
    );
}

#[test]
fn attempt_reports_what_the_arena_did() {
    let space = |_size: usize| BASE;
    let allocator = CamelAllocator::empty();
    assert_eq!(
        allocator.attempt(1, true, layout(4000, 4), &space),
        Attempt::Served(Region::Scratch { offset: 0, len: 4000 })
    );
    assert_eq!(allocator.attempt(1, true, layout(4000, 4), &space), Attempt::Failed);
    assert_eq!(allocator.attempt(1, false, layout(4000, 4), &space), Attempt::Failed);
    assert_eq!(
        allocator.attempt(0, false, layout(4000, 4), &space),
        Attempt::Served(Region::Scratch { offset: 0, len: 4000 })
    );
}

#[test]
fn deallocate_counts_the_bytes() {
    let allocator = CamelAllocator::empty();
    let sizes = [100usize, 0, 7, 4096, 2097152, 1];
    let mut sum = 0usize;
    for size in sizes {
        allocator.deallocate(layout(size, 1));
        sum += size;
        assert_eq!(allocator.leaked(), sum);
    }
    assert_eq!(allocator.leaked(), 2101356);
    // nothing comes back to the arenas
    assert_eq!(allocator.memory_used(), 0);
    assert_eq!(allocator.memory_allocated(), 0);
}

#[test]
fn memory_pressure_sums_the_arenas() {
    let mapped = Cell::new(0usize);
    let space = |_size: usize| {
        let n = mapped.get();
        mapped.set(n + 1);
        BASE + n * STRIDE
    };
    let allocator = CamelAllocator::empty();
    assert_eq!(
        memory_pressure(&allocator),
        MemoryPressure { used: 0, size: 0, available: 67108864, leaked: 0 }
    );
    assert_eq!(allocator.init(), Ok(()));
    assert!(allocator.allocate(layout(1000, 8), &space).is_ok());
    assert_eq!(allocator.attempt(1, false, layout(24, 8), &space),
        Attempt::Served(Region::Mapped { addr: BASE + STRIDE + 8, offset: 8, len: 24 }));
    allocator.deallocate(layout(1000, 8));
    assert_eq!(
        memory_pressure(&allocator),
        MemoryPressure { used: 1008 + 32, size: 2 * 2097152, available: 67108864, leaked: 1000 }
    );
}

#[test]
fn interleaved_callers_get_regions_of_their_own() {
    let next = AtomicUsize::new(0);
    let space = |_size: usize| BASE + next.fetch_add(1, Ordering::SeqCst) * STRIDE;
    let allocator = CamelAllocator::empty();
    assert_eq!(allocator.init(), Ok(()));
    let callers = 4usize;
    let rounds = 200usize;
    let mut seeds: Vec<usize> = (0..callers).map(|t| 1000 + t).collect();
    let mut all: Vec<(usize, usize, usize)> = Vec::new();
    let mut requested = 0usize;
    for _ in 0..rounds {
        for t in 0..callers {
            seeds[t] = seeds[t].wrapping_mul(6364136223846793005).wrapping_add(1442695040888963407);
            let size = 1 + (seeds[t] >> 33) % 1000;
            let allocation = allocator.allocate(layout(size, 1), &space).unwrap();
            requested += size + 1;
            match allocation.region {
                Region::Mapped { offset, len, .. } => {
                    assert_eq!(len, size);
                    all.push((allocation.arena, offset, len));
                }
                Region::Scratch { .. } => panic!("a chunk should have served"),
            }
        }
    }
    assert_eq!(all.len(), callers * rounds);
    all.sort();
    for pair in all.windows(2) {
        let (arena_a, offset_a, len_a) = pair[0];
        let (arena_b, offset_b, _) = pair[1];
        assert!(arena_a != arena_b || offset_a + len_a <= offset_b);
    }
    // with an alignment of 1, every request moves a head by its size and one byte
    assert_eq!(allocator.memory_used(), requested);
    assert_eq!(allocator.leaked(), 0);
}

#[test]
fn plan_asks_free_arenas_first_and_then_all() {
    assert_eq!(plan(0), Step::Ask { arena: 0, unless_held: true });
    assert_eq!(plan(1), Step::Ask { arena: 1, unless_held: true });
    assert_eq!(plan(2), Step::Ask { arena: 0, unless_held: false });
    assert_eq!(plan(3), Step::Ask { arena: 1, unless_held: false });
    assert_eq!(plan(4), Step::GiveUp);
    assert_eq!(plan(usize::MAX), Step::GiveUp);
}

#[test]
fn next_step_gives_what_was_served_and_goes_on_otherwise() {
    let region = Region::Scratch { offset: 16, len: 8 };
    assert_eq!(next_step(0, Attempt::Skipped), Step::Ask { arena: 1, unless_held: true });
    assert_eq!(next_step(0, Attempt::Failed), Step::Ask { arena: 1, unless_held: true });
    assert_eq!(next_step(1, Attempt::Skipped), Step::Ask { arena: 0, unless_held: false });
    assert_eq!(next_step(2, Attempt::Failed), Step::Ask { arena: 1, unless_held: false });
    assert_eq!(next_step(3, Attempt::Failed), Step::GiveUp);
    assert_eq!(next_step(0, Attempt::Served(region)), Step::Give(Allocation { arena: 0, region }));
    assert_eq!(next_step(1, Attempt::Served(region)), Step::Give(Allocation { arena: 1, region }));
    assert_eq!(next_step(2, Attempt::Served(region)), Step::Give(Allocation { arena: 0, region }));
    assert_eq!(next_step(3, Attempt::Served(region)), Step::Give(Allocation { arena: 1, region }));
}

#[test]
fn total_adds_as_the_machine_does() {
    assert_eq!(total(&[0, 0]), 0);
    assert_eq!(total(&[3, 4]), 7);
    assert_eq!(total(&[2097152, 4194304]), 6291456);
    assert_eq!(total(&[usize::MAX, 2]), 1);
    assert_eq!(total(&[usize::MAX, usize::MAX]), usize::MAX - 1);
}
