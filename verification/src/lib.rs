//! A bump-pointer memory allocator: size classes, fixed-size chunks, arenas
//! that grow one chunk at a time, and an allocator that spreads its callers
//! over two arenas, each behind its own lock.

use vstd::prelude::*;
use core::sync::atomic::{AtomicUsize, Ordering};
use spin::mutex::{Mutex, MutexGuard};
use spin::relax::Spin;
use crate::arena::{Arena, region_for, ARENA_CAPACITY, CHUNK_SIZE};
use crate::chunk::{Region, maps};
use crate::layout::Layout;

pub mod allocation;
pub mod arena;
pub mod chunk;
pub mod global;
pub mod layout;

pub use crate::global::{init, memory_pressure, MemoryPressure};

verus! {

/// The number of arenas of an allocator.
pub const ARENAS: usize = 2;

/// The most bytes that the chunks of all arenas can cover.
pub const MAX_SIZE: usize = 67108864;

/// `spin::mutex::Mutex`, a lock that is waited for in a loop.
#[verifier::external_type_specification]
#[verifier::external_body]
#[verifier::reject_recursive_types(T)]
#[verifier::reject_recursive_types(R)]
pub struct ExMutex<T: ?Sized, R>(Mutex<T, R>);

/// `spin::mutex::MutexGuard`, which holds a lock until it is dropped.
#[verifier::external_type_specification]
#[verifier::external_body]
#[verifier::reject_recursive_types(T)]
#[verifier::reject_recursive_types(R)]
pub struct ExMutexGuard<'a, T: 'a + ?Sized, R>(MutexGuard<'a, T, R>);

/// `spin::relax::Spin`, the way of waiting that a lock is made with.
#[verifier::external_type_specification]
#[verifier::external_body]
pub struct ExSpin(Spin);

/// `spin::mutex::Mutex::new`: a lock around `value`. Nothing is claimed of
/// it: what a lock holds is seen only while it is held.
#[verifier::external_body]
fn mutex_new<T>(value: T) -> (mutex: Mutex<T, Spin>) {
    Mutex::new(value)
}

/// `spin::mutex::Mutex::is_locked`: whether someone holds the lock at this
/// moment. The answer may be stale when it arrives, so nothing is claimed
/// of it.
#[verifier::external_body]
fn mutex_is_locked<T>(mutex: &Mutex<T, Spin>) -> (held: bool) {
    mutex.is_locked()
}

/// `spin::mutex::Mutex::lock`: waits for the lock and takes it. Nothing is
/// claimed of what the lock holds.
#[verifier::external_body]
fn mutex_lock<'a, T>(mutex: &'a Mutex<T, Spin>) -> (guard: MutexGuard<'a, T, Spin>) {
    mutex.lock()
}

/// `DerefMut::deref_mut` of `spin::mutex::MutexGuard`: what the held lock
/// holds. Nothing is claimed of it.
#[verifier::external_body]
fn guard_mut<'a, 'b, T>(guard: &'a mut MutexGuard<'b, T, Spin>) -> (value: &'a mut T) {
    &mut **guard
}

/// A region together with the number of the arena that gave it.
#[derive(Clone, Copy, Debug, PartialEq, Eq, Structural)]
pub struct Allocation {
    pub arena: usize,
    pub region: Region,
}

/// No arena could serve the request.
#[derive(Clone, Copy, Debug, PartialEq, Eq, Structural)]
pub struct AllocError;

/// The allocator was bound to a memory space before.
#[derive(Clone, Copy, Debug, PartialEq, Eq, Structural)]
pub struct AlreadyInitialized;

/// What an allocator says of one request to one arena.
#[derive(Clone, Copy, Debug, PartialEq, Eq, Structural)]
pub enum Attempt {
    /// The arena was in use, and was left alone.
    Skipped,
    /// The arena could not serve the request.
    Failed,
    /// The arena gave this region.
    Served(Region),
}

/// Marks an allocator as bound to a memory space, unless it is so already.
pub fn claim(initialized: &mut bool) -> (claimed: Result<(), AlreadyInitialized>)
    ensures
        *final(initialized),
        claimed is Ok <==> !*old(initialized),
{
    if *initialized {
        return Err(AlreadyInitialized);
    }
    *initialized = true;
    Ok(())
}

/// What an allocator does next with a request.
#[derive(Clone, Copy, Debug, PartialEq, Eq, Structural)]
pub enum Step {
    /// It asks this arena, and leaves it alone where `unless_held` is set
    /// and the arena is in use.
    Ask { arena: usize, unless_held: bool },
    /// It gives this allocation to the caller.
    Give(Allocation),
    /// It tells the caller that no arena could serve.
    GiveUp,
}

/// What an allocator does in turn number `turn` of a request, where no
/// arena has served it so far. In the first turns every arena is asked once,
/// in order, unless it is held; in the turns after them every arena is asked
/// once more, in order, held or not; then the allocator gives up.
pub open spec fn spec_plan(turn: int) -> Step {
    if 0 <= turn < ARENAS {
        Step::Ask { arena: turn as usize, unless_held: true }
    } else if ARENAS <= turn < 2 * ARENAS {
        Step::Ask { arena: (turn - ARENAS) as usize, unless_held: false }
    } else {
        Step::GiveUp
    }
}

/// What an allocator does after the arena that it asked in turn number
/// `turn` has answered with `attempt`: it gives what the arena served, and
/// goes on to the next turn otherwise.
pub open spec fn spec_next_step(turn: int, attempt: Attempt) -> Step {
    match attempt {
        Attempt::Served(region) => Step::Give(
            Allocation {
                arena: if turn < ARENAS {
                    turn as usize
                } else {
                    (turn - ARENAS) as usize
                },
                region,
            },
        ),
        _ => spec_plan(turn + 1),
    }
}

/// What an allocator does in turn number `turn` of a request that no arena
/// has served so far.
pub fn plan(turn: usize) -> (step: Step)
    ensures
        step == spec_plan(turn as int),
{
    if turn < ARENAS {
        Step::Ask { arena: turn, unless_held: true }
    } else if turn < 2 * ARENAS {
        Step::Ask { arena: turn - ARENAS, unless_held: false }
    } else {
        Step::GiveUp
    }
}

/// What an allocator does after the arena that it asked in turn number
/// `turn` has answered with `attempt`.
pub fn next_step(turn: usize, attempt: Attempt) -> (step: Step)
    requires
        turn < 2 * ARENAS,
    ensures
        step == spec_next_step(turn as int, attempt),
{
    match attempt {
        Attempt::Served(region) => {
            let arena: usize = if turn < ARENAS {
                turn
            } else {
                turn - ARENAS
            };
            Step::Give(Allocation { arena, region })
        },
        _ => plan(turn + 1),
    }
}

/// The sum of `parts`, as machine addition gives it: what goes beyond
/// `usize` is cut off.
pub open spec fn wrapping_sum(parts: Seq<usize>) -> usize
    decreases parts.len(),
{
    if parts.len() == 0 {
        0
    } else {
        wrapping_sum(parts.drop_last()).wrapping_add(parts.last())
    }
}

/// The sum of what was read from each arena, as machine addition gives it.
pub fn total(parts: &[usize; 2]) -> (sum: usize)
    ensures
        sum == wrapping_sum(parts@),
        parts[0] + parts[1] <= usize::MAX ==> sum == parts[0] + parts[1],
{
    let mut sum: usize = 0;
    let mut i: usize = 0;
    while i < ARENAS
        invariant
            i <= ARENAS,
            sum == wrapping_sum(parts@.take(i as int)),
            i == 1 ==> sum == parts[0],
            i == 2 ==> sum == parts[0].wrapping_add(parts[1]),
        decreases ARENAS - i,
    {
        proof {
            assert(parts@.take(i + 1).drop_last() == parts@.take(i as int));
            if i == 0 {
                assert(parts@.take(0).len() == 0);
            }
        }
        sum = sum.wrapping_add(parts[i]);
        i = i + 1;
    }
    proof {
        assert(parts@.take(2) == parts@);
    }
    sum
}

/// Two arenas, each behind its own lock, and a count of the bytes that were
/// given back and are lost.
pub struct CamelAllocator {
    arenas: [Mutex<Arena, Spin>; 2],
    space: Mutex<bool, Spin>,
    leaked: AtomicUsize,
}

impl CamelAllocator {
    /// An allocator that is bound to no memory space: until `init` it serves
    /// requests from the scratch buffers of its arenas only.
    pub fn empty() -> (allocator: CamelAllocator) {
        CamelAllocator {
            arenas: [mutex_new(Arena::new()), mutex_new(Arena::new())],
            space: mutex_new(false),
            leaked: AtomicUsize::new(0),
        }
    }

    /// Binds the allocator and each of its arenas to a memory space. This
    /// can be done once: a second call changes nothing and fails.
    pub fn init(&self) -> (bound: Result<(), AlreadyInitialized>) {
        let mut guard = mutex_lock(&self.space);
        let initialized: &mut bool = guard_mut(&mut guard);
        match claim(initialized) {
            Err(e) => Err(e),
            Ok(()) => {
                let mut i: usize = 0;
                while i < ARENAS
                    invariant
                        i <= ARENAS,
                    decreases ARENAS - i,
                {
                    let mut arena_guard = mutex_lock(&self.arenas[i]);
                    let arena: &mut Arena = guard_mut(&mut arena_guard);
                    arena.use_space();
                    i = i + 1;
                }
                Ok(())
            },
        }
    }

    /// The sum of the heads of the arenas, as machine addition gives it.
    /// Each head is read under the lock of its arena, one after the other.
    pub fn memory_used(&self) -> (used: usize) {
        let mut heads: [usize; 2] = [0, 0];
        let mut i: usize = 0;
        while i < ARENAS
            invariant
                i <= ARENAS,
            decreases ARENAS - i,
        {
            let mut guard = mutex_lock(&self.arenas[i]);
            let arena: &mut Arena = guard_mut(&mut guard);
            heads[i] = arena.used_size();
            i = i + 1;
        }
        total(&heads)
    }

    /// The number of bytes that the chunks of the arenas cover. Each arena
    /// is read under its lock, one after the other.
    pub fn memory_allocated(&self) -> (allocated: usize)
        ensures
            allocated <= MAX_SIZE,
            allocated % CHUNK_SIZE == 0,
    {
        let mut sizes: [usize; 2] = [0, 0];
        let mut i: usize = 0;
        while i < ARENAS
            invariant
                i <= ARENAS,
                forall|j: int|
                    0 <= j < 2 ==> (#[trigger] sizes[j]) <= ARENA_CAPACITY && sizes[j] % CHUNK_SIZE
                        == 0,
            decreases ARENAS - i,
        {
            let mut guard = mutex_lock(&self.arenas[i]);
            let arena: &mut Arena = guard_mut(&mut guard);
            sizes[i] = arena.size();
            i = i + 1;
        }
        total(&sizes)
    }

    /// The most bytes that the chunks of the arenas can cover.
    pub fn max_size(&self) -> (max: usize)
        ensures
            max == MAX_SIZE,
    {
        let mut max: usize = 0;
        let mut i: usize = 0;
        while i < ARENAS
            invariant
                i <= ARENAS,
                max == i * ARENA_CAPACITY,
            decreases ARENAS - i,
        {
            let mut guard = mutex_lock(&self.arenas[i]);
            let arena: &mut Arena = guard_mut(&mut guard);
            max = max + arena.max_size();
            i = i + 1;
        }
        max
    }

    /// The number of bytes given back so far, as the counter holds it.
    pub fn leaked(&self) -> (leaked: usize) {
        self.leaked.load(Ordering::Relaxed)
    }

    /// Asks arena number `index` to serve `layout`. Where `unless_held` is
    /// set and the arena is in use at this moment, it is left alone.
    pub fn attempt<F: Fn(usize) -> usize>(
        &self,
        index: usize,
        unless_held: bool,
        layout: Layout,
        space: &F,
    ) -> (attempt: Attempt)
        requires
            index < ARENAS,
            maps(space, CHUNK_SIZE),
        ensures
            attempt is Skipped ==> unless_held,
            attempt matches Attempt::Served(region) ==> region_for(
                region,
                layout.spec_size(),
                layout.spec_align(),
            ),
    {
        if unless_held && mutex_is_locked(&self.arenas[index]) {
            return Attempt::Skipped;
        }
        let mut guard = mutex_lock(&self.arenas[index]);
        let arena: &mut Arena = guard_mut(&mut guard);
        match arena.allocate(layout, space) {
            Some(region) => Attempt::Served(region),
            None => Attempt::Failed,
        }
    }

    /// Serves a request from the first arena that can. The arenas are asked
    /// in order, at first only those that nobody holds, then each of them,
    /// waiting for its lock.
    pub fn allocate<F: Fn(usize) -> usize>(&self, layout: Layout, space: &F) -> (result: Result<
        Allocation,
        AllocError,
    >)
        requires
            maps(space, CHUNK_SIZE),
        ensures
            result matches Ok(allocation) ==> {
                &&& allocation.arena < ARENAS
                &&& region_for(allocation.region, layout.spec_size(), layout.spec_align())
            },
    {
        let mut turn: usize = 0;
        let mut step: Step = plan(0);
        loop
            invariant
                maps(space, CHUNK_SIZE),
                turn <= 2 * ARENAS,
                step is Ask ==> step == spec_plan(turn as int),
                step matches Step::Give(allocation) ==> {
                    &&& allocation.arena < ARENAS
                    &&& region_for(allocation.region, layout.spec_size(), layout.spec_align())
                },
            decreases 2 * ARENAS + 1 - turn,
        {
            match step {
                Step::Ask { arena, unless_held } => {
                    let attempt: Attempt = self.attempt(arena, unless_held, layout, space);
                    step = next_step(turn, attempt);
                    turn = turn + 1;
                },
                Step::Give(allocation) => {
                    return Ok(allocation);
                },
                Step::GiveUp => {
                    return Err(AllocError);
                },
            }
        }
    }

    /// Takes back what was given for `layout`. The bytes are not used again:
    /// they are added to the count of leaked bytes.
    pub fn deallocate(&self, layout: Layout) {
        let _leaked: usize = self.leaked.fetch_add(layout.size(), Ordering::Relaxed);
    }
}

} // verus!
