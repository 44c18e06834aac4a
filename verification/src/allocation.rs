//! Size classes: the reservable sizes that requests are rounded to.

use vstd::prelude::*;
use vstd::arithmetic::power2::{pow2, lemma2_to64, lemma_pow2_strictly_increases, lemma_pow2_unfold};
use vstd::bits::lemma_usize_shl_is_mul;

verus! {

/// Granularity of the `Quantum` class, in bytes.
pub const QUANTUM: usize = 16;

/// Page size, in bytes: the border between the small and the large category.
pub const PAGE_SZ: usize = 4096;

/// Largest request served by the `Quantum` class.
pub const QUANTUM_LIMIT: usize = 512;

/// Smallest reservable size of the `Kilo` class.
pub const KILO: usize = 1024;

/// Largest request served by the `Kilo` class.
pub const KILO_LIMIT: usize = 1048576;

/// Granularity of the `Mega` class, in bytes.
pub const MEGA: usize = 2097152;

/// A size class together with its parameter.
#[derive(Clone, Copy, Debug, PartialEq, Eq, Structural)]
pub enum AllocationSize {
    /// `Tiny(p)` reserves `2^p` bytes.
    Tiny(usize),
    /// `Quantum(m)` reserves `16 * m` bytes.
    Quantum(usize),
    /// `Kilo(p)` reserves `1024 * 2^p` bytes.
    Kilo(usize),
    /// `Mega(m)` reserves `2097152 * m` bytes.
    Mega(usize),
}

/// The coarse category of a size class.
#[derive(Clone, Copy, Debug, PartialEq, Eq, Structural)]
pub enum SizeCategory {
    Small,
    Large,
    Huge,
}

/// The least exponent `e` with `2^e >= n`.
pub open spec fn ceil_log2(n: nat) -> nat
    decreases n,
{
    if n <= 1 {
        0
    } else {
        1 + ceil_log2(((n + 1) / 2) as nat)
    }
}

/// `ceil_log2(n)` is an exponent whose power reaches `n`, and the one below
/// it does not.
pub proof fn lemma_ceil_log2_bounds(n: nat)
    ensures
        pow2(ceil_log2(n)) >= n,
        ceil_log2(n) > 0 ==> pow2((ceil_log2(n) - 1) as nat) < n,
    decreases n,
{
    lemma2_to64();
    if n > 1 {
        let half: nat = ((n + 1) / 2) as nat;
        lemma_ceil_log2_bounds(half);
        lemma_pow2_unfold(ceil_log2(n));
        if ceil_log2(half) > 0 {
            lemma_pow2_unfold(ceil_log2(half));
        }
    }
}

/// An exponent with the two bounds of `lemma_ceil_log2_bounds` is `ceil_log2(n)`.
pub proof fn lemma_ceil_log2_unique(n: nat, e: nat)
    requires
        pow2(e) >= n,
        e > 0 ==> pow2((e - 1) as nat) < n,
    ensures
        e == ceil_log2(n),
{
    lemma_ceil_log2_bounds(n);
    let c = ceil_log2(n);
    if e < c {
        if e < c - 1 {
            lemma_pow2_strictly_increases(e, (c - 1) as nat);
        }
    } else if c < e {
        if c < e - 1 {
            lemma_pow2_strictly_increases(c, (e - 1) as nat);
        }
    }
}

/// The class that a request of `n` bytes falls in.
pub open spec fn class_of(n: nat) -> AllocationSize {
    if n <= 8 {
        AllocationSize::Tiny(
            if ceil_log2(n) < 1 {
                1
            } else {
                ceil_log2(n) as usize
            },
        )
    } else if n <= 512 {
        AllocationSize::Quantum((n / 16) as usize)
    } else if n <= 1048576 {
        AllocationSize::Kilo((ceil_log2(n) - 10) as usize)
    } else {
        AllocationSize::Mega((n / 2097152) as usize)
    }
}

/// The least exponent `e` with `2^e >= n`, for `n` up to `2^20`.
fn exponent_for(n: usize) -> (e: usize)
    requires
        n <= KILO_LIMIT,
    ensures
        e == ceil_log2(n as nat),
        e <= 20,
{
    let mut e: usize = 0;
    let mut power: usize = 1;
    proof {
        lemma2_to64();
    }
    while power < n
        invariant
            n <= KILO_LIMIT,
            e <= 20,
            power == pow2(e as nat),
            e > 0 ==> pow2((e - 1) as nat) < n,
        decreases 21 - e,
    {
        proof {
            lemma2_to64();
            lemma_pow2_unfold((e + 1) as nat);
        }
        power = power * 2;
        e = e + 1;
    }
    proof {
        lemma_ceil_log2_unique(n as nat, e as nat);
    }
    e
}

impl AllocationSize {
    /// The number of bytes that the class reserves.
    pub open spec fn spec_size(self) -> nat {
        match self {
            AllocationSize::Tiny(p) => pow2(p as nat),
            AllocationSize::Quantum(m) => (16 * m) as nat,
            AllocationSize::Kilo(p) => 1024 * pow2(p as nat),
            AllocationSize::Mega(m) => (2097152 * m) as nat,
        }
    }

    /// The category of the class: `Mega` is huge, `Kilo` from a page on is
    /// large, everything else is small.
    pub open spec fn spec_category(self) -> SizeCategory {
        match self {
            AllocationSize::Tiny(_) => SizeCategory::Small,
            AllocationSize::Quantum(_) => SizeCategory::Small,
            AllocationSize::Kilo(_) => if self.spec_size() < 4096 {
                SizeCategory::Small
            } else {
                SizeCategory::Large
            },
            AllocationSize::Mega(_) => SizeCategory::Huge,
        }
    }

    /// Classifies a request of `size` bytes.
    pub fn size_of(size: usize) -> (class: AllocationSize)
        ensures
            class == class_of(size as nat),
            class.spec_size() <= usize::MAX,
    {
        proof {
            lemma2_to64();
        }
        if size <= QUANTUM / 2 {
            let e: usize = exponent_for(size);
            proof {
                lemma_ceil_log2_bounds(size as nat);
                if e > 3 {
                    lemma_pow2_strictly_increases(3, (e - 1) as nat);
                }
            }
            AllocationSize::Tiny(if e < 1 { 1 } else { e })
        } else if size <= QUANTUM_LIMIT {
            AllocationSize::Quantum(size / QUANTUM)
        } else if size <= KILO_LIMIT {
            let e: usize = exponent_for(size);
            proof {
                lemma_ceil_log2_bounds(size as nat);
                if e < 10 {
                    lemma_pow2_strictly_increases(e as nat, 10);
                }
                lemma_kilo_size(size as nat);
            }
            AllocationSize::Kilo(e - 10)
        } else {
            AllocationSize::Mega(size / MEGA)
        }
    }

    /// The number of bytes that the class reserves.
    pub fn size(&self) -> (bytes: usize)
        requires
            self.spec_size() <= usize::MAX,
        ensures
            bytes == self.spec_size(),
    {
        match self {
            AllocationSize::Tiny(p) => {
                proof {
                    lemma_exponent_fits(*p as nat, 1);
                    lemma_usize_shl_is_mul(1, *p);
                }
                1usize << *p
            },
            AllocationSize::Quantum(m) => *m * QUANTUM,
            AllocationSize::Kilo(p) => {
                proof {
                    lemma_exponent_fits(*p as nat, 1024);
                    lemma_usize_shl_is_mul(1024, *p);
                }
                1024usize << *p
            },
            AllocationSize::Mega(m) => 2 * 1024 * 1024 * *m,
        }
    }

    /// The category of the class.
    pub fn category(&self) -> (category: SizeCategory)
        ensures
            category == self.spec_category(),
    {
        match self {
            AllocationSize::Tiny(_) => SizeCategory::Small,
            AllocationSize::Quantum(_) => SizeCategory::Small,
            AllocationSize::Kilo(p) => {
                proof {
                    lemma2_to64();
                    if *p >= 2 {
                        if *p > 2 {
                            lemma_pow2_strictly_increases(2, *p as nat);
                        }
                    }
                }
                if *p < 2 {
                    SizeCategory::Small
                } else {
                    SizeCategory::Large
                }
            },
            AllocationSize::Mega(_) => SizeCategory::Huge,
        }
    }
}

/// A request of at most 8 bytes falls in the class `Tiny` and reserves the
/// least of 2, 4 and 8 bytes that holds it.
pub proof fn lemma_tiny_class(n: usize)
    requires
        n <= 8,
    ensures
        class_of(n as nat) matches AllocationSize::Tiny(p) && 1 <= p <= 3,
        class_of(n as nat).spec_size() == pow2(class_of(n as nat)->Tiny_0 as nat),
        n <= class_of(n as nat).spec_size(),
        2 <= class_of(n as nat).spec_size() <= 8,
        class_of(n as nat).spec_size() == 2 || class_of(n as nat).spec_size() < 2 * n,
{
    lemma2_to64();
    let e = ceil_log2(n as nat);
    lemma_ceil_log2_bounds(n as nat);
    if e > 3 {
        if e > 4 {
            lemma_pow2_strictly_increases(3, (e - 1) as nat);
        }
    }
    if e >= 1 {
        lemma_pow2_unfold(e);
    }
}

/// A request of more than 8 and at most 512 bytes falls in the class
/// `Quantum` and reserves the greatest multiple of 16 bytes that does not
/// exceed it: as much as was asked for where that is a multiple of 16, and
/// less otherwise.
pub proof fn lemma_quantum_class(n: usize)
    requires
        8 < n <= 512,
    ensures
        class_of(n as nat) matches AllocationSize::Quantum(m) && m <= 32,
        class_of(n as nat).spec_size() % 16 == 0,
        n - 16 < class_of(n as nat).spec_size() <= n,
        class_of(n as nat).spec_size() >= n <==> n % 16 == 0,
{
}

/// A request of more than 512 bytes and at most one mebibyte falls in the
/// class `Kilo` and reserves the least power of two that holds it, which
/// is 1024 bytes times a power of two.
pub proof fn lemma_kilo_class(n: usize)
    requires
        512 < n <= 1048576,
    ensures
        class_of(n as nat) matches AllocationSize::Kilo(p) && p <= 10,
        class_of(n as nat).spec_size() == 1024 * pow2(class_of(n as nat)->Kilo_0 as nat),
        class_of(n as nat).spec_size() % 1024 == 0,
        n <= class_of(n as nat).spec_size() < 2 * n,
{
    lemma2_to64();
    lemma_kilo_size(n as nat);
    lemma_ceil_log2_bounds(n as nat);
    lemma_pow2_unfold(ceil_log2(n as nat));
    vstd::arithmetic::div_mod::lemma_mod_multiples_basic(
        pow2((ceil_log2(n as nat) - 10) as nat) as int,
        1024,
    );
}

/// A request of more than one mebibyte falls in the class `Mega` and
/// reserves the greatest multiple of 2 MiB that does not exceed it: as much
/// as was asked for where that is a multiple of 2 MiB, and less otherwise.
pub proof fn lemma_mega_class(n: usize)
    requires
        n > 1048576,
    ensures
        class_of(n as nat) is Mega,
        class_of(n as nat).spec_size() % 2097152 == 0,
        n - 2097152 < class_of(n as nat).spec_size() <= n,
        class_of(n as nat).spec_size() >= n <==> n % 2097152 == 0,
{
}

/// A class reserves at least what was asked for, but for the requests that
/// `Quantum` and `Mega` round down.
pub proof fn lemma_size_covers_request(n: usize)
    requires
        8 < n <= 512 ==> n % 16 == 0,
        n > 1048576 ==> n % 2097152 == 0,
    ensures
        class_of(n as nat).spec_size() >= n,
{
    if n <= 8 {
        lemma_tiny_class(n);
    } else if n <= 512 {
        lemma_quantum_class(n);
    } else if n <= 1048576 {
        lemma_kilo_class(n);
    } else {
        lemma_mega_class(n);
    }
}

/// A power of two whose multiple fits in `usize` has an exponent below the
/// width of `usize`.
proof fn lemma_exponent_fits(e: nat, factor: nat)
    requires
        factor >= 1,
        factor * pow2(e) <= usize::MAX,
    ensures
        e < usize::BITS,
{
    lemma2_to64();
    if e >= usize::BITS {
        if e > usize::BITS {
            lemma_pow2_strictly_increases(usize::BITS as nat, e);
        }
        assert(pow2(usize::BITS as nat) > usize::MAX);
        assert(factor * pow2(e) >= pow2(e)) by (nonlinear_arith)
            requires
                factor >= 1,
        ;
    }
}

/// The `Kilo` class of a request between 513 bytes and one mebibyte.
proof fn lemma_kilo_size(n: nat)
    requires
        512 < n <= 1048576,
    ensures
        10 <= ceil_log2(n) <= 20,
        1024 * pow2((ceil_log2(n) - 10) as nat) == pow2(ceil_log2(n)),
{
    lemma2_to64();
    lemma_ceil_log2_bounds(n);
    let e = ceil_log2(n);
    if e < 10 {
        lemma_pow2_strictly_increases(e, 10);
    }
    if e > 20 {
        if e > 21 {
            lemma_pow2_strictly_increases(20, (e - 1) as nat);
        }
    }
    vstd::arithmetic::power2::lemma_pow2_adds(10, (e - 10) as nat);
}

} // verus!
