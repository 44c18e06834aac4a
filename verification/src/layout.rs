//! What a caller asks for: a number of bytes and an alignment.

use vstd::prelude::*;

verus! {

/// `n` is a power of two.
pub open spec fn is_power_of_two(n: usize) -> bool {
    n > 0 && n & ((n - 1) as usize) == 0
}

/// A size and an alignment that may stand together in a request: the
/// alignment is a power of two, and the size, rounded up to a multiple of the
/// alignment, fits in `isize`.
pub open spec fn valid_layout(size: usize, align: usize) -> bool {
    is_power_of_two(align) && size <= isize::MAX - (align - 1)
}

/// A request: `size` bytes at a multiple of `align`.
#[derive(Clone, Copy, Debug)]
pub struct Layout {
    size: usize,
    align: usize,
}

impl Layout {
    #[verifier::type_invariant]
    spec fn inv(self) -> bool {
        valid_layout(self.size, self.align)
    }

    /// The number of bytes asked for.
    pub closed spec fn spec_size(self) -> usize {
        self.size
    }

    /// The alignment asked for.
    pub closed spec fn spec_align(self) -> usize {
        self.align
    }

    /// The request of `size` bytes aligned to `align`, where the two may
    /// stand together.
    pub fn from_size_align(size: usize, align: usize) -> (layout: Option<Layout>)
        ensures
            layout is Some <==> valid_layout(size, align),
            layout matches Some(l) ==> l.spec_size() == size && l.spec_align() == align,
    {
        if align == 0 {
            return None;
        }
        if align & (align - 1) != 0 {
            return None;
        }
        proof {
            lemma_power_of_two_below_isize_max(align);
        }
        if size > (isize::MAX as usize) - (align - 1) {
            return None;
        }
        Some(Layout { size, align })
    }

    /// The number of bytes asked for.
    pub fn size(&self) -> (size: usize)
        ensures
            size == self.spec_size(),
            valid_layout(self.spec_size(), self.spec_align()),
    {
        proof {
            use_type_invariant(self);
        }
        self.size
    }

    /// The alignment asked for, a power of two.
    pub fn align(&self) -> (align: usize)
        ensures
            align == self.spec_align(),
            valid_layout(self.spec_size(), self.spec_align()),
    {
        proof {
            use_type_invariant(self);
        }
        self.align
    }
}

/// A power of two in `usize` is at most `isize::MAX + 1`.
pub proof fn lemma_power_of_two_below_isize_max(align: usize)
    requires
        is_power_of_two(align),
    ensures
        align - 1 <= isize::MAX,
{
    let a: u64 = align as u64;
    assert(a & ((a - 1) as u64) == 0);
    assert(a > 0 && a & ((a - 1) as u64) == 0 ==> a - 1 <= 0x7fff_ffff_ffff_ffff)
        by (bit_vector);
    assert(0 < a <= 0xffff_ffff && a & ((a - 1) as u64) == 0 ==> a - 1 <= 0x7fff_ffff)
        by (bit_vector);
}

} // verus!
