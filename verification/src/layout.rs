//! Size/alignment pairs describing allocation requests and chunk shapes.

use vstd::prelude::*;

verus! {

/// A byte span with an alignment requirement: the unit of allocation
/// requests and of chunk-shape configuration.  A layout is well formed
/// when its alignment is a power of two.
#[derive(Clone, Copy, PartialEq, Eq, Structural, Debug)]
pub struct Layout {
    pub size: usize,
    pub align: usize,
}

/// Whether `n` is a power of two.
pub open spec fn is_pow2(n: int) -> bool
    decreases n,
{
    if n <= 0 {
        false
    } else if n == 1 {
        true
    } else {
        n % 2 == 0 && is_pow2(n / 2)
    }
}

/// `x` rounded down to the nearest multiple of `a`.
pub open spec fn round_down(x: int, a: int) -> int {
    x - x % a
}

impl Layout {
    /// A layout is well formed when its alignment is a power of two
    /// (and hence at least one).
    pub open spec fn wf(&self) -> bool {
        is_pow2(self.align as int)
    }

    /// Builds a layout from a size and an alignment, rejecting
    /// alignments that are not powers of two.
    pub fn from_size_align(size: usize, align: usize) -> (r: Option<Layout>)
        ensures
            r is Some <==> is_pow2(align as int),
            r matches Some(l) ==> l == (Layout { size, align }) && l.wf(),
    {
        if check_pow2(align) {
            Some(Layout { size, align })
        } else {
            None
        }
    }
}

/// A power of two is at least one.
pub proof fn lemma_pow2_pos(n: int)
    requires
        is_pow2(n),
    ensures
        n >= 1,
{
}

/// Decides whether `n` is a power of two by stripping factors of two.
pub fn check_pow2(n: usize) -> (r: bool)
    ensures
        r == is_pow2(n as int),
{
    if n == 0 {
        return false;
    }
    let mut m: usize = n;
    while m % 2 == 0 && m > 1
        invariant
            1 <= m <= n,
            is_pow2(n as int) == is_pow2(m as int),
        decreases m,
    {
        m = m / 2;
    }
    m == 1
}

} // verus!
