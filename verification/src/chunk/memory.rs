//! The physical backing block behind a chunk, and the arithmetic that
//! packs a link slot alongside the usable storage.

use vstd::prelude::*;
use crate::layout::{is_pow2, Layout};

verus! {

/// Footprint, in bytes, of the link slot that records the previously
/// acquired chunk.
pub const PREV_SIZE: usize = 8;

/// Alignment requirement of the link slot.
pub const PREV_MIN_ALIGN: usize = 8;

/// Whether `shape` can serve as a chunk shape: a well-formed alignment,
/// at least one byte of usable storage (a zero-sized chunk shape is a
/// configuration error), and a full block small enough that its size
/// still fits in a machine word.
pub open spec fn shape_ok(shape: Layout) -> bool {
    &&& shape.wf()
    &&& 1 <= shape.size
    &&& shape.size + PREV_SIZE <= usize::MAX
}

/// One physical block obtained from the memory provider.  It holds the
/// chunk's usable storage; the link slot is accounted for by the layout
/// arithmetic below and carried as a separate field of the chunk.
pub struct ChunkMemory {
    pub storage: Vec<u8>,
}

impl View for ChunkMemory {
    type V = Seq<u8>;

    open spec fn view(&self) -> Seq<u8> {
        self.storage@
    }
}

impl ChunkMemory {
    /// Acquires a fresh, zero-filled block whose usable storage matches
    /// `shape`.  This is the single point at which the engine asks the
    /// memory provider for a new block.
    pub fn new(shape: Layout) -> (r: Option<ChunkMemory>)
        requires
            shape_ok(shape),
        ensures
            r matches Some(m) ==> m@ == Seq::new(shape.size as nat, |i: int| 0u8),
            r is Some,
    {
        let mut storage: Vec<u8> = Vec::new();
        let mut i: usize = 0;
        while i < shape.size
            invariant
                i <= shape.size,
                storage@ == Seq::new(i as nat, |k: int| 0u8),
            decreases shape.size - i,
        {
            storage.push(0u8);
            proof {
                assert(storage@ =~= Seq::new((i + 1) as nat, |k: int| 0u8));
            }
            i = i + 1;
        }
        Some(ChunkMemory { storage })
    }

    /// The number of usable storage bytes in this block.
    pub fn storage_size(&self) -> (n: usize)
        ensures
            n == self@.len(),
    {
        self.storage.len()
    }

    /// Reads one storage byte.
    pub fn read(&self, i: usize) -> (b: u8)
        requires
            i < self@.len(),
        ensures
            b == self@[i as int],
    {
        self.storage[i]
    }

    /// Overwrites one storage byte.
    pub fn write(&mut self, i: usize, b: u8)
        requires
            i < old(self)@.len(),
        ensures
            final(self)@ == old(self)@.update(i as int, b),
    {
        self.storage[i] = b;
    }

    /// The alignment of the usable storage: the block is aligned to the
    /// larger of the shape's own alignment and the link slot's.
    pub fn storage_align(shape: Layout) -> (a: usize)
        ensures
            a == spec_storage_align(shape),
    {
        if shape.align >= PREV_MIN_ALIGN {
            shape.align
        } else {
            PREV_MIN_ALIGN
        }
    }

    /// The layout of the entire physical block: the link slot's footprint
    /// plus the usable storage, at the combined alignment.
    pub fn layout(shape: Layout) -> (r: Layout)
        requires
            shape_ok(shape),
        ensures
            r == spec_block_layout(shape),
            r.wf(),
            r.size >= 1,
    {
        proof {
            lemma_storage_align_pow2(shape);
        }
        Layout { size: shape.size + PREV_SIZE, align: Self::storage_align(shape) }
    }

    /// The offset of the link slot within the block: the slot leads when
    /// its alignment requirement is at least the storage's, and trails
    /// otherwise.
    pub fn prev_offset(shape: Layout) -> (off: usize)
        ensures
            off == spec_prev_offset(shape),
    {
        if PREV_MIN_ALIGN >= shape.align {
            0
        } else {
            shape.size
        }
    }

    /// The offset of the usable storage within the block: whichever end
    /// the link slot does not occupy.
    pub fn storage_offset(shape: Layout) -> (off: usize)
        ensures
            off == spec_storage_offset(shape),
    {
        if Self::prev_offset(shape) == 0 {
            PREV_SIZE
        } else {
            0
        }
    }
}

/// The combined alignment of a block for chunk shape `shape`.
pub open spec fn spec_storage_align(shape: Layout) -> int {
    if shape.align >= PREV_MIN_ALIGN {
        shape.align as int
    } else {
        PREV_MIN_ALIGN as int
    }
}

/// The layout of a full block for chunk shape `shape`.
pub open spec fn spec_block_layout(shape: Layout) -> Layout {
    Layout { size: (shape.size + PREV_SIZE) as usize, align: spec_storage_align(shape) as usize }
}

/// The link slot's offset within a block for chunk shape `shape`.
pub open spec fn spec_prev_offset(shape: Layout) -> int {
    if PREV_MIN_ALIGN >= shape.align {
        0
    } else {
        shape.size as int
    }
}

/// The usable storage's offset within a block for chunk shape `shape`.
pub open spec fn spec_storage_offset(shape: Layout) -> int {
    if spec_prev_offset(shape) == 0 {
        PREV_SIZE as int
    } else {
        0
    }
}

/// The combined alignment is itself a power of two.
pub proof fn lemma_storage_align_pow2(shape: Layout)
    requires
        shape.wf(),
    ensures
        is_pow2(spec_storage_align(shape)),
{
    reveal_with_fuel(is_pow2, 5);
}

/// The packed block layout is sound: the link slot and the usable
/// storage lie within the block and do not overlap, and the storage
/// offset respects the shape's alignment.
pub proof fn lemma_block_layout_sound(shape: Layout)
    requires
        shape_ok(shape),
    ensures
        0 <= spec_prev_offset(shape),
        spec_prev_offset(shape) + PREV_SIZE <= spec_block_layout(shape).size,
        0 <= spec_storage_offset(shape),
        spec_storage_offset(shape) + shape.size <= spec_block_layout(shape).size,
        spec_prev_offset(shape) + PREV_SIZE <= spec_storage_offset(shape)
            || spec_storage_offset(shape) + shape.size <= spec_prev_offset(shape),
        spec_storage_offset(shape) % shape.align as int == 0,
{
    reveal_with_fuel(is_pow2, 5);
    if spec_prev_offset(shape) == 0 {
        // The link slot leads, so the shape's alignment is at most the
        // slot's; every power of two up to eight divides eight.
        assert(spec_storage_offset(shape) == PREV_SIZE as int);
        assert(shape.align == 1 || shape.align == 2 || shape.align == 4 || shape.align == 8);
    }
}

} // verus!
