//! Chunks: fixed-size backing blocks linked into a newest-first chain.

use vstd::prelude::*;
use crate::layout::Layout;

pub mod memory;

use memory::{shape_ok, spec_block_layout, ChunkMemory, PREV_SIZE};

verus! {

/// One owned backing block plus a link to the chunk acquired
/// immediately before it.  The links form a singly linked chain,
/// newest first; the chain's tail has no link.
pub struct Chunk {
    pub memory: ChunkMemory,
    pub prev: Option<Box<Chunk>>,
}

impl View for Chunk {
    type V = Seq<u8>;

    /// A chunk is viewed as the bytes of its usable storage.
    open spec fn view(&self) -> Seq<u8> {
        self.memory@
    }
}

/// The storages of every chunk reachable from `p`, oldest first.
pub open spec fn chain_of(p: Option<Box<Chunk>>) -> Seq<Seq<u8>>
    decreases p,
{
    match p {
        Option::None => Seq::empty(),
        Option::Some(c) => c.chain(),
    }
}

impl Chunk {
    /// The storages of this chunk and of every chunk linked behind it,
    /// oldest first; this chunk's own storage comes last.
    pub open spec fn chain(&self) -> Seq<Seq<u8>>
        decreases self,
    {
        chain_of(self.prev).push(self@)
    }

    /// Acquires a block for a fresh chunk and records `prev`, the chunk
    /// acquired before it, in the new chunk's link slot.
    pub fn new(shape: Layout, prev: Option<Box<Chunk>>) -> (r: Option<Chunk>)
        requires
            shape_ok(shape),
        ensures
            r is Some,
            r matches Some(c) ==> {
                &&& c@ == Seq::new(shape.size as nat, |i: int| 0u8)
                &&& c.chain() == chain_of(prev).push(c@)
            },
    {
        match ChunkMemory::new(shape) {
            Option::Some(memory) => Option::Some(Chunk { memory, prev }),
            Option::None => Option::None,
        }
    }

    /// The layout of the memory seen by the chunk's user: the usable
    /// storage, at the combined (storage and link slot) alignment.
    pub fn layout(shape: Layout) -> (r: Layout)
        ensures
            r.size == shape.size,
            r.align == memory::spec_storage_align(shape),
            shape.wf() ==> r.wf(),
    {
        proof {
            if shape.wf() {
                memory::lemma_storage_align_pow2(shape);
            }
        }
        Layout { size: shape.size, align: ChunkMemory::storage_align(shape) }
    }

    /// The layout of the entire physical block acquired for one chunk.
    pub fn full_layout(shape: Layout) -> (r: Layout)
        requires
            shape_ok(shape),
        ensures
            r == spec_block_layout(shape),
            r.size == shape.size + PREV_SIZE,
            r.wf(),
    {
        ChunkMemory::layout(shape)
    }

    /// The alignment of the usable storage for chunk shape `shape`:
    /// at least the shape's own alignment, and at least the link
    /// slot's.
    pub fn align(shape: Layout) -> (a: usize)
        ensures
            a == memory::spec_storage_align(shape),
    {
        ChunkMemory::storage_align(shape)
    }

    /// Borrows the usable storage.  It may still hold nothing but the
    /// zero fill it came with.
    pub fn storage(&self) -> (s: &Vec<u8>)
        ensures
            s@ == self@,
    {
        &self.memory.storage
    }

    /// The number of usable storage bytes.
    pub fn size(&self) -> (n: usize)
        ensures
            n == self@.len(),
    {
        self.memory.storage_size()
    }

    /// Reads one byte of the usable storage.
    pub fn read(&self, i: usize) -> (b: u8)
        requires
            i < self@.len(),
        ensures
            b == self@[i as int],
    {
        self.memory.read(i)
    }

    /// Overwrites one byte of the usable storage.  The chain behind this
    /// chunk is untouched.
    pub fn write(&mut self, i: usize, b: u8)
        requires
            i < old(self)@.len(),
        ensures
            final(self)@ == old(self)@.update(i as int, b),
            final(self).prev == old(self).prev,
            final(self).chain() == old(self).chain().update(
                old(self).chain().len() - 1,
                old(self)@.update(i as int, b),
            ),
    {
        self.memory.write(i, b);
        proof {
            assert(self.chain() =~= old(self).chain().update(
                old(self).chain().len() - 1,
                old(self)@.update(i as int, b),
            ));
        }
    }

    /// Writes `bytes` into the usable storage beginning at `start`.
    /// Bytes outside the written span, and the chain behind this chunk,
    /// are untouched.
    pub fn write_at(&mut self, start: usize, bytes: &Vec<u8>)
        requires
            start + bytes@.len() <= old(self)@.len(),
        ensures
            final(self)@.len() == old(self)@.len(),
            forall|k: int|
                0 <= k < final(self)@.len() ==> #[trigger] final(self)@[k] == (if start <= k
                    < start + bytes@.len() {
                    bytes@[k - start]
                } else {
                    old(self)@[k]
                }),
            final(self)@.subrange(start as int, start + bytes@.len()) == bytes@,
            final(self).prev == old(self).prev,
            final(self).chain() == old(self).chain().update(
                old(self).chain().len() - 1,
                final(self)@,
            ),
    {
        let total: usize = self.memory.storage_size();
        let mut k: usize = 0;
        while k < bytes.len()
            invariant
                k <= bytes@.len(),
                start + bytes@.len() <= self@.len(),
                self@.len() == total,
                self@.len() == old(self)@.len(),
                self.prev == old(self).prev,
                forall|m: int|
                    0 <= m < self@.len() ==> #[trigger] self@[m] == (if start <= m < start + k {
                        bytes@[m - start]
                    } else {
                        old(self)@[m]
                    }),
            decreases bytes@.len() - k,
        {
            self.memory.write(start + k, bytes[k]);
            k = k + 1;
        }
        proof {
            assert(self@.subrange(start as int, start + bytes@.len()) =~= bytes@);
            assert(self.chain() =~= old(self).chain().update(
                old(self).chain().len() - 1,
                self@,
            ));
        }
    }

    /// Detaches and returns the link to the previously acquired chunk,
    /// leaving this chunk's link slot empty.
    pub fn take_prev(&mut self) -> (p: Option<Box<Chunk>>)
        ensures
            p == old(self).prev,
            final(self).prev is None,
            final(self)@ == old(self)@,
    {
        self.prev.take()
    }

    /// Consumes the chunk, releasing its block, and returns the link
    /// to the previously acquired chunk.
    pub fn into_prev(self) -> (p: Option<Box<Chunk>>)
        ensures
            chain_of(p) == self.chain().drop_last(),
    {
        proof {
            assert(chain_of(self.prev) =~= self.chain().drop_last());
        }
        self.prev
    }
}

} // verus!
