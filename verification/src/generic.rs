//! The engine behind every facade, generic over how its chunk shape is
//! supplied.

use core::marker::PhantomData;
use vstd::prelude::*;
use crate::chunk::memory::shape_ok;
use crate::inner::{lemma_value_persists, BumpInner, Record, Region};
use crate::layout::Layout;
use crate::storable::Storable;

verus! {

/// A source of the chunk shape: a copyable value that can be asked for
/// its size/alignment pair, without side effects.  The compile-time and
/// the runtime facade differ only in their implementation of this trait.
pub trait IntoLayout: Sized + Copy {
    /// The chunk shape this source denotes.
    spec fn spec_layout(&self) -> Layout;

    /// Produces the chunk shape.
    fn into_layout(&self) -> (l: Layout)
        ensures
            l == self.spec_layout(),
    ;
}

impl IntoLayout for Layout {
    /// A runtime-supplied chunk shape denotes itself.
    open spec fn spec_layout(&self) -> Layout {
        *self
    }

    fn into_layout(&self) -> (l: Layout) {
        *self
    }
}

/// A reference to a value stored by `alloc_value`: the chunk it lives
/// in, the byte at which its stored form begins, and the length of
/// the region carved for it (which may exceed the stored form by the
/// slack that alignment rounding folded in).  The value stays in
/// place, unaliased by any later allocation, until the engine is torn
/// down.
pub struct ValueRef<T: Storable> {
    pub chunk: usize,
    pub start: usize,
    pub len: usize,
    pub marker: PhantomData<T>,
}

impl<T: Storable> ValueRef<T> {
    /// The region carved for the stored value.
    pub open spec fn region(&self) -> Region {
        Region { chunk: self.chunk, start: self.start, len: self.len }
    }
}

/// An allocation engine generic over its chunk-shape source.  Both
/// facades — the compile-time-shaped and the runtime-shaped one —
/// delegate every operation here.
pub struct GenericBump<L: IntoLayout> {
    pub inner: BumpInner<L>,
}

impl<L: IntoLayout> GenericBump<L> {
    /// The engine invariant.
    pub open spec fn wf(&self) -> bool {
        self.inner.wf()
    }

    /// The configured chunk shape.
    pub open spec fn shape(&self) -> Layout {
        self.inner.shape()
    }

    /// The usable storage size of every chunk.
    pub open spec fn chunk_size(&self) -> int {
        self.inner.chunk_size()
    }

    /// The alignment of every chunk's storage.
    pub open spec fn chunk_align(&self) -> int {
        self.inner.chunk_align()
    }

    /// The storages of all chunks acquired so far, oldest first.
    pub open spec fn chunks(&self) -> Seq<Seq<u8>> {
        self.inner.chunks()
    }

    /// The history of regions handed out, oldest first.
    pub open spec fn regions(&self) -> Seq<Record> {
        self.inner.regions()
    }

    /// Whether the provider can still supply a chunk.
    pub open spec fn can_acquire(&self) -> bool {
        self.inner.can_acquire()
    }

    /// Whether the current chunk can satisfy a request of `size` bytes.
    pub open spec fn fits_current(&self, size: int) -> bool {
        self.inner.fits_current(size)
    }

    /// Whether a request with layout `layout` will be granted.
    pub open spec fn grants(&self, layout: Layout) -> bool {
        self.inner.grants(layout)
    }

    /// Whether nothing observable about the engine has changed.
    pub open spec fn unchanged_from(&self, o: &Self) -> bool {
        self.inner.unchanged_from(&o.inner)
    }

    /// Whether `r` refers to a stored value of type `T`.
    pub open spec fn valid_ref<T: Storable>(&self, r: ValueRef<T>) -> bool {
        &&& self.inner.has_value_at(r.chunk as int, r.start as int)
        &&& self.inner.bytes_at(r.chunk as int, r.start as int).len() == T::spec_layout().size
    }

    /// The value `r` refers to.
    pub open spec fn value_of<T: Storable>(&self, r: ValueRef<T>) -> T {
        T::spec_from_bytes(self.inner.bytes_at(r.chunk as int, r.start as int))
    }

    /// Constructs an empty engine; the first chunk is acquired lazily,
    /// on the first allocation.
    pub fn new(layout: L) -> (r: Self)
        requires
            shape_ok(layout.spec_layout()),
        ensures
            r.wf(),
            r.shape() == layout.spec_layout(),
            r.chunks().len() == 0,
            r.regions().len() == 0,
    {
        GenericBump { inner: BumpInner::new(layout) }
    }

    /// The configured chunk shape.
    pub fn layout(&self) -> (l: Layout)
        ensures
            l == self.shape(),
    {
        self.inner.layout()
    }

    /// The number of chunks acquired from the provider so far.
    pub fn chunk_count(&self) -> (n: usize)
        requires
            self.wf(),
        ensures
            n as int == self.chunks().len(),
    {
        self.inner.chunk_count()
    }

    /// Tries to allocate a region matching `layout`.  Returns the
    /// region, or `None` exactly when the request cannot be granted; a
    /// refused request leaves the engine untouched.
    pub fn allocate(&mut self, layout: Layout) -> (r: Option<Region>)
        requires
            old(self).wf(),
            layout.wf(),
        ensures
            final(self).wf(),
            final(self).shape() == old(self).shape(),
            r is Some <==> old(self).grants(layout),
            r is None ==> final(self).unchanged_from(old(self)),
            r matches Some(reg) ==> final(self).inner.granted(
                &old(self).inner,
                layout,
                reg,
                Option::None,
            ),
    {
        self.inner.allocate(layout)
    }

    /// Whether this engine can allocate memory matching `layout`: true
    /// exactly when the layout's size fits in one chunk and its
    /// alignment does not exceed the chunk alignment.
    pub fn can_allocate(&self, layout: Layout) -> (b: bool)
        ensures
            b == (layout.size as int <= self.chunk_size() && layout.align as int
                <= self.chunk_align()),
    {
        let cl = crate::chunk::Chunk::layout(self.inner.layout());
        layout.size <= cl.size && layout.align <= cl.align
    }

    /// Tries to store `value` in a fresh region matching its stored
    /// form's layout.  On success the reference reads back `value` and
    /// stays valid until teardown; on failure the value is handed
    /// back and the engine is untouched.
    pub fn try_alloc_value<T: Storable>(&mut self, value: T) -> (r: Result<ValueRef<T>, T>)
        requires
            old(self).wf(),
        ensures
            final(self).wf(),
            final(self).shape() == old(self).shape(),
            r is Ok <==> old(self).grants(T::spec_layout()),
            r matches Err(v) ==> v == value && final(self).unchanged_from(old(self)),
            r matches Ok(h) ==> ({
                &&& final(self).valid_ref(h)
                &&& final(self).value_of(h) == value
                &&& final(self).inner.granted_value(
                    &old(self).inner,
                    T::spec_layout().size as int,
                    T::spec_layout().align as int,
                    h.region(),
                    T::spec_to_bytes(value),
                )
                &&& old(self).regions().is_prefix_of(final(self).regions())
                &&& final(self).regions().len() == old(self).regions().len() + 1
            }),
    {
        proof {
            T::lemma_layout();
            T::lemma_to_bytes_len(value);
        }
        let bytes = value.to_bytes();
        let lay = T::layout();
        match self.inner.alloc_bytes(&bytes, lay.align) {
            Option::None => {
                proof {
                    assert((Layout { size: bytes@.len() as usize, align: lay.align })
                        == T::spec_layout());
                }
                Result::Err(value)
            },
            Option::Some(reg) => {
                proof {
                    T::lemma_round_trip(value);
                    assert((Layout { size: bytes@.len() as usize, align: lay.align })
                        == T::spec_layout());
                    assert(old(self).regions() =~= self.regions().subrange(
                        0,
                        old(self).regions().len() as int,
                    ));
                }
                Result::Ok(
                    ValueRef { chunk: reg.chunk, start: reg.start, len: reg.len, marker: PhantomData },
                )
            },
        }
    }

    /// Stores `value` in a fresh region.  The caller must know the
    /// request will be granted; `try_alloc_value` is the fallible
    /// equivalent.
    pub fn alloc_value<T: Storable>(&mut self, value: T) -> (h: ValueRef<T>)
        requires
            old(self).wf(),
            old(self).grants(T::spec_layout()),
        ensures
            final(self).wf(),
            final(self).shape() == old(self).shape(),
            final(self).valid_ref(h),
            final(self).value_of(h) == value,
            final(self).inner.granted_value(
                &old(self).inner,
                T::spec_layout().size as int,
                T::spec_layout().align as int,
                h.region(),
                T::spec_to_bytes(value),
            ),
            old(self).regions().is_prefix_of(final(self).regions()),
            final(self).regions().len() == old(self).regions().len() + 1,
    {
        match self.try_alloc_value(value) {
            Result::Ok(h) => h,
            Result::Err(_) => vstd::pervasive::unreached(),
        }
    }

    /// Reads back the value `r` refers to.
    pub fn read_value<T: Storable>(&self, r: &ValueRef<T>) -> (v: T)
        requires
            self.wf(),
            self.valid_ref(*r),
        ensures
            v == self.value_of(*r),
    {
        proof {
            T::lemma_layout();
            crate::inner::lemma_stored_bytes(&self.inner, r.chunk as int, r.start as int);
        }
        let lay = T::layout();
        let b = self.inner.read_bytes(r.chunk, r.start, lay.size);
        T::from_bytes(&b)
    }

    /// Tears the engine down, releasing every chunk in the chain;
    /// returns how many backing blocks were released — exactly as many
    /// as were acquired.
    pub fn teardown(self) -> (n: usize)
        requires
            self.wf(),
        ensures
            n as int == self.chunks().len(),
    {
        self.inner.teardown()
    }
}

/// Stored values persist: a reference valid in one engine state stays
/// valid, with the same value, in any later state whose history
/// extends it.
pub proof fn lemma_value_ref_persists<L: IntoLayout, T: Storable>(
    e1: &GenericBump<L>,
    e2: &GenericBump<L>,
    r: ValueRef<T>,
)
    requires
        e1.wf(),
        e2.wf(),
        e1.regions().is_prefix_of(e2.regions()),
        e1.valid_ref(r),
    ensures
        e2.valid_ref(r),
        e2.value_of(r) == e1.value_of(r),
{
    lemma_value_persists(&e1.inner, &e2.inner, r.chunk as int, r.start as int);
}

} // verus!
