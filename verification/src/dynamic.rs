//! The runtime-shaped facade: chunk size and alignment supplied to the
//! constructor.

use vstd::prelude::*;
use crate::chunk::memory::shape_ok;
use crate::generic::{GenericBump, ValueRef};
use crate::inner::{Record, Region};
use crate::layout::Layout;
use crate::storable::Storable;

verus! {

/// A bump allocation engine whose chunk shape is a runtime value
/// supplied to [`DynamicBump::new`].  Apart from that, it behaves
/// exactly like [`crate::Bump`].
pub struct DynamicBump {
    pub engine: GenericBump<Layout>,
}

impl DynamicBump {
    /// The engine invariant.
    pub open spec fn wf(&self) -> bool {
        self.engine.wf()
    }

    /// The chunk shape supplied at construction.
    pub open spec fn shape(&self) -> Layout {
        self.engine.shape()
    }

    /// The usable storage size of every chunk.
    pub open spec fn chunk_size(&self) -> int {
        self.engine.chunk_size()
    }

    /// The alignment of every chunk's storage.
    pub open spec fn chunk_align(&self) -> int {
        self.engine.chunk_align()
    }

    /// The storages of all chunks acquired so far, oldest first.
    pub open spec fn chunks(&self) -> Seq<Seq<u8>> {
        self.engine.chunks()
    }

    /// The history of regions handed out, oldest first.
    pub open spec fn regions(&self) -> Seq<Record> {
        self.engine.regions()
    }

    /// Whether the current chunk can satisfy a request of `size` bytes.
    pub open spec fn fits_current(&self, size: int) -> bool {
        self.engine.fits_current(size)
    }

    /// Whether a request with layout `layout` will be granted.
    pub open spec fn grants(&self, layout: Layout) -> bool {
        self.engine.grants(layout)
    }

    /// Whether `r` refers to a stored value of type `T`.
    pub open spec fn valid_ref<T: Storable>(&self, r: ValueRef<T>) -> bool {
        self.engine.valid_ref(r)
    }

    /// The value `r` refers to.
    pub open spec fn value_of<T: Storable>(&self, r: ValueRef<T>) -> T {
        self.engine.value_of(r)
    }

    /// Constructs an empty engine for chunk shape `layout`; the first
    /// chunk is acquired lazily.
    pub fn new(layout: Layout) -> (r: Self)
        requires
            shape_ok(layout),
        ensures
            r.wf(),
            r.shape() == layout,
            r.chunks().len() == 0,
            r.regions().len() == 0,
    {
        DynamicBump { engine: GenericBump::new(layout) }
    }

    /// The chunk shape passed to [`Self::new`].
    pub fn layout(&self) -> (l: Layout)
        ensures
            l == self.shape(),
    {
        self.engine.layout()
    }

    /// Tries to allocate a region matching `layout`.  Returns the
    /// region, or `None` exactly when the request cannot be granted; a
    /// refused request leaves the engine untouched.
    pub fn allocate(&mut self, layout: Layout) -> (r: Option<Region>)
        requires
            old(self).wf(),
            layout.wf(),
        ensures
            final(self).wf(),
            final(self).shape() == old(self).shape(),
            r is Some <==> old(self).grants(layout),
            r is None ==> final(self).engine.unchanged_from(&old(self).engine),
            r matches Some(reg) ==> final(self).engine.inner.granted(
                &old(self).engine.inner,
                layout,
                reg,
                Option::None,
            ),
    {
        self.engine.allocate(layout)
    }

    /// Stores `value` in a fresh region.  The caller must know the
    /// request will be granted; `try_alloc_value` is the fallible
    /// equivalent.
    pub fn alloc_value<T: Storable>(&mut self, value: T) -> (h: ValueRef<T>)
        requires
            old(self).wf(),
            old(self).grants(T::spec_layout()),
        ensures
            final(self).wf(),
            final(self).shape() == old(self).shape(),
            final(self).valid_ref(h),
            final(self).value_of(h) == value,
            final(self).engine.inner.granted_value(
                &old(self).engine.inner,
                T::spec_layout().size as int,
                T::spec_layout().align as int,
                h.region(),
                T::spec_to_bytes(value),
            ),
            old(self).regions().is_prefix_of(final(self).regions()),
            final(self).regions().len() == old(self).regions().len() + 1,
    {
        self.engine.alloc_value(value)
    }

    /// Tries to store `value` in a fresh region.  On success the
    /// reference reads back `value` and stays valid until teardown; on
    /// failure the value is handed back and the engine is untouched.
    pub fn try_alloc_value<T: Storable>(&mut self, value: T) -> (r: Result<ValueRef<T>, T>)
        requires
            old(self).wf(),
        ensures
            final(self).wf(),
            final(self).shape() == old(self).shape(),
            r is Ok <==> old(self).grants(T::spec_layout()),
            r matches Err(v) ==> v == value && final(self).engine.unchanged_from(
                &old(self).engine,
            ),
            r matches Ok(h) ==> ({
                &&& final(self).valid_ref(h)
                &&& final(self).value_of(h) == value
                &&& final(self).engine.inner.granted_value(
                    &old(self).engine.inner,
                    T::spec_layout().size as int,
                    T::spec_layout().align as int,
                    h.region(),
                    T::spec_to_bytes(value),
                )
                &&& old(self).regions().is_prefix_of(final(self).regions())
                &&& final(self).regions().len() == old(self).regions().len() + 1
            }),
    {
        self.engine.try_alloc_value(value)
    }

    /// Whether this engine can allocate memory matching `layout`: true
    /// exactly when the layout's size fits in one chunk and its
    /// alignment does not exceed the chunk alignment.
    pub fn can_allocate(&self, layout: Layout) -> (b: bool)
        ensures
            b == (layout.size as int <= self.chunk_size() && layout.align as int
                <= self.chunk_align()),
    {
        self.engine.can_allocate(layout)
    }

    /// Reads back the value `r` refers to.
    pub fn read_value<T: Storable>(&self, r: &ValueRef<T>) -> (v: T)
        requires
            self.wf(),
            self.valid_ref(*r),
        ensures
            v == self.value_of(*r),
    {
        self.engine.read_value(r)
    }

    /// The number of chunks acquired from the provider so far.
    pub fn chunk_count(&self) -> (n: usize)
        requires
            self.wf(),
        ensures
            n as int == self.chunks().len(),
    {
        self.engine.chunk_count()
    }

    /// Tears the engine down, releasing every chunk in the chain;
    /// returns how many backing blocks were released — exactly as many
    /// as were acquired.
    pub fn teardown(self) -> (n: usize)
        requires
            self.wf(),
        ensures
            n as int == self.chunks().len(),
    {
        self.engine.teardown()
    }
}

} // verus!
