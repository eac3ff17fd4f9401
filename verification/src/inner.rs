//! The allocation engine: a bump cursor over a chain of fixed-size
//! chunks.
//!
//! The engine keeps the current chunk (if any) and a cursor `offset`
//! counting how many bytes at the front of the current chunk's storage
//! are still unused.  Regions are carved downward from the cursor; when
//! the current chunk cannot satisfy a request that the chunk shape
//! could, a fresh chunk is acquired and the old one is linked behind
//! it.  A ghost history records every region ever handed out, which
//! lets the engine state — and prove — that live regions never overlap
//! and that stored bytes persist until teardown.

use vstd::arithmetic::div_mod::{
    lemma_fundamental_div_mod, lemma_mod_bound, lemma_mod_multiples_basic,
};
use vstd::prelude::*;
use crate::chunk::memory::{shape_ok, PREV_MIN_ALIGN};
use crate::chunk::Chunk;
use crate::generic::IntoLayout;
use crate::layout::{round_down, Layout};

verus! {

/// A region handed out by the engine: `len` bytes of chunk number
/// `chunk` (oldest chunk first), beginning `start` bytes into its
/// storage.  `len` may exceed the requested size: rounding the start
/// down to the requested alignment folds the slack into the caller's
/// region.
#[derive(Clone, Copy, PartialEq, Eq, Structural, Debug)]
pub struct Region {
    pub chunk: usize,
    pub start: usize,
    pub len: usize,
}

/// The ghost record of one region handed out by the engine: its span,
/// and the bytes written into it at allocation time, if any.
pub ghost struct Record {
    pub chunk: int,
    pub start: int,
    pub end: int,
    pub data: Option<Seq<u8>>,
}

/// Whether two recorded regions occupy disjoint memory: different
/// chunks, or non-overlapping spans of the same chunk.
pub open spec fn region_disjoint(a: Record, b: Record) -> bool {
    a.chunk != b.chunk || a.end <= b.start || b.end <= a.start
}

/// Whether record `r` carries stored bytes and lies at byte `start` of
/// chunk number `chunk`.
pub open spec fn record_has_data_at(r: Record, chunk: int, start: int) -> bool {
    &&& r.chunk == chunk
    &&& r.start == start
    &&& r.data is Some
}

/// The storages of the chunks still reachable from `t`, counted for
/// teardown.
pub open spec fn remaining_chunks(t: Option<Chunk>) -> int {
    match t {
        Option::None => 0,
        Option::Some(c) => c.chain().len() as int,
    }
}

/// The engine state: the current chunk (if any), the bump cursor, the
/// chunk-shape source, the number of chunks acquired so far, and the
/// ghost history of every region handed out.
pub struct BumpInner<L: IntoLayout> {
    pub chunk: Option<Chunk>,
    pub offset: usize,
    pub layout: L,
    pub acquired: usize,
    pub history: Ghost<Seq<Record>>,
}

impl<L: IntoLayout> BumpInner<L> {
    /// The configured chunk shape.
    pub open spec fn shape(&self) -> Layout {
        self.layout.spec_layout()
    }

    /// The usable storage size of every chunk.
    pub open spec fn chunk_size(&self) -> int {
        self.shape().size as int
    }

    /// The alignment of every chunk's storage: the larger of the
    /// shape's alignment and the link slot's.
    pub open spec fn chunk_align(&self) -> int {
        if self.shape().align >= PREV_MIN_ALIGN {
            self.shape().align as int
        } else {
            PREV_MIN_ALIGN as int
        }
    }

    /// The storages of all chunks acquired so far, oldest first; the
    /// current chunk is last.
    pub open spec fn chunks(&self) -> Seq<Seq<u8>> {
        match self.chunk {
            Option::None => Seq::empty(),
            Option::Some(c) => c.chain(),
        }
    }

    /// The history of regions handed out, oldest first.
    pub open spec fn regions(&self) -> Seq<Record> {
        self.history@
    }

    /// Well-formedness of one history record: it lies within an
    /// acquired chunk, records on the current chunk lie at or above the
    /// cursor, and recorded bytes match the chunk's storage.
    pub open spec fn record_ok(&self, r: Record) -> bool {
        &&& 0 <= r.chunk < self.chunks().len()
        &&& 0 <= r.start <= r.end <= self.chunk_size()
        &&& (r.chunk == self.chunks().len() - 1 ==> self.offset as int <= r.start)
        &&& (r.data matches Some(d) ==> {
            &&& 1 <= d.len() <= r.end - r.start
            &&& self.chunks()[r.chunk].subrange(r.start, r.start + d.len()) == d
        })
    }

    /// The engine invariant.
    pub open spec fn wf(&self) -> bool {
        &&& shape_ok(self.shape())
        &&& (self.chunk is Some ==> self.offset as int <= self.chunk_size())
        &&& (self.chunk is None ==> self.offset == 0)
        &&& self.acquired as int == self.chunks().len()
        &&& (forall|i: int|
            0 <= i < self.chunks().len() ==> (#[trigger] self.chunks()[i]).len()
                == self.chunk_size())
        &&& (forall|i: int|
            0 <= i < self.regions().len() ==> self.record_ok(#[trigger] self.regions()[i]))
        &&& (forall|i: int, j: int|
            0 <= i < self.regions().len() && 0 <= j < self.regions().len() && i != j
                ==> region_disjoint(
                #[trigger] self.regions()[i],
                #[trigger] self.regions()[j],
            ))
    }

    /// Whether the current chunk can satisfy a request of `size` bytes.
    pub open spec fn fits_current(&self, size: int) -> bool {
        self.chunk is Some && size <= self.offset
    }

    /// Whether the memory provider can still supply a chunk: in this
    /// model it is exhausted only once the count of acquired chunks no
    /// longer fits in a machine word.
    pub open spec fn can_acquire(&self) -> bool {
        self.chunks().len() < usize::MAX
    }

    /// Whether a request with layout `layout` will be granted: its
    /// alignment must not exceed the chunk alignment, and either the
    /// current chunk has room or the shape allows a fresh chunk that
    /// does.
    pub open spec fn grants(&self, layout: Layout) -> bool {
        &&& layout.align as int <= self.chunk_align()
        &&& (self.fits_current(layout.size as int) || (layout.size as int <= self.chunk_size()
            && self.can_acquire()))
    }

    /// How the engine changes when a request is granted: the chunk
    /// chain grows by one chunk unless the current chunk had room, the
    /// returned region is carved at the cursor of the (possibly fresh)
    /// current chunk, and the region is appended to the history with
    /// `data` recorded in it.
    pub open spec fn granted(
        &self,
        o: &Self,
        layout: Layout,
        reg: Region,
        data: Option<Seq<u8>>,
    ) -> bool {
        let from_current = o.fits_current(layout.size as int);
        let end = if from_current {
            o.offset as int
        } else {
            o.chunk_size()
        };
        &&& (from_current ==> self.chunks() == o.chunks())
        &&& (!from_current ==> self.chunks().len() == o.chunks().len() + 1)
        &&& self.chunks().subrange(0, o.chunks().len() as int) == o.chunks()
        &&& reg.chunk as int == self.chunks().len() - 1
        &&& reg.start == self.offset
        &&& reg.start as int % layout.align as int == 0
        &&& layout.size <= reg.len
        &&& (reg.len as int) < layout.size + layout.align
        &&& reg.start + reg.len == end
        &&& self.regions() == o.regions().push(
            Record {
                chunk: reg.chunk as int,
                start: reg.start as int,
                end,
                data,
            },
        )
    }

    /// Whether nothing observable about the engine has changed.
    pub open spec fn unchanged_from(&self, o: &Self) -> bool {
        &&& self.chunks() == o.chunks()
        &&& self.offset == o.offset
        &&& self.regions() == o.regions()
    }

    /// Constructs an empty engine for the given chunk-shape source.  No
    /// chunk is acquired yet; the first allocation acquires one lazily.
    pub fn new(layout: L) -> (r: Self)
        requires
            shape_ok(layout.spec_layout()),
        ensures
            r.wf(),
            r.shape() == layout.spec_layout(),
            r.chunks().len() == 0,
            r.regions().len() == 0,
    {
        BumpInner { chunk: Option::None, offset: 0, layout, acquired: 0, history: Ghost(Seq::empty()) }
    }

    /// The configured chunk shape.
    pub fn layout(&self) -> (l: Layout)
        ensures
            l == self.shape(),
    {
        self.layout.into_layout()
    }

    /// The usable storage size of every chunk, as a machine word.
    fn current_chunk_size(&self) -> (n: usize)
        ensures
            n as int == self.chunk_size(),
    {
        Chunk::layout(self.layout.into_layout()).size
    }

    /// The chunk alignment, as a machine word.
    fn current_chunk_align(&self) -> (a: usize)
        ensures
            a as int == self.chunk_align(),
    {
        Chunk::layout(self.layout.into_layout()).align
    }

    /// The number of chunks acquired from the provider so far.
    pub fn chunk_count(&self) -> (n: usize)
        requires
            self.wf(),
        ensures
            n as int == self.chunks().len(),
    {
        self.acquired
    }

    /// Tries to carve a region matching `layout`, acquiring a fresh
    /// chunk when the current one is exhausted.  Returns the region, or
    /// `None` exactly when the request cannot be granted; a refused
    /// request leaves the engine untouched.
    pub fn allocate(&mut self, layout: Layout) -> (r: Option<Region>)
        requires
            old(self).wf(),
            layout.wf(),
        ensures
            final(self).wf(),
            final(self).shape() == old(self).shape(),
            r is Some <==> old(self).grants(layout),
            r is None ==> final(self).unchanged_from(old(self)),
            r matches Some(reg) ==> final(self).granted(old(self), layout, reg, Option::None),
    {
        if layout.align > self.current_chunk_align() {
            return Option::None;
        }

        if self.chunk.is_some() && self.offset >= layout.size {
            let (start, len) = allocate_in_chunk(layout, &mut self.offset);
            let reg = Region { chunk: self.acquired - 1, start, len };
            self.history = Ghost(
                self.history@.push(
                    Record {
                        chunk: reg.chunk as int,
                        start: reg.start as int,
                        end: reg.start + reg.len,
                        data: Option::None,
                    },
                ),
            );
            proof {
                let rec = Record {
                    chunk: reg.chunk as int,
                    start: reg.start as int,
                    end: reg.start + reg.len,
                    data: Option::None,
                };
                lemma_after_carve(old(self), self, rec);
                assert(self.chunks().subrange(0, old(self).chunks().len() as int) =~= old(
                    self,
                ).chunks());
            }
            return Option::Some(reg);
        }

        if layout.size > self.current_chunk_size() {
            return Option::None;
        }
        if self.acquired == usize::MAX {
            // The provider is exhausted: the chunk count no longer fits
            // in a machine word.
            return Option::None;
        }

        let chunk_size = self.current_chunk_size();
        let shape = self.layout.into_layout();
        let prev = match self.chunk.take() {
            Option::Some(c) => Option::Some(Box::new(c)),
            Option::None => Option::None,
        };
        proof {
            assert(crate::chunk::chain_of(prev) == old(self).chunks());
        }
        let fresh = Chunk::new(shape, prev).unwrap();
        self.chunk = Option::Some(fresh);
        self.acquired = self.acquired + 1;
        self.offset = chunk_size;
        proof {
            assert(self.chunks().subrange(0, old(self).chunks().len() as int) =~= old(
                self,
            ).chunks());
        }

        let (start, len) = allocate_in_chunk(layout, &mut self.offset);
        let reg = Region { chunk: self.acquired - 1, start, len };
        self.history = Ghost(
            self.history@.push(
                Record {
                    chunk: reg.chunk as int,
                    start: reg.start as int,
                    end: reg.start + reg.len,
                    data: Option::None,
                },
            ),
        );
        proof {
            let rec = Record {
                chunk: reg.chunk as int,
                start: reg.start as int,
                end: reg.start + reg.len,
                data: Option::None,
            };
            lemma_after_acquire_carve(old(self), self, rec);
        }
        Option::Some(reg)
    }

    /// Whether some region carved by this engine carries stored bytes
    /// at byte `start` of chunk number `chunk`.
    pub open spec fn has_value_at(&self, chunk: int, start: int) -> bool {
        exists|i: int|
            0 <= i < self.regions().len() && record_has_data_at(
                #[trigger] self.regions()[i],
                chunk,
                start,
            )
    }

    /// The bytes stored at byte `start` of chunk number `chunk`.  Under
    /// `wf`, at most one region with stored bytes begins there, so the
    /// choice is determined.
    pub open spec fn bytes_at(&self, chunk: int, start: int) -> Seq<u8> {
        let i = choose|i: int|
            0 <= i < self.regions().len() && record_has_data_at(
                #[trigger] self.regions()[i],
                chunk,
                start,
            );
        self.regions()[i].data.unwrap()
    }

    /// How the engine changes when `alloc_bytes` is granted: as for a
    /// plain allocation, except that the appended record carries the
    /// stored bytes.
    pub open spec fn granted_value(
        &self,
        o: &Self,
        size: int,
        align: int,
        reg: Region,
        data: Seq<u8>,
    ) -> bool {
        let from_current = o.fits_current(size);
        let end = if from_current {
            o.offset as int
        } else {
            o.chunk_size()
        };
        &&& (from_current ==> self.chunks().len() == o.chunks().len())
        &&& (!from_current ==> self.chunks().len() == o.chunks().len() + 1)
        &&& reg.chunk as int == self.chunks().len() - 1
        &&& reg.start == self.offset
        &&& reg.start as int % align == 0
        &&& size <= reg.len
        &&& (reg.len as int) < size + align
        &&& reg.start + reg.len == end
        &&& self.regions() == o.regions().push(
            Record {
                chunk: reg.chunk as int,
                start: reg.start as int,
                end,
                data: Option::Some(data),
            },
        )
    }

    /// Carves a region for `bytes@.len()` bytes at alignment `align`
    /// and writes `bytes` at the region's start.  The stored bytes are
    /// recorded in the history and, by the engine invariant, stay in
    /// place until teardown.
    pub fn alloc_bytes(&mut self, bytes: &Vec<u8>, align: usize) -> (r: Option<Region>)
        requires
            old(self).wf(),
            (Layout { size: bytes@.len() as usize, align }).wf(),
            1 <= bytes@.len(),
        ensures
            final(self).wf(),
            final(self).shape() == old(self).shape(),
            r is Some <==> old(self).grants(Layout { size: bytes@.len() as usize, align }),
            r is None ==> final(self).unchanged_from(old(self)),
            r matches Some(reg) ==> ({
                &&& final(self).granted_value(
                    old(self),
                    bytes@.len() as int,
                    align as int,
                    reg,
                    bytes@,
                )
                &&& final(self).has_value_at(reg.chunk as int, reg.start as int)
                &&& final(self).bytes_at(reg.chunk as int, reg.start as int) == bytes@
            }),
    {
        let layout = Layout { size: bytes.len(), align };
        match self.allocate(layout) {
            Option::None => Option::None,
            Option::Some(reg) => {
                let ghost m = *self;
                let mut c = self.chunk.take().unwrap();
                proof {
                    assert(c@ == m.chunks()[m.chunks().len() - 1]);
                    assert(m.chunks()[m.chunks().len() - 1].len() == m.chunk_size());
                    if old(self).fits_current(bytes@.len() as int) {
                        assert(old(self).offset as int <= old(self).chunk_size());
                    }
                }
                c.write_at(reg.start, bytes);
                self.chunk = Option::Some(c);
                self.history = Ghost(
                    self.history@.update(
                        self.history@.len() - 1,
                        Record { data: Option::Some(bytes@), ..self.history@.last() },
                    ),
                );
                proof {
                    lemma_after_write(&m, self, bytes@, reg);
                    assert(self.regions() =~= old(self).regions().push(
                        Record {
                            chunk: reg.chunk as int,
                            start: reg.start as int,
                            end: reg.start + reg.len,
                            data: Option::Some(bytes@),
                        },
                    ));
                }
                Option::Some(reg)
            },
        }
    }

    /// Copies `len` bytes beginning at byte `start` of chunk number
    /// `chunk` out of the chain.
    pub fn read_bytes(&self, chunk: usize, start: usize, len: usize) -> (b: Vec<u8>)
        requires
            self.wf(),
            (chunk as int) < self.chunks().len(),
            start + len <= self.chunk_size(),
        ensures
            b@ == self.chunks()[chunk as int].subrange(start as int, start as int + len as int),
    {
        let mut idx: usize = self.acquired - 1;
        let cur0: &Chunk = match &self.chunk {
            Option::Some(c) => c,
            Option::None => vstd::pervasive::unreached(),
        };
        let mut cur: &Chunk = cur0;
        proof {
            assert(cur.chain() =~= self.chunks().subrange(0, idx as int + 1));
        }
        while idx > chunk
            invariant
                self.wf(),
                (chunk as int) < self.chunks().len(),
                chunk <= idx,
                (idx as int) < self.chunks().len(),
                cur.chain() == self.chunks().subrange(0, idx as int + 1),
            decreases idx,
        {
            proof {
                assert(cur.chain() == crate::chunk::chain_of(cur.prev).push(cur@));
                assert(crate::chunk::chain_of(cur.prev).len() == idx as int);
                assert(cur.prev is Some);
            }
            let next: &Chunk = match &cur.prev {
                Option::Some(b) => &**b,
                Option::None => vstd::pervasive::unreached(),
            };
            proof {
                assert(next.chain() == crate::chunk::chain_of(cur.prev));
                assert(next.chain() =~= self.chunks().subrange(0, idx as int));
            }
            cur = next;
            idx = idx - 1;
        }
        proof {
            assert(cur.chain() == crate::chunk::chain_of(cur.prev).push(cur@));
            assert(cur@ == cur.chain()[idx as int]);
            assert(cur@ == self.chunks()[chunk as int]);
            assert(cur@.len() == self.chunk_size());
        }
        let mut out: Vec<u8> = Vec::new();
        let mut k: usize = 0;
        while k < len
            invariant
                k <= len,
                start + len <= self.chunk_size(),
                start + len <= cur@.len(),
                (chunk as int) < self.chunks().len(),
                cur@ == self.chunks()[chunk as int],
                out@ == self.chunks()[chunk as int].subrange(start as int, start as int + k as int),
            decreases len - k,
        {
            out.push(cur.read(start + k));
            proof {
                assert(out@ =~= self.chunks()[chunk as int].subrange(
                    start as int,
                    start as int + (k + 1) as int,
                ));
            }
            k = k + 1;
        }
        out
    }

    /// Tears the engine down: walks the chain from the current chunk
    /// through the links, releasing every backing block, and returns
    /// how many blocks were released — exactly as many as were
    /// acquired, each of them shaped by the engine's chunk shape.
    pub fn teardown(self) -> (n: usize)
        requires
            self.wf(),
        ensures
            n as int == self.chunks().len(),
    {
        let ghost total = self.chunks().len() as int;
        let ghost cap = self.acquired;
        let mut tail: Option<Chunk> = self.chunk;
        let mut n: usize = 0;
        while tail.is_some()
            invariant
                n + remaining_chunks(tail) == total,
                total <= cap as int,
            decreases remaining_chunks(tail),
        {
            let mut c = match tail {
                Option::Some(c) => c,
                Option::None => vstd::pervasive::unreached(),
            };
            let p = c.take_prev();
            tail = match p {
                Option::Some(b) => Option::Some(*b),
                Option::None => Option::None,
            };
            n = n + 1;
        }
        n
    }

    /// Live regions never overlap: any two regions ever handed out by
    /// the engine are disjoint — they lie in different chunks or in
    /// non-overlapping spans of the same chunk.
    pub proof fn lemma_regions_disjoint(&self, i: int, j: int)
        requires
            self.wf(),
            0 <= i < self.regions().len(),
            0 <= j < self.regions().len(),
            i != j,
        ensures
            region_disjoint(self.regions()[i], self.regions()[j]),
    {
    }
}

/// A request whose size fits one chunk's storage and whose alignment
/// does not exceed the chunk alignment is granted whenever the
/// provider can still supply a chunk — in particular, always on a
/// freshly constructed engine.
pub proof fn lemma_within_shape_grants<L: IntoLayout>(e: &BumpInner<L>, layout: Layout)
    requires
        e.wf(),
        layout.size as int <= e.chunk_size(),
        layout.align as int <= e.chunk_align(),
        e.can_acquire(),
    ensures
        e.grants(layout),
{
}

/// A request larger than one chunk's usable storage is never granted,
/// whatever the chunk state.
pub proof fn lemma_oversize_never_granted<L: IntoLayout>(e: &BumpInner<L>, layout: Layout)
    requires
        e.wf(),
        layout.size as int > e.chunk_size(),
    ensures
        !e.grants(layout),
{
}

/// A request whose alignment exceeds the chunk alignment is never
/// granted.
pub proof fn lemma_overalign_never_granted<L: IntoLayout>(e: &BumpInner<L>, layout: Layout)
    requires
        layout.align as int > e.chunk_align(),
    ensures
        !e.grants(layout),
{
}

/// At most one region with stored bytes begins at a given byte of a
/// given chunk, so the bytes stored there are determined.
proof fn lemma_data_at_unique<L: IntoLayout>(
    e: &BumpInner<L>,
    chunk: int,
    start: int,
    i: int,
    j: int,
)
    requires
        e.wf(),
        0 <= i < e.regions().len(),
        0 <= j < e.regions().len(),
        record_has_data_at(e.regions()[i], chunk, start),
        record_has_data_at(e.regions()[j], chunk, start),
    ensures
        i == j,
{
    if i != j {
        assert(e.record_ok(e.regions()[i]));
        assert(e.record_ok(e.regions()[j]));
        assert(region_disjoint(e.regions()[i], e.regions()[j]));
    }
}

/// The bytes stored at a place lie within the chunk they were written
/// to, and the chunk's storage still holds them.
pub proof fn lemma_stored_bytes<L: IntoLayout>(e: &BumpInner<L>, chunk: int, start: int)
    requires
        e.wf(),
        e.has_value_at(chunk, start),
    ensures
        0 <= chunk < e.chunks().len(),
        0 <= start,
        start + e.bytes_at(chunk, start).len() <= e.chunk_size(),
        e.chunks()[chunk].subrange(start, start + e.bytes_at(chunk, start).len()) == e.bytes_at(
            chunk,
            start,
        ),
{
    let i = choose|i: int|
        0 <= i < e.regions().len() && record_has_data_at(#[trigger] e.regions()[i], chunk, start);
    assert(e.record_ok(e.regions()[i]));
}

/// Stored bytes persist: once a region with stored bytes exists in the
/// history, any later engine state whose history extends the earlier
/// one still holds the same bytes at the same place.
pub proof fn lemma_value_persists<L: IntoLayout>(
    e1: &BumpInner<L>,
    e2: &BumpInner<L>,
    chunk: int,
    start: int,
)
    requires
        e1.wf(),
        e2.wf(),
        e1.regions().is_prefix_of(e2.regions()),
        e1.has_value_at(chunk, start),
    ensures
        e2.has_value_at(chunk, start),
        e2.bytes_at(chunk, start) == e1.bytes_at(chunk, start),
{
    let i = choose|i: int|
        0 <= i < e1.regions().len() && record_has_data_at(#[trigger] e1.regions()[i], chunk, start);
    assert(e2.regions()[i] == e1.regions()[i]);
    assert(record_has_data_at(e2.regions()[i], chunk, start));
    let j = choose|j: int|
        0 <= j < e2.regions().len() && record_has_data_at(#[trigger] e2.regions()[j], chunk, start);
    lemma_data_at_unique(e2, chunk, start, i, j);
    let k = choose|k: int|
        0 <= k < e1.regions().len() && record_has_data_at(#[trigger] e1.regions()[k], chunk, start);
    lemma_data_at_unique(e1, chunk, start, i, k);
}

/// After writing freshly allocated bytes into the current chunk (the
/// last history record's data filled in, the written span lying below
/// every other region), the engine invariant still holds and the bytes
/// are found in place.
proof fn lemma_after_write<L: IntoLayout>(
    m: &BumpInner<L>,
    n: &BumpInner<L>,
    bytes: Seq<u8>,
    reg: Region,
)
    requires
        m.wf(),
        m.chunk is Some,
        n.chunk is Some,
        m.regions().len() >= 1,
        ({
            let last = m.regions().last();
            &&& last.chunk == reg.chunk as int
            &&& reg.chunk as int == m.chunks().len() - 1
            &&& last.start == reg.start as int
            &&& last.start == m.offset as int
            &&& last.end == reg.start + reg.len
            &&& last.data is None
        }),
        1 <= bytes.len() <= reg.len,
        reg.start + reg.len <= m.chunk_size(),
        n.layout == m.layout,
        n.acquired == m.acquired,
        n.offset == m.offset,
        n.chunks().len() == m.chunks().len(),
        forall|i: int|
            0 <= i < m.chunks().len() - 1 ==> #[trigger] n.chunks()[i] == m.chunks()[i],
        n.chunks()[m.chunks().len() - 1].len() == m.chunks()[m.chunks().len() - 1].len(),
        forall|k: int|
            0 <= k < n.chunks()[m.chunks().len() - 1].len()
                ==> #[trigger] n.chunks()[m.chunks().len() - 1][k] == (if reg.start <= k
                < reg.start + bytes.len() {
                bytes[k - reg.start]
            } else {
                m.chunks()[m.chunks().len() - 1][k]
            }),
        n.history@ == m.history@.update(
            m.history@.len() - 1,
            Record { data: Option::Some(bytes), ..m.history@.last() },
        ),
    ensures
        n.wf(),
        n.has_value_at(reg.chunk as int, reg.start as int),
        n.bytes_at(reg.chunk as int, reg.start as int) == bytes,
{
    let last_i = m.regions().len() - 1;
    let lastc = m.chunks().len() - 1;
    assert forall|i: int| 0 <= i < n.regions().len() implies {
        let r = #[trigger] n.regions()[i];
        let mr = m.regions()[i];
        r.chunk == mr.chunk && r.start == mr.start && r.end == mr.end
    } by {}
    assert forall|i: int| 0 <= i < n.chunks().len() implies (#[trigger] n.chunks()[i]).len()
        == n.chunk_size() by {
        if i < lastc {
            assert(n.chunks()[i] == m.chunks()[i]);
        }
        assert(m.chunks()[i].len() == m.chunk_size());
    }
    assert forall|i: int| 0 <= i < n.regions().len() implies n.record_ok(
        #[trigger] n.regions()[i],
    ) by {
        assert(m.record_ok(m.regions()[i]));
        let r = n.regions()[i];
        if i == last_i {
            assert(r.data == Option::Some(bytes));
            assert(n.chunks()[lastc].subrange(reg.start as int, reg.start + bytes.len())
                =~= bytes);
        } else {
            let mr = m.regions()[i];
            assert(r == mr);
            if mr.data is Some {
                let d = mr.data.unwrap();
                if mr.chunk == lastc {
                    assert(region_disjoint(mr, m.regions()[last_i]));
                    assert(mr.start >= m.offset);
                    assert(mr.start >= reg.start + reg.len);
                    assert(n.chunks()[lastc].subrange(mr.start, mr.start + d.len())
                        =~= m.chunks()[lastc].subrange(mr.start, mr.start + d.len()));
                } else {
                    assert(n.chunks()[mr.chunk] == m.chunks()[mr.chunk]);
                }
            }
        }
    }
    assert forall|i: int, j: int|
        0 <= i < n.regions().len() && 0 <= j < n.regions().len() && i != j implies region_disjoint(
        #[trigger] n.regions()[i],
        #[trigger] n.regions()[j],
    ) by {
        assert(region_disjoint(m.regions()[i], m.regions()[j]));
    }
    assert(record_has_data_at(n.regions()[last_i], reg.chunk as int, reg.start as int));
    assert(n.has_value_at(reg.chunk as int, reg.start as int));
    let j = choose|j: int|
        0 <= j < n.regions().len() && record_has_data_at(
            #[trigger] n.regions()[j],
            reg.chunk as int,
            reg.start as int,
        );
    lemma_data_at_unique(n, reg.chunk as int, reg.start as int, j, last_i);
}

/// Carves a region matching `layout` out of a chunk whose cursor is
/// `offset`: the carved region ends exactly at the old cursor, begins
/// at the largest `layout.align`-multiple that leaves room for
/// `layout.size` bytes, and the cursor moves down to the region's
/// start.  Slack introduced by the rounding belongs to the region.
fn allocate_in_chunk(layout: Layout, offset: &mut usize) -> (r: (usize, usize))
    requires
        layout.wf(),
        layout.size <= *old(offset),
    ensures
        ({
            let (start, len) = r;
            &&& start as int == round_down(*old(offset) - layout.size, layout.align as int)
            &&& *final(offset) == start
            &&& start + len == *old(offset)
            &&& layout.size <= len
            &&& (len as int) < layout.size + layout.align
            &&& start as int % layout.align as int == 0
        }),
{
    proof {
        crate::layout::lemma_pow2_pos(layout.align as int);
    }
    let x = *offset - layout.size;
    let rem = x % layout.align;
    proof {
        lemma_mod_bound(x as int, layout.align as int);
        lemma_fundamental_div_mod(x as int, layout.align as int);
        lemma_mod_multiples_basic(x as int / layout.align as int, layout.align as int);
    }
    let start = x - rem;
    let len = *offset - start;
    *offset = start;
    (start, len)
}

/// After carving from the current chunk (cursor moved down, the record
/// of the carved region appended, chunks untouched), the engine
/// invariant still holds.
proof fn lemma_after_carve<L: IntoLayout>(o: &BumpInner<L>, n: &BumpInner<L>, rec: Record)
    requires
        o.wf(),
        o.chunk is Some,
        n.chunk == o.chunk,
        n.layout == o.layout,
        n.acquired == o.acquired,
        n.history@ == o.history@.push(rec),
        n.offset <= o.offset,
        rec.chunk == n.chunks().len() - 1,
        rec.start == n.offset as int,
        rec.end == o.offset as int,
        rec.data is None,
    ensures
        n.wf(),
{
    let s = n.regions();
    assert(s == o.regions().push(rec));
    assert forall|i: int| 0 <= i < s.len() implies n.record_ok(#[trigger] s[i]) by {
        if i < s.len() - 1 {
            assert(o.record_ok(o.regions()[i]));
            assert(s[i] == o.regions()[i]);
        }
    }
    assert forall|i: int, j: int|
        0 <= i < s.len() && 0 <= j < s.len() && i != j implies region_disjoint(
        #[trigger] s[i],
        #[trigger] s[j],
    ) by {
        if i < s.len() - 1 && j < s.len() - 1 {
            assert(region_disjoint(o.regions()[i], o.regions()[j]));
        } else if i == s.len() - 1 && j < s.len() - 1 {
            assert(o.record_ok(o.regions()[j]));
        } else if j == s.len() - 1 && i < s.len() - 1 {
            assert(o.record_ok(o.regions()[i]));
        }
    }
}

/// After acquiring a fresh chunk and carving from it (chain grown by
/// one, cursor reset then moved down, the record of the carved region
/// appended), the engine invariant still holds.
proof fn lemma_after_acquire_carve<L: IntoLayout>(o: &BumpInner<L>, n: &BumpInner<L>, rec: Record)
    requires
        o.wf(),
        o.can_acquire(),
        n.layout == o.layout,
        n.history@ == o.history@.push(rec),
        n.acquired == o.acquired + 1,
        n.chunks().len() == o.chunks().len() + 1,
        n.chunks().subrange(0, o.chunks().len() as int) == o.chunks(),
        n.chunks()[n.chunks().len() - 1].len() == n.chunk_size(),
        n.offset as int <= n.chunk_size(),
        n.chunk is Some,
        rec.chunk == n.chunks().len() - 1,
        rec.start == n.offset as int,
        rec.end <= n.chunk_size(),
        rec.start <= rec.end,
        rec.data is None,
    ensures
        n.wf(),
{
    let s = n.regions();
    assert(s == o.regions().push(rec));
    assert forall|i: int| 0 <= i < n.chunks().len() implies (#[trigger] n.chunks()[i]).len()
        == n.chunk_size() by {
        if i < o.chunks().len() {
            assert(n.chunks()[i] == n.chunks().subrange(0, o.chunks().len() as int)[i]);
            assert(n.chunks()[i] == o.chunks()[i]);
        }
    }
    assert forall|i: int| 0 <= i < s.len() implies n.record_ok(#[trigger] s[i]) by {
        if i < s.len() - 1 {
            assert(o.record_ok(o.regions()[i]));
            assert(s[i] == o.regions()[i]);
            assert(n.chunks()[s[i].chunk] == n.chunks().subrange(
                0,
                o.chunks().len() as int,
            )[s[i].chunk]);
            assert(n.chunks()[s[i].chunk] == o.chunks()[s[i].chunk]);
        }
    }
    assert forall|i: int, j: int|
        0 <= i < s.len() && 0 <= j < s.len() && i != j implies region_disjoint(
        #[trigger] s[i],
        #[trigger] s[j],
    ) by {
        if i < s.len() - 1 && j < s.len() - 1 {
            assert(region_disjoint(o.regions()[i], o.regions()[j]));
        } else if i == s.len() - 1 && j < s.len() - 1 {
            assert(o.record_ok(o.regions()[j]));
        } else if j == s.len() - 1 && i < s.len() - 1 {
            assert(o.record_ok(o.regions()[i]));
        }
    }
}

} // verus!
