//! Values that can be stored into, and reloaded from, allocated
//! regions.
//!
//! The engine hands out raw byte regions; a `Storable` type fixes a
//! byte encoding for its values so that `alloc_value` can write a
//! value into a fresh region and a later read can reload it.  Each
//! implementation proves that reloading a stored value returns the
//! value itself.

use vstd::bytes::{
    lemma_auto_spec_u16_to_from_le_bytes, lemma_auto_spec_u32_to_from_le_bytes,
    lemma_auto_spec_u64_to_from_le_bytes, spec_u16_from_le_bytes, spec_u16_to_le_bytes,
    spec_u32_from_le_bytes, spec_u32_to_le_bytes, spec_u64_from_le_bytes, spec_u64_to_le_bytes,
    u16_from_le_bytes, u16_to_le_bytes, u32_from_le_bytes, u32_to_le_bytes, u64_from_le_bytes,
    u64_to_le_bytes,
};
use vstd::prelude::*;
use crate::layout::{is_pow2, Layout};

verus! {

/// A value with a fixed-size byte encoding, storable in an allocated
/// region.
pub trait Storable: Sized + Copy {
    /// The layout of the stored form: its size and its alignment
    /// requirement.
    spec fn spec_layout() -> Layout;

    /// The stored form of a value.
    spec fn spec_to_bytes(self) -> Seq<u8>;

    /// The value a stored form denotes.
    spec fn spec_from_bytes(b: Seq<u8>) -> Self;

    /// The stored form is usable: a positive size and a power-of-two
    /// alignment.
    proof fn lemma_layout()
        ensures
            Self::spec_layout().wf(),
            1 <= Self::spec_layout().size,
    ;

    /// Every value's stored form has exactly the declared size.
    proof fn lemma_to_bytes_len(self)
        ensures
            self.spec_to_bytes().len() == Self::spec_layout().size,
    ;

    /// Reloading a stored value returns the value itself.
    proof fn lemma_round_trip(self)
        ensures
            Self::spec_from_bytes(self.spec_to_bytes()) == self,
    ;

    /// The layout of the stored form.
    fn layout() -> (l: Layout)
        ensures
            l == Self::spec_layout(),
    ;

    /// Produces the stored form of `self`.
    fn to_bytes(self) -> (b: Vec<u8>)
        ensures
            b@ == self.spec_to_bytes(),
    ;

    /// Reloads a value from its stored form.
    fn from_bytes(b: &Vec<u8>) -> (v: Self)
        requires
            b@.len() == Self::spec_layout().size,
        ensures
            v == Self::spec_from_bytes(b@),
    ;
}

impl Storable for u8 {
    open spec fn spec_layout() -> Layout {
        Layout { size: 1, align: 1 }
    }

    open spec fn spec_to_bytes(self) -> Seq<u8> {
        seq![self]
    }

    open spec fn spec_from_bytes(b: Seq<u8>) -> Self {
        b[0]
    }

    proof fn lemma_layout() {
        reveal_with_fuel(is_pow2, 2);
    }

    proof fn lemma_to_bytes_len(self) {
    }

    proof fn lemma_round_trip(self) {
    }

    fn layout() -> (l: Layout) {
        Layout { size: 1, align: 1 }
    }

    fn to_bytes(self) -> (b: Vec<u8>) {
        let mut b: Vec<u8> = Vec::new();
        b.push(self);
        proof {
            assert(b@ =~= seq![self]);
        }
        b
    }

    fn from_bytes(b: &Vec<u8>) -> (v: Self) {
        b[0]
    }
}

impl Storable for u16 {
    open spec fn spec_layout() -> Layout {
        Layout { size: 2, align: 2 }
    }

    open spec fn spec_to_bytes(self) -> Seq<u8> {
        spec_u16_to_le_bytes(self)
    }

    open spec fn spec_from_bytes(b: Seq<u8>) -> Self {
        spec_u16_from_le_bytes(b)
    }

    proof fn lemma_layout() {
        reveal_with_fuel(is_pow2, 2);
    }

    proof fn lemma_to_bytes_len(self) {
        lemma_auto_spec_u16_to_from_le_bytes();
    }

    proof fn lemma_round_trip(self) {
        lemma_auto_spec_u16_to_from_le_bytes();
        assert(spec_u16_to_le_bytes(self).len() == 2);
    }

    fn layout() -> (l: Layout) {
        Layout { size: 2, align: 2 }
    }

    fn to_bytes(self) -> (b: Vec<u8>) {
        u16_to_le_bytes(self)
    }

    fn from_bytes(b: &Vec<u8>) -> (v: Self) {
        u16_from_le_bytes(b.as_slice())
    }
}

impl Storable for u32 {
    open spec fn spec_layout() -> Layout {
        Layout { size: 4, align: 4 }
    }

    open spec fn spec_to_bytes(self) -> Seq<u8> {
        spec_u32_to_le_bytes(self)
    }

    open spec fn spec_from_bytes(b: Seq<u8>) -> Self {
        spec_u32_from_le_bytes(b)
    }

    proof fn lemma_layout() {
        reveal_with_fuel(is_pow2, 3);
    }

    proof fn lemma_to_bytes_len(self) {
        lemma_auto_spec_u32_to_from_le_bytes();
    }

    proof fn lemma_round_trip(self) {
        lemma_auto_spec_u32_to_from_le_bytes();
        assert(spec_u32_to_le_bytes(self).len() == 4);
    }

    fn layout() -> (l: Layout) {
        Layout { size: 4, align: 4 }
    }

    fn to_bytes(self) -> (b: Vec<u8>) {
        u32_to_le_bytes(self)
    }

    fn from_bytes(b: &Vec<u8>) -> (v: Self) {
        u32_from_le_bytes(b.as_slice())
    }
}

impl Storable for u64 {
    open spec fn spec_layout() -> Layout {
        Layout { size: 8, align: 8 }
    }

    open spec fn spec_to_bytes(self) -> Seq<u8> {
        spec_u64_to_le_bytes(self)
    }

    open spec fn spec_from_bytes(b: Seq<u8>) -> Self {
        spec_u64_from_le_bytes(b)
    }

    proof fn lemma_layout() {
        reveal_with_fuel(is_pow2, 4);
    }

    proof fn lemma_to_bytes_len(self) {
        lemma_auto_spec_u64_to_from_le_bytes();
    }

    proof fn lemma_round_trip(self) {
        lemma_auto_spec_u64_to_from_le_bytes();
    }

    fn layout() -> (l: Layout) {
        Layout { size: 8, align: 8 }
    }

    fn to_bytes(self) -> (b: Vec<u8>) {
        u64_to_le_bytes(self)
    }

    fn from_bytes(b: &Vec<u8>) -> (v: Self) {
        u64_from_le_bytes(b.as_slice())
    }
}

} // verus!
