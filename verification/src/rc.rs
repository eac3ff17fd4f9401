//! Reference-counted shared ownership of an engine.
//!
//! Cloning a wrapper yields another handle to the same engine; the
//! engine is released once, when the last handle is dropped.  The
//! handles give shared (read-only) access: the engine mutates only
//! through exclusive access, so allocation goes through an owned or
//! mutably borrowed engine.

use vstd::prelude::*;
use crate::bump::Bump;
use crate::chunk::memory::shape_ok;

verus! {

/// Relies on `std::rc::Rc::clone`: the returned handle shares the
/// same allocation as `v`, so it carries the same value.
#[verifier::external_body]
fn rc_clone<B>(v: &std::rc::Rc<B>) -> (r: std::rc::Rc<B>)
    ensures
        r == *v,
{
    std::rc::Rc::clone(v)
}

/// Relies on `std::rc::Rc`'s `Deref`: dereferencing a handle yields
/// the shared value.
#[verifier::external_body]
fn rc_get<B>(v: &std::rc::Rc<B>) -> (r: &B)
    ensures
        *r == *v,
{
    &**v
}

/// A reference-counted wrapper around an engine (or any value), so
/// that one chunk chain can back several consumers.
pub struct Rc<B> {
    pub inner: std::rc::Rc<B>,
}

impl<B> Rc<B> {
    /// Wraps `bump` in fresh shared ownership.
    pub fn new(bump: B) -> (r: Self)
        ensures
            r.inner == bump,
    {
        Rc { inner: std::rc::Rc::new(bump) }
    }

    /// Borrows the shared engine.
    pub fn get(&self) -> (b: &B)
        ensures
            *b == self.inner,
    {
        rc_get(&self.inner)
    }
}

impl<B> Clone for Rc<B> {
    /// Yields another handle to the same engine.
    fn clone(&self) -> (r: Self)
        ensures
            r == *self,
    {
        Rc { inner: rc_clone(&self.inner) }
    }
}

/// A reference-counted wrapper fixed to the compile-time-shaped
/// engine.
pub struct RcBump<const SIZE: usize, const ALIGN: usize> {
    pub inner: std::rc::Rc<Bump<SIZE, ALIGN>>,
}

impl<const SIZE: usize, const ALIGN: usize> RcBump<SIZE, ALIGN> {
    /// Constructs a fresh engine under shared ownership.
    pub fn new() -> (r: Self)
        requires
            shape_ok(Bump::<SIZE, ALIGN>::spec_shape()),
        ensures
            r.inner.wf(),
            r.inner.chunks().len() == 0,
            r.inner.regions().len() == 0,
    {
        RcBump { inner: std::rc::Rc::new(Bump::new()) }
    }

    /// Borrows the shared engine.
    pub fn get(&self) -> (b: &Bump<SIZE, ALIGN>)
        ensures
            *b == self.inner,
    {
        rc_get(&self.inner)
    }
}

impl<const SIZE: usize, const ALIGN: usize> Clone for RcBump<SIZE, ALIGN> {
    /// Yields another handle to the same engine.
    fn clone(&self) -> (r: Self)
        ensures
            r == *self,
    {
        RcBump { inner: rc_clone(&self.inner) }
    }
}

} // verus!
