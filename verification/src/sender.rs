//! The outbound half of the plugin runtime: anything that can take a
//! response value and queue it for the printer.
//!
//! The concrete sender is the process's response channel, which lives
//! outside this crate; a mapping adapter lets a runner send its own
//! response type through a sender of the general one.

use vstd::prelude::*;

verus! {

/// Anything that accepts values of `T` for sending. Sending is
/// fire-and-forget: a closed channel swallows the value.
pub trait Sender<T> {
    /// Which values this sender may be handed.
    spec fn accepts(&self, value: &T) -> bool;

    fn send(&self, value: T)
        requires
            self.accepts(&value),
    ;
}

/// A borrowed sender that maps each value before handing it on.
#[verifier::reject_recursive_types(T)]
#[verifier::reject_recursive_types(U)]
pub struct MapSenderTemp<'a, S, T, U, F> where S: Sender<T>, F: Fn(U) -> T {
    pub inner: &'a S,
    pub mapping: F,
    pub t: core::marker::PhantomData<T>,
    pub u: core::marker::PhantomData<U>,
}

impl<'a, S, T, U, F> Sender<U> for MapSenderTemp<'a, S, T, U, F> where
    S: Sender<T>,
    F: Fn(U) -> T,
 {
    open spec fn accepts(&self, value: &U) -> bool {
        &&& self.mapping.requires((*value,))
        &&& forall|t: T| self.mapping.ensures((*value,), t) ==> self.inner.accepts(&t)
    }

    fn send(&self, value: U) {
        let mapped = (self.mapping)(value);
        self.inner.send(mapped);
    }
}

/// Wraps a sender so that it takes `U`, mapping each value with `f`.
pub fn map_temp<'a, S, T, U, F>(inner: &'a S, mapping: F) -> (r: MapSenderTemp<'a, S, T, U, F>) where
    S: Sender<T>,
    F: Fn(U) -> T,

    ensures
        r.inner == inner,
        r.mapping == mapping,
{
    MapSenderTemp { inner, mapping, t: core::marker::PhantomData, u: core::marker::PhantomData }
}

} // verus!
