//! The control plane for builds without chaos testing. It has the operations
//! of `crate::chaos::ControlPlane`, holds nothing, consumes nothing, and
//! always answers with the default.

use crate::error::Error;
use vstd::prelude::*;

verus! {

/// A control plane that makes no pseudo-random choice at all.
#[derive(Debug, Clone, Copy)]
pub struct ControlPlane {
    _private: (),
}

impl View for ControlPlane {
    type V = Seq<u8>;

    /// The bytes left to consume: there are none.
    open spec fn view(&self) -> Seq<u8> {
        Seq::empty()
    }
}

impl Default for ControlPlane {
    fn default() -> (r: Self)
        ensures
            r@ == Seq::<u8>::empty(),
    {
        ControlPlane { _private: () }
    }
}

impl ControlPlane {
    /// Discards `data` and returns the one inert control plane.
    pub fn new(data: Vec<u8>) -> (r: Self)
        ensures
            r@ == Seq::<u8>::empty(),
    {
        ControlPlane { _private: () }
    }

    /// The stand-in for call sites that have no control plane to pass on.
    pub fn noop() -> (r: Self)
        ensures
            r@ == Seq::<u8>::empty(),
    {
        ControlPlane { _private: () }
    }

    /// A placeholder for a code path that is not instrumented yet.
    pub fn todo() -> (r: Self)
        ensures
            r@ == Seq::<u8>::empty(),
    {
        ControlPlane { _private: () }
    }

    /// There is never anything left to consume.
    pub fn is_empty(&self) -> (r: bool)
        ensures
            r == (self@.len() == 0),
            r,
    {
        true
    }

    /// Sets the fuel limit, which has no effect here.
    pub fn set_fuel(&mut self, fuel: u8)
        ensures
            *final(self) == *old(self),
    {
    }

    /// Always `false`.
    pub fn get_decision(&mut self) -> (r: bool)
        ensures
            !r,
            *final(self) == *old(self),
    {
        false
    }

    /// Always fails: there is no data to decide from.
    pub fn get_arbitrary_bool(&mut self) -> (r: Result<bool, Error>)
        ensures
            r == Err::<bool, Error>(Error::InsufficientData),
            *final(self) == *old(self),
    {
        Err(Error::InsufficientData)
    }

    /// Leaves `slice` as it is.
    pub fn shuffle<T>(&mut self, slice: &mut [T])
        ensures
            final(slice)@ == old(slice)@,
            *final(self) == *old(self),
    {
    }

    /// Returns `items` in the order given.
    pub fn shuffled<T>(&mut self, items: Vec<T>) -> (r: Vec<T>)
        ensures
            r@ == items@,
            *final(self) == *old(self),
    {
        items
    }
}

} // verus!
