//! Fluent construction of module elements.

use vstd::prelude::*;

pub mod global;
pub mod import;
pub mod table;

verus! {

/// A callback a builder hands its finished product to.
pub trait Invoke<A>: Sized {
    /// What the callback returns.
    type Result;

    /// Consume the builder's product.
    fn invoke(self, arg: A) -> Self::Result;
}

/// The callback that returns the product unchanged.
pub struct Identity;

impl<T> Invoke<T> for Identity {
    type Result = T;

    fn invoke(self, arg: T) -> (r: T)
        ensures
            r == arg,
    {
        arg
    }
}

} // verus!
