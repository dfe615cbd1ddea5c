//! A value with something to do when it is let go.
use vstd::prelude::*;

verus! {

/// A small wrapper that frees resources that have to be freed when they
/// are let go. Letting go is a call of `release`: a value that merely goes
/// out of scope runs nothing.
pub struct DroppableValue<T, F> where F: FnOnce(T) {
    value: T,
    drop_fn: F,
}

impl<T, F> DroppableValue<T, F> where F: FnOnce(T) {
    /// The value that is held.
    pub closed spec fn value(self) -> T {
        self.value
    }

    /// What is done with the value when it is let go.
    pub closed spec fn drop_fn(self) -> F {
        self.drop_fn
    }

    /// Holds a value together with what is to be done when it is let go.
    pub fn new(value: T, drop_fn: F) -> (d: Self)
        ensures
            d.value() == value,
            d.drop_fn() == drop_fn,
    {
        Self { value, drop_fn }
    }

    /// The value that is held.
    pub fn get(&self) -> (value: &T)
        ensures
            *value == self.value(),
    {
        &self.value
    }

    /// Lets the value go: does with it what was given to `new`.
    pub fn release(self)
        requires
            self.drop_fn().requires((self.value(),)),
        ensures
            self.drop_fn().ensures((self.value(),), ()),
    {
        let DroppableValue { value, drop_fn } = self;
        drop_fn(value);
    }
}

} // verus!
