use std::marker::PhantomData;
use vstd::prelude::*;

use crate::peano::{S, Z};
use crate::traits::{Construct, With};

verus! {

/// A value of type `T` tagged with the usage `U`, so that components holding the
/// same type for different purposes are told apart
pub struct Usage<U, T> {
    pub data: T,
    pub usage: PhantomData<U>,
}

impl<U, T> Usage<U, T> {
    /// Tag a value
    pub fn new(data: T) -> (res: Usage<U, T>)
        ensures
            res.data == data,
    {
        Usage { data, usage: PhantomData }
    }

    /// The tagged value
    pub fn into_inner(self) -> (res: T)
        ensures
            res == self.data,
    {
        self.data
    }
}

impl<U, T> Construct<T, Z> for Usage<U, T> {
    open spec fn constructed_from(t: T, res: Self) -> bool {
        res.data == t
    }

    fn construct(t: T) -> (res: Self) {
        Usage { data: t, usage: PhantomData }
    }
}

impl<T, I, U, N: Construct<T, I>> Construct<T, S<I>> for Usage<U, N> {
    open spec fn constructed_from(t: T, res: Self) -> bool {
        N::constructed_from(t, res.data)
    }

    fn construct(t: T) -> (res: Self) {
        Usage { data: N::construct(t), usage: PhantomData }
    }
}

impl<T, I, U, N: With<T, I>> With<T, S<I>> for Usage<U, N> {
    open spec fn with_result(before: Self, t: T, res: Self) -> bool {
        N::with_result(before.data, t, res.data)
    }

    fn with(self, t: T) -> (res: Self) {
        Usage { data: self.data.with(t), usage: PhantomData }
    }
}

} // verus!
