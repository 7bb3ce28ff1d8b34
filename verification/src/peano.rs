//! Peano encoding for natural numbers
use std::marker::PhantomData;
use vstd::prelude::*;

verus! {

/// Zero
pub struct Z;

/// Successor of `N`
pub struct S<N>(pub PhantomData<N>);

} // verus!
