use std::sync::atomic::{AtomicBool, Ordering};
use vstd::prelude::*;

use crate::peano::{S, Z};
use crate::traits::{Construct, With};

verus! {

/// The value of a change flag
pub struct ChangedFlag(pub bool);

/// A value with a flag that says whether it changed. The flag can be read and set
/// through a shared reference, so nothing is known of its value from one access
/// to the next; what is known is the value it was given when the value was made.
pub struct Changed<T> {
    pub data: T,
    flag: AtomicBool,
    made_with: Ghost<bool>,
}

impl<T> Changed<T> {
    /// The wrapped value
    pub closed spec fn value(self) -> T {
        self.data
    }

    /// The value the flag was given when this value was made (by `new`,
    /// `construct` or `with`); a later `set_changed` through a shared reference,
    /// or another thread, may have changed the flag since
    pub closed spec fn made_flag(self) -> bool {
        self.made_with@
    }

    /// Wrap a value, with the flag set to `changed`
    pub fn new(data: T, changed: bool) -> (res: Self)
        ensures
            res.value() == data,
            res.made_flag() == changed,
    {
        Changed { data, flag: AtomicBool::new(changed), made_with: Ghost(changed) }
    }

    /// The wrapped value
    pub fn into_inner(self) -> (res: T)
        ensures
            res == self.value(),
    {
        self.data
    }
}

impl<T: Clone> Clone for Changed<T> {
    /// A copy of the value, with the flag as it reads now
    fn clone(&self) -> (res: Self)
        ensures
            cloned(self.value(), res.value()),
    {
        let now = self.flag.load(Ordering::Relaxed);
        Changed { data: self.data.clone(), flag: AtomicBool::new(now), made_with: Ghost(now) }
    }
}

impl<T> std::ops::Deref for Changed<T> {
    type Target = T;

    /// The wrapped value
    fn deref(&self) -> (res: &T)
        ensures
            *res == self.value(),
    {
        &self.data
    }
}

/// A type that can get and set a changed flag
pub trait ChangedTrait {
    fn get_changed(&self) -> bool;

    fn set_changed(&self, dirty: bool);
}

impl<T> ChangedTrait for Changed<T> {
    fn get_changed(&self) -> bool {
        self.flag.load(Ordering::Relaxed)
    }

    fn set_changed(&self, dirty: bool) {
        self.flag.store(dirty, Ordering::Relaxed);
    }
}

impl<T> Construct<T, Z> for Changed<T> {
    open spec fn constructed_from(t: T, res: Self) -> bool {
        res.value() == t && !res.made_flag()
    }

    fn construct(t: T) -> (res: Self) {
        Changed { data: t, flag: AtomicBool::new(false), made_with: Ghost(false) }
    }
}

impl<T, I, N: Construct<T, I>> Construct<T, S<I>> for Changed<N> {
    open spec fn constructed_from(t: T, res: Self) -> bool {
        N::constructed_from(t, res.value()) && !res.made_flag()
    }

    fn construct(t: T) -> (res: Self) {
        Changed { data: N::construct(t), flag: AtomicBool::new(false), made_with: Ghost(false) }
    }
}

impl<T> With<ChangedFlag, Z> for Changed<T> {
    open spec fn with_result(before: Self, t: ChangedFlag, res: Self) -> bool {
        res.value() == before.value() && res.made_flag() == t.0
    }

    fn with(self, t: ChangedFlag) -> (res: Self) {
        Changed { data: self.data, flag: AtomicBool::new(t.0), made_with: Ghost(t.0) }
    }
}

impl<T, I, N: With<T, I>> With<T, S<I>> for Changed<N> {
    open spec fn with_result(before: Self, t: T, res: Self) -> bool {
        N::with_result(before.value(), t, res.value()) && res.made_flag() == before.made_flag()
    }

    fn with(self, t: T) -> (res: Self) {
        let Changed { data, flag, made_with } = self;
        Changed { data: data.with(t), flag, made_with }
    }
}

} // verus!
