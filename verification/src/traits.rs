use vstd::prelude::*;

verus! {

/// Utility trait for constructing nested newtypes.
/// `I` is a Peano index telling how deep the wrapped value sits.
pub trait Construct<T, I>: Sized {
    /// What holds of a value that `construct` built from `t`
    spec fn constructed_from(t: T, res: Self) -> bool;

    fn construct(t: T) -> (res: Self)
        ensures
            Self::constructed_from(t, res),
    ;
}

/// Utility trait for treating a struct as its own builder
pub trait With<T, I>: Sized {
    /// What holds of the value that `with` made from `before` and `t`
    spec fn with_result(before: Self, t: T, res: Self) -> bool;

    fn with(self, t: T) -> (res: Self)
        ensures
            Self::with_result(self, t, res),
    ;
}

} // verus!
