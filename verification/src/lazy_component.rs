use vstd::prelude::*;

use crate::peano::Z;
use crate::traits::Construct;

verus! {

/// A lazily-initialized component that can be pending, ready, or dropped
#[derive(Debug, Clone, Copy, PartialEq, Eq)]
pub enum LazyComponent<R, P = (), D = ()> {
    Pending(P),
    Ready(R),
    Dropped(D),
}

impl<R, P, D> LazyComponent<R, P, D> {
    /// The ready value, if there is one
    pub open spec fn ready_value(self) -> Option<R> {
        match self {
            LazyComponent::Ready(r) => Some(r),
            _ => None,
        }
    }

    /// Create a component in the pending state
    pub fn new(p: P) -> (res: LazyComponent<R, P, D>)
        ensures
            res == LazyComponent::<R, P, D>::Pending(p),
    {
        LazyComponent::Pending(p)
    }

    pub fn is_pending(&self) -> (res: bool)
        ensures
            res == (*self is Pending),
    {
        matches!(self, LazyComponent::Pending(_))
    }

    pub fn is_ready(&self) -> (res: bool)
        ensures
            res == (*self is Ready),
    {
        matches!(self, LazyComponent::Ready(_))
    }

    pub fn is_dropped(&self) -> (res: bool)
        ensures
            res == (*self is Dropped),
    {
        matches!(self, LazyComponent::Dropped(_))
    }

    /// Move back into the pending state, with a default payload
    pub fn set_pending(&mut self) where P: Default
        ensures
            *final(self) is Pending,
            call_ensures(P::default, (), final(self)->Pending_0),
    {
        *self = LazyComponent::Pending(P::default());
    }

    pub fn set_pending_with(&mut self, p: P)
        ensures
            *final(self) == LazyComponent::<R, P, D>::Pending(p),
    {
        *self = LazyComponent::Pending(p);
    }

    /// Move into the ready state, with a default value
    pub fn set_ready(&mut self) where R: Default
        ensures
            *final(self) is Ready,
            call_ensures(R::default, (), final(self)->Ready_0),
    {
        *self = LazyComponent::Ready(R::default());
    }

    pub fn set_ready_with(&mut self, r: R)
        ensures
            *final(self) == LazyComponent::<R, P, D>::Ready(r),
    {
        *self = LazyComponent::Ready(r);
    }

    /// Move into the dropped state, with a default payload
    pub fn set_dropped(&mut self) where D: Default
        ensures
            *final(self) is Dropped,
            call_ensures(D::default, (), final(self)->Dropped_0),
    {
        *self = LazyComponent::Dropped(D::default());
    }

    pub fn set_dropped_with(&mut self, d: D)
        ensures
            *final(self) == LazyComponent::<R, P, D>::Dropped(d),
    {
        *self = LazyComponent::Dropped(d);
    }

    /// Take the current state out, leaving the component dropped
    pub fn take(&mut self) -> (res: Self) where D: Default
        ensures
            res == *old(self),
            *final(self) is Dropped,
            call_ensures(D::default, (), final(self)->Dropped_0),
    {
        let mut out = LazyComponent::Dropped(D::default());
        std::mem::swap(self, &mut out);
        out
    }

    /// The ready value, if the component is ready
    pub fn get(&self) -> (res: Option<&R>)
        ensures
            match res {
                Some(r) => self.ready_value() == Some(*r),
                None => self.ready_value() is None,
            },
    {
        match self {
            LazyComponent::Ready(r) => Some(r),
            _ => None,
        }
    }

    /// Mutable access to the ready value, if the component is ready
    pub fn get_mut(&mut self) -> (res: Option<&mut R>)
        ensures
            match res {
                Some(r) => {
                    &&& old(self).ready_value() == Some(*r)
                    &&& *final(self) == LazyComponent::<R, P, D>::Ready(*final(r))
                },
                None => {
                    &&& old(self).ready_value() is None
                    &&& *final(self) == *old(self)
                },
            },
    {
        match self {
            LazyComponent::Ready(r) => Some(r),
            _ => None,
        }
    }
}

/// The state flags of a component: exactly one of them holds, whatever the state.
pub proof fn lemma_exactly_one_state<R, P, D>(c: LazyComponent<R, P, D>)
    ensures
        (c is Pending) || (c is Ready) || (c is Dropped),
        !((c is Pending) && (c is Ready)),
        !((c is Pending) && (c is Dropped)),
        !((c is Ready) && (c is Dropped)),
{
}

/// A component holds a ready value exactly when it is in the ready state.
pub proof fn lemma_ready_value_iff_ready<R, P, D>(c: LazyComponent<R, P, D>)
    ensures
        (c.ready_value() is Some) <==> (c is Ready),
        (c is Ready) ==> c == LazyComponent::<R, P, D>::Ready(c.ready_value().unwrap()),
{
}

impl<R, P: Default, D> Default for LazyComponent<R, P, D> {
    /// A pending component with a default payload
    fn default() -> (res: Self)
        ensures
            res is Pending,
            call_ensures(P::default, (), res->Pending_0),
    {
        LazyComponent::Pending(P::default())
    }
}

impl<R, P, D> Construct<P, Z> for LazyComponent<R, P, D> {
    open spec fn constructed_from(t: P, res: Self) -> bool {
        res == LazyComponent::<R, P, D>::Pending(t)
    }

    fn construct(t: P) -> (res: Self) {
        LazyComponent::Pending(t)
    }
}

} // verus!
