use std::marker::PhantomData;
use vstd::prelude::*;

use crate::usage::Usage;

verus! {

/// Usage tag: the command-line arguments
pub enum EnvArgs {
    Tag,
}

pub type ArgsComponent = Usage<EnvArgs, Vec<String>>;

/// Usage tag: a position
pub enum Position {
    Tag,
}

/// Usage tag: a rotation
pub enum Rotation {
    Tag,
}

/// Usage tag: a scale
pub enum Scale {
    Tag,
}

/// Usage tag: entities that a value is copied to
pub enum CopyTo {
    Tag,
}

/// Usage tag: the name of an entity
pub enum NamedEntity {
    Tag,
}

/// Component identifying an entity by name
pub type NamedEntityComponent = Usage<NamedEntity, String>;

/// Usage tag: the map from names to entities
pub enum NamedEntities {
    Tag,
}

/// Usage tag: an entity tagged as a singleton
pub enum TaggedEntity {
    Tag,
}

/// Usage tag: the map from tags to singleton entities
pub enum TaggedEntities {
    Tag,
}

/// Swap two components of the same type in-place
#[derive(Debug, PartialEq, Eq, PartialOrd, Ord, Hash)]
pub struct SwapWith<T>(pub PhantomData<T>);

impl<T> Default for SwapWith<T> {
    fn default() -> (res: Self)
        ensures
            res == SwapWith::<T>(PhantomData),
    {
        SwapWith(PhantomData)
    }
}

} // verus!
