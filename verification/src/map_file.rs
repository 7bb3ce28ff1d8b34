use vstd::prelude::*;

verus! {

/// Usage tag: a parsed map file
pub enum MapFile {
    Tag,
}

/// Usage tag: the plane of each face
pub enum FacePlanesTag {
    Tag,
}

} // verus!
